//! Suggests `g_new`/`g_new0` in place of `g_malloc`/`g_malloc0` of a
//! `sizeof`, for type safety.

use vstd::prelude::*;

use crate::context::{c_files, AstContext};
use crate::model::expression::{arg_expr, derefs, CallExpression, Expression, SizeofOperand};
use crate::model::function::{body_exprs, body_stmts, calls_named, calls_of, last_decl_type, FunctionInfo};
use crate::model::project::FileModel;
use crate::model::statement::declarations_of;
use crate::model::types::{TypeInfo, UnaryOp};
use crate::rules::{
    call_text, check_definitions, fix_at, lemma_somes_take, opt_view, over_all_definitions, report,
    somes, violation_views, Category, Config, Fix, Violation, ViolationView,
};
use crate::text::{concat2, is_ascii_upper, push_str, str_views};

verus! {

pub struct UseGNew;

/// The type name that `g_new` is given for `t`: with its `struct` or `union`
/// keyword when it was written with one.
pub open spec fn full_type_name_spec(t: TypeInfo) -> Seq<char> {
    if t.is_struct {
        "struct "@ + t.base_type@
    } else if t.is_union {
        "union "@ + t.base_type@
    } else {
        t.base_type@
    }
}

/// The type that a `g_malloc(sizeof (...))` call in `func` allocates, when it
/// can tell: a type operand; a local non-pointer variable (its type); a name
/// that starts with an ASCII capital and is no local variable (taken as a
/// type); `*p` for a local pointer `p` (the type of `p`).
pub open spec fn allocated_type(func: FunctionInfo, c: CallExpression) -> Option<Seq<char>> {
    if c.arguments@.len() != 1 {
        None
    } else {
        match arg_expr(c.arguments@[0]) {
            Expression::Sizeof(s) => match s.operand {
                Some(SizeofOperand::Type(t)) => Some(full_type_name_spec(t)),
                Some(SizeofOperand::Expression(e)) => match *e {
                    Expression::Identifier(id) => match last_decl_type(
                        declarations_of(body_stmts(func)),
                        id.name@,
                    ) {
                        Some(t) => if t.pointer_depth > 0 {
                            None
                        } else {
                            Some(full_type_name_spec(t))
                        },
                        None => if id.name@.len() > 0 && is_ascii_upper(id.name@[0]) {
                            Some(id.name@)
                        } else {
                            None
                        },
                    },
                    Expression::Unary(u) => if u.operator == UnaryOp::Dereference {
                        match *u.operand {
                            Expression::Identifier(id) => match last_decl_type(
                                declarations_of(body_stmts(func)),
                                id.name@,
                            ) {
                                Some(t) => if t.pointer_depth < 1 {
                                    None
                                } else {
                                    Some(full_type_name_spec(t))
                                },
                                None => None,
                            },
                            _ => None,
                        }
                    } else {
                        None
                    },
                    _ => None,
                },
                None => None,
            },
            _ => None,
        }
    }
}

/// The violation for a `g_malloc`/`g_malloc0` call `c` of `func`, if any.
pub open spec fn g_new_report(space: bool, path: Seq<char>, func: FunctionInfo, c: CallExpression) -> Option<
    ViolationView,
> {
    match allocated_type(func, c) {
        Some(t) => {
            let suggested = if c.function@ == "g_malloc0"@ {
                "g_new0"@
            } else {
                "g_new"@
            };
            let replacement = call_text(space, suggested, seq![t, "1"@]);
            Some(
                report(
                    path,
                    c.location.line as nat,
                    c.location.column as nat,
                    "use_g_new"@,
                    "Use "@ + replacement + " instead of "@ + c.function@ + "(sizeof("@ + t
                        + ")) for type safety"@,
                    seq![
                        fix_at(
                            c.location.start_byte as nat,
                            c.location.end_byte as nat,
                            replacement,
                        ),
                    ],
                ),
            )
        },
        None => None,
    }
}

/// The `g_malloc` and `g_malloc0` calls of `func`, in walk order.
pub open spec fn malloc_calls(func: FunctionInfo) -> Seq<CallExpression> {
    calls_named(calls_of(body_exprs(func)), seq!["g_malloc"@, "g_malloc0"@])
}

/// The violations of one function definition.
pub open spec fn g_new_reports(space: bool, file: FileModel, func: FunctionInfo) -> Seq<ViolationView> {
    somes(malloc_calls(func).map_values(|c: CallExpression| g_new_report(space, file.path@, func, c)))
}

/// The per-function check of this rule.
pub open spec fn g_new_check(space: bool) -> spec_fn(FileModel, FunctionInfo) -> Seq<ViolationView> {
    |file: FileModel, func: FunctionInfo| g_new_reports(space, file, func)
}

impl UseGNew {
    pub fn name(&self) -> (r: &'static str)
        ensures
            r@ == "use_g_new"@,
    {
        "use_g_new"
    }

    pub fn description(&self) -> (r: &'static str)
        ensures
            r@ == "Suggest g_new/g_new0 instead of g_malloc/g_malloc0 with sizeof for type safety"@,
    {
        "Suggest g_new/g_new0 instead of g_malloc/g_malloc0 with sizeof for type safety"
    }

    pub fn category(&self) -> (r: Category)
        ensures
            r == Category::Complexity,
    {
        Category::Complexity
    }

    pub fn fixable(&self) -> (r: bool)
        ensures
            r,
    {
        true
    }

    /// The type name for `g_new`: with its `struct` or `union` keyword.
    pub fn full_type_name(type_info: &TypeInfo) -> (r: String)
        ensures
            r@ == full_type_name_spec(*type_info),
    {
        if type_info.is_struct {
            concat2("struct ", type_info.base_type.as_str())
        } else if type_info.is_union {
            concat2("union ", type_info.base_type.as_str())
        } else {
            type_info.base_type.clone()
        }
    }

    /// The type that the call allocates, when it can tell.
    fn allocated_type(func: &FunctionInfo, call: &CallExpression) -> (r: Option<String>)
        ensures
            r matches Some(s) ==> allocated_type(*func, *call) == Some(s@),
            r is None ==> allocated_type(*func, *call) is None,
    {
        if call.arguments.len() != 1 {
            return None;
        }
        let arg = match call.get_arg(0) {
            Some(a) => a,
            None => return None,
        };
        let sizeof_expr = match arg {
            Expression::Sizeof(s) => s,
            _ => return None,
        };
        match &sizeof_expr.operand {
            Some(SizeofOperand::Type(t)) => Some(Self::full_type_name(t)),
            Some(SizeofOperand::Expression(e)) => match &**e {
                Expression::Identifier(id) => match func.local_var_type(id.name.as_str()) {
                    Some(t) => {
                        if t.pointer_depth > 0 {
                            None
                        } else {
                            Some(Self::full_type_name(t))
                        }
                    },
                    None => {
                        let first = first_char(id.name.as_str());
                        match first {
                            Some(c) => {
                                if 'A' <= c && c <= 'Z' {
                                    Some(id.name.clone())
                                } else {
                                    None
                                }
                            },
                            None => None,
                        }
                    },
                },
                Expression::Unary(u) => {
                    if u.operator == UnaryOp::Dereference {
                        match &*u.operand {
                            Expression::Identifier(id) => match func.local_var_type(
                                id.name.as_str(),
                            ) {
                                Some(t) => {
                                    if t.pointer_depth < 1 {
                                        None
                                    } else {
                                        Some(Self::full_type_name(t))
                                    }
                                },
                                None => None,
                            },
                            _ => None,
                        }
                    } else {
                        None
                    }
                },
                _ => None,
            },
            None => None,
        }
    }

    /// The violation for one `g_malloc`/`g_malloc0` call, if any.
    pub fn check_call(&self, file: &FileModel, call: &CallExpression, func: &FunctionInfo, config: &Config) -> (r: Option<Violation>)
        ensures
            opt_view(r) == g_new_report(config.style.space_before_paren, file.path@, *func, *call),
    {
        let alloc_type = match Self::allocated_type(func, call) {
            Some(t) => t,
            None => return None,
        };
        let suggested: &str = if call.is_function("g_malloc0") {
            "g_new0"
        } else {
            "g_new"
        };
        let args: [&str; 2] = [alloc_type.as_str(), "1"];
        let replacement = config.style.format_call(suggested, &args);
        assert(args@.map_values(|a: &str| a@) =~= seq![alloc_type@, "1"@]);
        let mut message = concat2("Use ", replacement.as_str());
        push_str(&mut message, " instead of ");
        push_str(&mut message, call.function.as_str());
        push_str(&mut message, "(sizeof(");
        push_str(&mut message, alloc_type.as_str());
        push_str(&mut message, ")) for type safety");
        let fix = Fix::new(call.location.start_byte, call.location.end_byte, replacement);
        let v = Violation::with_fix_at(file.path.as_str(), &call.location, "use_g_new", message, fix);
        Some(v)
    }

    /// The violations of one function definition of `file`.
    pub fn check_function(&self, file: &FileModel, func: &FunctionInfo, config: &Config) -> (r: Vec<Violation>)
        ensures
            violation_views(r@) == g_new_reports(config.style.space_before_paren, *file, *func),
    {
        let names: [&str; 2] = ["g_malloc", "g_malloc0"];
        assert(str_views(names@) =~= seq!["g_malloc"@, "g_malloc0"@]);
        let calls = func.find_calls(&names);
        let ghost space = config.style.space_before_paren;
        let ghost opts = malloc_calls(*func).map_values(
            |c: CallExpression| g_new_report(space, file.path@, *func, c),
        );
        let mut out: Vec<Violation> = Vec::new();
        let mut i: usize = 0;
        while i < calls.len()
            invariant
                i <= calls@.len(),
                derefs(calls@) == malloc_calls(*func),
                space == config.style.space_before_paren,
                opts == malloc_calls(*func).map_values(
                    |c: CallExpression| g_new_report(space, file.path@, *func, c),
                ),
                violation_views(out@) == somes(opts.take(i as int)),
            decreases calls@.len() - i,
        {
            let c: &CallExpression = calls[i];
            assert(derefs(calls@)[i as int] == *c);
            proof {
                lemma_somes_take(opts, i as int);
            }
            let found = self.check_call(file, c, func, config);
            match found {
                Some(v) => {
                    let ghost before = out@;
                    out.push(v);
                    assert(violation_views(out@) =~= violation_views(before).push(v@));
                },
                None => {
                    assert(somes(opts.take(i + 1)) =~= somes(opts.take(i as int)));
                },
            }
            i = i + 1;
        }
        assert(opts.take(calls@.len() as int) =~= opts);
        out
    }

    /// Reports every `g_malloc`/`g_malloc0` of a `sizeof` whose type it can
    /// tell, in the function definitions of the `.c` files.
    pub fn check_all(&self, ast_context: &AstContext, config: &Config, violations: &mut Vec<Violation>)
        ensures
            violation_views(final(violations)@) == violation_views(old(violations)@)
                + over_all_definitions(c_files(*ast_context), g_new_check(config.style.space_before_paren)),
    {
        let files = ast_context.iter_c_files();
        let check = |file: &FileModel, func: &FunctionInfo| -> (r: Vec<Violation>)
            ensures
                violation_views(r@) == g_new_reports(config.style.space_before_paren, *file, *func),
            {
                let found = self.check_function(file, func, config);
                found
            };
        check_definitions(&files, check, Ghost(g_new_check(config.style.space_before_paren)), violations);
    }
}

/// The first character of `s`, if it has one.
pub fn first_char(s: &str) -> (r: Option<char>)
    ensures
        r matches Some(c) ==> s@.len() > 0 && c == s@[0],
        r is None ==> s@.len() == 0,
{
    let cs = crate::text::chars_of(s);
    if cs.len() == 0 {
        None
    } else {
        Some(cs[0])
    }
}

} // verus!
