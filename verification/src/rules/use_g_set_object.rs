//! Suggests `g_set_object()` in place of `g_clear_object`/`g_object_unref`
//! followed by an assignment of `g_object_ref (...)`.

use vstd::prelude::*;

use crate::context::{c_files, AstContext};
use crate::model::expression::{arg_expr, expr_location, Argument, Expression};
use crate::model::function::FunctionInfo;
use crate::model::location::{text_of, utf8_text};
use crate::model::project::FileModel;
use crate::model::statement::{stmt_location, Statement};
use crate::model::types::{unary_op_text, AssignmentOp, UnaryOp};
use crate::rules::{
    check_definitions, fix_at, over_all_definitions, report, violation_views, Category, Config, Fix,
    Violation, ViolationView,
};
use crate::text::{concat2, is_layout_char, owned, push_str, strip_front, trim_start_layout};

verus! {

pub struct UseGSetObject;

/// The text that the rule rebuilds for an expression: identifiers and field
/// accesses as written, prefix operators before their operand, calls as
/// `name (a, b)`; nothing for other expressions.
pub open spec fn expr_text(e: Expression) -> Seq<char>
    decreases e, 1int,
{
    match e {
        Expression::Identifier(id) => id.name@,
        Expression::FieldAccess(f) => f.text@,
        Expression::Unary(u) => unary_op_text(u.operator) + expr_text(*u.operand),
        Expression::Call(c) => c.function@ + " ("@ + args_text(c.arguments@, c.arguments@.len() as int)
            + ")"@,
        _ => Seq::empty(),
    }
}

/// The texts of the first `n` of `args`, joined with `", "`.
pub open spec fn args_text(args: Seq<Argument>, n: int) -> Seq<char>
    decreases args, 0int, n,
{
    if n <= 0 || n > args.len() {
        Seq::empty()
    } else if n == 1 {
        arg_text(args[0])
    } else {
        args_text(args, n - 1) + ", "@ + arg_text(args[n - 1])
    }
}

/// The text of one argument.
pub open spec fn arg_text(a: Argument) -> Seq<char>
    decreases a, 0int,
{
    match a {
        Argument::Expression(e) => expr_text(*e),
    }
}

/// The variable that `s` releases: for `g_clear_object (&var)` the variable
/// (assigned directly), for `g_clear_object (ptr)` the pointer (assigned
/// through `*`), for `g_object_unref (var)` the variable.
pub open spec fn released_var(s: Statement) -> Option<(Seq<char>, bool)> {
    match s {
        Statement::Expression(es) => match es.expr {
            Expression::Call(c) => if c.arguments@.len() == 0 {
                None
            } else if c.function@ == "g_clear_object"@ {
                match arg_expr(c.arguments@[0]) {
                    Expression::Unary(u) => if u.operator == UnaryOp::AddressOf {
                        Some((expr_text(*u.operand), false))
                    } else {
                        Some((expr_text(arg_expr(c.arguments@[0])), true))
                    },
                    _ => Some((expr_text(arg_expr(c.arguments@[0])), true)),
                }
            } else if c.function@ == "g_object_unref"@ {
                Some((expr_text(arg_expr(c.arguments@[0])), false))
            } else {
                None
            },
            _ => None,
        },
        _ => None,
    }
}

/// The text of the left-hand side of an assignment: its source text, or
/// nothing when that lies outside the source or is not UTF-8.
pub open spec fn lhs_text(source: Seq<u8>, lhs: Expression) -> Seq<char> {
    if expr_location(lhs).within(source.len() as int) {
        match text_of(source, expr_location(lhs).start_byte as int, expr_location(lhs).end_byte as int) {
            Some(t) => t,
            None => Seq::empty(),
        }
    } else {
        Seq::empty()
    }
}

/// `(var, value)` when `s` is `var = g_object_ref (value, ...)` with a
/// non-empty left-hand side.
pub open spec fn ref_assignment(source: Seq<u8>, s: Statement) -> Option<(Seq<char>, Seq<char>)> {
    match s {
        Statement::Expression(es) => match es.expr {
            Expression::Assignment(a) => if a.operator != AssignmentOp::Assign {
                None
            } else {
                match *a.rhs {
                    Expression::Call(c) => if c.function@ == "g_object_ref"@ && c.arguments@.len()
                        > 0 && lhs_text(source, *a.lhs).len() > 0 {
                        Some((lhs_text(source, *a.lhs), arg_text(c.arguments@[0])))
                    } else {
                        None
                    },
                    _ => None,
                }
            },
            _ => None,
        },
        _ => None,
    }
}

/// The text between two statements (the comments there): their source
/// between the end of the first and the start of the second, when it is in
/// order, within the source and UTF-8; nothing otherwise.
pub open spec fn between_text(source: Seq<u8>, s1: Statement, s2: Statement) -> Seq<char> {
    let a = stmt_location(s1).end_byte as int;
    let b = stmt_location(s2).start_byte as int;
    if a <= b <= source.len() {
        match text_of(source, a, b) {
            Some(t) => t,
            None => Seq::empty(),
        }
    } else {
        Seq::empty()
    }
}

/// The `g_set_object` call that replaces the pair.
pub open spec fn set_object_call(var: Seq<char>, needs_deref: bool, value: Seq<char>) -> Seq<char> {
    if needs_deref {
        "g_set_object ("@ + var + ", "@ + value + ");"@
    } else {
        "g_set_object (&"@ + var + ", "@ + value + ");"@
    }
}

/// The violation for the statement pair `s1`, `s2`, if they release a
/// variable and then assign it a new reference.
pub open spec fn pair_report(path: Seq<char>, source: Seq<u8>, s1: Statement, s2: Statement) -> Option<
    ViolationView,
> {
    match released_var(s1) {
        Some((var, needs_deref)) => match ref_assignment(source, s2) {
            Some((target, value)) => {
                let expected = if needs_deref {
                    "*"@ + var
                } else {
                    var
                };
                if target != expected {
                    None
                } else {
                    let call = set_object_call(var, needs_deref, value);
                    let comments = strip_front(
                        between_text(source, s1, s2),
                        |c: char| is_layout_char(c),
                    );
                    Some(
                        report(
                            path,
                            stmt_location(s1).line as nat,
                            stmt_location(s1).column as nat,
                            "use_g_set_object"@,
                            "Use "@ + call + " instead of g_clear_object and g_object_ref"@,
                            seq![
                                fix_at(
                                    stmt_location(s1).start_byte as nat,
                                    stmt_location(s2).end_byte as nat,
                                    comments + call,
                                ),
                            ],
                        ),
                    )
                }
            },
            None => None,
        },
        None => None,
    }
}

/// The violations in `ss[i..]`: a matching pair is reported and skipped as
/// a whole; any other statement is searched for nested statement lists.
pub open spec fn set_object_list(path: Seq<char>, source: Seq<u8>, ss: Seq<Statement>, i: int) -> Seq<
    ViolationView,
>
    decreases ss, ss.len() - i,
{
    if i < 0 || i >= ss.len() {
        Seq::empty()
    } else if i + 1 < ss.len() && pair_report(path, source, ss[i], ss[i + 1]) is Some {
        seq![pair_report(path, source, ss[i], ss[i + 1]).unwrap()] + set_object_list(
            path,
            source,
            ss,
            i + 2,
        )
    } else {
        set_object_in(path, source, ss[i]) + set_object_list(path, source, ss, i + 1)
    }
}

/// The violations in the statement lists nested in `s`: the branches of an
/// `if`, the body of a block, the statement of a label.
pub open spec fn set_object_in(path: Seq<char>, source: Seq<u8>, s: Statement) -> Seq<ViolationView>
    decreases s, 0int,
{
    match s {
        Statement::If(x) => set_object_list(path, source, x.then_body@, 0) + match x.else_body {
            Some(e) => set_object_list(path, source, e@, 0),
            None => Seq::empty(),
        },
        Statement::Compound(c) => set_object_list(path, source, c.statements@, 0),
        Statement::Labeled(l) => set_object_in(path, source, *l.statement),
        _ => Seq::empty(),
    }
}

/// The violations of one function definition of `file`.
pub open spec fn set_object_reports(file: FileModel, func: FunctionInfo) -> Seq<ViolationView> {
    set_object_list(file.path@, file.source@, func.body_statements@, 0)
}

/// The per-function check of this rule.
pub open spec fn set_object_check() -> spec_fn(FileModel, FunctionInfo) -> Seq<ViolationView> {
    |file: FileModel, func: FunctionInfo| set_object_reports(file, func)
}

impl UseGSetObject {
    pub fn name(&self) -> (r: &'static str)
        ensures
            r@ == "use_g_set_object"@,
    {
        "use_g_set_object"
    }

    pub fn description(&self) -> (r: &'static str)
        ensures
            r@ == "Suggest g_set_object() instead of manual g_clear_object and g_object_ref"@,
    {
        "Suggest g_set_object() instead of manual g_clear_object and g_object_ref"
    }

    pub fn category(&self) -> (r: Category)
        ensures
            r == Category::Complexity,
    {
        Category::Complexity
    }

    pub fn fixable(&self) -> (r: bool)
        ensures
            r,
    {
        true
    }

    /// The text the rule rebuilds for an expression.
    pub fn expr_to_string(&self, expr: &Expression) -> (r: String)
        ensures
            r@ == expr_text(*expr),
        decreases expr, 1int,
    {
        match expr {
            Expression::Identifier(id) => id.name.clone(),
            Expression::FieldAccess(f) => f.text(),
            Expression::Unary(u) => {
                let inner = self.expr_to_string(&u.operand);
                concat2(u.operator.as_str(), inner.as_str())
            },
            Expression::Call(call) => {
                let mut s = concat2(call.function.as_str(), " (");
                let args = self.args_to_string(&call.arguments, call.arguments.len());
                push_str(&mut s, args.as_str());
                push_str(&mut s, ")");
                s
            },
            _ => String::new(),
        }
    }

    /// The texts of the first `n` arguments, joined with `", "`.
    fn args_to_string(&self, args: &Vec<Argument>, n: usize) -> (r: String)
        requires
            n <= args@.len(),
        ensures
            r@ == args_text(args@, n as int),
        decreases args@, 0int, n,
    {
        if n == 0 {
            String::new()
        } else if n == 1 {
            self.arg_to_string(&args[0])
        } else {
            let mut s = self.args_to_string(args, n - 1);
            push_str(&mut s, ", ");
            let last = self.arg_to_string(&args[n - 1]);
            push_str(&mut s, last.as_str());
            s
        }
    }

    /// The text of one argument.
    pub fn arg_to_string(&self, arg: &Argument) -> (r: String)
        ensures
            r@ == arg_text(*arg),
        decreases arg, 0int,
    {
        match arg {
            Argument::Expression(e) => self.expr_to_string(e),
        }
    }

    /// The variable that `stmt` releases, and whether the assignment goes
    /// through `*`.
    pub fn extract_clear_or_unref_var(&self, stmt: &Statement) -> (r: Option<(String, bool)>)
        ensures
            r matches Some((v, d)) ==> released_var(*stmt) == Some((v@, d)),
            r is None ==> released_var(*stmt) is None,
    {
        let es = match stmt {
            Statement::Expression(es) => es,
            _ => return None,
        };
        let call = match &es.expr {
            Expression::Call(c) => c,
            _ => return None,
        };
        if call.arguments.len() == 0 {
            return None;
        }
        let first = match call.get_arg(0) {
            Some(e) => e,
            None => return None,
        };
        if call.is_function("g_clear_object") {
            if let Expression::Unary(u) = first {
                if u.operator == UnaryOp::AddressOf {
                    return Some((self.expr_to_string(&u.operand), false));
                }
            }
            Some((self.expr_to_string(first), true))
        } else if call.is_function("g_object_unref") {
            Some((self.expr_to_string(first), false))
        } else {
            None
        }
    }

    /// `(var, value)` when `stmt` is `var = g_object_ref (value, ...)`.
    pub fn extract_object_ref_assignment(&self, stmt: &Statement, source: &[u8]) -> (r: Option<(String, String)>)
        ensures
            r matches Some((v, x)) ==> ref_assignment(source@, *stmt) == Some((v@, x@)),
            r is None ==> ref_assignment(source@, *stmt) is None,
    {
        let es = match stmt {
            Statement::Expression(es) => es,
            _ => return None,
        };
        let assign = match &es.expr {
            Expression::Assignment(a) => a,
            _ => return None,
        };
        if assign.operator != AssignmentOp::Assign {
            return None;
        }
        if let Expression::Call(call) = &*assign.rhs {
            if call.is_function("g_object_ref") && call.arguments.len() > 0 {
                let new_val = self.arg_to_string(&call.arguments[0]);
                let loc = assign.lhs.location();
                let var_name: String = if loc.start_byte <= loc.end_byte && loc.end_byte <= source.len() {
                    owned(assign.lhs_as_text(source))
                } else {
                    String::new()
                };
                if crate::text::chars_of(var_name.as_str()).len() > 0 {
                    return Some((var_name, new_val));
                }
            }
        }
        None
    }

    /// The violation for the pair `s1`, `s2`, if they match.
    pub fn try_clear_then_ref(&self, s1: &Statement, s2: &Statement, file_path: &str, source: &[u8]) -> (r: Option<Violation>)
        ensures
            r matches Some(v) ==> pair_report(file_path@, source@, *s1, *s2) == Some(v@),
            r is None ==> pair_report(file_path@, source@, *s1, *s2) is None,
    {
        let (var_name, needs_deref) = match self.extract_clear_or_unref_var(s1) {
            Some(p) => p,
            None => return None,
        };
        let (assign_var, new_val) = match self.extract_object_ref_assignment(s2, source) {
            Some(p) => p,
            None => return None,
        };
        let expected = if needs_deref {
            concat2("*", var_name.as_str())
        } else {
            var_name.clone()
        };
        if !crate::text::str_eq(assign_var.as_str(), expected.as_str()) {
            return None;
        }
        let mut call = if needs_deref {
            concat2("g_set_object (", var_name.as_str())
        } else {
            concat2("g_set_object (&", var_name.as_str())
        };
        push_str(&mut call, ", ");
        push_str(&mut call, new_val.as_str());
        push_str(&mut call, ");");
        let a = s1.location().end_byte;
        let b = s2.location().start_byte;
        let between: String = if a <= b && b <= source.len() {
            match utf8_text(vstd::slice::slice_subrange(source, a, b)) {
                Some(t) => owned(t),
                None => String::new(),
            }
        } else {
            String::new()
        };
        let comments = trim_start_layout(between.as_str());
        let fix_text = concat2(comments.as_str(), call.as_str());
        let fix = Fix::new(s1.location().start_byte, s2.location().end_byte, fix_text);
        let mut message = concat2("Use ", call.as_str());
        push_str(&mut message, " instead of g_clear_object and g_object_ref");
        let mut fixes: Vec<Fix> = Vec::new();
        fixes.push(fix);
        assert(crate::rules::fix_views(fixes@) =~= seq![fixes@[0]@]);
        Some(Violation::new(
            file_path,
            s1.location().line,
            s1.location().column,
            "use_g_set_object",
            message,
            fixes,
        ))
    }

    /// The violations in a list of statements.
    pub fn check_statements(&self, statements: &Vec<Statement>, file_path: &str, source: &[u8]) -> (r: Vec<Violation>)
        ensures
            violation_views(r@) == set_object_list(file_path@, source@, statements@, 0),
        decreases statements, 1int,
    {
        let mut out: Vec<Violation> = Vec::new();
        let n = statements.len();
        let mut i: usize = 0;
        while i < n
            invariant
                n == statements@.len(),
                i <= n,
                violation_views(out@) + set_object_list(file_path@, source@, statements@, i as int)
                    == set_object_list(file_path@, source@, statements@, 0),
            decreases n - i,
        {
            if i + 1 < n {
                match self.try_clear_then_ref(&statements[i], &statements[i + 1], file_path, source) {
                    Some(v) => {
                        let ghost before = violation_views(out@);
                        out.push(v);
                        proof {
                            assert(violation_views(out@) =~= before.push(v@));
                            assert(before + set_object_list(file_path@, source@, statements@, i as int)
                                =~= violation_views(out@) + set_object_list(
                                file_path@,
                                source@,
                                statements@,
                                i + 2,
                            ));
                        }
                        i = i + 2;
                        continue;
                    },
                    None => {},
                }
            }
            let nested = self.check_nested(&statements[i], file_path, source);
            let ghost before = violation_views(out@);
            let mut nested = nested;
            let ghost nv = violation_views(nested@);
            out.append(&mut nested);
            proof {
                assert(violation_views(out@) =~= before + nv);
                assert(before + set_object_list(file_path@, source@, statements@, i as int)
                    =~= violation_views(out@) + set_object_list(
                    file_path@,
                    source@,
                    statements@,
                    i + 1,
                ));
            }
            i = i + 1;
        }
        proof {
            assert(violation_views(out@) + Seq::empty() =~= violation_views(out@));
        }
        out
    }

    /// The violations in the statement lists nested in `stmt`.
    fn check_nested(&self, stmt: &Statement, file_path: &str, source: &[u8]) -> (r: Vec<Violation>)
        ensures
            violation_views(r@) == set_object_in(file_path@, source@, *stmt),
        decreases stmt, 0int,
    {
        match stmt {
            Statement::If(x) => {
                let mut a = self.check_statements(&x.then_body, file_path, source);
                match &x.else_body {
                    Some(e) => {
                        let mut b = self.check_statements(e, file_path, source);
                        let ghost av = violation_views(a@);
                        let ghost bv = violation_views(b@);
                        a.append(&mut b);
                        assert(violation_views(a@) =~= av + bv);
                    },
                    None => {
                        assert(violation_views(a@) =~= violation_views(a@) + Seq::empty());
                    },
                }
                a
            },
            Statement::Compound(c) => self.check_statements(&c.statements, file_path, source),
            Statement::Labeled(l) => self.check_nested(&l.statement, file_path, source),
            _ => {
                let out: Vec<Violation> = Vec::new();
                assert(violation_views(out@) =~= Seq::<ViolationView>::empty());
                out
            },
        }
    }

    /// The violations of one function definition of `file`.
    pub fn check_function(&self, file: &FileModel, func: &FunctionInfo) -> (r: Vec<Violation>)
        ensures
            violation_views(r@) == set_object_reports(*file, *func),
    {
        self.check_statements(&func.body_statements, file.path.as_str(), file.source.as_slice())
    }

    /// Reports, in the function definitions of the `.c` files, each
    /// `g_clear_object`/`g_object_unref` of a variable followed at once by
    /// an assignment of `g_object_ref (...)` to it.
    pub fn check_all(&self, ast_context: &AstContext, config: &Config, violations: &mut Vec<Violation>)
        ensures
            violation_views(final(violations)@) == violation_views(old(violations)@)
                + over_all_definitions(c_files(*ast_context), set_object_check()),
    {
        let files = ast_context.iter_c_files();
        let check = |file: &FileModel, func: &FunctionInfo| -> (r: Vec<Violation>)
            ensures
                violation_views(r@) == set_object_reports(*file, *func),
            {
                let found = self.check_function(file, func);
                found
            };
        check_definitions(&files, check, Ghost(set_object_check()), violations);
    }
}

} // verus!
