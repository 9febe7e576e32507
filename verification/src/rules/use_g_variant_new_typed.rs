//! Prefers the typed `g_variant_new_*` constructors to `g_variant_new` with a
//! one-character format string.

use vstd::prelude::*;

use crate::context::{c_files, c_files_of, AstContext};
use crate::model::expression::{arg_expr, derefs, expr_location, Argument, CallExpression, Expression};
use crate::model::function::{body_exprs, calls_named, calls_of, lemma_calls_named_subset, FunctionInfo};
use crate::model::location::text_of;
use crate::model::project::FileModel;
use crate::rules::{
    check_definitions, file_seq, fix_at, join_args, lemma_somes_take, opt_view, over_all_definitions,
    report, somes, violation_views, Category, Config, Fix, Violation, ViolationView,
};
use crate::text::{concat2, push_str, str_eq, str_views, trim_quotes, trim_quotes_spec};

verus! {

pub struct UseGVariantNewTyped;

/// The format strings that have a typed constructor, with its name.
pub open spec fn variant_table() -> Seq<(Seq<char>, Seq<char>)> {
    seq![
        ("s"@, "g_variant_new_string"@),
        ("b"@, "g_variant_new_boolean"@),
        ("y"@, "g_variant_new_byte"@),
        ("n"@, "g_variant_new_int16"@),
        ("q"@, "g_variant_new_uint16"@),
        ("i"@, "g_variant_new_int32"@),
        ("u"@, "g_variant_new_uint32"@),
        ("x"@, "g_variant_new_int64"@),
        ("t"@, "g_variant_new_uint64"@),
        ("h"@, "g_variant_new_handle"@),
        ("d"@, "g_variant_new_double"@),
        ("o"@, "g_variant_new_object_path"@),
        ("g"@, "g_variant_new_signature"@),
        ("v"@, "g_variant_new_variant"@),
    ]
}

/// The typed constructor of the format string `fmt`: the first entry of
/// `table` for it.
pub open spec fn lookup_typed(table: Seq<(Seq<char>, Seq<char>)>, fmt: Seq<char>) -> Option<Seq<char>>
    decreases table.len(),
{
    if table.len() == 0 {
        None
    } else if table[0].0 == fmt {
        Some(table[0].1)
    } else {
        lookup_typed(table.drop_first(), fmt)
    }
}

/// The source texts of `args` that read as text, in order.
pub open spec fn arg_texts(source: Seq<u8>, args: Seq<Argument>) -> Seq<Seq<char>> {
    somes(
        args.map_values(
            |a: Argument|
                text_of(
                    source,
                    expr_location(arg_expr(a)).start_byte as int,
                    expr_location(arg_expr(a)).end_byte as int,
                ),
        ),
    )
}

/// The format string of a `g_variant_new` call: its first argument, a
/// string literal, without its quotes.
pub open spec fn variant_format(c: CallExpression) -> Option<Seq<char>> {
    if c.arguments@.len() == 0 {
        None
    } else {
        match arg_expr(c.arguments@[0]) {
            Expression::StringLiteral(lit) => Some(trim_quotes_spec(lit.value@)),
            _ => None,
        }
    }
}

/// The replacement of a `g_variant_new` call with a simple format string.
pub open spec fn variant_replacement(source: Seq<u8>, c: CallExpression, typed: Seq<char>) -> Seq<char> {
    let rest = join_args(arg_texts(source, c.arguments@.skip(1)));
    if rest.len() == 0 {
        typed + " ()"@
    } else {
        typed + " ("@ + rest + ")"@
    }
}

/// The violation for a `g_variant_new` call `c` of a file, if any.
pub open spec fn variant_report(path: Seq<char>, source: Seq<u8>, c: CallExpression) -> Option<
    ViolationView,
> {
    match variant_format(c) {
        Some(fmt) => match lookup_typed(variant_table(), fmt) {
            Some(typed) => {
                let replacement = variant_replacement(source, c, typed);
                Some(
                    report(
                        path,
                        c.location.line as nat,
                        c.location.column as nat,
                        "use_g_variant_new_typed"@,
                        "Use "@ + replacement + " instead of g_variant_new(\""@ + fmt
                            + "\", ...) for type safety"@,
                        seq![
                            fix_at(
                                c.location.start_byte as nat,
                                c.location.end_byte as nat,
                                replacement,
                            ),
                        ],
                    ),
                )
            },
            None => None,
        },
        None => None,
    }
}

/// The `g_variant_new` calls of `func`, in walk order.
pub open spec fn variant_calls(func: FunctionInfo) -> Seq<CallExpression> {
    calls_named(calls_of(body_exprs(func)), seq!["g_variant_new"@])
}

/// The violations of one function definition of `file`.
pub open spec fn variant_reports(file: FileModel, func: FunctionInfo) -> Seq<ViolationView> {
    somes(
        variant_calls(func).map_values(
            |c: CallExpression| variant_report(file.path@, file.source@, c),
        ),
    )
}

/// The per-function check of this rule.
pub open spec fn variant_check() -> spec_fn(FileModel, FunctionInfo) -> Seq<ViolationView> {
    |file: FileModel, func: FunctionInfo| variant_reports(file, func)
}

/// Every argument of every call of `func` lies within a source of `len`
/// bytes.
pub open spec fn call_args_within(func: FunctionInfo, len: int) -> bool {
    forall|k: int, m: int|
        0 <= k < calls_of(body_exprs(func)).len() && 0 <= m < calls_of(
            body_exprs(func),
        )[k].arguments@.len() ==> expr_location(
            arg_expr(#[trigger] calls_of(body_exprs(func))[k].arguments@[m]),
        ).within(len)
}

/// The typed constructor for the format string `fmt`, if there is one.
pub fn typed_variant_constructor(fmt: &str) -> (r: Option<&'static str>)
    ensures
        r matches Some(t) ==> lookup_typed(variant_table(), fmt@) == Some(t@),
        r is None ==> lookup_typed(variant_table(), fmt@) is None,
{
    let table: [(&'static str, &'static str); 14] = [
        ("s", "g_variant_new_string"),
        ("b", "g_variant_new_boolean"),
        ("y", "g_variant_new_byte"),
        ("n", "g_variant_new_int16"),
        ("q", "g_variant_new_uint16"),
        ("i", "g_variant_new_int32"),
        ("u", "g_variant_new_uint32"),
        ("x", "g_variant_new_int64"),
        ("t", "g_variant_new_uint64"),
        ("h", "g_variant_new_handle"),
        ("d", "g_variant_new_double"),
        ("o", "g_variant_new_object_path"),
        ("g", "g_variant_new_signature"),
        ("v", "g_variant_new_variant"),
    ];
    let ghost views = table@.map_values(|p: (&str, &str)| (p.0@, p.1@));
    assert(views =~= variant_table());
    assert(views.skip(0) =~= views);
    let mut k: usize = 0;
    while k < 14
        invariant
            k <= 14,
            table@.len() == 14,
            views == table@.map_values(|p: (&str, &str)| (p.0@, p.1@)),
            lookup_typed(variant_table(), fmt@) == lookup_typed(views.skip(k as int), fmt@),
        decreases 14 - k,
    {
        assert(views.skip(k as int).drop_first() =~= views.skip(k + 1));
        let (f, t) = table[k];
        if str_eq(fmt, f) {
            return Some(t);
        }
        k = k + 1;
    }
    None
}

impl UseGVariantNewTyped {
    pub fn name(&self) -> (r: &'static str)
        ensures
            r@ == "use_g_variant_new_typed"@,
    {
        "use_g_variant_new_typed"
    }

    pub fn description(&self) -> (r: &'static str)
        ensures
            r@ == "Prefer g_variant_new_string/boolean/etc over g_variant_new with format strings"@,
    {
        "Prefer g_variant_new_string/boolean/etc over g_variant_new with format strings"
    }

    pub fn category(&self) -> (r: Category)
        ensures
            r == Category::Style,
    {
        Category::Style
    }

    pub fn fixable(&self) -> (r: bool)
        ensures
            r,
    {
        true
    }

    /// The source texts of the arguments after the first, joined with
    /// `", "`.
    fn rest_args(call: &CallExpression, source: &[u8]) -> (r: String)
        requires
            call.arguments@.len() > 0,
            forall|m: int|
                0 <= m < call.arguments@.len() ==> expr_location(
                    arg_expr(#[trigger] call.arguments@[m]),
                ).within(source@.len() as int),
        ensures
            r@ == join_args(arg_texts(source@, call.arguments@.skip(1))),
    {
        let ghost rest = call.arguments@.skip(1);
        let ghost texts = rest.map_values(
            |a: Argument|
                text_of(
                    source@,
                    expr_location(arg_expr(a)).start_byte as int,
                    expr_location(arg_expr(a)).end_byte as int,
                ),
        );
        let mut out = String::new();
        let mut any = false;
        let mut m: usize = 1;
        while m < call.arguments.len()
            invariant
                1 <= m <= call.arguments@.len(),
                rest == call.arguments@.skip(1),
                texts == rest.map_values(
                    |a: Argument|
                        text_of(
                            source@,
                            expr_location(arg_expr(a)).start_byte as int,
                            expr_location(arg_expr(a)).end_byte as int,
                        ),
                ),
                forall|k: int|
                    0 <= k < call.arguments@.len() ==> expr_location(
                        arg_expr(#[trigger] call.arguments@[k]),
                    ).within(source@.len() as int),
                any == (somes(texts.take(m - 1)).len() > 0),
                out@ == join_args(somes(texts.take(m - 1))),
            decreases call.arguments@.len() - m,
        {
            proof {
                lemma_somes_take(texts, m - 1);
                assert(texts[m - 1] == text_of(
                    source@,
                    expr_location(arg_expr(call.arguments@[m as int])).start_byte as int,
                    expr_location(arg_expr(call.arguments@[m as int])).end_byte as int,
                ));
            }
            match call.arguments[m].to_source_string(source) {
                Some(t) => {
                    let ghost prev = somes(texts.take(m - 1));
                    if any {
                        push_str(&mut out, ", ");
                    }
                    push_str(&mut out, t.as_str());
                    proof {
                        let now = somes(texts.take(m as int));
                        assert(now =~= prev.push(t@));
                        if prev.len() == 0 {
                            assert(out@ =~= join_args(now));
                        } else {
                            assert(now.drop_last() =~= prev);
                            assert(out@ =~= join_args(now));
                        }
                    }
                    any = true;
                },
                None => {
                    assert(somes(texts.take(m as int)) =~= somes(texts.take(m - 1)));
                },
            }
            m = m + 1;
        }
        assert(texts.take(m - 1) =~= texts);
        out
    }

    /// The violation for one `g_variant_new` call, if any.
    pub fn check_call(&self, file_path: &str, call: &CallExpression, source: &[u8]) -> (r: Option<Violation>)
        requires
            forall|m: int|
                0 <= m < call.arguments@.len() ==> expr_location(
                    arg_expr(#[trigger] call.arguments@[m]),
                ).within(source@.len() as int),
        ensures
            opt_view(r) == variant_report(file_path@, source@, *call),
    {
        if call.arguments.len() == 0 {
            return None;
        }
        let first = match call.get_arg(0) {
            Some(e) => e,
            None => return None,
        };
        let lit = match first {
            Expression::StringLiteral(l) => l,
            _ => return None,
        };
        let format_str = trim_quotes(lit.value.as_str());
        let typed = match typed_variant_constructor(format_str.as_str()) {
            Some(t) => t,
            None => return None,
        };
        let rest = Self::rest_args(call, source);
        let replacement = if crate::text::chars_of(rest.as_str()).len() == 0 {
            concat2(typed, " ()")
        } else {
            let mut s = concat2(typed, " (");
            push_str(&mut s, rest.as_str());
            push_str(&mut s, ")");
            s
        };
        let mut message = concat2("Use ", replacement.as_str());
        push_str(&mut message, " instead of g_variant_new(\"");
        push_str(&mut message, format_str.as_str());
        push_str(&mut message, "\", ...) for type safety");
        let fix = Fix::new(call.location.start_byte, call.location.end_byte, replacement);
        Some(Violation::with_fix_at(file_path, &call.location, "use_g_variant_new_typed", message, fix))
    }

    /// The violations of one function definition of `file`.
    pub fn check_function(&self, file: &FileModel, func: &FunctionInfo) -> (r: Vec<Violation>)
        requires
            call_args_within(*func, file.source@.len() as int),
        ensures
            violation_views(r@) == variant_reports(*file, *func),
    {
        let names: [&str; 1] = ["g_variant_new"];
        assert(str_views(names@) =~= seq!["g_variant_new"@]);
        let calls = func.find_calls(&names);
        proof {
            lemma_calls_named_subset(calls_of(body_exprs(*func)), seq!["g_variant_new"@]);
        }
        let ghost opts = variant_calls(*func).map_values(
            |c: CallExpression| variant_report(file.path@, file.source@, c),
        );
        let mut out: Vec<Violation> = Vec::new();
        let mut i: usize = 0;
        while i < calls.len()
            invariant
                i <= calls@.len(),
                derefs(calls@) == variant_calls(*func),
                call_args_within(*func, file.source@.len() as int),
                forall|k: int|
                    0 <= k < variant_calls(*func).len() ==> calls_of(body_exprs(*func)).contains(
                        #[trigger] variant_calls(*func)[k],
                    ),
                opts == variant_calls(*func).map_values(
                    |c: CallExpression| variant_report(file.path@, file.source@, c),
                ),
                violation_views(out@) == somes(opts.take(i as int)),
            decreases calls@.len() - i,
        {
            let c: &CallExpression = calls[i];
            assert(derefs(calls@)[i as int] == *c);
            proof {
                lemma_somes_take(opts, i as int);
                assert(calls_of(body_exprs(*func)).contains(variant_calls(*func)[i as int]));
                let k = choose|k: int|
                    0 <= k < calls_of(body_exprs(*func)).len() && calls_of(body_exprs(*func))[k]
                        == *c;
                assert forall|m: int| 0 <= m < c.arguments@.len() implies expr_location(
                    arg_expr(#[trigger] c.arguments@[m]),
                ).within(file.source@.len() as int) by {
                    assert(calls_of(body_exprs(*func))[k].arguments@[m] == c.arguments@[m]);
                }
            }
            let found = self.check_call(file.path.as_str(), c, file.source.as_slice());
            match found {
                Some(v) => {
                    let ghost before = out@;
                    out.push(v);
                    assert(violation_views(out@) =~= violation_views(before).push(v@));
                },
                None => {
                    assert(somes(opts.take(i + 1)) =~= somes(opts.take(i as int)));
                },
            }
            i = i + 1;
        }
        assert(opts.take(calls@.len() as int) =~= opts);
        out
    }

    /// Reports every `g_variant_new` call with a one-character format string
    /// that has a typed constructor, in the function definitions of the `.c`
    /// files.
    pub fn check_all(&self, ast_context: &AstContext, config: &Config, violations: &mut Vec<Violation>)
        requires
            forall|i: int, j: int|
                0 <= i < c_files(*ast_context).len() && 0 <= j < c_files(
                    *ast_context,
                )[i].functions@.len() ==> call_args_within(
                    #[trigger] c_files(*ast_context)[i].functions@[j],
                    c_files(*ast_context)[i].source@.len() as int,
                ),
        ensures
            violation_views(final(violations)@) == violation_views(old(violations)@)
                + over_all_definitions(c_files(*ast_context), variant_check()),
    {
        let files = ast_context.iter_c_files();
        let ghost fs = c_files(*ast_context);
        assert(file_seq(files@) == fs);
        let check = |file: &FileModel, func: &FunctionInfo| -> (r: Vec<Violation>)
            requires
                c_files_of(ast_context).contains(*file) && file.functions@.contains(*func),
            ensures
                violation_views(r@) == variant_reports(*file, *func),
            {
                proof {
                    let cf = c_files_of(ast_context);
                    let i = choose|i: int| 0 <= i < cf.len() && cf[i] == *file;
                    let j = choose|j: int| 0 <= j < file.functions@.len() && file.functions@[j] == *func;
                    assert(call_args_within(cf[i].functions@[j], cf[i].source@.len() as int));
                }
                let found = self.check_function(file, func);
                found
            };
        check_definitions(&files, check, Ghost(variant_check()), violations);
    }
}

} // verus!
