//! Runs the rules over a project and gathers what they report.

use vstd::prelude::*;

use crate::context::{c_files, header_files, undeclared_in, AstContext};
use crate::model::expression::{arg_expr, expr_location};
use crate::model::function::{body_exprs, calls_of, FunctionInfo};
use crate::model::project::FileModel;
use crate::rules::deprecated_add_private::{add_private_check, DeprecatedAddPrivate};
use crate::rules::function_visibility_ast::{visibility_reports, FunctionVisibilityAst};
use crate::rules::g_param_spec_static_strings::{param_spec_check, GParamSpecStaticStrings};
use crate::rules::use_g_ascii_functions::{ascii_check, UseGAsciiFunctions};
use crate::rules::use_g_autolist::{autolist_check, UseGAutolist};
use crate::rules::use_g_clear_handle_id::{handle_check, UseGClearHandleId};
use crate::rules::use_g_clear_signal_handler::{signal_check, UseGClearSignalHandler};
use crate::rules::use_g_new::{g_new_check, UseGNew};
use crate::rules::use_g_set_object::{set_object_check, UseGSetObject};
use crate::rules::use_g_str_has_prefix_suffix::{prefix_suffix_check, UseGStrHasPrefixSuffix};
use crate::rules::use_g_strlcpy::{strlcpy_check, UseGStrlcpy};
use crate::rules::use_g_variant_new_typed::{call_args_within, variant_check, UseGVariantNewTyped};
use crate::rules::use_pragma_once::{guard_within, pragma_once_report, UsePragmaOnce};
use crate::config::rule_names;
use crate::ignore::{keep_unignored, kept_reports, patterns_valid, rule_patterns};
use crate::rules::{
    files_tree_reports, over_all_definitions, somes, violation_views, Config, RulesConfig, Violation,
    ViolationView,
};
use crate::text::owned;
use crate::syntax::SyntaxNode;

verus! {

/// The positions that the models of the project point into lie within their
/// sources: the include guards of the headers and the arguments of the calls
/// in the function bodies of the `.c` files.  Models that the parser builds
/// from a file's text are of this kind.
pub open spec fn positions_within(ctx: AstContext) -> bool {
    &&& forall|i: int| 0 <= i < header_files(ctx).len() ==> guard_within(#[trigger] header_files(ctx)[i])
    &&& forall|i: int, j: int|
        0 <= i < c_files(ctx).len() && 0 <= j < c_files(ctx)[i].functions@.len() ==> call_args_within(
            #[trigger] c_files(ctx)[i].functions@[j],
            c_files(ctx)[i].source@.len() as int,
        )
}

/// Whether the arguments of the calls of `func`'s body lie within `len`
/// bytes.
pub fn calls_within(func: &FunctionInfo, len: usize) -> (r: bool)
    ensures
        r == call_args_within(*func, len as int),
{
    let calls = func.body_calls();
    let ghost cs = calls_of(body_exprs(*func));
    let mut k: usize = 0;
    while k < calls.len()
        invariant
            k <= calls@.len(),
            crate::model::expression::derefs(calls@) == cs,
            cs == calls_of(body_exprs(*func)),
            forall|a: int, m: int|
                0 <= a < k && 0 <= m < cs[a].arguments@.len() ==> expr_location(
                    arg_expr(#[trigger] cs[a].arguments@[m]),
                ).within(len as int),
        decreases calls@.len() - k,
    {
        let call = calls[k];
        assert(cs[k as int] == *call);
        let mut m: usize = 0;
        while m < call.arguments.len()
            invariant
                k < calls@.len(),
                crate::model::expression::derefs(calls@) == cs,
                cs == calls_of(body_exprs(*func)),
                cs[k as int] == *call,
                m <= call.arguments@.len(),
                forall|a: int, q: int|
                    0 <= a < k && 0 <= q < cs[a].arguments@.len() ==> expr_location(
                        arg_expr(#[trigger] cs[a].arguments@[q]),
                    ).within(len as int),
                forall|q: int|
                    0 <= q < m ==> expr_location(arg_expr(#[trigger] call.arguments@[q])).within(
                        len as int,
                    ),
            decreases call.arguments@.len() - m,
        {
            let loc = match &call.arguments[m] {
                crate::model::expression::Argument::Expression(e) => e.location(),
            };
            if !(loc.start_byte <= loc.end_byte && loc.end_byte <= len) {
                assert(expr_location(arg_expr(cs[k as int].arguments@[m as int])) == *loc);
                assert(!expr_location(
                    arg_expr(calls_of(body_exprs(*func))[k as int].arguments@[m as int]),
                ).within(len as int));
                return false;
            }
            m = m + 1;
        }
        k = k + 1;
    }
    true
}

/// Whether the include guard of `file`, if it has one, lies within its
/// source.
pub fn guard_fits(file: &FileModel) -> (r: bool)
    ensures
        r == guard_within(*file),
{
    let len = file.source.len();
    match UsePragmaOnce.find_include_guard(&file.top_level_items) {
        Some((cond, define, _)) => cond.start_byte <= len && cond.end_byte <= len && define.start_byte <= len,
        None => true,
    }
}

/// Whether the models of the project keep their positions within their
/// sources (see `positions_within`).
pub fn models_fit(ast_context: &AstContext) -> (r: bool)
    ensures
        r == positions_within(*ast_context),
{
    let headers = ast_context.iter_header_files();
    let ghost hs = header_files(*ast_context);
    let mut i: usize = 0;
    while i < headers.len()
        invariant
            i <= headers@.len(),
            headers@.map_values(|f: &FileModel| *f) == hs,
            hs == header_files(*ast_context),
            forall|k: int| 0 <= k < i ==> guard_within(#[trigger] hs[k]),
        decreases headers@.len() - i,
    {
        assert(hs[i as int] == *headers@[i as int]);
        if !guard_fits(headers[i]) {
            assert(!guard_within(header_files(*ast_context)[i as int]));
            return false;
        }
        i = i + 1;
    }
    let sources = ast_context.iter_c_files();
    let ghost cs = c_files(*ast_context);
    let mut a: usize = 0;
    while a < sources.len()
        invariant
            a <= sources@.len(),
            sources@.map_values(|f: &FileModel| *f) == cs,
            forall|k: int| 0 <= k < hs.len() ==> guard_within(#[trigger] hs[k]),
            hs == header_files(*ast_context),
            cs == c_files(*ast_context),
            forall|x: int, y: int|
                0 <= x < a && 0 <= y < cs[x].functions@.len() ==> call_args_within(
                    #[trigger] cs[x].functions@[y],
                    cs[x].source@.len() as int,
                ),
        decreases sources@.len() - a,
    {
        let file: &FileModel = sources[a];
        assert(cs[a as int] == *file);
        let mut b: usize = 0;
        while b < file.functions.len()
            invariant
                a < sources@.len(),
                sources@.map_values(|f: &FileModel| *f) == cs,
                cs == c_files(*ast_context),
                cs[a as int] == *file,
                b <= file.functions@.len(),
                forall|x: int, y: int|
                    0 <= x < a && 0 <= y < cs[x].functions@.len() ==> call_args_within(
                        #[trigger] cs[x].functions@[y],
                        cs[x].source@.len() as int,
                    ),
                forall|y: int|
                    0 <= y < b ==> call_args_within(#[trigger] file.functions@[y], file.source@.len() as int),
            decreases file.functions@.len() - b,
        {
            if !calls_within(&file.functions[b], file.source.len()) {
                assert(!call_args_within(
                    c_files(*ast_context)[a as int].functions@[b as int],
                    c_files(*ast_context)[a as int].source@.len() as int,
                ));
                return false;
            }
            b = b + 1;
        }
        a = a + 1;
    }
    true
}

/// What the rules that parse each function definition on their own report,
/// in the order in which the scan runs them, rule `k` having parsed the
/// definitions into `trees[k]`: `GParamSpec` static strings, ASCII ctype
/// functions, `g_clear_handle_id`, `g_clear_signal_handler`, prefix and
/// suffix tests, `g_strlcpy`; a rule that the configuration switches off
/// adds nothing.
pub open spec fn tree_rule_reports(ctx: AstContext, config: Config, trees: Seq<Seq<Seq<Option<SyntaxNode>>>>) -> Seq<
    ViolationView,
> {
    let cs = c_files(ctx);
    let n = cs.len() as int;
    let on = config.rules;
    when_on(on.g_param_spec_static_strings, files_tree_reports(cs, trees[0], param_spec_check(), n))
        + when_on(on.use_g_ascii_functions, files_tree_reports(cs, trees[1], ascii_check(), n))
        + when_on(on.use_g_clear_handle_id, files_tree_reports(cs, trees[2], handle_check(), n))
        + when_on(on.use_g_clear_signal_handler, files_tree_reports(cs, trees[3], signal_check(), n))
        + when_on(on.use_g_str_has_prefix_suffix, files_tree_reports(cs, trees[4], prefix_suffix_check(), n))
        + when_on(on.use_g_strlcpy, files_tree_reports(cs, trees[5], strlcpy_check(), n))
}

/// `reports` when `enabled`, nothing otherwise.
pub open spec fn when_on(enabled: bool, reports: Seq<ViolationView>) -> Seq<ViolationView> {
    if enabled {
        reports
    } else {
        Seq::empty()
    }
}

/// The number of rules that the scan runs.
pub open spec fn rule_count() -> int {
    13
}

/// The switch of rule `k` (in the order of `rule_names`).
pub open spec fn rule_on(on: RulesConfig, k: int) -> bool {
    if k == 0 {
        on.function_visibility
    } else if k == 1 {
        on.deprecated_add_private
    } else if k == 2 {
        on.use_g_autolist
    } else if k == 3 {
        on.use_g_new
    } else if k == 4 {
        on.use_g_set_object
    } else if k == 5 {
        on.use_g_variant_new_typed
    } else if k == 6 {
        on.use_pragma_once
    } else if k == 7 {
        on.g_param_spec_static_strings
    } else if k == 8 {
        on.use_g_ascii_functions
    } else if k == 9 {
        on.use_g_clear_handle_id
    } else if k == 10 {
        on.use_g_clear_signal_handler
    } else if k == 11 {
        on.use_g_str_has_prefix_suffix
    } else if k == 12 {
        on.use_g_strlcpy
    } else {
        false
    }
}

/// What rule `k` reports over the project, before its ignore patterns are
/// applied; a rule that parses each function definition on its own having
/// parsed the definitions into `t`.  In order: function visibility,
/// deprecated private data, `g_autolist`, `g_new`, `g_set_object`, typed
/// `GVariant` constructors, `#pragma once`, `GParamSpec` static strings,
/// ASCII ctype functions, `g_clear_handle_id`, `g_clear_signal_handler`,
/// prefix and suffix tests, `g_strlcpy`.
pub open spec fn rule_part(ctx: AstContext, config: Config, t: Seq<Seq<Option<SyntaxNode>>>, k: int) -> Seq<
    ViolationView,
> {
    let files = ctx.project.files@;
    let cs = c_files(ctx);
    let n = cs.len() as int;
    if k == 0 {
        visibility_reports(files, undeclared_in(files, files.len() as int))
    } else if k == 1 {
        over_all_definitions(cs, add_private_check())
    } else if k == 2 {
        over_all_definitions(cs, autolist_check())
    } else if k == 3 {
        over_all_definitions(cs, g_new_check(config.style.space_before_paren))
    } else if k == 4 {
        over_all_definitions(cs, set_object_check())
    } else if k == 5 {
        over_all_definitions(cs, variant_check())
    } else if k == 6 {
        somes(header_files(ctx).map_values(|f: FileModel| pragma_once_report(f)))
    } else if k == 7 {
        files_tree_reports(cs, t, param_spec_check(), n)
    } else if k == 8 {
        files_tree_reports(cs, t, ascii_check(), n)
    } else if k == 9 {
        files_tree_reports(cs, t, handle_check(), n)
    } else if k == 10 {
        files_tree_reports(cs, t, signal_check(), n)
    } else if k == 11 {
        files_tree_reports(cs, t, prefix_suffix_check(), n)
    } else {
        files_tree_reports(cs, t, strlcpy_check(), n)
    }
}

/// The scan after one more rule: an error stays; a switched-off rule adds
/// nothing; a rule whose ignore patterns are not valid globs stops the scan
/// with its name; any other adds what its patterns keep of its reports.
pub open spec fn scan_step(
    prev: Result<Seq<ViolationView>, Seq<char>>,
    on: bool,
    patterns: Seq<Seq<char>>,
    name: Seq<char>,
    part: Seq<ViolationView>,
) -> Result<Seq<ViolationView>, Seq<char>> {
    match prev {
        Err(e) => Err(e),
        Ok(acc) => if !on {
            Ok(acc)
        } else if !patterns_valid(patterns) {
            Err(name)
        } else {
            Ok(acc + kept_reports(patterns, part))
        },
    }
}

/// The scan after the first `k` rules, rule `j` having parsed the function
/// definitions into `trees[j]` where it parses them.
pub open spec fn scan_upto(ctx: AstContext, config: Config, trees: Seq<Seq<Seq<Option<SyntaxNode>>>>, k: int) -> Result<
    Seq<ViolationView>,
    Seq<char>,
>
    decreases k,
{
    if k <= 0 {
        Ok(Seq::empty())
    } else {
        scan_step(
            scan_upto(ctx, config, trees, k - 1),
            rule_on(config.rules, k - 1),
            rule_patterns(config.ignores@, rule_names()[k - 1]),
            rule_names()[k - 1],
            rule_part(ctx, config, trees[k - 1], k - 1),
        )
    }
}

/// What the scan of every rule gives (see `scan_upto`).
pub open spec fn scan_result(ctx: AstContext, config: Config, trees: Seq<Seq<Seq<Option<SyntaxNode>>>>) -> Result<
    Seq<ViolationView>,
    Seq<char>,
> {
    scan_upto(ctx, config, trees, rule_count())
}

proof fn lemma_scan_upto_trees(
    ctx: AstContext,
    config: Config,
    a: Seq<Seq<Seq<Option<SyntaxNode>>>>,
    b: Seq<Seq<Seq<Option<SyntaxNode>>>>,
    k: int,
)
    requires
        forall|j: int| 0 <= j < k ==> a[j] == b[j],
    ensures
        scan_upto(ctx, config, a, k) == scan_upto(ctx, config, b, k),
    decreases k,
{
    if k > 0 {
        lemma_scan_upto_trees(ctx, config, a, b, k - 1);
    }
}

proof fn lemma_scan_error_stays(ctx: AstContext, config: Config, trees: Seq<Seq<Seq<Option<SyntaxNode>>>>, k: int, m: int)
    requires
        k <= m,
        scan_upto(ctx, config, trees, k) is Err,
    ensures
        scan_upto(ctx, config, trees, m) == scan_upto(ctx, config, trees, k),
    decreases m - k,
{
    if k < m {
        lemma_scan_error_stays(ctx, config, trees, k, m - 1);
    }
}

/// The name of rule `k` (see `rule_names`).
fn rule_name(k: usize) -> (r: &'static str)
    requires
        k < 13,
    ensures
        r@ == rule_names()[k as int],
{
    if k == 0 {
        "function_visibility"
    } else if k == 1 {
        "deprecated_add_private"
    } else if k == 2 {
        "use_g_autolist"
    } else if k == 3 {
        "use_g_new"
    } else if k == 4 {
        "use_g_set_object"
    } else if k == 5 {
        "use_g_variant_new_typed"
    } else if k == 6 {
        "use_pragma_once"
    } else if k == 7 {
        "g_param_spec_static_strings"
    } else if k == 8 {
        "use_g_ascii_functions"
    } else if k == 9 {
        "use_g_clear_handle_id"
    } else if k == 10 {
        "use_g_clear_signal_handler"
    } else if k == 11 {
        "use_g_str_has_prefix_suffix"
    } else if k == 12 {
        "use_g_strlcpy"
    } else {
        "use_g_strlcpy"
    }
}

/// Runs rule `function_visibility` when it is switched on and keeps what its ignore
/// patterns leave.
fn run_function_visibility(ast_context: &AstContext, config: &Config, out: &mut Vec<Violation>) -> (r: (
    bool,
    Ghost<Seq<Seq<Option<SyntaxNode>>>>,
))
    requires
        positions_within(*ast_context),
    ensures
        r.0 == (!rule_on(config.rules, 0) || patterns_valid(rule_patterns(config.ignores@, rule_names()[0]))),
        r.0 ==> violation_views(final(out)@) == violation_views(old(out)@) + when_on(
            rule_on(config.rules, 0),
            kept_reports(rule_patterns(config.ignores@, rule_names()[0]), rule_part(*ast_context, *config, r.1@, 0)),
        ),
        !r.0 ==> final(out)@ == old(out)@,
{
    if !config.rules.function_visibility {
        assert(violation_views(out@) =~= violation_views(out@) + Seq::<ViolationView>::empty());
        return (true, Ghost(Seq::empty()));
    }
    assert(rule_names()[0] == "function_visibility"@);
    let found = FunctionVisibilityAst.check_all(ast_context, config);
    let ghost t: Seq<Seq<Option<SyntaxNode>>> = Seq::empty();
    let ok = keep_unignored(&config.ignores, "function_visibility", found, out);
    (ok, Ghost(t))
}

/// Runs rule `deprecated_add_private` when it is switched on and keeps what its ignore
/// patterns leave.
fn run_deprecated_add_private(ast_context: &AstContext, config: &Config, out: &mut Vec<Violation>) -> (r: (
    bool,
    Ghost<Seq<Seq<Option<SyntaxNode>>>>,
))
    requires
        positions_within(*ast_context),
    ensures
        r.0 == (!rule_on(config.rules, 1) || patterns_valid(rule_patterns(config.ignores@, rule_names()[1]))),
        r.0 ==> violation_views(final(out)@) == violation_views(old(out)@) + when_on(
            rule_on(config.rules, 1),
            kept_reports(rule_patterns(config.ignores@, rule_names()[1]), rule_part(*ast_context, *config, r.1@, 1)),
        ),
        !r.0 ==> final(out)@ == old(out)@,
{
    if !config.rules.deprecated_add_private {
        assert(violation_views(out@) =~= violation_views(out@) + Seq::<ViolationView>::empty());
        return (true, Ghost(Seq::empty()));
    }
    assert(rule_names()[1] == "deprecated_add_private"@);
    let mut found: Vec<Violation> = Vec::new();
    DeprecatedAddPrivate.check_all(ast_context, config, &mut found);
    let ghost t: Seq<Seq<Option<SyntaxNode>>> = Seq::empty();
    assert(violation_views(found@) =~= rule_part(*ast_context, *config, t, 1));
    let ok = keep_unignored(&config.ignores, "deprecated_add_private", found, out);
    (ok, Ghost(t))
}

/// Runs rule `use_g_autolist` when it is switched on and keeps what its ignore
/// patterns leave.
fn run_use_g_autolist(ast_context: &AstContext, config: &Config, out: &mut Vec<Violation>) -> (r: (
    bool,
    Ghost<Seq<Seq<Option<SyntaxNode>>>>,
))
    requires
        positions_within(*ast_context),
    ensures
        r.0 == (!rule_on(config.rules, 2) || patterns_valid(rule_patterns(config.ignores@, rule_names()[2]))),
        r.0 ==> violation_views(final(out)@) == violation_views(old(out)@) + when_on(
            rule_on(config.rules, 2),
            kept_reports(rule_patterns(config.ignores@, rule_names()[2]), rule_part(*ast_context, *config, r.1@, 2)),
        ),
        !r.0 ==> final(out)@ == old(out)@,
{
    if !config.rules.use_g_autolist {
        assert(violation_views(out@) =~= violation_views(out@) + Seq::<ViolationView>::empty());
        return (true, Ghost(Seq::empty()));
    }
    assert(rule_names()[2] == "use_g_autolist"@);
    let mut found: Vec<Violation> = Vec::new();
    UseGAutolist.check_all(ast_context, config, &mut found);
    let ghost t: Seq<Seq<Option<SyntaxNode>>> = Seq::empty();
    assert(violation_views(found@) =~= rule_part(*ast_context, *config, t, 2));
    let ok = keep_unignored(&config.ignores, "use_g_autolist", found, out);
    (ok, Ghost(t))
}

/// Runs rule `use_g_new` when it is switched on and keeps what its ignore
/// patterns leave.
fn run_use_g_new(ast_context: &AstContext, config: &Config, out: &mut Vec<Violation>) -> (r: (
    bool,
    Ghost<Seq<Seq<Option<SyntaxNode>>>>,
))
    requires
        positions_within(*ast_context),
    ensures
        r.0 == (!rule_on(config.rules, 3) || patterns_valid(rule_patterns(config.ignores@, rule_names()[3]))),
        r.0 ==> violation_views(final(out)@) == violation_views(old(out)@) + when_on(
            rule_on(config.rules, 3),
            kept_reports(rule_patterns(config.ignores@, rule_names()[3]), rule_part(*ast_context, *config, r.1@, 3)),
        ),
        !r.0 ==> final(out)@ == old(out)@,
{
    if !config.rules.use_g_new {
        assert(violation_views(out@) =~= violation_views(out@) + Seq::<ViolationView>::empty());
        return (true, Ghost(Seq::empty()));
    }
    assert(rule_names()[3] == "use_g_new"@);
    let mut found: Vec<Violation> = Vec::new();
    UseGNew.check_all(ast_context, config, &mut found);
    let ghost t: Seq<Seq<Option<SyntaxNode>>> = Seq::empty();
    assert(violation_views(found@) =~= rule_part(*ast_context, *config, t, 3));
    let ok = keep_unignored(&config.ignores, "use_g_new", found, out);
    (ok, Ghost(t))
}

/// Runs rule `use_g_set_object` when it is switched on and keeps what its ignore
/// patterns leave.
fn run_use_g_set_object(ast_context: &AstContext, config: &Config, out: &mut Vec<Violation>) -> (r: (
    bool,
    Ghost<Seq<Seq<Option<SyntaxNode>>>>,
))
    requires
        positions_within(*ast_context),
    ensures
        r.0 == (!rule_on(config.rules, 4) || patterns_valid(rule_patterns(config.ignores@, rule_names()[4]))),
        r.0 ==> violation_views(final(out)@) == violation_views(old(out)@) + when_on(
            rule_on(config.rules, 4),
            kept_reports(rule_patterns(config.ignores@, rule_names()[4]), rule_part(*ast_context, *config, r.1@, 4)),
        ),
        !r.0 ==> final(out)@ == old(out)@,
{
    if !config.rules.use_g_set_object {
        assert(violation_views(out@) =~= violation_views(out@) + Seq::<ViolationView>::empty());
        return (true, Ghost(Seq::empty()));
    }
    assert(rule_names()[4] == "use_g_set_object"@);
    let mut found: Vec<Violation> = Vec::new();
    UseGSetObject.check_all(ast_context, config, &mut found);
    let ghost t: Seq<Seq<Option<SyntaxNode>>> = Seq::empty();
    assert(violation_views(found@) =~= rule_part(*ast_context, *config, t, 4));
    let ok = keep_unignored(&config.ignores, "use_g_set_object", found, out);
    (ok, Ghost(t))
}

/// Runs rule `use_g_variant_new_typed` when it is switched on and keeps what its ignore
/// patterns leave.
fn run_use_g_variant_new_typed(ast_context: &AstContext, config: &Config, out: &mut Vec<Violation>) -> (r: (
    bool,
    Ghost<Seq<Seq<Option<SyntaxNode>>>>,
))
    requires
        positions_within(*ast_context),
    ensures
        r.0 == (!rule_on(config.rules, 5) || patterns_valid(rule_patterns(config.ignores@, rule_names()[5]))),
        r.0 ==> violation_views(final(out)@) == violation_views(old(out)@) + when_on(
            rule_on(config.rules, 5),
            kept_reports(rule_patterns(config.ignores@, rule_names()[5]), rule_part(*ast_context, *config, r.1@, 5)),
        ),
        !r.0 ==> final(out)@ == old(out)@,
{
    if !config.rules.use_g_variant_new_typed {
        assert(violation_views(out@) =~= violation_views(out@) + Seq::<ViolationView>::empty());
        return (true, Ghost(Seq::empty()));
    }
    assert(rule_names()[5] == "use_g_variant_new_typed"@);
    let mut found: Vec<Violation> = Vec::new();
    UseGVariantNewTyped.check_all(ast_context, config, &mut found);
    let ghost t: Seq<Seq<Option<SyntaxNode>>> = Seq::empty();
    assert(violation_views(found@) =~= rule_part(*ast_context, *config, t, 5));
    let ok = keep_unignored(&config.ignores, "use_g_variant_new_typed", found, out);
    (ok, Ghost(t))
}

/// Runs rule `use_pragma_once` when it is switched on and keeps what its ignore
/// patterns leave.
fn run_use_pragma_once(ast_context: &AstContext, config: &Config, out: &mut Vec<Violation>) -> (r: (
    bool,
    Ghost<Seq<Seq<Option<SyntaxNode>>>>,
))
    requires
        positions_within(*ast_context),
    ensures
        r.0 == (!rule_on(config.rules, 6) || patterns_valid(rule_patterns(config.ignores@, rule_names()[6]))),
        r.0 ==> violation_views(final(out)@) == violation_views(old(out)@) + when_on(
            rule_on(config.rules, 6),
            kept_reports(rule_patterns(config.ignores@, rule_names()[6]), rule_part(*ast_context, *config, r.1@, 6)),
        ),
        !r.0 ==> final(out)@ == old(out)@,
{
    if !config.rules.use_pragma_once {
        assert(violation_views(out@) =~= violation_views(out@) + Seq::<ViolationView>::empty());
        return (true, Ghost(Seq::empty()));
    }
    assert(rule_names()[6] == "use_pragma_once"@);
    let mut found: Vec<Violation> = Vec::new();
    UsePragmaOnce.check_all(ast_context, config, &mut found);
    let ghost t: Seq<Seq<Option<SyntaxNode>>> = Seq::empty();
    assert(violation_views(found@) =~= rule_part(*ast_context, *config, t, 6));
    let ok = keep_unignored(&config.ignores, "use_pragma_once", found, out);
    (ok, Ghost(t))
}

/// Runs rule `g_param_spec_static_strings` when it is switched on and keeps what its ignore
/// patterns leave.
fn run_g_param_spec_static_strings(ast_context: &AstContext, config: &Config, out: &mut Vec<Violation>) -> (r: (
    bool,
    Ghost<Seq<Seq<Option<SyntaxNode>>>>,
))
    requires
        positions_within(*ast_context),
    ensures
        r.0 == (!rule_on(config.rules, 7) || patterns_valid(rule_patterns(config.ignores@, rule_names()[7]))),
        r.0 ==> violation_views(final(out)@) == violation_views(old(out)@) + when_on(
            rule_on(config.rules, 7),
            kept_reports(rule_patterns(config.ignores@, rule_names()[7]), rule_part(*ast_context, *config, r.1@, 7)),
        ),
        !r.0 ==> final(out)@ == old(out)@,
{
    if !config.rules.g_param_spec_static_strings {
        assert(violation_views(out@) =~= violation_views(out@) + Seq::<ViolationView>::empty());
        return (true, Ghost(Seq::empty()));
    }
    assert(rule_names()[7] == "g_param_spec_static_strings"@);
    let mut found: Vec<Violation> = Vec::new();
    GParamSpecStaticStrings.check_all(ast_context, config, &mut found);
    let ghost t = choose|t: Seq<Seq<Option<SyntaxNode>>>|
        violation_views(found@) == Seq::<ViolationView>::empty() + files_tree_reports(
            c_files(*ast_context),
            t,
            param_spec_check(),
            c_files(*ast_context).len() as int,
        );
    assert(violation_views(found@) =~= rule_part(*ast_context, *config, t, 7));
    let ok = keep_unignored(&config.ignores, "g_param_spec_static_strings", found, out);
    (ok, Ghost(t))
}

/// Runs rule `use_g_ascii_functions` when it is switched on and keeps what its ignore
/// patterns leave.
fn run_use_g_ascii_functions(ast_context: &AstContext, config: &Config, out: &mut Vec<Violation>) -> (r: (
    bool,
    Ghost<Seq<Seq<Option<SyntaxNode>>>>,
))
    requires
        positions_within(*ast_context),
    ensures
        r.0 == (!rule_on(config.rules, 8) || patterns_valid(rule_patterns(config.ignores@, rule_names()[8]))),
        r.0 ==> violation_views(final(out)@) == violation_views(old(out)@) + when_on(
            rule_on(config.rules, 8),
            kept_reports(rule_patterns(config.ignores@, rule_names()[8]), rule_part(*ast_context, *config, r.1@, 8)),
        ),
        !r.0 ==> final(out)@ == old(out)@,
{
    if !config.rules.use_g_ascii_functions {
        assert(violation_views(out@) =~= violation_views(out@) + Seq::<ViolationView>::empty());
        return (true, Ghost(Seq::empty()));
    }
    assert(rule_names()[8] == "use_g_ascii_functions"@);
    let mut found: Vec<Violation> = Vec::new();
    UseGAsciiFunctions.check_all(ast_context, config, &mut found);
    let ghost t = choose|t: Seq<Seq<Option<SyntaxNode>>>|
        violation_views(found@) == Seq::<ViolationView>::empty() + files_tree_reports(
            c_files(*ast_context),
            t,
            ascii_check(),
            c_files(*ast_context).len() as int,
        );
    assert(violation_views(found@) =~= rule_part(*ast_context, *config, t, 8));
    let ok = keep_unignored(&config.ignores, "use_g_ascii_functions", found, out);
    (ok, Ghost(t))
}

/// Runs rule `use_g_clear_handle_id` when it is switched on and keeps what its ignore
/// patterns leave.
fn run_use_g_clear_handle_id(ast_context: &AstContext, config: &Config, out: &mut Vec<Violation>) -> (r: (
    bool,
    Ghost<Seq<Seq<Option<SyntaxNode>>>>,
))
    requires
        positions_within(*ast_context),
    ensures
        r.0 == (!rule_on(config.rules, 9) || patterns_valid(rule_patterns(config.ignores@, rule_names()[9]))),
        r.0 ==> violation_views(final(out)@) == violation_views(old(out)@) + when_on(
            rule_on(config.rules, 9),
            kept_reports(rule_patterns(config.ignores@, rule_names()[9]), rule_part(*ast_context, *config, r.1@, 9)),
        ),
        !r.0 ==> final(out)@ == old(out)@,
{
    if !config.rules.use_g_clear_handle_id {
        assert(violation_views(out@) =~= violation_views(out@) + Seq::<ViolationView>::empty());
        return (true, Ghost(Seq::empty()));
    }
    assert(rule_names()[9] == "use_g_clear_handle_id"@);
    let mut found: Vec<Violation> = Vec::new();
    UseGClearHandleId.check_all(ast_context, config, &mut found);
    let ghost t = choose|t: Seq<Seq<Option<SyntaxNode>>>|
        violation_views(found@) == Seq::<ViolationView>::empty() + files_tree_reports(
            c_files(*ast_context),
            t,
            handle_check(),
            c_files(*ast_context).len() as int,
        );
    assert(violation_views(found@) =~= rule_part(*ast_context, *config, t, 9));
    let ok = keep_unignored(&config.ignores, "use_g_clear_handle_id", found, out);
    (ok, Ghost(t))
}

/// Runs rule `use_g_clear_signal_handler` when it is switched on and keeps what its ignore
/// patterns leave.
fn run_use_g_clear_signal_handler(ast_context: &AstContext, config: &Config, out: &mut Vec<Violation>) -> (r: (
    bool,
    Ghost<Seq<Seq<Option<SyntaxNode>>>>,
))
    requires
        positions_within(*ast_context),
    ensures
        r.0 == (!rule_on(config.rules, 10) || patterns_valid(rule_patterns(config.ignores@, rule_names()[10]))),
        r.0 ==> violation_views(final(out)@) == violation_views(old(out)@) + when_on(
            rule_on(config.rules, 10),
            kept_reports(rule_patterns(config.ignores@, rule_names()[10]), rule_part(*ast_context, *config, r.1@, 10)),
        ),
        !r.0 ==> final(out)@ == old(out)@,
{
    if !config.rules.use_g_clear_signal_handler {
        assert(violation_views(out@) =~= violation_views(out@) + Seq::<ViolationView>::empty());
        return (true, Ghost(Seq::empty()));
    }
    assert(rule_names()[10] == "use_g_clear_signal_handler"@);
    let mut found: Vec<Violation> = Vec::new();
    UseGClearSignalHandler.check_all(ast_context, config, &mut found);
    let ghost t = choose|t: Seq<Seq<Option<SyntaxNode>>>|
        violation_views(found@) == Seq::<ViolationView>::empty() + files_tree_reports(
            c_files(*ast_context),
            t,
            signal_check(),
            c_files(*ast_context).len() as int,
        );
    assert(violation_views(found@) =~= rule_part(*ast_context, *config, t, 10));
    let ok = keep_unignored(&config.ignores, "use_g_clear_signal_handler", found, out);
    (ok, Ghost(t))
}

/// Runs rule `use_g_str_has_prefix_suffix` when it is switched on and keeps what its ignore
/// patterns leave.
fn run_use_g_str_has_prefix_suffix(ast_context: &AstContext, config: &Config, out: &mut Vec<Violation>) -> (r: (
    bool,
    Ghost<Seq<Seq<Option<SyntaxNode>>>>,
))
    requires
        positions_within(*ast_context),
    ensures
        r.0 == (!rule_on(config.rules, 11) || patterns_valid(rule_patterns(config.ignores@, rule_names()[11]))),
        r.0 ==> violation_views(final(out)@) == violation_views(old(out)@) + when_on(
            rule_on(config.rules, 11),
            kept_reports(rule_patterns(config.ignores@, rule_names()[11]), rule_part(*ast_context, *config, r.1@, 11)),
        ),
        !r.0 ==> final(out)@ == old(out)@,
{
    if !config.rules.use_g_str_has_prefix_suffix {
        assert(violation_views(out@) =~= violation_views(out@) + Seq::<ViolationView>::empty());
        return (true, Ghost(Seq::empty()));
    }
    assert(rule_names()[11] == "use_g_str_has_prefix_suffix"@);
    let mut found: Vec<Violation> = Vec::new();
    UseGStrHasPrefixSuffix.check_all(ast_context, config, &mut found);
    let ghost t = choose|t: Seq<Seq<Option<SyntaxNode>>>|
        violation_views(found@) == Seq::<ViolationView>::empty() + files_tree_reports(
            c_files(*ast_context),
            t,
            prefix_suffix_check(),
            c_files(*ast_context).len() as int,
        );
    assert(violation_views(found@) =~= rule_part(*ast_context, *config, t, 11));
    let ok = keep_unignored(&config.ignores, "use_g_str_has_prefix_suffix", found, out);
    (ok, Ghost(t))
}

/// Runs rule `use_g_strlcpy` when it is switched on and keeps what its ignore
/// patterns leave.
fn run_use_g_strlcpy(ast_context: &AstContext, config: &Config, out: &mut Vec<Violation>) -> (r: (
    bool,
    Ghost<Seq<Seq<Option<SyntaxNode>>>>,
))
    requires
        positions_within(*ast_context),
    ensures
        r.0 == (!rule_on(config.rules, 12) || patterns_valid(rule_patterns(config.ignores@, rule_names()[12]))),
        r.0 ==> violation_views(final(out)@) == violation_views(old(out)@) + when_on(
            rule_on(config.rules, 12),
            kept_reports(rule_patterns(config.ignores@, rule_names()[12]), rule_part(*ast_context, *config, r.1@, 12)),
        ),
        !r.0 ==> final(out)@ == old(out)@,
{
    if !config.rules.use_g_strlcpy {
        assert(violation_views(out@) =~= violation_views(out@) + Seq::<ViolationView>::empty());
        return (true, Ghost(Seq::empty()));
    }
    assert(rule_names()[12] == "use_g_strlcpy"@);
    let mut found: Vec<Violation> = Vec::new();
    UseGStrlcpy.check_all(ast_context, config, &mut found);
    let ghost t = choose|t: Seq<Seq<Option<SyntaxNode>>>|
        violation_views(found@) == Seq::<ViolationView>::empty() + files_tree_reports(
            c_files(*ast_context),
            t,
            strlcpy_check(),
            c_files(*ast_context).len() as int,
        );
    assert(violation_views(found@) =~= rule_part(*ast_context, *config, t, 12));
    let ok = keep_unignored(&config.ignores, "use_g_strlcpy", found, out);
    (ok, Ghost(t))
}

/// Runs rule `k` (see `rule_part`) when it is switched on and keeps what its
/// ignore patterns leave.
fn run_rule(k: usize, ast_context: &AstContext, config: &Config, out: &mut Vec<Violation>) -> (r: (
    bool,
    Ghost<Seq<Seq<Option<SyntaxNode>>>>,
))
    requires
        k < 13,
        positions_within(*ast_context),
    ensures
        r.0 == (!rule_on(config.rules, k as int) || patterns_valid(rule_patterns(config.ignores@, rule_names()[k as int]))),
        r.0 ==> violation_views(final(out)@) == violation_views(old(out)@) + when_on(
            rule_on(config.rules, k as int),
            kept_reports(rule_patterns(config.ignores@, rule_names()[k as int]), rule_part(*ast_context, *config, r.1@, k as int)),
        ),
        !r.0 ==> final(out)@ == old(out)@,
{
    if k == 0 {
        run_function_visibility(ast_context, config, out)
    } else if k == 1 {
        run_deprecated_add_private(ast_context, config, out)
    } else if k == 2 {
        run_use_g_autolist(ast_context, config, out)
    } else if k == 3 {
        run_use_g_new(ast_context, config, out)
    } else if k == 4 {
        run_use_g_set_object(ast_context, config, out)
    } else if k == 5 {
        run_use_g_variant_new_typed(ast_context, config, out)
    } else if k == 6 {
        run_use_pragma_once(ast_context, config, out)
    } else if k == 7 {
        run_g_param_spec_static_strings(ast_context, config, out)
    } else if k == 8 {
        run_use_g_ascii_functions(ast_context, config, out)
    } else if k == 9 {
        run_use_g_clear_handle_id(ast_context, config, out)
    } else if k == 10 {
        run_use_g_clear_signal_handler(ast_context, config, out)
    } else if k == 11 {
        run_use_g_str_has_prefix_suffix(ast_context, config, out)
    } else if k == 12 {
        run_use_g_strlcpy(ast_context, config, out)
    } else {
        run_use_g_strlcpy(ast_context, config, out)
    }
}

/// Runs every rule that the configuration switches on over the project, in
/// the order of `rule_part`, and gathers what each reports and its ignore
/// patterns keep; the name of the first switched-on rule whose ignore
/// patterns are not valid globs when there is one (see `scan_result`).
pub fn scan_with_ast(ast_context: &AstContext, config: &Config) -> (r: Result<Vec<Violation>, String>)
    requires
        positions_within(*ast_context),
    ensures
        exists|trees: Seq<Seq<Seq<Option<SyntaxNode>>>>|
            #![trigger scan_result(*ast_context, *config, trees)]
            match r {
                Ok(v) => scan_result(*ast_context, *config, trees) == Ok::<Seq<ViolationView>, Seq<char>>(violation_views(v@)),
                Err(e) => scan_result(*ast_context, *config, trees) == Err::<Seq<ViolationView>, Seq<char>>(e@),
            },
{
    let mut out: Vec<Violation> = Vec::new();
    let ghost mut trees: Seq<Seq<Seq<Option<SyntaxNode>>>> = Seq::new(13, |i: int| Seq::empty());
    let mut k: usize = 0;
    assert(violation_views(out@) =~= Seq::<ViolationView>::empty());
    while k < 13
        invariant
            k <= 13,
            positions_within(*ast_context),
            trees.len() == 13,
            scan_upto(*ast_context, *config, trees, k as int) == Ok::<Seq<ViolationView>, Seq<char>>(violation_views(out@)),
        decreases 13 - k,
    {
        let ghost before = violation_views(out@);
        let (ok, Ghost(t)) = run_rule(k, ast_context, config, &mut out);
        proof {
            let next = trees.update(k as int, t);
            lemma_scan_upto_trees(*ast_context, *config, trees, next, k as int);
            trees = next;
            assert(trees[k as int] == t);
        }
        if !ok {
            let name = rule_name(k);
            proof {
                assert(scan_upto(*ast_context, *config, trees, k + 1) == Err::<Seq<ViolationView>, Seq<char>>(rule_names()[k as int]));
                lemma_scan_error_stays(*ast_context, *config, trees, k + 1, 13);
            }
            let e = owned(name);
            assert(scan_result(*ast_context, *config, trees) == Err::<Seq<ViolationView>, Seq<char>>(e@));
            return Err(e);
        }
        proof {
            if rule_on(config.rules, k as int) {
                assert(scan_upto(*ast_context, *config, trees, k + 1) == Ok::<Seq<ViolationView>, Seq<char>>(violation_views(out@)));
            } else {
                assert(violation_views(out@) =~= before);
            }
        }
        k = k + 1;
    }
    assert(scan_result(*ast_context, *config, trees) == Ok::<Seq<ViolationView>, Seq<char>>(violation_views(out@)));
    Ok(out)
}

} // verus!
