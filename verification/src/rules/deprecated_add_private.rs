//! Reports calls of the deprecated `g_type_class_add_private`.

use vstd::prelude::*;

use crate::context::{c_files, AstContext};
use crate::model::expression::{derefs, CallExpression};
use crate::model::function::{body_exprs, calls_named, calls_of, FunctionInfo};
use crate::model::project::FileModel;
use crate::rules::{
    check_definitions, over_all_definitions, report, violation_views, Category, Config,
    Violation, ViolationView,
};
use crate::text::str_views;

verus! {

pub struct DeprecatedAddPrivate;

/// The message of every violation of this rule.
pub open spec fn deprecated_add_private_message() -> Seq<char> {
    "g_type_class_add_private is deprecated since GLib 2.58. Use G_DEFINE_TYPE_WITH_PRIVATE or G_ADD_PRIVATE instead"@
}

/// The calls of `g_type_class_add_private` in the body of `func`, in walk
/// order.
pub open spec fn add_private_calls(func: FunctionInfo) -> Seq<CallExpression> {
    calls_named(calls_of(body_exprs(func)), seq!["g_type_class_add_private"@])
}

/// One violation at each call of `g_type_class_add_private` in `func`.
pub open spec fn add_private_reports(file: FileModel, func: FunctionInfo) -> Seq<ViolationView> {
    add_private_calls(func).map_values(
        |c: CallExpression|
            report(
                file.path@,
                c.location.line as nat,
                c.location.column as nat,
                "deprecated_add_private"@,
                deprecated_add_private_message(),
                Seq::empty(),
            ),
    )
}

/// The per-function check of this rule.
pub open spec fn add_private_check() -> spec_fn(FileModel, FunctionInfo) -> Seq<ViolationView> {
    |file: FileModel, func: FunctionInfo| add_private_reports(file, func)
}

impl DeprecatedAddPrivate {
    pub fn name(&self) -> (r: &'static str)
        ensures
            r@ == "deprecated_add_private"@,
    {
        "deprecated_add_private"
    }

    pub fn description(&self) -> (r: &'static str)
        ensures
            r@ == "Detect deprecated g_type_class_add_private (use G_DEFINE_TYPE_WITH_PRIVATE instead)"@,
    {
        "Detect deprecated g_type_class_add_private (use G_DEFINE_TYPE_WITH_PRIVATE instead)"
    }

    pub fn category(&self) -> (r: Category)
        ensures
            r == Category::Restriction,
    {
        Category::Restriction
    }

    pub fn fixable(&self) -> (r: bool)
        ensures
            !r,
    {
        false
    }

    /// The violations of one function definition of `file`.
    pub fn check_function(&self, file: &FileModel, func: &FunctionInfo) -> (r: Vec<Violation>)
        ensures
            violation_views(r@) == add_private_reports(*file, *func),
    {
        let names: [&str; 1] = ["g_type_class_add_private"];
        assert(str_views(names@) =~= seq!["g_type_class_add_private"@]);
        let calls = func.find_calls(&names);
        let mut out: Vec<Violation> = Vec::new();
        let mut i: usize = 0;
        while i < calls.len()
            invariant
                i <= calls@.len(),
                derefs(calls@) == add_private_calls(*func),
                violation_views(out@) == add_private_reports(*file, *func).take(i as int),
            decreases calls@.len() - i,
        {
            let c: &CallExpression = calls[i];
            assert(derefs(calls@)[i as int] == *c);
            let v = Violation::new(
                file.path.as_str(),
                c.location.line,
                c.location.column,
                "deprecated_add_private",
                crate::text::owned(
                    "g_type_class_add_private is deprecated since GLib 2.58. Use G_DEFINE_TYPE_WITH_PRIVATE or G_ADD_PRIVATE instead",
                ),
                Vec::new(),
            );
            let ghost expected = report(
                file.path@,
                c.location.line as nat,
                c.location.column as nat,
                "deprecated_add_private"@,
                deprecated_add_private_message(),
                Seq::empty(),
            );
            assert(v@.message == expected.message);
            assert(v@.rule == expected.rule);
            assert(v@.fixes == expected.fixes);
            assert(v@ == expected);
            assert(add_private_reports(*file, *func)[i as int] == expected);
            let ghost before = out@;
            out.push(v);
            assert(violation_views(out@) =~= violation_views(before).push(v@));
            assert(violation_views(out@) =~= add_private_reports(*file, *func).take(i + 1));
            i = i + 1;
        }
        assert(add_private_reports(*file, *func).take(calls@.len() as int) =~= add_private_reports(
            *file,
            *func,
        ));
        out
    }

    /// Reports every call of `g_type_class_add_private` in the function
    /// definitions of the `.c` files.
    pub fn check_all(&self, ast_context: &AstContext, config: &Config, violations: &mut Vec<Violation>)
        ensures
            violation_views(final(violations)@) == violation_views(old(violations)@)
                + over_all_definitions(c_files(*ast_context), add_private_check()),
    {
        let files = ast_context.iter_c_files();
        let check = |file: &FileModel, func: &FunctionInfo| -> (r: Vec<Violation>)
            ensures
                violation_views(r@) == add_private_reports(*file, *func),
            {
                let found = self.check_function(file, func);
                found
            };
        check_definitions(&files, check, Ghost(add_private_check()), violations);
    }
}

} // verus!
