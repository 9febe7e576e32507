//! Suggests `g_autolist`/`g_autoslist` for list variables that are freed by
//! hand with `g_list_free_full`/`g_slist_free_full`.

use vstd::prelude::*;

use crate::context::{c_files, AstContext};
use crate::model::expression::derefs;
use crate::model::function::{body_exprs, body_stmts, calls_of, passes_var, returns_var, FunctionInfo};
use crate::model::project::FileModel;
use crate::model::statement::{declarations_of, is_c_identifier, VariableDecl};
use crate::rules::{
    check_definitions, over_all_definitions, report, violation_views, Category, Config, Violation,
    ViolationView,
};
use crate::text::{concat3, str_eq};

verus! {

pub struct UseGAutolist;

/// A declaration of a `GList *` or `GSList *` variable with a plain name and
/// no automatic cleanup yet.
pub open spec fn list_candidate(d: VariableDecl) -> bool {
    &&& d.type_info.auto_cleanup is None
    &&& (d.type_info.base_type@ == "GList"@ || d.type_info.base_type@ == "GSList"@)
    &&& d.type_info.pointer_depth > 0
    &&& is_c_identifier(d.name@)
}

/// The index in `entries` of the entry named `name`, or -1.
pub open spec fn entry_index(entries: Seq<VariableDecl>, name: Seq<char>) -> int
    decreases entries.len(),
{
    if entries.len() == 0 {
        -1
    } else if entries.last().name@ == name {
        entries.len() - 1
    } else {
        entry_index(entries.drop_last(), name)
    }
}

/// The list variables of `ds`, one entry per name: at the place of its first
/// candidate declaration, holding its last one.
pub open spec fn list_entries(ds: Seq<VariableDecl>) -> Seq<VariableDecl>
    decreases ds.len(),
{
    if ds.len() == 0 {
        Seq::empty()
    } else {
        let prev = list_entries(ds.drop_last());
        let d = ds.last();
        if !list_candidate(d) {
            prev
        } else if entry_index(prev, d.name@) >= 0 {
            prev.update(entry_index(prev, d.name@), d)
        } else {
            prev.push(d)
        }
    }
}

/// The function that frees a list of the type of `d`.
pub open spec fn free_function(d: VariableDecl) -> Seq<char> {
    if d.type_info.base_type@ == "GList"@ {
        "g_list_free_full"@
    } else {
        "g_slist_free_full"@
    }
}

/// The message for the list variable `d`.
pub open spec fn autolist_message(d: VariableDecl) -> Seq<char> {
    if d.type_info.base_type@ == "GList"@ {
        "Consider using g_autolist to avoid manual g_list_free_full cleanup"@
    } else {
        "Consider using g_autoslist to avoid manual g_slist_free_full cleanup"@
    }
}

/// The list variables among `entries` that `func` frees by hand and does not
/// return, as violations.
pub open spec fn autolist_reports_of(path: Seq<char>, func: FunctionInfo, entries: Seq<VariableDecl>) -> Seq<
    ViolationView,
>
    decreases entries.len(),
{
    if entries.len() == 0 {
        Seq::empty()
    } else {
        let d = entries.last();
        autolist_reports_of(path, func, entries.drop_last()) + if passes_var(
            calls_of(body_exprs(func)),
            d.name@,
            free_function(d),
            0,
        ) && !returns_var(body_stmts(func), d.name@) {
            seq![
                report(
                    path,
                    d.location.line as nat,
                    d.location.column as nat,
                    "use_g_autolist"@,
                    autolist_message(d),
                    Seq::empty(),
                ),
            ]
        } else {
            Seq::empty()
        }
    }
}

/// The violations of one function definition of `file`.
pub open spec fn autolist_reports(file: FileModel, func: FunctionInfo) -> Seq<ViolationView> {
    autolist_reports_of(file.path@, func, list_entries(declarations_of(body_stmts(func))))
}

/// The per-function check of this rule.
pub open spec fn autolist_check() -> spec_fn(FileModel, FunctionInfo) -> Seq<ViolationView> {
    |file: FileModel, func: FunctionInfo| autolist_reports(file, func)
}

/// The index of the entry named `name`, if there is one.
fn find_entry(entries: &Vec<&VariableDecl>, name: &str) -> (r: Option<usize>)
    ensures
        r matches Some(k) ==> k == entry_index(derefs(entries@), name@),
        r is None ==> entry_index(derefs(entries@), name@) == -1,
{
    let ghost es = derefs(entries@);
    let mut k = entries.len();
    assert(es.take(k as int) =~= es);
    while k > 0
        invariant
            k <= entries@.len(),
            es == derefs(entries@),
            entry_index(es, name@) == entry_index(es.take(k as int), name@),
        decreases k,
    {
        assert(es.take(k as int).drop_last() =~= es.take(k - 1));
        assert(es.take(k as int).last() == *entries[k - 1]);
        if str_eq(entries[k - 1].name.as_str(), name) {
            return Some(k - 1);
        }
        k = k - 1;
    }
    None
}

proof fn lemma_entry_index_bounds(entries: Seq<VariableDecl>, name: Seq<char>)
    ensures
        -1 <= entry_index(entries, name) < entries.len(),
        entry_index(entries, name) >= 0 ==> entries[entry_index(entries, name)].name@ == name,
    decreases entries.len(),
{
    if entries.len() > 0 {
        lemma_entry_index_bounds(entries.drop_last(), name);
    }
}

impl UseGAutolist {
    pub fn name(&self) -> (r: &'static str)
        ensures
            r@ == "use_g_autolist"@,
    {
        "use_g_autolist"
    }

    pub fn description(&self) -> (r: &'static str)
        ensures
            r@ == "Suggest g_autolist/g_autoslist instead of manual g_list_free_full/g_slist_free_full cleanup"@,
    {
        "Suggest g_autolist/g_autoslist instead of manual g_list_free_full/g_slist_free_full cleanup"
    }

    pub fn category(&self) -> (r: Category)
        ensures
            r == Category::Complexity,
    {
        Category::Complexity
    }

    pub fn fixable(&self) -> (r: bool)
        ensures
            !r,
    {
        false
    }

    /// Find the `GList *` and `GSList *` variables that `decls` declare, one
    /// entry per name.
    pub fn find_list_vars<'a>(&self, decls: &Vec<&'a VariableDecl>) -> (r: Vec<&'a VariableDecl>)
        ensures
            derefs(r@) == list_entries(derefs(decls@)),
    {
        let ghost ds = derefs(decls@);
        let mut out: Vec<&'a VariableDecl> = Vec::new();
        let mut i: usize = 0;
        while i < decls.len()
            invariant
                i <= decls@.len(),
                ds == derefs(decls@),
                derefs(out@) == list_entries(ds.take(i as int)),
            decreases decls@.len() - i,
        {
            let d: &VariableDecl = decls[i];
            assert(ds.take(i + 1).drop_last() =~= ds.take(i as int));
            assert(ds.take(i + 1).last() == *d);
            proof {
                reveal_strlit("GList");
                reveal_strlit("GSList");
            }
            let is_list = str_eq(d.type_info.base_type.as_str(), "GList") || str_eq(
                d.type_info.base_type.as_str(),
                "GSList",
            );
            if !d.type_info.uses_auto_cleanup() && is_list && d.type_info.is_pointer()
                && d.is_simple_identifier() {
                match find_entry(&out, d.name.as_str()) {
                    Some(k) => {
                        proof {
                            lemma_entry_index_bounds(derefs(out@), d.name@);
                        }
                        out.set(k, d);
                        assert(derefs(out@) =~= list_entries(ds.take(i + 1)));
                    },
                    None => {
                        out.push(d);
                        assert(derefs(out@) =~= list_entries(ds.take(i + 1)));
                    },
                }
            }
            i = i + 1;
        }
        assert(ds.take(decls@.len() as int) =~= ds);
        out
    }

    /// The violations of one function definition of `file`.
    pub fn check_function(&self, func: &FunctionInfo, file_path: &str) -> (r: Vec<Violation>)
        ensures
            violation_views(r@) == autolist_reports_of(
                file_path@,
                *func,
                list_entries(declarations_of(body_stmts(*func))),
            ),
    {
        let decls = func.body_declarations();
        let list_vars = self.find_list_vars(&decls);
        let ghost es = derefs(list_vars@);
        let mut out: Vec<Violation> = Vec::new();
        let mut i: usize = 0;
        while i < list_vars.len()
            invariant
                i <= list_vars@.len(),
                es == derefs(list_vars@),
                violation_views(out@) == autolist_reports_of(file_path@, *func, es.take(i as int)),
            decreases list_vars@.len() - i,
        {
            let d: &VariableDecl = list_vars[i];
            assert(es.take(i + 1).drop_last() =~= es.take(i as int));
            assert(es.take(i + 1).last() == *d);
            proof {
                reveal_strlit("GList");
            }
            let is_glist = str_eq(d.type_info.base_type.as_str(), "GList");
            let free_func: &str = if is_glist {
                "g_list_free_full"
            } else {
                "g_slist_free_full"
            };
            if func.is_var_passed_to_function(d.name.as_str(), free_func, 0) && !func.is_var_returned(
                d.name.as_str(),
            ) {
                let message = if is_glist {
                    concat3("Consider using ", "g_autolist", " to avoid manual g_list_free_full cleanup")
                } else {
                    concat3(
                        "Consider using ",
                        "g_autoslist",
                        " to avoid manual g_slist_free_full cleanup",
                    )
                };
                proof {
                    reveal_strlit("Consider using ");
                    reveal_strlit("g_autolist");
                    reveal_strlit(" to avoid manual g_list_free_full cleanup");
                    reveal_strlit("Consider using g_autolist to avoid manual g_list_free_full cleanup");
                    reveal_strlit("g_autoslist");
                    reveal_strlit(" to avoid manual g_slist_free_full cleanup");
                    reveal_strlit("Consider using g_autoslist to avoid manual g_slist_free_full cleanup");
                    assert(message@ == autolist_message(*d));
                }
                let v = Violation::new(
                    file_path,
                    d.location.line,
                    d.location.column,
                    "use_g_autolist",
                    message,
                    Vec::new(),
                );
                let ghost before = out@;
                out.push(v);
                assert(violation_views(out@) =~= violation_views(before).push(v@));
            } else {
                assert(autolist_reports_of(file_path@, *func, es.take(i + 1)) =~= autolist_reports_of(
                    file_path@,
                    *func,
                    es.take(i as int),
                ) + Seq::empty());
            }
            i = i + 1;
        }
        assert(es.take(list_vars@.len() as int) =~= es);
        out
    }

    /// Reports every `GList *`/`GSList *` variable that a function definition
    /// of a `.c` file frees with `g_list_free_full`/`g_slist_free_full` (as
    /// first argument) and does not return.
    pub fn check_all(&self, ast_context: &AstContext, config: &Config, violations: &mut Vec<Violation>)
        ensures
            violation_views(final(violations)@) == violation_views(old(violations)@)
                + over_all_definitions(c_files(*ast_context), autolist_check()),
    {
        let files = ast_context.iter_c_files();
        let check = |file: &FileModel, func: &FunctionInfo| -> (r: Vec<Violation>)
            ensures
                violation_views(r@) == autolist_reports(*file, *func),
            {
                let found = self.check_function(func, file.path.as_str());
                found
            };
        check_definitions(&files, check, Ghost(autolist_check()), violations);
    }
}

} // verus!
