//! Which reports a rule's ignore patterns leave out: a report is dropped when
//! its file matches one of the glob patterns configured for its rule.

use vstd::prelude::*;

use crate::rules::{violation_views, RuleIgnore, Violation, ViolationView};
use crate::text::str_eq;

verus! {

/// Whether `path` matches one of the glob patterns `patterns`, as a
/// `globset::GlobSet` built from them decides; none when a pattern is not a
/// valid glob.
pub uninterp spec fn glob_ignores(patterns: Seq<Seq<char>>, path: Seq<char>) -> Option<bool>;

/// The texts of the patterns `ps`.
pub open spec fn pattern_views(ps: Seq<String>) -> Seq<Seq<char>> {
    ps.map_values(|p: String| p@)
}

/// `globset`: builds a `GlobSet` from `patterns` (`Glob::new` for each, then
/// `GlobSetBuilder::add` and `build`) and asks whether it matches `path`
/// (`GlobSet::is_match`).  The result is named by `glob_ignores`; whether the
/// patterns are valid globs does not depend on the path.  Which paths a glob
/// matches is globset's to say and is not stated here.
#[verifier::external_body]
fn glob_set_match(patterns: &Vec<String>, path: &str) -> (r: Option<bool>)
    ensures
        r == glob_ignores(pattern_views(patterns@), path@),
        forall|other: Seq<char>|
            (#[trigger] glob_ignores(pattern_views(patterns@), other) is None) == (r is None),
{
    let mut builder = globset::GlobSetBuilder::new();
    for p in patterns.iter() {
        match globset::Glob::new(p) {
            Ok(g) => {
                builder.add(g);
            },
            Err(_) => return None,
        }
    }
    builder.build().ok().map(|set| set.is_match(std::path::Path::new(path)))
}

/// The patterns of the first entry of `ignores` for the rule `rule`; none
/// when no entry names it.
pub open spec fn rule_patterns(ignores: Seq<RuleIgnore>, rule: Seq<char>) -> Seq<Seq<char>>
    decreases ignores.len(),
{
    if ignores.len() == 0 {
        Seq::empty()
    } else if ignores[0].rule@ == rule {
        pattern_views(ignores[0].patterns@)
    } else {
        rule_patterns(ignores.drop_first(), rule)
    }
}

/// The patterns are all valid globs (no patterns at all are).
pub open spec fn patterns_valid(patterns: Seq<Seq<char>>) -> bool {
    patterns.len() == 0 || glob_ignores(patterns, Seq::empty()) is Some
}

/// The reports of `vs` whose file the patterns do not match, in order.
pub open spec fn unmatched(patterns: Seq<Seq<char>>, vs: Seq<ViolationView>) -> Seq<ViolationView>
    decreases vs.len(),
{
    if vs.len() == 0 {
        Seq::empty()
    } else {
        unmatched(patterns, vs.drop_last()) + if glob_ignores(patterns, vs.last().file) == Some(false) {
            seq![vs.last()]
        } else {
            Seq::empty()
        }
    }
}

/// What is kept of `vs` under `patterns`: everything without patterns, else
/// the reports whose file they do not match.
pub open spec fn kept_reports(patterns: Seq<Seq<char>>, vs: Seq<ViolationView>) -> Seq<ViolationView> {
    if patterns.len() == 0 {
        vs
    } else {
        unmatched(patterns, vs)
    }
}

/// The patterns configured for `rule` (see `rule_patterns`).
fn patterns_of<'a>(ignores: &'a Vec<RuleIgnore>, rule: &str) -> (r: Option<&'a Vec<String>>)
    ensures
        match r {
            Some(ps) => pattern_views(ps@) == rule_patterns(ignores@, rule@),
            None => rule_patterns(ignores@, rule@) == Seq::<Seq<char>>::empty(),
        },
{
    let mut i: usize = 0;
    assert(ignores@.skip(0) =~= ignores@);
    while i < ignores.len()
        invariant
            i <= ignores@.len(),
            rule_patterns(ignores@, rule@) == rule_patterns(ignores@.skip(i as int), rule@),
        decreases ignores@.len() - i,
    {
        assert(ignores@.skip(i as int).drop_first() =~= ignores@.skip(i + 1));
        assert(ignores@.skip(i as int)[0] == ignores@[i as int]);
        if str_eq(ignores[i].rule.as_str(), rule) {
            return Some(&ignores[i].patterns);
        }
        i = i + 1;
    }
    None
}

/// Appends to `out` the reports of `found` that the ignore patterns of `rule`
/// keep (see `kept_reports`); false, with `out` unchanged, when those
/// patterns are not valid globs.
pub fn keep_unignored(ignores: &Vec<RuleIgnore>, rule: &str, found: Vec<Violation>, out: &mut Vec<Violation>) -> (ok: bool)
    ensures
        ok == patterns_valid(rule_patterns(ignores@, rule@)),
        ok ==> violation_views(final(out)@) == violation_views(old(out)@) + kept_reports(
            rule_patterns(ignores@, rule@),
            violation_views(found@),
        ),
        !ok ==> final(out)@ == old(out)@,
{
    let ghost pats = rule_patterns(ignores@, rule@);
    let ghost start = violation_views(out@);
    let patterns = match patterns_of(ignores, rule) {
        Some(ps) => ps,
        None => {
            crate::rules::append_violations(out, found);
            return true;
        },
    };
    if patterns.len() == 0 {
        crate::rules::append_violations(out, found);
        return true;
    }
    let check = glob_set_match(patterns, "");
    proof {
        reveal_strlit("");
    }
    if check.is_none() {
        return false;
    }
    let ghost fv = violation_views(found@);
    let mut i: usize = 0;
    while i < found.len()
        invariant
            i <= found@.len(),
            fv == violation_views(found@),
            pattern_views(patterns@) == pats,
            pats.len() > 0,
            glob_ignores(pats, Seq::empty()) is Some,
            forall|other: Seq<char>| (#[trigger] glob_ignores(pats, other) is None) == false,
            violation_views(out@) == start + unmatched(pats, fv.take(i as int)),
        decreases found@.len() - i,
    {
        assert(fv.take(i + 1).drop_last() =~= fv.take(i as int));
        assert(fv.take(i + 1).last() == found@[i as int]@);
        let hit = glob_set_match(patterns, found[i].file.as_str());
        let ghost before = violation_views(out@);
        match hit {
            Some(false) => {
                out.push(copy_violation(&found[i]));
                assert(violation_views(out@) =~= before + seq![found@[i as int]@]);
            },
            _ => {
                assert(violation_views(out@) =~= before + Seq::<ViolationView>::empty());
            },
        }
        i = i + 1;
    }
    assert(fv.take(found@.len() as int) =~= fv);
    true
}

/// A copy of `v` with the same view.
fn copy_violation(v: &Violation) -> (r: Violation)
    ensures
        r@ == v@,
{
    let mut fixes: Vec<crate::rules::Fix> = Vec::new();
    let mut i: usize = 0;
    while i < v.fixes.len()
        invariant
            i <= v.fixes@.len(),
            fixes@.len() == i,
            forall|j: int| 0 <= j < i ==> #[trigger] fixes@[j]@ == v.fixes@[j]@,
        decreases v.fixes@.len() - i,
    {
        let f = &v.fixes[i];
        fixes.push(crate::rules::Fix::new(f.start_byte, f.end_byte, f.replacement.clone()));
        i = i + 1;
    }
    assert(crate::rules::fix_views(fixes@) =~= crate::rules::fix_views(v.fixes@));
    let snippet = match &v.snippet {
        Some(s) => Some(s.clone()),
        None => None,
    };
    Violation {
        file: v.file.clone(),
        line: v.line,
        column: v.column,
        message: v.message.clone(),
        rule: v.rule.clone(),
        snippet,
        fixes,
    }
}

} // verus!
