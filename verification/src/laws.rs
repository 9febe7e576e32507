//! Properties that hold across the operations of the library.

use vstd::prelude::*;

use crate::config::{
    all_names, discovered, first_listed, legacy_names, primary_names, resolution, ConfigPathView,
};
use crate::context::declared_in_header;
use crate::model::expression::{identifier_names, walk_spec, CallExpression, Expression};
use crate::model::function::{answers, calls_named, select};
use crate::model::location::{line_bounds_spec, line_end_spec, line_start_spec};
use crate::model::project::{
    declares, insert_file_spec, lemma_path_index_bounds, lookup_file, path_index, paths_unique,
    FileModel,
};
use crate::rules::g_param_spec_static_strings::{
    fixed_flags, flags_satisfied, join_bar, kept_flags, needed_flag_list, split_bar, static_flag_names,
};
use crate::rules::use_pragma_once::{has_pragma_once, pragma_once_report};
use crate::rules::use_g_clear_signal_handler::{
    block_reports, bare_report, guarded_report, lemma_next_statement_bounds, list_reports,
    next_statement, pair_report, signal_reports, block_skip,
};
use crate::rules::use_g_str_has_prefix::{comparison, prefix_report, prefix_reports_at};
use crate::rules::use_g_str_has_prefix_suffix::prefix_suffix_reports_at;
use crate::rules::{somes, ViolationView};
use crate::rules::tree_match::children_except;
use crate::syntax::SyntaxNode;
use crate::text::{has_substring, occurs_at};

verus! {

/// After a file is added to the project, looking up its path gives it back.
pub proof fn law_get_after_insert(files: Seq<FileModel>, file: FileModel)
    ensures
        lookup_file(insert_file_spec(files, file), file.path@) == Some(file),
{
    lemma_path_index_bounds(files, file.path@);
    let after = insert_file_spec(files, file);
    lemma_path_index_bounds(after, file.path@);
    let k = path_index(files, file.path@);
    if k >= 0 {
        if path_index(after, file.path@) != k {
            if path_index(after, file.path@) < 0 {
                assert(after[k].path@ == file.path@);
            } else if path_index(after, file.path@) > k {
                assert(after[k].path@ == file.path@);
            } else {
                let j = path_index(after, file.path@);
                assert(after[j] == files[j]);
            }
        }
    } else {
        let n = files.len() as int;
        if path_index(after, file.path@) != n {
            if path_index(after, file.path@) < 0 {
                assert(after[n].path@ == file.path@);
            } else {
                let j = path_index(after, file.path@);
                assert(after[j] == files[j]);
            }
        }
    }
}

/// Adding a file leaves what every other path looks up unchanged.
pub proof fn law_insert_keeps_other_paths(files: Seq<FileModel>, file: FileModel, path: Seq<char>)
    requires
        path != file.path@,
    ensures
        lookup_file(insert_file_spec(files, file), path) == lookup_file(files, path),
{
    lemma_path_index_bounds(files, file.path@);
    lemma_path_index_bounds(files, path);
    let after = insert_file_spec(files, file);
    lemma_path_index_bounds(after, path);
    let k = path_index(files, file.path@);
    let j = path_index(files, path);
    let j2 = path_index(after, path);
    // Every index other than `k` (or the new last one) holds the same file.
    assert forall|m: int| 0 <= m < files.len() && m != k implies after[m] == files[m] by {}
    if j >= 0 {
        assert(j != k);
        assert(after[j] == files[j]);
        if j2 != j {
            if j2 < 0 {
                assert(after[j].path@ == path);
            } else if j2 < j {
                if j2 == k {
                    assert(after[k] == file);
                } else {
                    assert(after[j2] == files[j2]);
                }
            } else {
                assert(after[j].path@ == path);
            }
        }
    } else {
        if j2 >= 0 {
            if j2 == k || (k < 0 && j2 == files.len()) {
                assert(after[j2] == file);
            } else {
                assert(after[j2] == files[j2]);
            }
        }
    }
}

/// Adding a file keeps the paths of the project distinct.
pub proof fn law_insert_keeps_paths_unique(files: Seq<FileModel>, file: FileModel)
    requires
        paths_unique(files),
    ensures
        paths_unique(insert_file_spec(files, file)),
{
    lemma_path_index_bounds(files, file.path@);
    let after = insert_file_spec(files, file);
    let k = path_index(files, file.path@);
    assert forall|i: int, j: int| 0 <= i < j < after.len() implies (#[trigger] after[i]).path@
        != (#[trigger] after[j]).path@ by {
        if k >= 0 {
            if i == k {
                assert(files[k].path@ == file.path@);
                assert(files[i].path@ != files[j].path@);
            } else if j == k {
                assert(files[k].path@ == file.path@);
                assert(files[i].path@ != files[j].path@);
            } else {
                assert(files[i].path@ != files[j].path@);
            }
        } else {
            if j == files.len() {
                assert(files[i].path@ != file.path@);
            } else {
                assert(files[i].path@ != files[j].path@);
            }
        }
    }
}

/// Adding the same file twice is adding it once.
pub proof fn law_insert_twice(files: Seq<FileModel>, file: FileModel)
    ensures
        insert_file_spec(insert_file_spec(files, file), file) == insert_file_spec(files, file),
{
    let once = insert_file_spec(files, file);
    lemma_path_index_bounds(files, file.path@);
    lemma_path_index_bounds(once, file.path@);
    let k = path_index(files, file.path@);
    let k2 = path_index(once, file.path@);
    let target = if k >= 0 {
        k
    } else {
        files.len() as int
    };
    assert(once[target] == file);
    assert(k2 >= 0);
    if k2 != target {
        if k2 < target {
            assert(once[k2] == files[k2]);
        } else {
            assert(once[target].path@ == file.path@);
        }
    }
    assert(insert_file_spec(once, file) =~= once);
}

/// A function that a header declares is found by a search of the project
/// (`is_function_declared_in_header` implies that `find_function` finds
/// it).
pub proof fn law_declared_in_header_is_found(files: Seq<FileModel>, name: Seq<char>)
    requires
        declared_in_header(files, name),
    ensures
        exists|i: int| 0 <= i < files.len() && declares(#[trigger] files[i], name),
{
    let i = choose|i: int|
        0 <= i < files.len() && crate::model::project::has_extension(
            (#[trigger] files[i]).path@,
            seq!['h'],
        ) && declares(files[i], name);
}

/// The walk of an expression starts with the expression itself.
pub proof fn law_walk_starts_with_self(e: Expression)
    ensures
        walk_spec(e).len() >= 1,
        walk_spec(e)[0] == e,
{
}

/// An expression contains an identifier named `name` exactly when `name` is
/// among the identifiers it collects (`contains_identifier` and
/// `collect_identifiers` agree).
pub proof fn law_contains_identifier_iff_collected(e: Expression, name: Seq<char>)
    ensures
        (exists|i: int|
            0 <= i < walk_spec(e).len() && (#[trigger] walk_spec(e)[i] matches Expression::Identifier(
                id,
            ) && id.name@ == name)) <==> identifier_names(walk_spec(e)).contains(name),
{
    lemma_identifier_names(walk_spec(e), name);
}

proof fn lemma_identifier_names(s: Seq<Expression>, name: Seq<char>)
    ensures
        (exists|i: int|
            0 <= i < s.len() && (#[trigger] s[i] matches Expression::Identifier(id) && id.name@
                == name)) <==> identifier_names(s).contains(name),
    decreases s.len(),
{
    if s.len() > 0 {
        let init = s.drop_last();
        lemma_identifier_names(init, name);
        let prev = identifier_names(init);
        let tail = match s.last() {
            Expression::Identifier(id) => seq![id.name@],
            _ => Seq::empty(),
        };
        assert(identifier_names(s) == prev + tail);
        if exists|i: int|
            0 <= i < s.len() && (#[trigger] s[i] matches Expression::Identifier(id) && id.name@
                == name) {
            let i = choose|i: int|
                0 <= i < s.len() && (#[trigger] s[i] matches Expression::Identifier(id) && id.name@
                    == name);
            if i < s.len() - 1 {
                assert(init[i] == s[i]);
                let q = choose|q: int| 0 <= q < prev.len() && prev[q] == name;
                assert((prev + tail)[q] == name);
            } else {
                assert((prev + tail)[prev.len() as int] == name);
            }
        }
        if identifier_names(s).contains(name) {
            let q = choose|q: int| 0 <= q < (prev + tail).len() && (prev + tail)[q] == name;
            if q < prev.len() {
                assert(prev[q] == name);
                let i = choose|i: int|
                    0 <= i < init.len() && (#[trigger] init[i] matches Expression::Identifier(id)
                        && id.name@ == name);
                assert(s[i] == init[i]);
            } else {
                assert(s[s.len() - 1] == s.last());
            }
        }
    }
}

/// `parts` joined with `" | "` ends with the last part, after the join of
/// the others.
proof fn lemma_join_bar_ends(parts: Seq<Seq<char>>)
    requires
        parts.len() >= 1,
    ensures
        occurs_at(join_bar(parts), parts.last(), join_bar(parts).len() - parts.last().len()),
        parts.len() >= 2 ==> occurs_at(
            join_bar(parts),
            parts[parts.len() - 2],
            join_bar(parts.drop_last()).len() - parts[parts.len() - 2].len(),
        ),
    decreases parts.len(),
{
    let j = join_bar(parts);
    if parts.len() == 1 {
        assert(j.subrange(0, j.len() as int) =~= j);
    } else {
        let init = parts.drop_last();
        lemma_join_bar_ends(init);
        let ji = join_bar(init);
        assert(j == ji + " | "@ + parts.last());
        assert(j.subrange(j.len() - parts.last().len(), j.len() as int) =~= parts.last());
        assert(init.last() == parts[parts.len() - 2]);
        let s = ji.len() - init.last().len();
        assert(ji.subrange(s, s + init.last().len()) == init.last());
        assert(j.subrange(s, s + init.last().len()) =~= ji.subrange(s, s + init.last().len()));
    }
}

/// The flags that the `g_param_spec_static_strings` fix writes satisfy the
/// rule: applying the fix resolves the violation.
pub proof fn law_fixed_flags_satisfy(flags: Seq<char>, nick_is_literal: bool, blurb_is_literal: bool)
    ensures
        flags_satisfied(
            fixed_flags(flags, nick_is_literal, blurb_is_literal),
            nick_is_literal,
            blurb_is_literal,
        ),
{
    let kept = if flags.len() == 0 || flags == "0"@ {
        Seq::empty()
    } else {
        crate::rules::g_param_spec_static_strings::kept_flags(
            crate::rules::g_param_spec_static_strings::split_bar(flags),
        )
    };
    let needed = needed_flag_list(nick_is_literal, blurb_is_literal);
    let parts = kept + needed;
    let fixed = fixed_flags(flags, nick_is_literal, blurb_is_literal);
    assert(fixed == join_bar(parts));
    lemma_join_bar_ends(parts);
    assert(parts.last() == needed.last());
    if needed.len() == 2 {
        assert(parts[parts.len() - 2] == needed[0]);
    }
    let n = join_bar(parts).len() - parts.last().len();
    assert(has_substring(fixed, parts.last())) by {
        assert(occurs_at(fixed, parts.last(), n));
    }
    if needed.len() == 2 {
        let m = join_bar(parts.drop_last()).len() - parts[parts.len() - 2].len();
        assert(has_substring(fixed, needed[0])) by {
            assert(occurs_at(fixed, parts[parts.len() - 2], m));
        }
    }
}

/// A header that already uses `#pragma once` is never reported by
/// `use_pragma_once`.
pub proof fn law_pragma_once_files_not_reported(file: FileModel)
    requires
        has_pragma_once(file.top_level_items@),
    ensures
        pragma_once_report(file) is None,
{
}

/// What `somes` keeps satisfies every property that each kept value has.
pub proof fn lemma_somes_all(s: Seq<Option<ViolationView>>, rule: Seq<char>)
    requires
        forall|i: int| 0 <= i < s.len() ==> (#[trigger] s[i] matches Some(v) ==> v.rule == rule),
    ensures
        forall|k: int| 0 <= k < somes(s).len() ==> (#[trigger] somes(s)[k]).rule == rule,
    decreases s.len(),
{
    if s.len() > 0 {
        let init = s.drop_last();
        assert forall|i: int| 0 <= i < init.len() implies (#[trigger] init[i] matches Some(v) ==> v.rule
            == rule) by {
            assert(init[i] == s[i]);
        }
        lemma_somes_all(init, rule);
        assert(s[s.len() - 1] == s.last());
        let prev = somes(init);
        let tail = match s.last() {
            Some(v) => seq![v],
            None => Seq::<ViolationView>::empty(),
        };
        assert(somes(s) == prev + tail);
        assert forall|k: int| 0 <= k < somes(s).len() implies (#[trigger] somes(s)[k]).rule == rule by {
            if k < prev.len() {
                assert(somes(s)[k] == prev[k]);
            } else {
                assert(somes(s)[k] == tail[k - prev.len()]);
            }
        }
    }
}

/// Every violation that `use_g_new` reports for a function carries the
/// rule's name.
pub proof fn law_g_new_reports_carry_rule(space: bool, file: FileModel, func: crate::model::function::FunctionInfo)
    ensures
        forall|k: int|
            0 <= k < crate::rules::use_g_new::g_new_reports(space, file, func).len() ==> (
            #[trigger] crate::rules::use_g_new::g_new_reports(space, file, func)[k]).rule
                == "use_g_new"@,
{
    let cs = crate::rules::use_g_new::malloc_calls(func);
    let s = cs.map_values(
        |c: crate::model::expression::CallExpression|
            crate::rules::use_g_new::g_new_report(space, file.path@, func, c),
    );
    lemma_somes_all(s, "use_g_new"@);
}

/// Every violation that `use_g_variant_new_typed` reports for a function
/// carries the rule's name.
pub proof fn law_variant_reports_carry_rule(file: FileModel, func: crate::model::function::FunctionInfo)
    ensures
        forall|k: int|
            0 <= k < crate::rules::use_g_variant_new_typed::variant_reports(file, func).len() ==> (
            #[trigger] crate::rules::use_g_variant_new_typed::variant_reports(file, func)[k]).rule
                == "use_g_variant_new_typed"@,
{
    let cs = crate::rules::use_g_variant_new_typed::variant_calls(func);
    let s = cs.map_values(
        |c: crate::model::expression::CallExpression|
            crate::rules::use_g_variant_new_typed::variant_report(file.path@, file.source@, c),
    );
    lemma_somes_all(s, "use_g_variant_new_typed"@);
}

/// The first of `a + b` that a listing holds is the first of `a` it holds,
/// and failing that the first of `b`.
pub proof fn lemma_first_listed_append(a: Seq<Seq<char>>, b: Seq<Seq<char>>, listing: Seq<Seq<char>>)
    ensures
        first_listed(a + b, listing) == (match first_listed(a, listing) {
            Some(n) => Some(n),
            None => first_listed(b, listing),
        }),
    decreases a.len(),
{
    if a.len() == 0 {
        assert(a + b =~= b);
    } else {
        assert((a + b)[0] == a[0]);
        assert((a + b).drop_first() =~= a.drop_first() + b);
        lemma_first_listed_append(a.drop_first(), b, listing);
    }
}

/// A name that is found is one of the names looked for, and the listing holds it.
pub proof fn law_found_name_is_listed(names: Seq<Seq<char>>, listing: Seq<Seq<char>>)
    ensures
        match first_listed(names, listing) {
            Some(n) => names.contains(n) && listing.contains(n),
            None => forall|k: int| 0 <= k < names.len() ==> !listing.contains(#[trigger] names[k]),
        },
    decreases names.len(),
{
    if names.len() > 0 {
        law_found_name_is_listed(names.drop_first(), listing);
        if !listing.contains(names[0]) {
            match first_listed(names.drop_first(), listing) {
                Some(n) => {
                    let k = choose|k: int| 0 <= k < names.drop_first().len() && names.drop_first()[k] == n;
                    assert(names[k + 1] == n);
                },
                None => {
                    assert forall|k: int| 0 <= k < names.len() implies !listing.contains(
                        #[trigger] names[k],
                    ) by {
                        if k > 0 {
                            assert(names[k] == names.drop_first()[k - 1]);
                        }
                    }
                },
            }
        } else {
            assert(names[0] == names[0]);
        }
    }
}

/// A canonical configuration file in the target directory is chosen whatever
/// the base directory holds, unless a file is named explicitly.
pub proof fn law_target_canonical_wins(target: Seq<Seq<char>>, base: Seq<Seq<char>>)
    requires
        target.contains("gobject-linter.toml"@),
    ensures
        resolution(target, base, None) == Ok::<ConfigPathView, ConfigPathView>(
            ConfigPathView::InTarget("gobject-linter.toml"@),
        ),
{
    assert(primary_names()[0] == "gobject-linter.toml"@);
}

/// A file named explicitly decides the outcome alone: the directories are
/// not looked at.
pub proof fn law_explicit_ignores_directories(
    t1: Seq<Seq<char>>,
    b1: Seq<Seq<char>>,
    t2: Seq<Seq<char>>,
    b2: Seq<Seq<char>>,
    exists: bool,
)
    ensures
        resolution(t1, b1, Some(exists)) == resolution(t2, b2, Some(exists)),
        resolution(t1, b1, Some(exists)) is Ok <==> exists,
{
}

/// Discovery always ends in a file with one of the configuration names.
pub proof fn law_discovered_name_is_a_config_name(target: Seq<Seq<char>>, base: Seq<Seq<char>>)
    ensures
        match discovered(target, base) {
            ConfigPathView::InTarget(n) => all_names().contains(n) && target.contains(n),
            ConfigPathView::InBase(n) => all_names().contains(n),
            ConfigPathView::Explicit => false,
        },
{
    law_found_name_is_listed(primary_names(), target);
    law_found_name_is_listed(primary_names(), base);
    law_found_name_is_listed(legacy_names(), target);
    law_found_name_is_listed(legacy_names(), base);
    let all = all_names();
    assert(all[0] == primary_names()[0]);
    assert(all[1] == primary_names()[1]);
    assert(all[2] == legacy_names()[0]);
    match discovered(target, base) {
        ConfigPathView::InTarget(n) => {
            if primary_names().contains(n) {
                let k = choose|k: int| 0 <= k < primary_names().len() && primary_names()[k] == n;
                assert(all[k] == n);
            } else {
                assert(legacy_names()[0] == n);
                assert(all[2] == n);
            }
        },
        ConfigPathView::InBase(n) => {
            if primary_names().contains(n) {
                let k = choose|k: int| 0 <= k < primary_names().len() && primary_names()[k] == n;
                assert(all[k] == n);
            } else {
                assert(legacy_names()[0] == n);
                assert(all[2] == n);
            }
        },
        ConfigPathView::Explicit => {},
    }
}

/// When the target and the base are the same directory, discovery picks the
/// first configuration name that the directory holds, in the order in which a
/// single directory is searched, and falls back to the canonical name there.
pub proof fn law_same_directory_search_order(dir: Seq<Seq<char>>)
    ensures
        discovered(dir, dir) == (match first_listed(all_names(), dir) {
            Some(n) => ConfigPathView::InTarget(n),
            None => ConfigPathView::InBase(primary_names()[0]),
        }),
{
    lemma_first_listed_append(primary_names(), legacy_names(), dir);
}

/// Every violation of `vs` belongs to the rule `rule`.
pub open spec fn all_of_rule(vs: Seq<ViolationView>, rule: Seq<char>) -> bool {
    forall|k: int| 0 <= k < vs.len() ==> (#[trigger] vs[k]).rule == rule
}

proof fn lemma_all_of_rule_concat(a: Seq<ViolationView>, b: Seq<ViolationView>, rule: Seq<char>)
    requires
        all_of_rule(a, rule),
        all_of_rule(b, rule),
    ensures
        all_of_rule(a + b, rule),
{
    assert forall|k: int| 0 <= k < (a + b).len() implies (#[trigger] (a + b)[k]).rule == rule by {
        if k < a.len() {
            assert((a + b)[k] == a[k]);
        } else {
            assert((a + b)[k] == b[k - a.len()]);
        }
    }
}

/// Every violation that `use_g_clear_signal_handler` reports in a tree
/// carries the rule's name.
pub proof fn law_signal_reports_carry_rule(path: Seq<char>, source: Seq<u8>, base_line: nat, base_byte: nat, n: SyntaxNode)
    ensures
        all_of_rule(signal_reports(path, source, base_line, base_byte, n), "use_g_clear_signal_handler"@),
    decreases n, 1int,
{
    if n.kind@ == "compound_statement"@ {
        lemma_block_reports_carry_rule(path, source, base_line, base_byte, n.children@, 0);
    } else {
        lemma_list_reports_carry_rule(path, source, base_line, base_byte, n.children@, 0);
    }
}

proof fn lemma_list_reports_carry_rule(
    path: Seq<char>,
    source: Seq<u8>,
    base_line: nat,
    base_byte: nat,
    cs: Seq<SyntaxNode>,
    i: int,
)
    ensures
        all_of_rule(list_reports(path, source, base_line, base_byte, cs, i), "use_g_clear_signal_handler"@),
    decreases cs, 0int, cs.len() - i,
{
    if 0 <= i < cs.len() {
        law_signal_reports_carry_rule(path, source, base_line, base_byte, cs[i]);
        lemma_list_reports_carry_rule(path, source, base_line, base_byte, cs, i + 1);
        lemma_all_of_rule_concat(
            signal_reports(path, source, base_line, base_byte, cs[i]),
            list_reports(path, source, base_line, base_byte, cs, i + 1),
            "use_g_clear_signal_handler"@,
        );
    }
}

proof fn lemma_block_reports_carry_rule(
    path: Seq<char>,
    source: Seq<u8>,
    base_line: nat,
    base_byte: nat,
    cs: Seq<SyntaxNode>,
    i: int,
)
    ensures
        all_of_rule(block_reports(path, source, base_line, base_byte, cs, i), "use_g_clear_signal_handler"@),
    decreases cs, 0int, cs.len() - i,
{
    let rule = "use_g_clear_signal_handler"@;
    if 0 <= i < cs.len() {
        if !crate::rules::use_g_clear_signal_handler::is_block_statement(cs[i]) {
            lemma_block_reports_carry_rule(path, source, base_line, base_byte, cs, i + 1);
        } else {
            lemma_block_reports_carry_rule(path, source, base_line, base_byte, cs, i + 1);
            let rest = block_reports(path, source, base_line, base_byte, cs, i + 1);
            match guarded_report(path, source, base_line, base_byte, cs[i]) {
                Some(v) => {
                    lemma_all_of_rule_concat(seq![v], rest, rule);
                },
                None => {
                    let j = next_statement(cs, i + 1);
                    lemma_next_statement_bounds(cs, i + 1);
                    let pair = if j < cs.len() {
                        pair_report(path, source, base_line, base_byte, cs[i], cs[j])
                    } else {
                        None
                    };
                    match pair {
                        Some(v) => {
                            lemma_block_reports_carry_rule(path, source, base_line, base_byte, cs, j + 1);
                            lemma_all_of_rule_concat(
                                seq![v],
                                block_reports(path, source, base_line, base_byte, cs, j + 1),
                                rule,
                            );
                        },
                        None => match bare_report(
                            path,
                            source,
                            base_line,
                            base_byte,
                            cs[i],
                            children_except(cs, block_skip()),
                        ) {
                            Some(v) => {
                                lemma_all_of_rule_concat(seq![v], rest, rule);
                            },
                            None => {
                                law_signal_reports_carry_rule(path, source, base_line, base_byte, cs[i]);
                                lemma_all_of_rule_concat(
                                    signal_reports(path, source, base_line, base_byte, cs[i]),
                                    rest,
                                    rule,
                                );
                            },
                        },
                    }
                },
            }
        }
    }
}

/// The violations of `vs` with their rule set to `rule`.
pub open spec fn with_rule(vs: Seq<ViolationView>, rule: Seq<char>) -> Seq<ViolationView> {
    vs.map_values(|v: ViolationView| ViolationView { rule: rule, ..v })
}

/// What `use_g_str_has_prefix` reports at a node, `use_g_str_has_prefix_suffix`
/// reports there too, first, at the same place, with the same message and
/// fix, under its own name.
pub proof fn law_prefix_suffix_covers_prefix(path: Seq<char>, source: Seq<u8>, base_line: nat, base_byte: nat, n: SyntaxNode)
    ensures
        prefix_reports_at(path, source, base_line, base_byte, n).len() <= prefix_suffix_reports_at(
            path,
            source,
            base_line,
            base_byte,
            n,
        ).len(),
        prefix_suffix_reports_at(path, source, base_line, base_byte, n).take(
            prefix_reports_at(path, source, base_line, base_byte, n).len() as int,
        ) == with_rule(prefix_reports_at(path, source, base_line, base_byte, n), "use_g_str_has_prefix_suffix"@),
{
    let both = "use_g_str_has_prefix_suffix"@;
    let one = "use_g_str_has_prefix"@;
    match comparison(source, n) {
        Some((op, l, r)) => {
            let a1 = prefix_report(one, path, source, base_line, base_byte, n, op, l, r);
            let b1 = prefix_report(one, path, source, base_line, base_byte, n, op, r, l);
            let a2 = prefix_report(both, path, source, base_line, base_byte, n, op, l, r);
            let b2 = prefix_report(both, path, source, base_line, base_byte, n, op, r, l);
            assert(with_rule(a1, both) =~= a2);
            assert(with_rule(b1, both) =~= b2);
            assert(with_rule(a1 + b1, both) =~= a2 + b2);
            let full = prefix_suffix_reports_at(path, source, base_line, base_byte, n);
            assert(full.take((a1 + b1).len() as int) =~= a2 + b2);
        },
        None => {
            assert(with_rule(Seq::<ViolationView>::empty(), both) =~= Seq::<ViolationView>::empty());
        },
    }
}

/// A static prototype's name is among the names of the static prototypes.
proof fn lemma_static_prototype_listed(fs: Seq<crate::model::function::FunctionInfo>, j: int)
    requires
        0 <= j < fs.len(),
        !fs[j].is_definition,
        fs[j].is_static,
    ensures
        crate::parse::static_prototype_names(fs).contains(fs[j].name@),
    decreases fs.len(),
{
    let prev = crate::parse::static_prototype_names(fs.drop_last());
    if j == fs.len() - 1 {
        assert(crate::parse::static_prototype_names(fs)[prev.len() as int] == fs[j].name@);
    } else {
        assert(fs.drop_last()[j] == fs[j]);
        lemma_static_prototype_listed(fs.drop_last(), j);
        let k = choose|k: int| 0 <= k < prev.len() && prev[k] == fs[j].name@;
        assert(crate::parse::static_prototype_names(fs)[k] == fs[j].name@);
    }
}

/// A function definition of a file that has a static prototype in the same
/// file is static and is marked as forward-declared; its name, kind and
/// place do not change, nor does the number of functions.
pub proof fn law_static_prototype_makes_static(fs: Seq<crate::model::function::FunctionInfo>, i: int, j: int)
    requires
        0 <= i < fs.len(),
        0 <= j < fs.len(),
        fs[i].is_definition,
        !fs[j].is_definition,
        fs[j].is_static,
        fs[j].name@ == fs[i].name@,
    ensures
        crate::parse::with_static_forwards(fs)[i].is_static,
        crate::parse::with_static_forwards(fs)[i].has_static_forward_decl,
        crate::parse::with_static_forwards(fs)[i].name == fs[i].name,
        crate::parse::with_static_forwards(fs)[i].is_definition == fs[i].is_definition,
        crate::parse::with_static_forwards(fs)[i].start_byte == fs[i].start_byte,
        crate::parse::with_static_forwards(fs).len() == fs.len(),
{
    lemma_static_prototype_listed(fs, j);
}

/// `a` keeps some of the elements of `b`, in their order.
pub open spec fn is_subsequence<T>(a: Seq<T>, b: Seq<T>) -> bool
    decreases b.len(),
{
    if a.len() == 0 {
        true
    } else if b.len() == 0 {
        false
    } else if a.last() == b.last() {
        is_subsequence(a.drop_last(), b.drop_last()) || is_subsequence(a, b.drop_last())
    } else {
        is_subsequence(a, b.drop_last())
    }
}

/// A mask that selects no more than another selects a subsequence of what
/// the other selects.
pub proof fn lemma_select_smaller_mask<T>(cs: Seq<T>, small: Seq<bool>, large: Seq<bool>)
    requires
        small.len() == cs.len(),
        large.len() == cs.len(),
        forall|i: int| 0 <= i < cs.len() && #[trigger] small[i] ==> large[i],
    ensures
        is_subsequence(select(cs, small), select(cs, large)),
    decreases cs.len(),
{
    if cs.len() > 0 {
        let (c0, s0, l0) = (cs.drop_last(), small.drop_last(), large.drop_last());
        assert forall|i: int| 0 <= i < c0.len() && #[trigger] s0[i] implies l0[i] by {
            assert(small[i] == s0[i] && large[i] == l0[i]);
        }
        lemma_select_smaller_mask(c0, s0, l0);
        let a = select(c0, s0);
        let b = select(c0, l0);
        if large.last() {
            assert(select(cs, large) == b.push(cs.last())) by {
                assert(b + seq![cs.last()] =~= b.push(cs.last()));
            }
            assert(select(cs, large).drop_last() =~= b);
            if small.last() {
                assert(select(cs, small) == a.push(cs.last())) by {
                    assert(a + seq![cs.last()] =~= a.push(cs.last()));
                }
                assert(select(cs, small).drop_last() =~= a);
            } else {
                assert(select(cs, small) =~= a);
            }
        } else {
            assert(!small.last());
            assert(select(cs, small) =~= a);
            assert(select(cs, large) =~= b);
        }
    }
}

/// Selecting with no mask bit set selects nothing.
pub proof fn lemma_select_none<T>(cs: Seq<T>, mask: Seq<bool>)
    requires
        forall|i: int| 0 <= i < mask.len() ==> !#[trigger] mask[i],
    ensures
        select(cs, mask).len() == 0,
    decreases cs.len(),
{
    if cs.len() > 0 && mask.len() > 0 {
        lemma_select_none(cs.drop_last(), mask.drop_last());
    }
}

/// `find_calls_matching` with a predicate that holds on no more names than
/// another keeps a subsequence of the calls that the other keeps, and with a
/// predicate that holds on no name it keeps none.
pub proof fn law_find_calls_matching_stronger_predicate<P: Fn(&str) -> bool, Q: Fn(&str) -> bool>(
    p: P,
    q: Q,
    cs: Seq<CallExpression>,
    asked_p: Seq<&str>,
    mask_p: Seq<bool>,
    asked_q: Seq<&str>,
    mask_q: Seq<bool>,
)
    requires
        answers(p, cs, asked_p, mask_p),
        answers(q, cs, asked_q, mask_q),
        forall|s: &str, t: &str, a: bool, b: bool|
            s@ == t@ && #[trigger] p.ensures((s,), a) && #[trigger] q.ensures((t,), b) && a ==> b,
    ensures
        is_subsequence(select(cs, mask_p), select(cs, mask_q)),
        (forall|s: &str, a: bool| #[trigger] p.ensures((s,), a) ==> !a) ==> select(cs, mask_p).len() == 0,
{
    assert forall|i: int| 0 <= i < cs.len() && #[trigger] mask_p[i] implies mask_q[i] by {
        assert(asked_p[i]@ == cs[i].function@ && asked_q[i]@ == cs[i].function@);
        assert(p.ensures((asked_p[i],), mask_p[i]));
        assert(q.ensures((asked_q[i],), mask_q[i]));
    }
    lemma_select_smaller_mask(cs, mask_p, mask_q);
    if forall|s: &str, a: bool| #[trigger] p.ensures((s,), a) ==> !a {
        assert forall|i: int| 0 <= i < mask_p.len() implies !#[trigger] mask_p[i] by {
            assert(asked_p[i]@ == cs[i].function@);
            assert(p.ensures((asked_p[i],), mask_p[i]));
        }
        lemma_select_none(cs, mask_p);
    }
}

proof fn lemma_line_start_facts(source: Seq<u8>, pos: int)
    requires
        0 <= pos <= source.len(),
    ensures
        0 <= line_start_spec(source, pos) <= pos,
        line_start_spec(source, pos) == 0 || source[line_start_spec(source, pos) - 1] == 10u8,
        forall|i: int| line_start_spec(source, pos) <= i < pos ==> source[i] != 10u8,
    decreases pos,
{
    if pos > 0 && source[pos - 1] != 10u8 {
        lemma_line_start_facts(source, pos - 1);
    }
}

proof fn lemma_line_end_facts(source: Seq<u8>, pos: int)
    requires
        0 <= pos <= source.len(),
    ensures
        pos <= line_end_spec(source, pos) <= source.len(),
        line_end_spec(source, pos) < source.len() ==> source[line_end_spec(source, pos)] == 10u8,
        forall|i: int| pos <= i < line_end_spec(source, pos) ==> source[i] != 10u8,
    decreases source.len() - pos,
{
    if pos < source.len() && source[pos] != 10u8 {
        lemma_line_end_facts(source, pos + 1);
    }
}

/// The bounds that `find_line_bounds` gives for a position hold it, start
/// where a line starts and end where a line ends (after its newline, or at
/// the end of the source), and from the position on hold no newline but as
/// their last byte.
pub proof fn law_line_bounds(source: Seq<u8>, pos: int)
    requires
        0 <= pos <= source.len(),
    ensures
        ({
            let (s, e) = line_bounds_spec(source, pos);
            &&& 0 <= s <= pos <= e <= source.len()
            &&& s == 0 || source[s - 1] == 10u8
            &&& e == source.len() || source[e - 1] == 10u8
            &&& forall|i: int| pos <= i < e - 1 ==> source[i] != 10u8
        }),
{
    lemma_line_start_facts(source, pos);
    let start = line_start_spec(source, pos);
    if start > 0 {
        lemma_line_start_facts(source, start - 1);
    }
    lemma_line_end_facts(source, pos);
}

/// `find_calls` with no names finds nothing.
pub proof fn law_find_calls_no_names(cs: Seq<CallExpression>)
    ensures
        calls_named(cs, Seq::empty()).len() == 0,
    decreases cs.len(),
{
    if cs.len() > 0 {
        law_find_calls_no_names(cs.drop_last());
    }
}

/// `find_calls_matching` with a predicate that holds exactly on the names
/// of a list keeps what `find_calls` of that list keeps.
pub proof fn law_find_calls_matching_names<P: Fn(&str) -> bool>(
    p: P,
    names: Seq<Seq<char>>,
    cs: Seq<CallExpression>,
    asked: Seq<&str>,
    mask: Seq<bool>,
)
    requires
        answers(p, cs, asked, mask),
        forall|s: &str, b: bool| #[trigger] p.ensures((s,), b) ==> b == names.contains(s@),
    ensures
        select(cs, mask) == calls_named(cs, names),
    decreases cs.len(),
{
    if cs.len() > 0 {
        let k = cs.len() - 1;
        assert(asked[k]@ == cs[k].function@ && p.ensures((asked[k],), mask[k]));
        assert(answers(p, cs.drop_last(), asked.drop_last(), mask.drop_last())) by {
            assert forall|i: int| 0 <= i < cs.drop_last().len() implies #[trigger] asked.drop_last()[i]@
                == cs.drop_last()[i].function@ && p.ensures((asked.drop_last()[i],), mask.drop_last()[i]) by {
                assert(asked[i]@ == cs[i].function@ && p.ensures((asked[i],), mask[i]));
            }
        }
        law_find_calls_matching_names(p, names, cs.drop_last(), asked.drop_last(), mask.drop_last());
    }
}

/// A function of a file model that the visit of the tree gives: a
/// declaration never names a macro or a GObject type macro; a definition
/// never names a GObject type macro and spans exactly its node's bytes.
pub open spec fn visited_function_ok(f: crate::model::function::FunctionInfo) -> bool {
    &&& f.is_definition ==> !crate::parse::gobject_type_macro(f.name@) && f.start_byte is Some && f.end_byte is Some
    &&& !f.is_definition ==> !crate::parse::macro_identifier(f.name@) && !crate::parse::gobject_type_macro(f.name@)
        && f.start_byte is None && f.end_byte is None
}

proof fn lemma_declarator_names_ok(src: Seq<u8>, ns: Seq<SyntaxNode>)
    ensures
        forall|i: int|
            0 <= i < crate::parse::declarator_names(src, ns).len() ==> !crate::parse::macro_identifier(
                #[trigger] crate::parse::declarator_names(src, ns)[i],
            ) && !crate::parse::gobject_type_macro(crate::parse::declarator_names(src, ns)[i]),
    decreases ns.len(),
{
    if ns.len() > 0 {
        lemma_declarator_names_ok(src, ns.drop_last());
        let prev = crate::parse::declarator_names(src, ns.drop_last());
        let all = crate::parse::declarator_names(src, ns);
        assert forall|i: int| 0 <= i < all.len() implies !crate::parse::macro_identifier(#[trigger] all[i])
            && !crate::parse::gobject_type_macro(all[i]) by {
            if i < prev.len() {
                assert(all[i] == prev[i]);
            }
        }
    }
}

/// The functions that the visit of a file's tree gives (see
/// `functions_rel`): no declaration names a macro or a GObject type macro,
/// no definition names a GObject type macro, a definition carries its byte
/// range and a declaration none.
pub proof fn law_visited_functions(
    src: Seq<u8>,
    ns: Seq<SyntaxNode>,
    skip: int,
    fs: Seq<crate::model::function::FunctionInfo>,
    depth: nat,
)
    requires
        crate::parse::functions_rel(src, ns, skip, fs, depth),
    ensures
        forall|i: int| 0 <= i < fs.len() ==> visited_function_ok(#[trigger] fs[i]),
    decreases ns.len(),
{
    if ns.len() > 0 {
        let n = ns[0];
        if n.start_byte < skip {
            law_visited_functions(src, ns.drop_first(), skip, fs, depth);
        } else if n.kind@ == "function_definition"@ {
            match crate::syntax::child_by_field(n.children@, "declarator"@) {
                Some(d) => match crate::parse::declared_name(src, d) {
                    Some(name) => if crate::parse::gobject_type_macro(name) {
                        law_visited_functions(src, ns.drop_first(), n.end_byte as int, fs, depth);
                    } else {
                        law_visited_functions(src, ns.drop_first(), n.end_byte as int, fs.drop_first(), depth);
                        assert forall|i: int| 0 <= i < fs.len() implies visited_function_ok(#[trigger] fs[i]) by {
                            if i > 0 {
                                assert(fs[i] == fs.drop_first()[i - 1]);
                            }
                        }
                    },
                    None => law_visited_functions(src, ns.drop_first(), n.end_byte as int, fs, depth),
                },
                None => law_visited_functions(src, ns.drop_first(), n.end_byte as int, fs, depth),
            }
        } else if n.kind@ == "declaration"@ || n.kind@ == "expression_statement"@ {
            let names = crate::parse::node_function_names(src, n);
            let k = names.len() as int;
            law_visited_functions(src, ns.drop_first(), skip, fs.skip(k), depth);
            if n.kind@ == "declaration"@ {
                lemma_declarator_names_ok(src, crate::syntax::preorder(n));
            }
            assert forall|i: int| 0 <= i < fs.len() implies visited_function_ok(#[trigger] fs[i]) by {
                if i < k {
                    assert(crate::parse::prototype_rel(src, n, names[i], fs[i]));
                    if n.kind@ != "declaration"@ {
                        assert(names.len() <= 1);
                        assert(names == crate::parse::statement_call_names(src, n));
                    }
                } else {
                    assert(fs[i] == fs.skip(k)[i - k]);
                }
            }
        } else {
            law_visited_functions(src, ns.drop_first(), skip, fs, depth);
        }
    }
}

// ---------------------------------------------------------------------------
// Idempotence of the fixed `GParamSpec` flags
// ---------------------------------------------------------------------------

/// Every character of `s` is white space.
pub open spec fn all_space(s: Seq<char>) -> bool {
    forall|i: int| 0 <= i < s.len() ==> crate::text::is_whitespace_char(#[trigger] s[i])
}

proof fn lemma_strip_front_space_prefix(a: Seq<char>, y: Seq<char>)
    requires
        all_space(a),
    ensures
        crate::text::strip_front(a + y, |c: char| crate::text::is_whitespace_char(c))
            == crate::text::strip_front(y, |c: char| crate::text::is_whitespace_char(c)),
    decreases a.len(),
{
    if a.len() > 0 {
        assert((a + y)[0] == a[0]);
        assert((a + y).drop_first() =~= a.drop_first() + y);
        lemma_strip_front_space_prefix(a.drop_first(), y);
    } else {
        assert(a + y =~= y);
    }
}

proof fn lemma_strip_back_space_suffix(y: Seq<char>, b: Seq<char>)
    requires
        all_space(b),
    ensures
        crate::text::strip_back(y + b, |c: char| crate::text::is_whitespace_char(c))
            == crate::text::strip_back(y, |c: char| crate::text::is_whitespace_char(c)),
    decreases b.len(),
{
    if b.len() > 0 {
        assert((y + b).last() == b.last());
        assert((y + b).drop_last() =~= y + b.drop_last());
        lemma_strip_back_space_suffix(y, b.drop_last());
    } else {
        assert(y + b =~= y);
    }
}

proof fn lemma_strip_front_append(x: Seq<char>, b: Seq<char>)
    ensures
        crate::text::strip_front(x, |c: char| crate::text::is_whitespace_char(c)).len() > 0
            ==> crate::text::strip_front(x + b, |c: char| crate::text::is_whitespace_char(c))
            == crate::text::strip_front(x, |c: char| crate::text::is_whitespace_char(c)) + b,
        crate::text::strip_front(x, |c: char| crate::text::is_whitespace_char(c)).len() == 0
            ==> crate::text::strip_front(x + b, |c: char| crate::text::is_whitespace_char(c))
            == crate::text::strip_front(b, |c: char| crate::text::is_whitespace_char(c)),
    decreases x.len(),
{
    if x.len() > 0 {
        assert((x + b)[0] == x[0]);
        assert((x + b).drop_first() =~= x.drop_first() + b);
        lemma_strip_front_append(x.drop_first(), b);
    } else {
        assert(x + b =~= b);
    }
}

/// White space around `x` does not change its trim.
proof fn lemma_trim_padded(a: Seq<char>, x: Seq<char>, b: Seq<char>)
    requires
        all_space(a),
        all_space(b),
    ensures
        crate::text::trim_spec(a + x + b) == crate::text::trim_spec(x),
{
    let p = |c: char| crate::text::is_whitespace_char(c);
    assert(a + x + b =~= a + (x + b));
    lemma_strip_front_space_prefix(a, x + b);
    lemma_strip_front_append(x, b);
    if crate::text::strip_front(x, p).len() > 0 {
        lemma_strip_back_space_suffix(crate::text::strip_front(x, p), b);
    } else {
        lemma_strip_front_space_prefix(b, Seq::empty());
        assert(b + Seq::<char>::empty() =~= b);
        assert(crate::text::strip_front(Seq::<char>::empty(), p) =~= Seq::<char>::empty());
    }
}

proof fn lemma_strip_front_shape(x: Seq<char>)
    ensures
        ({
            let y = crate::text::strip_front(x, |c: char| crate::text::is_whitespace_char(c));
            &&& y.len() <= x.len()
            &&& y =~= x.skip(x.len() - y.len())
            &&& y.len() == 0 || !crate::text::is_whitespace_char(y[0])
        }),
    decreases x.len(),
{
    if x.len() > 0 && crate::text::is_whitespace_char(x[0]) {
        lemma_strip_front_shape(x.drop_first());
        let y = crate::text::strip_front(x.drop_first(), |c: char| crate::text::is_whitespace_char(c));
        assert(x.drop_first().skip(x.drop_first().len() - y.len()) =~= x.skip(x.len() - y.len()));
    } else {
        assert(x.skip(0) =~= x);
    }
}

proof fn lemma_strip_back_shape(x: Seq<char>)
    ensures
        ({
            let y = crate::text::strip_back(x, |c: char| crate::text::is_whitespace_char(c));
            &&& y.len() <= x.len()
            &&& y =~= x.take(y.len() as int)
            &&& y.len() == 0 || !crate::text::is_whitespace_char(y[y.len() - 1])
        }),
    decreases x.len(),
{
    if x.len() > 0 && crate::text::is_whitespace_char(x.last()) {
        lemma_strip_back_shape(x.drop_last());
        let y = crate::text::strip_back(x.drop_last(), |c: char| crate::text::is_whitespace_char(c));
        assert(x.drop_last().take(y.len() as int) =~= x.take(y.len() as int));
    } else {
        assert(x.take(x.len() as int) =~= x);
    }
}

/// A text with no white space at either end is its own trim.
proof fn lemma_trim_of_trimmed(x: Seq<char>)
    requires
        x.len() == 0 || (!crate::text::is_whitespace_char(x[0]) && !crate::text::is_whitespace_char(
            x[x.len() - 1],
        )),
    ensures
        crate::text::trim_spec(x) == x,
{
    if x.len() > 0 {
        assert(x.last() == x[x.len() - 1]);
    }
}

/// Trimming twice is trimming once; a trim holds no character that the text
/// does not.
proof fn lemma_trim_twice(x: Seq<char>)
    ensures
        crate::text::trim_spec(crate::text::trim_spec(x)) == crate::text::trim_spec(x),
        forall|c: char| crate::text::trim_spec(x).contains(c) ==> x.contains(c),
{
    let y = crate::text::strip_front(x, |c: char| crate::text::is_whitespace_char(c));
    lemma_strip_front_shape(x);
    lemma_strip_back_shape(y);
    let z = crate::text::trim_spec(x);
    assert(z == crate::text::strip_back(y, |c: char| crate::text::is_whitespace_char(c)));
    if z.len() > 0 {
        assert(z[0] == y[0]);
    }
    lemma_trim_of_trimmed(z);
    assert forall|c: char| z.contains(c) implies x.contains(c) by {
        let i = choose|i: int| 0 <= i < z.len() && z[i] == c;
        assert(z[i] == y[i]);
        assert(y[i] == x[x.len() - y.len() + i]);
    }
}

/// `s` holds no `|`.
pub open spec fn no_bar(s: Seq<char>) -> bool {
    forall|i: int| 0 <= i < s.len() ==> #[trigger] s[i] != '|'
}

proof fn lemma_split_bar_nonempty(u: Seq<char>)
    ensures
        split_bar(u).len() >= 1,
        forall|i: int| 0 <= i < split_bar(u).len() ==> no_bar(#[trigger] split_bar(u)[i]),
    decreases u.len(),
{
    if u.len() > 0 {
        lemma_split_bar_nonempty(u.drop_last());
        let prev = split_bar(u.drop_last());
        let all = split_bar(u);
        if u.last() != '|' {
            assert forall|i: int| 0 <= i < all.len() implies no_bar(#[trigger] all[i]) by {
                if i == prev.len() - 1 {
                    assert(all[i] == prev.last().push(u.last()));
                    assert forall|j: int| 0 <= j < all[i].len() implies #[trigger] all[i][j] != '|' by {
                        if j < prev.last().len() {
                            assert(all[i][j] == prev.last()[j]);
                        }
                    }
                } else {
                    assert(all[i] == prev[i]);
                }
            }
        } else {
            assert forall|i: int| 0 <= i < all.len() implies no_bar(#[trigger] all[i]) by {
                if i < prev.len() {
                    assert(all[i] == prev[i]);
                } else {
                    assert(all[i] =~= Seq::<char>::empty());
                }
            }
        }
    }
}

/// Appending text without `|` extends the last piece.
proof fn lemma_split_bar_extend(u: Seq<char>, v: Seq<char>)
    requires
        no_bar(v),
    ensures
        split_bar(u + v) == split_bar(u).update(split_bar(u).len() - 1, split_bar(u).last() + v),
    decreases v.len(),
{
    lemma_split_bar_nonempty(u);
    if v.len() == 0 {
        assert(u + v =~= u);
        assert(split_bar(u).last() + v =~= split_bar(u).last());
        assert(split_bar(u).update(split_bar(u).len() - 1, split_bar(u).last()) =~= split_bar(u));
    } else {
        assert(no_bar(v.drop_last())) by {
            assert forall|i: int| 0 <= i < v.drop_last().len() implies #[trigger] v.drop_last()[i] != '|' by {
                assert(v.drop_last()[i] == v[i]);
            }
        }
        lemma_split_bar_extend(u, v.drop_last());
        assert((u + v).drop_last() =~= u + v.drop_last());
        assert((u + v).last() == v.last());
        assert(v.last() == v[v.len() - 1]);
        let prev = split_bar(u + v.drop_last());
        assert(split_bar(u + v) == prev.update(prev.len() - 1, prev.last().push(v.last())));
        assert(split_bar(u).last() + v =~= (split_bar(u).last() + v.drop_last()).push(v.last()));
        assert(split_bar(u + v) =~= split_bar(u).update(split_bar(u).len() - 1, split_bar(u).last() + v));
    }
}

/// Splitting the join of `parts` at `|` gives back pieces that trim to the
/// parts.
proof fn lemma_split_join(parts: Seq<Seq<char>>)
    requires
        parts.len() >= 1,
        forall|i: int| 0 <= i < parts.len() ==> no_bar(#[trigger] parts[i]),
    ensures
        split_bar(join_bar(parts)).len() == parts.len(),
        forall|i: int|
            0 <= i < parts.len() ==> crate::text::trim_spec(#[trigger] split_bar(join_bar(parts))[i])
                == crate::text::trim_spec(parts[i]),
    decreases parts.len(),
{
    let sp = seq![' '];
    if parts.len() == 1 {
        lemma_split_bar_extend(Seq::empty(), parts[0]);
        assert(Seq::<char>::empty() + parts[0] =~= parts[0]);
        assert(split_bar(Seq::<char>::empty()) =~= seq![Seq::<char>::empty()]);
        assert(Seq::<char>::empty() + parts[0] =~= parts[0]);
    } else {
        let init = parts.drop_last();
        let x = parts.last();
        assert forall|i: int| 0 <= i < init.len() implies no_bar(#[trigger] init[i]) by {
            assert(init[i] == parts[i]);
        }
        lemma_split_join(init);
        let j = join_bar(init);
        assert(join_bar(parts) == j + " | "@ + x);
        reveal_strlit(" | ");
        let w = j + sp;
        assert(j + " | "@ + x =~= w.push('|') + (sp + x));
        assert(no_bar(sp));
        assert(no_bar(sp + x)) by {
            assert forall|i: int| 0 <= i < (sp + x).len() implies #[trigger] (sp + x)[i] != '|' by {
                if i > 0 {
                    assert((sp + x)[i] == x[i - 1]);
                    assert(no_bar(parts[parts.len() - 1]));
                }
            }
        }
        lemma_split_bar_extend(j, sp);
        let s1 = split_bar(w);
        lemma_split_bar_nonempty(j);
        assert(w.push('|').drop_last() =~= w);
        assert(split_bar(w.push('|')) == s1.push(Seq::empty()));
        lemma_split_bar_extend(w.push('|'), sp + x);
        let s2 = s1.push(Seq::<char>::empty());
        assert(split_bar(join_bar(parts)) == s2.update(s2.len() - 1, s2.last() + (sp + x)));
        let all = split_bar(join_bar(parts));
        assert(all.len() == parts.len());
        assert forall|i: int| 0 <= i < parts.len() implies crate::text::trim_spec(#[trigger] all[i])
            == crate::text::trim_spec(parts[i]) by {
            let sj = split_bar(j);
            if i == parts.len() - 1 {
                assert(all[i] =~= sp + x);
                assert(all_space(sp));
                lemma_trim_padded(sp, x, Seq::empty());
                assert(sp + x + Seq::<char>::empty() =~= sp + x);
            } else if i == sj.len() - 1 {
                assert(all[i] == sj.last() + sp);
                assert(all_space(sp));
                lemma_trim_padded(Seq::empty(), sj.last(), sp);
                assert(Seq::<char>::empty() + sj.last() + sp =~= sj.last() + sp);
                assert(sj.last() == sj[i]);
                assert(init[i] == parts[i]);
            } else {
                assert(all[i] == sj[i]);
                assert(init[i] == parts[i]);
            }
        }
    }
}

proof fn lemma_kept_same_trims(a: Seq<Seq<char>>, b: Seq<Seq<char>>)
    requires
        a.len() == b.len(),
        forall|i: int| 0 <= i < a.len() ==> crate::text::trim_spec(#[trigger] a[i]) == crate::text::trim_spec(b[i]),
    ensures
        kept_flags(a) == kept_flags(b),
    decreases a.len(),
{
    if a.len() > 0 {
        assert forall|i: int| 0 <= i < a.drop_last().len() implies crate::text::trim_spec(#[trigger] a.drop_last()[i])
            == crate::text::trim_spec(b.drop_last()[i]) by {
            assert(a.drop_last()[i] == a[i] && b.drop_last()[i] == b[i]);
        }
        lemma_kept_same_trims(a.drop_last(), b.drop_last());
        assert(crate::text::trim_spec(a.last()) == crate::text::trim_spec(b.last())) by {
            assert(a.last() == a[a.len() - 1] && b.last() == b[b.len() - 1]);
        }
    }
}

proof fn lemma_kept_append(a: Seq<Seq<char>>, b: Seq<Seq<char>>)
    ensures
        kept_flags(a + b) == kept_flags(a) + kept_flags(b),
    decreases b.len(),
{
    if b.len() == 0 {
        assert(a + b =~= a);
        assert(kept_flags(a) + kept_flags(b) =~= kept_flags(a));
    } else {
        lemma_kept_append(a, b.drop_last());
        assert((a + b).drop_last() =~= a + b.drop_last());
        assert((a + b).last() == b.last());
        assert(kept_flags(a + b) =~= kept_flags(a) + kept_flags(b));
    }
}

/// What `kept_flags` keeps it keeps again, and it holds no `|` when the
/// pieces hold none.
proof fn lemma_kept_twice(x: Seq<Seq<char>>)
    ensures
        kept_flags(kept_flags(x)) == kept_flags(x),
        (forall|i: int| 0 <= i < x.len() ==> no_bar(#[trigger] x[i])) ==> (forall|i: int|
            0 <= i < kept_flags(x).len() ==> no_bar(#[trigger] kept_flags(x)[i])),
    decreases x.len(),
{
    if x.len() > 0 {
        lemma_kept_twice(x.drop_last());
        let prev = kept_flags(x.drop_last());
        let t = crate::text::trim_spec(x.last());
        lemma_trim_twice(x.last());
        if static_flag_names().contains(t) {
            assert(kept_flags(x) =~= prev);
        } else {
            assert(kept_flags(x) =~= prev + seq![t]);
            lemma_kept_append(prev, seq![t]);
            assert(seq![t].drop_last() =~= Seq::<Seq<char>>::empty());
            assert(seq![t].last() == t);
            assert(crate::text::trim_spec(t) == t);
            assert(kept_flags(Seq::<Seq<char>>::empty()) =~= Seq::<Seq<char>>::empty());
            assert(kept_flags(seq![t]) =~= seq![t]);
        }
        if forall|i: int| 0 <= i < x.len() ==> no_bar(#[trigger] x[i]) {
            assert forall|i: int| 0 <= i < x.drop_last().len() implies no_bar(#[trigger] x.drop_last()[i]) by {
                assert(x.drop_last()[i] == x[i]);
            }
            assert forall|i: int| 0 <= i < kept_flags(x).len() implies no_bar(#[trigger] kept_flags(x)[i]) by {
                if i >= prev.len() {
                    assert(kept_flags(x)[i] == t);
                    assert(no_bar(x[x.len() - 1]));
                    assert(x.last() == x[x.len() - 1]);
                    assert forall|j: int| 0 <= j < t.len() implies #[trigger] t[j] != '|' by {
                        assert(t.contains(t[j]));
                        assert(x.last().contains(t[j]));
                        let k = choose|k: int| 0 <= k < x.last().len() && x.last()[k] == t[j];
                        assert(x.last()[k] != '|');
                    }
                } else {
                    assert(kept_flags(x)[i] == prev[i]);
                }
            }
        }
    }
}

/// The flags that the fix adds hold no `|`, are their own trims, and are
/// static-string flags, so that `kept_flags` drops them.
proof fn lemma_needed_flags(nick: bool, blurb: bool)
    ensures
        needed_flag_list(nick, blurb).len() >= 1,
        forall|i: int| 0 <= i < needed_flag_list(nick, blurb).len() ==> no_bar(#[trigger] needed_flag_list(nick, blurb)[i]),
        kept_flags(needed_flag_list(nick, blurb)).len() == 0,
        needed_flag_list(nick, blurb).last().len() >= 2,
{
    reveal_strlit("G_PARAM_STATIC_NAME");
    reveal_strlit("G_PARAM_STATIC_NICK");
    reveal_strlit("G_PARAM_STATIC_BLURB");
    reveal_strlit("G_PARAM_STATIC_STRINGS");
    let names = static_flag_names();
    assert forall|k: int| 0 <= k < 4 implies no_bar(#[trigger] names[k]) && crate::text::trim_spec(names[k]) == names[k] && names.contains(names[k]) by {
        lemma_trim_of_trimmed(names[k]);
    }
    let n = needed_flag_list(nick, blurb);
    assert(forall|i: int| 0 <= i < n.len() ==> names.contains(#[trigger] n[i]));
    assert forall|i: int| 0 <= i < n.len() implies no_bar(#[trigger] n[i]) && crate::text::trim_spec(n[i]) == n[i] by {
        let k = choose|k: int| 0 <= k < names.len() && names[k] == n[i];
    }
    assert(kept_flags(Seq::<Seq<char>>::empty()) =~= Seq::<Seq<char>>::empty());
    if n.len() == 2 {
        assert(n.drop_last().drop_last() =~= Seq::<Seq<char>>::empty());
        assert(n.drop_last().last() == n[0]);
        assert(n.last() == n[1]);
        assert(names.contains(n[0]) && names.contains(n[1]));
        assert(kept_flags(n.drop_last()) =~= Seq::<Seq<char>>::empty());
        assert(kept_flags(n) =~= Seq::<Seq<char>>::empty());
    } else {
        assert(n.drop_last() =~= Seq::<Seq<char>>::empty());
        assert(n.last() == n[0]);
        assert(names.contains(n[0]));
        assert(kept_flags(n) =~= Seq::<Seq<char>>::empty());
    }
}

/// Fixing the flags of a `GParamSpec` call a second time changes nothing:
/// the flags that the fix writes are fixed already.
pub proof fn law_fixed_flags_idempotent(flags: Seq<char>, nick_is_literal: bool, blurb_is_literal: bool)
    ensures
        fixed_flags(fixed_flags(flags, nick_is_literal, blurb_is_literal), nick_is_literal, blurb_is_literal)
            == fixed_flags(flags, nick_is_literal, blurb_is_literal),
{
    let needed = needed_flag_list(nick_is_literal, blurb_is_literal);
    lemma_needed_flags(nick_is_literal, blurb_is_literal);
    let kept = if flags.len() == 0 || flags == "0"@ {
        Seq::empty()
    } else {
        kept_flags(split_bar(flags))
    };
    if flags.len() == 0 || flags == "0"@ {
        assert(kept_flags(kept) =~= kept);
        assert(forall|i: int| 0 <= i < kept.len() ==> no_bar(#[trigger] kept[i]));
    } else {
        lemma_split_bar_nonempty(flags);
        lemma_kept_twice(split_bar(flags));
    }
    let parts = kept + needed;
    let fixed = fixed_flags(flags, nick_is_literal, blurb_is_literal);
    assert(fixed == join_bar(parts));
    assert forall|i: int| 0 <= i < parts.len() implies no_bar(#[trigger] parts[i]) by {
        if i < kept.len() {
            assert(parts[i] == kept[i]);
        } else {
            assert(parts[i] == needed[i - kept.len()]);
        }
    }
    lemma_join_bar_ends(parts);
    assert(parts.last() == needed.last());
    assert(fixed.len() >= 2);
    reveal_strlit("0");
    assert(fixed != "0"@);
    lemma_split_join(parts);
    lemma_kept_same_trims(split_bar(fixed), parts);
    lemma_kept_append(kept, needed);
    assert(kept_flags(split_bar(fixed)) =~= kept);
}

// ---------------------------------------------------------------------------
// What the fixes of the rules replace a call by
// ---------------------------------------------------------------------------

/// The `g_new` rule's suggestion for a `g_malloc0` call allocates zeroed
/// memory, `g_new0`, and for a `g_malloc` call it does not, `g_new`; the
/// suggestion allocates one element, replaces exactly the call, and is what
/// the message proposes.
pub proof fn law_g_new_keeps_zeroing(
    space: bool,
    path: Seq<char>,
    func: crate::model::function::FunctionInfo,
    c: CallExpression,
)
    requires
        crate::rules::use_g_new::g_new_report(space, path, func, c) is Some,
        c.function@ == "g_malloc0"@ || c.function@ == "g_malloc"@,
    ensures
        ({
            let v = crate::rules::use_g_new::g_new_report(space, path, func, c)->0;
            let repl = v.fixes[0].replacement;
            &&& v.fixes.len() == 1
            &&& v.fixes[0].start_byte == c.location.start_byte
            &&& v.fixes[0].end_byte == c.location.end_byte
            &&& c.function@ == "g_malloc0"@ ==> crate::text::has_prefix(repl, "g_new0"@)
            &&& c.function@ == "g_malloc"@ ==> crate::text::has_prefix(repl, "g_new"@)
                && !crate::text::has_prefix(repl, "g_new0"@)
            &&& crate::text::has_suffix(repl, ", 1)"@)
            &&& crate::text::has_prefix(v.message, "Use "@ + repl + " instead of "@ + c.function@)
        }),
{
    reveal_strlit("g_malloc0");
    reveal_strlit("g_malloc");
    reveal_strlit("g_new0");
    reveal_strlit("g_new");
    reveal_strlit(", 1)");
    reveal_strlit(", ");
    reveal_strlit("1");
    reveal_strlit(")");
    reveal_strlit("Use ");
    reveal_strlit(" instead of ");
    reveal_strlit(" (");
    reveal_strlit("(");
    let t = crate::rules::use_g_new::allocated_type(func, c)->0;
    let suggested = if c.function@ == "g_malloc0"@ {
        "g_new0"@
    } else {
        "g_new"@
    };
    let args = seq![t, "1"@];
    assert(args.drop_last() =~= seq![t]);
    assert(seq![t][0] == t);
    assert(crate::rules::join_args(seq![t]) == t);
    assert(args.last() == "1"@);
    assert(crate::rules::join_args(args) == crate::rules::join_args(args.drop_last()) + ", "@ + args.last());
    assert(crate::rules::join_args(args) == t + ", "@ + "1"@);
    let open = if space {
        " ("@
    } else {
        "("@
    };
    let repl = crate::rules::call_text(space, suggested, args);
    assert(repl == suggested + open + (t + ", "@ + "1"@) + ")"@);
    let v = crate::rules::use_g_new::g_new_report(space, path, func, c)->0;
    assert(v.fixes[0].replacement == repl);
    assert(repl.subrange(0, suggested.len() as int) =~= suggested);
    if c.function@ == "g_malloc"@ {
        assert(c.function@ != "g_malloc0"@) by {
            assert("g_malloc"@.len() != "g_malloc0"@.len());
        }
        assert(repl[5] == open[0]);
        assert(!crate::text::has_prefix(repl, "g_new0"@)) by {
            if crate::text::has_prefix(repl, "g_new0"@) {
                assert(repl.subrange(0, 6)[5] == repl[5]);
                assert("g_new0"@[5] == '0');
            }
        }
    }
    assert(repl.subrange(repl.len() - 4, repl.len() as int) =~= ", 1)"@);
    let m = "Use "@ + repl + " instead of "@ + c.function@;
    assert(v.message.subrange(0, m.len() as int) =~= m);
}

/// Each ctype function has as replacement the `g_ascii_` function of the
/// same name: the locale-independent version of the same test or
/// conversion.
pub proof fn law_ascii_replacement_same_function(name: Seq<char>)
    ensures
        crate::rules::use_g_ascii_functions::lookup(crate::rules::use_g_ascii_functions::ascii_table(), name) matches Some(r)
            ==> r == "g_ascii_"@ + name,
{
    let t = crate::rules::use_g_ascii_functions::ascii_table();
    reveal_strlit("g_ascii_");
    reveal_strlit("tolower");
    reveal_strlit("g_ascii_tolower");
    reveal_strlit("toupper");
    reveal_strlit("g_ascii_toupper");
    reveal_strlit("isdigit");
    reveal_strlit("g_ascii_isdigit");
    reveal_strlit("isalpha");
    reveal_strlit("g_ascii_isalpha");
    reveal_strlit("isalnum");
    reveal_strlit("g_ascii_isalnum");
    reveal_strlit("isspace");
    reveal_strlit("g_ascii_isspace");
    reveal_strlit("isupper");
    reveal_strlit("g_ascii_isupper");
    reveal_strlit("islower");
    reveal_strlit("g_ascii_islower");
    reveal_strlit("isxdigit");
    reveal_strlit("g_ascii_isxdigit");
    reveal_strlit("ispunct");
    reveal_strlit("g_ascii_ispunct");
    reveal_strlit("isprint");
    reveal_strlit("g_ascii_isprint");
    reveal_strlit("isgraph");
    reveal_strlit("g_ascii_isgraph");
    reveal_strlit("iscntrl");
    reveal_strlit("g_ascii_iscntrl");
    assert forall|i: int| 0 <= i < t.len() implies #[trigger] t[i].1 =~= "g_ascii_"@ + t[i].0 by {}
    lemma_lookup_entry(t, name);
}

proof fn lemma_lookup_entry(t: Seq<(Seq<char>, Seq<char>)>, key: Seq<char>)
    ensures
        crate::rules::use_g_ascii_functions::lookup(t, key) matches Some(r) ==> exists|i: int|
            0 <= i < t.len() && #[trigger] t[i] == (key, r),
    decreases t.len(),
{
    if t.len() > 0 && t[0].0 != key {
        lemma_lookup_entry(t.drop_first(), key);
        if crate::rules::use_g_ascii_functions::lookup(t, key) is Some {
            let r = crate::rules::use_g_ascii_functions::lookup(t, key)->0;
            let i = choose|i: int| 0 <= i < t.drop_first().len() && #[trigger] t.drop_first()[i] == (key, r);
            assert(t[i + 1] == (key, r));
        }
    } else if t.len() > 0 {
        assert(t[0] == (key, t[0].1));
    }
}

/// The GVariant integer type that a one-character format names: whether it
/// is unsigned, and its width in bits (`n`/`q` 16, `i`/`u` 32, `x`/`t` 64;
/// `q`, `u`, `t` unsigned).
pub open spec fn gvariant_integer_format(f: Seq<char>) -> Option<(bool, Seq<char>)> {
    if f == "n"@ {
        Some((false, "16"@))
    } else if f == "q"@ {
        Some((true, "16"@))
    } else if f == "i"@ {
        Some((false, "32"@))
    } else if f == "u"@ {
        Some((true, "32"@))
    } else if f == "x"@ {
        Some((false, "64"@))
    } else if f == "t"@ {
        Some((true, "64"@))
    } else {
        None
    }
}

proof fn lemma_lookup_typed_entry(t: Seq<(Seq<char>, Seq<char>)>, key: Seq<char>)
    ensures
        crate::rules::use_g_variant_new_typed::lookup_typed(t, key) matches Some(r) ==> exists|i: int|
            0 <= i < t.len() && #[trigger] t[i] == (key, r),
    decreases t.len(),
{
    if t.len() > 0 && t[0].0 != key {
        lemma_lookup_typed_entry(t.drop_first(), key);
        if crate::rules::use_g_variant_new_typed::lookup_typed(t, key) is Some {
            let r = crate::rules::use_g_variant_new_typed::lookup_typed(t, key)->0;
            let i = choose|i: int| 0 <= i < t.drop_first().len() && #[trigger] t.drop_first()[i] == (key, r);
            assert(t[i + 1] == (key, r));
        }
    } else if t.len() > 0 {
        assert(t[0] == (key, t[0].1));
    }
}

/// The entries of the typed-constructor table: 14 of them, no two with the
/// same constructor.
proof fn lemma_variant_table_facts()
    ensures
        ({
            let t = crate::rules::use_g_variant_new_typed::variant_table();
            &&& t.len() == 14
            &&& forall|i: int, j: int| 0 <= i < j < t.len() ==> #[trigger] t[i].1 != #[trigger] t[j].1
            &&& forall|i: int| 0 <= i < t.len() ==> crate::text::has_prefix(#[trigger] t[i].1, "g_variant_new_"@)
            &&& forall|i: int, j: int| 0 <= i < j < t.len() ==> #[trigger] t[i].0 != #[trigger] t[j].0
        }),
{
    let t = crate::rules::use_g_variant_new_typed::variant_table();
    reveal_strlit("g_variant_new_");
    reveal_strlit("s");
    reveal_strlit("g_variant_new_string");
    reveal_strlit("b");
    reveal_strlit("g_variant_new_boolean");
    reveal_strlit("y");
    reveal_strlit("g_variant_new_byte");
    reveal_strlit("n");
    reveal_strlit("g_variant_new_int16");
    reveal_strlit("q");
    reveal_strlit("g_variant_new_uint16");
    reveal_strlit("i");
    reveal_strlit("g_variant_new_int32");
    reveal_strlit("u");
    reveal_strlit("g_variant_new_uint32");
    reveal_strlit("x");
    reveal_strlit("g_variant_new_int64");
    reveal_strlit("t");
    reveal_strlit("g_variant_new_uint64");
    reveal_strlit("h");
    reveal_strlit("g_variant_new_handle");
    reveal_strlit("d");
    reveal_strlit("g_variant_new_double");
    reveal_strlit("o");
    reveal_strlit("g_variant_new_object_path");
    reveal_strlit("g");
    reveal_strlit("g_variant_new_signature");
    reveal_strlit("v");
    reveal_strlit("g_variant_new_variant");
    assert(t[0].1.len() != t[1].1.len());
    assert(t[0].1.len() != t[2].1.len());
    assert(t[0].1.len() != t[3].1.len());
    assert(t[0].1[14] != t[4].1[14]);
    assert(t[0].1.len() != t[5].1.len());
    assert(t[0].1[14] != t[6].1[14]);
    assert(t[0].1.len() != t[7].1.len());
    assert(t[0].1[14] != t[8].1[14]);
    assert(t[0].1[14] != t[9].1[14]);
    assert(t[0].1[14] != t[10].1[14]);
    assert(t[0].1.len() != t[11].1.len());
    assert(t[0].1.len() != t[12].1.len());
    assert(t[0].1.len() != t[13].1.len());
    assert(t[1].1.len() != t[2].1.len());
    assert(t[1].1.len() != t[3].1.len());
    assert(t[1].1.len() != t[4].1.len());
    assert(t[1].1.len() != t[5].1.len());
    assert(t[1].1.len() != t[6].1.len());
    assert(t[1].1.len() != t[7].1.len());
    assert(t[1].1.len() != t[8].1.len());
    assert(t[1].1.len() != t[9].1.len());
    assert(t[1].1.len() != t[10].1.len());
    assert(t[1].1.len() != t[11].1.len());
    assert(t[1].1.len() != t[12].1.len());
    assert(t[1].1[14] != t[13].1[14]);
    assert(t[2].1.len() != t[3].1.len());
    assert(t[2].1.len() != t[4].1.len());
    assert(t[2].1.len() != t[5].1.len());
    assert(t[2].1.len() != t[6].1.len());
    assert(t[2].1.len() != t[7].1.len());
    assert(t[2].1.len() != t[8].1.len());
    assert(t[2].1.len() != t[9].1.len());
    assert(t[2].1.len() != t[10].1.len());
    assert(t[2].1.len() != t[11].1.len());
    assert(t[2].1.len() != t[12].1.len());
    assert(t[2].1.len() != t[13].1.len());
    assert(t[3].1.len() != t[4].1.len());
    assert(t[3].1[17] != t[5].1[17]);
    assert(t[3].1.len() != t[6].1.len());
    assert(t[3].1[17] != t[7].1[17]);
    assert(t[3].1.len() != t[8].1.len());
    assert(t[3].1.len() != t[9].1.len());
    assert(t[3].1.len() != t[10].1.len());
    assert(t[3].1.len() != t[11].1.len());
    assert(t[3].1.len() != t[12].1.len());
    assert(t[3].1.len() != t[13].1.len());
    assert(t[4].1.len() != t[5].1.len());
    assert(t[4].1[18] != t[6].1[18]);
    assert(t[4].1.len() != t[7].1.len());
    assert(t[4].1[18] != t[8].1[18]);
    assert(t[4].1[14] != t[9].1[14]);
    assert(t[4].1[14] != t[10].1[14]);
    assert(t[4].1.len() != t[11].1.len());
    assert(t[4].1.len() != t[12].1.len());
    assert(t[4].1.len() != t[13].1.len());
    assert(t[5].1.len() != t[6].1.len());
    assert(t[5].1[17] != t[7].1[17]);
    assert(t[5].1.len() != t[8].1.len());
    assert(t[5].1.len() != t[9].1.len());
    assert(t[5].1.len() != t[10].1.len());
    assert(t[5].1.len() != t[11].1.len());
    assert(t[5].1.len() != t[12].1.len());
    assert(t[5].1.len() != t[13].1.len());
    assert(t[6].1.len() != t[7].1.len());
    assert(t[6].1[18] != t[8].1[18]);
    assert(t[6].1[14] != t[9].1[14]);
    assert(t[6].1[14] != t[10].1[14]);
    assert(t[6].1.len() != t[11].1.len());
    assert(t[6].1.len() != t[12].1.len());
    assert(t[6].1.len() != t[13].1.len());
    assert(t[7].1.len() != t[8].1.len());
    assert(t[7].1.len() != t[9].1.len());
    assert(t[7].1.len() != t[10].1.len());
    assert(t[7].1.len() != t[11].1.len());
    assert(t[7].1.len() != t[12].1.len());
    assert(t[7].1.len() != t[13].1.len());
    assert(t[8].1[14] != t[9].1[14]);
    assert(t[8].1[14] != t[10].1[14]);
    assert(t[8].1.len() != t[11].1.len());
    assert(t[8].1.len() != t[12].1.len());
    assert(t[8].1.len() != t[13].1.len());
    assert(t[9].1[14] != t[10].1[14]);
    assert(t[9].1.len() != t[11].1.len());
    assert(t[9].1.len() != t[12].1.len());
    assert(t[9].1.len() != t[13].1.len());
    assert(t[10].1.len() != t[11].1.len());
    assert(t[10].1.len() != t[12].1.len());
    assert(t[10].1.len() != t[13].1.len());
    assert(t[11].1.len() != t[12].1.len());
    assert(t[11].1.len() != t[13].1.len());
    assert(t[12].1.len() != t[13].1.len());
    assert forall|i: int| 0 <= i < t.len() implies crate::text::has_prefix(#[trigger] t[i].1, "g_variant_new_"@) by {
        assert(t[i].1.subrange(0, 14) =~= "g_variant_new_"@);
    }
    assert(t[0].0[0] != t[1].0[0]);
    assert(t[0].0[0] != t[2].0[0]);
    assert(t[0].0[0] != t[3].0[0]);
    assert(t[0].0[0] != t[4].0[0]);
    assert(t[0].0[0] != t[5].0[0]);
    assert(t[0].0[0] != t[6].0[0]);
    assert(t[0].0[0] != t[7].0[0]);
    assert(t[0].0[0] != t[8].0[0]);
    assert(t[0].0[0] != t[9].0[0]);
    assert(t[0].0[0] != t[10].0[0]);
    assert(t[0].0[0] != t[11].0[0]);
    assert(t[0].0[0] != t[12].0[0]);
    assert(t[0].0[0] != t[13].0[0]);
    assert(t[1].0[0] != t[2].0[0]);
    assert(t[1].0[0] != t[3].0[0]);
    assert(t[1].0[0] != t[4].0[0]);
    assert(t[1].0[0] != t[5].0[0]);
    assert(t[1].0[0] != t[6].0[0]);
    assert(t[1].0[0] != t[7].0[0]);
    assert(t[1].0[0] != t[8].0[0]);
    assert(t[1].0[0] != t[9].0[0]);
    assert(t[1].0[0] != t[10].0[0]);
    assert(t[1].0[0] != t[11].0[0]);
    assert(t[1].0[0] != t[12].0[0]);
    assert(t[1].0[0] != t[13].0[0]);
    assert(t[2].0[0] != t[3].0[0]);
    assert(t[2].0[0] != t[4].0[0]);
    assert(t[2].0[0] != t[5].0[0]);
    assert(t[2].0[0] != t[6].0[0]);
    assert(t[2].0[0] != t[7].0[0]);
    assert(t[2].0[0] != t[8].0[0]);
    assert(t[2].0[0] != t[9].0[0]);
    assert(t[2].0[0] != t[10].0[0]);
    assert(t[2].0[0] != t[11].0[0]);
    assert(t[2].0[0] != t[12].0[0]);
    assert(t[2].0[0] != t[13].0[0]);
    assert(t[3].0[0] != t[4].0[0]);
    assert(t[3].0[0] != t[5].0[0]);
    assert(t[3].0[0] != t[6].0[0]);
    assert(t[3].0[0] != t[7].0[0]);
    assert(t[3].0[0] != t[8].0[0]);
    assert(t[3].0[0] != t[9].0[0]);
    assert(t[3].0[0] != t[10].0[0]);
    assert(t[3].0[0] != t[11].0[0]);
    assert(t[3].0[0] != t[12].0[0]);
    assert(t[3].0[0] != t[13].0[0]);
    assert(t[4].0[0] != t[5].0[0]);
    assert(t[4].0[0] != t[6].0[0]);
    assert(t[4].0[0] != t[7].0[0]);
    assert(t[4].0[0] != t[8].0[0]);
    assert(t[4].0[0] != t[9].0[0]);
    assert(t[4].0[0] != t[10].0[0]);
    assert(t[4].0[0] != t[11].0[0]);
    assert(t[4].0[0] != t[12].0[0]);
    assert(t[4].0[0] != t[13].0[0]);
    assert(t[5].0[0] != t[6].0[0]);
    assert(t[5].0[0] != t[7].0[0]);
    assert(t[5].0[0] != t[8].0[0]);
    assert(t[5].0[0] != t[9].0[0]);
    assert(t[5].0[0] != t[10].0[0]);
    assert(t[5].0[0] != t[11].0[0]);
    assert(t[5].0[0] != t[12].0[0]);
    assert(t[5].0[0] != t[13].0[0]);
    assert(t[6].0[0] != t[7].0[0]);
    assert(t[6].0[0] != t[8].0[0]);
    assert(t[6].0[0] != t[9].0[0]);
    assert(t[6].0[0] != t[10].0[0]);
    assert(t[6].0[0] != t[11].0[0]);
    assert(t[6].0[0] != t[12].0[0]);
    assert(t[6].0[0] != t[13].0[0]);
    assert(t[7].0[0] != t[8].0[0]);
    assert(t[7].0[0] != t[9].0[0]);
    assert(t[7].0[0] != t[10].0[0]);
    assert(t[7].0[0] != t[11].0[0]);
    assert(t[7].0[0] != t[12].0[0]);
    assert(t[7].0[0] != t[13].0[0]);
    assert(t[8].0[0] != t[9].0[0]);
    assert(t[8].0[0] != t[10].0[0]);
    assert(t[8].0[0] != t[11].0[0]);
    assert(t[8].0[0] != t[12].0[0]);
    assert(t[8].0[0] != t[13].0[0]);
    assert(t[9].0[0] != t[10].0[0]);
    assert(t[9].0[0] != t[11].0[0]);
    assert(t[9].0[0] != t[12].0[0]);
    assert(t[9].0[0] != t[13].0[0]);
    assert(t[10].0[0] != t[11].0[0]);
    assert(t[10].0[0] != t[12].0[0]);
    assert(t[10].0[0] != t[13].0[0]);
    assert(t[11].0[0] != t[12].0[0]);
    assert(t[11].0[0] != t[13].0[0]);
    assert(t[12].0[0] != t[13].0[0]);
}

/// The typed constructor that the `GVariant` rule suggests builds a value of
/// the type that the format names: a `g_variant_new_*` constructor; for an
/// integer format, the one of its signedness and width; and no two formats
/// share a constructor.
pub proof fn law_variant_constructor_keeps_type(f: Seq<char>, f2: Seq<char>)
    ensures
        crate::rules::use_g_variant_new_typed::lookup_typed(crate::rules::use_g_variant_new_typed::variant_table(), f) matches Some(c)
            ==> {
            &&& crate::text::has_prefix(c, "g_variant_new_"@)
            &&& gvariant_integer_format(f) matches Some((unsigned, bits)) ==> c == "g_variant_new_"@ + (if unsigned {
                "uint"@
            } else {
                "int"@
            }) + bits
            &&& crate::rules::use_g_variant_new_typed::lookup_typed(crate::rules::use_g_variant_new_typed::variant_table(), f2)
                == Some(c) ==> f2 == f
        },
{
    let t = crate::rules::use_g_variant_new_typed::variant_table();
    lemma_variant_table_facts();
    lemma_lookup_typed_entry(t, f);
    lemma_lookup_typed_entry(t, f2);
    reveal_strlit("g_variant_new_");
    reveal_strlit("uint");
    reveal_strlit("int");
    reveal_strlit("16");
    reveal_strlit("32");
    reveal_strlit("64");
    reveal_strlit("s");
    reveal_strlit("g_variant_new_string");
    reveal_strlit("b");
    reveal_strlit("g_variant_new_boolean");
    reveal_strlit("y");
    reveal_strlit("g_variant_new_byte");
    reveal_strlit("n");
    reveal_strlit("g_variant_new_int16");
    reveal_strlit("q");
    reveal_strlit("g_variant_new_uint16");
    reveal_strlit("i");
    reveal_strlit("g_variant_new_int32");
    reveal_strlit("u");
    reveal_strlit("g_variant_new_uint32");
    reveal_strlit("x");
    reveal_strlit("g_variant_new_int64");
    reveal_strlit("t");
    reveal_strlit("g_variant_new_uint64");
    reveal_strlit("h");
    reveal_strlit("g_variant_new_handle");
    reveal_strlit("d");
    reveal_strlit("g_variant_new_double");
    reveal_strlit("o");
    reveal_strlit("g_variant_new_object_path");
    reveal_strlit("g");
    reveal_strlit("g_variant_new_signature");
    reveal_strlit("v");
    reveal_strlit("g_variant_new_variant");
    if crate::rules::use_g_variant_new_typed::lookup_typed(t, f) is Some {
        let c = crate::rules::use_g_variant_new_typed::lookup_typed(t, f)->0;
        let i = choose|i: int| 0 <= i < t.len() && #[trigger] t[i] == (f, c);
        assert(crate::text::has_prefix(t[i].1, "g_variant_new_"@));
        if crate::rules::use_g_variant_new_typed::lookup_typed(t, f2) == Some(c) {
            let j = choose|j: int| 0 <= j < t.len() && #[trigger] t[j] == (f2, c);
            if i < j {
                assert(t[i].1 != t[j].1);
            } else if j < i {
                assert(t[j].1 != t[i].1);
            }
        }
        if gvariant_integer_format(f) is Some {
            reveal_strlit("n");
            reveal_strlit("q");
            reveal_strlit("i");
            reveal_strlit("u");
            reveal_strlit("x");
            reveal_strlit("t");
            if f == "n"@ {
                assert(t[3].0 == f);
                if i < 3 {
                    assert(t[i].0 != t[3].0);
                } else if i > 3 {
                    assert(t[3].0 != t[i].0);
                }
            }
            if f == "q"@ {
                assert(t[4].0 == f);
                if i < 4 {
                    assert(t[i].0 != t[4].0);
                } else if i > 4 {
                    assert(t[4].0 != t[i].0);
                }
            }
            if f == "i"@ {
                assert(t[5].0 == f);
                if i < 5 {
                    assert(t[i].0 != t[5].0);
                } else if i > 5 {
                    assert(t[5].0 != t[i].0);
                }
            }
            if f == "u"@ {
                assert(t[6].0 == f);
                if i < 6 {
                    assert(t[i].0 != t[6].0);
                } else if i > 6 {
                    assert(t[6].0 != t[i].0);
                }
            }
            if f == "x"@ {
                assert(t[7].0 == f);
                if i < 7 {
                    assert(t[i].0 != t[7].0);
                } else if i > 7 {
                    assert(t[7].0 != t[i].0);
                }
            }
            if f == "t"@ {
                assert(t[8].0 == f);
                if i < 8 {
                    assert(t[i].0 != t[8].0);
                } else if i > 8 {
                    assert(t[8].0 != t[i].0);
                }
            }
            assert(t[3].1 =~= "g_variant_new_"@ + "int"@ + "16"@);
            assert(t[4].1 =~= "g_variant_new_"@ + "uint"@ + "16"@);
            assert(t[5].1 =~= "g_variant_new_"@ + "int"@ + "32"@);
            assert(t[6].1 =~= "g_variant_new_"@ + "uint"@ + "32"@);
            assert(t[7].1 =~= "g_variant_new_"@ + "int"@ + "64"@);
            assert(t[8].1 =~= "g_variant_new_"@ + "uint"@ + "64"@);
        }
    }
}

/// The report `v` stands at the declaration `d`, of the `g_autolist` rule,
/// and `func` frees the variable of `d` by hand with its list's free
/// function and does not return it.
pub open spec fn autolist_report_at(
    v: crate::rules::ViolationView,
    func: crate::model::function::FunctionInfo,
    d: crate::model::statement::VariableDecl,
) -> bool {
    &&& v.line == d.location.line && v.column == d.location.column
    &&& v.rule == "use_g_autolist"@
    &&& !crate::model::function::returns_var(crate::model::function::body_stmts(func), d.name@)
    &&& crate::model::function::passes_var(
        crate::model::function::calls_of(crate::model::function::body_exprs(func)),
        d.name@,
        crate::rules::use_g_autolist::free_function(d),
        0,
    )
}

/// Every report of the `g_autolist` rule stands at a list variable that the
/// function frees by hand with the list's free function and does not
/// return: a variable that the function returns is never reported, since
/// automatic cleanup would free the caller's result. Stated of the `k`-th
/// report over the list variables `entries` of `func`.
pub proof fn law_autolist_skips_returned(
    path: Seq<char>,
    func: crate::model::function::FunctionInfo,
    entries: Seq<crate::model::statement::VariableDecl>,
    k: int,
)
    requires
        0 <= k < crate::rules::use_g_autolist::autolist_reports_of(path, func, entries).len(),
    ensures
        exists|i: int|
            0 <= i < entries.len() && #[trigger] autolist_report_at(
                crate::rules::use_g_autolist::autolist_reports_of(path, func, entries)[k],
                func,
                entries[i],
            ),
    decreases entries.len(),
{
    let all = crate::rules::use_g_autolist::autolist_reports_of(path, func, entries);
    let init = entries.drop_last();
    let prev = crate::rules::use_g_autolist::autolist_reports_of(path, func, init);
    if k < prev.len() {
        law_autolist_skips_returned(path, func, init, k);
        assert(all[k] == prev[k]);
        let i = choose|i: int| 0 <= i < init.len() && #[trigger] autolist_report_at(prev[k], func, init[i]);
        assert(entries[i] == init[i]);
        assert(autolist_report_at(all[k], func, entries[i]));
    } else {
        let j = entries.len() - 1;
        assert(entries[j] == entries.last());
        assert(autolist_report_at(all[k], func, entries[j]));
    }
}

/// Moving back over empty lines from the start of a line stops at the
/// start of a line, no later than where it began.
proof fn lemma_back_over_blank_lines_line_start(source: Seq<u8>, p: int)
    requires
        0 <= p <= source.len(),
        p == 0 || source[p - 1] == 10u8,
    ensures
        0 <= crate::rules::use_pragma_once::back_over_blank_lines(source, p) <= p,
        crate::rules::use_pragma_once::back_over_blank_lines(source, p) == 0 || source[crate::rules::use_pragma_once::back_over_blank_lines(
            source,
            p,
        ) - 1] == 10u8,
    decreases p,
{
    if p >= 2 && source[p - 1] == 10u8 && source[p - 2] == 10u8 {
        lemma_back_over_blank_lines_line_start(source, p - 1);
    }
}

/// The violation for a header with an include guard carries two fixes whose
/// application leaves no part of the guard behind: one puts `#pragma once`
/// in place of the lines from the `#ifndef` on, and the other deletes whole
/// lines, from the start of a line to the end of one, that hold the end of
/// the conditional, its closing `#endif`.
pub proof fn law_pragma_once_fixes_remove_guard(file: FileModel)
    requires
        crate::rules::use_pragma_once::guard_within(file),
        pragma_once_report(file) is Some,
    ensures
        ({
            let v = pragma_once_report(file)->Some_0;
            let src = file.source@;
            let (cond, define, guard) = crate::rules::use_pragma_once::include_guard(
                file.top_level_items@,
            )->Some_0;
            &&& crate::rules::use_pragma_once::include_guard(file.top_level_items@) is Some
            &&& v.rule == "use_pragma_once"@
            &&& v.fixes.len() == 2
            &&& v.fixes[0].replacement == "#pragma once\n"@
            &&& v.fixes[0].start_byte <= cond.start_byte
            &&& (v.fixes[0].start_byte == 0 || src[v.fixes[0].start_byte - 1] == 10u8)
            &&& v.fixes[1].replacement.len() == 0
            &&& v.fixes[1].start_byte <= cond.end_byte <= v.fixes[1].end_byte <= src.len()
            &&& (v.fixes[1].start_byte == 0 || src[v.fixes[1].start_byte - 1] == 10u8)
            &&& (v.fixes[1].end_byte == src.len() || src[v.fixes[1].end_byte - 1] == 10u8)
        }),
{
    let src = file.source@;
    let (cond, define, guard) = crate::rules::use_pragma_once::include_guard(file.top_level_items@)->Some_0;
    lemma_line_start_facts(src, cond.start_byte as int);
    let e = cond.end_byte as int;
    lemma_line_start_facts(src, e);
    lemma_back_over_blank_lines_line_start(src, line_start_spec(src, e));
    lemma_line_end_facts(src, e);
}

} // verus!
