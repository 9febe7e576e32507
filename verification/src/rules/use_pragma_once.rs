//! Suggests `#pragma once` in place of a traditional include guard.

use vstd::prelude::*;

use crate::context::{header_files, AstContext};
use crate::model::location::{line_bounds_spec, line_end, line_end_spec, line_start, line_start_spec, SourceLocation};
use crate::model::project::{ConditionalKind, FileModel, PragmaKind, PreprocessorDirective, TopLevelItem};
use crate::rules::{
    fix_at, fix_views, lemma_somes_take, opt_view, report, somes, violation_views, Category, Config,
    Fix, Violation, ViolationView,
};
use crate::text::{concat3, str_eq};

verus! {

pub struct UsePragmaOnce;

/// Some top-level item is `#pragma once`.
pub open spec fn has_pragma_once(items: Seq<TopLevelItem>) -> bool {
    exists|i: int|
        0 <= i < items.len() && (#[trigger] items[i] matches TopLevelItem::Preprocessor(
            PreprocessorDirective::Pragma { kind: PragmaKind::Once, .. },
        ))
}

/// The location of the `#define` of `guard` that opens `body`: the first
/// item, a `#define` of that name without value, followed by some content.
pub open spec fn matching_define(body: Seq<TopLevelItem>, guard: Seq<char>) -> Option<SourceLocation> {
    if body.len() < 2 {
        None
    } else {
        match body[0] {
            TopLevelItem::Preprocessor(PreprocessorDirective::Define { name, value, location }) => if name@
                == guard && value is None {
                Some(location)
            } else {
                None
            },
            _ => None,
        }
    }
}

/// A traditional include guard: the first item is `#ifndef GUARD` whose body
/// starts with `#define GUARD` and goes on; the locations of both and the
/// guard's name.
pub open spec fn include_guard(items: Seq<TopLevelItem>) -> Option<(SourceLocation, SourceLocation, Seq<char>)> {
    if items.len() == 0 {
        None
    } else {
        match items[0] {
            TopLevelItem::Preprocessor(
                PreprocessorDirective::Conditional {
                    kind: ConditionalKind::Ifndef,
                    condition: Some(name),
                    body,
                    location,
                },
            ) => match matching_define(body@, name@) {
                Some(d) => Some((location, d, name@)),
                None => None,
            },
            _ => None,
        }
    }
}

/// Moves `p` back over the empty lines that precede it.
pub open spec fn back_over_blank_lines(source: Seq<u8>, p: int) -> int
    decreases p,
{
    if p >= 2 && source[p - 1] == 10u8 && source[p - 2] == 10u8 {
        back_over_blank_lines(source, p - 1)
    } else {
        p
    }
}

/// The bytes of the `#endif` line that ends at `end` (just after the
/// word): from the start of its line, the empty lines before it included, to
/// the end of its line (a trailing comment too), its newline included.
pub open spec fn endif_bounds(source: Seq<u8>, end: int) -> (int, int) {
    let start = back_over_blank_lines(source, line_start_spec(source, end));
    let stop = line_end_spec(source, end);
    (start, if stop < source.len() {
        stop + 1
    } else {
        stop
    })
}

/// The violation for a header file, if it uses an include guard and no
/// `#pragma once`.
pub open spec fn pragma_once_report(file: FileModel) -> Option<ViolationView> {
    if has_pragma_once(file.top_level_items@) {
        None
    } else {
        match include_guard(file.top_level_items@) {
            Some((cond, define, guard)) => {
                let src = file.source@;
                let (endif_start, endif_end) = endif_bounds(src, cond.end_byte as int);
                Some(
                    report(
                        file.path@,
                        cond.line as nat,
                        cond.column as nat,
                        "use_pragma_once"@,
                        "Use #pragma once instead of include guard '"@ + guard + "'"@,
                        seq![
                            fix_at(
                                line_start_spec(src, cond.start_byte as int) as nat,
                                line_bounds_spec(src, define.start_byte as int).1 as nat,
                                "#pragma once\n"@,
                            ),
                            fix_at(endif_start as nat, endif_end as nat, Seq::empty()),
                        ],
                    ),
                )
            },
            None => None,
        }
    }
}

/// The positions that a header's include guard points into lie within its
/// source.
pub open spec fn guard_within(file: FileModel) -> bool {
    include_guard(file.top_level_items@) matches Some((cond, define, _)) ==> cond.start_byte
        <= file.source@.len() && cond.end_byte <= file.source@.len() && define.start_byte
        <= file.source@.len()
}

proof fn lemma_back_over_blank_lines(source: Seq<u8>, p: int)
    requires
        0 <= p <= source.len(),
    ensures
        0 <= back_over_blank_lines(source, p) <= p,
    decreases p,
{
    if p >= 2 && source[p - 1] == 10u8 && source[p - 2] == 10u8 {
        lemma_back_over_blank_lines(source, p - 1);
    }
}

impl UsePragmaOnce {
    pub fn name(&self) -> (r: &'static str)
        ensures
            r@ == "use_pragma_once"@,
    {
        "use_pragma_once"
    }

    pub fn description(&self) -> (r: &'static str)
        ensures
            r@ == "Suggest #pragma once instead of traditional include guards"@,
    {
        "Suggest #pragma once instead of traditional include guards"
    }

    pub fn category(&self) -> (r: Category)
        ensures
            r == Category::Style,
    {
        Category::Style
    }

    pub fn fixable(&self) -> (r: bool)
        ensures
            r,
    {
        true
    }

    /// Find the `#define` of `guard_name` that opens the body of the guard.
    pub fn find_matching_define(&self, body: &Vec<TopLevelItem>, guard_name: &str) -> (r: Option<SourceLocation>)
        ensures
            r == matching_define(body@, guard_name@),
    {
        if body.len() < 2 {
            return None;
        }
        match &body[0] {
            TopLevelItem::Preprocessor(PreprocessorDirective::Define { name, value, location }) => {
                if str_eq(name.as_str(), guard_name) && value.is_none() {
                    Some(*location)
                } else {
                    None
                }
            },
            _ => None,
        }
    }

    /// Find a traditional include guard: the locations of its `#ifndef` and
    /// `#define` and its name.
    pub fn find_include_guard(&self, items: &Vec<TopLevelItem>) -> (r: Option<(SourceLocation, SourceLocation, String)>)
        ensures
            r matches Some((c, d, g)) ==> include_guard(items@) == Some((c, d, g@)),
            r is None ==> include_guard(items@) is None,
    {
        if items.len() == 0 {
            return None;
        }
        match &items[0] {
            TopLevelItem::Preprocessor(
                PreprocessorDirective::Conditional { kind, condition, body, location },
            ) => {
                if *kind != ConditionalKind::Ifndef {
                    return None;
                }
                match condition {
                    Some(name) => match self.find_matching_define(body, name.as_str()) {
                        Some(d) => Some((*location, d, name.clone())),
                        None => None,
                    },
                    None => None,
                }
            },
            _ => None,
        }
    }

    /// The start of the line that holds `pos`, without the blank lines
    /// before it.
    pub fn find_actual_line_start(&self, source: &[u8], pos: usize) -> (r: usize)
        requires
            pos <= source@.len(),
        ensures
            r == line_start_spec(source@, pos as int),
    {
        line_start(source, pos)
    }

    /// The bytes of the `#endif` line that ends at `conditional_end`: the
    /// blank lines before it and its trailing comment and newline included.
    pub fn find_endif_line_with_comment(&self, source: &[u8], conditional_end: usize) -> (r: (usize, usize))
        requires
            conditional_end <= source@.len(),
        ensures
            r.0 == endif_bounds(source@, conditional_end as int).0,
            r.1 == endif_bounds(source@, conditional_end as int).1,
    {
        let start0 = line_start(source, conditional_end);
        let mut start = start0;
        while start >= 2 && source[start - 1] == 10u8 && source[start - 2] == 10u8
            invariant
                start <= start0 <= source@.len(),
                back_over_blank_lines(source@, start as int) == back_over_blank_lines(
                    source@,
                    start0 as int,
                ),
            decreases start,
        {
            start = start - 1;
        }
        let mut stop = line_end(source, conditional_end);
        if stop < source.len() && source[stop] == 10u8 {
            stop = stop + 1;
        } else if stop < source.len() {
            proof {
                // `line_end` stops only at a newline or the end.
                assert(false) by {
                    lemma_line_end_is_newline(source@, conditional_end as int);
                }
            }
        }
        (start, stop)
    }

    /// The violation for one header file, if any.
    pub fn check_file(&self, file: &FileModel) -> (r: Option<Violation>)
        requires
            guard_within(*file),
        ensures
            opt_view(r) == pragma_once_report(*file),
    {
        let items = &file.top_level_items;
        let mut i: usize = 0;
        while i < items.len()
            invariant
                i <= items@.len(),
                *items == file.top_level_items,
                forall|k: int|
                    0 <= k < i ==> !(#[trigger] items@[k] matches TopLevelItem::Preprocessor(
                        PreprocessorDirective::Pragma { kind: PragmaKind::Once, .. },
                    )),
            decreases items@.len() - i,
        {
            if let TopLevelItem::Preprocessor(PreprocessorDirective::Pragma { kind, .. }) = &items[i] {
                if *kind == PragmaKind::Once {
                    return None;
                }
            }
            i = i + 1;
        }
        let (cond, define, guard) = match self.find_include_guard(items) {
            Some(g) => g,
            None => return None,
        };
        let source = file.source.as_slice();
        let ifndef_start = self.find_actual_line_start(source, cond.start_byte);
        let (_, define_line_end) = define.find_line_bounds(source);
        let (endif_start, endif_end) = self.find_endif_line_with_comment(source, cond.end_byte);
        let mut fixes: Vec<Fix> = Vec::new();
        fixes.push(Fix::new(ifndef_start, define_line_end, crate::text::owned("#pragma once\n")));
        fixes.push(Fix::new(endif_start, endif_end, String::new()));
        proof {
            reveal_strlit("");
        }
        assert(fix_views(fixes@) =~= seq![
            fix_at(ifndef_start as nat, define_line_end as nat, "#pragma once\n"@),
            fix_at(endif_start as nat, endif_end as nat, Seq::empty()),
        ]);
        let message = concat3("Use #pragma once instead of include guard '", guard.as_str(), "'");
        Some(Violation::new(
            file.path.as_str(),
            cond.line,
            cond.column,
            "use_pragma_once",
            message,
            fixes,
        ))
    }

    /// Reports each header file that uses a traditional include guard and no
    /// `#pragma once`, with the fixes that put `#pragma once` in its place.
    pub fn check_all(&self, ast_context: &AstContext, config: &Config, violations: &mut Vec<Violation>)
        requires
            forall|i: int|
                0 <= i < header_files(*ast_context).len() ==> guard_within(
                    #[trigger] header_files(*ast_context)[i],
                ),
        ensures
            violation_views(final(violations)@) == violation_views(old(violations)@) + somes(
                header_files(*ast_context).map_values(|f: FileModel| pragma_once_report(f)),
            ),
    {
        let files = ast_context.iter_header_files();
        let ghost hs = header_files(*ast_context);
        let ghost opts = hs.map_values(|f: FileModel| pragma_once_report(f));
        let ghost start = violation_views(violations@);
        let mut i: usize = 0;
        while i < files.len()
            invariant
                i <= files@.len(),
                files@.map_values(|f: &FileModel| *f) == hs,
                hs == header_files(*ast_context),
                opts == hs.map_values(|f: FileModel| pragma_once_report(f)),
                start == violation_views(old(violations)@),
                forall|k: int| 0 <= k < hs.len() ==> guard_within(#[trigger] hs[k]),
                violation_views(violations@) == start + somes(opts.take(i as int)),
            decreases files@.len() - i,
        {
            let file: &FileModel = files[i];
            assert(hs[i as int] == *file);
            proof {
                lemma_somes_take(opts, i as int);
            }
            match self.check_file(file) {
                Some(v) => {
                    let ghost before = violation_views(violations@);
                    violations.push(v);
                    assert(violation_views(violations@) =~= before.push(v@));
                },
                None => {
                    assert(somes(opts.take(i + 1)) =~= somes(opts.take(i as int)));
                },
            }
            i = i + 1;
        }
        assert(opts.take(files@.len() as int) =~= opts);
    }
}

proof fn lemma_line_end_is_newline(source: Seq<u8>, pos: int)
    requires
        0 <= pos <= source.len(),
    ensures
        line_end_spec(source, pos) < source.len() ==> source[line_end_spec(source, pos)] == 10u8,
        pos <= line_end_spec(source, pos) <= source.len(),
    decreases source.len() - pos,
{
    if pos < source.len() && source[pos] != 10u8 {
        lemma_line_end_is_newline(source, pos + 1);
    }
}

} // verus!
