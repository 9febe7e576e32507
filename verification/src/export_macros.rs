//! The export and deprecation macros that stand with function prototypes:
//! a macro call directive names the declaration on the line after it, and
//! the first marker word on a declaration's first line names that
//! declaration.

use vstd::prelude::*;

use crate::model::expression::derefs;
use crate::model::function::FunctionInfo;
use crate::model::location::{line_end, line_end_spec, text_of, utf8_text};
use crate::parse::{node_text_opt, parse_ready, text_at};
use crate::syntax::{child_by_field, lemma_fits_field_child, lemma_fits_member, lemma_fits_root, preorder, SyntaxNode};
use crate::text::{chars_of, ends_with, has_prefix, has_suffix, is_whitespace, is_whitespace_char, slice_chars, starts_with, str_eq, string_from_chars};

verus! {

/// A word on a declaration's first line that marks it.
pub open spec fn declaration_marker(w: Seq<char>) -> bool {
    has_suffix(w, "_EXPORT"@) || has_prefix(w, "G_DEPRECATED"@) || w == "G_GNUC_DEPRECATED"@ || w
        == "G_GNUC_WARN_UNUSED_RESULT"@
}

/// A macro call directive that marks the declaration after it.
pub open spec fn directive_marker(w: Seq<char>) -> bool {
    has_suffix(w, "_EXPORT"@) || has_prefix(w, "G_DEPRECATED"@) || has_prefix(w, "G_MODULE_"@) || w
        == "G_GNUC_DEPRECATED"@ || w == "G_GNUC_WARN_UNUSED_RESULT"@
}

/// Where the word that starts at `i` ends: the next white space, or the end.
pub open spec fn word_end(s: Seq<char>, i: int) -> int
    decreases s.len() - i,
{
    if i < 0 || i >= s.len() || is_whitespace_char(s[i]) {
        i
    } else {
        word_end(s, i + 1)
    }
}

pub proof fn lemma_word_end_bounds(s: Seq<char>, i: int)
    requires
        0 <= i <= s.len(),
    ensures
        i <= word_end(s, i) <= s.len(),
    decreases s.len() - i,
{
    if i < s.len() && !is_whitespace_char(s[i]) {
        lemma_word_end_bounds(s, i + 1);
    }
}

/// The first word of `s[i..]` (words are separated by white space, as
/// `str::split_whitespace` splits them) that marks a declaration.
pub open spec fn marker_word_from(s: Seq<char>, i: int) -> Option<Seq<char>>
    decreases s.len() - i,
{
    if i < 0 || i >= s.len() {
        None
    } else if is_whitespace_char(s[i]) {
        marker_word_from(s, i + 1)
    } else {
        let j = word_end(s, i);
        proof {
            lemma_word_end_bounds(s, i + 1);
        }
        if declaration_marker(s.subrange(i, j)) {
            Some(s.subrange(i, j))
        } else {
            marker_word_from(s, j)
        }
    }
}

/// The number of newlines in `s`.
pub open spec fn newlines(s: Seq<u8>) -> nat
    decreases s.len(),
{
    if s.len() == 0 {
        0
    } else {
        newlines(s.drop_last()) + if s.last() == 10u8 {
            1nat
        } else {
            0nat
        }
    }
}

/// The macros that node `n` names for the declaration starting on row
/// `row`: a marking macro call directive ending on the row before, or the
/// first marker word on the first line of a declaration on that row.
pub open spec fn macros_at(src: Seq<u8>, n: SyntaxNode, row: int) -> Seq<Seq<char>> {
    if n.kind@ == "preproc_call"@ {
        match child_by_field(n.children@, "directive"@) {
            Some(d) => match text_at(src, d) {
                Some(t) => if directive_marker(t) && n.start_row + newlines(
                    src.subrange(n.start_byte as int, n.end_byte as int),
                ) + 1 == row {
                    seq![t]
                } else {
                    Seq::empty()
                },
                None => Seq::empty(),
            },
            None => Seq::empty(),
        }
    } else if n.kind@ == "declaration"@ && n.start_row == row {
        match text_of(src, n.start_byte as int, line_end_spec(src, n.start_byte as int)) {
            Some(t) => match marker_word_from(t, 0) {
                Some(w) => seq![w],
                None => Seq::empty(),
            },
            None => Seq::empty(),
        }
    } else {
        Seq::empty()
    }
}

/// The macros that the nodes `ns` name for the declaration on row `row`, in
/// order.
pub open spec fn row_macros(src: Seq<u8>, ns: Seq<SyntaxNode>, row: int) -> Seq<Seq<char>>
    decreases ns.len(),
{
    if ns.len() == 0 {
        Seq::empty()
    } else {
        row_macros(src, ns.drop_last(), row) + macros_at(src, ns.last(), row)
    }
}

pub open spec fn string_seq(s: Seq<String>) -> Seq<Seq<char>> {
    s.map_values(|x: String| x@)
}

/// `f` with the export macros of its row among `ns`, when it is a
/// prototype.
pub open spec fn with_exports(src: Seq<u8>, ns: Seq<SyntaxNode>, f: FunctionInfo, macros: Seq<String>) -> bool {
    &&& if f.is_definition {
        macros == f.export_macros@
    } else {
        string_seq(macros) == row_macros(src, ns, f.line - 1)
    }
}

/// `b` is `a` with, perhaps, other export macros.
pub open spec fn same_but_exports(a: FunctionInfo, b: FunctionInfo) -> bool {
    b == (FunctionInfo { export_macros: b.export_macros, ..a })
}

/// `after` is `before` with the prototypes given the export macros of
/// their rows among `ns`.
pub open spec fn exports_attached(src: Seq<u8>, ns: Seq<SyntaxNode>, before: Seq<FunctionInfo>, after: Seq<FunctionInfo>) -> bool {
    &&& after.len() == before.len()
    &&& forall|i: int|
        0 <= i < before.len() ==> same_but_exports(before[i], #[trigger] after[i]) && with_exports(src, ns, before[i], after[i].export_macros@)
}

/// The first marker word of `s` (see `marker_word_from`).
fn first_marker_word(s: &str) -> (r: Option<String>)
    ensures
        match r {
            Some(w) => marker_word_from(s@, 0) == Some(w@),
            None => marker_word_from(s@, 0) is None,
        },
{
    let x = chars_of(s);
    let mut i: usize = 0;
    while i < x.len()
        invariant
            i <= x@.len(),
            x@ == s@,
            marker_word_from(s@, 0) == marker_word_from(s@, i as int),
        decreases x@.len() - i,
    {
        if is_whitespace(x[i]) {
            i = i + 1;
        } else {
            let mut j = i;
            while j < x.len() && !is_whitespace(x[j])
                invariant
                    i <= j <= x@.len(),
                    word_end(x@, i as int) == word_end(x@, j as int),
                decreases x@.len() - j,
            {
                j = j + 1;
            }
            proof {
                lemma_word_end_bounds(x@, i as int + 1);
            }
            let w = string_from_chars(slice_chars(&x, i, j).as_slice());
            proof {
                reveal_strlit("_EXPORT");
                reveal_strlit("G_DEPRECATED");
                reveal_strlit("G_GNUC_DEPRECATED");
                reveal_strlit("G_GNUC_WARN_UNUSED_RESULT");
            }
            if ends_with(w.as_str(), "_EXPORT") || starts_with(w.as_str(), "G_DEPRECATED") || str_eq(
                w.as_str(),
                "G_GNUC_DEPRECATED",
            ) || str_eq(w.as_str(), "G_GNUC_WARN_UNUSED_RESULT") {
                return Some(w);
            }
            i = j;
        }
    }
    None
}

/// The number of newlines in `src[a..b]`.
fn count_newlines(src: &[u8], a: usize, b: usize) -> (r: usize)
    requires
        a <= b <= src@.len(),
    ensures
        r == newlines(src@.subrange(a as int, b as int)),
        r <= b - a,
{
    let mut k: usize = 0;
    let mut i = a;
    while i < b
        invariant
            a <= i <= b <= src@.len(),
            k == newlines(src@.subrange(a as int, i as int)),
            k <= i - a,
        decreases b - i,
    {
        assert(src@.subrange(a as int, i + 1).drop_last() =~= src@.subrange(a as int, i as int));
        if src[i] == 10u8 {
            k = k + 1;
        }
        i = i + 1;
    }
    k
}

/// The macros that node `n` names for row `row` (see `macros_at`).
fn macros_of(n: &SyntaxNode, src: &[u8], row: usize, Ghost(len): Ghost<int>) -> (r: Vec<String>)
    requires
        parse_ready(*n, len),
        len == src@.len(),
    ensures
        string_seq(r@) == macros_at(src@, *n, row as int),
{
    proof {
        reveal_strlit("directive");
        reveal_strlit("_EXPORT");
        reveal_strlit("G_DEPRECATED");
        reveal_strlit("G_MODULE_");
        reveal_strlit("G_GNUC_DEPRECATED");
        reveal_strlit("G_GNUC_WARN_UNUSED_RESULT");
        lemma_fits_root(*n, len, 1, 0);
        lemma_fits_field_child(*n, "directive"@, len, 1, 0);
    }
    let mut out: Vec<String> = Vec::new();
    if n.is_kind("preproc_call") {
        match n.child_by_field_name("directive") {
            Some(d) => match node_text_opt(d, src) {
                Some(t) => {
                    let marker = ends_with(t.as_str(), "_EXPORT") || starts_with(t.as_str(), "G_DEPRECATED")
                        || starts_with(t.as_str(), "G_MODULE_") || str_eq(t.as_str(), "G_GNUC_DEPRECATED")
                        || str_eq(t.as_str(), "G_GNUC_WARN_UNUSED_RESULT");
                    let lines = count_newlines(src, n.start_byte, n.end_byte);
                    if marker && (n.start_row as u128) + (lines as u128) + 1 == row as u128 {
                        out.push(t);
                    }
                },
                None => {},
            },
            None => {},
        }
    } else if n.is_kind("declaration") && n.start_row == row {
        let end = line_end(src, n.start_byte);
        match utf8_text(vstd::slice::slice_subrange(src, n.start_byte, end)) {
            Some(t) => match first_marker_word(t) {
                Some(w) => out.push(w),
                None => {},
            },
            None => {},
        }
    }
    assert(string_seq(out@) =~= macros_at(src@, *n, row as int));
    out
}

/// The macros that the tree rooted at `root` names for row `row` (see
/// `row_macros`).
fn macros_for_row(root: &SyntaxNode, src: &[u8], row: usize, Ghost(len): Ghost<int>) -> (r: Vec<String>)
    requires
        parse_ready(*root, len),
        len == src@.len(),
    ensures
        string_seq(r@) == row_macros(src@, preorder(*root), row as int),
{
    let all = root.preorder();
    let ghost ns = derefs(all@);
    let mut out: Vec<String> = Vec::new();
    let mut i: usize = 0;
    while i < all.len()
        invariant
            i <= all@.len(),
            ns == derefs(all@),
            ns == preorder(*root),
            parse_ready(*root, len),
            len == src@.len(),
            string_seq(out@) == row_macros(src@, ns.take(i as int), row as int),
        decreases all@.len() - i,
    {
        let n: &SyntaxNode = all[i];
        proof {
            assert(ns[i as int] == *n);
            lemma_fits_member(*root, *n, len, 1, 0);
        }
        assert(ns.take(i + 1).drop_last() =~= ns.take(i as int));
        assert(ns.take(i + 1).last() == *n);
        let ghost before = string_seq(out@);
        let mut found = macros_of(n, src, row, Ghost(len));
        let ghost f = string_seq(found@);
        out.append(&mut found);
        assert(string_seq(out@) =~= before + f);
        i = i + 1;
    }
    assert(ns.take(ns.len() as int) =~= ns);
    out
}

/// No declaration starts on a row before the first.
proof fn lemma_no_macros_before_first_row(src: Seq<u8>, ns: Seq<SyntaxNode>)
    ensures
        row_macros(src, ns, -1) == Seq::<Seq<char>>::empty(),
    decreases ns.len(),
{
    if ns.len() > 0 {
        lemma_no_macros_before_first_row(src, ns.drop_last());
        assert(macros_at(src, ns.last(), -1) =~= Seq::<Seq<char>>::empty());
        assert(row_macros(src, ns, -1) =~= Seq::<Seq<char>>::empty());
    }
}

/// Gives each prototype of `fs` the export macros that the tree rooted at
/// `root` names for its row (see `exports_attached`).
pub fn attach_export_macros(root: &SyntaxNode, src: &[u8], fs: Vec<FunctionInfo>) -> (r: Vec<FunctionInfo>)
    requires
        parse_ready(*root, src@.len() as int),
    ensures
        exports_attached(src@, preorder(*root), fs@, r@),
{
    let ghost len = src@.len() as int;
    let ghost orig = fs@;
    let mut rest = fs;
    let mut out: Vec<FunctionInfo> = Vec::new();
    assert(orig.skip(0) =~= orig);
    while rest.len() > 0
        invariant
            out@.len() + rest@.len() == orig.len(),
            rest@ == orig.skip(out@.len() as int),
            parse_ready(*root, len),
            len == src@.len(),
            forall|k: int|
                0 <= k < out@.len() ==> same_but_exports(orig[k], #[trigger] out@[k]) && with_exports(src@, preorder(*root), orig[k], out@[k].export_macros@),
        decreases rest@.len(),
    {
        let ghost k = out@.len() as int;
        let mut f = rest.remove(0);
        assert(f == orig[k]);
        assert(rest@ =~= orig.skip(k + 1));
        if !f.is_definition && f.line >= 1 {
            f.export_macros = macros_for_row(root, src, f.line - 1, Ghost(len));
        } else if !f.is_definition {
            f.export_macros = Vec::new();
            proof {
                lemma_no_macros_before_first_row(src@, preorder(*root));
                assert(string_seq(f.export_macros@) =~= Seq::<Seq<char>>::empty());
            }
        }
        out.push(f);
    }
    out
}

} // verus!
