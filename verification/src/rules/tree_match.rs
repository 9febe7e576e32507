//! Small matchers over syntax trees that several rules share: the children
//! of a node without its punctuation, the text between two nodes, and
//! `strlen (...)` calls.

use vstd::prelude::*;

use crate::model::expression::derefs;
use crate::model::location::{text_of, utf8_text};
use crate::syntax::{
    child_by_field, fits, lemma_fits_child, lemma_fits_field_child, lemma_fits_root, node_fits,
    node_text, SyntaxNode,
};
use crate::text::{owned, str_eq, str_in, str_views};

verus! {

/// The nodes of `cs` whose kind is none of `skip`, in order.
pub open spec fn children_except(cs: Seq<SyntaxNode>, skip: Seq<Seq<char>>) -> Seq<SyntaxNode>
    decreases cs.len(),
{
    if cs.len() == 0 {
        Seq::empty()
    } else {
        children_except(cs.drop_last(), skip) + if skip.contains(cs.last().kind@) {
            Seq::empty()
        } else {
            seq![cs.last()]
        }
    }
}

/// The tokens that separate the arguments of a call.
pub open spec fn punctuation() -> Seq<Seq<char>> {
    seq!["("@, ")"@, ","@]
}

/// The arguments of an argument list node: its children without `(`, `)`
/// and `,`.
pub open spec fn call_arguments(args: SyntaxNode) -> Seq<SyntaxNode> {
    children_except(args.children@, punctuation())
}

/// The source between the byte offsets `a` and `b`, when they are in order,
/// within the source and mark out valid UTF-8; nothing otherwise.
pub open spec fn text_between(source: Seq<u8>, a: int, b: int) -> Seq<char> {
    if 0 <= a <= b <= source.len() {
        match text_of(source, a, b) {
            Some(t) => t,
            None => Seq::empty(),
        }
    } else {
        Seq::empty()
    }
}

/// `n` is the call `strlen (x)` whose one argument has the text `expected`.
pub open spec fn is_strlen_of(source: Seq<u8>, n: SyntaxNode, expected: Seq<char>) -> bool {
    &&& n.kind@ == "call_expression"@
    &&& child_by_field(n.children@, "function"@) matches Some(f)
    &&& node_text(source, f) == "strlen"@
    &&& child_by_field(n.children@, "arguments"@) matches Some(a)
    &&& call_arguments(a).len() == 1
    &&& node_text(source, call_arguments(a)[0]) == expected
}

/// What `children_except` keeps is among the children.
pub proof fn lemma_children_except_in(cs: Seq<SyntaxNode>, skip: Seq<Seq<char>>)
    ensures
        forall|k: int|
            0 <= k < children_except(cs, skip).len() ==> exists|i: int|
                0 <= i < cs.len() && cs[i] == #[trigger] children_except(cs, skip)[k],
    decreases cs.len(),
{
    if cs.len() > 0 {
        lemma_children_except_in(cs.drop_last(), skip);
        let prev = children_except(cs.drop_last(), skip);
        assert forall|k: int| 0 <= k < children_except(cs, skip).len() implies exists|i: int|
            0 <= i < cs.len() && cs[i] == #[trigger] children_except(cs, skip)[k] by {
            if k < prev.len() {
                assert(children_except(cs, skip)[k] == prev[k]);
                let i = choose|i: int| 0 <= i < cs.drop_last().len() && cs.drop_last()[i] == prev[k];
                assert(cs[i] == prev[k]);
            } else {
                assert(children_except(cs, skip)[k] == cs.last());
                assert(cs[cs.len() - 1] == cs.last());
            }
        }
    }
}

/// What `children_except` keeps of the children of a tree that fits fits.
pub proof fn lemma_fits_children_except(t: SyntaxNode, skip: Seq<Seq<char>>, len: int, base_line: int, base_byte: int)
    requires
        fits(t, len, base_line, base_byte),
    ensures
        forall|k: int|
            0 <= k < children_except(t.children@, skip).len() ==> fits(
                #[trigger] children_except(t.children@, skip)[k],
                len,
                base_line,
                base_byte,
            ) && node_fits(children_except(t.children@, skip)[k], len, base_line, base_byte),
{
    lemma_children_except_in(t.children@, skip);
    assert forall|k: int| 0 <= k < children_except(t.children@, skip).len() implies fits(
        #[trigger] children_except(t.children@, skip)[k],
        len,
        base_line,
        base_byte,
    ) && node_fits(children_except(t.children@, skip)[k], len, base_line, base_byte) by {
        let c = children_except(t.children@, skip)[k];
        let i = choose|i: int| 0 <= i < t.children@.len() && t.children@[i] == c;
        lemma_fits_child(t, i, len, base_line, base_byte);
        lemma_fits_root(c, len, base_line, base_byte);
    }
}

/// The children of `n` whose kind is none of `skip`, in order.
pub fn children_without<'a>(n: &'a SyntaxNode, skip: &[&str]) -> (r: Vec<&'a SyntaxNode>)
    ensures
        derefs(r@) == children_except(n.children@, str_views(skip@)),
{
    let ghost cs = n.children@;
    let ghost sk = str_views(skip@);
    let mut out: Vec<&'a SyntaxNode> = Vec::new();
    let mut i: usize = 0;
    while i < n.children.len()
        invariant
            i <= cs.len(),
            cs == n.children@,
            sk == str_views(skip@),
            derefs(out@) == children_except(cs.take(i as int), sk),
        decreases cs.len() - i,
    {
        let c = &n.children[i];
        assert(cs.take(i + 1).drop_last() =~= cs.take(i as int));
        assert(cs.take(i + 1).last() == *c);
        if !str_in(skip, c.kind.as_str()) {
            let ghost before = derefs(out@);
            out.push(c);
            assert(derefs(out@) =~= before.push(*c));
        } else {
            assert(children_except(cs.take(i + 1), sk) =~= children_except(cs.take(i as int), sk)
                + Seq::empty());
        }
        i = i + 1;
    }
    assert(cs.take(cs.len() as int) =~= cs);
    out
}

/// The arguments of the argument list `args`.
pub fn arguments_of<'a>(args: &'a SyntaxNode) -> (r: Vec<&'a SyntaxNode>)
    ensures
        derefs(r@) == call_arguments(*args),
{
    let skip: [&str; 3] = ["(", ")", ","];
    proof {
        reveal_strlit("(");
        reveal_strlit(")");
        reveal_strlit(",");
    }
    assert(str_views(skip@) =~= punctuation());
    children_without(args, &skip)
}

/// The source between the byte offsets `a` and `b` (see `text_between`).
pub fn source_between(source: &[u8], a: usize, b: usize) -> (r: String)
    ensures
        r@ == text_between(source@, a as int, b as int),
{
    if a <= b && b <= source.len() {
        match utf8_text(vstd::slice::slice_subrange(source, a, b)) {
            Some(t) => owned(t),
            None => String::new(),
        }
    } else {
        String::new()
    }
}

/// Whether `node` is `strlen (x)` with `x` written as `expected`.
pub fn strlen_of(node: &SyntaxNode, expected: &str, source: &[u8]) -> (r: bool)
    requires
        fits(*node, source@.len() as int, 0, 0),
    ensures
        r == is_strlen_of(source@, *node, expected@),
{
    let ghost len = source@.len() as int;
    proof {
        reveal_strlit("function");
        reveal_strlit("arguments");
        lemma_fits_field_child(*node, "function"@, len, 0, 0);
        lemma_fits_field_child(*node, "arguments"@, len, 0, 0);
    }
    if !node.is_kind("call_expression") {
        return false;
    }
    let function = match node.child_by_field_name("function") {
        Some(f) => f,
        None => return false,
    };
    if !str_eq(function.text(source), "strlen") {
        return false;
    }
    let args = match node.child_by_field_name("arguments") {
        Some(a) => a,
        None => return false,
    };
    let inner = arguments_of(args);
    if inner.len() != 1 {
        return false;
    }
    proof {
        lemma_fits_children_except(*args, punctuation(), len, 0, 0);
        assert(derefs(inner@)[0] == *inner@[0]);
    }
    str_eq(inner[0].text(source), expected)
}

} // verus!
