//! Concrete syntax trees of C source, as tree-sitter's C grammar parses it,
//! held as plain values that the rules walk.

use vstd::prelude::*;

use crate::model::expression::derefs;
use crate::model::location::{text_of, utf8_text};
use crate::text::{owned, str_eq};

verus! {

/// A node of a concrete syntax tree: its grammar kind, the field under which
/// it sits in its parent, its byte range in the parsed text, where it starts
/// (0-based row and column) and its children in order, unnamed tokens such
/// as `(` and `,` included.
#[derive(Debug)]
pub struct SyntaxNode {
    pub kind: String,
    /// A named node of the grammar, rather than an anonymous token.
    pub is_named: bool,
    pub field: Option<String>,
    pub start_byte: usize,
    pub end_byte: usize,
    pub start_row: usize,
    pub start_column: usize,
    pub children: Vec<SyntaxNode>,
}

/// The nodes of the tree rooted at `n`, in pre-order.
pub open spec fn preorder(n: SyntaxNode) -> Seq<SyntaxNode>
    decreases n, 1int,
{
    seq![n] + preorder_list(n.children@, 0)
}

/// The nodes of the tree that `n` points to, in pre-order.
pub open spec fn preorder_ref(n: &SyntaxNode) -> Seq<SyntaxNode> {
    preorder(*n)
}

/// The pre-orders of `ns[i..]`, one after the other.
pub open spec fn preorder_list(ns: Seq<SyntaxNode>, i: int) -> Seq<SyntaxNode>
    decreases ns, 0int, ns.len() - i,
{
    if 0 <= i < ns.len() {
        preorder(ns[i]) + preorder_list(ns, i + 1)
    } else {
        Seq::empty()
    }
}

/// The first child of `children` that sits under the field `name`.
pub open spec fn child_by_field(children: Seq<SyntaxNode>, name: Seq<char>) -> Option<SyntaxNode>
    decreases children.len(),
{
    if children.len() == 0 {
        None
    } else if children[0].field matches Some(f) && f@ == name {
        Some(children[0])
    } else {
        child_by_field(children.drop_first(), name)
    }
}

/// The text of `n` in `source`: its bytes decoded, or nothing when they are
/// not valid UTF-8.
pub open spec fn node_text(source: Seq<u8>, n: SyntaxNode) -> Seq<char> {
    match text_of(source, n.start_byte as int, n.end_byte as int) {
        Some(t) => t,
        None => Seq::empty(),
    }
}

/// Every node of the tree rooted at `root` lies within a text of `len`
/// bytes, and its row, column and bytes stay representable once `base_line`
/// and `base_byte` are added.
pub open spec fn fits(root: SyntaxNode, len: int, base_line: int, base_byte: int) -> bool {
    forall|k: int|
        0 <= k < preorder(root).len() ==> node_fits(#[trigger] preorder(root)[k], len, base_line, base_byte)
}

/// The tree that `root` points to fits (see `fits`).
pub open spec fn fits_ref(root: &SyntaxNode, len: int, base_line: int, base_byte: int) -> bool {
    fits(*root, len, base_line, base_byte)
}

/// One node lies within a text of `len` bytes and its position stays
/// representable once `base_line` and `base_byte` are added.
pub open spec fn node_fits(n: SyntaxNode, len: int, base_line: int, base_byte: int) -> bool {
    &&& n.start_byte <= n.end_byte <= len
    &&& base_line + n.start_row <= usize::MAX
    &&& n.start_column + 1 <= usize::MAX
    &&& base_byte + n.end_byte <= usize::MAX
}

proof fn lemma_preorder_step(ns: Seq<SyntaxNode>, i: int)
    requires
        0 <= i < ns.len(),
    ensures
        preorder_list(ns, i) == preorder(ns[i]) + preorder_list(ns, i + 1),
{
}

/// Whatever lies in the pre-order of one of `ns[j..]` lies in their joint
/// pre-order.
pub proof fn lemma_preorder_list_has(ns: Seq<SyntaxNode>, j: int, i: int, x: SyntaxNode)
    requires
        0 <= j <= i < ns.len(),
        preorder(ns[i]).contains(x),
    ensures
        preorder_list(ns, j).contains(x),
    decreases ns.len() - j,
{
    if j < i {
        lemma_preorder_list_has(ns, j + 1, i, x);
        let k = choose|k: int| 0 <= k < preorder_list(ns, j + 1).len() && #[trigger] preorder_list(ns, j + 1)[k] == x;
        assert(preorder_list(ns, j)[preorder(ns[j]).len() + k] == x);
    } else {
        let k = choose|k: int| 0 <= k < preorder(ns[i]).len() && #[trigger] preorder(ns[i])[k] == x;
        assert(preorder_list(ns, j)[k] == x);
    }
}

/// Whatever lies in the joint pre-order of `ns[j..]` lies in the pre-order of
/// one of them.
pub proof fn lemma_preorder_list_from(ns: Seq<SyntaxNode>, j: int, x: SyntaxNode) -> (i: int)
    requires
        0 <= j,
        preorder_list(ns, j).contains(x),
    ensures
        j <= i < ns.len(),
        preorder(ns[i]).contains(x),
    decreases ns.len() - j,
{
    if j >= ns.len() {
        assert(false);
        j
    } else {
        let k = choose|k: int| 0 <= k < preorder_list(ns, j).len() && #[trigger] preorder_list(ns, j)[k] == x;
        if k < preorder(ns[j]).len() {
            assert(preorder(ns[j])[k] == x);
            j
        } else {
            assert(preorder_list(ns, j + 1)[k - preorder(ns[j]).len()] == x);
            lemma_preorder_list_from(ns, j + 1, x)
        }
    }
}

/// The pre-order of a node of the tree rooted at `t` lies within that of `t`.
pub proof fn lemma_preorder_subtree(t: SyntaxNode, m: SyntaxNode)
    requires
        preorder(t).contains(m),
    ensures
        forall|x: SyntaxNode| preorder(m).contains(x) ==> preorder(t).contains(x),
    decreases t, 1int,
{
    if m != t {
        let k = choose|k: int| 0 <= k < preorder(t).len() && #[trigger] preorder(t)[k] == m;
        assert(k > 0);
        assert(preorder_list(t.children@, 0)[k - 1] == m);
        let i = lemma_preorder_list_from(t.children@, 0, m);
        assert(t.children@[i] == t.children@[i]);
        lemma_preorder_subtree(t.children@[i], m);
        assert forall|x: SyntaxNode| preorder(m).contains(x) implies preorder(t).contains(x) by {
            lemma_preorder_list_has(t.children@, 0, i, x);
            let q = choose|q: int| 0 <= q < preorder_list(t.children@, 0).len() && #[trigger] preorder_list(t.children@, 0)[q] == x;
            assert(preorder(t)[q + 1] == x);
        }
    }
}

/// A tree that fits has subtrees that fit.
pub proof fn lemma_fits_subtree(t: SyntaxNode, m: SyntaxNode, len: int, base_line: int, base_byte: int)
    requires
        fits(t, len, base_line, base_byte),
        preorder(t).contains(m),
    ensures
        fits(m, len, base_line, base_byte),
{
    lemma_preorder_subtree(t, m);
    assert forall|k: int| 0 <= k < preorder(m).len() implies node_fits(#[trigger] preorder(m)[k], len, base_line, base_byte) by {
        assert(preorder(m).contains(preorder(m)[k]));
        let q = choose|q: int| 0 <= q < preorder(t).len() && #[trigger] preorder(t)[q] == preorder(m)[k];
    }
}

/// The children of a tree that fits fit.
pub proof fn lemma_fits_child(t: SyntaxNode, i: int, len: int, base_line: int, base_byte: int)
    requires
        fits(t, len, base_line, base_byte),
        0 <= i < t.children@.len(),
    ensures
        fits(t.children@[i], len, base_line, base_byte),
{
    assert(preorder(t.children@[i])[0] == t.children@[i]);
    lemma_preorder_list_has(t.children@, 0, i, t.children@[i]);
    let q = choose|q: int| 0 <= q < preorder_list(t.children@, 0).len() && #[trigger] preorder_list(t.children@, 0)[q] == t.children@[i];
    assert(preorder(t)[q + 1] == t.children@[i]);
    lemma_fits_subtree(t, t.children@[i], len, base_line, base_byte);
}

/// A child found by field is one of the children.
pub proof fn lemma_child_by_field_in(children: Seq<SyntaxNode>, name: Seq<char>)
    ensures
        child_by_field(children, name) matches Some(c) ==> exists|i: int|
            0 <= i < children.len() && children[i] == c,
    decreases children.len(),
{
    if children.len() > 0 {
        lemma_child_by_field_in(children.drop_first(), name);
        match child_by_field(children, name) {
            Some(c) => {
                if !(children[0].field matches Some(f) && f@ == name) {
                    let i = choose|i: int|
                        0 <= i < children.drop_first().len() && #[trigger] children.drop_first()[i] == c;
                    assert(children[i + 1] == c);
                } else {
                    assert(children[0] == c);
                }
            },
            None => {},
        }
    }
}

/// The root of a tree that fits fits.
pub proof fn lemma_fits_root(t: SyntaxNode, len: int, base_line: int, base_byte: int)
    requires
        fits(t, len, base_line, base_byte),
    ensures
        node_fits(t, len, base_line, base_byte),
{
    assert(preorder(t)[0] == t);
}

/// The child under a field of a tree that fits fits.
pub proof fn lemma_fits_field_child(t: SyntaxNode, name: Seq<char>, len: int, base_line: int, base_byte: int)
    requires
        fits(t, len, base_line, base_byte),
    ensures
        child_by_field(t.children@, name) matches Some(c) ==> fits(c, len, base_line, base_byte)
            && node_fits(c, len, base_line, base_byte),
{
    lemma_child_by_field_in(t.children@, name);
    match child_by_field(t.children@, name) {
        Some(c) => {
            let i = choose|i: int| 0 <= i < t.children@.len() && t.children@[i] == c;
            lemma_fits_child(t, i, len, base_line, base_byte);
            lemma_fits_root(c, len, base_line, base_byte);
        },
        None => {},
    }
}

/// A node of a tree that fits fits, with its subtree (the tree given by
/// reference).
pub proof fn lemma_fits_member_ref(t: &SyntaxNode, m: SyntaxNode, len: int, base_line: int, base_byte: int)
    requires
        fits_ref(t, len, base_line, base_byte),
        preorder_ref(t).contains(m),
    ensures
        fits(m, len, base_line, base_byte),
{
    lemma_fits_member(*t, m, len, base_line, base_byte);
}

/// A node of a tree that fits fits, with its subtree.
pub proof fn lemma_fits_member(t: SyntaxNode, m: SyntaxNode, len: int, base_line: int, base_byte: int)
    requires
        fits(t, len, base_line, base_byte),
        preorder(t).contains(m),
    ensures
        fits(m, len, base_line, base_byte),
        node_fits(m, len, base_line, base_byte),
{
    lemma_fits_subtree(t, m, len, base_line, base_byte);
    lemma_fits_root(m, len, base_line, base_byte);
}

/// A tree that fits with some base line and byte fits with none.
pub proof fn lemma_fits_loosen(t: SyntaxNode, len: int, base_line: int, base_byte: int)
    requires
        fits(t, len, base_line, base_byte),
        base_line >= 0,
        base_byte >= 0,
    ensures
        fits(t, len, 0, 0),
{
    assert forall|k: int| 0 <= k < preorder(t).len() implies node_fits(#[trigger] preorder(t)[k], len, 0, 0) by {
        assert(node_fits(preorder(t)[k], len, base_line, base_byte));
    }
}

impl SyntaxNode {
    /// Appends the nodes of the tree rooted at `self` to `out`, in pre-order.
    fn preorder_into<'a>(&'a self, out: &mut Vec<&'a SyntaxNode>)
        ensures
            derefs(final(out)@) == derefs(old(out)@) + preorder(*self),
        decreases self, 1int,
    {
        let ghost start = derefs(out@);
        out.push(self);
        assert(derefs(out@) =~= start + seq![*self]);
        let n = self.children.len();
        let mut i: usize = 0;
        while i < n
            invariant
                n == self.children@.len(),
                i <= n,
                derefs(out@) + preorder_list(self.children@, i as int) == start + preorder(*self),
            decreases n - i,
        {
            proof {
                lemma_preorder_step(self.children@, i as int);
            }
            let ghost before = derefs(out@);
            self.children[i].preorder_into(out);
            assert(before + preorder(self.children@[i as int]) + preorder_list(
                self.children@,
                i + 1,
            ) =~= before + (preorder(self.children@[i as int]) + preorder_list(
                self.children@,
                i + 1,
            )));
            i = i + 1;
        }
        assert(derefs(out@) + Seq::<SyntaxNode>::empty() =~= derefs(out@));
    }

    /// The nodes of the tree rooted at `self`, in pre-order.
    pub fn preorder<'a>(&'a self) -> (r: Vec<&'a SyntaxNode>)
        ensures
            derefs(r@) == preorder(*self),
    {
        let mut out: Vec<&'a SyntaxNode> = Vec::new();
        self.preorder_into(&mut out);
        assert(derefs(Seq::<&SyntaxNode>::empty()) =~= Seq::<SyntaxNode>::empty());
        assert(Seq::<SyntaxNode>::empty() + preorder(*self) =~= preorder(*self));
        out
    }

    /// The first child under the field `name` (`Node::child_by_field_name`).
    pub fn child_by_field_name(&self, name: &str) -> (r: Option<&SyntaxNode>)
        ensures
            r matches Some(c) ==> child_by_field(self.children@, name@) == Some(*c),
            r is None ==> child_by_field(self.children@, name@) is None,
    {
        let ghost cs = self.children@;
        assert(cs.skip(0) =~= cs);
        let mut i: usize = 0;
        while i < self.children.len()
            invariant
                i <= cs.len(),
                cs == self.children@,
                child_by_field(cs, name@) == child_by_field(cs.skip(i as int), name@),
            decreases cs.len() - i,
        {
            assert(cs.skip(i as int).drop_first() =~= cs.skip(i + 1));
            assert(cs.skip(i as int)[0] == cs[i as int]);
            if let Some(f) = &self.children[i].field {
                if str_eq(f.as_str(), name) {
                    return Some(&self.children[i]);
                }
            }
            i = i + 1;
        }
        None
    }

    /// The kind of the node is `kind`.
    pub fn is_kind(&self, kind: &str) -> (r: bool)
        ensures
            r == (self.kind@ == kind@),
    {
        str_eq(self.kind.as_str(), kind)
    }

    /// The text of the node in `source`, or the empty string when it is not
    /// valid UTF-8.
    pub fn text<'a>(&self, source: &'a [u8]) -> (r: &'a str)
        requires
            self.start_byte <= self.end_byte <= source@.len(),
        ensures
            r@ == node_text(source@, *self),
    {
        match utf8_text(vstd::slice::slice_subrange(source, self.start_byte, self.end_byte)) {
            Some(t) => t,
            None => {
                proof {
                    reveal_strlit("");
                }
                ""
            },
        }
    }
}

/// Whether every node of the tree rooted at `root` fits a text of `len`
/// bytes with `base_line` and `base_byte` added.
pub fn tree_fits(root: &SyntaxNode, len: usize, base_line: usize, base_byte: usize) -> (r: bool)
    ensures
        r == fits(*root, len as int, base_line as int, base_byte as int),
{
    let nodes = root.preorder();
    let ghost ns = preorder(*root);
    let mut k: usize = 0;
    while k < nodes.len()
        invariant
            k <= nodes@.len(),
            derefs(nodes@) == ns,
            ns == preorder(*root),
            forall|j: int| 0 <= j < k ==> node_fits(#[trigger] ns[j], len as int, base_line as int, base_byte as int),
        decreases nodes@.len() - k,
    {
        let n: &SyntaxNode = nodes[k];
        assert(ns[k as int] == *n);
        let ok = n.start_byte <= n.end_byte && n.end_byte <= len && n.start_row <= usize::MAX - base_line
            && n.start_column < usize::MAX && n.end_byte <= usize::MAX - base_byte;
        if !ok {
            return false;
        }
        k = k + 1;
    }
    true
}

// ---------------------------------------------------------------------------
// Parsing with tree-sitter
// ---------------------------------------------------------------------------

#[verifier::external_type_specification]
#[verifier::external_body]
pub struct ExParser(tree_sitter::Parser);

#[verifier::external_type_specification]
#[verifier::external_body]
pub struct ExTree(tree_sitter::Tree);

#[verifier::external_type_specification]
#[verifier::external_body]
pub struct ExNode<'tree>(tree_sitter::Node<'tree>);

/// `tree_sitter::Parser::new`: a parser with no language yet.
#[verifier::external_body]
fn new_parser() -> (r: tree_sitter::Parser) {
    tree_sitter::Parser::new()
}

/// A tree-sitter parser that has been given the C grammar of
/// `tree_sitter_c`: only `use_c_language` makes one, once
/// `Parser::set_language` has accepted the grammar.
pub struct CParser {
    parser: tree_sitter::Parser,
}

/// `tree_sitter::Parser::set_language` with the C grammar of `tree_sitter_c`.
/// That grammar is accepted: its ABI version (15) lies within the versions
/// that this tree-sitter takes (13 to 15) and it has a lexer, which is all
/// that `set_language` checks, so the parser always comes back.
#[verifier::external_body]
fn use_c_language(parser: tree_sitter::Parser) -> (r: Option<CParser>)
    ensures
        r is Some,
{
    let mut parser = parser;
    match parser.set_language(&tree_sitter_c::LANGUAGE.into()) {
        Ok(()) => Some(CParser { parser }),
        Err(_) => None,
    }
}

/// `tree_sitter::Parser::parse` of `source` with no earlier tree.  Its
/// documentation says that it gives a tree unless the parser has no language
/// yet; a `CParser` has one, and no progress callback is given that could
/// stop it, so a tree always comes back.  Which tree is not stated here.
#[verifier::external_body]
fn parse_bytes(parser: &mut CParser, source: &[u8]) -> (r: Option<tree_sitter::Tree>)
    ensures
        r is Some,
{
    parser.parser.parse(source, None)
}

/// `tree_sitter::Tree::root_node`.
#[verifier::external_body]
fn tree_root<'a>(tree: &'a tree_sitter::Tree) -> (r: tree_sitter::Node<'a>) {
    tree.root_node()
}

/// `tree_sitter::Node::kind`: the grammar kind of the node.
#[verifier::external_body]
fn node_kind<'a>(node: &tree_sitter::Node<'a>) -> (r: &'a str) {
    node.kind()
}

/// `tree_sitter::Node::is_named`.
#[verifier::external_body]
fn node_is_named(node: &tree_sitter::Node) -> (r: bool) {
    node.is_named()
}

/// `tree_sitter::Node::start_byte`.
#[verifier::external_body]
fn node_start_byte(node: &tree_sitter::Node) -> (r: usize) {
    node.start_byte()
}

/// `tree_sitter::Node::end_byte`.
#[verifier::external_body]
fn node_end_byte(node: &tree_sitter::Node) -> (r: usize) {
    node.end_byte()
}

/// `tree_sitter::Node::start_position`, as (row, column).
#[verifier::external_body]
fn node_start_position(node: &tree_sitter::Node) -> (r: (usize, usize)) {
    let p = node.start_position();
    (p.row, p.column)
}

/// `tree_sitter::Node::child_count`.
#[verifier::external_body]
fn node_child_count(node: &tree_sitter::Node) -> (r: u32) {
    node.child_count()
}

/// `tree_sitter::Node::child`: the child at index `i`, if there is one.
#[verifier::external_body]
fn node_child<'a>(node: &tree_sitter::Node<'a>, i: u32) -> (r: Option<tree_sitter::Node<'a>>) {
    node.child(i)
}

/// `tree_sitter::Node::field_name_for_child`: the field of the child at
/// index `i`, if it has one.
#[verifier::external_body]
fn node_field_name_for_child<'a>(node: &tree_sitter::Node<'a>, i: u32) -> (r: Option<&'a str>) {
    node.field_name_for_child(i)
}

/// The tree rooted at `node`, as plain values, down to `depth` levels.
fn build_node(node: &tree_sitter::Node, field: Option<String>, depth: usize) -> (r: SyntaxNode)
    ensures
        r.field == field,
        depth == 0 ==> r.children@.len() == 0,
    decreases depth,
{
    let kind = owned(node_kind(node));
    let is_named = node_is_named(node);
    let start_byte = node_start_byte(node);
    let end_byte = node_end_byte(node);
    let (start_row, start_column) = node_start_position(node);
    let mut children: Vec<SyntaxNode> = Vec::new();
    if depth > 0 {
        let count = node_child_count(node);
        let mut i: u32 = 0;
        while i < count
            invariant
                depth > 0,
            decreases count - i,
        {
            if let Some(child) = node_child(node, i) {
                let child_field = match node_field_name_for_child(node, i) {
                    Some(f) => Some(owned(f)),
                    None => None,
                };
                children.push(build_node(&child, child_field, depth - 1));
            }
            i = i + 1;
        }
    }
    SyntaxNode { kind, is_named, field, start_byte, end_byte, start_row, start_column, children }
}

/// Parse C source with tree-sitter's C grammar: the syntax tree.  Which tree
/// comes back is tree-sitter's to say: nothing here states it beyond the root
/// standing in no field.
pub fn parse_c_source(source: &[u8]) -> (r: Option<SyntaxNode>)
    ensures
        r matches Some(t) && t.field is None,
{
    let parser = new_parser();
    match use_c_language(parser) {
        Some(mut c_parser) => match parse_bytes(&mut c_parser, source) {
            Some(tree) => {
                let root = tree_root(&tree);
                Some(build_node(&root, None, usize::MAX))
            },
            None => None,
        },
        None => None,
    }
}

} // verus!
