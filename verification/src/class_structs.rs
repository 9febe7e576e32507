//! The class structs of GObject types: a struct `_NameClass` found in a
//! file's tree gives the type `Name` of the file its virtual functions,
//! the function pointer fields of the struct.

use vstd::prelude::*;

use crate::declarations::text_or_empty;
use crate::model::expression::derefs;
use crate::model::function::Parameter;
use crate::model::project::{ClassStruct, GObjectType, GObjectTypeKind, VirtualFunction};
use crate::parse::{node_text_opt, parse_ready, text_at};
use crate::rules::use_g_clear_handle_id::first_of_kind;
use crate::syntax::{
    child_by_field, lemma_fits_child, lemma_fits_field_child, lemma_fits_member, lemma_fits_root,
    preorder, SyntaxNode,
};
use crate::text::{concat3, ends_with, has_prefix, has_suffix, starts_with, str_eq, string_from_chars};
use vstd::utf8::{encode_utf8, valid_utf8};

verus! {

/// A parameter as plain values: its name, if any, and its type's text.
pub type ParamView = (Option<Seq<char>>, Seq<char>);

/// A virtual function as plain values.
pub struct VFuncView {
    pub name: Seq<char>,
    pub return_type: Option<Seq<char>>,
    pub parameters: Seq<ParamView>,
}

pub open spec fn opt_str(o: Option<String>) -> Option<Seq<char>> {
    match o {
        Some(s) => Some(s@),
        None => None,
    }
}

pub open spec fn param_view(p: Parameter) -> ParamView {
    (opt_str(p.name), p.type_text@)
}

pub open spec fn param_views(ps: Seq<Parameter>) -> Seq<ParamView> {
    ps.map_values(|p: Parameter| param_view(p))
}

pub open spec fn vfunc_view(v: VirtualFunction) -> VFuncView {
    VFuncView { name: v.name@, return_type: opt_str(v.return_type), parameters: param_views(v.parameters@) }
}

pub open spec fn vfunc_views(vs: Seq<VirtualFunction>) -> Seq<VFuncView> {
    vs.map_values(|v: VirtualFunction| vfunc_view(v))
}

/// A class struct as plain values: its name and virtual functions.
pub open spec fn class_view(c: ClassStruct) -> (Seq<char>, Seq<VFuncView>) {
    (c.name@, vfunc_views(c.vfuncs@))
}

/// The depth to which declarators are followed.
pub open spec fn declarator_fuel() -> nat {
    usize::MAX as nat
}

/// `n` names something: an identifier or a field identifier.
pub open spec fn is_name_node(n: SyntaxNode) -> bool {
    n.kind@ == "identifier"@ || n.kind@ == "field_identifier"@
}

/// The text of node `n` of `src`: none when its byte range does not lie
/// within `src` or is not valid UTF-8.
pub open spec fn text_in(src: Seq<u8>, n: SyntaxNode) -> Option<Seq<char>> {
    if n.start_byte <= n.end_byte <= src.len() {
        text_at(src, n)
    } else {
        None
    }
}

/// The text of node `n` of `src` (see `text_in`), or the empty text.
pub open spec fn text_in_or_empty(src: Seq<u8>, n: SyntaxNode) -> Seq<char> {
    match text_in(src, n) {
        Some(t) => t,
        None => Seq::empty(),
    }
}

/// The name that the declarator `d` of a function pointer declares: through
/// parentheses and pointer declarators, down to `fuel` levels.
pub open spec fn pointer_name(src: Seq<u8>, d: SyntaxNode, fuel: nat) -> Option<Seq<char>>
    decreases fuel, 1int, 0int,
{
    if fuel == 0 {
        None
    } else if d.kind@ == "parenthesized_declarator"@ {
        paren_name(src, d.children@, (fuel - 1) as nat)
    } else if d.kind@ == "pointer_declarator"@ {
        match child_by_field(d.children@, "declarator"@) {
            Some(inner) => if is_name_node(inner) {
                text_in(src, inner)
            } else {
                pointer_name(src, inner, (fuel - 1) as nat)
            },
            None => None,
        }
    } else if is_name_node(d) {
        text_in(src, d)
    } else {
        None
    }
}

/// The name inside parentheses: from the first of `cs` that is a pointer
/// declarator or a name.
pub open spec fn paren_name(src: Seq<u8>, cs: Seq<SyntaxNode>, fuel: nat) -> Option<Seq<char>>
    decreases fuel, 2int, cs.len(),
{
    if cs.len() == 0 {
        None
    } else if cs[0].kind@ == "pointer_declarator"@ {
        pointer_name(src, cs[0], fuel)
    } else if is_name_node(cs[0]) {
        text_in(src, cs[0])
    } else {
        paren_name(src, cs.drop_first(), fuel)
    }
}

/// The text of the first identifier among `cs`.
pub open spec fn first_identifier_text(src: Seq<u8>, cs: Seq<SyntaxNode>) -> Option<Seq<char>> {
    match first_of_kind(cs, "identifier"@) {
        Some(c) => text_in(src, c),
        None => None,
    }
}

/// The name that the declarator `d` declares, following its `declarator`
/// fields down to `fuel` levels.
pub open spec fn declarator_name(src: Seq<u8>, d: SyntaxNode, fuel: nat) -> Option<Seq<char>>
    decreases fuel,
{
    if fuel == 0 {
        None
    } else {
        match child_by_field(d.children@, "declarator"@) {
            Some(inner) => if inner.kind@ == "identifier"@ {
                text_in(src, inner)
            } else {
                declarator_name(src, inner, (fuel - 1) as nat)
            },
            None => if d.kind@ == "identifier"@ {
                text_in(src, d)
            } else if d.kind@ == "parenthesized_declarator"@ {
                first_identifier_text(src, d.children@)
            } else {
                None
            },
        }
    }
}

/// The parameters among `cs`, the children of a parameter list.
pub open spec fn parameter_entries(src: Seq<u8>, cs: Seq<SyntaxNode>) -> Seq<ParamView>
    decreases cs.len(),
{
    if cs.len() == 0 {
        Seq::empty()
    } else {
        let c = cs.last();
        parameter_entries(src, cs.drop_last()) + if c.kind@ == "parameter_declaration"@ {
            seq![
                (
                    match child_by_field(c.children@, "declarator"@) {
                        Some(d) => declarator_name(src, d, declarator_fuel()),
                        None => None,
                    },
                    match child_by_field(c.children@, "type"@) {
                        Some(t) => text_in_or_empty(src, t),
                        None => Seq::empty(),
                    },
                ),
            ]
        } else {
            Seq::empty()
        }
    }
}

/// The virtual function of the field declaration `f`: from its first
/// function declarator, when that declares a name.
pub open spec fn vfunc_of_field(src: Seq<u8>, f: SyntaxNode) -> Option<VFuncView> {
    match first_of_kind(f.children@, "function_declarator"@) {
        Some(fd) => match child_by_field(fd.children@, "declarator"@) {
            Some(d) => match pointer_name(src, d, declarator_fuel()) {
                Some(name) => Some(
                    VFuncView {
                        name,
                        return_type: match child_by_field(f.children@, "type"@) {
                            Some(t) => text_in(src, t),
                            None => None,
                        },
                        parameters: match child_by_field(fd.children@, "parameters"@) {
                            Some(p) => parameter_entries(src, p.children@),
                            None => Seq::empty(),
                        },
                    },
                ),
                None => None,
            },
            None => None,
        },
        None => None,
    }
}

/// The virtual functions among `cs`, the children of a struct body.
pub open spec fn vfunc_entries(src: Seq<u8>, cs: Seq<SyntaxNode>) -> Seq<VFuncView>
    decreases cs.len(),
{
    if cs.len() == 0 {
        Seq::empty()
    } else {
        vfunc_entries(src, cs.drop_last()) + if cs.last().kind@ == "field_declaration"@ {
            match vfunc_of_field(src, cs.last()) {
                Some(v) => seq![v],
                None => Seq::empty(),
            }
        } else {
            Seq::empty()
        }
    }
}

/// `(struct name, type name)` when `n` is a struct specifier named
/// `_NameClass`.
pub open spec fn class_name_of(src: Seq<u8>, n: SyntaxNode) -> Option<(Seq<char>, Seq<char>)> {
    if n.kind@ != "struct_specifier"@ {
        None
    } else {
        match child_by_field(n.children@, "name"@) {
            Some(nm) => match text_at(src, nm) {
                Some(t) => if has_prefix(t, "_"@) && has_suffix(t, "Class"@) {
                    Some((t, t.subrange(1, t.len() - 5)))
                } else {
                    None
                },
                None => None,
            },
            None => None,
        }
    }
}

/// The first index of `gts` of a type called `name`, or `-1`.
pub open spec fn first_type_index(gts: Seq<GObjectType>, name: Seq<char>) -> int
    decreases gts.len(),
{
    if gts.len() == 0 {
        -1
    } else if first_type_index(gts.drop_last(), name) >= 0 {
        first_type_index(gts.drop_last(), name)
    } else if gts.last().gtype_name@ == name {
        gts.len() - 1
    } else {
        -1
    }
}

/// The class struct that node `n` gives the type at index `g` of `gts`.
pub open spec fn class_for(src: Seq<u8>, n: SyntaxNode, gts: Seq<GObjectType>, g: int) -> Option<(Seq<char>, Seq<VFuncView>)> {
    match (class_name_of(src, n), child_by_field(n.children@, "body"@)) {
        (Some((sn, tn)), Some(b)) => if first_type_index(gts, tn) == g {
            Some((sn, vfunc_entries(src, b.children@)))
        } else {
            None
        },
        _ => None,
    }
}

/// The class struct that the last of `ns` giving one gives the type at
/// index `g`.
pub open spec fn last_class_for(src: Seq<u8>, ns: Seq<SyntaxNode>, gts: Seq<GObjectType>, g: int) -> Option<(Seq<char>, Seq<VFuncView>)>
    decreases ns.len(),
{
    if ns.len() == 0 {
        None
    } else {
        match class_for(src, ns.last(), gts, g) {
            Some(c) => Some(c),
            None => last_class_for(src, ns.drop_last(), gts, g),
        }
    }
}

/// `after` is `before` with the class structs that the nodes `ns` give.
pub open spec fn classes_attached(src: Seq<u8>, ns: Seq<SyntaxNode>, before: Seq<GObjectType>, after: Seq<GObjectType>) -> bool {
    &&& after.len() == before.len()
    &&& forall|g: int|
        0 <= g < before.len() ==> {
            &&& (#[trigger] after[g]).gtype_name == before[g].gtype_name
            &&& after[g].type_macro == before[g].type_macro
            &&& after[g].kind == before[g].kind
            &&& after[g].line == before[g].line
            &&& match last_class_for(src, ns, before, g) {
                Some(c) => after[g].class_struct matches Some(cs) && class_view(cs) == c,
                None => after[g].class_struct == before[g].class_struct,
            }
        }
}

/// The text of node `n` of `src` (see `text_in`).
fn node_text_in(n: &SyntaxNode, src: &[u8]) -> (r: Option<String>)
    ensures
        opt_str(r) == text_in(src@, *n),
{
    if n.start_byte <= n.end_byte && n.end_byte <= src.len() {
        node_text_opt(n, src)
    } else {
        None
    }
}

/// The name that the pointer declarator `d` declares (see `pointer_name`).
fn pointer_name_of(d: &SyntaxNode, src: &[u8], fuel: usize) -> (r: Option<String>)
    ensures
        opt_str(r) == pointer_name(src@, *d, fuel as nat),
    decreases fuel, 1int, 0int,
{
    proof {
        reveal_strlit("declarator");
    }
    if fuel == 0 {
        return None;
    }
    if d.is_kind("parenthesized_declarator") {
        return paren_name_of(d, src, fuel - 1);
    }
    if d.is_kind("pointer_declarator") {
        return match d.child_by_field_name("declarator") {
            Some(inner) => {
                if inner.is_kind("identifier") || inner.is_kind("field_identifier") {
                    node_text_in(inner, src)
                } else {
                    pointer_name_of(inner, src, fuel - 1)
                }
            },
            None => None,
        };
    }
    if d.is_kind("identifier") || d.is_kind("field_identifier") {
        node_text_in(d, src)
    } else {
        None
    }
}

/// The name inside the parenthesized declarator `d` (see `paren_name`).
fn paren_name_of(d: &SyntaxNode, src: &[u8], fuel: usize) -> (r: Option<String>)
    ensures
        opt_str(r) == paren_name(src@, d.children@, fuel as nat),
    decreases fuel, 2int, 0int,
{
    let ghost cs = d.children@;
    let mut i: usize = 0;
    assert(cs.skip(0) =~= cs);
    while i < d.children.len()
        invariant
            i <= cs.len(),
            cs == d.children@,
            paren_name(src@, cs, fuel as nat) == paren_name(src@, cs.skip(i as int), fuel as nat),
        decreases cs.len() - i,
    {
        assert(cs.skip(i as int).drop_first() =~= cs.skip(i + 1));
        assert(cs.skip(i as int)[0] == cs[i as int]);
        let c = &d.children[i];
        if c.is_kind("pointer_declarator") {
            return pointer_name_of(c, src, fuel);
        }
        if c.is_kind("identifier") || c.is_kind("field_identifier") {
            return node_text_in(c, src);
        }
        i = i + 1;
    }
    None
}

/// The name that the declarator `d` declares (see `declarator_name`).
fn declarator_name_of(d: &SyntaxNode, src: &[u8], fuel: usize) -> (r: Option<String>)
    ensures
        opt_str(r) == declarator_name(src@, *d, fuel as nat),
    decreases fuel,
{
    proof {
        reveal_strlit("declarator");
        reveal_strlit("identifier");
    }
    if fuel == 0 {
        return None;
    }
    match d.child_by_field_name("declarator") {
        Some(inner) => {
            if inner.is_kind("identifier") {
                node_text_in(inner, src)
            } else {
                declarator_name_of(inner, src, fuel - 1)
            }
        },
        None => {
            if d.is_kind("identifier") {
                node_text_in(d, src)
            } else if d.is_kind("parenthesized_declarator") {
                match first_child_of(d, "identifier") {
                    Some(k) => {
                        node_text_in(&d.children[k], src)
                    },
                    None => None,
                }
            } else {
                None
            }
        },
    }
}

/// Where the first child of `n` of kind `kind` stands.
fn first_child_of(n: &SyntaxNode, kind: &str) -> (r: Option<usize>)
    ensures
        r matches Some(k) ==> k < n.children@.len() && first_of_kind(n.children@, kind@) == Some(n.children@[k as int]),
        r is None ==> first_of_kind(n.children@, kind@) is None,
{
    let ghost cs = n.children@;
    let mut i: usize = 0;
    assert(cs.skip(0) =~= cs);
    while i < n.children.len()
        invariant
            i <= cs.len(),
            cs == n.children@,
            first_of_kind(cs, kind@) == first_of_kind(cs.skip(i as int), kind@),
        decreases cs.len() - i,
    {
        assert(cs.skip(i as int).drop_first() =~= cs.skip(i + 1));
        assert(cs.skip(i as int)[0] == cs[i as int]);
        if n.children[i].is_kind(kind) {
            return Some(i);
        }
        i = i + 1;
    }
    None
}

/// The parameters of the parameter list `p` (see `parameter_entries`).
fn parameters_of(p: &SyntaxNode, src: &[u8]) -> (r: Vec<Parameter>)
    ensures
        param_views(r@) == parameter_entries(src@, p.children@),
{
    let ghost cs = p.children@;
    let mut out: Vec<Parameter> = Vec::new();
    let mut i: usize = 0;
    while i < p.children.len()
        invariant
            i <= cs.len(),
            cs == p.children@,
            param_views(out@) == parameter_entries(src@, cs.take(i as int)),
        decreases cs.len() - i,
    {
        proof {
            reveal_strlit("declarator");
            reveal_strlit("type");
        }
        let c = &p.children[i];
        assert(cs.take(i + 1).drop_last() =~= cs.take(i as int));
        assert(cs.take(i + 1).last() == *c);
        let ghost before = param_views(out@);
        if c.is_kind("parameter_declaration") {
            let name = match c.child_by_field_name("declarator") {
                Some(d) => declarator_name_of(d, src, usize::MAX),
                None => None,
            };
            let type_text = match c.child_by_field_name("type") {
                Some(t) => match node_text_in(t, src) {
                    Some(s) => s,
                    None => String::new(),
                },
                None => String::new(),
            };
            let param = Parameter { name, type_text };
            out.push(param);
            assert(param_views(out@) =~= before + seq![param_view(param)]);
        } else {
            assert(param_views(out@) =~= before + Seq::<ParamView>::empty());
        }
        i = i + 1;
    }
    assert(cs.take(cs.len() as int) =~= cs);
    out
}

/// The virtual function of the field declaration `f` (see
/// `vfunc_of_field`).
fn vfunc_of(f: &SyntaxNode, src: &[u8]) -> (r: Option<VirtualFunction>)
    ensures
        match r {
            Some(v) => vfunc_of_field(src@, *f) == Some(vfunc_view(v)),
            None => vfunc_of_field(src@, *f) is None,
        },
{
    proof {
        reveal_strlit("declarator");
        reveal_strlit("type");
        reveal_strlit("parameters");
    }
    let k = match first_child_of(f, "function_declarator") {
        Some(k) => k,
        None => return None,
    };
    let fd = &f.children[k];
    let d = match fd.child_by_field_name("declarator") {
        Some(d) => d,
        None => return None,
    };
    let name = match pointer_name_of(d, src, usize::MAX) {
        Some(n) => n,
        None => return None,
    };
    let return_type = match f.child_by_field_name("type") {
        Some(t) => node_text_in(t, src),
        None => None,
    };
    let parameters = match fd.child_by_field_name("parameters") {
        Some(p) => parameters_of(p, src),
        None => Vec::new(),
    };
    let v = VirtualFunction { name, return_type, parameters };
    assert(param_views(v.parameters@) =~= match child_by_field(fd.children@, "parameters"@) {
        Some(p) => parameter_entries(src@, p.children@),
        None => Seq::<ParamView>::empty(),
    });
    Some(v)
}

/// The virtual functions of the struct body `b` (see `vfunc_entries`).
fn vfuncs_of(b: &SyntaxNode, src: &[u8]) -> (r: Vec<VirtualFunction>)
    ensures
        vfunc_views(r@) == vfunc_entries(src@, b.children@),
{
    let ghost cs = b.children@;
    let mut out: Vec<VirtualFunction> = Vec::new();
    let mut i: usize = 0;
    while i < b.children.len()
        invariant
            i <= cs.len(),
            cs == b.children@,
            vfunc_views(out@) == vfunc_entries(src@, cs.take(i as int)),
        decreases cs.len() - i,
    {
        let c = &b.children[i];
        assert(cs.take(i + 1).drop_last() =~= cs.take(i as int));
        assert(cs.take(i + 1).last() == *c);
        let ghost before = vfunc_views(out@);
        let mut added = false;
        if c.is_kind("field_declaration") {
            match vfunc_of(c, src) {
                Some(v) => {
                    out.push(v);
                    added = true;
                    assert(vfunc_views(out@) =~= before + seq![vfunc_view(v)]);
                },
                None => {},
            }
        }
        if !added {
            assert(vfunc_views(out@) =~= before + Seq::<VFuncView>::empty());
        }
        i = i + 1;
    }
    assert(cs.take(cs.len() as int) =~= cs);
    out
}

/// The first index of `gts` of a type called `name`.
fn type_index(gts: &Vec<GObjectType>, name: &str) -> (r: Option<usize>)
    ensures
        match r {
            Some(k) => first_type_index(gts@, name@) == k,
            None => first_type_index(gts@, name@) == -1,
        },
{
    let ghost all = gts@;
    let mut i: usize = 0;
    assert(all.take(0) =~= Seq::<GObjectType>::empty());
    while i < gts.len()
        invariant
            i <= all.len(),
            all == gts@,
            first_type_index(all.take(i as int), name@) == -1,
        decreases all.len() - i,
    {
        assert(all.take(i + 1).drop_last() =~= all.take(i as int));
        assert(all.take(i + 1).last() == all[i as int]);
        if str_eq(gts[i].gtype_name.as_str(), name) {
            proof {
                lemma_first_type_index_stays(all, i as int + 1, name@);
            }
            return Some(i);
        }
        i = i + 1;
    }
    assert(all.take(all.len() as int) =~= all);
    None
}

proof fn lemma_first_type_index_stays(gts: Seq<GObjectType>, k: int, name: Seq<char>)
    requires
        0 <= k <= gts.len(),
        first_type_index(gts.take(k), name) >= 0,
    ensures
        first_type_index(gts, name) == first_type_index(gts.take(k), name),
    decreases gts.len() - k,
{
    if k < gts.len() {
        assert(gts.take(k + 1).drop_last() =~= gts.take(k));
        lemma_first_type_index_stays(gts, k + 1, name);
    } else {
        assert(gts.take(k) =~= gts);
    }
}

/// The class struct that the struct specifier `n` gives, with the index of
/// the type it belongs to (see `class_for`).
fn class_struct_of(n: &SyntaxNode, src: &[u8], gts: &Vec<GObjectType>, Ghost(len): Ghost<int>) -> (r: Option<(usize, ClassStruct)>)
    requires
        parse_ready(*n, len),
        len == src@.len(),
    ensures
        match r {
            Some((g, c)) => g < gts@.len() && class_for(src@, *n, gts@, g as int) == Some(class_view(c))
                && forall|h: int| 0 <= h && h != g ==> class_for(src@, *n, gts@, h) is None,
            None => forall|h: int| 0 <= h ==> class_for(src@, *n, gts@, h) is None,
        },
{
    proof {
        reveal_strlit("name");
        reveal_strlit("body");
        reveal_strlit("_");
        reveal_strlit("Class");
        lemma_fits_field_child(*n, "name"@, len, 1, 0);
        lemma_fits_field_child(*n, "body"@, len, 1, 0);
    }
    if !n.is_kind("struct_specifier") {
        return None;
    }
    let name_node = match n.child_by_field_name("name") {
        Some(m) => m,
        None => return None,
    };
    let name = match node_text_opt(name_node, src) {
        Some(t) => t,
        None => return None,
    };
    if !starts_with(name.as_str(), "_") || !ends_with(name.as_str(), "Class") {
        return None;
    }
    let chars = crate::text::chars_of(name.as_str());
    assert(chars@.len() >= 6) by {
        if chars@.len() < 6 {
            assert(chars@.subrange(chars@.len() - 5, chars@.len() as int)[0] == chars@[chars@.len() - 5]);
            assert(chars@.subrange(0, 1)[0] == chars@[0]);
        }
    }
    let middle = crate::text::slice_chars(&chars, 1, chars.len() - 5);
    let owner_name = string_from_chars(middle.as_slice());
    let body = match n.child_by_field_name("body") {
        Some(b) => b,
        None => return None,
    };
    let g = match type_index(gts, owner_name.as_str()) {
        Some(g) => g,
        None => return None,
    };
    proof {
        lemma_first_type_index_bounds(gts@, owner_name@);
    }
    let vfuncs = vfuncs_of(body, src);
    Some((g, ClassStruct { name, vfuncs }))
}

proof fn lemma_first_type_index_bounds(gts: Seq<GObjectType>, name: Seq<char>)
    ensures
        -1 <= first_type_index(gts, name) < gts.len(),
    decreases gts.len(),
{
    if gts.len() > 0 {
        lemma_first_type_index_bounds(gts.drop_last(), name);
    }
}

/// Types with the same names at the same places are found at the same
/// places.
proof fn lemma_first_type_index_names(a: Seq<GObjectType>, b: Seq<GObjectType>)
    requires
        a.len() == b.len(),
        forall|g: int| 0 <= g < a.len() ==> (#[trigger] a[g]).gtype_name == b[g].gtype_name,
    ensures
        forall|name: Seq<char>| #[trigger] first_type_index(a, name) == first_type_index(b, name),
        forall|src: Seq<u8>, n: SyntaxNode, h: int| #[trigger] class_for(src, n, a, h) == class_for(src, n, b, h),
    decreases a.len(),
{
    if a.len() > 0 {
        assert forall|g: int| 0 <= g < a.drop_last().len() implies (#[trigger] a.drop_last()[g]).gtype_name
            == b.drop_last()[g].gtype_name by {
            assert(a.drop_last()[g] == a[g]);
            assert(b.drop_last()[g] == b[g]);
        }
        lemma_first_type_index_names(a.drop_last(), b.drop_last());
        assert(a.last().gtype_name == b.last().gtype_name);
        assert forall|name: Seq<char>| #[trigger] first_type_index(a, name) == first_type_index(b, name) by {
            assert(first_type_index(a.drop_last(), name) == first_type_index(b.drop_last(), name));
        }
    }
    assert forall|src: Seq<u8>, n: SyntaxNode, h: int| #[trigger] class_for(src, n, a, h) == class_for(src, n, b, h) by {
        match class_name_of(src, n) {
            Some((sn, tn)) => {
                assert(first_type_index(a, tn) == first_type_index(b, tn));
            },
            None => {},
        }
    }
}

/// Gives the types of `gts` the class structs that the tree rooted at
/// `root` holds: each struct `_NameClass` with a body, in pre-order, becomes
/// the class struct of the first type called `Name` (a later one replaces
/// an earlier one).
pub fn attach_class_structs(root: &SyntaxNode, src: &[u8], gts: &mut Vec<GObjectType>)
    requires
        parse_ready(*root, src@.len() as int),
    ensures
        classes_attached(src@, preorder(*root), old(gts)@, final(gts)@),
{
    let ghost len = src@.len() as int;
    let ghost before = gts@;
    let all = root.preorder();
    let ghost ns = derefs(all@);
    let mut i: usize = 0;
    assert(ns.take(0) =~= Seq::<SyntaxNode>::empty());
    while i < all.len()
        invariant
            i <= all@.len(),
            ns == derefs(all@),
            ns == preorder(*root),
            parse_ready(*root, len),
            len == src@.len(),
            classes_attached(src@, ns.take(i as int), before, gts@),
        decreases all@.len() - i,
    {
        let n: &SyntaxNode = all[i];
        proof {
            assert(ns[i as int] == *n);
            lemma_fits_member(*root, *n, len, 1, 0);
        }
        assert(ns.take(i + 1).drop_last() =~= ns.take(i as int));
        assert(ns.take(i + 1).last() == *n);
        let ghost cur = gts@;
        proof {
            lemma_first_type_index_names(cur, before);
        }
        match class_struct_of(n, src, gts, Ghost(len)) {
            Some((g, c)) => {
                let ghost cv = class_view(c);
                let mut t = gts.remove(g);
                t.class_struct = Some(c);
                gts.insert(g, t);
                assert(gts@ =~= cur.update(g as int, t));
                assert(class_for(src@, *n, before, g as int) == Some(cv));
                assert forall|h: int| 0 <= h < before.len() && h != g implies class_for(src@, *n, before, h) is None by {
                    assert(class_for(src@, *n, cur, h) is None);
                }
            },
            None => {
                assert forall|h: int| 0 <= h < before.len() implies class_for(src@, *n, before, h) is None by {
                    assert(class_for(src@, *n, cur, h) is None);
                }
            },
        }
        i = i + 1;
    }
    assert(ns.take(ns.len() as int) =~= ns);
}

/// The virtual functions that the struct specifiers of the tree rooted at
/// `n` give, where each struct with a body replaces what came before and
/// is not looked into; `acc` is what came before.
pub open spec fn tree_vfuncs(src: Seq<u8>, n: SyntaxNode, acc: Seq<VFuncView>) -> Seq<VFuncView>
    decreases n, 1int,
{
    if n.kind@ == "struct_specifier"@ && child_by_field(n.children@, "body"@) is Some {
        vfunc_entries(src, (child_by_field(n.children@, "body"@)->0).children@)
    } else {
        tree_vfuncs_list(src, n.children@, 0, acc)
    }
}

/// `tree_vfuncs` over `cs[i..]`, one after the other.
pub open spec fn tree_vfuncs_list(src: Seq<u8>, cs: Seq<SyntaxNode>, i: int, acc: Seq<VFuncView>) -> Seq<VFuncView>
    decreases cs, 0int, cs.len() - i,
{
    if 0 <= i < cs.len() {
        tree_vfuncs_list(src, cs, i + 1, tree_vfuncs(src, cs[i], acc))
    } else {
        acc
    }
}

/// Where the bytes `p` first occur in `s` at or after `i`, or `-1`.
pub open spec fn first_bytes_at(s: Seq<u8>, p: Seq<u8>, i: int) -> int
    decreases s.len() - i,
{
    if i < 0 || i + p.len() > s.len() {
        -1
    } else if s.subrange(i, i + p.len()) == p {
        i
    } else {
        proof {
            if p.len() == 0 {
                assert(s.subrange(i, i) =~= p);
            }
        }
        first_bytes_at(s, p, i + 1)
    }
}

/// Where the first `{` stands at or after `i`, or `-1`.
pub open spec fn first_open_brace(s: Seq<u8>, i: int) -> int
    decreases s.len() - i,
{
    if i < 0 || i >= s.len() {
        -1
    } else if s[i] == 123u8 {
        i
    } else {
        first_open_brace(s, i + 1)
    }
}

/// Where the `}` stands that closes, `depth` levels up, what is open before
/// `i`, or `-1`.
pub open spec fn closing_brace(s: Seq<u8>, i: int, depth: nat) -> int
    decreases s.len() - i,
{
    if i < 0 || i >= s.len() || depth == 0 {
        -1
    } else if s[i] == 123u8 {
        closing_brace(s, i + 1, depth + 1)
    } else if s[i] == 125u8 {
        if depth == 1 {
            i
        } else {
            closing_brace(s, i + 1, (depth - 1) as nat)
        }
    } else {
        closing_brace(s, i + 1, depth)
    }
}

/// The text `struct _NameClass` for the type `name`.
pub open spec fn class_pattern(name: Seq<char>) -> Seq<char> {
    "struct _"@ + name + "Class"@
}

/// The byte range of the text of the class struct of `name` in `s`: from
/// the first `struct _NameClass` to the brace that closes the first `{`
/// after it; none when `s` is not UTF-8 or one of them is missing.
pub open spec fn class_text_range(s: Seq<u8>, name: Seq<char>) -> Option<(int, int)> {
    let k = first_bytes_at(s, encode_utf8(class_pattern(name)), 0);
    let q = first_open_brace(s, k);
    let e = closing_brace(s, q + 1, 1);
    if !valid_utf8(s) || k < 0 || q < 0 || e < 0 {
        None
    } else {
        Some((k, e + 1))
    }
}

/// `after` is `before` once the derivable types without a class struct are
/// given one from the text `s`: the struct's text (see `class_text_range`)
/// is parsed on its own and its virtual functions make the class struct
/// `_NameClass` (see `parsed_class_step`).
pub open spec fn text_classes_attached(s: Seq<u8>, before: Seq<GObjectType>, after: Seq<GObjectType>) -> bool {
    &&& after.len() == before.len()
    &&& forall|g: int| 0 <= g < before.len() ==> text_class_step(s, before[g], #[trigger] after[g])
}

/// One type before and after the class structs of the text are attached:
/// a derivable type without a class struct whose struct text stands in `s`
/// is given the class struct of some syntax tree of that text; any other
/// type stays as it is.
pub open spec fn text_class_step(s: Seq<u8>, before: GObjectType, after: GObjectType) -> bool {
    if before.kind is DeclareDerivable && before.class_struct is None && class_text_range(s, before.gtype_name@) is Some {
        let (a, b) = class_text_range(s, before.gtype_name@)->0;
        exists|t: SyntaxNode|
            t.field is None && #[trigger] parsed_class_step(before, s.subrange(a, b), Some(t), after)
    } else {
        &&& after.gtype_name == before.gtype_name
        &&& after.type_macro == before.type_macro
        &&& after.kind == before.kind
        &&& after.line == before.line
        &&& after.class_struct == before.class_struct
    }
}

/// `after` is `before` given the class struct `_NameClass` whose text `text`
/// was parsed into `tree`: its virtual functions are those of the tree (see
/// `tree_vfuncs`).  Without a tree the class struct stays as it was.  The
/// other fields never change.
pub open spec fn parsed_class_step(
    before: GObjectType,
    text: Seq<u8>,
    tree: Option<SyntaxNode>,
    after: GObjectType,
) -> bool {
    &&& after.gtype_name == before.gtype_name
    &&& after.type_macro == before.type_macro
    &&& after.kind == before.kind
    &&& after.line == before.line
    &&& match tree {
        Some(t) => after.class_struct matches Some(c) && c.name@ == "_"@ + before.gtype_name@ + "Class"@
            && vfunc_views(c.vfuncs@) == tree_vfuncs(text, t, Seq::empty()),
        None => after.class_struct == before.class_struct,
    }
}

/// `gt` given the class struct `_NameClass` whose text `text` was parsed into
/// `tree` (see `parsed_class_step`).
pub fn with_parsed_class_struct(gt: GObjectType, text: &[u8], tree: &Option<SyntaxNode>) -> (r: GObjectType)
    ensures
        parsed_class_step(gt, text@, *tree, r),
{
    match tree {
        Some(t) => {
            let name = concat3("_", gt.gtype_name.as_str(), "Class");
            proof {
                reveal_strlit("Class");
                reveal_strlit("_");
            }
            let empty: Vec<VirtualFunction> = Vec::new();
            assert(vfunc_views(empty@) =~= Seq::<VFuncView>::empty());
            let vfuncs = vfuncs_from_tree(t, text, empty);
            let mut out = gt;
            out.class_struct = Some(ClassStruct { name, vfuncs });
            out
        },
        None => gt,
    }
}

/// The virtual functions of the tree rooted at `n` (see `tree_vfuncs`).
fn vfuncs_from_tree(n: &SyntaxNode, src: &[u8], acc: Vec<VirtualFunction>) -> (r: Vec<VirtualFunction>)
    ensures
        vfunc_views(r@) == tree_vfuncs(src@, *n, vfunc_views(acc@)),
    decreases *n, 1int,
{
    proof {
        reveal_strlit("body");
    }
    if n.is_kind("struct_specifier") {
        match n.child_by_field_name("body") {
            Some(b) => return vfuncs_of(b, src),
            None => {},
        }
    }
    let ghost cs = n.children@;
    let mut cur = acc;
    let mut i: usize = 0;
    while i < n.children.len()
        invariant
            i <= cs.len(),
            cs == n.children@,
            !(n.kind@ == "struct_specifier"@ && child_by_field(n.children@, "body"@) is Some),
            tree_vfuncs_list(src@, cs, i as int, vfunc_views(cur@)) == tree_vfuncs(src@, *n, vfunc_views(acc@)),
        decreases cs.len() - i,
    {
        cur = vfuncs_from_tree(&n.children[i], src, cur);
        i = i + 1;
    }
    cur
}

/// Where the bytes `p` first occur in `s` (see `first_bytes_at`).
fn find_bytes(s: &[u8], p: &[u8]) -> (r: Option<usize>)
    ensures
        match r {
            Some(k) => first_bytes_at(s@, p@, 0) == k,
            None => first_bytes_at(s@, p@, 0) == -1,
        },
{
    let mut i: usize = 0;
    while i <= s.len()
        invariant
            first_bytes_at(s@, p@, 0) == first_bytes_at(s@, p@, i as int),
        decreases s@.len() + 1 - i,
    {
        if p.len() > s.len() - i {
            return None;
        }
        let mut j: usize = 0;
        let mut same = true;
        while j < p.len()
            invariant
                i + p@.len() <= s.len(),
                j <= p@.len(),
                same == (forall|m: int| 0 <= m < j ==> s@[i + m] == p@[m]),
            decreases p@.len() - j,
        {
            if s[i + j] != p[j] {
                same = false;
            }
            j = j + 1;
        }
        if same {
            assert(s@.subrange(i as int, i + p@.len()) =~= p@);
            return Some(i);
        }
        assert(s@.subrange(i as int, i + p@.len()) != p@) by {
            let m = choose|m: int| 0 <= m < p@.len() && s@[i + m] != p@[m];
            assert(s@.subrange(i as int, i + p@.len())[m] == s@[i + m]);
        }
        if p.len() == 0 {
            assert(s@.subrange(i as int, i as int) =~= p@);
        }
        i = i + 1;
    }
    None
}

/// Where the first `{` stands at or after `from` (see `first_open_brace`).
fn find_open_brace(s: &[u8], from: usize) -> (r: Option<usize>)
    ensures
        match r {
            Some(q) => first_open_brace(s@, from as int) == q,
            None => first_open_brace(s@, from as int) == -1,
        },
{
    let mut i = from;
    while i < s.len()
        invariant
            from <= i,
            first_open_brace(s@, from as int) == first_open_brace(s@, i as int),
        decreases s@.len() - i,
    {
        if s[i] == 123u8 {
            return Some(i);
        }
        i = i + 1;
    }
    None
}

/// Where the brace stands that closes the one opened just before `from`
/// (see `closing_brace`).
fn find_closing_brace(s: &[u8], from: usize) -> (r: Option<usize>)
    requires
        from >= 1,
    ensures
        match r {
            Some(e) => closing_brace(s@, from as int, 1) == e,
            None => closing_brace(s@, from as int, 1) == -1,
        },
{
    let mut depth: usize = 1;
    let mut i = from;
    while i < s.len()
        invariant
            1 <= from <= i,
            1 <= depth <= i - from + 1,
            closing_brace(s@, from as int, 1) == closing_brace(s@, i as int, depth as nat),
        decreases s@.len() - i,
    {
        if s[i] == 123u8 {
            depth = depth + 1;
        } else if s[i] == 125u8 {
            if depth == 1 {
                return Some(i);
            }
            depth = depth - 1;
        }
        i = i + 1;
    }
    None
}

/// Gives the derivable types of `gts` without a class struct the one whose
/// text `src` holds (see `text_classes_attached`).
pub fn attach_text_class_structs(src: &[u8], gts: &mut Vec<GObjectType>)
    ensures
        text_classes_attached(src@, old(gts)@, final(gts)@),
{
    let ghost before = gts@;
    let valid = crate::model::location::utf8_text(src).is_some();
    let mut g: usize = 0;
    while g < gts.len()
        invariant
            gts@.len() == before.len(),
            g <= before.len(),
            valid == valid_utf8(src@),
            forall|h: int|
                g <= h < before.len() ==> #[trigger] gts@[h] == before[h],
            forall|h: int| 0 <= h < g ==> text_class_step(src@, before[h], #[trigger] gts@[h]),
        decreases before.len() - g,
    {
        let ghost cur = gts@;
        let derivable = match &gts[g].kind {
            GObjectTypeKind::DeclareDerivable { .. } => true,
            _ => false,
        };
        if valid && derivable && gts[g].class_struct.is_none() {
            let pattern = concat3("struct _", gts[g].gtype_name.as_str(), "Class");
            let pbytes = pattern.as_str().as_bytes();
            proof {
                reveal_strlit("struct _");
                reveal_strlit("Class");
                assert(pattern@ =~= class_pattern(before[g as int].gtype_name@));
            }
            match find_bytes(src, pbytes) {
                Some(k) => match find_open_brace(src, k) {
                    Some(q) => {
                        proof {
                            lemma_open_in_range(src@, k as int);
                            assert(q < src.len());
                        }
                        match find_closing_brace(src, q + 1) {
                            Some(e) => {
                                proof {
                                    lemma_closing_in_range(src@, q as int + 1, 1);
                                    assert(e < src.len());
                                }
                                let text = vstd::slice::slice_subrange(src, k, e + 1);
                                let tree = crate::syntax::parse_c_source(text);
                                let t = gts.remove(g);
                                let attached = with_parsed_class_struct(t, text, &tree);
                                gts.insert(g, attached);
                                proof {
                                    assert(gts@ =~= cur.update(g as int, attached));
                                    assert(text@ =~= src@.subrange(k as int, e + 1));
                                    assert(pbytes@ == encode_utf8(class_pattern(before[g as int].gtype_name@)));
                                    assert(class_text_range(src@, before[g as int].gtype_name@) == Some((k as int, e + 1)));
                                    let tt = tree->0;
                                    assert(tt.field is None);
                                    assert(before[g as int].kind is DeclareDerivable);
                                    assert(before[g as int].class_struct is None);
                                    assert(parsed_class_step(before[g as int], src@.subrange(k as int, e + 1), Some(tt), gts@[g as int]));
                                    let (ra, rb) = class_text_range(src@, before[g as int].gtype_name@)->0;
                                    assert(ra == k && rb == e + 1);
                                    assert(exists|t: SyntaxNode|
                                        t.field is None && #[trigger] parsed_class_step(
                                            before[g as int],
                                            src@.subrange(ra, rb),
                                            Some(t),
                                            gts@[g as int],
                                        ));
                                    assert(text_class_step(src@, before[g as int], gts@[g as int]));
                                }
                            },
                            None => {},
                        }
                    },
                    None => {},
                },
                None => {},
            }
        }
        assert(text_class_step(src@, before[g as int], gts@[g as int]));
        g = g + 1;
    }
}

proof fn lemma_open_in_range(s: Seq<u8>, i: int)
    ensures
        first_open_brace(s, i) == -1 || (i <= first_open_brace(s, i) < s.len()),
    decreases s.len() - i,
{
    if 0 <= i < s.len() && s[i] != 123u8 {
        lemma_open_in_range(s, i + 1);
    }
}

proof fn lemma_closing_in_range(s: Seq<u8>, i: int, depth: nat)
    ensures
        closing_brace(s, i, depth) == -1 || (i <= closing_brace(s, i, depth) < s.len()),
    decreases s.len() - i,
{
    if 0 <= i < s.len() && depth > 0 {
        if s[i] == 123u8 {
            lemma_closing_in_range(s, i + 1, depth + 1);
        } else if s[i] == 125u8 {
            if depth != 1 {
                lemma_closing_in_range(s, i + 1, (depth - 1) as nat);
            }
        } else {
            lemma_closing_in_range(s, i + 1, depth);
        }
    }
}

} // verus!
