//! The types that a C file declares: its structs, typedefs and enums, as the
//! scan of its syntax tree finds them.
//!
//! The scan passes over the subtrees of `#define`s, function-like macro
//! definitions, macro calls and `#include`s, and over the bodies of function
//! definitions; it looks at every other node, parent before children.

use vstd::prelude::*;

use crate::model::expression::derefs;
use crate::model::project::{EnumInfo, EnumValue, GObjectType, GObjectTypeKind, StructInfo, TypedefInfo};
use crate::parse::{node_text_opt, parse_ready, text_at};
use crate::syntax::{child_by_field, lemma_fits_child, lemma_fits_field_child, lemma_fits_root, SyntaxNode};
use crate::text::{
    concat3, has_prefix, parse_i64, parse_i64_spec, starts_with, str_eq, str_to_uppercase, trim, trim_spec,
    unicode_upper_str,
};

verus! {

/// A struct as plain values: name, line, opaque (no body), number of fields.
pub type StructView = (Seq<char>, nat, bool, nat);

/// A typedef as plain values: name, line, the type it names.
pub type TypedefView = (Seq<char>, nat, Seq<char>);

/// An enumerator as plain values.
pub struct EnumValueView {
    pub name: Seq<char>,
    pub value: Option<i64>,
    pub start_byte: usize,
    pub end_byte: usize,
    pub name_start_byte: usize,
    pub name_end_byte: usize,
    pub value_start_byte: Option<usize>,
    pub value_end_byte: Option<usize>,
}

/// An enum as plain values.
pub struct EnumView {
    pub name: Seq<char>,
    pub line: nat,
    pub values: Seq<EnumValueView>,
    pub body_start_byte: usize,
    pub body_end_byte: usize,
}

pub open spec fn struct_views(s: Seq<StructInfo>) -> Seq<StructView> {
    s.map_values(|x: StructInfo| (x.name@, x.line as nat, x.is_opaque, x.fields@.len()))
}

pub open spec fn typedef_views(s: Seq<TypedefInfo>) -> Seq<TypedefView> {
    s.map_values(|x: TypedefInfo| (x.name@, x.line as nat, x.target_type@))
}

pub open spec fn enum_value_view(v: EnumValue) -> EnumValueView {
    EnumValueView {
        name: v.name@,
        value: v.value,
        start_byte: v.start_byte,
        end_byte: v.end_byte,
        name_start_byte: v.name_start_byte,
        name_end_byte: v.name_end_byte,
        value_start_byte: v.value_start_byte,
        value_end_byte: v.value_end_byte,
    }
}

pub open spec fn enum_value_views(s: Seq<EnumValue>) -> Seq<EnumValueView> {
    s.map_values(|v: EnumValue| enum_value_view(v))
}

pub open spec fn enum_view(e: EnumInfo) -> EnumView {
    EnumView {
        name: e.name@,
        line: e.line as nat,
        values: enum_value_views(e.values@),
        body_start_byte: e.body_start_byte,
        body_end_byte: e.body_end_byte,
    }
}

pub open spec fn enum_views(s: Seq<EnumInfo>) -> Seq<EnumView> {
    s.map_values(|e: EnumInfo| enum_view(e))
}

/// The directives whose subtrees the scan passes over.
pub open spec fn skipped_directive(k: Seq<char>) -> bool {
    k == "preproc_def"@ || k == "preproc_function_def"@ || k == "preproc_call"@ || k == "preproc_include"@
}

/// What the scan finds at and below `n`, whose parent is `parent`, with
/// `here` saying what a single node gives.
pub open spec fn decl_scan<T>(
    n: SyntaxNode,
    parent: Option<SyntaxNode>,
    here: spec_fn(Option<SyntaxNode>, SyntaxNode) -> Seq<T>,
) -> Seq<T>
    decreases n, 1int,
{
    if skipped_directive(n.kind@) {
        here(parent, n)
    } else {
        here(parent, n) + decl_scan_list(n.children@, 0, n.kind@ == "function_definition"@, n, here)
    }
}

/// What the scan finds in `cs[i..]`, children of `parent`, one after the
/// other; with `skip_bodies`, blocks are passed over.
pub open spec fn decl_scan_list<T>(
    cs: Seq<SyntaxNode>,
    i: int,
    skip_bodies: bool,
    parent: SyntaxNode,
    here: spec_fn(Option<SyntaxNode>, SyntaxNode) -> Seq<T>,
) -> Seq<T>
    decreases cs, 0int, cs.len() - i,
{
    if 0 <= i < cs.len() {
        (if skip_bodies && cs[i].kind@ == "compound_statement"@ {
            Seq::empty()
        } else {
            decl_scan(cs[i], Some(parent), here)
        }) + decl_scan_list(cs, i + 1, skip_bodies, parent, here)
    } else {
        Seq::empty()
    }
}

/// The struct that the struct specifier `sp` names, if it has a name.
pub open spec fn struct_entry(src: Seq<u8>, sp: SyntaxNode) -> Seq<StructView> {
    match child_by_field(sp.children@, "name"@) {
        Some(nm) => match text_at(src, nm) {
            Some(t) => seq![(t, (sp.start_row + 1) as nat, child_by_field(sp.children@, "body"@) is None, 0nat)],
            None => Seq::empty(),
        },
        None => Seq::empty(),
    }
}

/// The struct of the first named struct specifier among `cs`.
pub open spec fn first_struct_entry(src: Seq<u8>, cs: Seq<SyntaxNode>) -> Seq<StructView>
    decreases cs.len(),
{
    if cs.len() == 0 {
        Seq::empty()
    } else if cs[0].kind@ == "struct_specifier"@ && child_by_field(cs[0].children@, "name"@) is Some {
        struct_entry(src, cs[0])
    } else {
        first_struct_entry(src, cs.drop_first())
    }
}

/// The structs that node `n` gives: a named struct specifier, and the first
/// named struct specifier of a declaration or expression statement.
pub open spec fn structs_here(src: Seq<u8>, n: SyntaxNode) -> Seq<StructView> {
    if n.kind@ == "struct_specifier"@ {
        struct_entry(src, n)
    } else if n.kind@ == "declaration"@ || n.kind@ == "expression_statement"@ {
        first_struct_entry(src, n.children@)
    } else {
        Seq::empty()
    }
}

/// The typedef that node `n` gives, if it is a type definition.
pub open spec fn typedefs_here(src: Seq<u8>, n: SyntaxNode) -> Seq<TypedefView> {
    if n.kind@ != "type_definition"@ {
        Seq::empty()
    } else {
        match (child_by_field(n.children@, "declarator"@), child_by_field(n.children@, "type"@)) {
            (Some(d), Some(t)) => match (text_at(src, d), text_at(src, t)) {
                (Some(dt), Some(tt)) => seq![(dt, (n.start_row + 1) as nat, tt)],
                _ => Seq::empty(),
            },
            _ => Seq::empty(),
        }
    }
}

/// The text of `n`, or nothing when it is not UTF-8.
pub open spec fn text_or_empty(src: Seq<u8>, n: SyntaxNode) -> Seq<char> {
    match text_at(src, n) {
        Some(t) => t,
        None => Seq::empty(),
    }
}

/// The enumerator `c`, if it is one with a name.
pub open spec fn enumerator_entry(src: Seq<u8>, c: SyntaxNode) -> Seq<EnumValueView> {
    if c.kind@ != "enumerator"@ {
        Seq::empty()
    } else {
        match child_by_field(c.children@, "name"@) {
            Some(nm) => seq![
                EnumValueView {
                    name: text_or_empty(src, nm),
                    value: match child_by_field(c.children@, "value"@) {
                        Some(v) => parse_i64_spec(trim_spec(text_or_empty(src, v))),
                        None => None,
                    },
                    start_byte: c.start_byte,
                    end_byte: c.end_byte,
                    name_start_byte: nm.start_byte,
                    name_end_byte: nm.end_byte,
                    value_start_byte: match child_by_field(c.children@, "value"@) {
                        Some(v) => Some(v.start_byte),
                        None => None,
                    },
                    value_end_byte: match child_by_field(c.children@, "value"@) {
                        Some(v) => Some(v.end_byte),
                        None => None,
                    },
                },
            ],
            None => Seq::empty(),
        }
    }
}

/// The enumerators among `cs`, in order.
pub open spec fn enumerator_entries(src: Seq<u8>, cs: Seq<SyntaxNode>) -> Seq<EnumValueView>
    decreases cs.len(),
{
    if cs.len() == 0 {
        Seq::empty()
    } else {
        enumerator_entries(src, cs.drop_last()) + enumerator_entry(src, cs.last())
    }
}

/// The enum called `name` with body `b`, on the line of `at`.
pub open spec fn enum_entry(src: Seq<u8>, name: Seq<char>, at: SyntaxNode, b: SyntaxNode) -> EnumView {
    EnumView {
        name,
        line: (at.start_row + 1) as nat,
        values: enumerator_entries(src, b.children@),
        body_start_byte: b.start_byte,
        body_end_byte: b.end_byte,
    }
}

/// The outcome of `typedef enum { ... } Name;` at `n`: `Some` when decided
/// (an enum, or nothing when the name is not UTF-8), `None` when the other
/// forms are to be looked at.
pub open spec fn typedef_enum(src: Seq<u8>, n: SyntaxNode) -> Option<Option<EnumView>> {
    if n.kind@ != "type_definition"@ {
        None
    } else {
        match child_by_field(n.children@, "type"@) {
            Some(t) => if t.kind@ != "enum_specifier"@ {
                None
            } else {
                match child_by_field(n.children@, "declarator"@) {
                    Some(d) => match text_at(src, d) {
                        None => Some(None),
                        Some(name) => match child_by_field(t.children@, "body"@) {
                            Some(b) => Some(Some(enum_entry(src, name, n, b))),
                            None => None,
                        },
                    },
                    None => None,
                }
            },
            None => None,
        }
    }
}

/// The enum of the first named enum specifier with a body among `cs`;
/// nothing when a name met on the way is not UTF-8.
pub open spec fn first_enum_child(src: Seq<u8>, cs: Seq<SyntaxNode>) -> Option<EnumView>
    decreases cs.len(),
{
    if cs.len() == 0 {
        None
    } else if cs[0].kind@ == "enum_specifier"@ && child_by_field(cs[0].children@, "name"@) is Some {
        match text_at(src, child_by_field(cs[0].children@, "name"@)->0) {
            None => None,
            Some(name) => match child_by_field(cs[0].children@, "body"@) {
                Some(b) => Some(enum_entry(src, name, cs[0], b)),
                None => first_enum_child(src, cs.drop_first()),
            },
        }
    } else {
        first_enum_child(src, cs.drop_first())
    }
}

/// The enum that node `n` gives: a `typedef enum`, or a named enum among
/// the children of a type definition, declaration or expression statement.
pub open spec fn enums_here(src: Seq<u8>, n: SyntaxNode) -> Seq<EnumView> {
    if n.kind@ != "type_definition"@ && n.kind@ != "declaration"@ && n.kind@ != "expression_statement"@ {
        Seq::empty()
    } else {
        match (match typedef_enum(src, n) {
            Some(decided) => decided,
            None => first_enum_child(src, n.children@),
        }) {
            Some(e) => seq![e],
            None => Seq::empty(),
        }
    }
}

/// A GObject type macro's kind and arguments as plain values.
pub enum GTypeKindView {
    DeclareFinal { function_prefix: Seq<char>, module_prefix: Seq<char>, type_prefix: Seq<char>, parent_type: Seq<char> },
    DeclareDerivable { function_prefix: Seq<char>, module_prefix: Seq<char>, type_prefix: Seq<char>, parent_type: Seq<char> },
    DeclareInterface {
        function_prefix: Seq<char>,
        module_prefix: Seq<char>,
        type_prefix: Seq<char>,
        prerequisite_type: Seq<char>,
    },
    DefineType { function_prefix: Seq<char>, parent_type: Seq<char> },
    DefineTypeWithPrivate { function_prefix: Seq<char>, parent_type: Seq<char> },
    DefineAbstractType { function_prefix: Seq<char>, parent_type: Seq<char> },
}

/// A GObject type as plain values.
pub struct GTypeView {
    pub name: Seq<char>,
    pub type_macro: Seq<char>,
    pub kind: GTypeKindView,
    pub has_class_struct: bool,
    pub line: nat,
}

pub open spec fn kind_view(k: GObjectTypeKind) -> GTypeKindView {
    match k {
        GObjectTypeKind::DeclareFinal { function_prefix, module_prefix, type_prefix, parent_type } => GTypeKindView::DeclareFinal {
            function_prefix: function_prefix@,
            module_prefix: module_prefix@,
            type_prefix: type_prefix@,
            parent_type: parent_type@,
        },
        GObjectTypeKind::DeclareDerivable { function_prefix, module_prefix, type_prefix, parent_type } => GTypeKindView::DeclareDerivable {
            function_prefix: function_prefix@,
            module_prefix: module_prefix@,
            type_prefix: type_prefix@,
            parent_type: parent_type@,
        },
        GObjectTypeKind::DeclareInterface { function_prefix, module_prefix, type_prefix, prerequisite_type } => GTypeKindView::DeclareInterface {
            function_prefix: function_prefix@,
            module_prefix: module_prefix@,
            type_prefix: type_prefix@,
            prerequisite_type: prerequisite_type@,
        },
        GObjectTypeKind::DefineType { function_prefix, parent_type } => GTypeKindView::DefineType {
            function_prefix: function_prefix@,
            parent_type: parent_type@,
        },
        GObjectTypeKind::DefineTypeWithPrivate { function_prefix, parent_type } => GTypeKindView::DefineTypeWithPrivate {
            function_prefix: function_prefix@,
            parent_type: parent_type@,
        },
        GObjectTypeKind::DefineAbstractType { function_prefix, parent_type } => GTypeKindView::DefineAbstractType {
            function_prefix: function_prefix@,
            parent_type: parent_type@,
        },
    }
}

pub open spec fn gtype_view(g: GObjectType) -> GTypeView {
    GTypeView {
        name: g.gtype_name@,
        type_macro: g.type_macro@,
        kind: kind_view(g.kind),
        has_class_struct: g.class_struct is Some,
        line: g.line as nat,
    }
}

pub open spec fn gtype_views(s: Seq<GObjectType>) -> Seq<GTypeView> {
    s.map_values(|g: GObjectType| gtype_view(g))
}

pub open spec fn string_views(s: Seq<String>) -> Seq<Seq<char>> {
    s.map_values(|x: String| x@)
}

/// The type that the GObject macro `m` declares or defines with the
/// arguments `args`, on `line`: the `G_DECLARE_*` macros take five (type,
/// function prefix, module prefix, type prefix, parent or prerequisite), the
/// `G_DEFINE_*` macros three (type, function prefix, parent).
pub open spec fn gobject_from_args(m: Seq<char>, args: Seq<Seq<char>>, line: nat) -> Option<GTypeView> {
    if has_prefix(m, "G_DECLARE_"@) && args.len() >= 5 {
        let tm = args[2] + "_TYPE_"@ + args[3];
        let kind = if m == "G_DECLARE_FINAL_TYPE"@ {
            Some(GTypeKindView::DeclareFinal { function_prefix: args[1], module_prefix: args[2], type_prefix: args[3], parent_type: args[4] })
        } else if m == "G_DECLARE_DERIVABLE_TYPE"@ {
            Some(GTypeKindView::DeclareDerivable { function_prefix: args[1], module_prefix: args[2], type_prefix: args[3], parent_type: args[4] })
        } else if m == "G_DECLARE_INTERFACE"@ {
            Some(GTypeKindView::DeclareInterface { function_prefix: args[1], module_prefix: args[2], type_prefix: args[3], prerequisite_type: args[4] })
        } else {
            None
        };
        match kind {
            Some(k) => Some(GTypeView { name: args[0], type_macro: tm, kind: k, has_class_struct: false, line }),
            None => None,
        }
    } else if has_prefix(m, "G_DEFINE_"@) && args.len() >= 3 {
        let tm = "TYPE_"@ + unicode_upper_str(args[0]);
        let kind = if m == "G_DEFINE_TYPE"@ {
            Some(GTypeKindView::DefineType { function_prefix: args[1], parent_type: args[2] })
        } else if m == "G_DEFINE_TYPE_WITH_PRIVATE"@ {
            Some(GTypeKindView::DefineTypeWithPrivate { function_prefix: args[1], parent_type: args[2] })
        } else if m == "G_DEFINE_ABSTRACT_TYPE"@ {
            Some(GTypeKindView::DefineAbstractType { function_prefix: args[1], parent_type: args[2] })
        } else {
            None
        };
        match kind {
            Some(k) => Some(GTypeView { name: args[0], type_macro: tm, kind: k, has_class_struct: false, line }),
            None => None,
        }
    } else {
        None
    }
}

/// `n` is an identifier or a type identifier.
pub open spec fn is_identifier_kind(n: SyntaxNode) -> bool {
    n.kind@ == "identifier"@ || n.kind@ == "type_identifier"@
}

/// The texts of the identifiers among `ns` that are UTF-8, in order.
pub open spec fn ident_texts(src: Seq<u8>, ns: Seq<SyntaxNode>) -> Seq<Seq<char>>
    decreases ns.len(),
{
    if ns.len() == 0 {
        Seq::empty()
    } else {
        ident_texts(src, ns.drop_last()) + if is_identifier_kind(ns.last()) && text_at(src, ns.last()) is Some {
            seq![text_at(src, ns.last())->0]
        } else {
            Seq::empty()
        }
    }
}

/// `names` without `m`.
pub open spec fn without(names: Seq<Seq<char>>, m: Seq<char>) -> Seq<Seq<char>>
    decreases names.len(),
{
    if names.len() == 0 {
        Seq::empty()
    } else {
        without(names.drop_last(), m) + if names.last() == m {
            Seq::empty()
        } else {
            seq![names.last()]
        }
    }
}

/// The texts of the identifiers among `cs`; nothing when one is not UTF-8.
pub open spec fn direct_ident_texts(src: Seq<u8>, cs: Seq<SyntaxNode>) -> Option<Seq<Seq<char>>>
    decreases cs.len(),
{
    if cs.len() == 0 {
        Some(Seq::empty())
    } else {
        match direct_ident_texts(src, cs.drop_last()) {
            None => None,
            Some(prev) => if is_identifier_kind(cs.last()) {
                match text_at(src, cs.last()) {
                    Some(t) => Some(prev.push(t)),
                    None => None,
                }
            } else {
                Some(prev)
            },
        }
    }
}

/// The names of the GObject type macros.
pub open spec fn gobject_macro_names() -> Seq<Seq<char>> {
    seq![
        "G_DECLARE_FINAL_TYPE"@,
        "G_DECLARE_DERIVABLE_TYPE"@,
        "G_DECLARE_INTERFACE"@,
        "G_DEFINE_TYPE"@,
        "G_DEFINE_TYPE_WITH_PRIVATE"@,
        "G_DEFINE_ABSTRACT_TYPE"@,
    ]
}

pub open spec fn opt_seq<T>(o: Option<T>) -> Seq<T> {
    match o {
        Some(x) => seq![x],
        None => Seq::empty(),
    }
}

/// The GObject type that node `n` (a child of `parent`) gives: a macro call
/// directive with identifier arguments, or an identifier starting with
/// `G_DECLARE_` or `G_DEFINE_`, whose arguments are the other identifiers
/// under its parent.
pub open spec fn gobject_here(src: Seq<u8>, parent: Option<SyntaxNode>, n: SyntaxNode) -> Seq<GTypeView> {
    if n.kind@ == "preproc_call"@ {
        match child_by_field(n.children@, "directive"@) {
            Some(d) => match text_at(src, d) {
                Some(t) => if gobject_macro_names().contains(t) {
                    match child_by_field(n.children@, "arguments"@) {
                        Some(a) => match direct_ident_texts(src, a.children@) {
                            Some(args) => opt_seq(gobject_from_args(t, args, (n.start_row + 1) as nat)),
                            None => Seq::empty(),
                        },
                        None => Seq::empty(),
                    }
                } else {
                    Seq::empty()
                },
                None => Seq::empty(),
            },
            None => Seq::empty(),
        }
    } else if n.kind@ == "identifier"@ {
        match (text_at(src, n), parent) {
            (Some(t), Some(p)) => if has_prefix(t, "G_DECLARE_"@) || has_prefix(t, "G_DEFINE_"@) {
                opt_seq(gobject_from_args(t, without(ident_texts(src, crate::syntax::preorder(p)), t), (p.start_row + 1) as nat))
            } else {
                Seq::empty()
            },
            _ => Seq::empty(),
        }
    } else {
        Seq::empty()
    }
}

/// What a node gives to each of the lists: nothing in a directive the scan
/// passes over or at a function definition.
pub open spec fn struct_finder(src: Seq<u8>) -> spec_fn(Option<SyntaxNode>, SyntaxNode) -> Seq<StructView> {
    |p: Option<SyntaxNode>, n: SyntaxNode| structs_here(src, n)
}

pub open spec fn typedef_finder(src: Seq<u8>) -> spec_fn(Option<SyntaxNode>, SyntaxNode) -> Seq<TypedefView> {
    |p: Option<SyntaxNode>, n: SyntaxNode| typedefs_here(src, n)
}

pub open spec fn enum_finder(src: Seq<u8>) -> spec_fn(Option<SyntaxNode>, SyntaxNode) -> Seq<EnumView> {
    |p: Option<SyntaxNode>, n: SyntaxNode| enums_here(src, n)
}

pub open spec fn gobject_finder(src: Seq<u8>) -> spec_fn(Option<SyntaxNode>, SyntaxNode) -> Seq<GTypeView> {
    |p: Option<SyntaxNode>, n: SyntaxNode| gobject_here(src, p, n)
}

/// The field child `name` of `n` with its text, when it has one.
fn field_text<'a>(n: &'a SyntaxNode, name: &str, src: &[u8], Ghost(len): Ghost<int>) -> (r: Option<(&'a SyntaxNode, Option<String>)>)
    requires
        parse_ready(*n, len),
        len == src@.len(),
    ensures
        r matches Some((c, t)) ==> child_by_field(n.children@, name@) == Some(*c) && parse_ready(*c, len)
            && (t matches Some(s) ==> text_at(src@, *c) == Some(s@)) && (t is None ==> text_at(src@, *c) is None),
        r is None ==> child_by_field(n.children@, name@) is None,
{
    proof {
        lemma_fits_field_child(*n, name@, len, 1, 0);
    }
    match n.child_by_field_name(name) {
        Some(c) => Some((c, node_text_opt(c, src))),
        None => None,
    }
}

/// The struct that the struct specifier `sp` names (see `struct_entry`).
fn struct_of(sp: &SyntaxNode, src: &[u8], Ghost(len): Ghost<int>) -> (r: Option<StructInfo>)
    requires
        parse_ready(*sp, len),
        len == src@.len(),
    ensures
        match r {
            Some(s) => struct_entry(src@, *sp) == seq![(s.name@, s.line as nat, s.is_opaque, s.fields@.len())],
            None => struct_entry(src@, *sp) == Seq::<StructView>::empty(),
        },
{
    proof {
        reveal_strlit("name");
        reveal_strlit("body");
        lemma_fits_root(*sp, len, 1, 0);
    }
    match field_text(sp, "name", src, Ghost(len)) {
        Some((_, Some(t))) => {
            let opaque = sp.child_by_field_name("body").is_none();
            Some(StructInfo { name: t, line: sp.start_row + 1, fields: Vec::new(), is_opaque: opaque })
        },
        _ => None,
    }
}

/// The struct of the first named struct specifier among the children of `n`.
fn first_struct_of(n: &SyntaxNode, src: &[u8], Ghost(len): Ghost<int>) -> (r: Option<StructInfo>)
    requires
        parse_ready(*n, len),
        len == src@.len(),
    ensures
        match r {
            Some(s) => first_struct_entry(src@, n.children@) == seq![(s.name@, s.line as nat, s.is_opaque, s.fields@.len())],
            None => first_struct_entry(src@, n.children@) == Seq::<StructView>::empty(),
        },
{
    let ghost cs = n.children@;
    let mut i: usize = 0;
    assert(cs.skip(0) =~= cs);
    while i < n.children.len()
        invariant
            i <= cs.len(),
            cs == n.children@,
            parse_ready(*n, len),
            len == src@.len(),
            first_struct_entry(src@, cs) == first_struct_entry(src@, cs.skip(i as int)),
        decreases cs.len() - i,
    {
        assert(cs.skip(i as int).drop_first() =~= cs.skip(i + 1));
        assert(cs.skip(i as int)[0] == cs[i as int]);
        let c = &n.children[i];
        proof {
            reveal_strlit("name");
            lemma_fits_child(*n, i as int, len, 1, 0);
            lemma_fits_field_child(*c, "name"@, len, 1, 0);
        }
        if c.is_kind("struct_specifier") && c.child_by_field_name("name").is_some() {
            return struct_of(c, src, Ghost(len));
        }
        i = i + 1;
    }
    None
}

/// The typedef that `n` gives (see `typedefs_here`).
fn typedef_of(n: &SyntaxNode, src: &[u8], Ghost(len): Ghost<int>) -> (r: Option<TypedefInfo>)
    requires
        parse_ready(*n, len),
        len == src@.len(),
    ensures
        match r {
            Some(t) => typedefs_here(src@, *n) == seq![(t.name@, t.line as nat, t.target_type@)],
            None => typedefs_here(src@, *n) == Seq::<TypedefView>::empty(),
        },
{
    proof {
        reveal_strlit("declarator");
        reveal_strlit("type");
        lemma_fits_root(*n, len, 1, 0);
    }
    if !n.is_kind("type_definition") {
        return None;
    }
    match (field_text(n, "declarator", src, Ghost(len)), field_text(n, "type", src, Ghost(len))) {
        (Some((_, Some(d))), Some((_, Some(t)))) => Some(TypedefInfo { name: d, line: n.start_row + 1, target_type: t }),
        _ => None,
    }
}

/// The enumerator `c`, if it is one with a name (see `enumerator_entry`).
fn enumerator_of(c: &SyntaxNode, src: &[u8], Ghost(len): Ghost<int>) -> (r: Option<EnumValue>)
    requires
        parse_ready(*c, len),
        len == src@.len(),
    ensures
        match r {
            Some(v) => enumerator_entry(src@, *c) == seq![enum_value_view(v)],
            None => enumerator_entry(src@, *c) == Seq::<EnumValueView>::empty(),
        },
{
    proof {
        reveal_strlit("name");
        reveal_strlit("value");
        lemma_fits_root(*c, len, 1, 0);
    }
    if !c.is_kind("enumerator") {
        return None;
    }
    let (nm, name_text) = match field_text(c, "name", src, Ghost(len)) {
        Some(p) => p,
        None => return None,
    };
    let name = match name_text {
        Some(t) => t,
        None => String::new(),
    };
    let (value, value_start, value_end) = match field_text(c, "value", src, Ghost(len)) {
        Some((v, t)) => {
            let text = match t {
                Some(t) => t,
                None => String::new(),
            };
            let trimmed = trim(text.as_str());
            (parse_i64(trimmed.as_str()), Some(v.start_byte), Some(v.end_byte))
        },
        None => (None, None, None),
    };
    let ev = EnumValue {
        name,
        value,
        start_byte: c.start_byte,
        end_byte: c.end_byte,
        name_start_byte: nm.start_byte,
        name_end_byte: nm.end_byte,
        value_start_byte: value_start,
        value_end_byte: value_end,
    };
    Some(ev)
}

/// The enum called `name` with body `b`, on the line of `at`.
fn enum_with_body(name: String, at: &SyntaxNode, b: &SyntaxNode, src: &[u8], Ghost(len): Ghost<int>) -> (r: EnumInfo)
    requires
        parse_ready(*at, len),
        parse_ready(*b, len),
        len == src@.len(),
    ensures
        enum_view(r) == enum_entry(src@, name@, *at, *b),
{
    proof {
        lemma_fits_root(*at, len, 1, 0);
    }
    let ghost cs = b.children@;
    let mut values: Vec<EnumValue> = Vec::new();
    let mut i: usize = 0;
    while i < b.children.len()
        invariant
            i <= cs.len(),
            cs == b.children@,
            parse_ready(*b, len),
            len == src@.len(),
            enum_value_views(values@) == enumerator_entries(src@, cs.take(i as int)),
        decreases cs.len() - i,
    {
        proof {
            lemma_fits_child(*b, i as int, len, 1, 0);
        }
        let c = &b.children[i];
        assert(cs.take(i + 1).drop_last() =~= cs.take(i as int));
        assert(cs.take(i + 1).last() == *c);
        let ghost before = enum_value_views(values@);
        match enumerator_of(c, src, Ghost(len)) {
            Some(v) => {
                values.push(v);
                assert(enum_value_views(values@) =~= before + seq![enum_value_view(v)]);
            },
            None => {
                assert(enum_value_views(values@) =~= before + Seq::<EnumValueView>::empty());
            },
        }
        i = i + 1;
    }
    assert(cs.take(cs.len() as int) =~= cs);
    EnumInfo {
        name,
        line: at.start_row + 1,
        values,
        body_start_byte: b.start_byte,
        body_end_byte: b.end_byte,
    }
}

/// The enum of the first named enum specifier with a body among the
/// children of `n` (see `first_enum_child`).
fn first_enum_of(n: &SyntaxNode, src: &[u8], Ghost(len): Ghost<int>) -> (r: Option<EnumInfo>)
    requires
        parse_ready(*n, len),
        len == src@.len(),
    ensures
        match r {
            Some(e) => first_enum_child(src@, n.children@) == Some(enum_view(e)),
            None => first_enum_child(src@, n.children@) is None,
        },
{
    let ghost cs = n.children@;
    let mut i: usize = 0;
    assert(cs.skip(0) =~= cs);
    while i < n.children.len()
        invariant
            i <= cs.len(),
            cs == n.children@,
            parse_ready(*n, len),
            len == src@.len(),
            first_enum_child(src@, cs) == first_enum_child(src@, cs.skip(i as int)),
        decreases cs.len() - i,
    {
        assert(cs.skip(i as int).drop_first() =~= cs.skip(i + 1));
        assert(cs.skip(i as int)[0] == cs[i as int]);
        let c = &n.children[i];
        proof {
            reveal_strlit("name");
            reveal_strlit("body");
            lemma_fits_child(*n, i as int, len, 1, 0);
            lemma_fits_field_child(*c, "body"@, len, 1, 0);
        }
        if c.is_kind("enum_specifier") {
            match field_text(c, "name", src, Ghost(len)) {
                Some((_, None)) => return None,
                Some((_, Some(name))) => match c.child_by_field_name("body") {
                    Some(b) => return Some(enum_with_body(name, c, b, src, Ghost(len))),
                    None => {},
                },
                None => {},
            }
        }
        i = i + 1;
    }
    None
}

/// The enum that `n` gives (see `enums_here`).
fn enum_of(n: &SyntaxNode, src: &[u8], Ghost(len): Ghost<int>) -> (r: Option<EnumInfo>)
    requires
        parse_ready(*n, len),
        len == src@.len(),
    ensures
        match r {
            Some(e) => enums_here(src@, *n) == seq![enum_view(e)],
            None => enums_here(src@, *n) == Seq::<EnumView>::empty(),
        },
{
    proof {
        reveal_strlit("type");
        reveal_strlit("declarator");
        reveal_strlit("body");
    }
    if !n.is_kind("type_definition") && !n.is_kind("declaration") && !n.is_kind("expression_statement") {
        return None;
    }
    if n.is_kind("type_definition") {
        match field_text(n, "type", src, Ghost(len)) {
            Some((t, _)) => {
                if t.is_kind("enum_specifier") {
                    match field_text(n, "declarator", src, Ghost(len)) {
                        Some((_, None)) => return None,
                        Some((_, Some(name))) => {
                            proof {
                                lemma_fits_field_child(*t, "body"@, len, 1, 0);
                            }
                            match t.child_by_field_name("body") {
                                Some(b) => return Some(enum_with_body(name, n, b, src, Ghost(len))),
                                None => {},
                            }
                        },
                        None => {},
                    }
                }
            },
            None => {},
        }
    }
    first_enum_of(n, src, Ghost(len))
}

/// The type that the GObject macro `m` gives with `args` on `line` (see
/// `gobject_from_args`).
fn gtype_from_args(m: &str, args: &Vec<String>, line: usize) -> (r: Option<GObjectType>)
    ensures
        opt_seq(r).map_values(|g: GObjectType| gtype_view(g)) == opt_seq(
            gobject_from_args(m@, string_views(args@), line as nat),
        ),
{
    let ghost av = string_views(args@);
    proof {
        reveal_strlit("G_DECLARE_");
        reveal_strlit("G_DEFINE_");
    }
    if starts_with(m, "G_DECLARE_") && args.len() >= 5 {
        assert(av[0] == args@[0]@ && av[1] == args@[1]@ && av[2] == args@[2]@ && av[3] == args@[3]@ && av[4] == args@[4]@);
        let tm = concat3(args[2].as_str(), "_TYPE_", args[3].as_str());
        let fp = args[1].clone();
        let mp = args[2].clone();
        let tp = args[3].clone();
        let pt = args[4].clone();
        let kind = if str_eq(m, "G_DECLARE_FINAL_TYPE") {
            GObjectTypeKind::DeclareFinal { function_prefix: fp, module_prefix: mp, type_prefix: tp, parent_type: pt }
        } else if str_eq(m, "G_DECLARE_DERIVABLE_TYPE") {
            GObjectTypeKind::DeclareDerivable { function_prefix: fp, module_prefix: mp, type_prefix: tp, parent_type: pt }
        } else if str_eq(m, "G_DECLARE_INTERFACE") {
            GObjectTypeKind::DeclareInterface { function_prefix: fp, module_prefix: mp, type_prefix: tp, prerequisite_type: pt }
        } else {
            return None;
        };
        let g = GObjectType { gtype_name: args[0].clone(), type_macro: tm, kind, class_struct: None, line };
        assert(opt_seq(Some(g)).map_values(|g: GObjectType| gtype_view(g)) =~= seq![gtype_view(g)]);
        Some(g)
    } else if starts_with(m, "G_DEFINE_") && args.len() >= 3 {
        assert(av[0] == args@[0]@ && av[1] == args@[1]@ && av[2] == args@[2]@);
        let upper = str_to_uppercase(args[0].as_str());
        let tm = concat3("TYPE_", upper.as_str(), "");
        let fp = args[1].clone();
        let pt = args[2].clone();
        let kind = if str_eq(m, "G_DEFINE_TYPE") {
            GObjectTypeKind::DefineType { function_prefix: fp, parent_type: pt }
        } else if str_eq(m, "G_DEFINE_TYPE_WITH_PRIVATE") {
            GObjectTypeKind::DefineTypeWithPrivate { function_prefix: fp, parent_type: pt }
        } else if str_eq(m, "G_DEFINE_ABSTRACT_TYPE") {
            GObjectTypeKind::DefineAbstractType { function_prefix: fp, parent_type: pt }
        } else {
            return None;
        };
        proof {
            reveal_strlit("");
        }
        assert(tm@ =~= "TYPE_"@ + unicode_upper_str(av[0]));
        let g = GObjectType { gtype_name: args[0].clone(), type_macro: tm, kind, class_struct: None, line };
        assert(opt_seq(Some(g)).map_values(|g: GObjectType| gtype_view(g)) =~= seq![gtype_view(g)]);
        Some(g)
    } else {
        None
    }
}

/// Whether `n` is an identifier or a type identifier.
fn identifier_kind(n: &SyntaxNode) -> (r: bool)
    ensures
        r == is_identifier_kind(*n),
{
    n.is_kind("identifier") || n.is_kind("type_identifier")
}

/// The texts of the identifiers of the tree rooted at `p` that are UTF-8.
fn identifier_texts(p: &SyntaxNode, src: &[u8], Ghost(len): Ghost<int>) -> (r: Vec<String>)
    requires
        parse_ready(*p, len),
        len == src@.len(),
    ensures
        string_views(r@) == ident_texts(src@, crate::syntax::preorder(*p)),
{
    let all = p.preorder();
    let ghost ns = derefs(all@);
    let mut out: Vec<String> = Vec::new();
    let mut i: usize = 0;
    while i < all.len()
        invariant
            i <= all@.len(),
            ns == derefs(all@),
            ns == crate::syntax::preorder(*p),
            parse_ready(*p, len),
            len == src@.len(),
            string_views(out@) == ident_texts(src@, ns.take(i as int)),
        decreases all@.len() - i,
    {
        let n: &SyntaxNode = all[i];
        assert(ns.take(i + 1).drop_last() =~= ns.take(i as int));
        assert(ns.take(i + 1).last() == *n);
        proof {
            assert(ns[i as int] == *n);
            crate::syntax::lemma_fits_member(*p, *n, len, 1, 0);
        }
        let ghost before = string_views(out@);
        if identifier_kind(n) {
            match node_text_opt(n, src) {
                Some(t) => {
                    out.push(t);
                    assert(string_views(out@) =~= before + seq![text_at(src@, *n)->0]);
                },
                None => {
                    assert(string_views(out@) =~= before + Seq::<Seq<char>>::empty());
                },
            }
        } else {
            assert(string_views(out@) =~= before + Seq::<Seq<char>>::empty());
        }
        i = i + 1;
    }
    assert(ns.take(ns.len() as int) =~= ns);
    out
}

/// `names` without `m`.
fn drop_name(names: &Vec<String>, m: &str) -> (r: Vec<String>)
    ensures
        string_views(r@) == without(string_views(names@), m@),
{
    let ghost vs = string_views(names@);
    let mut out: Vec<String> = Vec::new();
    let mut i: usize = 0;
    while i < names.len()
        invariant
            i <= names@.len(),
            vs == string_views(names@),
            string_views(out@) == without(vs.take(i as int), m@),
        decreases names@.len() - i,
    {
        assert(vs.take(i + 1).drop_last() =~= vs.take(i as int));
        assert(vs.take(i + 1).last() == names@[i as int]@);
        let ghost before = string_views(out@);
        if !str_eq(names[i].as_str(), m) {
            out.push(names[i].clone());
            assert(string_views(out@) =~= before + seq![names@[i as int]@]);
        } else {
            assert(string_views(out@) =~= before + Seq::<Seq<char>>::empty());
        }
        i = i + 1;
    }
    assert(vs.take(vs.len() as int) =~= vs);
    out
}

/// The texts of the identifiers among the children of `a`; nothing when one
/// is not UTF-8.
fn direct_identifier_texts(a: &SyntaxNode, src: &[u8], Ghost(len): Ghost<int>) -> (r: Option<Vec<String>>)
    requires
        parse_ready(*a, len),
        len == src@.len(),
    ensures
        match r {
            Some(v) => direct_ident_texts(src@, a.children@) == Some(string_views(v@)),
            None => direct_ident_texts(src@, a.children@) is None,
        },
{
    let ghost cs = a.children@;
    let mut out: Vec<String> = Vec::new();
    let mut i: usize = 0;
    while i < a.children.len()
        invariant
            i <= cs.len(),
            cs == a.children@,
            parse_ready(*a, len),
            len == src@.len(),
            direct_ident_texts(src@, cs.take(i as int)) == Some(string_views(out@)),
        decreases cs.len() - i,
    {
        proof {
            lemma_fits_child(*a, i as int, len, 1, 0);
            lemma_fits_root(cs[i as int], len, 1, 0);
        }
        let c = &a.children[i];
        assert(cs.take(i + 1).drop_last() =~= cs.take(i as int));
        assert(cs.take(i + 1).last() == *c);
        if identifier_kind(c) {
            match node_text_opt(c, src) {
                Some(t) => {
                    let ghost before = string_views(out@);
                    out.push(t);
                    assert(string_views(out@) =~= before.push(text_at(src@, *c)->0));
                },
                None => {
                    proof {
                        lemma_direct_none_stays(src@, cs, i as int + 1);
                    }
                    return None;
                },
            }
        }
        i = i + 1;
    }
    assert(cs.take(cs.len() as int) =~= cs);
    Some(out)
}

proof fn lemma_direct_none_stays(src: Seq<u8>, cs: Seq<SyntaxNode>, k: int)
    requires
        0 <= k <= cs.len(),
        direct_ident_texts(src, cs.take(k)) is None,
    ensures
        direct_ident_texts(src, cs) is None,
    decreases cs.len() - k,
{
    if k < cs.len() {
        assert(cs.take(k + 1).drop_last() =~= cs.take(k));
        lemma_direct_none_stays(src, cs, k + 1);
    } else {
        assert(cs.take(k) =~= cs);
    }
}

/// The parent that `p` points to, if any.
pub open spec fn parent_of(p: Option<&SyntaxNode>) -> Option<SyntaxNode> {
    match p {
        Some(x) => Some(*x),
        None => None,
    }
}

/// The GObject type that `n`, a child of `parent`, gives (see
/// `gobject_here`).
fn gobject_of(parent: Option<&SyntaxNode>, n: &SyntaxNode, src: &[u8], Ghost(len): Ghost<int>) -> (r: Option<GObjectType>)
    requires
        parse_ready(*n, len),
        parent matches Some(p) ==> parse_ready(*p, len),
        len == src@.len(),
    ensures
        opt_seq(r).map_values(|g: GObjectType| gtype_view(g)) == gobject_here(src@, parent_of(parent), *n),
{
    proof {
        reveal_strlit("directive");
        reveal_strlit("arguments");
        reveal_strlit("G_DECLARE_");
        reveal_strlit("G_DEFINE_");
        lemma_fits_root(*n, len, 1, 0);
        lemma_fits_field_child(*n, "arguments"@, len, 1, 0);
    }
    if n.is_kind("preproc_call") {
        let t = match field_text(n, "directive", src, Ghost(len)) {
            Some((_, Some(t))) => t,
            _ => return None,
        };
        let names: [&str; 6] = [
            "G_DECLARE_FINAL_TYPE",
            "G_DECLARE_DERIVABLE_TYPE",
            "G_DECLARE_INTERFACE",
            "G_DEFINE_TYPE",
            "G_DEFINE_TYPE_WITH_PRIVATE",
            "G_DEFINE_ABSTRACT_TYPE",
        ];
        assert(crate::text::str_views(names@) =~= gobject_macro_names());
        if !crate::text::str_in(&names, t.as_str()) {
            return None;
        }
        let a = match n.child_by_field_name("arguments") {
            Some(a) => a,
            None => return None,
        };
        let args = match direct_identifier_texts(a, src, Ghost(len)) {
            Some(v) => v,
            None => return None,
        };
        gtype_from_args(t.as_str(), &args, n.start_row + 1)
    } else if n.is_kind("identifier") {
        let t = match node_text_opt(n, src) {
            Some(t) => t,
            None => return None,
        };
        let p = match parent {
            Some(p) => p,
            None => return None,
        };
        if !starts_with(t.as_str(), "G_DECLARE_") && !starts_with(t.as_str(), "G_DEFINE_") {
            return None;
        }
        proof {
            lemma_fits_root(*p, len, 1, 0);
        }
        let all = identifier_texts(p, src, Ghost(len));
        let args = drop_name(&all, t.as_str());
        gtype_from_args(t.as_str(), &args, p.start_row + 1)
    } else {
        None
    }
}

/// Adds to `structs`, `typedefs`, `enums` and `gtypes` what the scan finds
/// at and below `n`, whose parent is `parent`.
pub fn scan_declarations(
    n: &SyntaxNode,
    parent: Option<&SyntaxNode>,
    src: &[u8],
    structs: &mut Vec<StructInfo>,
    typedefs: &mut Vec<TypedefInfo>,
    enums: &mut Vec<EnumInfo>,
    gtypes: &mut Vec<GObjectType>,
)
    requires
        parse_ready(*n, src@.len() as int),
        parent matches Some(p) ==> parse_ready(*p, src@.len() as int),
    ensures
        struct_views(final(structs)@) == struct_views(old(structs)@) + decl_scan(*n, parent_of(parent), struct_finder(src@)),
        typedef_views(final(typedefs)@) == typedef_views(old(typedefs)@) + decl_scan(*n, parent_of(parent), typedef_finder(src@)),
        enum_views(final(enums)@) == enum_views(old(enums)@) + decl_scan(*n, parent_of(parent), enum_finder(src@)),
        gtype_views(final(gtypes)@) == gtype_views(old(gtypes)@) + decl_scan(*n, parent_of(parent), gobject_finder(src@)),
    decreases *n, 1int,
{
    let ghost len = src@.len() as int;
    let ghost sf = struct_finder(src@);
    let ghost tf = typedef_finder(src@);
    let ghost ef = enum_finder(src@);
    let ghost gf = gobject_finder(src@);
    let ghost par = parent_of(parent);
    let ghost s0 = struct_views(structs@);
    let ghost t0 = typedef_views(typedefs@);
    let ghost e0 = enum_views(enums@);
    let ghost g0 = gtype_views(gtypes@);
    match struct_here_of(n, src, Ghost(len)) {
        Some(x) => structs.push(x),
        None => {},
    }
    match typedef_of(n, src, Ghost(len)) {
        Some(t) => typedefs.push(t),
        None => {},
    }
    match enum_of(n, src, Ghost(len)) {
        Some(e) => enums.push(e),
        None => {},
    }
    let ghost gb = gtype_views(gtypes@);
    match gobject_of(parent, n, src, Ghost(len)) {
        Some(g) => {
            gtypes.push(g);
            assert(gtype_views(gtypes@) =~= gb + seq![gtype_view(g)]);
            assert(opt_seq(Some(g)).map_values(|g: GObjectType| gtype_view(g)) =~= seq![gtype_view(g)]);
        },
        None => {
            assert(gtype_views(gtypes@) =~= gb + Seq::<GTypeView>::empty());
            assert(opt_seq(None::<GObjectType>).map_values(|g: GObjectType| gtype_view(g)) =~= Seq::<GTypeView>::empty());
        },
    }
    let ghost hs = structs_here(src@, *n);
    let ghost ht = typedefs_here(src@, *n);
    let ghost he = enums_here(src@, *n);
    let ghost hg = gobject_here(src@, par, *n);
    assert(sf(par, *n) == hs);
    assert(tf(par, *n) == ht);
    assert(ef(par, *n) == he);
    assert(gf(par, *n) == hg);
    assert(struct_views(structs@) =~= s0 + hs);
    assert(typedef_views(typedefs@) =~= t0 + ht);
    assert(enum_views(enums@) =~= e0 + he);
    assert(gtype_views(gtypes@) =~= g0 + hg);
    if n.is_kind("preproc_def") || n.is_kind("preproc_function_def") || n.is_kind("preproc_call")
        || n.is_kind("preproc_include") {
        return;
    }
    let skip_bodies = n.is_kind("function_definition");
    let ghost cs = n.children@;
    let mut i: usize = 0;
    while i < n.children.len()
        invariant
            i <= cs.len(),
            cs == n.children@,
            parse_ready(*n, len),
            len == src@.len(),
            sf == struct_finder(src@),
            tf == typedef_finder(src@),
            ef == enum_finder(src@),
            gf == gobject_finder(src@),
            skip_bodies == (n.kind@ == "function_definition"@),
            struct_views(structs@) + decl_scan_list(cs, i as int, skip_bodies, *n, sf) == s0 + hs + decl_scan_list(cs, 0, skip_bodies, *n, sf),
            typedef_views(typedefs@) + decl_scan_list(cs, i as int, skip_bodies, *n, tf) == t0 + ht + decl_scan_list(cs, 0, skip_bodies, *n, tf),
            enum_views(enums@) + decl_scan_list(cs, i as int, skip_bodies, *n, ef) == e0 + he + decl_scan_list(cs, 0, skip_bodies, *n, ef),
            gtype_views(gtypes@) + decl_scan_list(cs, i as int, skip_bodies, *n, gf) == g0 + hg + decl_scan_list(cs, 0, skip_bodies, *n, gf),
        decreases cs.len() - i,
    {
        proof {
            lemma_fits_child(*n, i as int, len, 1, 0);
        }
        let c = &n.children[i];
        let ghost bs = struct_views(structs@);
        let ghost bt = typedef_views(typedefs@);
        let ghost be = enum_views(enums@);
        let ghost bg = gtype_views(gtypes@);
        if skip_bodies && c.is_kind("compound_statement") {
            assert(bs + decl_scan_list(cs, i as int, skip_bodies, *n, sf) =~= bs + decl_scan_list(cs, i + 1, skip_bodies, *n, sf));
            assert(bt + decl_scan_list(cs, i as int, skip_bodies, *n, tf) =~= bt + decl_scan_list(cs, i + 1, skip_bodies, *n, tf));
            assert(be + decl_scan_list(cs, i as int, skip_bodies, *n, ef) =~= be + decl_scan_list(cs, i + 1, skip_bodies, *n, ef));
            assert(bg + decl_scan_list(cs, i as int, skip_bodies, *n, gf) =~= bg + decl_scan_list(cs, i + 1, skip_bodies, *n, gf));
        } else {
            scan_declarations(c, Some(n), src, structs, typedefs, enums, gtypes);
            assert(parent_of(Some(n)) == Some(*n));
            assert(bs + decl_scan_list(cs, i as int, skip_bodies, *n, sf) =~= bs + decl_scan(*c, Some(*n), sf) + decl_scan_list(cs, i + 1, skip_bodies, *n, sf));
            assert(bt + decl_scan_list(cs, i as int, skip_bodies, *n, tf) =~= bt + decl_scan(*c, Some(*n), tf) + decl_scan_list(cs, i + 1, skip_bodies, *n, tf));
            assert(be + decl_scan_list(cs, i as int, skip_bodies, *n, ef) =~= be + decl_scan(*c, Some(*n), ef) + decl_scan_list(cs, i + 1, skip_bodies, *n, ef));
            assert(bg + decl_scan_list(cs, i as int, skip_bodies, *n, gf) =~= bg + decl_scan(*c, Some(*n), gf) + decl_scan_list(cs, i + 1, skip_bodies, *n, gf));
        }
        i = i + 1;
    }
    assert(struct_views(structs@) =~= struct_views(structs@) + decl_scan_list(cs, i as int, skip_bodies, *n, sf));
    assert(typedef_views(typedefs@) =~= typedef_views(typedefs@) + decl_scan_list(cs, i as int, skip_bodies, *n, tf));
    assert(enum_views(enums@) =~= enum_views(enums@) + decl_scan_list(cs, i as int, skip_bodies, *n, ef));
    assert(gtype_views(gtypes@) =~= gtype_views(gtypes@) + decl_scan_list(cs, i as int, skip_bodies, *n, gf));
    assert(s0 + hs + decl_scan_list(cs, 0, skip_bodies, *n, sf) =~= s0 + decl_scan(*n, par, sf));
    assert(t0 + ht + decl_scan_list(cs, 0, skip_bodies, *n, tf) =~= t0 + decl_scan(*n, par, tf));
    assert(e0 + he + decl_scan_list(cs, 0, skip_bodies, *n, ef) =~= e0 + decl_scan(*n, par, ef));
    assert(g0 + hg + decl_scan_list(cs, 0, skip_bodies, *n, gf) =~= g0 + decl_scan(*n, par, gf));
}

/// The struct that `n` gives (see `structs_here`).
fn struct_here_of(n: &SyntaxNode, src: &[u8], Ghost(len): Ghost<int>) -> (r: Option<StructInfo>)
    requires
        parse_ready(*n, len),
        len == src@.len(),
    ensures
        match r {
            Some(s) => structs_here(src@, *n) == seq![(s.name@, s.line as nat, s.is_opaque, s.fields@.len())],
            None => structs_here(src@, *n) == Seq::<StructView>::empty(),
        },
{
    if n.is_kind("struct_specifier") {
        struct_of(n, src, Ghost(len))
    } else if n.is_kind("declaration") || n.is_kind("expression_statement") {
        first_struct_of(n, src, Ghost(len))
    } else {
        None
    }
}

} // verus!
