//! From the concrete syntax tree of a C file to the model: expressions,
//! statements and function bodies.

use vstd::prelude::*;

use crate::model::expression::{
    arg_expr, Argument, Assignment, BinaryExpression, BooleanExpression, CallExpression,
    CastExpression, CharLiteralExpression, CommentExpression, ConditionalExpression, Expression,
    FieldAccessExpression, GenericExpression, IdentifierExpression, NullExpression,
    NumberLiteralExpression, SizeofExpression, SizeofOperand, StringLiteralExpression,
    SubscriptExpression, UnaryExpression, UpdateExpression, Designator, InitializerItem,
    InitializerListExpression,
};
use crate::model::location::{text_of, SourceLocation};
use crate::model::statement::{
    CompoundStatement, ExpressionStmt, GotoStatement, IfStatement, LabeledStatement, ReturnStatement,
    Statement, SwitchStatement, VariableDecl,
};
use crate::model::types::{AssignmentOp, FieldAccessOp, TypeInfo, UnaryOp, UpdateOp};
use crate::syntax::{
    child_by_field, fits, lemma_fits_child, lemma_fits_field_child, lemma_fits_root, node_fits,
    SyntaxNode,
};
use crate::text::{chars_of, owned, str_eq};

verus! {

// ---------------------------------------------------------------------------
// Nodes and their text
// ---------------------------------------------------------------------------

/// Where a node stands: 1-based line and column, and its bytes.
pub open spec fn loc_of(n: SyntaxNode) -> SourceLocation {
    SourceLocation {
        line: (n.start_row + 1) as usize,
        column: (n.start_column + 1) as usize,
        start_byte: n.start_byte,
        end_byte: n.end_byte,
    }
}

/// The text of a node, when it is valid UTF-8.
pub open spec fn text_at(src: Seq<u8>, n: SyntaxNode) -> Option<Seq<char>> {
    text_of(src, n.start_byte as int, n.end_byte as int)
}

/// A tree of a file of `len` bytes whose rows and columns stay
/// representable once made 1-based.
pub open spec fn parse_ready(n: SyntaxNode, len: int) -> bool {
    fits(n, len, 1, 0)
}

/// The number of `c` in `s`.
pub open spec fn count_char(s: Seq<char>, c: char) -> nat
    decreases s.len(),
{
    if s.len() == 0 {
        0
    } else {
        count_char(s.drop_last(), c) + if s.last() == c {
            1nat
        } else {
            0nat
        }
    }
}

/// The assignment operator written `t`.
pub open spec fn assignment_op_of(t: Seq<char>) -> Option<AssignmentOp> {
    if t == "="@ {
        Some(AssignmentOp::Assign)
    } else if t == "+="@ {
        Some(AssignmentOp::AddAssign)
    } else if t == "-="@ {
        Some(AssignmentOp::SubAssign)
    } else if t == "*="@ {
        Some(AssignmentOp::MulAssign)
    } else if t == "/="@ {
        Some(AssignmentOp::DivAssign)
    } else if t == "%="@ {
        Some(AssignmentOp::ModAssign)
    } else if t == "&="@ {
        Some(AssignmentOp::AndAssign)
    } else if t == "|="@ {
        Some(AssignmentOp::OrAssign)
    } else if t == "^="@ {
        Some(AssignmentOp::XorAssign)
    } else if t == "<<="@ {
        Some(AssignmentOp::ShlAssign)
    } else if t == ">>="@ {
        Some(AssignmentOp::ShrAssign)
    } else {
        None
    }
}

/// The prefix operator written `t`.
pub open spec fn unary_op_of(t: Seq<char>) -> Option<UnaryOp> {
    if t == "!"@ {
        Some(UnaryOp::Not)
    } else if t == "-"@ {
        Some(UnaryOp::Negate)
    } else if t == "+"@ {
        Some(UnaryOp::Plus)
    } else if t == "~"@ {
        Some(UnaryOp::BitNot)
    } else if t == "&"@ {
        Some(UnaryOp::AddressOf)
    } else if t == "*"@ {
        Some(UnaryOp::Dereference)
    } else {
        None
    }
}

/// The first child that is named and is not a `(` or `)` token.
pub open spec fn first_inner(children: Seq<SyntaxNode>) -> Option<SyntaxNode>
    decreases children.len(),
{
    if children.len() == 0 {
        None
    } else if children[0].is_named && children[0].kind@ != "("@ && children[0].kind@ != ")"@ {
        Some(children[0])
    } else {
        first_inner(children.drop_first())
    }
}

/// The children of the argument list of a call, if it has one.
pub open spec fn call_arg_nodes(n: SyntaxNode) -> Seq<SyntaxNode> {
    match child_by_field(n.children@, "arguments"@) {
        Some(a) => a.children@,
        None => Seq::empty(),
    }
}

// ---------------------------------------------------------------------------
// Types
// ---------------------------------------------------------------------------

/// The name a type specifier gives: the name of a `struct`, `union` or
/// `enum` specifier, or the text of any other.
pub open spec fn specifier_name(src: Seq<u8>, ty: SyntaxNode) -> Option<Seq<char>> {
    if ty.kind@ == "struct_specifier"@ || ty.kind@ == "union_specifier"@ || ty.kind@
        == "enum_specifier"@ {
        match child_by_field(ty.children@, "name"@) {
            Some(name) => text_at(src, name),
            None => text_at(src, ty),
        }
    } else {
        text_at(src, ty)
    }
}

/// Some child of `children` is the qualifier `const`.
pub open spec fn has_const(src: Seq<u8>, children: Seq<SyntaxNode>) -> bool {
    exists|i: int|
        0 <= i < children.len() && (#[trigger] children[i]).kind@ == "type_qualifier"@ && text_at(
            src,
            children[i],
        ) == Some("const"@)
}

/// `r` is the type that a type descriptor `t` describes: its specifier's
/// name and keyword, `const`, and as many pointer levels as its text holds
/// `*`.
pub open spec fn type_rel(src: Seq<u8>, t: SyntaxNode, r: Option<TypeInfo>) -> bool {
    match child_by_field(t.children@, "type"@) {
        Some(ty) => match (specifier_name(src, ty), text_at(src, t)) {
            (Some(base), Some(all)) => r matches Some(ti) && ti.base_type@ == base && ti.pointer_depth
                == count_char(all, '*') && ti.is_const == has_const(src, t.children@) && ti.is_struct
                == (ty.kind@ == "struct_specifier"@) && ti.is_union == (ty.kind@
                == "union_specifier"@) && ti.is_enum == (ty.kind@ == "enum_specifier"@)
                && ti.auto_cleanup is None && ti.location == loc_of(t),
            _ => r is None,
        },
        None => r is None,
    }
}

// ---------------------------------------------------------------------------
// Expressions
// ---------------------------------------------------------------------------

/// `r` is what parsing the expression node `n` gives: the model of a call,
/// assignment, operator, literal, cast, conditional, `sizeof`, subscript,
/// field access or update expression (none when a part it needs is missing
/// or not text), the inner expression of parentheses, and any other node as
/// a generic expression holding its text.
pub open spec fn expr_rel(src: Seq<u8>, n: SyntaxNode, r: Option<Expression>, depth: nat) -> bool
    decreases depth, 0int, 0int,
{
    let k = n.kind@;
    if depth == 0 {
        r is None
    } else if k == "call_expression"@ {
        match child_by_field(n.children@, "function"@) {
            Some(f) => match text_at(src, f) {
                Some(ft) => r matches Some(Expression::Call(c)) && c.function@ == ft && c.location
                    == loc_of(n) && args_rel(src, call_arg_nodes(n), c.arguments@, (depth - 1) as nat),
                None => r is None,
            },
            None => r is None,
        }
    } else if k == "assignment_expression"@ {
        match (
            child_by_field(n.children@, "left"@),
            child_by_field(n.children@, "operator"@),
            child_by_field(n.children@, "right"@),
        ) {
            (Some(l), Some(o), Some(rt)) => match text_at(src, o) {
                Some(ot) => match assignment_op_of(ot) {
                    Some(op) => if expr_rel(src, l, None, (depth - 1) as nat) || expr_rel(src, rt, None, (depth - 1) as nat) {
                        r is None
                    } else {
                        r matches Some(Expression::Assignment(a)) && a.operator == op && a.location
                            == loc_of(n) && expr_rel(src, l, Some(*a.lhs), (depth - 1) as nat) && expr_rel(src, rt, Some(*a.rhs), (depth - 1) as nat)
                    },
                    None => r is None,
                },
                None => r is None,
            },
            _ => r is None,
        }
    } else if k == "binary_expression"@ {
        match (
            child_by_field(n.children@, "left"@),
            child_by_field(n.children@, "operator"@),
            child_by_field(n.children@, "right"@),
        ) {
            (Some(l), Some(o), Some(rt)) => match text_at(src, o) {
                Some(ot) => if expr_rel(src, l, None, (depth - 1) as nat) || expr_rel(src, rt, None, (depth - 1) as nat) {
                    r is None
                } else {
                    r matches Some(Expression::Binary(b)) && b.operator@ == ot && b.location == loc_of(
                        n,
                    ) && expr_rel(src, l, Some(*b.left), (depth - 1) as nat) && expr_rel(src, rt, Some(*b.right), (depth - 1) as nat)
                },
                None => r is None,
            },
            _ => r is None,
        }
    } else if k == "unary_expression"@ || k == "pointer_expression"@ {
        match (child_by_field(n.children@, "operator"@), child_by_field(n.children@, "argument"@)) {
            (Some(o), Some(a)) => match text_at(src, o) {
                Some(ot) => match unary_op_of(ot) {
                    Some(op) => if expr_rel(src, a, None, (depth - 1) as nat) {
                        r is None
                    } else {
                        r matches Some(Expression::Unary(u)) && u.operator == op && u.location
                            == loc_of(n) && expr_rel(src, a, Some(*u.operand), (depth - 1) as nat)
                    },
                    None => r is None,
                },
                None => r is None,
            },
            _ => r is None,
        }
    } else if k == "parenthesized_expression"@ {
        match first_inner(n.children@) {
            Some(inner) => expr_rel(src, inner, r, (depth - 1) as nat),
            None => r is None,
        }
    } else if k == "identifier"@ {
        match text_at(src, n) {
            Some(t) => r matches Some(Expression::Identifier(id)) && id.name@ == t && id.location
                == loc_of(n),
            None => r is None,
        }
    } else if k == "field_expression"@ {
        match (
            child_by_field(n.children@, "argument"@),
            child_by_field(n.children@, "operator"@),
            child_by_field(n.children@, "field"@),
        ) {
            (Some(b), Some(o), Some(f)) => match (text_at(src, o), text_at(src, f), text_at(src, n)) {
                (Some(ot), Some(ft), Some(all)) => if expr_rel(src, b, None, (depth - 1) as nat) || (ot != "->"@ && ot
                    != "."@) {
                    r is None
                } else {
                    r matches Some(Expression::FieldAccess(fa)) && fa.operator == (if ot == "->"@ {
                        FieldAccessOp::Arrow
                    } else {
                        FieldAccessOp::Dot
                    }) && fa.field@ == ft && fa.text@ == all && fa.location == loc_of(n) && expr_rel(src, b, Some(*fa.base), (depth - 1) as nat)
                },
                _ => r is None,
            },
            _ => r is None,
        }
    } else if k == "string_literal"@ {
        match text_at(src, n) {
            Some(t) => r matches Some(Expression::StringLiteral(s)) && s.value@ == t && s.location
                == loc_of(n),
            None => r is None,
        }
    } else if k == "number_literal"@ {
        match text_at(src, n) {
            Some(t) => r matches Some(Expression::NumberLiteral(s)) && s.value@ == t && s.location
                == loc_of(n),
            None => r is None,
        }
    } else if k == "char_literal"@ {
        match text_at(src, n) {
            Some(t) => r matches Some(Expression::CharLiteral(s)) && s.value@ == t && s.location
                == loc_of(n),
            None => r is None,
        }
    } else if k == "null"@ || k == "NULL"@ {
        r matches Some(Expression::Null(x)) && x.location == loc_of(n)
    } else if k == "true"@ || k == "TRUE"@ {
        r matches Some(Expression::Boolean(x)) && x.value && x.location == loc_of(n)
    } else if k == "false"@ || k == "FALSE"@ {
        r matches Some(Expression::Boolean(x)) && !x.value && x.location == loc_of(n)
    } else if k == "cast_expression"@ {
        match (child_by_field(n.children@, "type"@), child_by_field(n.children@, "value"@)) {
            (Some(t), Some(v)) => if type_rel(src, t, None) || expr_rel(src, v, None, (depth - 1) as nat) {
                r is None
            } else {
                r matches Some(Expression::Cast(c)) && type_rel(src, t, Some(c.type_info)) && c.location
                    == loc_of(n) && expr_rel(src, v, Some(*c.operand), (depth - 1) as nat)
            },
            _ => r is None,
        }
    } else if k == "conditional_expression"@ {
        match (
            child_by_field(n.children@, "condition"@),
            child_by_field(n.children@, "consequence"@),
            child_by_field(n.children@, "alternative"@),
        ) {
            (Some(c), Some(t), Some(e)) => if expr_rel(src, c, None, (depth - 1) as nat) || expr_rel(src, t, None, (depth - 1) as nat)
                || expr_rel(src, e, None, (depth - 1) as nat) {
                r is None
            } else {
                r matches Some(Expression::Conditional(x)) && x.location == loc_of(n) && expr_rel(src, c, Some(*x.condition), (depth - 1) as nat) && expr_rel(src, t, Some(*x.then_expr), (depth - 1) as nat) && expr_rel(src, e, Some(*x.else_expr), (depth - 1) as nat)
            },
            _ => r is None,
        }
    } else if k == "sizeof_expression"@ {
        match text_at(src, n) {
            Some(t) => r matches Some(Expression::Sizeof(s)) && s.text@ == t && s.location == loc_of(
                n,
            ) && sizeof_rel(src, n.children@, s.operand, (depth - 1) as nat),
            None => r is None,
        }
    } else if k == "subscript_expression"@ {
        match (child_by_field(n.children@, "argument"@), child_by_field(n.children@, "index"@)) {
            (Some(a), Some(i)) => if expr_rel(src, a, None, (depth - 1) as nat) || expr_rel(src, i, None, (depth - 1) as nat) {
                r is None
            } else {
                r matches Some(Expression::Subscript(x)) && x.location == loc_of(n) && expr_rel(src, a, Some(*x.array), (depth - 1) as nat) && expr_rel(src, i, Some(*x.index), (depth - 1) as nat)
            },
            _ => r is None,
        }
    } else if k == "update_expression"@ {
        match (child_by_field(n.children@, "operator"@), child_by_field(n.children@, "argument"@)) {
            (Some(o), Some(a)) => match text_at(src, o) {
                Some(ot) => if (ot != "++"@ && ot != "--"@) || expr_rel(src, a, None, (depth - 1) as nat) {
                    r is None
                } else {
                    r matches Some(Expression::Update(u)) && u.operator == (if ot == "++"@ {
                        UpdateOp::Increment
                    } else {
                        UpdateOp::Decrement
                    }) && u.is_prefix == (o.start_byte < a.start_byte) && u.location == loc_of(n)
                        && expr_rel(src, a, Some(*u.operand), (depth - 1) as nat)
                },
                None => r is None,
            },
            _ => r is None,
        }
    } else if k == "initializer_list"@ {
        r matches Some(Expression::InitializerList(x)) && x.location == loc_of(n) && items_rel(
            src,
            n.children@,
            x.items@,
            (depth - 1) as nat,
        )
    } else if k == "comment"@ {
        match text_at(src, n) {
            Some(t) => r matches Some(Expression::Comment(c)) && c.text@ == t && c.location == loc_of(
                n,
            ),
            None => r is None,
        }
    } else {
        match text_at(src, n) {
            Some(t) => r matches Some(Expression::Generic(g)) && g.text@ == t && g.location == loc_of(
                n,
            ),
            None => r is None,
        }
    }
}

/// `args` are the parses of the named children of `cs` other than `,`
/// that parse, in order.
pub open spec fn args_rel(src: Seq<u8>, cs: Seq<SyntaxNode>, args: Seq<Argument>, depth: nat) -> bool
    decreases depth, 1int, cs.len(),
{
    if cs.len() == 0 {
        args.len() == 0
    } else {
        let last = cs.last();
        if !(last.is_named && last.kind@ != ","@) || expr_rel(src, last, None, depth) {
            args_rel(src, cs.drop_last(), args, depth)
        } else {
            args.len() > 0 && expr_rel(src, last, Some(arg_expr(args.last())), depth) && args_rel(src, cs.drop_last(), args.drop_last(), depth)
        }
    }
}

/// `r` is the designator of an initializer pair that `d` writes: `.field`
/// (or the older `field:`) or `[index]`.
pub open spec fn designator_rel(src: Seq<u8>, d: SyntaxNode, r: Option<Designator>, depth: nat) -> bool
    decreases depth, 0int, 1int,
{
    let k = d.kind@;
    if k == "field_designator"@ {
        match first_named(d.children@) {
            Some(fi) => match text_at(src, fi) {
                Some(t) => r matches Some(Designator::Field(s)) && s@ == t,
                None => r is None,
            },
            None => r is None,
        }
    } else if k == "field_identifier"@ {
        match text_at(src, d) {
            Some(t) => r matches Some(Designator::Field(s)) && s@ == t,
            None => r is None,
        }
    } else if k == "subscript_designator"@ {
        match first_named(d.children@) {
            Some(e) => if expr_rel(src, e, None, depth) {
                r is None
            } else {
                r matches Some(Designator::Subscript(x)) && expr_rel(src, e, Some(*x), depth)
            },
            None => r is None,
        }
    } else {
        r is None
    }
}

/// `items` are the items of an initializer list with children `cs`, in
/// order: each named child other than a comment whose value parses, an
/// initializer pair with its first designator, any other child with none.
pub open spec fn items_rel(src: Seq<u8>, cs: Seq<SyntaxNode>, items: Seq<InitializerItem>, depth: nat) -> bool
    decreases depth, 1int, cs.len(),
{
    if cs.len() == 0 {
        items.len() == 0
    } else {
        let c = cs.last();
        if !c.is_named || c.kind@ == "comment"@ {
            items_rel(src, cs.drop_last(), items, depth)
        } else if c.kind@ == "initializer_pair"@ {
            match child_by_field(c.children@, "value"@) {
                Some(v) => if expr_rel(src, v, None, depth) {
                    items_rel(src, cs.drop_last(), items, depth)
                } else {
                    &&& items.len() > 0
                    &&& expr_rel(src, v, Some(*items.last().value), depth)
                    &&& match child_by_field(c.children@, "designator"@) {
                        Some(dn) => designator_rel(src, dn, items.last().designator, depth),
                        None => items.last().designator is None,
                    }
                    &&& items_rel(src, cs.drop_last(), items.drop_last(), depth)
                },
                None => items_rel(src, cs.drop_last(), items, depth),
            }
        } else if expr_rel(src, c, None, depth) {
            items_rel(src, cs.drop_last(), items, depth)
        } else {
            &&& items.len() > 0
            &&& items.last().designator is None
            &&& expr_rel(src, c, Some(*items.last().value), depth)
            &&& items_rel(src, cs.drop_last(), items.drop_last(), depth)
        }
    }
}

/// `op` is the operand of a `sizeof` with children `cs`: the last of them
/// that is a type descriptor (a type) or a named node other than the
/// `sizeof`, `(` and `)` tokens that parses (an expression).
pub open spec fn sizeof_rel(src: Seq<u8>, cs: Seq<SyntaxNode>, op: Option<SizeofOperand>, depth: nat) -> bool
    decreases depth, 1int, cs.len(),
{
    if cs.len() == 0 {
        op is None
    } else {
        let last = cs.last();
        let k = last.kind@;
        if k == "sizeof"@ || k == "("@ || k == ")"@ {
            sizeof_rel(src, cs.drop_last(), op, depth)
        } else if k == "type_descriptor"@ {
            if type_rel(src, last, None) {
                sizeof_rel(src, cs.drop_last(), op, depth)
            } else {
                op matches Some(SizeofOperand::Type(t)) && type_rel(src, last, Some(t))
            }
        } else if last.is_named && !expr_rel(src, last, None, depth) {
            op matches Some(SizeofOperand::Expression(e)) && expr_rel(src, last, Some(*e), depth)
        } else {
            sizeof_rel(src, cs.drop_last(), op, depth)
        }
    }
}

/// The texts of the expression kinds that parsing tells apart.
proof fn reveal_expression_kinds()
    ensures
        "call_expression"@ =~= seq!['c', 'a', 'l', 'l', '_', 'e', 'x', 'p', 'r', 'e', 's', 's', 'i', 'o', 'n'],
        "assignment_expression"@ =~= seq!['a', 's', 's', 'i', 'g', 'n', 'm', 'e', 'n', 't', '_', 'e', 'x', 'p', 'r', 'e', 's', 's', 'i', 'o', 'n'],
        "binary_expression"@ =~= seq!['b', 'i', 'n', 'a', 'r', 'y', '_', 'e', 'x', 'p', 'r', 'e', 's', 's', 'i', 'o', 'n'],
        "unary_expression"@ =~= seq!['u', 'n', 'a', 'r', 'y', '_', 'e', 'x', 'p', 'r', 'e', 's', 's', 'i', 'o', 'n'],
        "pointer_expression"@ =~= seq!['p', 'o', 'i', 'n', 't', 'e', 'r', '_', 'e', 'x', 'p', 'r', 'e', 's', 's', 'i', 'o', 'n'],
        "parenthesized_expression"@ =~= seq!['p', 'a', 'r', 'e', 'n', 't', 'h', 'e', 's', 'i', 'z', 'e', 'd', '_', 'e', 'x', 'p', 'r', 'e', 's', 's', 'i', 'o', 'n'],
        "identifier"@ =~= seq!['i', 'd', 'e', 'n', 't', 'i', 'f', 'i', 'e', 'r'],
        "field_expression"@ =~= seq!['f', 'i', 'e', 'l', 'd', '_', 'e', 'x', 'p', 'r', 'e', 's', 's', 'i', 'o', 'n'],
        "string_literal"@ =~= seq!['s', 't', 'r', 'i', 'n', 'g', '_', 'l', 'i', 't', 'e', 'r', 'a', 'l'],
        "number_literal"@ =~= seq!['n', 'u', 'm', 'b', 'e', 'r', '_', 'l', 'i', 't', 'e', 'r', 'a', 'l'],
        "char_literal"@ =~= seq!['c', 'h', 'a', 'r', '_', 'l', 'i', 't', 'e', 'r', 'a', 'l'],
        "null"@ =~= seq!['n', 'u', 'l', 'l'],
        "NULL"@ =~= seq!['N', 'U', 'L', 'L'],
        "true"@ =~= seq!['t', 'r', 'u', 'e'],
        "TRUE"@ =~= seq!['T', 'R', 'U', 'E'],
        "false"@ =~= seq!['f', 'a', 'l', 's', 'e'],
        "FALSE"@ =~= seq!['F', 'A', 'L', 'S', 'E'],
        "cast_expression"@ =~= seq!['c', 'a', 's', 't', '_', 'e', 'x', 'p', 'r', 'e', 's', 's', 'i', 'o', 'n'],
        "conditional_expression"@ =~= seq!['c', 'o', 'n', 'd', 'i', 't', 'i', 'o', 'n', 'a', 'l', '_', 'e', 'x', 'p', 'r', 'e', 's', 's', 'i', 'o', 'n'],
        "sizeof_expression"@ =~= seq!['s', 'i', 'z', 'e', 'o', 'f', '_', 'e', 'x', 'p', 'r', 'e', 's', 's', 'i', 'o', 'n'],
        "subscript_expression"@ =~= seq!['s', 'u', 'b', 's', 'c', 'r', 'i', 'p', 't', '_', 'e', 'x', 'p', 'r', 'e', 's', 's', 'i', 'o', 'n'],
        "update_expression"@ =~= seq!['u', 'p', 'd', 'a', 't', 'e', '_', 'e', 'x', 'p', 'r', 'e', 's', 's', 'i', 'o', 'n'],
        "comment"@ =~= seq!['c', 'o', 'm', 'm', 'e', 'n', 't'],
        "initializer_list"@ =~= seq!['i', 'n', 'i', 't', 'i', 'a', 'l', 'i', 'z', 'e', 'r', '_', 'l', 'i', 's', 't'],
{
        reveal_strlit("call_expression");
        reveal_strlit("assignment_expression");
        reveal_strlit("binary_expression");
        reveal_strlit("unary_expression");
        reveal_strlit("pointer_expression");
        reveal_strlit("parenthesized_expression");
        reveal_strlit("identifier");
        reveal_strlit("field_expression");
        reveal_strlit("string_literal");
        reveal_strlit("number_literal");
        reveal_strlit("char_literal");
        reveal_strlit("null");
        reveal_strlit("NULL");
        reveal_strlit("true");
        reveal_strlit("TRUE");
        reveal_strlit("false");
        reveal_strlit("FALSE");
        reveal_strlit("cast_expression");
        reveal_strlit("conditional_expression");
        reveal_strlit("sizeof_expression");
        reveal_strlit("subscript_expression");
        reveal_strlit("update_expression");
        reveal_strlit("comment");
        reveal_strlit("initializer_list");
}

/// Parsing gives at most one answer for a node: a parse is never also a
/// failure.
pub proof fn lemma_expr_rel_exclusive(src: Seq<u8>, n: SyntaxNode, e: Expression, depth: nat)
    requires
        expr_rel(src, n, Some(e), depth),
    ensures
        !expr_rel(src, n, None, depth),
    decreases depth,
{
    reveal_expression_kinds();
    if depth > 0 && n.kind@ == "parenthesized_expression"@ {
        match first_inner(n.children@) {
            Some(inner) => lemma_expr_rel_exclusive(src, inner, e, (depth - 1) as nat),
            None => {},
        }
    }
}

// ---------------------------------------------------------------------------
// Executable parsing
// ---------------------------------------------------------------------------

/// Where a node stands.
pub fn node_location(n: &SyntaxNode, len: usize) -> (r: SourceLocation)
    requires
        node_fits(*n, len as int, 1, 0),
    ensures
        r == loc_of(*n),
{
    SourceLocation::new(n.start_row + 1, n.start_column + 1, n.start_byte, n.end_byte)
}

/// The text of a node, when it is valid UTF-8.
pub fn node_text_opt(n: &SyntaxNode, src: &[u8]) -> (r: Option<String>)
    requires
        n.start_byte <= n.end_byte <= src@.len(),
    ensures
        r matches Some(t) ==> text_at(src@, *n) == Some(t@),
        r is None ==> text_at(src@, *n) is None,
{
    match crate::model::location::utf8_text(vstd::slice::slice_subrange(src, n.start_byte, n.end_byte)) {
        Some(t) => Some(owned(t)),
        None => None,
    }
}

/// The child under the field `name` of a node of a ready tree, which is
/// ready too.
fn field_child<'a>(n: &'a SyntaxNode, name: &str, Ghost(len): Ghost<int>) -> (r: Option<&'a SyntaxNode>)
    requires
        parse_ready(*n, len),
    ensures
        r matches Some(c) ==> child_by_field(n.children@, name@) == Some(*c) && parse_ready(*c, len)
            && node_fits(*c, len, 1, 0),
        r is None ==> child_by_field(n.children@, name@) is None,
{
    proof {
        lemma_fits_field_child(*n, name@, len, 1, 0);
    }
    n.child_by_field_name(name)
}

/// The number of `c` in `s`.
pub fn count_chars(s: &str, c: char) -> (r: usize)
    ensures
        r == count_char(s@, c),
{
    let cs = chars_of(s);
    let mut k: usize = 0;
    let mut i: usize = 0;
    while i < cs.len()
        invariant
            i <= cs@.len(),
            cs@ == s@,
            k == count_char(s@.take(i as int), c),
            k <= i,
        decreases cs@.len() - i,
    {
        assert(s@.take(i + 1).drop_last() =~= s@.take(i as int));
        if cs[i] == c {
            k = k + 1;
        }
        i = i + 1;
    }
    assert(s@.take(cs@.len() as int) =~= s@);
    k
}

/// The type that a type descriptor describes.
pub fn parse_type(t: &SyntaxNode, src: &[u8]) -> (r: Option<TypeInfo>)
    requires
        parse_ready(*t, src@.len() as int),
    ensures
        type_rel(src@, *t, r),
{
    let ghost len = src@.len() as int;
    proof {
        lemma_fits_root(*t, len, 1, 0);
        reveal_strlit("type");
        reveal_strlit("name");
    }
    let ty = match field_child(t, "type", Ghost(len)) {
        Some(x) => x,
        None => return None,
    };
    let tagged = ty.is_kind("struct_specifier") || ty.is_kind("union_specifier") || ty.is_kind(
        "enum_specifier",
    );
    let base = if tagged {
        match field_child(ty, "name", Ghost(len)) {
            Some(name) => node_text_opt(name, src),
            None => node_text_opt(ty, src),
        }
    } else {
        node_text_opt(ty, src)
    };
    let base = match base {
        Some(b) => b,
        None => return None,
    };
    let all = match node_text_opt(t, src) {
        Some(a) => a,
        None => return None,
    };
    let mut is_const = false;
    let mut i: usize = 0;
    while i < t.children.len()
        invariant
            i <= t.children@.len(),
            parse_ready(*t, len),
            len == src@.len(),
            is_const == exists|j: int|
                0 <= j < i && (#[trigger] t.children@[j]).kind@ == "type_qualifier"@ && text_at(
                    src@,
                    t.children@[j],
                ) == Some("const"@),
        decreases t.children@.len() - i,
    {
        let c = &t.children[i];
        proof {
            lemma_fits_child(*t, i as int, len, 1, 0);
            lemma_fits_root(*c, len, 1, 0);
        }
        if c.is_kind("type_qualifier") {
            match node_text_opt(c, src) {
                Some(q) => {
                    if str_eq(q.as_str(), "const") {
                        is_const = true;
                    }
                },
                None => {},
            }
        }
        i = i + 1;
    }
    let pointer_depth = count_chars(all.as_str(), '*');
    Some(TypeInfo {
        base_type: base,
        pointer_depth,
        is_const,
        is_struct: ty.is_kind("struct_specifier"),
        is_union: ty.is_kind("union_specifier"),
        is_enum: ty.is_kind("enum_specifier"),
        auto_cleanup: None,
        location: node_location(t, src.len()),
    })
}

/// The assignment operator written `t`.
pub fn assignment_op(t: &str) -> (r: Option<AssignmentOp>)
    ensures
        r == assignment_op_of(t@),
{
    if str_eq(t, "=") {
        Some(AssignmentOp::Assign)
    } else if str_eq(t, "+=") {
        Some(AssignmentOp::AddAssign)
    } else if str_eq(t, "-=") {
        Some(AssignmentOp::SubAssign)
    } else if str_eq(t, "*=") {
        Some(AssignmentOp::MulAssign)
    } else if str_eq(t, "/=") {
        Some(AssignmentOp::DivAssign)
    } else if str_eq(t, "%=") {
        Some(AssignmentOp::ModAssign)
    } else if str_eq(t, "&=") {
        Some(AssignmentOp::AndAssign)
    } else if str_eq(t, "|=") {
        Some(AssignmentOp::OrAssign)
    } else if str_eq(t, "^=") {
        Some(AssignmentOp::XorAssign)
    } else if str_eq(t, "<<=") {
        Some(AssignmentOp::ShlAssign)
    } else if str_eq(t, ">>=") {
        Some(AssignmentOp::ShrAssign)
    } else {
        None
    }
}

/// The prefix operator written `t`.
pub fn unary_op(t: &str) -> (r: Option<UnaryOp>)
    ensures
        r == unary_op_of(t@),
{
    if str_eq(t, "!") {
        Some(UnaryOp::Not)
    } else if str_eq(t, "-") {
        Some(UnaryOp::Negate)
    } else if str_eq(t, "+") {
        Some(UnaryOp::Plus)
    } else if str_eq(t, "~") {
        Some(UnaryOp::BitNot)
    } else if str_eq(t, "&") {
        Some(UnaryOp::AddressOf)
    } else if str_eq(t, "*") {
        Some(UnaryOp::Dereference)
    } else {
        None
    }
}

/// Parse the named children of `cs` other than `,` as arguments, keeping
/// those that parse.
fn parse_arguments(cs: &Vec<SyntaxNode>, src: &[u8], depth: usize, Ghost(parent): Ghost<SyntaxNode>) -> (r: Vec<Argument>)
    requires
        forall|i: int| 0 <= i < cs@.len() ==> parse_ready(#[trigger] cs@[i], src@.len() as int),
    ensures
        args_rel(src@, cs@, r@, depth as nat),
    decreases depth, 3int, cs@.len(),
{
    let mut out: Vec<Argument> = Vec::new();
    let mut i: usize = 0;
    while i < cs.len()
        invariant
            i <= cs@.len(),
            forall|j: int| 0 <= j < cs@.len() ==> parse_ready(#[trigger] cs@[j], src@.len() as int),
            args_rel(src@, cs@.take(i as int), out@, depth as nat),
        decreases cs@.len() - i,
    {
        let c = &cs[i];
        assert(cs@.take(i + 1).drop_last() =~= cs@.take(i as int));
        assert(cs@.take(i + 1).last() == *c);
        assert(parse_ready(cs@[i as int], src@.len() as int));
        proof {
            reveal_strlit(",");
        }
        if c.is_named && !c.is_kind(",") {
            match parse_expression(c, src, depth) {
                Some(e) => {
                    proof {
                        lemma_expr_rel_exclusive(src@, *c, e, depth as nat);
                    }
                    let ghost before = out@;
                    out.push(Argument::Expression(Box::new(e)));
                    assert(out@.drop_last() =~= before);
                },
                None => {},
            }
        }
        i = i + 1;
    }
    assert(cs@.take(cs@.len() as int) =~= cs@);
    out
}

/// The first named child of `n`, which is ready too.
fn first_named_child<'a>(n: &'a SyntaxNode, Ghost(len): Ghost<int>) -> (r: Option<&'a SyntaxNode>)
    requires
        parse_ready(*n, len),
    ensures
        match r {
            Some(c) => first_named(n.children@) == Some(*c) && parse_ready(*c, len),
            None => first_named(n.children@) is None,
        },
{
    let ghost cs = n.children@;
    assert(cs.skip(0) =~= cs);
    let mut i: usize = 0;
    while i < n.children.len()
        invariant
            i <= cs.len(),
            cs == n.children@,
            parse_ready(*n, len),
            first_named(cs) == first_named(cs.skip(i as int)),
        decreases cs.len() - i,
    {
        assert(cs.skip(i as int).drop_first() =~= cs.skip(i + 1));
        assert(cs.skip(i as int)[0] == n.children@[i as int]);
        if n.children[i].is_named {
            proof {
                lemma_fits_child(*n, i as int, len, 1, 0);
            }
            return Some(&n.children[i]);
        }
        i = i + 1;
    }
    None
}

/// Parse the designator `d` of an initializer pair (see `designator_rel`).
fn parse_designator(d: &SyntaxNode, src: &[u8], depth: usize) -> (r: Option<Designator>)
    requires
        parse_ready(*d, src@.len() as int),
    ensures
        designator_rel(src@, *d, r, depth as nat),
    decreases depth, 2int, 1int,
{
    let ghost len = src@.len() as int;
    proof {
        lemma_fits_root(*d, len, 1, 0);
        reveal_strlit("field_designator");
        reveal_strlit("field_identifier");
        reveal_strlit("subscript_designator");
    }
    if d.is_kind("field_designator") {
        match first_named_child(d, Ghost(len)) {
            Some(fi) => {
                proof {
                    lemma_fits_root(*fi, len, 1, 0);
                }
                match node_text_opt(fi, src) {
                    Some(t) => Some(Designator::Field(t)),
                    None => None,
                }
            },
            None => None,
        }
    } else if d.is_kind("field_identifier") {
        match node_text_opt(d, src) {
            Some(t) => Some(Designator::Field(t)),
            None => None,
        }
    } else if d.is_kind("subscript_designator") {
        match first_named_child(d, Ghost(len)) {
            Some(e) => match parse_expression(e, src, depth) {
                Some(x) => {
                    proof {
                        lemma_expr_rel_exclusive(src@, *e, x, depth as nat);
                    }
                    Some(Designator::Subscript(Box::new(x)))
                },
                None => None,
            },
            None => None,
        }
    } else {
        None
    }
}

/// The items of an initializer list with children `cs` (see `items_rel`).
fn parse_initializer_items(cs: &Vec<SyntaxNode>, src: &[u8], depth: usize) -> (r: Vec<InitializerItem>)
    requires
        forall|i: int| 0 <= i < cs@.len() ==> parse_ready(#[trigger] cs@[i], src@.len() as int),
    ensures
        items_rel(src@, cs@, r@, depth as nat),
    decreases depth, 3int, cs@.len(),
{
    let ghost len = src@.len() as int;
    let mut out: Vec<InitializerItem> = Vec::new();
    let mut i: usize = 0;
    while i < cs.len()
        invariant
            i <= cs@.len(),
            len == src@.len(),
            forall|j: int| 0 <= j < cs@.len() ==> parse_ready(#[trigger] cs@[j], len),
            items_rel(src@, cs@.take(i as int), out@, depth as nat),
        decreases cs@.len() - i,
    {
        let c = &cs[i];
        assert(cs@.take(i + 1).drop_last() =~= cs@.take(i as int));
        assert(cs@.take(i + 1).last() == *c);
        assert(parse_ready(cs@[i as int], len));
        proof {
            reveal_strlit("comment");
            reveal_strlit("initializer_pair");
            reveal_strlit("value");
            reveal_strlit("designator");
        }
        if c.is_named && !c.is_kind("comment") {
            if c.is_kind("initializer_pair") {
                match field_child(c, "value", Ghost(len)) {
                    Some(v) => match parse_expression(v, src, depth) {
                        Some(x) => {
                            proof {
                                lemma_expr_rel_exclusive(src@, *v, x, depth as nat);
                            }
                            let designator = match field_child(c, "designator", Ghost(len)) {
                                Some(dn) => parse_designator(dn, src, depth),
                                None => None,
                            };
                            let ghost before = out@;
                            out.push(InitializerItem { designator, value: Box::new(x) });
                            assert(out@.drop_last() =~= before);
                        },
                        None => {},
                    },
                    None => {},
                }
            } else {
                match parse_expression(c, src, depth) {
                    Some(x) => {
                        proof {
                            lemma_expr_rel_exclusive(src@, *c, x, depth as nat);
                        }
                        let ghost before = out@;
                        out.push(InitializerItem { designator: None, value: Box::new(x) });
                        assert(out@.drop_last() =~= before);
                    },
                    None => {},
                }
            }
        }
        i = i + 1;
    }
    assert(cs@.take(cs@.len() as int) =~= cs@);
    out
}

/// Parse an `initializer_list` node.
fn parse_initializer_list_node(n: &SyntaxNode, src: &[u8], depth: usize) -> (r: Option<Expression>)
    requires
        parse_ready(*n, src@.len() as int),
        depth > 0,
        n.kind@ == "initializer_list"@,
    ensures
        expr_rel(src@, *n, r, depth as nat),
    decreases depth, 1int, 0int,
{
    let ghost len = src@.len() as int;
    let d = depth - 1;
    proof {
        lemma_fits_root(*n, len, 1, 0);
        reveal_expression_kinds();
        assert forall|i: int| 0 <= i < n.children@.len() implies parse_ready(#[trigger] n.children@[i], len) by {
            lemma_fits_child(*n, i, len, 1, 0);
        }
    }
    let location = node_location(n, src.len());
    let items = parse_initializer_items(&n.children, src, d);
    Some(Expression::InitializerList(InitializerListExpression { items, location }))
}

/// The operand of a `sizeof` with children `cs`.
fn parse_sizeof_operand(cs: &Vec<SyntaxNode>, src: &[u8], depth: usize) -> (r: Option<SizeofOperand>)
    requires
        forall|i: int| 0 <= i < cs@.len() ==> parse_ready(#[trigger] cs@[i], src@.len() as int),
    ensures
        sizeof_rel(src@, cs@, r, depth as nat),
    decreases depth, 3int, cs@.len(),
{
    let mut k = cs.len();
    assert(cs@.take(k as int) =~= cs@);
    // Search from the last child for the one that decides.
    while k > 0
        invariant
            k <= cs@.len(),
            forall|i: int| 0 <= i < cs@.len() ==> parse_ready(#[trigger] cs@[i], src@.len() as int),
            forall|op: Option<SizeofOperand>|
                sizeof_rel(src@, cs@, op, depth as nat) == sizeof_rel(
                    src@,
                    cs@.take(k as int),
                    op,
                    depth as nat,
                ),
        decreases k,
    {
        let c = &cs[k - 1];
        assert(cs@.take(k as int).drop_last() =~= cs@.take(k - 1));
        assert(cs@.take(k as int).last() == *c);
        assert(parse_ready(cs@[k - 1], src@.len() as int));
        proof {
            reveal_strlit("sizeof");
            reveal_strlit("(");
            reveal_strlit(")");
            reveal_strlit("type_descriptor");
        }
        if c.is_kind("sizeof") || c.is_kind("(") || c.is_kind(")") {
        } else if c.is_kind("type_descriptor") {
            match parse_type(c, src) {
                Some(t) => {
                    return Some(SizeofOperand::Type(t));
                },
                None => {},
            }
        } else if c.is_named {
            match parse_expression(c, src, depth) {
                Some(e) => {
                    proof {
                        lemma_expr_rel_exclusive(src@, *c, e, depth as nat);
                    }
                    return Some(SizeofOperand::Expression(Box::new(e)));
                },
                None => {},
            }
        }
        k = k - 1;
    }
    None
}

/// Parse a `call_expression` node.
fn parse_call_node(n: &SyntaxNode, src: &[u8], depth: usize) -> (r: Option<Expression>)
    requires
        parse_ready(*n, src@.len() as int),
        depth > 0,
        n.kind@ == "call_expression"@,
    ensures
        expr_rel(src@, *n, r, depth as nat),
    decreases depth, 1int, 0int,
{
    let ghost len = src@.len() as int;
    let d = depth - 1;
    proof {
        lemma_fits_root(*n, len, 1, 0);
        reveal_expression_kinds();
    }
    let location = node_location(n, src.len());
        let f = match field_child(n, "function", Ghost(len)) {
            Some(f) => f,
            None => return None,
        };
        let function = match node_text_opt(f, src) {
            Some(t) => t,
            None => return None,
        };
        let arguments = match field_child(n, "arguments", Ghost(len)) {
            Some(a) => {
                proof {
                    assert forall|i: int| 0 <= i < a.children@.len() implies parse_ready(
                        #[trigger] a.children@[i],
                        len,
                    ) by {
                        lemma_fits_child(*a, i, len, 1, 0);
                    }
                }
                parse_arguments(&a.children, src, d, Ghost(*n))
            },
            None => {
                let v: Vec<Argument> = Vec::new();
                assert(call_arg_nodes(*n) =~= Seq::<SyntaxNode>::empty());
                v
            },
        };
        assert(args_rel(src@, call_arg_nodes(*n), arguments@, d as nat));
        return Some(Expression::Call(CallExpression { function, arguments, location }));
    }

/// Parse a `assignment_expression` node.
fn parse_assignment_node(n: &SyntaxNode, src: &[u8], depth: usize) -> (r: Option<Expression>)
    requires
        parse_ready(*n, src@.len() as int),
        depth > 0,
        n.kind@ == "assignment_expression"@,
    ensures
        expr_rel(src@, *n, r, depth as nat),
    decreases depth, 1int, 0int,
{
    let ghost len = src@.len() as int;
    let d = depth - 1;
    proof {
        lemma_fits_root(*n, len, 1, 0);
        reveal_expression_kinds();
    }
    let location = node_location(n, src.len());
        let (l, o, rt) = match (
            field_child(n, "left", Ghost(len)),
            field_child(n, "operator", Ghost(len)),
            field_child(n, "right", Ghost(len)),
        ) {
            (Some(l), Some(o), Some(rt)) => (l, o, rt),
            _ => return None,
        };
        let ot = match node_text_opt(o, src) {
            Some(t) => t,
            None => return None,
        };
        let operator = match assignment_op(ot.as_str()) {
            Some(op) => op,
            None => return None,
        };
        let lhs = parse_expression(l, src, d);
        let rhs = parse_expression(rt, src, d);
        return match (lhs, rhs) {
            (Some(a), Some(b)) => {
                proof {
                    lemma_expr_rel_exclusive(src@, *l, a, d as nat);
                    lemma_expr_rel_exclusive(src@, *rt, b, d as nat);
                }
                Some(Expression::Assignment(Assignment { lhs: Box::new(a), operator, rhs: Box::new(b), location }))
            },
            _ => None,
        };
    }

/// Parse a `binary_expression` node.
fn parse_binary_node(n: &SyntaxNode, src: &[u8], depth: usize) -> (r: Option<Expression>)
    requires
        parse_ready(*n, src@.len() as int),
        depth > 0,
        n.kind@ == "binary_expression"@,
    ensures
        expr_rel(src@, *n, r, depth as nat),
    decreases depth, 1int, 0int,
{
    let ghost len = src@.len() as int;
    let d = depth - 1;
    proof {
        lemma_fits_root(*n, len, 1, 0);
        reveal_expression_kinds();
    }
    let location = node_location(n, src.len());
        let (l, o, rt) = match (
            field_child(n, "left", Ghost(len)),
            field_child(n, "operator", Ghost(len)),
            field_child(n, "right", Ghost(len)),
        ) {
            (Some(l), Some(o), Some(rt)) => (l, o, rt),
            _ => return None,
        };
        let operator = match node_text_opt(o, src) {
            Some(t) => t,
            None => return None,
        };
        let left = parse_expression(l, src, d);
        let right = parse_expression(rt, src, d);
        return match (left, right) {
            (Some(a), Some(b)) => {
                proof {
                    lemma_expr_rel_exclusive(src@, *l, a, d as nat);
                    lemma_expr_rel_exclusive(src@, *rt, b, d as nat);
                }
                Some(Expression::Binary(BinaryExpression { left: Box::new(a), operator, right: Box::new(b), location }))
            },
            _ => None,
        };
    }

/// Parse a `unary_expression / pointer_expression` node.
fn parse_unary_node(n: &SyntaxNode, src: &[u8], depth: usize) -> (r: Option<Expression>)
    requires
        parse_ready(*n, src@.len() as int),
        depth > 0,
        n.kind@ == "unary_expression"@ || n.kind@ == "pointer_expression"@,
    ensures
        expr_rel(src@, *n, r, depth as nat),
    decreases depth, 1int, 0int,
{
    let ghost len = src@.len() as int;
    let d = depth - 1;
    proof {
        lemma_fits_root(*n, len, 1, 0);
        reveal_expression_kinds();
    }
    let location = node_location(n, src.len());
        let (o, a) = match (field_child(n, "operator", Ghost(len)), field_child(n, "argument", Ghost(len))) {
            (Some(o), Some(a)) => (o, a),
            _ => return None,
        };
        let ot = match node_text_opt(o, src) {
            Some(t) => t,
            None => return None,
        };
        let operator = match unary_op(ot.as_str()) {
            Some(op) => op,
            None => return None,
        };
        return match parse_expression(a, src, d) {
            Some(x) => {
                proof {
                    lemma_expr_rel_exclusive(src@, *a, x, d as nat);
                }
                Some(Expression::Unary(UnaryExpression { operator, operand: Box::new(x), location }))
            },
            None => None,
        };
    }

/// Parse a `parenthesized_expression` node.
fn parse_parenthesized_node(n: &SyntaxNode, src: &[u8], depth: usize) -> (r: Option<Expression>)
    requires
        parse_ready(*n, src@.len() as int),
        depth > 0,
        n.kind@ == "parenthesized_expression"@,
    ensures
        expr_rel(src@, *n, r, depth as nat),
    decreases depth, 1int, 0int,
{
    let ghost len = src@.len() as int;
    let d = depth - 1;
    proof {
        lemma_fits_root(*n, len, 1, 0);
        reveal_expression_kinds();
    }
    let location = node_location(n, src.len());
        let ghost cs = n.children@;
        assert(cs.skip(0) =~= cs);
        let mut i: usize = 0;
        while i < n.children.len()
            invariant
                i <= cs.len(),
                cs == n.children@,
                parse_ready(*n, len),
                len == src@.len(),
                depth > 0,
                d == depth - 1,
                n.kind@ == "parenthesized_expression"@,
                first_inner(cs) == first_inner(cs.skip(i as int)),
            decreases cs.len() - i,
        {
            let c = &n.children[i];
            assert(cs.skip(i as int).drop_first() =~= cs.skip(i + 1));
            assert(cs.skip(i as int)[0] == *c);
            proof {
                reveal_strlit("(");
                reveal_strlit(")");
            }
            if c.is_named && !c.is_kind("(") && !c.is_kind(")") {
                proof {
                    lemma_fits_child(*n, i as int, len, 1, 0);
                    reveal_expression_kinds();
                }
                assert(first_inner(cs) == Some(*c));
                return parse_expression(c, src, d);
            }
            i = i + 1;
        }
        proof {
            reveal_expression_kinds();
        }
        return None;
    }

/// Parse a `identifier` node.
fn parse_identifier_node(n: &SyntaxNode, src: &[u8], depth: usize) -> (r: Option<Expression>)
    requires
        parse_ready(*n, src@.len() as int),
        depth > 0,
        n.kind@ == "identifier"@,
    ensures
        expr_rel(src@, *n, r, depth as nat),
    decreases depth, 1int, 0int,
{
    let ghost len = src@.len() as int;
    let d = depth - 1;
    proof {
        lemma_fits_root(*n, len, 1, 0);
        reveal_expression_kinds();
    }
    let location = node_location(n, src.len());
        return match node_text_opt(n, src) {
            Some(name) => Some(Expression::Identifier(IdentifierExpression { name, location })),
            None => None,
        };
    }

/// Parse a `field_expression` node.
fn parse_field_node(n: &SyntaxNode, src: &[u8], depth: usize) -> (r: Option<Expression>)
    requires
        parse_ready(*n, src@.len() as int),
        depth > 0,
        n.kind@ == "field_expression"@,
    ensures
        expr_rel(src@, *n, r, depth as nat),
    decreases depth, 1int, 0int,
{
    let ghost len = src@.len() as int;
    let d = depth - 1;
    proof {
        lemma_fits_root(*n, len, 1, 0);
        reveal_expression_kinds();
    }
    let location = node_location(n, src.len());
        let (b, o, f) = match (
            field_child(n, "argument", Ghost(len)),
            field_child(n, "operator", Ghost(len)),
            field_child(n, "field", Ghost(len)),
        ) {
            (Some(b), Some(o), Some(f)) => (b, o, f),
            _ => return None,
        };
        let (ot, field, text) = match (node_text_opt(o, src), node_text_opt(f, src), node_text_opt(n, src)) {
            (Some(a), Some(b), Some(c)) => (a, b, c),
            _ => return None,
        };
        proof {
            reveal_strlit("->");
            reveal_strlit(".");
        }
        let operator = if str_eq(ot.as_str(), "->") {
            FieldAccessOp::Arrow
        } else if str_eq(ot.as_str(), ".") {
            FieldAccessOp::Dot
        } else {
            return None;
        };
        return match parse_expression(b, src, d) {
            Some(x) => {
                proof {
                    lemma_expr_rel_exclusive(src@, *b, x, d as nat);
                }
                Some(Expression::FieldAccess(FieldAccessExpression { base: Box::new(x), operator, field, text, location }))
            },
            None => None,
        };
    }

/// Parse a `string_literal` node.
fn parse_string_lit_node(n: &SyntaxNode, src: &[u8], depth: usize) -> (r: Option<Expression>)
    requires
        parse_ready(*n, src@.len() as int),
        depth > 0,
        n.kind@ == "string_literal"@,
    ensures
        expr_rel(src@, *n, r, depth as nat),
    decreases depth, 1int, 0int,
{
    let ghost len = src@.len() as int;
    let d = depth - 1;
    proof {
        lemma_fits_root(*n, len, 1, 0);
        reveal_expression_kinds();
    }
    let location = node_location(n, src.len());
        return match node_text_opt(n, src) {
            Some(value) => Some(Expression::StringLiteral(StringLiteralExpression { value, location })),
            None => None,
        };
    }

/// Parse a `number_literal` node.
fn parse_number_lit_node(n: &SyntaxNode, src: &[u8], depth: usize) -> (r: Option<Expression>)
    requires
        parse_ready(*n, src@.len() as int),
        depth > 0,
        n.kind@ == "number_literal"@,
    ensures
        expr_rel(src@, *n, r, depth as nat),
    decreases depth, 1int, 0int,
{
    let ghost len = src@.len() as int;
    let d = depth - 1;
    proof {
        lemma_fits_root(*n, len, 1, 0);
        reveal_expression_kinds();
    }
    let location = node_location(n, src.len());
        return match node_text_opt(n, src) {
            Some(value) => Some(Expression::NumberLiteral(NumberLiteralExpression { value, location })),
            None => None,
        };
    }

/// Parse a `char_literal` node.
fn parse_char_lit_node(n: &SyntaxNode, src: &[u8], depth: usize) -> (r: Option<Expression>)
    requires
        parse_ready(*n, src@.len() as int),
        depth > 0,
        n.kind@ == "char_literal"@,
    ensures
        expr_rel(src@, *n, r, depth as nat),
    decreases depth, 1int, 0int,
{
    let ghost len = src@.len() as int;
    let d = depth - 1;
    proof {
        lemma_fits_root(*n, len, 1, 0);
        reveal_expression_kinds();
    }
    let location = node_location(n, src.len());
        return match node_text_opt(n, src) {
            Some(value) => Some(Expression::CharLiteral(CharLiteralExpression { value, location })),
            None => None,
        };
    }

/// Parse a `null / NULL` node.
fn parse_null_node(n: &SyntaxNode, src: &[u8], depth: usize) -> (r: Option<Expression>)
    requires
        parse_ready(*n, src@.len() as int),
        depth > 0,
        n.kind@ == "null"@ || n.kind@ == "NULL"@,
    ensures
        expr_rel(src@, *n, r, depth as nat),
    decreases depth, 1int, 0int,
{
    let ghost len = src@.len() as int;
    let d = depth - 1;
    proof {
        lemma_fits_root(*n, len, 1, 0);
        reveal_expression_kinds();
    }
    let location = node_location(n, src.len());
        return Some(Expression::Null(NullExpression { location }));
    }

/// Parse a `true / TRUE` node.
fn parse_true_node(n: &SyntaxNode, src: &[u8], depth: usize) -> (r: Option<Expression>)
    requires
        parse_ready(*n, src@.len() as int),
        depth > 0,
        n.kind@ == "true"@ || n.kind@ == "TRUE"@,
    ensures
        expr_rel(src@, *n, r, depth as nat),
    decreases depth, 1int, 0int,
{
    let ghost len = src@.len() as int;
    let d = depth - 1;
    proof {
        lemma_fits_root(*n, len, 1, 0);
        reveal_expression_kinds();
    }
    let location = node_location(n, src.len());
        return Some(Expression::Boolean(BooleanExpression { value: true, location }));
    }

/// Parse a `false / FALSE` node.
fn parse_false_node(n: &SyntaxNode, src: &[u8], depth: usize) -> (r: Option<Expression>)
    requires
        parse_ready(*n, src@.len() as int),
        depth > 0,
        n.kind@ == "false"@ || n.kind@ == "FALSE"@,
    ensures
        expr_rel(src@, *n, r, depth as nat),
    decreases depth, 1int, 0int,
{
    let ghost len = src@.len() as int;
    let d = depth - 1;
    proof {
        lemma_fits_root(*n, len, 1, 0);
        reveal_expression_kinds();
    }
    let location = node_location(n, src.len());
        return Some(Expression::Boolean(BooleanExpression { value: false, location }));
    }

/// Parse a `cast_expression` node.
fn parse_cast_node(n: &SyntaxNode, src: &[u8], depth: usize) -> (r: Option<Expression>)
    requires
        parse_ready(*n, src@.len() as int),
        depth > 0,
        n.kind@ == "cast_expression"@,
    ensures
        expr_rel(src@, *n, r, depth as nat),
    decreases depth, 1int, 0int,
{
    let ghost len = src@.len() as int;
    let d = depth - 1;
    proof {
        lemma_fits_root(*n, len, 1, 0);
        reveal_expression_kinds();
    }
    let location = node_location(n, src.len());
        let (t, v) = match (field_child(n, "type", Ghost(len)), field_child(n, "value", Ghost(len))) {
            (Some(t), Some(v)) => (t, v),
            _ => return None,
        };
        let ti = parse_type(t, src);
        let ov = parse_expression(v, src, d);
        return match (ti, ov) {
            (Some(type_info), Some(x)) => {
                proof {
                    lemma_expr_rel_exclusive(src@, *v, x, d as nat);
                }
                Some(Expression::Cast(CastExpression { type_info, operand: Box::new(x), location }))
            },
            _ => None,
        };
    }

/// Parse a `conditional_expression` node.
fn parse_conditional_node(n: &SyntaxNode, src: &[u8], depth: usize) -> (r: Option<Expression>)
    requires
        parse_ready(*n, src@.len() as int),
        depth > 0,
        n.kind@ == "conditional_expression"@,
    ensures
        expr_rel(src@, *n, r, depth as nat),
    decreases depth, 1int, 0int,
{
    let ghost len = src@.len() as int;
    let d = depth - 1;
    proof {
        lemma_fits_root(*n, len, 1, 0);
        reveal_expression_kinds();
    }
    let location = node_location(n, src.len());
        let (c, t, e) = match (
            field_child(n, "condition", Ghost(len)),
            field_child(n, "consequence", Ghost(len)),
            field_child(n, "alternative", Ghost(len)),
        ) {
            (Some(c), Some(t), Some(e)) => (c, t, e),
            _ => return None,
        };
        let pc = parse_expression(c, src, d);
        let pt = parse_expression(t, src, d);
        let pe = parse_expression(e, src, d);
        return match (pc, pt, pe) {
            (Some(x), Some(y), Some(z)) => {
                proof {
                    lemma_expr_rel_exclusive(src@, *c, x, d as nat);
                    lemma_expr_rel_exclusive(src@, *t, y, d as nat);
                    lemma_expr_rel_exclusive(src@, *e, z, d as nat);
                }
                Some(Expression::Conditional(ConditionalExpression {
                    condition: Box::new(x),
                    then_expr: Box::new(y),
                    else_expr: Box::new(z),
                    location,
                }))
            },
            _ => None,
        };
    }

/// Parse a `sizeof_expression` node.
fn parse_sizeof_node(n: &SyntaxNode, src: &[u8], depth: usize) -> (r: Option<Expression>)
    requires
        parse_ready(*n, src@.len() as int),
        depth > 0,
        n.kind@ == "sizeof_expression"@,
    ensures
        expr_rel(src@, *n, r, depth as nat),
    decreases depth, 1int, 0int,
{
    let ghost len = src@.len() as int;
    let d = depth - 1;
    proof {
        lemma_fits_root(*n, len, 1, 0);
        reveal_expression_kinds();
    }
    let location = node_location(n, src.len());
        let text = match node_text_opt(n, src) {
            Some(t) => t,
            None => return None,
        };
        proof {
            assert forall|i: int| 0 <= i < n.children@.len() implies parse_ready(#[trigger] n.children@[i], len) by {
                lemma_fits_child(*n, i, len, 1, 0);
            }
        }
        let operand = parse_sizeof_operand(&n.children, src, d);
        return Some(Expression::Sizeof(SizeofExpression { operand, text, location }));
    }

/// Parse a `subscript_expression` node.
fn parse_subscript_node(n: &SyntaxNode, src: &[u8], depth: usize) -> (r: Option<Expression>)
    requires
        parse_ready(*n, src@.len() as int),
        depth > 0,
        n.kind@ == "subscript_expression"@,
    ensures
        expr_rel(src@, *n, r, depth as nat),
    decreases depth, 1int, 0int,
{
    let ghost len = src@.len() as int;
    let d = depth - 1;
    proof {
        lemma_fits_root(*n, len, 1, 0);
        reveal_expression_kinds();
    }
    let location = node_location(n, src.len());
        let (a, i) = match (field_child(n, "argument", Ghost(len)), field_child(n, "index", Ghost(len))) {
            (Some(a), Some(i)) => (a, i),
            _ => return None,
        };
        let pa = parse_expression(a, src, d);
        let pi = parse_expression(i, src, d);
        return match (pa, pi) {
            (Some(x), Some(y)) => {
                proof {
                    lemma_expr_rel_exclusive(src@, *a, x, d as nat);
                    lemma_expr_rel_exclusive(src@, *i, y, d as nat);
                }
                Some(Expression::Subscript(SubscriptExpression { array: Box::new(x), index: Box::new(y), location }))
            },
            _ => None,
        };
    }

/// Parse a `update_expression` node.
fn parse_update_node(n: &SyntaxNode, src: &[u8], depth: usize) -> (r: Option<Expression>)
    requires
        parse_ready(*n, src@.len() as int),
        depth > 0,
        n.kind@ == "update_expression"@,
    ensures
        expr_rel(src@, *n, r, depth as nat),
    decreases depth, 1int, 0int,
{
    let ghost len = src@.len() as int;
    let d = depth - 1;
    proof {
        lemma_fits_root(*n, len, 1, 0);
        reveal_expression_kinds();
    }
    let location = node_location(n, src.len());
        let (o, a) = match (field_child(n, "operator", Ghost(len)), field_child(n, "argument", Ghost(len))) {
            (Some(o), Some(a)) => (o, a),
            _ => return None,
        };
        let ot = match node_text_opt(o, src) {
            Some(t) => t,
            None => return None,
        };
        proof {
            reveal_strlit("++");
            reveal_strlit("--");
        }
        let operator = if str_eq(ot.as_str(), "++") {
            UpdateOp::Increment
        } else if str_eq(ot.as_str(), "--") {
            UpdateOp::Decrement
        } else {
            return None;
        };
        return match parse_expression(a, src, d) {
            Some(x) => {
                proof {
                    lemma_expr_rel_exclusive(src@, *a, x, d as nat);
                }
                Some(Expression::Update(UpdateExpression {
                    operator,
                    operand: Box::new(x),
                    is_prefix: o.start_byte < a.start_byte,
                    location,
                }))
            },
            None => None,
        };
    }

/// Parse a `comment` node.
fn parse_comment_node(n: &SyntaxNode, src: &[u8], depth: usize) -> (r: Option<Expression>)
    requires
        parse_ready(*n, src@.len() as int),
        depth > 0,
        n.kind@ == "comment"@,
    ensures
        expr_rel(src@, *n, r, depth as nat),
    decreases depth, 1int, 0int,
{
    let ghost len = src@.len() as int;
    let d = depth - 1;
    proof {
        lemma_fits_root(*n, len, 1, 0);
        reveal_expression_kinds();
    }
    let location = node_location(n, src.len());
        return match node_text_opt(n, src) {
            Some(text) => Some(Expression::Comment(CommentExpression { text, location })),
            None => None,
        };
    }

/// The node kinds that the expression parser reads as a particular kind of
/// expression.
pub open spec fn handled_expression_kind(k: Seq<char>) -> bool {
    ||| k == "call_expression"@ || k == "assignment_expression"@ || k == "binary_expression"@
    ||| k == "unary_expression"@ || k == "pointer_expression"@ || k == "parenthesized_expression"@
    ||| k == "identifier"@ || k == "field_expression"@ || k == "string_literal"@
    ||| k == "number_literal"@ || k == "char_literal"@ || k == "null"@ || k == "NULL"@
    ||| k == "true"@ || k == "TRUE"@ || k == "false"@ || k == "FALSE"@
    ||| k == "cast_expression"@ || k == "conditional_expression"@ || k == "sizeof_expression"@
    ||| k == "subscript_expression"@ || k == "update_expression"@ || k == "initializer_list"@
    ||| k == "comment"@
}

/// Parse an expression node down to `depth` levels (see `expr_rel`).  A node
/// of a kind that no case handles becomes a `Generic` expression holding its
/// text and place (nothing when its text is not UTF-8); it is never an
/// error.
pub fn parse_expression(n: &SyntaxNode, src: &[u8], depth: usize) -> (r: Option<Expression>)
    requires
        parse_ready(*n, src@.len() as int),
    ensures
        expr_rel(src@, *n, r, depth as nat),
        depth > 0 && !handled_expression_kind(n.kind@) ==> match text_at(src@, *n) {
            Some(t) => r matches Some(Expression::Generic(g)) && g.text@ == t && g.location == loc_of(*n),
            None => r is None,
        },
    decreases depth, 2int, 0int,
{
    let ghost len = src@.len() as int;
    if depth == 0 {
        return None;
    }
    proof {
        lemma_fits_root(*n, len, 1, 0);
        reveal_expression_kinds();
    }
    if n.is_kind("call_expression") {
        return parse_call_node(n, src, depth);
    }
    if n.is_kind("assignment_expression") {
        return parse_assignment_node(n, src, depth);
    }
    if n.is_kind("binary_expression") {
        return parse_binary_node(n, src, depth);
    }
    if n.is_kind("unary_expression") || n.is_kind("pointer_expression") {
        return parse_unary_node(n, src, depth);
    }
    if n.is_kind("parenthesized_expression") {
        return parse_parenthesized_node(n, src, depth);
    }
    if n.is_kind("identifier") {
        return parse_identifier_node(n, src, depth);
    }
    if n.is_kind("field_expression") {
        return parse_field_node(n, src, depth);
    }
    if n.is_kind("string_literal") {
        return parse_string_lit_node(n, src, depth);
    }
    if n.is_kind("number_literal") {
        return parse_number_lit_node(n, src, depth);
    }
    if n.is_kind("char_literal") {
        return parse_char_lit_node(n, src, depth);
    }
    if n.is_kind("null") || n.is_kind("NULL") {
        return parse_null_node(n, src, depth);
    }
    if n.is_kind("true") || n.is_kind("TRUE") {
        return parse_true_node(n, src, depth);
    }
    if n.is_kind("false") || n.is_kind("FALSE") {
        return parse_false_node(n, src, depth);
    }
    if n.is_kind("cast_expression") {
        return parse_cast_node(n, src, depth);
    }
    if n.is_kind("conditional_expression") {
        return parse_conditional_node(n, src, depth);
    }
    if n.is_kind("sizeof_expression") {
        return parse_sizeof_node(n, src, depth);
    }
    if n.is_kind("subscript_expression") {
        return parse_subscript_node(n, src, depth);
    }
    if n.is_kind("update_expression") {
        return parse_update_node(n, src, depth);
    }
    if n.is_kind("initializer_list") {
        return parse_initializer_list_node(n, src, depth);
    }
    if n.is_kind("comment") {
        return parse_comment_node(n, src, depth);
    }
    let location = node_location(n, src.len());
    match node_text_opt(n, src) {
        Some(text) => Some(Expression::Generic(GenericExpression { text, location })),
        None => None,
    }
}

// ---------------------------------------------------------------------------
// Statements
// ---------------------------------------------------------------------------

/// A kind of node that names the type of a declaration.
pub open spec fn is_type_part(k: Seq<char>) -> bool {
    ||| k == "primitive_type"@
    ||| k == "type_identifier"@
    ||| k == "sized_type_specifier"@
    ||| k == "struct_specifier"@
    ||| k == "union_specifier"@
    ||| k == "enum_specifier"@
    ||| k == "macro_type_specifier"@
}

/// A kind of node that declares the variable of a declaration.
pub open spec fn is_declarator(k: Seq<char>) -> bool {
    ||| k == "init_declarator"@
    ||| k == "pointer_declarator"@
    ||| k == "identifier"@
    ||| k == "array_declarator"@
}

/// The last child of `cs` that names a type.
pub open spec fn last_type_part(cs: Seq<SyntaxNode>) -> Option<SyntaxNode>
    decreases cs.len(),
{
    if cs.len() == 0 {
        None
    } else if is_type_part(cs.last().kind@) {
        Some(cs.last())
    } else {
        last_type_part(cs.drop_last())
    }
}

/// The first child of `cs` that declares the variable.
pub open spec fn first_declarator(cs: Seq<SyntaxNode>) -> Option<SyntaxNode>
    decreases cs.len(),
{
    if cs.len() == 0 {
        None
    } else if is_declarator(cs[0].kind@) {
        Some(cs[0])
    } else {
        first_declarator(cs.drop_first())
    }
}

/// The first node of `ns` of kind `kind`.
pub open spec fn first_kind(ns: Seq<SyntaxNode>, kind: Seq<char>) -> Option<SyntaxNode>
    decreases ns.len(),
{
    if ns.len() == 0 {
        None
    } else if ns[0].kind@ == kind {
        Some(ns[0])
    } else {
        first_kind(ns.drop_first(), kind)
    }
}

/// The automatic cleanup macro called `name`.
pub open spec fn cleanup_macro_of(name: Seq<char>) -> Option<crate::model::types::AutoCleanupMacro> {
    if name == "g_autoptr"@ {
        Some(crate::model::types::AutoCleanupMacro::Autoptr)
    } else if name == "g_autolist"@ {
        Some(crate::model::types::AutoCleanupMacro::Autolist)
    } else if name == "g_autoslist"@ {
        Some(crate::model::types::AutoCleanupMacro::Autoslist)
    } else if name == "g_autoqueue"@ {
        Some(crate::model::types::AutoCleanupMacro::Autoqueue)
    } else if name == "g_auto"@ {
        Some(crate::model::types::AutoCleanupMacro::Auto)
    } else {
        None
    }
}

/// Some child of `cs` is the storage class `static`.
pub open spec fn has_static(src: Seq<u8>, cs: Seq<SyntaxNode>) -> bool {
    exists|i: int|
        0 <= i < cs.len() && (#[trigger] cs[i]).kind@ == "storage_class_specifier"@ && text_at(
            src,
            cs[i],
        ) == Some("static"@)
}

/// The base type and cleanup macro that the type part `ty` gives: for
/// `g_autoptr (T)` and its kin, the type argument and the macro.
pub open spec fn type_part_base(src: Seq<u8>, ty: SyntaxNode) -> Option<(Seq<char>, Option<crate::model::types::AutoCleanupMacro>)> {
    if ty.kind@ == "macro_type_specifier"@ {
        match (child_by_field(ty.children@, "name"@), child_by_field(ty.children@, "type"@)) {
            (Some(m), Some(t)) => match (text_at(src, m), text_at(src, t)) {
                (Some(mt), Some(tt)) => Some((tt, cleanup_macro_of(mt))),
                _ => None,
            },
            _ => None,
        }
    } else {
        match specifier_name(src, ty) {
            Some(b) => Some((b, None)),
            None => None,
        }
    }
}

/// A node that can stand as an array's size: named, and neither a type
/// qualifier nor a comment.
pub open spec fn size_candidate(n: SyntaxNode) -> bool {
    n.is_named && n.kind@ != "type_qualifier"@ && n.kind@ != "comment"@
}

/// `a` is the size that the children `cs[i..]` of an array declarator give:
/// the parse of the first candidate after `[` (with `seen`, a `[` came
/// before `i`), and none once `]` comes first.
pub open spec fn bracket_size_rel(src: Seq<u8>, cs: Seq<SyntaxNode>, i: int, seen: bool, a: Option<Expression>, depth: nat) -> bool
    decreases cs.len() - i,
{
    if i < 0 || i >= cs.len() {
        a is None
    } else if cs[i].kind@ == "["@ {
        bracket_size_rel(src, cs, i + 1, true, a, depth)
    } else if cs[i].kind@ == "]"@ {
        a is None
    } else if seen && size_candidate(cs[i]) {
        expr_rel(src, cs[i], a, depth)
    } else {
        bracket_size_rel(src, cs, i + 1, seen, a, depth)
    }
}

/// `a` is the array size found in the tree of `n`: an array declarator gives
/// the size in its brackets; any other node gives the first size that one
/// of its children gives.
pub open spec fn array_size_rel(src: Seq<u8>, n: SyntaxNode, a: Option<Expression>, depth: nat) -> bool
    decreases n, 1int,
{
    if n.kind@ == "array_declarator"@ {
        bracket_size_rel(src, n.children@, 0, false, a, depth)
    } else {
        array_size_list_rel(src, n.children@, 0, a, depth)
    }
}

/// `a` is the first size that one of `cs[i..]` gives.
pub open spec fn array_size_list_rel(src: Seq<u8>, cs: Seq<SyntaxNode>, i: int, a: Option<Expression>, depth: nat) -> bool
    decreases cs, 0int, cs.len() - i,
{
    if 0 <= i < cs.len() {
        if array_size_rel(src, cs[i], None, depth) {
            array_size_list_rel(src, cs, i + 1, a, depth)
        } else {
            a is Some && array_size_rel(src, cs[i], a, depth)
        }
    } else {
        a is None
    }
}

/// The size in the brackets of the array declarator `n`.
fn bracket_size(n: &SyntaxNode, src: &[u8], depth: usize) -> (r: Option<Expression>)
    requires
        parse_ready(*n, src@.len() as int),
    ensures
        bracket_size_rel(src@, n.children@, 0, false, r, depth as nat),
{
    let ghost len = src@.len() as int;
    let ghost cs = n.children@;
    let mut seen = false;
    let mut i: usize = 0;
    while i < n.children.len()
        invariant
            i <= cs.len(),
            cs == n.children@,
            parse_ready(*n, len),
            len == src@.len(),
            forall|a: Option<Expression>|
                #[trigger] bracket_size_rel(src@, cs, i as int, seen, a, depth as nat) ==> bracket_size_rel(
                    src@,
                    cs,
                    0,
                    false,
                    a,
                    depth as nat,
                ),
        decreases cs.len() - i,
    {
        let c = &n.children[i];
        let ghost was = seen;
        if c.is_kind("[") {
            seen = true;
        } else if c.is_kind("]") {
            assert(bracket_size_rel(src@, cs, i as int, seen, None, depth as nat));
            return None;
        } else if seen && c.is_named && !c.is_kind("type_qualifier") && !c.is_kind("comment") {
            proof {
                lemma_fits_child(*n, i as int, len, 1, 0);
            }
            let r = parse_expression(c, src, depth);
            assert(bracket_size_rel(src@, cs, i as int, seen, r, depth as nat));
            return r;
        }
        assert forall|a: Option<Expression>| #[trigger]
            bracket_size_rel(src@, cs, i + 1, seen, a, depth as nat) implies bracket_size_rel(
            src@,
            cs,
            i as int,
            was,
            a,
            depth as nat,
        ) by {}
        i = i + 1;
    }
    assert(bracket_size_rel(src@, cs, i as int, seen, None, depth as nat));
    None
}

/// The array size found in the tree of `n` (see `array_size_rel`).
pub fn find_array_size(n: &SyntaxNode, src: &[u8], depth: usize) -> (r: Option<Expression>)
    requires
        parse_ready(*n, src@.len() as int),
    ensures
        array_size_rel(src@, *n, r, depth as nat),
    decreases *n, 1int,
{
    let ghost len = src@.len() as int;
    if n.is_kind("array_declarator") {
        return bracket_size(n, src, depth);
    }
    let ghost cs = n.children@;
    let mut i: usize = 0;
    while i < n.children.len()
        invariant
            i <= cs.len(),
            cs == n.children@,
            parse_ready(*n, len),
            len == src@.len(),
            n.kind@ != "array_declarator"@,
            forall|a: Option<Expression>|
                #[trigger] array_size_list_rel(src@, cs, i as int, a, depth as nat) ==> array_size_list_rel(
                    src@,
                    cs,
                    0,
                    a,
                    depth as nat,
                ),
        decreases cs.len() - i,
    {
        proof {
            lemma_fits_child(*n, i as int, len, 1, 0);
        }
        let found = find_array_size(&n.children[i], src, depth);
        match found {
            Some(e) => {
                proof {
                    if array_size_rel(src@, cs[i as int], None, depth as nat) {
                        lemma_array_size_exclusive(src@, cs[i as int], Some(e), depth as nat);
                    }
                }
                assert(array_size_list_rel(src@, cs, i as int, Some(e), depth as nat));
                return Some(e);
            },
            None => {
                assert forall|a: Option<Expression>| #[trigger]
                    array_size_list_rel(src@, cs, i + 1, a, depth as nat) implies array_size_list_rel(
                    src@,
                    cs,
                    i as int,
                    a,
                    depth as nat,
                ) by {}
            },
        }
        i = i + 1;
    }
    assert(array_size_list_rel(src@, cs, i as int, None, depth as nat));
    None
}

/// A tree that gives a size does not give none.
proof fn lemma_array_size_exclusive(src: Seq<u8>, n: SyntaxNode, a: Option<Expression>, depth: nat)
    requires
        a is Some,
        array_size_rel(src, n, a, depth),
    ensures
        !array_size_rel(src, n, None, depth),
    decreases n, 1int,
{
    if n.kind@ == "array_declarator"@ {
        lemma_bracket_size_exclusive(src, n.children@, 0, false, a, depth);
    } else {
        lemma_array_size_list_exclusive(src, n.children@, 0, a, depth);
    }
}

proof fn lemma_array_size_list_exclusive(src: Seq<u8>, cs: Seq<SyntaxNode>, i: int, a: Option<Expression>, depth: nat)
    requires
        a is Some,
        array_size_list_rel(src, cs, i, a, depth),
    ensures
        !array_size_list_rel(src, cs, i, None, depth),
    decreases cs, 0int, cs.len() - i,
{
    if 0 <= i < cs.len() {
        if array_size_rel(src, cs[i], None, depth) {
            lemma_array_size_list_exclusive(src, cs, i + 1, a, depth);
        }
    }
}

proof fn lemma_bracket_size_exclusive(src: Seq<u8>, cs: Seq<SyntaxNode>, i: int, seen: bool, a: Option<Expression>, depth: nat)
    requires
        a is Some,
        bracket_size_rel(src, cs, i, seen, a, depth),
    ensures
        !bracket_size_rel(src, cs, i, seen, None, depth),
    decreases cs.len() - i,
{
    if 0 <= i < cs.len() {
        if cs[i].kind@ == "["@ {
            lemma_bracket_size_exclusive(src, cs, i + 1, true, a, depth);
        } else if cs[i].kind@ == "]"@ {
        } else if seen && size_candidate(cs[i]) {
            lemma_expr_rel_exclusive(src, cs[i], a->0, depth);
        } else {
            lemma_bracket_size_exclusive(src, cs, i + 1, seen, a, depth);
        }
    }
}

/// `r` is the variable that the declarator `dc` of the declaration `n`
/// declares, with the type part `ty`, placed at `loc`: the first identifier
/// of the declarator's target names it, the `*`s of that target (not of an
/// initializer) give its pointer depth, and it takes its type, `static`,
/// array size and the parse of its initializer from the declaration.
pub open spec fn declarator_decl(
    src: Seq<u8>,
    n: SyntaxNode,
    ty: SyntaxNode,
    dc: SyntaxNode,
    loc: SourceLocation,
    r: Option<crate::model::statement::VariableDecl>,
    depth: nat,
) -> bool {
    let target = if dc.kind@ == "init_declarator"@ {
        child_by_field(dc.children@, "declarator"@)
    } else {
        Some(dc)
    };
    match target {
        Some(tg) => match (first_kind(crate::syntax::preorder(tg), "identifier"@), type_part_base(src, ty), text_at(src, tg)) {
            (Some(id), Some((base, cleanup)), Some(dtext)) => match text_at(src, id) {
                Some(name) => r matches Some(d) && d.name@ == name && d.name_location == loc_of(id)
                    && d.location == loc && d.is_static == has_static(src, n.children@)
                    && array_size_rel(src, dc, d.array_size, depth) && d.type_info.base_type@ == base
                    && d.type_info.auto_cleanup == cleanup && d.type_info.pointer_depth
                    == count_char(dtext, '*') && d.type_info.is_const == has_const(src, n.children@)
                    && d.type_info.is_struct == (ty.kind@ == "struct_specifier"@)
                    && d.type_info.is_union == (ty.kind@ == "union_specifier"@)
                    && d.type_info.is_enum == (ty.kind@ == "enum_specifier"@)
                    && d.type_info.location == loc_of(ty) && (if dc.kind@ == "init_declarator"@ {
                    match child_by_field(dc.children@, "value"@) {
                        Some(v) => expr_rel(src, v, d.initializer, depth),
                        None => d.initializer is None,
                    }
                } else {
                    d.initializer is None
                }),
                None => r is None,
            },
            _ => r is None,
        },
        None => r is None,
    }
}

/// `r` is the variable that the declaration `n` declares: its first
/// declarator's (see `declarator_decl`), placed at the declaration.
pub open spec fn decl_rel(src: Seq<u8>, n: SyntaxNode, r: Option<crate::model::statement::VariableDecl>, depth: nat) -> bool {
    match (last_type_part(n.children@), first_declarator(n.children@)) {
        (Some(ty), Some(dc)) => declarator_decl(src, n, ty, dc, loc_of(n), r, depth),
        _ => r is None,
    }
}

/// The declarators among `cs`, the children of a declaration, in order:
/// each initialised, pointer, array or plain identifier declarator.
pub open spec fn decl_nodes(cs: Seq<SyntaxNode>) -> Seq<SyntaxNode>
    decreases cs.len(),
{
    if cs.len() == 0 {
        Seq::empty()
    } else {
        let prev = decl_nodes(cs.drop_last());
        if is_declarator(cs.last().kind@) {
            prev.push(cs.last())
        } else {
            prev
        }
    }
}

/// `ds` are the variables that the declarators `nodes` of the declaration
/// `n` declare (see `declarator_decl`), in order, leaving out those that
/// declare none; each is placed at its declarator when `many`, else at the
/// declaration.
pub open spec fn decls_from(
    src: Seq<u8>,
    n: SyntaxNode,
    ty: SyntaxNode,
    nodes: Seq<SyntaxNode>,
    many: bool,
    ds: Seq<crate::model::statement::VariableDecl>,
    depth: nat,
) -> bool
    decreases nodes.len(),
{
    if nodes.len() == 0 {
        ds.len() == 0
    } else {
        let dc = nodes.last();
        let loc = if many {
            loc_of(dc)
        } else {
            loc_of(n)
        };
        ||| declarator_decl(src, n, ty, dc, loc, None, depth) && decls_from(src, n, ty, nodes.drop_last(), many, ds, depth)
        ||| ds.len() > 0 && declarator_decl(src, n, ty, dc, loc, Some(ds.last()), depth) && decls_from(
            src,
            n,
            ty,
            nodes.drop_last(),
            many,
            ds.drop_last(),
            depth,
        )
    }
}

/// `ds` are the variables that the declaration `n` declares, one for each of
/// its declarators (see `decl_nodes`) that declares one, in order; none
/// without a type part.  With more than one declarator, each variable is
/// placed at its declarator.
pub open spec fn decls_rel(src: Seq<u8>, n: SyntaxNode, ds: Seq<crate::model::statement::VariableDecl>, depth: nat) -> bool {
    match last_type_part(n.children@) {
        Some(ty) => decls_from(src, n, ty, decl_nodes(n.children@), decl_nodes(n.children@).len() > 1, ds, depth),
        None => ds.len() == 0,
    }
}

/// `o` is the parse of the first named child of `cs` other than `;` that
/// parses.
pub open spec fn first_expr_rel(src: Seq<u8>, cs: Seq<SyntaxNode>, o: Option<Expression>, depth: nat) -> bool
    decreases cs.len(),
{
    if cs.len() == 0 {
        o is None
    } else if cs[0].is_named && cs[0].kind@ != ";"@ && !expr_rel(src, cs[0], None, depth) {
        o matches Some(e) && expr_rel(src, cs[0], Some(e), depth)
    } else {
        first_expr_rel(src, cs.drop_first(), o, depth)
    }
}

/// The statement that a branch `b` of an `if` holds: the statement of an
/// `else` clause, or the branch itself.
pub open spec fn branch_statement(b: SyntaxNode) -> Option<SyntaxNode> {
    if b.kind@ == "else_clause"@ {
        first_named(b.children@)
    } else {
        Some(b)
    }
}

/// The first named child.
pub open spec fn first_named(cs: Seq<SyntaxNode>) -> Option<SyntaxNode>
    decreases cs.len(),
{
    if cs.len() == 0 {
        None
    } else if cs[0].is_named {
        Some(cs[0])
    } else {
        first_named(cs.drop_first())
    }
}

/// The first named child that is not the `label` field or a `:`.
pub open spec fn labeled_target(cs: Seq<SyntaxNode>) -> Option<SyntaxNode>
    decreases cs.len(),
{
    if cs.len() == 0 {
        None
    } else if cs[0].is_named && cs[0].kind@ != ":"@ && !(cs[0].field matches Some(f) && f@ == "label"@) {
        Some(cs[0])
    } else {
        labeled_target(cs.drop_first())
    }
}

/// `stmts` is the body of a branch `b`: the statements of a block, or the
/// one statement (if it parses).
pub open spec fn branch_rel(src: Seq<u8>, b: SyntaxNode, stmts: Seq<Statement>, depth: nat) -> bool
    decreases depth, 2int, 0int,
{
    if b.kind@ == "compound_statement"@ {
        body_rel(src, b.children@, stmts, depth)
    } else if stmt_rel(src, b, None, depth) {
        stmts.len() == 0
    } else {
        stmts.len() == 1 && stmt_rel(src, b, Some(stmts[0]), depth)
    }
}

/// `r` is what parsing the statement node `n` gives: declarations,
/// expression statements, `if`, `return`, `goto`, labels, blocks and
/// `switch`; none for other nodes or when a part they need is missing.
pub open spec fn stmt_rel(src: Seq<u8>, n: SyntaxNode, r: Option<Statement>, depth: nat) -> bool
    decreases depth, 0int, 0int,
{
    let k = n.kind@;
    if depth == 0 {
        r is None
    } else if k == "declaration"@ {
        match r {
            Some(Statement::Declaration(d)) => decl_rel(src, n, Some(d), (depth - 1) as nat),
            None => decl_rel(src, n, None, (depth - 1) as nat),
            _ => false,
        }
    } else if k == "expression_statement"@ {
        match r {
            Some(Statement::Expression(es)) => es.location == loc_of(n) && first_expr_rel(
                src,
                n.children@,
                Some(es.expr),
                (depth - 1) as nat,
            ),
            None => first_expr_rel(src, n.children@, None, (depth - 1) as nat),
            _ => false,
        }
    } else if k == "if_statement"@ {
        match (child_by_field(n.children@, "condition"@), child_by_field(n.children@, "consequence"@)) {
            (Some(c), Some(t)) => if expr_rel(src, c, None, (depth - 1) as nat) {
                r is None
            } else {
                r matches Some(Statement::If(x)) && x.location == loc_of(n) && expr_rel(
                    src,
                    c,
                    Some(x.condition),
                    (depth - 1) as nat,
                ) && x.then_has_braces == (t.kind@ == "compound_statement"@) && branch_rel(
                    src,
                    t,
                    x.then_body@,
                    (depth - 1) as nat,
                ) && match child_by_field(n.children@, "alternative"@) {
                    Some(a) => match branch_statement(a) {
                        Some(bs) => x.else_body matches Some(e) && branch_rel(src, bs, e@, (depth - 1) as nat),
                        None => x.else_body matches Some(e) && e@.len() == 0,
                    },
                    None => x.else_body is None,
                }
            },
            _ => r is None,
        }
    } else if k == "return_statement"@ {
        r matches Some(Statement::Return(x)) && x.location == loc_of(n) && if n.children@.len() > 1
            && n.children@[1].is_named && n.children@[1].kind@ != ";"@ {
            expr_rel(src, n.children@[1], x.value, (depth - 1) as nat)
        } else {
            x.value is None
        }
    } else if k == "goto_statement"@ {
        match child_by_field(n.children@, "label"@) {
            Some(l) => match text_at(src, l) {
                Some(t) => r matches Some(Statement::Goto(g)) && g.label@ == t && g.location == loc_of(n),
                None => r is None,
            },
            None => r is None,
        }
    } else if k == "labeled_statement"@ {
        match (child_by_field(n.children@, "label"@), labeled_target(n.children@)) {
            (Some(l), Some(st)) => match text_at(src, l) {
                Some(t) => if stmt_rel(src, st, None, (depth - 1) as nat) {
                    r is None
                } else {
                    r matches Some(Statement::Labeled(x)) && x.label@ == t && x.location == loc_of(n)
                        && stmt_rel(src, st, Some(*x.statement), (depth - 1) as nat)
                },
                None => r is None,
            },
            _ => r is None,
        }
    } else if k == "compound_statement"@ {
        r matches Some(Statement::Compound(c)) && c.location == loc_of(n) && body_rel(
            src,
            n.children@,
            c.statements@,
            (depth - 1) as nat,
        )
    } else if k == "switch_statement"@ {
        if n.children@.len() < 3 {
            r is None
        } else {
            let cn = n.children@[1];
            let inner = if cn.children@.len() > 1 {
                cn.children@[1]
            } else {
                cn
            };
            if expr_rel(src, inner, None, (depth - 1) as nat) {
                r is None
            } else {
                r matches Some(Statement::Switch(w)) && w.location == loc_of(n) && w.condition_location
                    == loc_of(inner) && expr_rel(src, inner, Some(w.condition), (depth - 1) as nat)
                    && body_rel(src, n.children@[2].children@, w.body@, (depth - 1) as nat)
            }
        }
    } else {
        r is None
    }
}

/// `stmts` are the parses of the children of `cs` that parse as statements,
/// in order.
pub open spec fn body_rel(src: Seq<u8>, cs: Seq<SyntaxNode>, stmts: Seq<Statement>, depth: nat) -> bool
    decreases depth, 1int, cs.len(),
{
    if cs.len() == 0 {
        stmts.len() == 0
    } else if stmt_rel(src, cs.last(), None, depth) {
        body_rel(src, cs.drop_last(), stmts, depth)
    } else {
        stmts.len() > 0 && stmt_rel(src, cs.last(), Some(stmts.last()), depth) && body_rel(
            src,
            cs.drop_last(),
            stmts.drop_last(),
            depth,
        )
    }
}

/// The texts of the statement kinds that parsing tells apart.
proof fn reveal_statement_kinds()
    ensures
        "declaration"@ =~= seq!['d', 'e', 'c', 'l', 'a', 'r', 'a', 't', 'i', 'o', 'n'],
        "expression_statement"@ =~= seq!['e', 'x', 'p', 'r', 'e', 's', 's', 'i', 'o', 'n', '_', 's', 't', 'a', 't', 'e', 'm', 'e', 'n', 't'],
        "if_statement"@ =~= seq!['i', 'f', '_', 's', 't', 'a', 't', 'e', 'm', 'e', 'n', 't'],
        "return_statement"@ =~= seq!['r', 'e', 't', 'u', 'r', 'n', '_', 's', 't', 'a', 't', 'e', 'm', 'e', 'n', 't'],
        "goto_statement"@ =~= seq!['g', 'o', 't', 'o', '_', 's', 't', 'a', 't', 'e', 'm', 'e', 'n', 't'],
        "labeled_statement"@ =~= seq!['l', 'a', 'b', 'e', 'l', 'e', 'd', '_', 's', 't', 'a', 't', 'e', 'm', 'e', 'n', 't'],
        "compound_statement"@ =~= seq!['c', 'o', 'm', 'p', 'o', 'u', 'n', 'd', '_', 's', 't', 'a', 't', 'e', 'm', 'e', 'n', 't'],
        "switch_statement"@ =~= seq!['s', 'w', 'i', 't', 'c', 'h', '_', 's', 't', 'a', 't', 'e', 'm', 'e', 'n', 't'],
        "init_declarator"@ =~= seq!['i', 'n', 'i', 't', '_', 'd', 'e', 'c', 'l', 'a', 'r', 'a', 't', 'o', 'r'],
        "pointer_declarator"@ =~= seq!['p', 'o', 'i', 'n', 't', 'e', 'r', '_', 'd', 'e', 'c', 'l', 'a', 'r', 'a', 't', 'o', 'r'],
        "identifier"@ =~= seq!['i', 'd', 'e', 'n', 't', 'i', 'f', 'i', 'e', 'r'],
        "array_declarator"@ =~= seq!['a', 'r', 'r', 'a', 'y', '_', 'd', 'e', 'c', 'l', 'a', 'r', 'a', 't', 'o', 'r'],
        "primitive_type"@ =~= seq!['p', 'r', 'i', 'm', 'i', 't', 'i', 'v', 'e', '_', 't', 'y', 'p', 'e'],
        "type_identifier"@ =~= seq!['t', 'y', 'p', 'e', '_', 'i', 'd', 'e', 'n', 't', 'i', 'f', 'i', 'e', 'r'],
        "sized_type_specifier"@ =~= seq!['s', 'i', 'z', 'e', 'd', '_', 't', 'y', 'p', 'e', '_', 's', 'p', 'e', 'c', 'i', 'f', 'i', 'e', 'r'],
        "struct_specifier"@ =~= seq!['s', 't', 'r', 'u', 'c', 't', '_', 's', 'p', 'e', 'c', 'i', 'f', 'i', 'e', 'r'],
        "union_specifier"@ =~= seq!['u', 'n', 'i', 'o', 'n', '_', 's', 'p', 'e', 'c', 'i', 'f', 'i', 'e', 'r'],
        "enum_specifier"@ =~= seq!['e', 'n', 'u', 'm', '_', 's', 'p', 'e', 'c', 'i', 'f', 'i', 'e', 'r'],
        "macro_type_specifier"@ =~= seq!['m', 'a', 'c', 'r', 'o', '_', 't', 'y', 'p', 'e', '_', 's', 'p', 'e', 'c', 'i', 'f', 'i', 'e', 'r'],
        "else_clause"@ =~= seq!['e', 'l', 's', 'e', '_', 'c', 'l', 'a', 'u', 's', 'e'],
{
    reveal_strlit("declaration");
    reveal_strlit("expression_statement");
    reveal_strlit("if_statement");
    reveal_strlit("return_statement");
    reveal_strlit("goto_statement");
    reveal_strlit("labeled_statement");
    reveal_strlit("compound_statement");
    reveal_strlit("switch_statement");
    reveal_strlit("init_declarator");
    reveal_strlit("pointer_declarator");
    reveal_strlit("identifier");
    reveal_strlit("array_declarator");
    reveal_strlit("primitive_type");
    reveal_strlit("type_identifier");
    reveal_strlit("sized_type_specifier");
    reveal_strlit("struct_specifier");
    reveal_strlit("union_specifier");
    reveal_strlit("enum_specifier");
    reveal_strlit("macro_type_specifier");
    reveal_strlit("else_clause");
}

proof fn lemma_first_expr_exclusive(src: Seq<u8>, cs: Seq<SyntaxNode>, e: Expression, depth: nat)
    requires
        first_expr_rel(src, cs, Some(e), depth),
    ensures
        !first_expr_rel(src, cs, None, depth),
    decreases cs.len(),
{
    if cs.len() > 0 && !(cs[0].is_named && cs[0].kind@ != ";"@ && !expr_rel(src, cs[0], None, depth)) {
        lemma_first_expr_exclusive(src, cs.drop_first(), e, depth);
    }
}

/// Parsing a statement gives at most one answer.
pub proof fn lemma_stmt_rel_exclusive(src: Seq<u8>, n: SyntaxNode, st: Statement, depth: nat)
    requires
        stmt_rel(src, n, Some(st), depth),
    ensures
        !stmt_rel(src, n, None, depth),
{
    reveal_statement_kinds();
    if depth > 0 && n.kind@ == "expression_statement"@ {
        match st {
            Statement::Expression(es) => lemma_first_expr_exclusive(src, n.children@, es.expr, (depth - 1) as nat),
            _ => {},
        }
    }
}

/// Whether some child of `cs` is a `kind` node with text `text`.
fn has_child_with_text(cs: &Vec<SyntaxNode>, kind: &str, text: &str, src: &[u8], Ghost(parent): Ghost<SyntaxNode>) -> (r: bool)
    requires
        parse_ready(parent, src@.len() as int),
        parent.children@ == cs@,
    ensures
        r == exists|i: int|
            0 <= i < cs@.len() && (#[trigger] cs@[i]).kind@ == kind@ && text_at(src@, cs@[i]) == Some(
                text@,
            ),
{
    let ghost len = src@.len() as int;
    let mut i: usize = 0;
    while i < cs.len()
        invariant
            i <= cs@.len(),
            parse_ready(parent, len),
            len == src@.len(),
            parent.children@ == cs@,
            forall|j: int|
                0 <= j < i ==> !((#[trigger] cs@[j]).kind@ == kind@ && text_at(src@, cs@[j]) == Some(
                    text@,
                )),
        decreases cs@.len() - i,
    {
        let c = &cs[i];
        proof {
            lemma_fits_child(parent, i as int, len, 1, 0);
            lemma_fits_root(*c, len, 1, 0);
        }
        if c.is_kind(kind) {
            match node_text_opt(c, src) {
                Some(t) => {
                    if str_eq(t.as_str(), text) {
                        return true;
                    }
                },
                None => {},
            }
        }
        i = i + 1;
    }
    false
}

/// The automatic cleanup macro called `name`.
pub fn cleanup_macro(name: &str) -> (r: Option<crate::model::types::AutoCleanupMacro>)
    ensures
        r == cleanup_macro_of(name@),
{
    if str_eq(name, "g_autoptr") {
        Some(crate::model::types::AutoCleanupMacro::Autoptr)
    } else if str_eq(name, "g_autolist") {
        Some(crate::model::types::AutoCleanupMacro::Autolist)
    } else if str_eq(name, "g_autoslist") {
        Some(crate::model::types::AutoCleanupMacro::Autoslist)
    } else if str_eq(name, "g_autoqueue") {
        Some(crate::model::types::AutoCleanupMacro::Autoqueue)
    } else if str_eq(name, "g_auto") {
        Some(crate::model::types::AutoCleanupMacro::Auto)
    } else {
        None
    }
}

/// The base type and cleanup macro that a type part gives.
fn parse_type_part(ty: &SyntaxNode, src: &[u8]) -> (r: Option<(String, Option<crate::model::types::AutoCleanupMacro>)>)
    requires
        parse_ready(*ty, src@.len() as int),
    ensures
        r matches Some((b, c)) ==> type_part_base(src@, *ty) == Some((b@, c)),
        r is None ==> type_part_base(src@, *ty) is None,
{
    let ghost len = src@.len() as int;
    proof {
        lemma_fits_root(*ty, len, 1, 0);
        reveal_statement_kinds();
    }
    if ty.is_kind("macro_type_specifier") {
        let (m, t) = match (field_child(ty, "name", Ghost(len)), field_child(ty, "type", Ghost(len))) {
            (Some(m), Some(t)) => (m, t),
            _ => return None,
        };
        match (node_text_opt(m, src), node_text_opt(t, src)) {
            (Some(mt), Some(tt)) => Some((tt, cleanup_macro(mt.as_str()))),
            _ => None,
        }
    } else {
        let tagged = ty.is_kind("struct_specifier") || ty.is_kind("union_specifier") || ty.is_kind(
            "enum_specifier",
        );
        let base = if tagged {
            match field_child(ty, "name", Ghost(len)) {
                Some(name) => node_text_opt(name, src),
                None => node_text_opt(ty, src),
            }
        } else {
            node_text_opt(ty, src)
        };
        match base {
            Some(b) => Some((b, None)),
            None => None,
        }
    }
}

/// The first node of the tree rooted at `n` of kind `kind`.
fn find_first_kind<'a>(n: &'a SyntaxNode, kind: &str, Ghost(len): Ghost<int>) -> (r: Option<&'a SyntaxNode>)
    requires
        parse_ready(*n, len),
    ensures
        r matches Some(x) ==> first_kind(crate::syntax::preorder(*n), kind@) == Some(*x) && parse_ready(*x, len),
        r is None ==> first_kind(crate::syntax::preorder(*n), kind@) is None,
{
    let all = n.preorder();
    let ghost ns = crate::model::expression::derefs(all@);
    assert(ns.skip(0) =~= ns);
    let mut i: usize = 0;
    while i < all.len()
        invariant
            i <= all@.len(),
            ns == crate::model::expression::derefs(all@),
            ns == crate::syntax::preorder(*n),
            parse_ready(*n, len),
            first_kind(ns, kind@) == first_kind(ns.skip(i as int), kind@),
        decreases all@.len() - i,
    {
        assert(ns.skip(i as int).drop_first() =~= ns.skip(i + 1));
        assert(ns.skip(i as int)[0] == *all@[i as int]);
        if all[i].is_kind(kind) {
            proof {
                assert(ns[i as int] == *all@[i as int]);
                assert(ns.contains(ns[i as int]));
                crate::syntax::lemma_fits_member(*n, ns[i as int], len, 1, 0);
            }
            return Some(all[i]);
        }
        i = i + 1;
    }
    None
}

/// Where the last type part of `cs` stands.
fn last_type_part_index(cs: &Vec<SyntaxNode>) -> (r: Option<usize>)
    ensures
        r matches Some(k) ==> k < cs@.len() && last_type_part(cs@) == Some(cs@[k as int]),
        r is None ==> last_type_part(cs@) is None,
{
    let mut k = cs.len();
    assert(cs@.take(k as int) =~= cs@);
    while k > 0
        invariant
            k <= cs@.len(),
            last_type_part(cs@) == last_type_part(cs@.take(k as int)),
        decreases k,
    {
        let c = &cs[k - 1];
        assert(cs@.take(k as int).drop_last() =~= cs@.take(k - 1));
        assert(cs@.take(k as int).last() == *c);
        proof {
            reveal_statement_kinds();
        }
        if c.is_kind("primitive_type") || c.is_kind("type_identifier") || c.is_kind("sized_type_specifier")
            || c.is_kind("struct_specifier") || c.is_kind("union_specifier") || c.is_kind("enum_specifier")
            || c.is_kind("macro_type_specifier") {
            return Some(k - 1);
        }
        k = k - 1;
    }
    None
}

/// Where the first declarator of `cs` stands.
fn first_declarator_index(cs: &Vec<SyntaxNode>) -> (r: Option<usize>)
    ensures
        r matches Some(k) ==> k < cs@.len() && first_declarator(cs@) == Some(cs@[k as int]),
        r is None ==> first_declarator(cs@) is None,
{
    assert(cs@.skip(0) =~= cs@);
    let mut i: usize = 0;
    while i < cs.len()
        invariant
            i <= cs@.len(),
            first_declarator(cs@) == first_declarator(cs@.skip(i as int)),
        decreases cs@.len() - i,
    {
        let c = &cs[i];
        assert(cs@.skip(i as int).drop_first() =~= cs@.skip(i + 1));
        assert(cs@.skip(i as int)[0] == *c);
        proof {
            reveal_statement_kinds();
        }
        if c.is_kind("init_declarator") || c.is_kind("pointer_declarator") || c.is_kind("identifier")
            || c.is_kind("array_declarator") {
            return Some(i);
        }
        i = i + 1;
    }
    None
}

/// Parse a declaration: its first declarator's variable.
pub fn parse_declaration(n: &SyntaxNode, src: &[u8], depth: usize) -> (r: Option<VariableDecl>)
    requires
        parse_ready(*n, src@.len() as int),
    ensures
        decl_rel(src@, *n, r, depth as nat),
{
    let ghost len = src@.len() as int;
    proof {
        lemma_fits_root(*n, len, 1, 0);
    }
    let ty = match last_type_part_index(&n.children) {
        Some(k) => {
            proof {
                lemma_fits_child(*n, k as int, len, 1, 0);
            }
            &n.children[k]
        },
        None => return None,
    };
    let dc = match first_declarator_index(&n.children) {
        Some(i) => {
            proof {
                lemma_fits_child(*n, i as int, len, 1, 0);
            }
            &n.children[i]
        },
        None => return None,
    };
    parse_declarator(n, ty, dc, n, src, depth)
}

/// Parse every declarator of a declaration (see `decls_rel`).
pub fn parse_declarations(n: &SyntaxNode, src: &[u8], depth: usize) -> (r: Vec<VariableDecl>)
    requires
        parse_ready(*n, src@.len() as int),
    ensures
        decls_rel(src@, *n, r@, depth as nat),
{
    let ghost len = src@.len() as int;
    let ghost cs = n.children@;
    proof {
        lemma_fits_root(*n, len, 1, 0);
    }
    let ty = match last_type_part_index(&n.children) {
        Some(k) => {
            proof {
                lemma_fits_child(*n, k as int, len, 1, 0);
            }
            &n.children[k]
        },
        None => return Vec::new(),
    };
    let mut idx: Vec<usize> = Vec::new();
    let mut i: usize = 0;
    while i < n.children.len()
        invariant
            i <= cs.len(),
            cs == n.children@,
            forall|j: int| 0 <= j < idx@.len() ==> #[trigger] idx@[j] < cs.len(),
            idx@.len() == decl_nodes(cs.take(i as int)).len(),
            forall|j: int| 0 <= j < idx@.len() ==> cs[#[trigger] idx@[j] as int] == decl_nodes(cs.take(i as int))[j],
        decreases cs.len() - i,
    {
        proof {
            reveal_statement_kinds();
        }
        assert(cs.take(i + 1).drop_last() =~= cs.take(i as int));
        assert(cs.take(i + 1).last() == cs[i as int]);
        let c = &n.children[i];
        if c.is_kind("init_declarator") || c.is_kind("pointer_declarator") || c.is_kind("identifier")
            || c.is_kind("array_declarator") {
            idx.push(i);
        }
        i = i + 1;
    }
    assert(cs.take(cs.len() as int) =~= cs);
    let ghost nodes = decl_nodes(cs);
    let many = idx.len() > 1;
    let mut out: Vec<VariableDecl> = Vec::new();
    let mut k: usize = 0;
    assert(nodes.take(0) =~= Seq::<SyntaxNode>::empty());
    while k < idx.len()
        invariant
            k <= idx@.len(),
            cs == n.children@,
            parse_ready(*n, len),
            parse_ready(*ty, len),
            len == src@.len(),
            last_type_part(cs) == Some(*ty),
            nodes == decl_nodes(cs),
            idx@.len() == nodes.len(),
            many == (nodes.len() > 1),
            forall|j: int| 0 <= j < idx@.len() ==> #[trigger] idx@[j] < cs.len(),
            forall|j: int| 0 <= j < idx@.len() ==> cs[#[trigger] idx@[j] as int] == nodes[j],
            decls_from(src@, *n, *ty, nodes.take(k as int), many, out@, depth as nat),
        decreases idx@.len() - k,
    {
        let j = idx[k];
        assert(cs[idx@[k as int] as int] == nodes[k as int]);
        proof {
            lemma_fits_child(*n, j as int, len, 1, 0);
        }
        let dc = &n.children[j];
        assert(nodes.take(k + 1).drop_last() =~= nodes.take(k as int));
        assert(nodes.take(k + 1).last() == *dc);
        let at = if many {
            dc
        } else {
            n
        };
        match parse_declarator(n, ty, dc, at, src, depth) {
            Some(d) => {
                let ghost before = out@;
                out.push(d);
                assert(out@.drop_last() =~= before);
            },
            None => {},
        }
        k = k + 1;
    }
    assert(nodes.take(nodes.len() as int) =~= nodes);
    out
}

/// Parse the declarator `dc` of the declaration `n`, whose type part is
/// `ty`, placing the variable at `at` (see `declarator_decl`).
fn parse_declarator(
    n: &SyntaxNode,
    ty: &SyntaxNode,
    dc: &SyntaxNode,
    at: &SyntaxNode,
    src: &[u8],
    depth: usize,
) -> (r: Option<VariableDecl>)
    requires
        parse_ready(*n, src@.len() as int),
        parse_ready(*ty, src@.len() as int),
        parse_ready(*dc, src@.len() as int),
        parse_ready(*at, src@.len() as int),
    ensures
        declarator_decl(src@, *n, *ty, *dc, loc_of(*at), r, depth as nat),
{
    let ghost len = src@.len() as int;
    proof {
        lemma_fits_root(*at, len, 1, 0);
        lemma_fits_root(*n, len, 1, 0);
    }
    proof {
        reveal_statement_kinds();
        lemma_fits_root(*dc, len, 1, 0);
    }
    let is_init = dc.is_kind("init_declarator");
    let target = if is_init {
        match field_child(dc, "declarator", Ghost(len)) {
            Some(t) => t,
            None => return None,
        }
    } else {
        dc
    };
    let id = find_first_kind(target, "identifier", Ghost(len));
    let part = parse_type_part(ty, src);
    proof {
        lemma_fits_root(*target, len, 1, 0);
    }
    let dtext = node_text_opt(target, src);
    let (id, (base, cleanup), dtext) = match (id, part, dtext) {
        (Some(a), Some(b), Some(c)) => (a, b, c),
        _ => return None,
    };
    proof {
        lemma_fits_root(*id, len, 1, 0);
        lemma_fits_root(*ty, len, 1, 0);
    }
    let name = match node_text_opt(id, src) {
        Some(t) => t,
        None => return None,
    };
    let initializer = if is_init {
        match field_child(dc, "value", Ghost(len)) {
            Some(v) => parse_expression(v, src, depth),
            None => None,
        }
    } else {
        None
    };
    let array_size = find_array_size(dc, src, depth);
    let is_static = has_child_with_text(&n.children, "storage_class_specifier", "static", src, Ghost(*n));
    let is_const = has_child_with_text(&n.children, "type_qualifier", "const", src, Ghost(*n));
    let type_info = TypeInfo {
        base_type: base,
        pointer_depth: count_chars(dtext.as_str(), '*'),
        is_const,
        is_struct: ty.is_kind("struct_specifier"),
        is_union: ty.is_kind("union_specifier"),
        is_enum: ty.is_kind("enum_specifier"),
        auto_cleanup: cleanup,
        location: node_location(ty, src.len()),
    };
    Some(VariableDecl {
        type_info,
        name,
        is_static,
        name_location: node_location(id, src.len()),
        initializer,
        array_size,
        location: node_location(at, src.len()),
    })
}

/// All children of a ready node are ready.
proof fn lemma_children_ready(n: SyntaxNode, len: int)
    requires
        parse_ready(n, len),
    ensures
        forall|i: int| 0 <= i < n.children@.len() ==> parse_ready(#[trigger] n.children@[i], len),
{
    assert forall|i: int| 0 <= i < n.children@.len() implies parse_ready(#[trigger] n.children@[i], len) by {
        lemma_fits_child(n, i, len, 1, 0);
    }
}

/// The parse of the first named child of `cs` other than `;` that parses.
fn parse_first_expression(cs: &Vec<SyntaxNode>, src: &[u8], depth: usize) -> (r: Option<Expression>)
    requires
        forall|i: int| 0 <= i < cs@.len() ==> parse_ready(#[trigger] cs@[i], src@.len() as int),
    ensures
        first_expr_rel(src@, cs@, r, depth as nat),
{
    assert(cs@.skip(0) =~= cs@);
    let mut i: usize = 0;
    while i < cs.len()
        invariant
            i <= cs@.len(),
            forall|j: int| 0 <= j < cs@.len() ==> parse_ready(#[trigger] cs@[j], src@.len() as int),
            forall|o: Option<Expression>|
                first_expr_rel(src@, cs@, o, depth as nat) == first_expr_rel(
                    src@,
                    cs@.skip(i as int),
                    o,
                    depth as nat,
                ),
        decreases cs@.len() - i,
    {
        let c = &cs[i];
        assert(cs@.skip(i as int).drop_first() =~= cs@.skip(i + 1));
        assert(cs@.skip(i as int)[0] == *c);
        assert(parse_ready(cs@[i as int], src@.len() as int));
        proof {
            reveal_strlit(";");
        }
        if c.is_named && !c.is_kind(";") {
            match parse_expression(c, src, depth) {
                Some(e) => {
                    proof {
                        lemma_expr_rel_exclusive(src@, *c, e, depth as nat);
                    }
                    return Some(e);
                },
                None => {},
            }
        }
        i = i + 1;
    }
    None
}

/// Parse the children of `cs` that are statements, in order.
pub fn parse_body(cs: &Vec<SyntaxNode>, src: &[u8], depth: usize) -> (r: Vec<Statement>)
    requires
        forall|i: int| 0 <= i < cs@.len() ==> parse_ready(#[trigger] cs@[i], src@.len() as int),
    ensures
        body_rel(src@, cs@, r@, depth as nat),
    decreases depth, 4int, cs@.len(),
{
    let mut out: Vec<Statement> = Vec::new();
    let mut i: usize = 0;
    while i < cs.len()
        invariant
            i <= cs@.len(),
            forall|j: int| 0 <= j < cs@.len() ==> parse_ready(#[trigger] cs@[j], src@.len() as int),
            body_rel(src@, cs@.take(i as int), out@, depth as nat),
        decreases cs@.len() - i,
    {
        let c = &cs[i];
        assert(cs@.take(i + 1).drop_last() =~= cs@.take(i as int));
        assert(cs@.take(i + 1).last() == *c);
        assert(parse_ready(cs@[i as int], src@.len() as int));
        match parse_statement(c, src, depth) {
            Some(st) => {
                proof {
                    lemma_stmt_rel_exclusive(src@, *c, st, depth as nat);
                }
                let ghost before = out@;
                out.push(st);
                assert(out@.drop_last() =~= before);
            },
            None => {},
        }
        i = i + 1;
    }
    assert(cs@.take(cs@.len() as int) =~= cs@);
    out
}

/// The statements of a branch: those of a block, or the one statement.
fn parse_branch(b: &SyntaxNode, src: &[u8], depth: usize) -> (r: Vec<Statement>)
    requires
        parse_ready(*b, src@.len() as int),
    ensures
        branch_rel(src@, *b, r@, depth as nat),
    decreases depth, 5int, 0int,
{
    proof {
        reveal_statement_kinds();
        reveal_strlit("compound_statement");
    }
    if b.is_kind("compound_statement") {
        proof {
            lemma_children_ready(*b, src@.len() as int);
        }
        parse_body(&b.children, src, depth)
    } else {
        let mut out: Vec<Statement> = Vec::new();
        match parse_statement(b, src, depth) {
            Some(st) => {
                proof {
                    lemma_stmt_rel_exclusive(src@, *b, st, depth as nat);
                }
                out.push(st);
            },
            None => {},
        }
        out
    }
}

/// The statement that a branch of an `if` holds.
fn branch_statement_of(b: &SyntaxNode, Ghost(len): Ghost<int>) -> (r: Option<&SyntaxNode>)
    requires
        parse_ready(*b, len),
    ensures
        r matches Some(x) ==> branch_statement(*b) == Some(*x) && parse_ready(*x, len),
        r is None ==> branch_statement(*b) is None,
{
    proof {
        reveal_statement_kinds();
    }
    if !b.is_kind("else_clause") {
        return Some(b);
    }
    let ghost cs = b.children@;
    assert(cs.skip(0) =~= cs);
    let mut i: usize = 0;
    while i < b.children.len()
        invariant
            i <= cs.len(),
            cs == b.children@,
            parse_ready(*b, len),
            b.kind@ == "else_clause"@,
            first_named(cs) == first_named(cs.skip(i as int)),
        decreases cs.len() - i,
    {
        assert(cs.skip(i as int).drop_first() =~= cs.skip(i + 1));
        assert(cs.skip(i as int)[0] == b.children@[i as int]);
        if b.children[i].is_named {
            proof {
                lemma_fits_child(*b, i as int, len, 1, 0);
                reveal_statement_kinds();
            }
            return Some(&b.children[i]);
        }
        i = i + 1;
    }
    proof {
        reveal_statement_kinds();
    }
    None
}

/// Parse a statement node down to `depth` levels.
pub fn parse_statement(n: &SyntaxNode, src: &[u8], depth: usize) -> (r: Option<Statement>)
    requires
        parse_ready(*n, src@.len() as int),
    ensures
        stmt_rel(src@, *n, r, depth as nat),
    decreases depth, 3int, 0int,
{
    let ghost len = src@.len() as int;
    if depth == 0 {
        return None;
    }
    let d = depth - 1;
    proof {
        lemma_fits_root(*n, len, 1, 0);
        reveal_statement_kinds();
        reveal_strlit("goto_statement");
    }
    let location = node_location(n, src.len());
    if n.is_kind("declaration") {
        return match parse_declaration(n, src, d) {
            Some(decl) => Some(Statement::Declaration(decl)),
            None => None,
        };
    }
    if n.is_kind("expression_statement") {
        proof {
            lemma_children_ready(*n, len);
        }
        return match parse_first_expression(&n.children, src, d) {
            Some(expr) => Some(Statement::Expression(ExpressionStmt { expr, location })),
            None => None,
        };
    }
    if n.is_kind("if_statement") {
        return parse_if_node(n, src, depth);
    }
    if n.is_kind("return_statement") {
        let value = if n.children.len() > 1 && n.children[1].is_named && !n.children[1].is_kind(";") {
            proof {
                lemma_fits_child(*n, 1, len, 1, 0);
            }
            parse_expression(&n.children[1], src, d)
        } else {
            None
        };
        proof {
            reveal_strlit(";");
        }
        return Some(Statement::Return(ReturnStatement { value, location }));
    }
    if n.is_kind("goto_statement") {
        let l = match field_child(n, "label", Ghost(len)) {
            Some(l) => l,
            None => return None,
        };
        return match node_text_opt(l, src) {
            Some(label) => Some(Statement::Goto(GotoStatement { label, location })),
            None => None,
        };
    }
    if n.is_kind("labeled_statement") {
        return parse_labeled_node(n, src, depth);
    }
    if n.is_kind("compound_statement") {
        proof {
            lemma_children_ready(*n, len);
        }
        let statements = parse_body(&n.children, src, d);
        return Some(Statement::Compound(CompoundStatement { statements, location }));
    }
    if n.is_kind("switch_statement") {
        return parse_switch_node(n, src, depth);
    }
    None
}

/// Parse an `if` statement.
fn parse_if_node(n: &SyntaxNode, src: &[u8], depth: usize) -> (r: Option<Statement>)
    requires
        parse_ready(*n, src@.len() as int),
        depth > 0,
        n.kind@ == "if_statement"@,
    ensures
        stmt_rel(src@, *n, r, depth as nat),
    decreases depth, 2int, 0int,
{
    let ghost len = src@.len() as int;
    let d = depth - 1;
    proof {
        lemma_fits_root(*n, len, 1, 0);
        reveal_statement_kinds();
    }
    let location = node_location(n, src.len());
    let (c, t) = match (field_child(n, "condition", Ghost(len)), field_child(n, "consequence", Ghost(len))) {
        (Some(c), Some(t)) => (c, t),
        _ => return None,
    };
    let condition = match parse_expression(c, src, d) {
        Some(e) => {
            proof {
                lemma_expr_rel_exclusive(src@, *c, e, d as nat);
            }
            e
        },
        None => return None,
    };
    proof {
        reveal_strlit("compound_statement");
    }
    let then_has_braces = t.is_kind("compound_statement");
    let then_body = parse_branch(t, src, d);
    let else_body = match field_child(n, "alternative", Ghost(len)) {
        Some(a) => match branch_statement_of(a, Ghost(len)) {
            Some(bs) => Some(parse_branch(bs, src, d)),
            None => {
                let v: Vec<Statement> = Vec::new();
                Some(v)
            },
        },
        None => None,
    };
    Some(Statement::If(IfStatement { condition, then_body, then_has_braces, else_body, location }))
}

/// The first named child that is not the label or a `:`.
fn labeled_target_of(n: &SyntaxNode, Ghost(len): Ghost<int>) -> (r: Option<&SyntaxNode>)
    requires
        parse_ready(*n, len),
    ensures
        r matches Some(x) ==> labeled_target(n.children@) == Some(*x) && parse_ready(*x, len),
        r is None ==> labeled_target(n.children@) is None,
{
    let ghost cs = n.children@;
    assert(cs.skip(0) =~= cs);
    let mut i: usize = 0;
    while i < n.children.len()
        invariant
            i <= cs.len(),
            cs == n.children@,
            parse_ready(*n, len),
            labeled_target(cs) == labeled_target(cs.skip(i as int)),
        decreases cs.len() - i,
    {
        let c = &n.children[i];
        assert(cs.skip(i as int).drop_first() =~= cs.skip(i + 1));
        assert(cs.skip(i as int)[0] == *c);
        proof {
            reveal_strlit(":");
            reveal_strlit("label");
        }
        let is_label = match &c.field {
            Some(f) => str_eq(f.as_str(), "label"),
            None => false,
        };
        if c.is_named && !c.is_kind(":") && !is_label {
            proof {
                lemma_fits_child(*n, i as int, len, 1, 0);
            }
            return Some(c);
        }
        i = i + 1;
    }
    None
}

/// Parse a labeled statement.
fn parse_labeled_node(n: &SyntaxNode, src: &[u8], depth: usize) -> (r: Option<Statement>)
    requires
        parse_ready(*n, src@.len() as int),
        depth > 0,
        n.kind@ == "labeled_statement"@,
    ensures
        stmt_rel(src@, *n, r, depth as nat),
    decreases depth, 2int, 0int,
{
    let ghost len = src@.len() as int;
    let d = depth - 1;
    proof {
        lemma_fits_root(*n, len, 1, 0);
        reveal_statement_kinds();
    }
    let location = node_location(n, src.len());
    let (l, st) = match (field_child(n, "label", Ghost(len)), labeled_target_of(n, Ghost(len))) {
        (Some(l), Some(st)) => (l, st),
        _ => return None,
    };
    let label = match node_text_opt(l, src) {
        Some(t) => t,
        None => return None,
    };
    match parse_statement(st, src, d) {
        Some(s) => {
            proof {
                lemma_stmt_rel_exclusive(src@, *st, s, d as nat);
            }
            Some(Statement::Labeled(LabeledStatement { label, statement: Box::new(s), location }))
        },
        None => None,
    }
}

/// Parse a `switch` statement.
fn parse_switch_node(n: &SyntaxNode, src: &[u8], depth: usize) -> (r: Option<Statement>)
    requires
        parse_ready(*n, src@.len() as int),
        depth > 0,
        n.kind@ == "switch_statement"@,
    ensures
        stmt_rel(src@, *n, r, depth as nat),
    decreases depth, 2int, 0int,
{
    let ghost len = src@.len() as int;
    let d = depth - 1;
    proof {
        lemma_fits_root(*n, len, 1, 0);
        reveal_statement_kinds();
        reveal_strlit("goto_statement");
        reveal_strlit("labeled_statement");
        reveal_strlit("compound_statement");
        reveal_strlit("switch_statement");
    }
    if n.children.len() < 3 {
        return None;
    }
    proof {
        lemma_fits_child(*n, 1, len, 1, 0);
        lemma_fits_child(*n, 2, len, 1, 0);
    }
    let cn = &n.children[1];
    let inner = if cn.children.len() > 1 {
        proof {
            lemma_fits_child(*cn, 1, len, 1, 0);
        }
        &cn.children[1]
    } else {
        cn
    };
    proof {
        lemma_fits_root(*inner, len, 1, 0);
    }
    let condition = match parse_expression(inner, src, d) {
        Some(e) => {
            proof {
                lemma_expr_rel_exclusive(src@, *inner, e, d as nat);
            }
            e
        },
        None => return None,
    };
    proof {
        lemma_children_ready(n.children@[2], len);
    }
    let body = parse_body(&n.children[2].children, src, d);
    Some(Statement::Switch(SwitchStatement {
        condition,
        condition_location: node_location(inner, src.len()),
        body,
        location: node_location(n, src.len()),
    }))
}

// ---------------------------------------------------------------------------
// Files
// ---------------------------------------------------------------------------

/// The number of bytes of the UTF-8 encoding of `c`.
pub open spec fn utf8_width(c: char) -> nat {
    if (c as u32) < 0x80 {
        1
    } else if (c as u32) < 0x800 {
        2
    } else if (c as u32) < 0x10000 {
        3
    } else {
        4
    }
}

/// The number of bytes of the UTF-8 encoding of `s` (`str::len`).
pub open spec fn utf8_len(s: Seq<char>) -> nat
    decreases s.len(),
{
    if s.len() == 0 {
        0
    } else {
        utf8_len(s.drop_last()) + utf8_width(s.last())
    }
}

/// A name that is a GObject type macro (`G_DECLARE_*`, `G_DEFINE_*`).
pub open spec fn gobject_type_macro(name: Seq<char>) -> bool {
    crate::text::has_prefix(name, "G_DECLARE_"@) || crate::text::has_prefix(name, "G_DEFINE_"@)
}

/// A name that is a macro or a keyword rather than a function: known macros
/// and keywords, type and lifecycle names, and names made of upper-case
/// letters, `_` and digits that hold a `_` or are longer than four bytes
/// (`NULL`, `TRUE` and `FALSE` aside).
pub open spec fn macro_identifier(name: Seq<char>) -> bool {
    let known = name == "G_DECLARE_FINAL_TYPE"@ || name == "G_DECLARE_DERIVABLE_TYPE"@ || name
        == "G_DECLARE_INTERFACE"@ || name == "void"@ || name == "int"@ || crate::text::has_prefix(
        name,
        "META_TYPE_"@,
    ) || crate::text::has_prefix(name, "CLUTTER_TYPE_"@) || crate::text::has_prefix(name, "COGL_TYPE_"@)
        || crate::text::has_prefix(name, "GTK_TYPE_"@) || crate::text::has_prefix(name, "G_TYPE_"@)
        || name == "COGL_PRIVATE"@ || crate::text::has_suffix(name, "_get_type"@)
        || crate::text::has_suffix(name, "_error_quark"@) || crate::text::has_suffix(name, "_END"@)
        || name == "main"@;
    let caps = forall|i: int|
        0 <= i < name.len() ==> (crate::text::unicode_uppercase(#[trigger] name[i]) || name[i] == '_'
            || crate::text::unicode_numeric(name[i]));
    known || (caps && !(name == "NULL"@ || name == "TRUE"@ || name == "FALSE"@) && (name.contains('_')
        || utf8_len(name) > 4))
}

/// `macro_identifier` on an ASCII name: upper case means `A`..`Z`, and a
/// digit `0`..`9`.
pub open spec fn macro_identifier_ascii(name: Seq<char>) -> bool {
    let known = name == "G_DECLARE_FINAL_TYPE"@ || name == "G_DECLARE_DERIVABLE_TYPE"@ || name
        == "G_DECLARE_INTERFACE"@ || name == "void"@ || name == "int"@ || crate::text::has_prefix(
        name,
        "META_TYPE_"@,
    ) || crate::text::has_prefix(name, "CLUTTER_TYPE_"@) || crate::text::has_prefix(name, "COGL_TYPE_"@)
        || crate::text::has_prefix(name, "GTK_TYPE_"@) || crate::text::has_prefix(name, "G_TYPE_"@)
        || name == "COGL_PRIVATE"@ || crate::text::has_suffix(name, "_get_type"@)
        || crate::text::has_suffix(name, "_error_quark"@) || crate::text::has_suffix(name, "_END"@)
        || name == "main"@;
    let caps = forall|i: int|
        0 <= i < name.len() ==> (crate::text::is_ascii_upper(#[trigger] name[i]) || name[i] == '_'
            || crate::text::is_ascii_digit(name[i]));
    known || (caps && !(name == "NULL"@ || name == "TRUE"@ || name == "FALSE"@) && (name.contains('_')
        || utf8_len(name) > 4))
}

/// Whether `name` is a GObject type macro.
pub fn is_gobject_type_macro(name: &str) -> (r: bool)
    ensures
        r == gobject_type_macro(name@),
{
    crate::text::starts_with(name, "G_DECLARE_") || crate::text::starts_with(name, "G_DEFINE_")
}

/// The UTF-8 encoding of `s` is longer than `k` bytes.
pub fn utf8_longer_than(s: &str, k: usize) -> (r: bool)
    ensures
        r == (utf8_len(s@) > k),
{
    let cs = chars_of(s);
    let mut n: u128 = 0;
    let mut i: usize = 0;
    while i < cs.len()
        invariant
            i <= cs@.len(),
            cs@ == s@,
            n == utf8_len(s@.take(i as int)),
            n <= 4 * i,
        decreases cs@.len() - i,
    {
        assert(s@.take(i + 1).drop_last() =~= s@.take(i as int));
        let c = cs[i];
        let w: u128 = if (c as u32) < 0x80 {
            1
        } else if (c as u32) < 0x800 {
            2
        } else if (c as u32) < 0x10000 {
            3
        } else {
            4
        };
        n = n + w;
        i = i + 1;
    }
    assert(s@.take(cs@.len() as int) =~= s@);
    n > k as u128
}

/// Whether `name` is a macro or keyword rather than a function.
pub fn is_macro_identifier(name: &str) -> (r: bool)
    ensures
        r == macro_identifier(name@),
        crate::text::all_ascii(name@) ==> r == macro_identifier_ascii(name@),
{
    let known = str_eq(name, "G_DECLARE_FINAL_TYPE") || str_eq(name, "G_DECLARE_DERIVABLE_TYPE")
        || str_eq(name, "G_DECLARE_INTERFACE") || str_eq(name, "void") || str_eq(name, "int")
        || crate::text::starts_with(name, "META_TYPE_") || crate::text::starts_with(name, "CLUTTER_TYPE_") || crate::text::starts_with(
        name,
        "COGL_TYPE_",
    ) || crate::text::starts_with(name, "GTK_TYPE_") || crate::text::starts_with(name, "G_TYPE_") || str_eq(name, "COGL_PRIVATE")
        || crate::text::ends_with(name, "_get_type") || crate::text::ends_with(name, "_error_quark") || crate::text::ends_with(name, "_END")
        || str_eq(name, "main");
    if known {
        return true;
    }
    let cs = chars_of(name);
    let mut caps = true;
    let mut i: usize = 0;
    while i < cs.len()
        invariant
            i <= cs@.len(),
            cs@ == name@,
            caps == forall|j: int|
                0 <= j < i ==> (crate::text::unicode_uppercase(#[trigger] cs@[j]) || cs@[j] == '_'
                    || crate::text::unicode_numeric(cs@[j])),
            forall|j: int|
                0 <= j < i && (#[trigger] cs@[j] as u32) < 128 ==> (crate::text::unicode_uppercase(cs@[j])
                    <==> crate::text::is_ascii_upper(cs@[j])) && (crate::text::unicode_numeric(cs@[j])
                    <==> crate::text::is_ascii_digit(cs@[j])),
        decreases cs@.len() - i,
    {
        let c = cs[i];
        let up = crate::text::char_is_uppercase(c);
        let num = crate::text::char_is_numeric(c);
        caps = caps && (up || c == '_' || num);
        i = i + 1;
    }
    proof {
        if crate::text::all_ascii(name@) {
            assert forall|j: int| 0 <= j < cs@.len() implies (crate::text::unicode_uppercase(cs@[j])
                || cs@[j] == '_' || crate::text::unicode_numeric(cs@[j])) == (crate::text::is_ascii_upper(
                #[trigger] cs@[j],
            ) || cs@[j] == '_' || crate::text::is_ascii_digit(cs@[j])) by {
                assert((cs@[j] as u32) < 128);
            }
        }
    }
    if !caps {
        return false;
    }
    if str_eq(name, "NULL") || str_eq(name, "TRUE") || str_eq(name, "FALSE") {
        return false;
    }
    crate::text::contains_char(name, '_') || utf8_longer_than(name, 4)
}

/// The name that a declarator declares: its first identifier.
pub open spec fn declared_name(src: Seq<u8>, d: SyntaxNode) -> Option<Seq<char>> {
    match first_kind(crate::syntax::preorder(d), "identifier"@) {
        Some(id) => text_at(src, id),
        None => None,
    }
}

/// `f` is the model of the function definition `n`: its name, line,
/// `static`, byte range, and body.
pub open spec fn definition_rel(src: Seq<u8>, n: SyntaxNode, name: Seq<char>, f: crate::model::function::FunctionInfo, depth: nat) -> bool {
    &&& f.name@ == name
    &&& f.line == n.start_row + 1
    &&& f.is_static == has_static(src, n.children@)
    &&& f.export_macros@.len() == 0
    &&& !f.has_static_forward_decl
    &&& f.is_definition
    &&& f.return_type is None
    &&& f.parameters@.len() == 0
    &&& f.start_byte == Some(n.start_byte)
    &&& f.end_byte == Some(n.end_byte)
    &&& match child_by_field(n.children@, "body"@) {
        Some(b) => f.body_start_byte == Some(b.start_byte) && f.body_end_byte == Some(b.end_byte)
            && body_rel(src, b.children@, f.body_statements@, depth),
        None => f.body_start_byte is None && f.body_end_byte is None && f.body_statements@.len() == 0,
    }
}

/// `f` is the model of the prototype of `name` that the declaration `n`
/// holds.
pub open spec fn prototype_rel(src: Seq<u8>, n: SyntaxNode, name: Seq<char>, f: crate::model::function::FunctionInfo) -> bool {
    &&& f.name@ == name
    &&& f.line == n.start_row + 1
    &&& f.is_static == has_static(src, n.children@)
    &&& f.export_macros@.len() == 0
    &&& !f.has_static_forward_decl
    &&& !f.is_definition
    &&& f.return_type is None
    &&& f.parameters@.len() == 0
    &&& f.start_byte is None && f.end_byte is None
    &&& f.body_start_byte is None && f.body_end_byte is None
    &&& f.body_statements@.len() == 0
}

/// The names of the functions that the function declarators among `ns`
/// declare, macros and type macros aside, in order.
pub open spec fn declarator_names(src: Seq<u8>, ns: Seq<SyntaxNode>) -> Seq<Seq<char>>
    decreases ns.len(),
{
    if ns.len() == 0 {
        Seq::empty()
    } else {
        declarator_names(src, ns.drop_last()) + if ns.last().kind@ == "function_declarator"@ {
            match child_by_field(ns.last().children@, "declarator"@) {
                Some(d) => match declared_name(src, d) {
                    Some(name) => if !macro_identifier(name) && !gobject_type_macro(name) {
                        seq![name]
                    } else {
                        Seq::empty()
                    },
                    None => Seq::empty(),
                },
                None => Seq::empty(),
            }
        } else {
            Seq::empty()
        }
    }
}

/// The name of the function that the first call of the statement `n`
/// calls, when it is called by a plain identifier, macros and type macros
/// aside (a declaration that the grammar took for a call).
pub open spec fn statement_call_names(src: Seq<u8>, n: SyntaxNode) -> Seq<Seq<char>> {
    match first_kind(crate::syntax::preorder(n), "call_expression"@) {
        Some(c) => match child_by_field(c.children@, "function"@) {
            Some(f) => if f.kind@ == "identifier"@ {
                match text_at(src, f) {
                    Some(name) => if !macro_identifier(name) && !gobject_type_macro(name) {
                        seq![name]
                    } else {
                        Seq::empty()
                    },
                    None => Seq::empty(),
                }
            } else {
                Seq::empty()
            },
            None => Seq::empty(),
        },
        None => Seq::empty(),
    }
}

/// The names of the functions that the declaration or expression
/// statement `n` declares.
pub open spec fn node_function_names(src: Seq<u8>, n: SyntaxNode) -> Seq<Seq<char>> {
    if n.kind@ == "declaration"@ {
        declarator_names(src, crate::syntax::preorder(n))
    } else {
        statement_call_names(src, n)
    }
}

/// `fs` are the functions that the nodes `ns` (a pre-order) define and
/// declare, in order: a function definition (unless a type macro) with its
/// body skipped, the prototypes of each declaration, and the function that
/// a statement outside any function calls first; nodes that start before
/// `skip` lie in a definition already taken.
pub open spec fn functions_rel(src: Seq<u8>, ns: Seq<SyntaxNode>, skip: int, fs: Seq<crate::model::function::FunctionInfo>, depth: nat) -> bool
    decreases ns.len(),
{
    if ns.len() == 0 {
        fs.len() == 0
    } else {
        let n = ns[0];
        if n.start_byte < skip {
            functions_rel(src, ns.drop_first(), skip, fs, depth)
        } else if n.kind@ == "function_definition"@ {
            match child_by_field(n.children@, "declarator"@) {
                Some(d) => match declared_name(src, d) {
                    Some(name) => if gobject_type_macro(name) {
                        functions_rel(src, ns.drop_first(), n.end_byte as int, fs, depth)
                    } else {
                        fs.len() > 0 && definition_rel(src, n, name, fs[0], depth) && functions_rel(
                            src,
                            ns.drop_first(),
                            n.end_byte as int,
                            fs.drop_first(),
                            depth,
                        )
                    },
                    None => functions_rel(src, ns.drop_first(), n.end_byte as int, fs, depth),
                },
                None => functions_rel(src, ns.drop_first(), n.end_byte as int, fs, depth),
            }
        } else if n.kind@ == "declaration"@ || n.kind@ == "expression_statement"@ {
            let names = node_function_names(src, n);
            fs.len() >= names.len() && (forall|i: int|
                0 <= i < names.len() ==> prototype_rel(src, n, names[i], #[trigger] fs[i]))
                && functions_rel(src, ns.drop_first(), skip, fs.skip(names.len() as int), depth)
        } else {
            functions_rel(src, ns.drop_first(), skip, fs, depth)
        }
    }
}

/// The name that a declarator declares.
fn declared_name_of(d: &SyntaxNode, src: &[u8]) -> (r: Option<String>)
    requires
        parse_ready(*d, src@.len() as int),
    ensures
        r matches Some(t) ==> declared_name(src@, *d) == Some(t@),
        r is None ==> declared_name(src@, *d) is None,
{
    let ghost len = src@.len() as int;
    match find_first_kind(d, "identifier", Ghost(len)) {
        Some(id) => {
            proof {
                lemma_fits_root(*id, len, 1, 0);
            }
            node_text_opt(id, src)
        },
        None => None,
    }
}

/// The name of the function that the first call of the statement `n`
/// calls (see `statement_call_names`).
fn statement_call_name(n: &SyntaxNode, src: &[u8]) -> (r: Vec<String>)
    requires
        parse_ready(*n, src@.len() as int),
    ensures
        r@.map_values(|x: String| x@) == statement_call_names(src@, *n),
{
    let ghost len = src@.len() as int;
    let mut out: Vec<String> = Vec::new();
    proof {
        reveal_strlit("call_expression");
        reveal_strlit("function");
        reveal_strlit("identifier");
    }
    match find_first_kind(n, "call_expression", Ghost(len)) {
        Some(c) => match field_child(c, "function", Ghost(len)) {
            Some(f) => {
                proof {
                    lemma_fits_root(*f, len, 1, 0);
                }
                if f.is_kind("identifier") {
                    match node_text_opt(f, src) {
                        Some(name) => {
                            if !is_macro_identifier(name.as_str()) && !is_gobject_type_macro(name.as_str()) {
                                out.push(name);
                            }
                        },
                        None => {},
                    }
                }
            },
            None => {},
        },
        None => {},
    }
    assert(out@.map_values(|x: String| x@) =~= statement_call_names(src@, *n));
    out
}

/// The names of the functions that the function declarators of the tree
/// rooted at `n` declare.
fn function_declarator_names(n: &SyntaxNode, src: &[u8]) -> (r: Vec<String>)
    requires
        parse_ready(*n, src@.len() as int),
    ensures
        r@.map_values(|x: String| x@) == declarator_names(src@, crate::syntax::preorder(*n)),
{
    let ghost len = src@.len() as int;
    let all = n.preorder();
    let ghost ns = crate::model::expression::derefs(all@);
    let mut out: Vec<String> = Vec::new();
    let mut i: usize = 0;
    while i < all.len()
        invariant
            i <= all@.len(),
            ns == crate::model::expression::derefs(all@),
            ns == crate::syntax::preorder(*n),
            parse_ready(*n, len),
            len == src@.len(),
            out@.map_values(|x: String| x@) == declarator_names(src@, ns.take(i as int)),
        decreases all@.len() - i,
    {
        let c: &SyntaxNode = all[i];
        assert(ns.take(i + 1).drop_last() =~= ns.take(i as int));
        assert(ns.take(i + 1).last() == *c);
        proof {
            assert(ns[i as int] == *c);
            assert(ns.contains(*c));
            crate::syntax::lemma_fits_member(*n, *c, len, 1, 0);
            reveal_strlit("function_declarator");
        }
        let ghost before = out@.map_values(|x: String| x@);
        let mut pushed = false;
        if c.is_kind("function_declarator") {
            if let Some(d) = field_child(c, "declarator", Ghost(len)) {
                if let Some(name) = declared_name_of(d, src) {
                    if !is_macro_identifier(name.as_str()) && !is_gobject_type_macro(name.as_str()) {
                        let ghost nv = name@;
                        out.push(name);
                        pushed = true;
                        assert(out@.map_values(|x: String| x@) =~= before.push(nv));
                    }
                }
            }
        }
        if !pushed {
            assert(declarator_names(src@, ns.take(i + 1)) =~= declarator_names(src@, ns.take(i as int))
                + Seq::empty());
        }
        i = i + 1;
    }
    assert(ns.take(all@.len() as int) =~= ns);
    out
}

/// The model of a function definition whose name is `name`.
fn definition_info(n: &SyntaxNode, name: String, src: &[u8], depth: usize) -> (r: crate::model::function::FunctionInfo)
    requires
        parse_ready(*n, src@.len() as int),
    ensures
        definition_rel(src@, *n, name@, r, depth as nat),
{
    let ghost len = src@.len() as int;
    proof {
        lemma_fits_root(*n, len, 1, 0);
    }
    let is_static = has_child_with_text(&n.children, "storage_class_specifier", "static", src, Ghost(*n));
    let (body_start_byte, body_end_byte, body_statements) = match field_child(n, "body", Ghost(len)) {
        Some(b) => {
            proof {
                lemma_children_ready(*b, len);
            }
            (Some(b.start_byte), Some(b.end_byte), parse_body(&b.children, src, depth))
        },
        None => {
            let v: Vec<Statement> = Vec::new();
            (None, None, v)
        },
    };
    crate::model::function::FunctionInfo {
        name,
        line: n.start_row + 1,
        is_static,
        export_macros: Vec::new(),
        has_static_forward_decl: false,
        is_definition: true,
        return_type: None,
        parameters: Vec::new(),
        start_byte: Some(n.start_byte),
        end_byte: Some(n.end_byte),
        body_start_byte,
        body_end_byte,
        body_statements,
    }
}

/// The model of the prototype of `name` in the declaration `n`.
fn prototype_info(n: &SyntaxNode, name: String, src: &[u8]) -> (r: crate::model::function::FunctionInfo)
    requires
        parse_ready(*n, src@.len() as int),
    ensures
        prototype_rel(src@, *n, name@, r),
{
    proof {
        lemma_fits_root(*n, src@.len() as int, 1, 0);
    }
    let is_static = has_child_with_text(&n.children, "storage_class_specifier", "static", src, Ghost(*n));
    crate::model::function::FunctionInfo {
        name,
        line: n.start_row + 1,
        is_static,
        export_macros: Vec::new(),
        has_static_forward_decl: false,
        is_definition: false,
        return_type: None,
        parameters: Vec::new(),
        start_byte: None,
        end_byte: None,
        body_start_byte: None,
        body_end_byte: None,
        body_statements: Vec::new(),
    }
}

/// The functions that the tree rooted at `root` defines and declares, in
/// pre-order; the bodies of definitions are not searched.
pub fn parse_functions(root: &SyntaxNode, src: &[u8], depth: usize) -> (r: Vec<crate::model::function::FunctionInfo>)
    requires
        parse_ready(*root, src@.len() as int),
    ensures
        functions_rel(src@, crate::syntax::preorder(*root), 0, r@, depth as nat),
{
    let ghost len = src@.len() as int;
    let all = root.preorder();
    let ghost ns = crate::model::expression::derefs(all@);
    let mut out: Vec<crate::model::function::FunctionInfo> = Vec::new();
    let mut skip: usize = 0;
    let mut i: usize = 0;
    assert(ns.skip(0) =~= ns);
    assert forall|rest: Seq<crate::model::function::FunctionInfo>|
        #[trigger] functions_rel(src@, ns.skip(0), 0, rest, depth as nat) implies functions_rel(
        src@,
        ns,
        0,
        out@ + rest,
        depth as nat,
    ) by {
        assert(out@ + rest =~= rest);
    }
    while i < all.len()
        invariant
            i <= all@.len(),
            ns == crate::model::expression::derefs(all@),
            ns == crate::syntax::preorder(*root),
            parse_ready(*root, len),
            len == src@.len(),
            forall|rest: Seq<crate::model::function::FunctionInfo>|
                #[trigger] functions_rel(src@, ns.skip(i as int), skip as int, rest, depth as nat)
                    ==> functions_rel(src@, ns, 0, out@ + rest, depth as nat),
        decreases all@.len() - i,
    {
        let n: &SyntaxNode = all[i];
        let ghost here = ns.skip(i as int);
        assert(here[0] == *n);
        assert(here.drop_first() =~= ns.skip(i + 1));
        proof {
            assert(ns[i as int] == *n);
            assert(ns.contains(*n));
            crate::syntax::lemma_fits_member(*root, *n, len, 1, 0);
            reveal_strlit("function_definition");
            reveal_strlit("declaration");
        }
        let ghost out0 = out@;
        let ghost skip0 = skip as int;
        if n.start_byte < skip {
            // Inside a definition already taken.
        } else if n.is_kind("function_definition") {
            let mut taken = false;
            if let Some(d) = field_child(n, "declarator", Ghost(len)) {
                if let Some(name) = declared_name_of(d, src) {
                    if !is_gobject_type_macro(name.as_str()) {
                        let f = definition_info(n, name, src, depth);
                        out.push(f);
                        taken = true;
                    }
                }
            }
            skip = n.end_byte;
            proof {
                assert forall|rest: Seq<crate::model::function::FunctionInfo>|
                    #[trigger] functions_rel(src@, ns.skip(i + 1), skip as int, rest, depth as nat)
                        implies functions_rel(src@, ns, 0, out@ + rest, depth as nat) by {
                    let full = out@.skip(out0.len() as int) + rest;
                    assert(functions_rel(src@, here, skip0, full, depth as nat)) by {
                        if taken {
                            assert(full[0] == out@[out0.len() as int]);
                            assert(full.drop_first() =~= rest);
                        } else {
                            assert(full =~= rest);
                        }
                    }
                    assert(out0 + full =~= out@ + rest);
                }
            }
        } else if n.is_kind("declaration") || n.is_kind("expression_statement") {
            proof {
                reveal_strlit("expression_statement");
            }
            let names = if n.is_kind("declaration") {
                function_declarator_names(n, src)
            } else {
                statement_call_name(n, src)
            };
            let ghost nv = names@.map_values(|x: String| x@);
            let mut k: usize = 0;
            let mut protos: Vec<crate::model::function::FunctionInfo> = Vec::new();
            while k < names.len()
                invariant
                    k <= names@.len(),
                    nv == names@.map_values(|x: String| x@),
                    parse_ready(*n, len),
                    len == src@.len(),
                    protos@.len() == k,
                    forall|j: int| 0 <= j < k ==> prototype_rel(src@, *n, nv[j], #[trigger] protos@[j]),
                decreases names@.len() - k,
            {
                let name = names[k].clone();
                assert(name@ == nv[k as int]);
                let f = prototype_info(n, name, src);
                protos.push(f);
                k = k + 1;
            }
            let ghost pv = protos@;
            out.append(&mut protos);
            proof {
                assert forall|rest: Seq<crate::model::function::FunctionInfo>|
                    #[trigger] functions_rel(src@, ns.skip(i + 1), skip as int, rest, depth as nat)
                        implies functions_rel(src@, ns, 0, out@ + rest, depth as nat) by {
                    let full = pv + rest;
                    assert(full.skip(nv.len() as int) =~= rest);
                    assert(functions_rel(src@, here, skip0, full, depth as nat));
                    assert(out0 + full =~= out@ + rest);
                }
            }
        }
        proof {
            if n.start_byte < skip0 || !(n.kind@ == "function_definition"@ || n.kind@ == "declaration"@
                || n.kind@ == "expression_statement"@) {
                assert forall|rest: Seq<crate::model::function::FunctionInfo>|
                    #[trigger] functions_rel(src@, ns.skip(i + 1), skip as int, rest, depth as nat)
                        implies functions_rel(src@, ns, 0, out@ + rest, depth as nat) by {
                    assert(functions_rel(src@, here, skip0, rest, depth as nat));
                }
            }
        }
        i = i + 1;
    }
    proof {
        assert(ns.skip(all@.len() as int) =~= Seq::<SyntaxNode>::empty());
        assert(functions_rel(src@, ns.skip(all@.len() as int), skip as int, Seq::empty(), depth as nat));
        assert(out@ + Seq::<crate::model::function::FunctionInfo>::empty() =~= out@);
    }
    out
}

/// The characters that delimit the path of an `#include`.
pub open spec fn is_include_delimiter(c: char) -> bool {
    c == '<' || c == '>' || c == '"'
}

/// `incs` are the includes that the `#include` nodes among `ns` name, in
/// order: the path without its delimiters, whether it is a system path
/// (`<...>`), and where the directive stands.
pub open spec fn includes_rel(src: Seq<u8>, ns: Seq<SyntaxNode>, incs: Seq<crate::model::project::Include>) -> bool
    decreases ns.len(),
{
    if ns.len() == 0 {
        incs.len() == 0
    } else {
        let n = ns.last();
        let t = match child_by_field(n.children@, "path"@) {
            Some(pn) => text_at(src, pn),
            None => None,
        };
        if n.kind@ == "preproc_include"@ && t is Some {
            incs.len() > 0 && incs.last().path@ == crate::text::strip_back(
                crate::text::strip_front(t.unwrap(), |c: char| is_include_delimiter(c)),
                |c: char| is_include_delimiter(c),
            ) && incs.last().is_system == crate::text::has_prefix(t.unwrap(), "<"@)
                && incs.last().location == loc_of(n) && includes_rel(src, ns.drop_last(), incs.drop_last())
        } else {
            includes_rel(src, ns.drop_last(), incs)
        }
    }
}

/// `s` without its leading and trailing `<`, `>` and `"`.
pub fn trim_include_path(s: &str) -> (r: String)
    ensures
        r@ == crate::text::strip_back(
            crate::text::strip_front(s@, |c: char| is_include_delimiter(c)),
            |c: char| is_include_delimiter(c),
        ),
{
    let x = chars_of(s);
    let ghost p = |c: char| is_include_delimiter(c);
    let mut i: usize = 0;
    while i < x.len() && (x[i] == '<' || x[i] == '>' || x[i] == '"')
        invariant
            x@ == s@,
            i <= x@.len(),
            forall|j: int| 0 <= j < i ==> is_include_delimiter(x@[j]),
        decreases x@.len() - i,
    {
        i = i + 1;
    }
    proof {
        crate::text::lemma_strip_front_skip(s@, p, i as int);
    }
    let ghost front = s@.subrange(i as int, s@.len() as int);
    let mut j: usize = x.len();
    while j > i && (x[j - 1] == '<' || x[j - 1] == '>' || x[j - 1] == '"')
        invariant
            x@ == s@,
            i <= j <= x@.len(),
            forall|k: int| j <= k < x@.len() ==> is_include_delimiter(x@[k]),
        decreases j,
    {
        j = j - 1;
    }
    proof {
        assert forall|k: int| (j - i) <= k < front.len() implies p(front[k]) by {
            assert(front[k] == x@[i + k]);
        }
        if j > i {
            assert(front[j - i - 1] == x@[j - 1]);
        }
        crate::text::lemma_strip_back_take(front, p, j - i);
        assert(front.subrange(0, j - i) =~= x@.subrange(i as int, j as int));
    }
    let sub = crate::text::slice_chars(&x, i, j);
    crate::text::string_from_chars(sub.as_slice())
}

/// The includes of the tree rooted at `root`, in pre-order.
pub fn parse_includes(root: &SyntaxNode, src: &[u8]) -> (r: Vec<crate::model::project::Include>)
    requires
        parse_ready(*root, src@.len() as int),
    ensures
        includes_rel(src@, crate::syntax::preorder(*root), r@),
{
    let ghost len = src@.len() as int;
    let all = root.preorder();
    let ghost ns = crate::model::expression::derefs(all@);
    let mut out: Vec<crate::model::project::Include> = Vec::new();
    let mut i: usize = 0;
    while i < all.len()
        invariant
            i <= all@.len(),
            ns == crate::model::expression::derefs(all@),
            ns == crate::syntax::preorder(*root),
            parse_ready(*root, len),
            len == src@.len(),
            includes_rel(src@, ns.take(i as int), out@),
        decreases all@.len() - i,
    {
        let n: &SyntaxNode = all[i];
        assert(ns.take(i + 1).drop_last() =~= ns.take(i as int));
        assert(ns.take(i + 1).last() == *n);
        proof {
            assert(ns[i as int] == *n);
            assert(ns.contains(*n));
            crate::syntax::lemma_fits_member(*root, *n, len, 1, 0);
            lemma_fits_root(*n, len, 1, 0);
            reveal_strlit("preproc_include");
            reveal_strlit("<");
        }
        let text = if n.is_kind("preproc_include") {
            match field_child(n, "path", Ghost(len)) {
                Some(pn) => node_text_opt(pn, src),
                None => None,
            }
        } else {
            None
        };
        match text {
            Some(t) => {
                let ghost before = out@;
                let inc = crate::model::project::Include {
                    path: trim_include_path(t.as_str()),
                    is_system: crate::text::starts_with(t.as_str(), "<"),
                    location: node_location(n, src.len()),
                };
                out.push(inc);
                assert(out@.drop_last() =~= before);
            },
            None => {},
        }
        i = i + 1;
    }
    assert(ns.take(all@.len() as int) =~= ns);
    out
}

/// The names of the static prototypes among `fs`, in order.
pub open spec fn static_prototype_names(fs: Seq<crate::model::function::FunctionInfo>) -> Seq<Seq<char>>
    decreases fs.len(),
{
    if fs.len() == 0 {
        Seq::empty()
    } else {
        static_prototype_names(fs.drop_last()) + if !fs.last().is_definition && fs.last().is_static {
            seq![fs.last().name@]
        } else {
            Seq::empty()
        }
    }
}

/// `f` once the names `forwards` of the functions with a static forward
/// declaration are known: it has one when its name is among them, and a
/// definition of such a function is static.
pub open spec fn with_forward(f: crate::model::function::FunctionInfo, forwards: Seq<Seq<char>>) -> crate::model::function::FunctionInfo {
    crate::model::function::FunctionInfo {
        is_static: f.is_static || (f.is_definition && forwards.contains(f.name@)),
        has_static_forward_decl: forwards.contains(f.name@),
        ..f
    }
}

/// The functions `fs` of a file with their static forward declarations
/// taken into account.
pub open spec fn with_static_forwards(fs: Seq<crate::model::function::FunctionInfo>) -> Seq<crate::model::function::FunctionInfo> {
    fs.map_values(|f: crate::model::function::FunctionInfo| with_forward(f, static_prototype_names(fs)))
}

/// Marks the functions of `fs` that have a static forward declaration
/// among them (see `with_static_forwards`).
pub fn mark_static_forwards(fs: Vec<crate::model::function::FunctionInfo>) -> (r: Vec<crate::model::function::FunctionInfo>)
    ensures
        r@ == with_static_forwards(fs@),
{
    let ghost orig = fs@;
    let mut names: Vec<String> = Vec::new();
    let mut i: usize = 0;
    while i < fs.len()
        invariant
            i <= orig.len(),
            orig == fs@,
            crate::config::listing_view(names@) == static_prototype_names(orig.take(i as int)),
        decreases orig.len() - i,
    {
        assert(orig.take(i + 1).drop_last() =~= orig.take(i as int));
        assert(orig.take(i + 1).last() == orig[i as int]);
        let ghost before = crate::config::listing_view(names@);
        if !fs[i].is_definition && fs[i].is_static {
            names.push(fs[i].name.clone());
            assert(crate::config::listing_view(names@) =~= before + seq![orig[i as int].name@]);
        } else {
            assert(crate::config::listing_view(names@) =~= before + Seq::<Seq<char>>::empty());
        }
        i = i + 1;
    }
    assert(orig.take(orig.len() as int) =~= orig);
    let ghost fw = static_prototype_names(orig);
    let mut rest = fs;
    let mut out: Vec<crate::model::function::FunctionInfo> = Vec::new();
    assert(orig.skip(0) =~= orig);
    while rest.len() > 0
        invariant
            out@.len() + rest@.len() == orig.len(),
            rest@ == orig.skip(out@.len() as int),
            crate::config::listing_view(names@) == fw,
            fw == static_prototype_names(orig),
            forall|k: int| 0 <= k < out@.len() ==> #[trigger] out@[k] == with_forward(orig[k], fw),
        decreases rest@.len(),
    {
        let ghost k = out@.len() as int;
        let mut f = rest.remove(0);
        assert(f == orig[k]);
        assert(rest@ =~= orig.skip(k + 1));
        let forward = crate::config::lists(&names, f.name.as_str());
        f.has_static_forward_decl = forward;
        f.is_static = f.is_static || (f.is_definition && forward);
        out.push(f);
    }
    assert(out@ =~= with_static_forwards(orig));
    out
}

/// The model of the file at `path` with text `source`, from its syntax tree.
pub fn file_model_from_tree(path: String, source: Vec<u8>, tree: &SyntaxNode) -> (r: crate::model::project::FileModel)
    requires
        parse_ready(*tree, source@.len() as int),
    ensures
        r.path@ == path@,
        r.source@ == source@,
        exists|fs: Seq<crate::model::function::FunctionInfo>|
            functions_rel(source@, crate::syntax::preorder(*tree), 0, fs, usize::MAX as nat)
                && crate::export_macros::exports_attached(
                source@,
                crate::syntax::preorder(*tree),
                with_static_forwards(fs),
                r.functions@,
            ),
        includes_rel(source@, crate::syntax::preorder(*tree), r.includes@),
        crate::declarations::struct_views(r.structs@) == crate::declarations::decl_scan(
            *tree,
            None,
            crate::declarations::struct_finder(source@),
        ),
        crate::declarations::typedef_views(r.typedefs@) == crate::declarations::decl_scan(
            *tree,
            None,
            crate::declarations::typedef_finder(source@),
        ),
        crate::declarations::enum_views(r.enums@) == crate::declarations::decl_scan(
            *tree,
            None,
            crate::declarations::enum_finder(source@),
        ),
        exists|declared: Seq<crate::model::project::GObjectType>, with_tree: Seq<crate::model::project::GObjectType>|
            crate::declarations::gtype_views(declared) == crate::declarations::decl_scan(
                *tree,
                None,
                crate::declarations::gobject_finder(source@),
            ) && crate::class_structs::classes_attached(source@, crate::syntax::preorder(*tree), declared, with_tree)
                && crate::class_structs::text_classes_attached(source@, with_tree, r.gobject_types@),
        r.top_level_items@.len() == 0,
{
    let parsed = parse_functions(tree, source.as_slice(), usize::MAX);
    let ghost parsed_view = parsed@;
    let marked = mark_static_forwards(parsed);
    let functions = crate::export_macros::attach_export_macros(tree, source.as_slice(), marked);
    assert(functions_rel(source@, crate::syntax::preorder(*tree), 0, parsed_view, usize::MAX as nat)
        && crate::export_macros::exports_attached(
        source@,
        crate::syntax::preorder(*tree),
        with_static_forwards(parsed_view),
        functions@,
    ));
    let includes = parse_includes(tree, source.as_slice());
    let mut model = crate::model::project::FileModel::new(path);
    model.functions = functions;
    model.includes = includes;
    crate::declarations::scan_declarations(
        tree,
        None,
        source.as_slice(),
        &mut model.structs,
        &mut model.typedefs,
        &mut model.enums,
        &mut model.gobject_types,
    );
    let ghost declared = model.gobject_types@;
    assert(crate::declarations::gtype_views(declared) =~= crate::declarations::decl_scan(
        *tree,
        None,
        crate::declarations::gobject_finder(source@),
    ));
    crate::class_structs::attach_class_structs(tree, source.as_slice(), &mut model.gobject_types);
    let ghost with_tree = model.gobject_types@;
    crate::class_structs::attach_text_class_structs(source.as_slice(), &mut model.gobject_types);
    assert(crate::declarations::struct_views(model.structs@) =~= crate::declarations::decl_scan(
        *tree,
        None,
        crate::declarations::struct_finder(source@),
    ));
    assert(crate::declarations::typedef_views(model.typedefs@) =~= crate::declarations::decl_scan(
        *tree,
        None,
        crate::declarations::typedef_finder(source@),
    ));
    assert(crate::declarations::enum_views(model.enums@) =~= crate::declarations::decl_scan(
        *tree,
        None,
        crate::declarations::enum_finder(source@),
    ));
    model.source = source;
    model
}

/// Parse the file at `path` with text `source` into its model: its function
/// definitions (with their bodies) and prototypes, and its includes. When
/// the grammar cannot parse it, or the tree's positions do not fit, the
/// model holds the text alone.
pub fn parse_file_model(path: String, source: Vec<u8>) -> (r: crate::model::project::FileModel)
    ensures
        r.path@ == path@,
        r.source@ == source@,
        (r.functions@.len() == 0 && r.includes@.len() == 0 && r.structs@.len() == 0 && r.typedefs@.len()
            == 0 && r.enums@.len() == 0 && r.gobject_types@.len() == 0) || exists|t: SyntaxNode|
            parse_ready(t, source@.len() as int) && (exists|fs: Seq<crate::model::function::FunctionInfo>|
                functions_rel(source@, crate::syntax::preorder(t), 0, fs, usize::MAX as nat)
                    && crate::export_macros::exports_attached(
                    source@,
                    crate::syntax::preorder(t),
                    with_static_forwards(fs),
                    r.functions@,
                )) && includes_rel(source@, crate::syntax::preorder(t), r.includes@)
                && crate::declarations::struct_views(r.structs@) == crate::declarations::decl_scan(
                t,
                None,
                crate::declarations::struct_finder(source@),
            ) && crate::declarations::typedef_views(r.typedefs@) == crate::declarations::decl_scan(
                t,
                None,
                crate::declarations::typedef_finder(source@),
            ) && crate::declarations::enum_views(r.enums@) == crate::declarations::decl_scan(
                t,
                None,
                crate::declarations::enum_finder(source@),
            ) && exists|declared: Seq<crate::model::project::GObjectType>, with_tree: Seq<crate::model::project::GObjectType>|
                crate::declarations::gtype_views(declared) == crate::declarations::decl_scan(
                    t,
                    None,
                    crate::declarations::gobject_finder(source@),
                ) && crate::class_structs::classes_attached(source@, crate::syntax::preorder(t), declared, with_tree)
                    && crate::class_structs::text_classes_attached(source@, with_tree, r.gobject_types@),
{
    match crate::syntax::parse_c_source(source.as_slice()) {
        Some(tree) => {
            if crate::syntax::tree_fits(&tree, source.len(), 1, 0) {
                let ghost src = source@;
                let m = file_model_from_tree(path, source, &tree);
                assert(parse_ready(tree, src.len() as int) && (exists|fs: Seq<crate::model::function::FunctionInfo>|
                    functions_rel(src, crate::syntax::preorder(tree), 0, fs, usize::MAX as nat)
                        && crate::export_macros::exports_attached(
                        src,
                        crate::syntax::preorder(tree),
                        with_static_forwards(fs),
                        m.functions@,
                    )) && includes_rel(src, crate::syntax::preorder(tree), m.includes@)
                    && crate::declarations::struct_views(m.structs@) == crate::declarations::decl_scan(
                    tree,
                    None,
                    crate::declarations::struct_finder(src),
                ) && crate::declarations::typedef_views(m.typedefs@) == crate::declarations::decl_scan(
                    tree,
                    None,
                    crate::declarations::typedef_finder(src),
                ) && crate::declarations::enum_views(m.enums@) == crate::declarations::decl_scan(
                    tree,
                    None,
                    crate::declarations::enum_finder(src),
                ) && exists|declared: Seq<crate::model::project::GObjectType>, with_tree: Seq<crate::model::project::GObjectType>|
                    crate::declarations::gtype_views(declared) == crate::declarations::decl_scan(
                        tree,
                        None,
                        crate::declarations::gobject_finder(src),
                    ) && crate::class_structs::classes_attached(src, crate::syntax::preorder(tree), declared, with_tree)
                        && crate::class_structs::text_classes_attached(src, with_tree, m.gobject_types@));
                m
            } else {
                let mut model = crate::model::project::FileModel::new(path);
                model.source = source;
                model
            }
        },
        None => {
            let mut model = crate::model::project::FileModel::new(path);
            model.source = source;
            model
        },
    }
}

} // verus!
