//! Structural equality of the expressions that denote variables: an
//! identifier, a field access, or a prefix operator applied to one. Other
//! expressions are equal to nothing, themselves included.

use vstd::prelude::*;

use crate::model::expression::{
    Expression, FieldAccessExpression, IdentifierExpression, UnaryExpression,
};
use crate::text::str_eq;

verus! {

/// `a == b` for expressions: identifiers with the same name; field accesses
/// with equal bases, the same operator and the same field; prefix operators
/// that are the same, applied to equal operands.
pub open spec fn expr_eq(a: Expression, b: Expression) -> bool
    decreases a,
{
    match a {
        Expression::Identifier(x) => b matches Expression::Identifier(y) && x.name@ == y.name@,
        Expression::FieldAccess(x) => match b {
            Expression::FieldAccess(y) => expr_eq(*x.base, *y.base) && x.operator == y.operator
                && x.field@ == y.field@,
            _ => false,
        },
        Expression::Unary(x) => match b {
            Expression::Unary(y) => x.operator == y.operator && expr_eq(*x.operand, *y.operand),
            _ => false,
        },
        _ => false,
    }
}

/// Computes `expr_eq`.
pub fn expr_equal(a: &Expression, b: &Expression) -> (r: bool)
    ensures
        r == expr_eq(*a, *b),
    decreases a,
{
    match a {
        Expression::Identifier(x) => match b {
            Expression::Identifier(y) => str_eq(x.name.as_str(), y.name.as_str()),
            _ => false,
        },
        Expression::FieldAccess(x) => match b {
            Expression::FieldAccess(y) => expr_equal(&x.base, &y.base) && x.operator
                == y.operator && str_eq(x.field.as_str(), y.field.as_str()),
            _ => false,
        },
        Expression::Unary(x) => match b {
            Expression::Unary(y) => x.operator == y.operator && expr_equal(
                &x.operand,
                &y.operand,
            ),
            _ => false,
        },
        _ => false,
    }
}

impl PartialEq for Expression {
    fn eq(&self, other: &Self) -> (r: bool) {
        expr_equal(self, other)
    }
}

impl vstd::std_specs::cmp::PartialEqSpecImpl for Expression {
    open spec fn obeys_eq_spec() -> bool {
        true
    }

    open spec fn eq_spec(&self, other: &Self) -> bool {
        expr_eq(*self, *other)
    }
}

impl PartialEq for IdentifierExpression {
    fn eq(&self, other: &Self) -> (r: bool) {
        str_eq(self.name.as_str(), other.name.as_str())
    }
}

impl vstd::std_specs::cmp::PartialEqSpecImpl for IdentifierExpression {
    open spec fn obeys_eq_spec() -> bool {
        true
    }

    open spec fn eq_spec(&self, other: &Self) -> bool {
        self.name@ == other.name@
    }
}

impl PartialEq for FieldAccessExpression {
    fn eq(&self, other: &Self) -> (r: bool) {
        expr_equal(&self.base, &other.base) && self.operator == other.operator && str_eq(
            self.field.as_str(),
            other.field.as_str(),
        )
    }
}

impl vstd::std_specs::cmp::PartialEqSpecImpl for FieldAccessExpression {
    open spec fn obeys_eq_spec() -> bool {
        true
    }

    open spec fn eq_spec(&self, other: &Self) -> bool {
        expr_eq(*self.base, *other.base) && self.operator == other.operator && self.field@
            == other.field@
    }
}

impl PartialEq for UnaryExpression {
    fn eq(&self, other: &Self) -> (r: bool) {
        self.operator == other.operator && expr_equal(&self.operand, &other.operand)
    }
}

impl vstd::std_specs::cmp::PartialEqSpecImpl for UnaryExpression {
    open spec fn obeys_eq_spec() -> bool {
        true
    }

    open spec fn eq_spec(&self, other: &Self) -> bool {
        self.operator == other.operator && expr_eq(*self.operand, *other.operand)
    }
}

} // verus!
