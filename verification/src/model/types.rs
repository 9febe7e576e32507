//! Operators and type descriptions that expressions and declarations carry.

use vstd::prelude::*;

use crate::model::location::SourceLocation;

verus! {

/// Prefix operators of C.
#[derive(Clone, Copy, Debug, PartialEq, Eq, Structural)]
pub enum UnaryOp {
    /// `!`
    Not,
    /// `-`
    Negate,
    /// `+`
    Plus,
    /// `~`
    BitNot,
    /// `&`
    AddressOf,
    /// `*`
    Dereference,
}

/// The text of each prefix operator.
pub open spec fn unary_op_text(op: UnaryOp) -> Seq<char> {
    match op {
        UnaryOp::Not => seq!['!'],
        UnaryOp::Negate => seq!['-'],
        UnaryOp::Plus => seq!['+'],
        UnaryOp::BitNot => seq!['~'],
        UnaryOp::AddressOf => seq!['&'],
        UnaryOp::Dereference => seq!['*'],
    }
}

impl UnaryOp {
    /// The operator as it is written in C.
    pub fn as_str(&self) -> (r: &'static str)
        ensures
            r@ == unary_op_text(*self),
    {
        let r = match self {
            UnaryOp::Not => "!",
            UnaryOp::Negate => "-",
            UnaryOp::Plus => "+",
            UnaryOp::BitNot => "~",
            UnaryOp::AddressOf => "&",
            UnaryOp::Dereference => "*",
        };
        proof {
            reveal_strlit("!");
            reveal_strlit("-");
            reveal_strlit("+");
            reveal_strlit("~");
            reveal_strlit("&");
            reveal_strlit("*");
        }
        r
    }
}

/// Assignment operators of C.
#[derive(Clone, Copy, Debug, PartialEq, Eq, Structural)]
pub enum AssignmentOp {
    Assign,
    AddAssign,
    SubAssign,
    MulAssign,
    DivAssign,
    ModAssign,
    AndAssign,
    OrAssign,
    XorAssign,
    ShlAssign,
    ShrAssign,
}

/// `.` or `->`.
#[derive(Clone, Copy, Debug, PartialEq, Eq, Structural)]
pub enum FieldAccessOp {
    Dot,
    Arrow,
}

/// `++` or `--`.
#[derive(Clone, Copy, Debug, PartialEq, Eq, Structural)]
pub enum UpdateOp {
    Increment,
    Decrement,
}

/// GLib's automatic cleanup macros that may qualify a declaration.
#[derive(Clone, Copy, Debug, PartialEq, Eq, Structural)]
pub enum AutoCleanupMacro {
    /// `g_autoptr(T)`
    Autoptr,
    /// `g_autofree`
    Autofree,
    /// `g_autolist(T)`
    Autolist,
    /// `g_autoslist(T)`
    Autoslist,
    /// `g_autoqueue(T)`
    Autoqueue,
    /// `g_auto(T)`
    Auto,
    /// `g_autofd`
    Autofd,
}

/// A C type as written in a declaration, a cast or `sizeof`.
#[derive(Clone, Debug)]
pub struct TypeInfo {
    /// The type without qualifiers, tag keyword and pointer stars
    /// (`GList`, `int`, `Foo`).
    pub base_type: String,
    /// Number of `*`.
    pub pointer_depth: usize,
    pub is_const: bool,
    /// Written with the `struct` keyword.
    pub is_struct: bool,
    /// Written with the `union` keyword.
    pub is_union: bool,
    /// Written with the `enum` keyword.
    pub is_enum: bool,
    /// The automatic cleanup macro that qualifies it, if any.
    pub auto_cleanup: Option<AutoCleanupMacro>,
    pub location: SourceLocation,
}

impl TypeInfo {
    /// The declaration already uses a `g_auto*` macro.
    pub fn uses_auto_cleanup(&self) -> (r: bool)
        ensures
            r == self.auto_cleanup is Some,
    {
        self.auto_cleanup.is_some()
    }

    /// The type is a pointer type.
    pub fn is_pointer(&self) -> (r: bool)
        ensures
            r == (self.pointer_depth > 0),
    {
        self.pointer_depth > 0
    }
}

} // verus!
