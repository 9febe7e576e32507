//! Expressions of C and the queries that rules make on them.

use vstd::prelude::*;

use crate::model::location::{text_of, utf8_text, SourceLocation};
use crate::model::types::{
    AssignmentOp, FieldAccessOp, TypeInfo, UnaryOp, UpdateOp,
};
use crate::text::{
    char_is_uppercase, ends_with, owned, str_eq, str_in, str_views, trim, unquote, unquote_spec, trim_spec, unicode_uppercase, has_suffix, all_ascii, is_ascii_upper,
};

verus! {

#[derive(Debug)]
pub struct CallExpression {
    pub function: String,
    pub arguments: Vec<Argument>,
    pub location: SourceLocation,
}

#[derive(Debug)]
pub enum Argument {
    Expression(Box<Expression>),
}

#[derive(Debug)]
pub struct Assignment {
    /// Identifier, field access or other lvalue.
    pub lhs: Box<Expression>,
    pub operator: AssignmentOp,
    pub rhs: Box<Expression>,
    pub location: SourceLocation,
}

#[derive(Debug)]
pub struct BinaryExpression {
    pub left: Box<Expression>,
    pub operator: String,
    pub right: Box<Expression>,
    pub location: SourceLocation,
}

#[derive(Debug)]
pub struct UnaryExpression {
    pub operator: UnaryOp,
    pub operand: Box<Expression>,
    pub location: SourceLocation,
}

#[derive(Clone, Debug)]
pub struct IdentifierExpression {
    pub name: String,
    pub location: SourceLocation,
}

#[derive(Debug)]
pub struct FieldAccessExpression {
    pub base: Box<Expression>,
    pub operator: FieldAccessOp,
    pub field: String,
    /// Full text as written, like `self->field` or `obj.field`.
    pub text: String,
    pub location: SourceLocation,
}

#[derive(Clone, Debug)]
pub struct StringLiteralExpression {
    /// The literal as written, quotes included.
    pub value: String,
    pub location: SourceLocation,
}

#[derive(Clone, Debug)]
pub struct NumberLiteralExpression {
    pub value: String,
    pub location: SourceLocation,
}

#[derive(Clone, Debug)]
pub struct CharLiteralExpression {
    /// Like `'a'` or `'\n'`, quotes included.
    pub value: String,
    pub location: SourceLocation,
}

#[derive(Clone, Debug)]
pub struct NullExpression {
    pub location: SourceLocation,
}

#[derive(Clone, Debug)]
pub struct BooleanExpression {
    pub value: bool,
    pub location: SourceLocation,
}

#[derive(Clone, Debug)]
pub struct CommentExpression {
    pub text: String,
    pub location: SourceLocation,
}

/// Expression that the model does not take apart (offsetof, compound
/// literals, ...).
#[derive(Clone, Debug)]
pub struct GenericExpression {
    pub text: String,
    pub location: SourceLocation,
}

#[derive(Debug)]
pub struct CastExpression {
    pub type_info: TypeInfo,
    pub operand: Box<Expression>,
    pub location: SourceLocation,
}

#[derive(Debug)]
pub struct ConditionalExpression {
    pub condition: Box<Expression>,
    pub then_expr: Box<Expression>,
    pub else_expr: Box<Expression>,
    pub location: SourceLocation,
}

/// What `sizeof` is applied to.
#[derive(Debug)]
pub enum SizeofOperand {
    Type(TypeInfo),
    Expression(Box<Expression>),
}

#[derive(Debug)]
pub struct SizeofExpression {
    pub operand: Option<SizeofOperand>,
    /// Full text like `sizeof (int)` or `sizeof x`.
    pub text: String,
    pub location: SourceLocation,
}

#[derive(Debug)]
pub struct SubscriptExpression {
    pub array: Box<Expression>,
    pub index: Box<Expression>,
    pub location: SourceLocation,
}

/// Designator of an initializer item: `.field` or `[index]`.
#[derive(Debug)]
pub enum Designator {
    Field(String),
    Subscript(Box<Expression>),
}

#[derive(Debug)]
pub struct InitializerItem {
    pub designator: Option<Designator>,
    pub value: Box<Expression>,
}

#[derive(Debug)]
pub struct InitializerListExpression {
    pub items: Vec<InitializerItem>,
    pub location: SourceLocation,
}

#[derive(Debug)]
pub struct UpdateExpression {
    pub operator: UpdateOp,
    pub operand: Box<Expression>,
    /// `++x` rather than `x++`.
    pub is_prefix: bool,
    pub location: SourceLocation,
}

#[derive(Debug)]
pub enum Expression {
    Call(CallExpression),
    Assignment(Assignment),
    Binary(BinaryExpression),
    Unary(UnaryExpression),
    Identifier(IdentifierExpression),
    FieldAccess(FieldAccessExpression),
    StringLiteral(StringLiteralExpression),
    NumberLiteral(NumberLiteralExpression),
    Null(NullExpression),
    Boolean(BooleanExpression),
    Cast(CastExpression),
    Conditional(ConditionalExpression),
    Sizeof(SizeofExpression),
    Subscript(SubscriptExpression),
    InitializerList(InitializerListExpression),
    CharLiteral(CharLiteralExpression),
    Update(UpdateExpression),
    Comment(CommentExpression),
    Generic(GenericExpression),
}

/// A value that a `#define` gives a name.
#[derive(Clone, Debug)]
pub enum DefineValue {
    /// `#define NAME "text"`: the text without its quotes.
    StringLiteral(String),
    /// Any other replacement text.
    Other(String),
}

// ---------------------------------------------------------------------------
// Specifications
// ---------------------------------------------------------------------------

/// The expression an argument holds.
pub open spec fn arg_expr(a: Argument) -> Expression {
    match a {
        Argument::Expression(e) => *e,
    }
}

/// The location of an expression.
pub open spec fn expr_location(e: Expression) -> SourceLocation {
    match e {
        Expression::Call(c) => c.location,
        Expression::Assignment(a) => a.location,
        Expression::Binary(b) => b.location,
        Expression::Unary(u) => u.location,
        Expression::Identifier(i) => i.location,
        Expression::FieldAccess(f) => f.location,
        Expression::StringLiteral(s) => s.location,
        Expression::NumberLiteral(n) => n.location,
        Expression::Null(n) => n.location,
        Expression::Boolean(b) => b.location,
        Expression::Cast(c) => c.location,
        Expression::Conditional(c) => c.location,
        Expression::Sizeof(s) => s.location,
        Expression::Subscript(s) => s.location,
        Expression::InitializerList(i) => i.location,
        Expression::CharLiteral(c) => c.location,
        Expression::Update(u) => u.location,
        Expression::Comment(c) => c.location,
        Expression::Generic(g) => g.location,
    }
}

/// The values of a sequence of references.
pub open spec fn derefs<T>(s: Seq<&T>) -> Seq<T> {
    s.map_values(|r: &T| *r)
}

/// All expressions of the tree rooted at `e`, in pre-order: the node itself,
/// then its operands from left to right.
pub open spec fn walk_spec(e: Expression) -> Seq<Expression>
    decreases e, 0int,
{
    seq![e] + match e {
        Expression::Call(c) => walk_args(c.arguments@, 0),
        Expression::Assignment(a) => walk_spec(*a.lhs) + walk_spec(*a.rhs),
        Expression::Unary(u) => walk_spec(*u.operand),
        Expression::Binary(b) => walk_spec(*b.left) + walk_spec(*b.right),
        Expression::Cast(c) => walk_spec(*c.operand),
        Expression::Conditional(c) => walk_spec(*c.condition) + walk_spec(*c.then_expr)
            + walk_spec(*c.else_expr),
        Expression::Subscript(s) => walk_spec(*s.array) + walk_spec(*s.index),
        Expression::Update(u) => walk_spec(*u.operand),
        Expression::FieldAccess(f) => walk_spec(*f.base),
        Expression::InitializerList(l) => walk_items(l.items@, 0),
        _ => Seq::empty(),
    }
}

/// The walks of the arguments `args[i..]`, one after the other.
pub open spec fn walk_args(args: Seq<Argument>, i: int) -> Seq<Expression>
    decreases args, args.len() - i,
{
    if 0 <= i < args.len() {
        match args[i] {
            Argument::Expression(e) => walk_spec(*e) + walk_args(args, i + 1),
        }
    } else {
        Seq::empty()
    }
}

/// The walk of one initializer item: the index of a `[index]` designator,
/// then the value.
pub open spec fn walk_item(item: InitializerItem) -> Seq<Expression>
    decreases item, 0int,
{
    match item.designator {
        Some(Designator::Subscript(idx)) => walk_spec(*idx) + walk_spec(*item.value),
        _ => walk_spec(*item.value),
    }
}

/// The walks of the initializer items `items[i..]`, one after the other.
pub open spec fn walk_items(items: Seq<InitializerItem>, i: int) -> Seq<Expression>
    decreases items, items.len() - i,
{
    if 0 <= i < items.len() {
        walk_item(items[i]) + walk_items(items, i + 1)
    } else {
        Seq::empty()
    }
}


// ---------------------------------------------------------------------------
// Traversal
// ---------------------------------------------------------------------------

proof fn lemma_walk_args_step(args: Seq<Argument>, i: int)
    requires
        0 <= i < args.len(),
    ensures
        walk_args(args, i) == walk_spec(arg_expr(args[i])) + walk_args(args, i + 1),
{
}

proof fn lemma_walk_items_step(items: Seq<InitializerItem>, i: int)
    requires
        0 <= i < items.len(),
    ensures
        walk_items(items, i) == walk_item(items[i]) + walk_items(items, i + 1),
{
}

impl Expression {
    /// Appends the walk of `self` to `out`.
    fn walk_into<'a>(&'a self, out: &mut Vec<&'a Expression>)
        ensures
            derefs(final(out)@) == derefs(old(out)@) + walk_spec(*self),
        decreases self, 0int,
    {
        let ghost start = derefs(out@);
        out.push(self);
        proof {
            assert(derefs(out@) =~= start + seq![*self]);
        }
        match self {
            Expression::Call(call) => {
                let n = call.arguments.len();
                let mut i: usize = 0;
                while i < n
                    invariant
                        n == call.arguments@.len(),
                        i <= n,
                        derefs(out@) + walk_args(call.arguments@, i as int) == start + walk_spec(
                            *self,
                        ),
                        *self == Expression::Call(*call),
                    decreases n - i,
                {
                    let Argument::Expression(e) = &call.arguments[i];
                    proof {
                        lemma_walk_args_step(call.arguments@, i as int);
                        assert(decreases_to!(*self => call.arguments));
                    }
                    let ghost before = derefs(out@);
                    e.walk_into(out);
                    proof {
                        assert(before + walk_spec(**e) + walk_args(call.arguments@, i + 1) =~= before
                            + (walk_spec(**e) + walk_args(call.arguments@, i + 1)));
                    }
                    i = i + 1;
                }
                proof {
                    assert(derefs(out@) + Seq::<Expression>::empty() =~= derefs(out@));
                }
            },
            Expression::Assignment(a) => {
                a.lhs.walk_into(out);
                a.rhs.walk_into(out);
                proof {
                    assert(start + walk_spec(*self) =~= start + seq![*self] + walk_spec(*a.lhs)
                        + walk_spec(*a.rhs));
                }
            },
            Expression::Unary(u) => {
                u.operand.walk_into(out);
            },
            Expression::Binary(b) => {
                b.left.walk_into(out);
                b.right.walk_into(out);
                proof {
                    assert(start + walk_spec(*self) =~= start + seq![*self] + walk_spec(*b.left)
                        + walk_spec(*b.right));
                }
            },
            Expression::Cast(c) => {
                c.operand.walk_into(out);
            },
            Expression::Conditional(c) => {
                c.condition.walk_into(out);
                c.then_expr.walk_into(out);
                c.else_expr.walk_into(out);
                proof {
                    assert(start + walk_spec(*self) =~= start + seq![*self] + walk_spec(
                        *c.condition,
                    ) + walk_spec(*c.then_expr) + walk_spec(*c.else_expr));
                }
            },
            Expression::Subscript(sub) => {
                sub.array.walk_into(out);
                sub.index.walk_into(out);
                proof {
                    assert(start + walk_spec(*self) =~= start + seq![*self] + walk_spec(*sub.array)
                        + walk_spec(*sub.index));
                }
            },
            Expression::Update(u) => {
                u.operand.walk_into(out);
            },
            Expression::FieldAccess(f) => {
                f.base.walk_into(out);
            },
            Expression::InitializerList(list) => {
                let n = list.items.len();
                let mut i: usize = 0;
                while i < n
                    invariant
                        n == list.items@.len(),
                        i <= n,
                        derefs(out@) + walk_items(list.items@, i as int) == start + walk_spec(
                            *self,
                        ),
                        *self == Expression::InitializerList(*list),
                    decreases n - i,
                {
                    let item = &list.items[i];
                    proof {
                        lemma_walk_items_step(list.items@, i as int);
                        assert(decreases_to!(*self => list.items));
                    }
                    let ghost before = derefs(out@);
                    match &item.designator {
                        Some(Designator::Subscript(idx)) => {
                            idx.walk_into(out);
                            item.value.walk_into(out);
                            proof {
                                assert(before + walk_spec(**idx) + walk_spec(*item.value)
                                    + walk_items(list.items@, i + 1) =~= before + (walk_item(*item)
                                    + walk_items(list.items@, i + 1)));
                            }
                        },
                        _ => {
                            item.value.walk_into(out);
                            proof {
                                assert(before + walk_spec(*item.value) + walk_items(
                                    list.items@,
                                    i + 1,
                                ) =~= before + (walk_item(*item) + walk_items(list.items@, i + 1)));
                            }
                        },
                    }
                    i = i + 1;
                }
                proof {
                    assert(derefs(out@) + Seq::<Expression>::empty() =~= derefs(out@));
                }
            },
            _ => {
                proof {
                    assert(start + walk_spec(*self) =~= start + seq![*self]);
                }
            },
        }
    }

    /// Recursively walk all nested expressions: the expressions of the tree
    /// rooted at `self`, in pre-order.
    pub fn walk<'a>(&'a self) -> (r: Vec<&'a Expression>)
        ensures
            derefs(r@) == walk_spec(*self),
    {
        let mut out: Vec<&'a Expression> = Vec::new();
        self.walk_into(&mut out);
        proof {
            assert(derefs(Seq::<&Expression>::empty()) =~= Seq::<Expression>::empty());
            assert(Seq::<Expression>::empty() + walk_spec(*self) =~= walk_spec(*self));
        }
        out
    }
}


// ---------------------------------------------------------------------------
// Queries
// ---------------------------------------------------------------------------

/// `e` is `NULL`: the null constant or the identifier `NULL`.
pub open spec fn is_null_spec(e: Expression) -> bool {
    ||| e is Null
    ||| (e matches Expression::Identifier(id) && id.name@ == "NULL"@)
}

/// `e` is the number literal `0` (surrounding white space aside).
pub open spec fn is_zero_spec(e: Expression) -> bool {
    e matches Expression::NumberLiteral(n) && trim_spec(n.value@) == "0"@
}

/// The variable that `e` names, as text: an identifier's name, or the text of
/// a field access.
pub open spec fn variable_name_spec(e: Expression) -> Option<Seq<char>> {
    match e {
        Expression::Identifier(id) => Some(id.name@),
        Expression::FieldAccess(f) => Some(f.text@),
        _ => None,
    }
}

/// The first argument of a call, if it has one.
pub open spec fn first_arg(c: CallExpression) -> Option<Expression> {
    if c.arguments@.len() > 0 {
        Some(arg_expr(c.arguments@[0]))
    } else {
        None
    }
}

/// The identifier named by `e`, looking through calls (their first argument)
/// and casts: `G_OBJECT (self)` names `self`.
pub open spec fn identifier_name_spec(e: Expression) -> Option<Seq<char>>
    decreases e,
{
    match e {
        Expression::Identifier(id) => Some(id.name@),
        Expression::Call(c) => if c.arguments@.len() > 0 {
            match c.arguments@[0] {
                Argument::Expression(a) => identifier_name_spec(*a),
            }
        } else {
            None
        },
        Expression::Cast(cast) => identifier_name_spec(*cast.operand),
        _ => None,
    }
}

/// The value of a string literal without its quotes, looking through calls
/// (their first argument) such as `I_("name")`.
pub open spec fn string_value_spec(e: Expression) -> Option<Seq<char>>
    decreases e,
{
    match e {
        Expression::StringLiteral(lit) => Some(unquote_spec(lit.value@)),
        Expression::Call(c) => if c.arguments@.len() > 0 {
            match c.arguments@[0] {
                Argument::Expression(a) => string_value_spec(*a),
            }
        } else {
            None
        },
        _ => None,
    }
}

/// The value that the first definition of `name` in `defines` gives it.
pub open spec fn lookup_define(defines: Seq<(String, DefineValue)>, name: Seq<char>) -> Option<
    DefineValue,
>
    decreases defines.len(),
{
    if defines.len() == 0 {
        None
    } else if defines[0].0@ == name {
        Some(defines[0].1)
    } else {
        lookup_define(defines.drop_first(), name)
    }
}

/// The string that a `#define` of `name` in `defines` stands for, if it is a
/// string literal.
pub open spec fn defined_string(defines: Seq<(String, DefineValue)>, name: Seq<char>) -> Option<
    Seq<char>,
> {
    match lookup_define(defines, name) {
        Some(DefineValue::StringLiteral(s)) => Some(s@),
        _ => None,
    }
}

/// The string `e` stands for: its string value, or else the string that an
/// identifier (itself, or a call's first argument) is defined to.
pub open spec fn resolved_string_spec(e: Expression, defines: Seq<(String, DefineValue)>) -> Option<
    Seq<char>,
> {
    if string_value_spec(e) is Some {
        string_value_spec(e)
    } else {
        match e {
            Expression::Identifier(id) => defined_string(defines, id.name@),
            Expression::Call(c) => match first_arg(c) {
                Some(Expression::Identifier(id)) => defined_string(defines, id.name@),
                _ => None,
            },
            _ => None,
        }
    }
}

/// The names of the identifiers among `s`, in order.
pub open spec fn identifier_names(s: Seq<Expression>) -> Seq<Seq<char>>
    decreases s.len(),
{
    if s.len() == 0 {
        Seq::empty()
    } else {
        identifier_names(s.drop_last()) + match s.last() {
            Expression::Identifier(id) => seq![id.name@],
            _ => Seq::empty(),
        }
    }
}

/// The views of a list of strings.
pub open spec fn string_views(s: Seq<String>) -> Seq<Seq<char>> {
    s.map_values(|x: String| x@)
}

/// What `extract_compared_variable` finds in `left op right`: the variable
/// compared with zero.
pub open spec fn compared_variable_spec(left: Expression, op: Seq<char>, right: Expression) -> Option<
    Seq<char>,
> {
    if op == "!="@ || op == "=="@ || op == ">"@ || op == ">="@ {
        if is_zero_spec(right) {
            variable_name_spec(left)
        } else if is_zero_spec(left) {
            variable_name_spec(right)
        } else {
            None
        }
    } else if op == "<"@ || op == "<="@ {
        if is_zero_spec(left) {
            variable_name_spec(right)
        } else if is_zero_spec(right) {
            variable_name_spec(left)
        } else {
            None
        }
    } else {
        None
    }
}

/// Every character of `name` is upper case (Unicode) or `_`, or `name` ends
/// with `_`: `I_`, `N_`, `G_STRINGIFY`, `GINT_TO_POINTER`.
/// `likely_macro_spec` on an ASCII name: every character `A`..`Z` or `_`,
/// or a name ending with `_`.
pub open spec fn likely_macro_ascii(name: Seq<char>) -> bool {
    ||| forall|i: int| 0 <= i < name.len() ==> (is_ascii_upper(#[trigger] name[i]) || name[i] == '_')
    ||| has_suffix(name, seq!['_'])
}

pub open spec fn likely_macro_spec(name: Seq<char>) -> bool {
    ||| forall|i: int| 0 <= i < name.len() ==> (unicode_uppercase(name[i]) || name[i] == '_')
    ||| has_suffix(name, seq!['_'])
}

/// `e` is a call to a function called `name`.
pub open spec fn is_call_to_spec(e: Expression, name: Seq<char>) -> bool {
    e matches Expression::Call(c) && c.function@ == name
}

impl Expression {
    pub fn location(&self) -> (r: &SourceLocation)
        ensures
            *r == expr_location(*self),
    {
        match self {
            Expression::Call(c) => &c.location,
            Expression::Assignment(a) => &a.location,
            Expression::Binary(b) => &b.location,
            Expression::Unary(u) => &u.location,
            Expression::Identifier(i) => &i.location,
            Expression::FieldAccess(f) => &f.location,
            Expression::StringLiteral(s) => &s.location,
            Expression::NumberLiteral(n) => &n.location,
            Expression::Null(n) => &n.location,
            Expression::Boolean(b) => &b.location,
            Expression::Cast(c) => &c.location,
            Expression::Conditional(c) => &c.location,
            Expression::Sizeof(s) => &s.location,
            Expression::Subscript(s) => &s.location,
            Expression::InitializerList(i) => &i.location,
            Expression::CharLiteral(c) => &c.location,
            Expression::Update(u) => &u.location,
            Expression::Comment(c) => &c.location,
            Expression::Generic(g) => &g.location,
        }
    }

    /// Get the byte range of this expression.
    pub fn byte_range(&self) -> (r: (usize, usize))
        ensures
            r == (expr_location(*self).start_byte, expr_location(*self).end_byte),
    {
        let loc = self.location();
        (loc.start_byte, loc.end_byte)
    }

    /// Convert this expression back to source text.
    pub fn to_source_string(&self, source: &[u8]) -> (r: Option<String>)
        requires
            expr_location(*self).within(source@.len() as int),
        ensures
            r matches Some(s) ==> text_of(
                source@,
                expr_location(*self).start_byte as int,
                expr_location(*self).end_byte as int,
            ) == Some(s@),
            r is None ==> text_of(
                source@,
                expr_location(*self).start_byte as int,
                expr_location(*self).end_byte as int,
            ) is None,
    {
        let (start, end) = self.byte_range();
        let bytes = vstd::slice::slice_subrange(source, start, end);
        match utf8_text(bytes) {
            Some(t) => Some(owned(t)),
            None => None,
        }
    }

    /// Extract variable name from simple expressions (Identifier or
    /// FieldAccess).
    pub fn extract_variable_name(&self) -> (r: Option<String>)
        ensures
            r matches Some(s) ==> variable_name_spec(*self) == Some(s@),
            r is None ==> variable_name_spec(*self) is None,
    {
        match self {
            Expression::Identifier(id) => Some(id.name.clone()),
            Expression::FieldAccess(f) => Some(f.text.clone()),
            _ => None,
        }
    }

    /// Check if this expression is NULL: the null constant or the identifier
    /// `NULL`.
    pub fn is_null(&self) -> (r: bool)
        ensures
            r == is_null_spec(*self),
    {
        match self {
            Expression::Null(_) => true,
            Expression::Identifier(id) => str_eq(id.name.as_str(), "NULL"),
            _ => false,
        }
    }

    /// Check if this expression is the number 0.
    pub fn is_zero(&self) -> (r: bool)
        ensures
            r == is_zero_spec(*self),
    {
        match self {
            Expression::NumberLiteral(n) => {
                let t = trim(n.value.as_str());
                str_eq(t.as_str(), "0")
            },
            _ => false,
        }
    }

    /// Check if this expression is -1: the literal, or `-` applied to the
    /// literal 1.
    pub fn is_negative_one(&self) -> (r: bool)
        ensures
            r == (match *self {
                Expression::NumberLiteral(n) => trim_spec(n.value@) == "-1"@,
                Expression::Unary(u) => u.operator == UnaryOp::Negate && (
                *u.operand matches Expression::NumberLiteral(n) && trim_spec(n.value@) == "1"@),
                _ => false,
            }),
    {
        match self {
            Expression::NumberLiteral(n) => {
                let t = trim(n.value.as_str());
                str_eq(t.as_str(), "-1")
            },
            Expression::Unary(u) => {
                if u.operator != UnaryOp::Negate {
                    return false;
                }
                match &*u.operand {
                    Expression::NumberLiteral(n) => {
                        let t = trim(n.value.as_str());
                        str_eq(t.as_str(), "1")
                    },
                    _ => false,
                }
            },
            _ => false,
        }
    }

    /// Check if this expression is a string literal.
    pub fn is_string_literal(&self) -> (r: bool)
        ensures
            r == (*self is StringLiteral),
    {
        match self {
            Expression::StringLiteral(_) => true,
            _ => false,
        }
    }

    /// `FALSE`, `false` or the literal `0`.
    pub fn is_falsy(&self) -> (r: bool)
        ensures
            r == (match *self {
                Expression::Boolean(b) => !b.value,
                Expression::NumberLiteral(n) => n.value@ == "0"@,
                Expression::Identifier(id) => id.name@ == "FALSE"@,
                _ => false,
            }),
    {
        match self {
            Expression::Boolean(b) => !b.value,
            Expression::NumberLiteral(n) => str_eq(n.value.as_str(), "0"),
            Expression::Identifier(id) => str_eq(id.name.as_str(), "FALSE"),
            _ => false,
        }
    }

    /// `TRUE`, `true` or the literal `1`.
    pub fn is_truthy(&self) -> (r: bool)
        ensures
            r == (match *self {
                Expression::Boolean(b) => b.value,
                Expression::NumberLiteral(n) => n.value@ == "1"@,
                Expression::Identifier(id) => id.name@ == "TRUE"@,
                _ => false,
            }),
    {
        match self {
            Expression::Boolean(b) => b.value,
            Expression::NumberLiteral(n) => str_eq(n.value.as_str(), "1"),
            Expression::Identifier(id) => str_eq(id.name.as_str(), "TRUE"),
            _ => false,
        }
    }

    /// Extract the variable from simple expressions: an identifier, a field
    /// access, or the address or dereference of something.
    pub fn extract_variable(&self) -> (r: Option<&Expression>)
        ensures
            r matches Some(v) ==> *v == *self,
            r is Some <==> (match *self {
                Expression::Identifier(_) => true,
                Expression::FieldAccess(_) => true,
                Expression::Unary(u) => u.operator == UnaryOp::AddressOf || u.operator
                    == UnaryOp::Dereference,
                _ => false,
            }),
    {
        match self {
            Expression::Identifier(_) => Some(self),
            Expression::FieldAccess(_) => Some(self),
            Expression::Unary(u) => {
                if u.operator == UnaryOp::AddressOf || u.operator == UnaryOp::Dereference {
                    Some(self)
                } else {
                    None
                }
            },
            _ => None,
        }
    }

    /// Extract the identifier name, unwrapping macro calls and casts:
    /// `G_OBJECT (self)` gives `self`, `(GSourceFunc) callback` gives
    /// `callback`.
    pub fn extract_identifier_name(&self) -> (r: Option<&str>)
        ensures
            r matches Some(s) ==> identifier_name_spec(*self) == Some(s@),
            r is None ==> identifier_name_spec(*self) is None,
        decreases self,
    {
        match self {
            Expression::Identifier(id) => Some(id.name.as_str()),
            Expression::Call(call) => {
                if call.arguments.len() == 0 {
                    return None;
                }
                let Argument::Expression(a) = &call.arguments[0];
                proof {
                    assert(decreases_to!(*self => call.arguments));
                }
                a.extract_identifier_name()
            },
            Expression::Cast(cast) => cast.operand.extract_identifier_name(),
            _ => None,
        }
    }

    /// Extract string literal value, unwrapping macro calls like
    /// `I_("string")`; the string comes without quotes.
    pub fn extract_string_value(&self) -> (r: Option<String>)
        ensures
            r matches Some(s) ==> string_value_spec(*self) == Some(s@),
            r is None ==> string_value_spec(*self) is None,
        decreases self,
    {
        match self {
            Expression::StringLiteral(lit) => Some(unquote(lit.value.as_str())),
            Expression::Call(call) => {
                if call.arguments.len() == 0 {
                    return None;
                }
                let Argument::Expression(a) = &call.arguments[0];
                proof {
                    assert(decreases_to!(*self => call.arguments));
                }
                a.extract_string_value()
            },
            _ => None,
        }
    }

    /// Like `extract_string_value`, but also resolves identifiers through a
    /// table of defines (`MY_PROP_NAME` gives the string of
    /// `#define MY_PROP_NAME "foo"`).
    pub fn resolve_string_value(&self, defines: &Vec<(String, DefineValue)>) -> (r: Option<String>)
        ensures
            r matches Some(s) ==> resolved_string_spec(*self, defines@) == Some(s@),
            r is None ==> resolved_string_spec(*self, defines@) is None,
    {
        if let Some(s) = self.extract_string_value() {
            return Some(s);
        }
        match self {
            Expression::Identifier(id) => lookup_defined_string(defines, id.name.as_str()),
            Expression::Call(call) => match call.get_arg(0) {
                Some(Expression::Identifier(id)) => lookup_defined_string(
                    defines,
                    id.name.as_str(),
                ),
                _ => None,
            },
            _ => None,
        }
    }

    /// Check if this is a string literal or a macro wrapping a string
    /// literal.
    pub fn is_string_or_macro_string(&self) -> (r: bool)
        ensures
            r == string_value_spec(*self) is Some,
    {
        self.extract_string_value().is_some()
    }

    /// Check if this expression contains an identifier with the given name,
    /// searching the entire expression tree.
    pub fn contains_identifier(&self, name: &str) -> (r: bool)
        ensures
            r == exists|i: int|
                0 <= i < walk_spec(*self).len() && (#[trigger] walk_spec(*self)[i] matches Expression::Identifier(id) && id.name@ == name@),
    {
        let all = self.walk();
        let mut i: usize = 0;
        while i < all.len()
            invariant
                derefs(all@) == walk_spec(*self),
                i <= all@.len(),
                forall|j: int|
                    0 <= j < i ==> !(#[trigger] walk_spec(*self)[j] matches Expression::Identifier(
                        id,
                    ) && id.name@ == name@),
            decreases all@.len() - i,
        {
            let e: &Expression = all[i];
            assert(walk_spec(*self)[i as int] == *e);
            if let Expression::Identifier(id) = e {
                if str_eq(id.name.as_str(), name) {
                    return true;
                }
            }
            i = i + 1;
        }
        false
    }

    /// Collect the names of all identifiers of the expression tree, in walk
    /// order.
    pub fn collect_identifiers(&self) -> (r: Vec<String>)
        ensures
            string_views(r@) == identifier_names(walk_spec(*self)),
    {
        let all = self.walk();
        let mut out: Vec<String> = Vec::new();
        let mut i: usize = 0;
        while i < all.len()
            invariant
                derefs(all@) == walk_spec(*self),
                i <= all@.len(),
                string_views(out@) == identifier_names(walk_spec(*self).take(i as int)),
            decreases all@.len() - i,
        {
            let e: &Expression = all[i];
            let ghost w = walk_spec(*self);
            assert(w.take(i + 1).drop_last() =~= w.take(i as int));
            assert(w.take(i + 1).last() == *e);
            if let Expression::Identifier(id) = e {
                out.push(id.name.clone());
                assert(string_views(out@) =~= identifier_names(w.take(i as int)) + seq![id.name@]);
            } else {
                assert(identifier_names(w.take(i + 1)) =~= identifier_names(w.take(i as int)));
            }
            i = i + 1;
        }
        assert(walk_spec(*self).take(all@.len() as int) =~= walk_spec(*self));
        out
    }

    /// Check if this expression is a call to the specified function.
    pub fn is_call_to(&self, function_name: &str) -> (r: bool)
        ensures
            r == is_call_to_spec(*self, function_name@),
    {
        match self {
            Expression::Call(call) => call.is_function(function_name),
            _ => false,
        }
    }

    /// Check if this expression is a call to any of the specified functions.
    pub fn is_call_to_any(&self, function_names: &[&str]) -> (r: bool)
        ensures
            r == (*self matches Expression::Call(c) && str_views(function_names@).contains(
                c.function@,
            )),
    {
        match self {
            Expression::Call(call) => str_in(function_names, call.function.as_str()),
            _ => false,
        }
    }
}

/// The string that the first define of `name` stands for, if it is a string
/// literal.
fn lookup_defined_string(defines: &Vec<(String, DefineValue)>, name: &str) -> (r: Option<String>)
    ensures
        r matches Some(s) ==> defined_string(defines@, name@) == Some(s@),
        r is None ==> defined_string(defines@, name@) is None,
{
    assert(defines@.skip(0) =~= defines@);
    let mut i: usize = 0;
    while i < defines.len()
        invariant
            i <= defines@.len(),
            lookup_define(defines@, name@) == lookup_define(defines@.skip(i as int), name@),
        decreases defines@.len() - i,
    {
        assert(defines@.skip(i as int).drop_first() =~= defines@.skip(i + 1));
        if str_eq(defines[i].0.as_str(), name) {
            return match &defines[i].1 {
                DefineValue::StringLiteral(s) => Some(s.clone()),
                DefineValue::Other(_) => None,
            };
        }
        i = i + 1;
    }
    None
}

impl CallExpression {
    /// The expression of argument `index`, if there is one.
    pub fn get_arg(&self, index: usize) -> (r: Option<&Expression>)
        ensures
            r matches Some(e) ==> index < self.arguments@.len() && *e == arg_expr(
                self.arguments@[index as int],
            ),
            r is None <==> index >= self.arguments@.len(),
    {
        if index < self.arguments.len() {
            let Argument::Expression(e) = &self.arguments[index];
            Some(&**e)
        } else {
            None
        }
    }

    /// Get argument `index` as source text.
    pub fn get_arg_text(&self, index: usize, source: &[u8]) -> (r: Option<String>)
        requires
            forall|i: int|
                0 <= i < self.arguments@.len() ==> expr_location(
                    arg_expr(#[trigger] self.arguments@[i]),
                ).within(source@.len() as int),
        ensures
            index >= self.arguments@.len() ==> r is None,
            index < self.arguments@.len() ==> {
                let loc = expr_location(arg_expr(self.arguments@[index as int]));
                &&& r matches Some(s) ==> text_of(
                    source@,
                    loc.start_byte as int,
                    loc.end_byte as int,
                ) == Some(s@)
                &&& r is None ==> text_of(source@, loc.start_byte as int, loc.end_byte as int) is None
            },
    {
        if index >= self.arguments.len() {
            return None;
        }
        self.arguments[index].to_source_string(source)
    }

    /// The called function's name.
    pub fn function_name(&self) -> (r: String)
        ensures
            r@ == self.function@,
    {
        self.function.clone()
    }

    /// The called function is `name`.
    pub fn is_function(&self, name: &str) -> (r: bool)
        ensures
            r == (self.function@ == name@),
    {
        str_eq(self.function.as_str(), name)
    }

    /// Check if this looks like a macro call: every character upper case or
    /// `_`, or a name ending with `_` (`I_`, `N_`, `G_STRINGIFY`,
    /// `GINT_TO_POINTER`).
    pub fn is_likely_macro(&self) -> (r: bool)
        ensures
            r == likely_macro_spec(self.function@),
            all_ascii(self.function@) ==> r == likely_macro_ascii(self.function@),
    {
        let cs = crate::text::chars_of(self.function.as_str());
        let mut all = true;
        let mut i: usize = 0;
        while i < cs.len()
            invariant
                cs@ == self.function@,
                i <= cs@.len(),
                all == forall|j: int|
                    0 <= j < i ==> (unicode_uppercase(cs@[j]) || cs@[j] == '_'),
                forall|j: int|
                    0 <= j < i && (#[trigger] cs@[j] as u32) < 128 ==> (unicode_uppercase(cs@[j])
                        <==> is_ascii_upper(cs@[j])),
            decreases cs@.len() - i,
        {
            let c = cs[i];
            let up = char_is_uppercase(c);
            all = all && (up || c == '_');
            i = i + 1;
        }
        proof {
            reveal_strlit("_");
            assert("_"@ =~= seq!['_']);
            if all_ascii(self.function@) {
                assert forall|j: int| 0 <= j < cs@.len() implies (unicode_uppercase(cs@[j]) || cs@[j] == '_')
                    == (is_ascii_upper(#[trigger] cs@[j]) || cs@[j] == '_') by {
                    assert((cs@[j] as u32) < 128);
                }
            }
        }
        all || ends_with(self.function.as_str(), "_")
    }

    /// Extract the string literal of argument `index`, unwrapping macro calls
    /// like `I_("string")`.
    pub fn extract_string_from_arg(&self, index: usize) -> (r: Option<String>)
        ensures
            index >= self.arguments@.len() ==> r is None,
            index < self.arguments@.len() ==> {
                let v = string_value_spec(arg_expr(self.arguments@[index as int]));
                &&& r matches Some(s) ==> v == Some(s@)
                &&& r is None ==> v is None
            },
    {
        let e = match self.get_arg(index) {
            Some(e) => e,
            None => return None,
        };
        e.extract_string_value()
    }
}

impl Argument {
    /// Convert this argument back to source text.
    pub fn to_source_string(&self, source: &[u8]) -> (r: Option<String>)
        requires
            expr_location(arg_expr(*self)).within(source@.len() as int),
        ensures
            r matches Some(s) ==> text_of(
                source@,
                expr_location(arg_expr(*self)).start_byte as int,
                expr_location(arg_expr(*self)).end_byte as int,
            ) == Some(s@),
            r is None ==> text_of(
                source@,
                expr_location(arg_expr(*self)).start_byte as int,
                expr_location(arg_expr(*self)).end_byte as int,
            ) is None,
    {
        match self {
            Argument::Expression(e) => e.to_source_string(source),
        }
    }

    /// Check if this argument is a string literal or a macro wrapping one.
    pub fn is_string_or_macro_string(&self) -> (r: bool)
        ensures
            r == string_value_spec(arg_expr(*self)) is Some,
    {
        let Argument::Expression(e) = self;
        e.is_string_or_macro_string()
    }

    /// Check if this argument is NULL.
    pub fn is_null(&self) -> (r: bool)
        ensures
            r == is_null_spec(arg_expr(*self)),
    {
        let Argument::Expression(e) = self;
        e.is_null()
    }

    /// Extract the string value of this argument, unwrapping macros.
    pub fn extract_string_value(&self) -> (r: Option<String>)
        ensures
            r matches Some(s) ==> string_value_spec(arg_expr(*self)) == Some(s@),
            r is None ==> string_value_spec(arg_expr(*self)) is None,
    {
        let Argument::Expression(e) = self;
        e.extract_string_value()
    }
}

impl BinaryExpression {
    /// Check if this is a NULL comparison (`x != NULL`, `NULL == x`, ...).
    pub fn is_null_check(&self) -> (r: bool)
        ensures
            r == ((self.operator@ == "=="@ || self.operator@ == "!="@) && (is_null_spec(
                *self.left,
            ) || is_null_spec(*self.right))),
    {
        (str_eq(self.operator.as_str(), "==") || str_eq(self.operator.as_str(), "!="))
            && (self.left.is_null() || self.right.is_null())
    }

    /// Extract the variable being compared with zero in expressions like
    /// `x != 0`, `x > 0`, `0 < x`.
    pub fn extract_compared_variable(&self) -> (r: Option<String>)
        ensures
            r matches Some(s) ==> compared_variable_spec(*self.left, self.operator@, *self.right)
                == Some(s@),
            r is None ==> compared_variable_spec(*self.left, self.operator@, *self.right) is None,
    {
        let left_is_zero = self.left.is_zero();
        let right_is_zero = self.right.is_zero();
        let op = self.operator.as_str();
        if str_eq(op, "!=") || str_eq(op, "==") || str_eq(op, ">") || str_eq(op, ">=") {
            if right_is_zero {
                self.left.extract_variable_name()
            } else if left_is_zero {
                self.right.extract_variable_name()
            } else {
                None
            }
        } else if str_eq(op, "<") || str_eq(op, "<=") {
            if left_is_zero {
                self.right.extract_variable_name()
            } else if right_is_zero {
                self.left.extract_variable_name()
            } else {
                None
            }
        } else {
            None
        }
    }
}

impl FieldAccessExpression {
    /// The field access as written (`self->priv`, `obj.field`).
    pub fn text(&self) -> (r: String)
        ensures
            r@ == self.text@,
    {
        self.text.clone()
    }
}

impl Assignment {
    /// The text of the left-hand side in `source`, or the empty string when it
    /// is not valid UTF-8.
    pub fn lhs_as_text<'a>(&self, source: &'a [u8]) -> (r: &'a str)
        requires
            expr_location(*self.lhs).within(source@.len() as int),
        ensures
            r@ == match text_of(
                source@,
                expr_location(*self.lhs).start_byte as int,
                expr_location(*self.lhs).end_byte as int,
            ) {
                Some(t) => t,
                None => Seq::empty(),
            },
    {
        match self.lhs.location().as_str(source) {
            Some(t) => t,
            None => {
                proof {
                    reveal_strlit("");
                }
                ""
            },
        }
    }
}

} // verus!
