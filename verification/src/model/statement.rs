//! Statements of C function bodies.

use vstd::prelude::*;

use crate::model::expression::{
    derefs, walk_spec, CallExpression, Expression,
};
use crate::model::location::SourceLocation;
use crate::model::types::TypeInfo;
use crate::text::{chars_of, is_ascii_digit, is_ascii_lower, is_ascii_upper, trim, trim_spec, str_eq};

verus! {

#[derive(Debug)]
pub struct VariableDecl {
    pub type_info: TypeInfo,
    pub name: String,
    pub is_static: bool,
    pub name_location: SourceLocation,
    pub initializer: Option<Expression>,
    /// The size expression of an array declarator (`N_PROPS` in
    /// `GParamSpec *props[N_PROPS]`).
    pub array_size: Option<Expression>,
    pub location: SourceLocation,
}

#[derive(Debug)]
pub struct ExpressionStmt {
    pub expr: Expression,
    pub location: SourceLocation,
}

#[derive(Debug)]
pub struct IfStatement {
    pub condition: Expression,
    pub then_body: Vec<Statement>,
    pub then_has_braces: bool,
    pub else_body: Option<Vec<Statement>>,
    pub location: SourceLocation,
}

#[derive(Debug)]
pub struct ReturnStatement {
    pub value: Option<Expression>,
    pub location: SourceLocation,
}

#[derive(Debug)]
pub struct GotoStatement {
    pub label: String,
    pub location: SourceLocation,
}

#[derive(Debug)]
pub struct LabeledStatement {
    pub label: String,
    pub statement: Box<Statement>,
    pub location: SourceLocation,
}

#[derive(Debug)]
pub struct CompoundStatement {
    pub statements: Vec<Statement>,
    pub location: SourceLocation,
}

#[derive(Debug)]
pub struct SwitchStatement {
    pub condition: Expression,
    pub condition_location: SourceLocation,
    pub body: Vec<Statement>,
    pub location: SourceLocation,
}

#[derive(Debug)]
pub enum Statement {
    Declaration(VariableDecl),
    Expression(ExpressionStmt),
    If(IfStatement),
    Return(ReturnStatement),
    Goto(GotoStatement),
    Labeled(LabeledStatement),
    Compound(CompoundStatement),
    Switch(SwitchStatement),
}

// ---------------------------------------------------------------------------
// Specifications
// ---------------------------------------------------------------------------

pub open spec fn stmt_location(s: Statement) -> SourceLocation {
    match s {
        Statement::Declaration(d) => d.location,
        Statement::Expression(e) => e.location,
        Statement::If(i) => i.location,
        Statement::Return(r) => r.location,
        Statement::Goto(g) => g.location,
        Statement::Labeled(l) => l.location,
        Statement::Compound(c) => c.location,
        Statement::Switch(w) => w.location,
    }
}

/// The statements of the tree rooted at `s`, in pre-order: `s`, then the
/// statements of its branches and bodies in order.
pub open spec fn walk_stmt_spec(s: Statement) -> Seq<Statement>
    decreases s, 0int,
{
    seq![s] + match s {
        Statement::If(i) => walk_stmts(i.then_body@, 0) + match i.else_body {
            Some(e) => walk_stmts(e@, 0),
            None => Seq::empty(),
        },
        Statement::Compound(c) => walk_stmts(c.statements@, 0),
        Statement::Labeled(l) => walk_stmt_spec(*l.statement),
        Statement::Switch(w) => walk_stmts(w.body@, 0),
        _ => Seq::empty(),
    }
}

/// The walks of `ss[i..]`, one after the other.
pub open spec fn walk_stmts(ss: Seq<Statement>, i: int) -> Seq<Statement>
    decreases ss, ss.len() - i,
{
    if 0 <= i < ss.len() {
        walk_stmt_spec(ss[i]) + walk_stmts(ss, i + 1)
    } else {
        Seq::empty()
    }
}

/// The expressions that `s` holds directly: the expression of an expression
/// statement, the value of a return, the initializer of a declaration, the
/// condition of an `if` or a `switch`.
pub open spec fn direct_exprs(s: Statement) -> Seq<Expression> {
    match s {
        Statement::If(i) => seq![i.condition],
        Statement::Switch(w) => seq![w.condition],
        Statement::Expression(e) => seq![e.expr],
        Statement::Return(r) => match r.value {
            Some(v) => seq![v],
            None => Seq::empty(),
        },
        Statement::Declaration(d) => match d.initializer {
            Some(v) => seq![v],
            None => Seq::empty(),
        },
        _ => Seq::empty(),
    }
}

/// Every expression of the statement tree rooted at `s`, nested expressions
/// included: those `s` holds directly, then (for `if` and `switch`) the
/// condition, then those of the nested statements in order.
pub open spec fn walk_exprs_spec(s: Statement) -> Seq<Expression>
    decreases s, 0int,
{
    match s {
        Statement::Expression(e) => walk_spec(e.expr),
        Statement::Return(r) => match r.value {
            Some(v) => walk_spec(v),
            None => Seq::empty(),
        },
        Statement::Declaration(d) => match d.initializer {
            Some(v) => walk_spec(v),
            None => Seq::empty(),
        },
        Statement::If(i) => walk_spec(i.condition) + walk_exprs_list(i.then_body@, 0)
            + match i.else_body {
            Some(e) => walk_exprs_list(e@, 0),
            None => Seq::empty(),
        },
        Statement::Compound(c) => walk_exprs_list(c.statements@, 0),
        Statement::Labeled(l) => walk_exprs_spec(*l.statement),
        Statement::Switch(w) => walk_spec(w.condition) + walk_exprs_list(w.body@, 0),
        Statement::Goto(_) => Seq::empty(),
    }
}

/// The expression walks of `ss[i..]`, one after the other.
pub open spec fn walk_exprs_list(ss: Seq<Statement>, i: int) -> Seq<Expression>
    decreases ss, ss.len() - i,
{
    if 0 <= i < ss.len() {
        walk_exprs_spec(ss[i]) + walk_exprs_list(ss, i + 1)
    } else {
        Seq::empty()
    }
}

/// The declarations among `s`, in order.
pub open spec fn declarations_of(s: Seq<Statement>) -> Seq<VariableDecl>
    decreases s.len(),
{
    if s.len() == 0 {
        Seq::empty()
    } else {
        declarations_of(s.drop_last()) + match s.last() {
            Statement::Declaration(d) => seq![d],
            _ => Seq::empty(),
        }
    }
}

/// `name` is a C identifier: ASCII letters, digits and `_`, not starting
/// with a digit, not empty.
pub open spec fn is_c_identifier(name: Seq<char>) -> bool {
    &&& name.len() > 0
    &&& !is_ascii_digit(name[0])
    &&& forall|i: int|
        0 <= i < name.len() ==> (is_ascii_upper(name[i]) || is_ascii_lower(name[i])
            || is_ascii_digit(name[i]) || name[i] == '_')
}

proof fn lemma_walk_stmts_step(ss: Seq<Statement>, i: int)
    requires
        0 <= i < ss.len(),
    ensures
        walk_stmts(ss, i) == walk_stmt_spec(ss[i]) + walk_stmts(ss, i + 1),
        walk_exprs_list(ss, i) == walk_exprs_spec(ss[i]) + walk_exprs_list(ss, i + 1),
{
}

// ---------------------------------------------------------------------------
// Traversals
// ---------------------------------------------------------------------------

/// Appends the statement walks of `list` to `out`.
fn walk_list_into<'a>(list: &'a Vec<Statement>, out: &mut Vec<&'a Statement>)
    ensures
        derefs(final(out)@) == derefs(old(out)@) + walk_stmts(list@, 0),
    decreases list, 1int,
{
    let ghost start = derefs(out@);
    let n = list.len();
    let mut i: usize = 0;
    while i < n
        invariant
            n == list@.len(),
            i <= n,
            derefs(out@) + walk_stmts(list@, i as int) == start + walk_stmts(list@, 0),
        decreases n - i,
    {
        proof {
            lemma_walk_stmts_step(list@, i as int);
        }
        let ghost before = derefs(out@);
        list[i].walk_into(out);
        proof {
            assert(before + walk_stmt_spec(list@[i as int]) + walk_stmts(list@, i + 1) =~= before
                + (walk_stmt_spec(list@[i as int]) + walk_stmts(list@, i + 1)));
        }
        i = i + 1;
    }
    proof {
        assert(derefs(out@) + Seq::<Statement>::empty() =~= derefs(out@));
    }
}

/// Appends the expression walks of `list` to `out`.
fn walk_exprs_list_into<'a>(list: &'a Vec<Statement>, out: &mut Vec<&'a Expression>)
    ensures
        derefs(final(out)@) == derefs(old(out)@) + walk_exprs_list(list@, 0),
    decreases list, 1int,
{
    let ghost start = derefs(out@);
    let n = list.len();
    let mut i: usize = 0;
    while i < n
        invariant
            n == list@.len(),
            i <= n,
            derefs(out@) + walk_exprs_list(list@, i as int) == start + walk_exprs_list(list@, 0),
        decreases n - i,
    {
        proof {
            lemma_walk_stmts_step(list@, i as int);
        }
        let ghost before = derefs(out@);
        list[i].walk_expressions_into(out);
        proof {
            assert(before + walk_exprs_spec(list@[i as int]) + walk_exprs_list(list@, i + 1)
                =~= before + (walk_exprs_spec(list@[i as int]) + walk_exprs_list(list@, i + 1)));
        }
        i = i + 1;
    }
    proof {
        assert(derefs(out@) + Seq::<Expression>::empty() =~= derefs(out@));
    }
}

/// Appends the walk of `e` to `out`.
fn push_walk<'a>(e: &'a Expression, out: &mut Vec<&'a Expression>)
    ensures
        derefs(final(out)@) == derefs(old(out)@) + walk_spec(*e),
{
    let ghost start = derefs(out@);
    let w = e.walk();
    let mut i: usize = 0;
    while i < w.len()
        invariant
            i <= w@.len(),
            derefs(w@) == walk_spec(*e),
            derefs(out@) == start + walk_spec(*e).take(i as int),
        decreases w@.len() - i,
    {
        let ghost prev = out@;
        out.push(w[i]);
        proof {
            assert(derefs(out@) =~= derefs(prev).push(*w@[i as int]));
            assert(walk_spec(*e)[i as int] == *w@[i as int]);
            assert(walk_spec(*e).take(i + 1) =~= walk_spec(*e).take(i as int).push(*w@[i as int]));
            assert(derefs(out@) =~= start + walk_spec(*e).take(i + 1));
        }
        i = i + 1;
    }
    proof {
        assert(walk_spec(*e).take(w@.len() as int) =~= walk_spec(*e));
    }
}

impl Statement {
    fn walk_into<'a>(&'a self, out: &mut Vec<&'a Statement>)
        ensures
            derefs(final(out)@) == derefs(old(out)@) + walk_stmt_spec(*self),
        decreases self, 0int,
    {
        let ghost start = derefs(out@);
        out.push(self);
        proof {
            assert(derefs(out@) =~= start + seq![*self]);
        }
        match self {
            Statement::If(i) => {
                walk_list_into(&i.then_body, out);
                match &i.else_body {
                    Some(e) => {
                        walk_list_into(e, out);
                        proof {
                            assert(start + walk_stmt_spec(*self) =~= start + seq![*self]
                                + walk_stmts(i.then_body@, 0) + walk_stmts(e@, 0));
                        }
                    },
                    None => {
                        proof {
                            assert(start + walk_stmt_spec(*self) =~= start + seq![*self]
                                + walk_stmts(i.then_body@, 0));
                        }
                    },
                }
            },
            Statement::Compound(c) => {
                walk_list_into(&c.statements, out);
            },
            Statement::Labeled(l) => {
                l.statement.walk_into(out);
            },
            Statement::Switch(w) => {
                walk_list_into(&w.body, out);
            },
            _ => {
                proof {
                    assert(start + walk_stmt_spec(*self) =~= start + seq![*self]);
                }
            },
        }
    }

    /// Recursively visit all nested statements: the statements of the tree
    /// rooted at `self`, in pre-order.
    pub fn walk<'a>(&'a self) -> (r: Vec<&'a Statement>)
        ensures
            derefs(r@) == walk_stmt_spec(*self),
    {
        let mut out: Vec<&'a Statement> = Vec::new();
        self.walk_into(&mut out);
        proof {
            assert(derefs(Seq::<&Statement>::empty()) =~= Seq::<Statement>::empty());
            assert(Seq::<Statement>::empty() + walk_stmt_spec(*self) =~= walk_stmt_spec(*self));
        }
        out
    }

    /// Get all direct expressions contained in this statement
    /// (non-recursive).
    pub fn expressions<'a>(&'a self) -> (r: Vec<&'a Expression>)
        ensures
            derefs(r@) == direct_exprs(*self),
    {
        let mut out: Vec<&'a Expression> = Vec::new();
        match self {
            Statement::Expression(e) => {
                out.push(&e.expr);
            },
            Statement::Return(r) => {
                if let Some(v) = &r.value {
                    out.push(v);
                }
            },
            Statement::Declaration(d) => {
                if let Some(v) = &d.initializer {
                    out.push(v);
                }
            },
            Statement::If(i) => {
                out.push(&i.condition);
            },
            Statement::Switch(w) => {
                out.push(&w.condition);
            },
            _ => {},
        }
        proof {
            assert(derefs(out@) =~= direct_exprs(*self));
        }
        out
    }

    pub fn location(&self) -> (r: &SourceLocation)
        ensures
            *r == stmt_location(*self),
    {
        match self {
            Statement::Declaration(d) => &d.location,
            Statement::Expression(e) => &e.location,
            Statement::If(i) => &i.location,
            Statement::Return(r) => &r.location,
            Statement::Goto(g) => &g.location,
            Statement::Labeled(l) => &l.location,
            Statement::Compound(c) => &c.location,
            Statement::Switch(w) => &w.location,
        }
    }

    fn walk_expressions_into<'a>(&'a self, out: &mut Vec<&'a Expression>)
        ensures
            derefs(final(out)@) == derefs(old(out)@) + walk_exprs_spec(*self),
        decreases self, 0int,
    {
        let ghost start = derefs(out@);
        match self {
            Statement::Expression(e) => {
                push_walk(&e.expr, out);
            },
            Statement::Return(r) => {
                if let Some(v) = &r.value {
                    push_walk(v, out);
                } else {
                    assert(derefs(out@) =~= start + walk_exprs_spec(*self));
                }
            },
            Statement::Declaration(d) => {
                if let Some(v) = &d.initializer {
                    push_walk(v, out);
                } else {
                    assert(derefs(out@) =~= start + walk_exprs_spec(*self));
                }
            },
            Statement::If(i) => {
                push_walk(&i.condition, out);
                walk_exprs_list_into(&i.then_body, out);
                match &i.else_body {
                    Some(e) => {
                        walk_exprs_list_into(e, out);
                        proof {
                            assert(start + walk_exprs_spec(*self) =~= start + walk_spec(
                                i.condition,
                            ) + walk_exprs_list(i.then_body@, 0) + walk_exprs_list(e@, 0));
                        }
                    },
                    None => {
                        proof {
                            assert(start + walk_exprs_spec(*self) =~= start + walk_spec(
                                i.condition,
                            ) + walk_exprs_list(i.then_body@, 0));
                        }
                    },
                }
            },
            Statement::Compound(c) => {
                walk_exprs_list_into(&c.statements, out);
            },
            Statement::Labeled(l) => {
                l.statement.walk_expressions_into(out);
            },
            Statement::Switch(w) => {
                push_walk(&w.condition, out);
                walk_exprs_list_into(&w.body, out);
                proof {
                    assert(start + walk_exprs_spec(*self) =~= start + walk_spec(w.condition)
                        + walk_exprs_list(w.body@, 0));
                }
            },
            Statement::Goto(_) => {
                assert(derefs(out@) =~= start + walk_exprs_spec(*self));
            },
        }
    }

    /// Recursively walk all expressions in this statement tree, nested
    /// expressions within other expressions included.
    pub fn walk_expressions<'a>(&'a self) -> (r: Vec<&'a Expression>)
        ensures
            derefs(r@) == walk_exprs_spec(*self),
    {
        let mut out: Vec<&'a Expression> = Vec::new();
        self.walk_expressions_into(&mut out);
        proof {
            assert(derefs(Seq::<&Expression>::empty()) =~= Seq::<Expression>::empty());
            assert(Seq::<Expression>::empty() + walk_exprs_spec(*self) =~= walk_exprs_spec(*self));
        }
        out
    }

    /// The call of an expression statement that is a call.
    pub fn extract_call(&self) -> (r: Option<&CallExpression>)
        ensures
            r matches Some(c) ==> (*self matches Statement::Expression(e) && e.expr
                == Expression::Call(*c)),
            r is None ==> !(*self matches Statement::Expression(e) && e.expr is Call),
    {
        if let Statement::Expression(e) = self {
            if let Expression::Call(c) = &e.expr {
                return Some(c);
            }
        }
        None
    }

    /// Check if this statement assigns to `target_var` (white space around it
    /// aside) a value that `value_check` accepts.
    pub fn is_assignment_to<F: Fn(&Expression) -> bool>(&self, target_var: &str, value_check: F) -> (r: bool)
        requires
            forall|e: &Expression| value_check.requires((e,)),
        ensures
            r ==> (*self matches Statement::Expression(es) && es.expr matches Expression::Assignment(a)
                && crate::model::expression::variable_name_spec(*a.lhs) == Some(trim_spec(target_var@))
                && value_check.ensures((&*a.rhs,), true)),
            !r ==> (*self matches Statement::Expression(es) ==> (es.expr matches Expression::Assignment(a)
                ==> (crate::model::expression::variable_name_spec(*a.lhs) == Some(trim_spec(target_var@))
                ==> value_check.ensures((&*a.rhs,), false)))),
    {
        if let Statement::Expression(es) = self {
            if let Expression::Assignment(a) = &es.expr {
                if let Some(lhs) = a.lhs.extract_variable_name() {
                    let t = trim(target_var);
                    if str_eq(lhs.as_str(), t.as_str()) {
                        return value_check(&*a.rhs);
                    }
                }
            }
        }
        false
    }

    /// The variable declarations of the statement tree rooted at `self`, in
    /// walk order.
    pub fn iter_declarations<'a>(&'a self) -> (r: Vec<&'a VariableDecl>)
        ensures
            derefs(r@) == declarations_of(walk_stmt_spec(*self)),
    {
        let all = self.walk();
        let mut out: Vec<&'a VariableDecl> = Vec::new();
        let mut i: usize = 0;
        while i < all.len()
            invariant
                derefs(all@) == walk_stmt_spec(*self),
                i <= all@.len(),
                derefs(out@) == declarations_of(walk_stmt_spec(*self).take(i as int)),
            decreases all@.len() - i,
        {
            let s: &Statement = all[i];
            let ghost w = walk_stmt_spec(*self);
            assert(w.take(i + 1).drop_last() =~= w.take(i as int));
            assert(w.take(i + 1).last() == *s);
            if let Statement::Declaration(d) = s {
                out.push(d);
                assert(derefs(out@) =~= declarations_of(w.take(i as int)) + seq![*d]);
            } else {
                assert(declarations_of(w.take(i + 1)) =~= declarations_of(w.take(i as int)));
            }
            i = i + 1;
        }
        assert(walk_stmt_spec(*self).take(all@.len() as int) =~= walk_stmt_spec(*self));
        out
    }
}

impl VariableDecl {
    /// The declared name is a plain C identifier.
    pub fn is_simple_identifier(&self) -> (r: bool)
        ensures
            r == is_c_identifier(self.name@),
    {
        let cs = chars_of(self.name.as_str());
        if cs.len() == 0 {
            return false;
        }
        if '0' <= cs[0] && cs[0] <= '9' {
            return false;
        }
        let mut i: usize = 0;
        while i < cs.len()
            invariant
                cs@ == self.name@,
                i <= cs@.len(),
                forall|j: int|
                    0 <= j < i ==> (is_ascii_upper(cs@[j]) || is_ascii_lower(cs@[j])
                        || is_ascii_digit(cs@[j]) || cs@[j] == '_'),
            decreases cs@.len() - i,
        {
            let c = cs[i];
            if !(('A' <= c && c <= 'Z') || ('a' <= c && c <= 'z') || ('0' <= c && c <= '9') || c
                == '_') {
                return false;
            }
            i = i + 1;
        }
        true
    }
}

/// The statement walks of a list of statements, one after the other.
pub fn walk_list<'a>(list: &'a Vec<Statement>) -> (r: Vec<&'a Statement>)
    ensures
        derefs(r@) == walk_stmts(list@, 0),
{
    let mut out: Vec<&'a Statement> = Vec::new();
    walk_list_into(list, &mut out);
    proof {
        assert(derefs(Seq::<&Statement>::empty()) =~= Seq::<Statement>::empty());
        assert(Seq::<Statement>::empty() + walk_stmts(list@, 0) =~= walk_stmts(list@, 0));
    }
    out
}

/// The expression walks of a list of statements, one after the other.
pub fn walk_list_expressions<'a>(list: &'a Vec<Statement>) -> (r: Vec<&'a Expression>)
    ensures
        derefs(r@) == walk_exprs_list(list@, 0),
{
    let mut out: Vec<&'a Expression> = Vec::new();
    walk_exprs_list_into(list, &mut out);
    proof {
        assert(derefs(Seq::<&Expression>::empty()) =~= Seq::<Expression>::empty());
        assert(Seq::<Expression>::empty() + walk_exprs_list(list@, 0) =~= walk_exprs_list(list@, 0));
    }
    out
}

} // verus!
