//! Functions of a C file and the queries that rules make on their bodies.

use vstd::prelude::*;

use crate::model::expression::{
    arg_expr, derefs, variable_name_spec, CallExpression, Expression,
};
use crate::model::statement::{
    declarations_of, walk_exprs_list, walk_list, walk_list_expressions, walk_stmts, Statement,
    VariableDecl,
};
use crate::model::types::TypeInfo;
use crate::text::{str_eq, str_in, str_views};

verus! {

#[derive(Debug)]
pub struct Parameter {
    pub name: Option<String>,
    pub type_text: String,
}

#[derive(Debug)]
pub struct FunctionInfo {
    pub name: String,
    pub line: usize,
    pub is_static: bool,
    /// `CLUTTER_EXPORT`, `G_MODULE_EXPORT`, `G_DEPRECATED_FOR`, ...
    pub export_macros: Vec<String>,
    /// Has a static forward declaration in the same file.
    pub has_static_forward_decl: bool,
    /// A definition rather than a declaration.
    pub is_definition: bool,
    pub return_type: Option<String>,
    pub parameters: Vec<Parameter>,
    /// Byte range of the entire function (for definitions) in the file's
    /// source.
    pub start_byte: Option<usize>,
    pub end_byte: Option<usize>,
    /// Byte range of just the body (for definitions).
    pub body_start_byte: Option<usize>,
    pub body_end_byte: Option<usize>,
    /// Parsed body statements (for definitions), in order.
    pub body_statements: Vec<Statement>,
}

/// Every expression of a function body, nested ones included, in walk order.
pub open spec fn body_exprs(f: FunctionInfo) -> Seq<Expression> {
    walk_exprs_list(f.body_statements@, 0)
}

/// Every statement of a function body, nested ones included, in walk order.
pub open spec fn body_stmts(f: FunctionInfo) -> Seq<Statement> {
    walk_stmts(f.body_statements@, 0)
}

/// The calls among `es`, in order.
pub open spec fn calls_of(es: Seq<Expression>) -> Seq<CallExpression>
    decreases es.len(),
{
    if es.len() == 0 {
        Seq::empty()
    } else {
        calls_of(es.drop_last()) + match es.last() {
            Expression::Call(c) => seq![c],
            _ => Seq::empty(),
        }
    }
}

/// The calls of `cs` whose function is one of `names`, in order.
pub open spec fn calls_named(cs: Seq<CallExpression>, names: Seq<Seq<char>>) -> Seq<CallExpression>
    decreases cs.len(),
{
    if cs.len() == 0 {
        Seq::empty()
    } else {
        calls_named(cs.drop_last(), names) + if names.contains(cs.last().function@) {
            seq![cs.last()]
        } else {
            Seq::empty()
        }
    }
}

/// The elements of `cs` that `mask` selects, in order.
pub open spec fn select<T>(cs: Seq<T>, mask: Seq<bool>) -> Seq<T>
    decreases cs.len(),
{
    if cs.len() == 0 || mask.len() == 0 {
        Seq::empty()
    } else {
        select(cs.drop_last(), mask.drop_last()) + if mask.last() {
            seq![cs.last()]
        } else {
            Seq::empty()
        }
    }
}

/// The type of the last declaration of `name` among `decls`.
pub open spec fn last_decl_type(decls: Seq<VariableDecl>, name: Seq<char>) -> Option<TypeInfo>
    decreases decls.len(),
{
    if decls.len() == 0 {
        None
    } else if decls.last().name@ == name {
        Some(decls.last().type_info)
    } else {
        last_decl_type(decls.drop_last(), name)
    }
}

/// A call of `func` among `cs` has, as argument `index`, the variable `var`.
pub open spec fn passes_var(cs: Seq<CallExpression>, var: Seq<char>, func: Seq<char>, index: int) -> bool {
    exists|i: int|
        0 <= i < cs.len() && cs[i].function@ == func && 0 <= index < cs[i].arguments@.len()
            && variable_name_spec(arg_expr(#[trigger] cs[i].arguments@[index])) == Some(var)
}

/// A return statement among `ss` returns the variable `var`.
pub open spec fn returns_var(ss: Seq<Statement>, var: Seq<char>) -> bool {
    exists|i: int|
        0 <= i < ss.len() && (#[trigger] ss[i] matches Statement::Return(r) && r.value matches Some(
            v,
        ) && variable_name_spec(v) == Some(var))
}

proof fn lemma_calls_named_step(cs: Seq<CallExpression>, names: Seq<Seq<char>>, i: int)
    requires
        0 <= i < cs.len(),
    ensures
        calls_named(cs.take(i + 1), names) == calls_named(cs.take(i), names) + if names.contains(
            cs[i].function@,
        ) {
            seq![cs[i]]
        } else {
            Seq::<CallExpression>::empty()
        },
{
    assert(cs.take(i + 1).drop_last() =~= cs.take(i));
    assert(cs.take(i + 1).last() == cs[i]);
}

/// Every call that `calls_named` keeps is one of `cs` and is named by one
/// of `names`.
pub proof fn lemma_calls_named_subset(cs: Seq<CallExpression>, names: Seq<Seq<char>>)
    ensures
        forall|k: int|
            0 <= k < calls_named(cs, names).len() ==> cs.contains(
                #[trigger] calls_named(cs, names)[k],
            ) && names.contains(calls_named(cs, names)[k].function@),
    decreases cs.len(),
{
    if cs.len() > 0 {
        lemma_calls_named_subset(cs.drop_last(), names);
        let prev = calls_named(cs.drop_last(), names);
        assert forall|k: int| 0 <= k < calls_named(cs, names).len() implies cs.contains(
            #[trigger] calls_named(cs, names)[k],
        ) && names.contains(calls_named(cs, names)[k].function@) by {
            if k < prev.len() {
                assert(calls_named(cs, names)[k] == prev[k]);
                assert(prev.contains(prev[k]));
                let m = choose|m: int| 0 <= m < cs.drop_last().len() && cs.drop_last()[m] == prev[k];
                assert(cs[m] == prev[k]);
            } else {
                assert(calls_named(cs, names)[k] == cs.last());
                assert(cs[cs.len() - 1] == cs.last());
            }
        }
    }
}

/// All calls among the expressions `all`, in order.
fn collect_calls<'a>(all: &Vec<&'a Expression>) -> (r: Vec<&'a CallExpression>)
    ensures
        derefs(r@) == calls_of(derefs(all@)),
{
    let mut out: Vec<&'a CallExpression> = Vec::new();
    let mut i: usize = 0;
    while i < all.len()
        invariant
            i <= all@.len(),
            derefs(out@) == calls_of(derefs(all@).take(i as int)),
        decreases all@.len() - i,
    {
        let e: &Expression = all[i];
        let ghost w = derefs(all@);
        assert(w.take(i + 1).drop_last() =~= w.take(i as int));
        assert(w.take(i + 1).last() == *e);
        if let Expression::Call(c) = e {
            out.push(c);
            assert(derefs(out@) =~= calls_of(w.take(i as int)) + seq![*c]);
        } else {
            assert(calls_of(w.take(i + 1)) =~= calls_of(w.take(i as int)));
        }
        i = i + 1;
    }
    assert(derefs(all@).take(all@.len() as int) =~= derefs(all@));
    out
}

/// `predicate`, asked on the function name of each call of `cs` (the
/// strings `asked`), may answer `mask`.
pub open spec fn answers<F: Fn(&str) -> bool>(
    predicate: F,
    cs: Seq<CallExpression>,
    asked: Seq<&str>,
    mask: Seq<bool>,
) -> bool {
    &&& mask.len() == cs.len()
    &&& asked.len() == cs.len()
    &&& forall|i: int|
        #![trigger asked[i]]
        0 <= i < cs.len() ==> asked[i]@ == cs[i].function@ && predicate.ensures((asked[i],), mask[i])
}

impl FunctionInfo {
    /// All calls of the body, nested ones included, in walk order.
    pub fn body_calls<'a>(&'a self) -> (r: Vec<&'a CallExpression>)
        ensures
            derefs(r@) == calls_of(body_exprs(*self)),
    {
        let all = walk_list_expressions(&self.body_statements);
        collect_calls(&all)
    }

    /// Find all calls to specific functions in the body: every call node,
    /// nested ones included, whose function is one of `function_names`, in
    /// walk order.
    pub fn find_calls<'a>(&'a self, function_names: &[&str]) -> (r: Vec<&'a CallExpression>)
        ensures
            derefs(r@) == calls_named(calls_of(body_exprs(*self)), str_views(function_names@)),
    {
        let calls = self.body_calls();
        let ghost cs = calls_of(body_exprs(*self));
        let ghost names = str_views(function_names@);
        let mut out: Vec<&'a CallExpression> = Vec::new();
        let mut i: usize = 0;
        while i < calls.len()
            invariant
                derefs(calls@) == cs,
                names == str_views(function_names@),
                i <= calls@.len(),
                derefs(out@) == calls_named(cs.take(i as int), names),
            decreases calls@.len() - i,
        {
            let c: &CallExpression = calls[i];
            proof {
                lemma_calls_named_step(cs, names, i as int);
            }
            assert(cs[i as int] == *c);
            if str_in(function_names, c.function.as_str()) {
                out.push(c);
                assert(derefs(out@) =~= calls_named(cs.take(i as int), names) + seq![*c]);
            } else {
                assert(calls_named(cs.take(i + 1), names) =~= calls_named(cs.take(i as int), names) + Seq::empty());
            }
            i = i + 1;
        }
        assert(cs.take(calls@.len() as int) =~= cs);
        out
    }

    /// Find all calls of the body, in walk order, whose function name the
    /// predicate accepts. The predicate is asked once per call, in walk
    /// order; a call is kept when it answered `true`.
    pub fn find_calls_matching<'a, F: Fn(&str) -> bool>(&'a self, predicate: F) -> (r: Vec<&'a CallExpression>)
        requires
            forall|s: &str| predicate.requires((s,)),
        ensures
            exists|asked: Seq<&str>, mask: Seq<bool>|
                #[trigger] answers(predicate, calls_of(body_exprs(*self)), asked, mask) && derefs(r@)
                    == select(calls_of(body_exprs(*self)), mask),
    {
        let calls = self.body_calls();
        let ghost cs = calls_of(body_exprs(*self));
        let ghost mut mask: Seq<bool> = Seq::empty();
        let ghost mut asked: Seq<&str> = Seq::empty();
        let mut out: Vec<&'a CallExpression> = Vec::new();
        let mut i: usize = 0;
        while i < calls.len()
            invariant
                derefs(calls@) == cs,
                cs == calls_of(body_exprs(*self)),
                i <= calls@.len(),
                forall|s: &str| predicate.requires((s,)),
                mask.len() == i,
                asked.len() == i,
                forall|j: int|
                    #![trigger asked[j]]
                    0 <= j < i ==> asked[j]@ == cs[j].function@ && predicate.ensures((asked[j],), mask[j]),
                derefs(out@) == select(cs.take(i as int), mask),
            decreases calls@.len() - i,
        {
            let c: &CallExpression = calls[i];
            let name: &str = c.function.as_str();
            let keep = predicate(name);
            let ghost old_mask = mask;
            let ghost old_asked = asked;
            proof {
                assert(predicate.ensures((name,), keep));
                assert(cs[i as int] == *c);
                assert(cs.take(i + 1).drop_last() =~= cs.take(i as int));
                assert(cs.take(i + 1).last() == *c);
                assert(mask.push(keep).drop_last() =~= mask);
                mask = mask.push(keep);
                asked = asked.push(name);
                assert forall|j: int|
                    #![trigger asked[j]]
                    0 <= j < i + 1 implies asked[j]@ == cs[j].function@ && predicate.ensures((asked[j],), mask[j]) by {
                    if j < i {
                        assert(cs.take(i + 1)[j] == cs.take(i as int)[j]);
                        assert(asked[j] == old_asked[j]);
                        assert(mask[j] == old_mask[j]);
                        assert(predicate.ensures((old_asked[j],), old_mask[j]));
                    } else {
                        assert(asked[j] == name);
                        assert(mask[j] == keep);
                    }
                }
            }
            if keep {
                out.push(c);
                assert(derefs(out@) =~= select(cs.take(i as int), old_mask) + seq![*c]);
            } else {
                assert(select(cs.take(i + 1), mask) =~= select(cs.take(i as int), old_mask));
            }
            i = i + 1;
        }
        assert(cs.take(calls@.len() as int) =~= cs);
        assert(answers(predicate, cs, asked, mask));
        out
    }

    /// The type of the last declaration of `name` in the body, if any.
    pub fn local_var_type<'a>(&'a self, name: &str) -> (r: Option<&'a TypeInfo>)
        ensures
            r matches Some(t) ==> last_decl_type(declarations_of(body_stmts(*self)), name@) == Some(*t),
            r is None ==> last_decl_type(declarations_of(body_stmts(*self)), name@) is None,
    {
        let decls = self.body_declarations();
        let ghost ds = declarations_of(body_stmts(*self));
        let mut i = decls.len();
        assert(ds.take(i as int) =~= ds);
        while i > 0
            invariant
                derefs(decls@) == ds,
                ds == declarations_of(body_stmts(*self)),
                i <= decls@.len(),
                last_decl_type(ds, name@) == last_decl_type(ds.take(i as int), name@),
            decreases i,
        {
            let d: &VariableDecl = decls[i - 1];
            assert(ds.take(i as int).drop_last() =~= ds.take(i - 1));
            assert(ds.take(i as int).last() == *d);
            if str_eq(d.name.as_str(), name) {
                assert(last_decl_type(ds.take(i as int), name@) == Some(d.type_info));
                return Some(&d.type_info);
            }
            i = i - 1;
        }
        None
    }

    /// The variable declarations of the body, nested ones included, in walk
    /// order.
    pub fn body_declarations<'a>(&'a self) -> (r: Vec<&'a VariableDecl>)
        ensures
            derefs(r@) == declarations_of(body_stmts(*self)),
    {
        let all = walk_list(&self.body_statements);
        let ghost w = body_stmts(*self);
        let mut out: Vec<&'a VariableDecl> = Vec::new();
        let mut i: usize = 0;
        while i < all.len()
            invariant
                derefs(all@) == w,
                i <= all@.len(),
                derefs(out@) == declarations_of(w.take(i as int)),
            decreases all@.len() - i,
        {
            let s: &Statement = all[i];
            assert(w.take(i + 1).drop_last() =~= w.take(i as int));
            assert(w.take(i + 1).last() == *s);
            if let Statement::Declaration(d) = s {
                out.push(d);
                assert(derefs(out@) =~= declarations_of(w.take(i as int)) + seq![*d]);
            } else {
                assert(declarations_of(w.take(i + 1)) =~= declarations_of(w.take(i as int)));
            }
            i = i + 1;
        }
        assert(w.take(all@.len() as int) =~= w);
        out
    }

    /// Some call of `function_name` in the body has the variable `var_name`
    /// as argument `arg_index`.
    pub fn is_var_passed_to_function(&self, var_name: &str, function_name: &str, arg_index: usize) -> (r: bool)
        ensures
            r == passes_var(calls_of(body_exprs(*self)), var_name@, function_name@, arg_index as int),
    {
        let calls = self.body_calls();
        let ghost cs = calls_of(body_exprs(*self));
        let mut i: usize = 0;
        while i < calls.len()
            invariant
                derefs(calls@) == cs,
                cs == calls_of(body_exprs(*self)),
                i <= calls@.len(),
                forall|j: int|
                    0 <= j < i ==> !(cs[j].function@ == function_name@ && 0 <= arg_index
                        < cs[j].arguments@.len() && variable_name_spec(
                        arg_expr(#[trigger] cs[j].arguments@[arg_index as int]),
                    ) == Some(var_name@)),
            decreases calls@.len() - i,
        {
            let c: &CallExpression = calls[i];
            assert(cs[i as int] == *c);
            if c.is_function(function_name) {
                if let Some(e) = c.get_arg(arg_index) {
                    if let Some(v) = e.extract_variable_name() {
                        if str_eq(v.as_str(), var_name) {
                            assert(cs[i as int].arguments@[arg_index as int] == c.arguments@[arg_index as int]);
                            return true;
                        }
                    }
                }
            }
            i = i + 1;
        }
        false
    }

    /// Some return statement of the body returns the variable `var_name`.
    pub fn is_var_returned(&self, var_name: &str) -> (r: bool)
        ensures
            r == returns_var(body_stmts(*self), var_name@),
    {
        let all = walk_list(&self.body_statements);
        let ghost w = body_stmts(*self);
        let mut i: usize = 0;
        while i < all.len()
            invariant
                derefs(all@) == w,
                w == body_stmts(*self),
                i <= all@.len(),
                forall|j: int|
                    0 <= j < i ==> !(#[trigger] w[j] matches Statement::Return(r) && r.value matches Some(
                        v,
                    ) && variable_name_spec(v) == Some(var_name@)),
            decreases all@.len() - i,
        {
            let s: &Statement = all[i];
            assert(w[i as int] == *s);
            if let Statement::Return(ret) = s {
                if let Some(v) = &ret.value {
                    if let Some(n) = v.extract_variable_name() {
                        if str_eq(n.as_str(), var_name) {
                            assert(w[i as int] matches Statement::Return(r) && r.value matches Some(x) && variable_name_spec(x) == Some(var_name@));
                            return true;
                        }
                    }
                }
            }
            i = i + 1;
        }
        false
    }
}

} // verus!
