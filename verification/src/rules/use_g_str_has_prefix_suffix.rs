//! Suggests `g_str_has_prefix ()` and `g_str_has_suffix ()` in place of the
//! `strncmp` and `strcmp` comparisons that test for a literal prefix or
//! suffix.

use vstd::prelude::*;

use crate::context::{c_files, AstContext};
use crate::model::expression::derefs;
use crate::rules::tree_match::{
    arguments_of, call_arguments, is_strlen_of, lemma_fits_children_except, punctuation,
    source_between, strlen_of, text_between,
};
use crate::rules::use_g_str_has_prefix::{
    check_prefix_comparison, comparison, comparison_of, comparison_report, comparison_violation,
    prefix_report, test_call, test_call_text,
};
use crate::rules::{
    check_definition_trees, files_tree_reports, TreeCheck, collect_node_report_lists, flatten_views, violation_views,
    CheckContext, Category, Config, Violation, ViolationView,
};
use crate::syntax::{
    child_by_field, fits, fits_ref, lemma_fits_field_child, lemma_fits_loosen, lemma_fits_member,
    lemma_fits_member_ref, node_text, preorder, preorder_ref, SyntaxNode,
};
use crate::text::{owned, str_eq, trim, trim_spec};

verus! {

pub struct UseGStrHasPrefixSuffix;

/// The string `e` when `n` is `e + strlen (e) - strlen (suffix)`, with the
/// literal written as `suffix`.
pub open spec fn suffix_base(source: Seq<u8>, n: SyntaxNode, suffix: Seq<char>) -> Option<Seq<char>> {
    if n.kind@ != "binary_expression"@ {
        None
    } else {
        match (
            child_by_field(n.children@, "operator"@),
            child_by_field(n.children@, "left"@),
            child_by_field(n.children@, "right"@),
        ) {
            (Some(o), Some(lhs), Some(rhs)) => if node_text(source, o) != "-"@ || !is_strlen_of(
                source,
                rhs,
                suffix,
            ) || lhs.kind@ != "binary_expression"@ {
                None
            } else {
                match (
                    child_by_field(lhs.children@, "operator"@),
                    child_by_field(lhs.children@, "left"@),
                    child_by_field(lhs.children@, "right"@),
                ) {
                    (Some(io), Some(e), Some(len_call)) => if node_text(source, io) == "+"@
                        && is_strlen_of(source, len_call, node_text(source, e)) {
                        Some(node_text(source, e))
                    } else {
                        None
                    },
                    _ => None,
                }
            },
            _ => None,
        }
    }
}

/// `(string, suffix, spacing)` when `call` is
/// `strcmp (s + strlen (s) - strlen ("suffix"), "suffix")` and `value` is
/// `0`; `spacing` is what stands between the function name and its
/// arguments.
pub open spec fn suffix_test_parts(source: Seq<u8>, call: SyntaxNode, value: SyntaxNode) -> Option<
    (Seq<char>, Seq<char>, Seq<char>),
> {
    if call.kind@ != "call_expression"@ {
        None
    } else {
        match child_by_field(call.children@, "function"@) {
            Some(f) => if node_text(source, f) != "strcmp"@ || trim_spec(node_text(source, value))
                != "0"@ {
                None
            } else {
                match child_by_field(call.children@, "arguments"@) {
                    Some(a) => {
                        let args = call_arguments(a);
                        if args.len() != 2 || args[1].kind@ != "string_literal"@ {
                            None
                        } else {
                            match suffix_base(source, args[0], node_text(source, args[1])) {
                                Some(e) => Some(
                                    (
                                        e,
                                        node_text(source, args[1]),
                                        text_between(source, f.end_byte as int, a.start_byte as int),
                                    ),
                                ),
                                None => None,
                            }
                        }
                    },
                    None => None,
                }
            },
            None => None,
        }
    }
}

/// The violation, if any, for the comparison `parent` of the call `call`
/// with `value` under `op`, when it tests for a suffix.
pub open spec fn suffix_report(
    path: Seq<char>,
    source: Seq<u8>,
    base_line: nat,
    base_byte: nat,
    parent: SyntaxNode,
    op: Seq<char>,
    call: SyntaxNode,
    value: SyntaxNode,
) -> Seq<ViolationView> {
    match suffix_test_parts(source, call, value) {
        Some((s, x, spacing)) => seq![
            comparison_report(
                "use_g_str_has_prefix_suffix"@,
                path,
                base_line,
                base_byte,
                parent,
                op,
                test_call_text("g_str_has_suffix"@, op, spacing, s, x),
                "strcmp"@,
            ),
        ],
        None => Seq::empty(),
    }
}

/// The violations at node `n`: a comparison with `0`, on either side, of a
/// `strncmp` against a literal prefix, then of a `strcmp` against a literal
/// suffix.
pub open spec fn prefix_suffix_reports_at(path: Seq<char>, source: Seq<u8>, base_line: nat, base_byte: nat, n: SyntaxNode) -> Seq<
    ViolationView,
> {
    match comparison(source, n) {
        Some((op, l, r)) => prefix_report("use_g_str_has_prefix_suffix"@, path, source, base_line, base_byte, n, op, l, r)
            + prefix_report("use_g_str_has_prefix_suffix"@, path, source, base_line, base_byte, n, op, r, l)
            + suffix_report(path, source, base_line, base_byte, n, op, l, r) + suffix_report(
            path,
            source,
            base_line,
            base_byte,
            n,
            op,
            r,
            l,
        ),
        None => Seq::empty(),
    }
}

/// The violations in a function's syntax tree, node by node in pre-order.
pub open spec fn prefix_suffix_reports(path: Seq<char>, source: Seq<u8>, base_line: nat, base_byte: nat, tree: SyntaxNode) -> Seq<
    ViolationView,
> {
    flatten_views(
        preorder(tree).map_values(
            |n: SyntaxNode| prefix_suffix_reports_at(path, source, base_line, base_byte, n),
        ),
    )
}

/// The string `e` when `node` is `e + strlen (e) - strlen (suffix)`.
pub fn extract_suffix_base(node: &SyntaxNode, suffix: &str, source: &[u8]) -> (r: Option<String>)
    requires
        fits(*node, source@.len() as int, 0, 0),
    ensures
        r matches Some(e) ==> suffix_base(source@, *node, suffix@) == Some(e@),
        r is None ==> suffix_base(source@, *node, suffix@) is None,
{
    let ghost len = source@.len() as int;
    proof {
        reveal_strlit("operator");
        reveal_strlit("left");
        reveal_strlit("right");
        lemma_fits_field_child(*node, "operator"@, len, 0, 0);
        lemma_fits_field_child(*node, "left"@, len, 0, 0);
        lemma_fits_field_child(*node, "right"@, len, 0, 0);
    }
    if !node.is_kind("binary_expression") {
        return None;
    }
    let (op, lhs, rhs) = match (
        node.child_by_field_name("operator"),
        node.child_by_field_name("left"),
        node.child_by_field_name("right"),
    ) {
        (Some(o), Some(l), Some(r)) => (o, l, r),
        _ => return None,
    };
    if !str_eq(op.text(source), "-") {
        return None;
    }
    if !strlen_of(rhs, suffix, source) {
        return None;
    }
    if !lhs.is_kind("binary_expression") {
        return None;
    }
    proof {
        lemma_fits_field_child(*lhs, "operator"@, len, 0, 0);
        lemma_fits_field_child(*lhs, "left"@, len, 0, 0);
        lemma_fits_field_child(*lhs, "right"@, len, 0, 0);
    }
    let (inner_op, base, len_call) = match (
        lhs.child_by_field_name("operator"),
        lhs.child_by_field_name("left"),
        lhs.child_by_field_name("right"),
    ) {
        (Some(o), Some(l), Some(r)) => (o, l, r),
        _ => return None,
    };
    if !str_eq(inner_op.text(source), "+") {
        return None;
    }
    let base_text = base.text(source);
    if !strlen_of(len_call, base_text, source) {
        return None;
    }
    Some(owned(base_text))
}

/// `(string, suffix, spacing)` when `call` is a `strcmp` against a literal
/// suffix and `value` is `0` (see `suffix_test_parts`).
pub fn match_suffix_test(call: &SyntaxNode, value: &SyntaxNode, source: &[u8]) -> (r: Option<
    (String, String, String),
>)
    requires
        fits(*call, source@.len() as int, 0, 0),
        fits(*value, source@.len() as int, 0, 0),
    ensures
        r matches Some((s, x, sp)) ==> suffix_test_parts(source@, *call, *value) == Some((s@, x@, sp@)),
        r is None ==> suffix_test_parts(source@, *call, *value) is None,
{
    let ghost len = source@.len() as int;
    proof {
        reveal_strlit("function");
        reveal_strlit("arguments");
        lemma_fits_field_child(*call, "function"@, len, 0, 0);
        lemma_fits_field_child(*call, "arguments"@, len, 0, 0);
        lemma_fits_member(*value, *value, len, 0, 0);
        assert(preorder(*value)[0] == *value);
    }
    if !call.is_kind("call_expression") {
        return None;
    }
    let function = match call.child_by_field_name("function") {
        Some(f) => f,
        None => return None,
    };
    if !str_eq(function.text(source), "strcmp") {
        return None;
    }
    let value_text = trim(value.text(source));
    if !str_eq(value_text.as_str(), "0") {
        return None;
    }
    let args = match call.child_by_field_name("arguments") {
        Some(a) => a,
        None => return None,
    };
    let arguments = arguments_of(args);
    if arguments.len() != 2 {
        return None;
    }
    proof {
        lemma_fits_children_except(*args, punctuation(), len, 0, 0);
        assert(derefs(arguments@)[0] == *arguments@[0]);
        assert(derefs(arguments@)[1] == *arguments@[1]);
    }
    if !arguments[1].is_kind("string_literal") {
        return None;
    }
    let suffix_text = arguments[1].text(source);
    let base = match extract_suffix_base(arguments[0], suffix_text, source) {
        Some(e) => e,
        None => return None,
    };
    let spacing = source_between(source, function.end_byte, args.start_byte);
    Some((base, owned(suffix_text), spacing))
}

/// The violation, if any, for the comparison `parent` of `call` with
/// `value` (see `suffix_report`).
pub fn check_suffix_comparison(
    ctx: &CheckContext,
    parent: &SyntaxNode,
    op: &str,
    call: &SyntaxNode,
    value: &SyntaxNode,
) -> (r: Vec<Violation>)
    requires
        fits(*parent, ctx.source@.len() as int, ctx.base_line as int, ctx.base_byte as int),
        fits(*call, ctx.source@.len() as int, ctx.base_line as int, ctx.base_byte as int),
        fits(*value, ctx.source@.len() as int, ctx.base_line as int, ctx.base_byte as int),
    ensures
        violation_views(r@) == suffix_report(
            ctx.file_path@,
            ctx.source@,
            ctx.base_line as nat,
            ctx.base_byte as nat,
            *parent,
            op@,
            *call,
            *value,
        ),
{
    proof {
        lemma_fits_loosen(*call, ctx.source@.len() as int, ctx.base_line as int, ctx.base_byte as int);
        lemma_fits_loosen(*value, ctx.source@.len() as int, ctx.base_line as int, ctx.base_byte as int);
        reveal_strlit("use_g_str_has_prefix_suffix");
    }
    let mut out: Vec<Violation> = Vec::new();
    match match_suffix_test(call, value, ctx.source) {
        Some((s, x, spacing)) => {
            let replacement = test_call("g_str_has_suffix", op, spacing.as_str(), s.as_str(), x.as_str());
            let v = comparison_violation("use_g_str_has_prefix_suffix", ctx, parent, op, replacement, "strcmp");
            out.push(v);
            assert(violation_views(out@) =~= seq![v@]);
        },
        None => {
            assert(violation_views(out@) =~= Seq::<ViolationView>::empty());
        },
    }
    out
}

impl UseGStrHasPrefixSuffix {
    pub fn name(&self) -> (r: &'static str)
        ensures
            r@ == "use_g_str_has_prefix_suffix"@,
    {
        "use_g_str_has_prefix_suffix"
    }

    pub fn description(&self) -> (r: &'static str)
        ensures
            r@ == "Use g_str_has_prefix/g_str_has_suffix() instead of manual strncmp/strcmp comparisons"@,
    {
        "Use g_str_has_prefix/g_str_has_suffix() instead of manual strncmp/strcmp comparisons"
    }

    pub fn category(&self) -> (r: Category)
        ensures
            r == Category::Style,
    {
        Category::Style
    }

    pub fn fixable(&self) -> (r: bool)
        ensures
            r,
    {
        true
    }

    /// The violations at one node.
    pub fn check_node(&self, node: &SyntaxNode, ctx: &CheckContext) -> (r: Vec<Violation>)
        requires
            fits(*node, ctx.source@.len() as int, ctx.base_line as int, ctx.base_byte as int),
        ensures
            violation_views(r@) == prefix_suffix_reports_at(
                ctx.file_path@,
                ctx.source@,
                ctx.base_line as nat,
                ctx.base_byte as nat,
                *node,
            ),
    {
        let ghost len = ctx.source@.len() as int;
        proof {
            lemma_fits_loosen(*node, len, ctx.base_line as int, ctx.base_byte as int);
            lemma_fits_field_child(*node, "left"@, len, ctx.base_line as int, ctx.base_byte as int);
            lemma_fits_field_child(*node, "right"@, len, ctx.base_line as int, ctx.base_byte as int);
            reveal_strlit("use_g_str_has_prefix_suffix");
        }
        match comparison_of(node, ctx.source) {
            Some((op, left, right)) => {
                let mut a = check_prefix_comparison("use_g_str_has_prefix_suffix", ctx, node, op.as_str(), left, right);
                let mut b = check_prefix_comparison("use_g_str_has_prefix_suffix", ctx, node, op.as_str(), right, left);
                let mut c = check_suffix_comparison(ctx, node, op.as_str(), left, right);
                let mut d = check_suffix_comparison(ctx, node, op.as_str(), right, left);
                let ghost va = violation_views(a@);
                let ghost vb = violation_views(b@);
                let ghost vc = violation_views(c@);
                let ghost vd = violation_views(d@);
                a.append(&mut b);
                a.append(&mut c);
                a.append(&mut d);
                assert(violation_views(a@) =~= va + vb + vc + vd);
                a
            },
            None => {
                let out: Vec<Violation> = Vec::new();
                assert(violation_views(out@) =~= Seq::<ViolationView>::empty());
                out
            },
        }
    }

    /// The violations in the syntax tree of a function, node by node in
    /// pre-order.
    pub fn check_tree(&self, tree: &SyntaxNode, ctx: &CheckContext) -> (r: Vec<Violation>)
        requires
            fits(*tree, ctx.source@.len() as int, ctx.base_line as int, ctx.base_byte as int),
        ensures
            violation_views(r@) == prefix_suffix_reports(
                ctx.file_path@,
                ctx.source@,
                ctx.base_line as nat,
                ctx.base_byte as nat,
                *tree,
            ),
    {
        let nodes = tree.preorder();
        let check = |n: &SyntaxNode| -> (r: Vec<Violation>)
            requires
                preorder_ref(tree).contains(*n),
                fits_ref(tree, ctx.source@.len() as int, ctx.base_line as int, ctx.base_byte as int),
            ensures
                violation_views(r@) == prefix_suffix_reports_at(
                    ctx.file_path@,
                    ctx.source@,
                    ctx.base_line as nat,
                    ctx.base_byte as nat,
                    *n,
                ),
            {
                proof {
                    lemma_fits_member_ref(tree, *n, ctx.source@.len() as int, ctx.base_line as int, ctx.base_byte as int);
                }
                let found = self.check_node(n, ctx);
                found
            };
        let ghost per = |n: SyntaxNode|
            prefix_suffix_reports_at(ctx.file_path@, ctx.source@, ctx.base_line as nat, ctx.base_byte as nat, n);
        let r = collect_node_report_lists(&nodes, check, Ghost(per));
        assert(derefs(nodes@).map_values(per) =~= preorder(*tree).map_values(
            |n: SyntaxNode| prefix_suffix_reports_at(ctx.file_path@, ctx.source@, ctx.base_line as nat, ctx.base_byte as nat, n),
        ));
        r
    }

    /// Reports, in the function definitions of the `.c` files (each parsed
    /// on its own), each `strncmp` against a literal prefix and each
    /// `strcmp` against a literal suffix compared with `0`. What was reported before stays in place.
    pub fn check_all(&self, ast_context: &AstContext, config: &Config, violations: &mut Vec<Violation>)
        ensures
            exists|trees: Seq<Seq<Option<SyntaxNode>>>|
                violation_views(final(violations)@) == violation_views(old(violations)@)
                    + files_tree_reports(
                    c_files(*ast_context),
                    trees,
                    prefix_suffix_check(),
                    c_files(*ast_context).len() as int,
                ),
    {
        let files = ast_context.iter_c_files();
        let check = |tree: &SyntaxNode, ctx: &CheckContext| -> (r: Vec<Violation>)
            requires
                fits(*tree, ctx.source@.len() as int, ctx.base_line as int, ctx.base_byte as int),
            ensures
                violation_views(r@) == prefix_suffix_reports(
                    ctx.file_path@,
                    ctx.source@,
                    ctx.base_line as nat,
                    ctx.base_byte as nat,
                    *tree,
                ),
            {
                let found = self.check_tree(tree, ctx);
                found
            };
        check_definition_trees(&files, check, Ghost(prefix_suffix_check()), violations);
    }
}

/// What this rule reports on the syntax tree of one function definition.
pub open spec fn prefix_suffix_check() -> TreeCheck {
    |path: Seq<char>, source: Seq<u8>, line: nat, byte: nat, tree: SyntaxNode|
        prefix_suffix_reports(path, source, line, byte, tree)
}

} // verus!
