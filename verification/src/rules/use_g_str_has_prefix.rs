//! Suggests `g_str_has_prefix ()` in place of
//! `strncmp (s, "prefix", strlen ("prefix")) == 0`.

use vstd::prelude::*;

use crate::context::{c_files, AstContext};
use crate::model::expression::derefs;
use crate::rules::tree_match::{
    arguments_of, call_arguments, is_strlen_of, lemma_fits_children_except, punctuation,
    source_between, strlen_of, text_between,
};
use crate::rules::{
    check_definition_trees, files_tree_reports, TreeCheck, collect_node_report_lists, flatten_views, node_fix, report,
    violation_views, CheckContext, Category, Config, Fix, Violation, ViolationView,
};
use crate::syntax::{
    child_by_field, fits, fits_ref, lemma_fits_field_child, lemma_fits_loosen, lemma_fits_member,
    lemma_fits_member_ref, node_text, preorder, preorder_ref, SyntaxNode,
};
use crate::text::{concat2, owned, push_str, str_eq, trim, trim_spec};

verus! {

pub struct UseGStrHasPrefix;

/// `(operator, left, right)` when `n` compares two operands with `==` or
/// `!=`.
pub open spec fn comparison(source: Seq<u8>, n: SyntaxNode) -> Option<(Seq<char>, SyntaxNode, SyntaxNode)> {
    if n.kind@ != "binary_expression"@ {
        None
    } else {
        match child_by_field(n.children@, "operator"@) {
            Some(o) => {
                let op = node_text(source, o);
                if op != "=="@ && op != "!="@ {
                    None
                } else {
                    match (child_by_field(n.children@, "left"@), child_by_field(n.children@, "right"@)) {
                        (Some(l), Some(r)) => Some((op, l, r)),
                        _ => None,
                    }
                }
            },
            None => None,
        }
    }
}

/// `(string, prefix, spacing)` when `call` is
/// `strncmp (string, "prefix", strlen ("prefix"))` and `value` is `0`;
/// `spacing` is what stands between the function name and its arguments.
pub open spec fn prefix_test_parts(source: Seq<u8>, call: SyntaxNode, value: SyntaxNode) -> Option<
    (Seq<char>, Seq<char>, Seq<char>),
> {
    if call.kind@ != "call_expression"@ {
        None
    } else {
        match child_by_field(call.children@, "function"@) {
            Some(f) => if node_text(source, f) != "strncmp"@ || trim_spec(node_text(source, value))
                != "0"@ {
                None
            } else {
                match child_by_field(call.children@, "arguments"@) {
                    Some(a) => {
                        let args = call_arguments(a);
                        if args.len() != 3 || args[1].kind@ != "string_literal"@ || !is_strlen_of(
                            source,
                            args[2],
                            node_text(source, args[1]),
                        ) {
                            None
                        } else {
                            Some(
                                (
                                    node_text(source, args[0]),
                                    node_text(source, args[1]),
                                    text_between(source, f.end_byte as int, a.start_byte as int),
                                ),
                            )
                        }
                    },
                    None => None,
                }
            },
            None => None,
        }
    }
}

/// `name (a, b)` after `spacing`, negated with `!` unless `op` is `==`.
pub open spec fn test_call_text(name: Seq<char>, op: Seq<char>, spacing: Seq<char>, a: Seq<char>, b: Seq<char>) -> Seq<
    char,
> {
    (if op == "=="@ {
        Seq::empty()
    } else {
        "!"@
    }) + name + spacing + "("@ + a + ", "@ + b + ")"@
}

/// The violation of `rule` that replaces the comparison `parent` by
/// `replacement`, where the comparison used `compare` and `op`.
pub open spec fn comparison_report(
    rule: Seq<char>,
    path: Seq<char>,
    base_line: nat,
    base_byte: nat,
    parent: SyntaxNode,
    op: Seq<char>,
    replacement: Seq<char>,
    compare: Seq<char>,
) -> ViolationView {
    report(
        path,
        (base_line + parent.start_row) as nat,
        (parent.start_column + 1) as nat,
        rule,
        "Use "@ + replacement + " instead of "@ + compare + "() "@ + op + " 0"@,
        seq![node_fix(base_byte, parent, replacement)],
    )
}

/// The violation of `rule`, if any, for the comparison `parent` of the call
/// `call` with `value` under `op`.
pub open spec fn prefix_report(
    rule: Seq<char>,
    path: Seq<char>,
    source: Seq<u8>,
    base_line: nat,
    base_byte: nat,
    parent: SyntaxNode,
    op: Seq<char>,
    call: SyntaxNode,
    value: SyntaxNode,
) -> Seq<ViolationView> {
    match prefix_test_parts(source, call, value) {
        Some((s, p, spacing)) => seq![
            comparison_report(
                rule,
                path,
                base_line,
                base_byte,
                parent,
                op,
                test_call_text("g_str_has_prefix"@, op, spacing, s, p),
                "strncmp"@,
            ),
        ],
        None => Seq::empty(),
    }
}

/// The violations at node `n`: a comparison with `0` of a `strncmp` call
/// against a literal prefix, on either side.
pub open spec fn prefix_reports_at(path: Seq<char>, source: Seq<u8>, base_line: nat, base_byte: nat, n: SyntaxNode) -> Seq<
    ViolationView,
> {
    match comparison(source, n) {
        Some((op, l, r)) => prefix_report("use_g_str_has_prefix"@, path, source, base_line, base_byte, n, op, l, r)
            + prefix_report("use_g_str_has_prefix"@, path, source, base_line, base_byte, n, op, r, l),
        None => Seq::empty(),
    }
}

/// The violations in a function's syntax tree, node by node in pre-order.
pub open spec fn prefix_reports(path: Seq<char>, source: Seq<u8>, base_line: nat, base_byte: nat, tree: SyntaxNode) -> Seq<
    ViolationView,
> {
    flatten_views(
        preorder(tree).map_values(|n: SyntaxNode| prefix_reports_at(path, source, base_line, base_byte, n)),
    )
}

/// The operator and operands of `node` when it compares with `==` or `!=`.
pub fn comparison_of<'a>(node: &'a SyntaxNode, source: &[u8]) -> (r: Option<(String, &'a SyntaxNode, &'a SyntaxNode)>)
    requires
        fits(*node, source@.len() as int, 0, 0),
    ensures
        r matches Some((op, l, rt)) ==> comparison(source@, *node) == Some((op@, *l, *rt)),
        r is None ==> comparison(source@, *node) is None,
{
    proof {
        reveal_strlit("operator");
        reveal_strlit("left");
        reveal_strlit("right");
        lemma_fits_field_child(*node, "operator"@, source@.len() as int, 0, 0);
    }
    if !node.is_kind("binary_expression") {
        return None;
    }
    let operator = match node.child_by_field_name("operator") {
        Some(o) => o,
        None => return None,
    };
    let op = operator.text(source);
    if !str_eq(op, "==") && !str_eq(op, "!=") {
        return None;
    }
    match (node.child_by_field_name("left"), node.child_by_field_name("right")) {
        (Some(l), Some(rt)) => Some((owned(op), l, rt)),
        _ => None,
    }
}

/// `name (a, b)` after `spacing`, negated with `!` unless `op` is `==`.
pub fn test_call(name: &str, op: &str, spacing: &str, a: &str, b: &str) -> (r: String)
    ensures
        r@ == test_call_text(name@, op@, spacing@, a@, b@),
{
    let mut s = if str_eq(op, "==") {
        String::new()
    } else {
        owned("!")
    };
    push_str(&mut s, name);
    push_str(&mut s, spacing);
    push_str(&mut s, "(");
    push_str(&mut s, a);
    push_str(&mut s, ", ");
    push_str(&mut s, b);
    push_str(&mut s, ")");
    s
}

/// The violation of `rule` that replaces the comparison `parent`.
pub fn comparison_violation(
    rule: &str,
    ctx: &CheckContext,
    parent: &SyntaxNode,
    op: &str,
    replacement: String,
    compare: &str,
) -> (r: Violation)
    requires
        fits(*parent, ctx.source@.len() as int, ctx.base_line as int, ctx.base_byte as int),
    ensures
        r@ == comparison_report(
            rule@,
            ctx.file_path@,
            ctx.base_line as nat,
            ctx.base_byte as nat,
            *parent,
            op@,
            replacement@,
            compare@,
        ),
{
    proof {
        lemma_fits_member(*parent, *parent, ctx.source@.len() as int, ctx.base_line as int, ctx.base_byte as int);
        assert(preorder(*parent)[0] == *parent);
    }
    let mut message = concat2("Use ", replacement.as_str());
    push_str(&mut message, " instead of ");
    push_str(&mut message, compare);
    push_str(&mut message, "() ");
    push_str(&mut message, op);
    push_str(&mut message, " 0");
    let fix = Fix::from_node(parent, ctx, replacement);
    let mut fixes: Vec<Fix> = Vec::new();
    fixes.push(fix);
    assert(crate::rules::fix_views(fixes@) =~= seq![fixes@[0]@]);
    Violation::new(
        ctx.file_path,
        ctx.base_line + parent.start_row,
        parent.start_column + 1,
        rule,
        message,
        fixes,
    )
}

/// `(string, prefix, spacing)` when `call` is a `strncmp` against a literal
/// prefix and `value` is `0` (see `prefix_test_parts`).
pub fn match_prefix_test(call: &SyntaxNode, value: &SyntaxNode, source: &[u8]) -> (r: Option<
    (String, String, String),
>)
    requires
        fits(*call, source@.len() as int, 0, 0),
        fits(*value, source@.len() as int, 0, 0),
    ensures
        r matches Some((s, p, sp)) ==> prefix_test_parts(source@, *call, *value) == Some((s@, p@, sp@)),
        r is None ==> prefix_test_parts(source@, *call, *value) is None,
{
    let ghost len = source@.len() as int;
    proof {
        reveal_strlit("function");
        reveal_strlit("arguments");
        lemma_fits_field_child(*call, "function"@, len, 0, 0);
        lemma_fits_field_child(*call, "arguments"@, len, 0, 0);
        lemma_fits_member(*value, *value, len, 0, 0);
        assert(preorder(*value)[0] == *value);
    }
    if !call.is_kind("call_expression") {
        return None;
    }
    let function = match call.child_by_field_name("function") {
        Some(f) => f,
        None => return None,
    };
    if !str_eq(function.text(source), "strncmp") {
        return None;
    }
    let value_text = trim(value.text(source));
    if !str_eq(value_text.as_str(), "0") {
        return None;
    }
    let args = match call.child_by_field_name("arguments") {
        Some(a) => a,
        None => return None,
    };
    let arguments = arguments_of(args);
    if arguments.len() != 3 {
        return None;
    }
    proof {
        lemma_fits_children_except(*args, punctuation(), len, 0, 0);
        assert(derefs(arguments@)[0] == *arguments@[0]);
        assert(derefs(arguments@)[1] == *arguments@[1]);
        assert(derefs(arguments@)[2] == *arguments@[2]);
    }
    if !arguments[1].is_kind("string_literal") {
        return None;
    }
    let prefix_text = arguments[1].text(source);
    if !strlen_of(arguments[2], prefix_text, source) {
        return None;
    }
    let spacing = source_between(source, function.end_byte, args.start_byte);
    Some((owned(arguments[0].text(source)), owned(prefix_text), spacing))
}

/// The violation of `rule`, if any, for the comparison `parent` of `call`
/// with `value` (see `prefix_report`).
pub fn check_prefix_comparison(
    rule: &str,
    ctx: &CheckContext,
    parent: &SyntaxNode,
    op: &str,
    call: &SyntaxNode,
    value: &SyntaxNode,
) -> (r: Vec<Violation>)
    requires
        fits(*parent, ctx.source@.len() as int, ctx.base_line as int, ctx.base_byte as int),
        fits(*call, ctx.source@.len() as int, ctx.base_line as int, ctx.base_byte as int),
        fits(*value, ctx.source@.len() as int, ctx.base_line as int, ctx.base_byte as int),
    ensures
        violation_views(r@) == prefix_report(
            rule@,
            ctx.file_path@,
            ctx.source@,
            ctx.base_line as nat,
            ctx.base_byte as nat,
            *parent,
            op@,
            *call,
            *value,
        ),
{
    proof {
        lemma_fits_loosen(*call, ctx.source@.len() as int, ctx.base_line as int, ctx.base_byte as int);
        lemma_fits_loosen(*value, ctx.source@.len() as int, ctx.base_line as int, ctx.base_byte as int);
    }
    let mut out: Vec<Violation> = Vec::new();
    match match_prefix_test(call, value, ctx.source) {
        Some((s, p, spacing)) => {
            let replacement = test_call("g_str_has_prefix", op, spacing.as_str(), s.as_str(), p.as_str());
            let v = comparison_violation(rule, ctx, parent, op, replacement, "strncmp");
            out.push(v);
            assert(violation_views(out@) =~= seq![v@]);
        },
        None => {
            assert(violation_views(out@) =~= Seq::<ViolationView>::empty());
        },
    }
    out
}

impl UseGStrHasPrefix {
    pub fn name(&self) -> (r: &'static str)
        ensures
            r@ == "use_g_str_has_prefix"@,
    {
        "use_g_str_has_prefix"
    }

    pub fn description(&self) -> (r: &'static str)
        ensures
            r@ == "Use g_str_has_prefix() instead of strncmp(s, \"prefix\", strlen(\"prefix\")) == 0"@,
    {
        "Use g_str_has_prefix() instead of strncmp(s, \"prefix\", strlen(\"prefix\")) == 0"
    }

    pub fn category(&self) -> (r: Category)
        ensures
            r == Category::Style,
    {
        Category::Style
    }

    pub fn fixable(&self) -> (r: bool)
        ensures
            r,
    {
        true
    }

    /// The violations at one node.
    pub fn check_node(&self, node: &SyntaxNode, ctx: &CheckContext) -> (r: Vec<Violation>)
        requires
            fits(*node, ctx.source@.len() as int, ctx.base_line as int, ctx.base_byte as int),
        ensures
            violation_views(r@) == prefix_reports_at(
                ctx.file_path@,
                ctx.source@,
                ctx.base_line as nat,
                ctx.base_byte as nat,
                *node,
            ),
    {
        let ghost len = ctx.source@.len() as int;
        proof {
            lemma_fits_loosen(*node, len, ctx.base_line as int, ctx.base_byte as int);
            lemma_fits_field_child(*node, "left"@, len, ctx.base_line as int, ctx.base_byte as int);
            lemma_fits_field_child(*node, "right"@, len, ctx.base_line as int, ctx.base_byte as int);
        }
        match comparison_of(node, ctx.source) {
            Some((op, left, right)) => {
                let mut a = check_prefix_comparison("use_g_str_has_prefix", ctx, node, op.as_str(), left, right);
                let mut b = check_prefix_comparison("use_g_str_has_prefix", ctx, node, op.as_str(), right, left);
                let ghost va = violation_views(a@);
                let ghost vb = violation_views(b@);
                a.append(&mut b);
                proof {
                    reveal_strlit("use_g_str_has_prefix");
                }
                assert(violation_views(a@) =~= va + vb);
                a
            },
            None => {
                let out: Vec<Violation> = Vec::new();
                assert(violation_views(out@) =~= Seq::<ViolationView>::empty());
                out
            },
        }
    }

    /// The violations in the syntax tree of a function, node by node in
    /// pre-order.
    pub fn check_tree(&self, tree: &SyntaxNode, ctx: &CheckContext) -> (r: Vec<Violation>)
        requires
            fits(*tree, ctx.source@.len() as int, ctx.base_line as int, ctx.base_byte as int),
        ensures
            violation_views(r@) == prefix_reports(
                ctx.file_path@,
                ctx.source@,
                ctx.base_line as nat,
                ctx.base_byte as nat,
                *tree,
            ),
    {
        let nodes = tree.preorder();
        let check = |n: &SyntaxNode| -> (r: Vec<Violation>)
            requires
                preorder_ref(tree).contains(*n),
                fits_ref(tree, ctx.source@.len() as int, ctx.base_line as int, ctx.base_byte as int),
            ensures
                violation_views(r@) == prefix_reports_at(
                    ctx.file_path@,
                    ctx.source@,
                    ctx.base_line as nat,
                    ctx.base_byte as nat,
                    *n,
                ),
            {
                proof {
                    lemma_fits_member_ref(tree, *n, ctx.source@.len() as int, ctx.base_line as int, ctx.base_byte as int);
                }
                let found = self.check_node(n, ctx);
                found
            };
        let ghost per = |n: SyntaxNode|
            prefix_reports_at(ctx.file_path@, ctx.source@, ctx.base_line as nat, ctx.base_byte as nat, n);
        let r = collect_node_report_lists(&nodes, check, Ghost(per));
        assert(derefs(nodes@).map_values(per) =~= preorder(*tree).map_values(
            |n: SyntaxNode| prefix_reports_at(ctx.file_path@, ctx.source@, ctx.base_line as nat, ctx.base_byte as nat, n),
        ));
        r
    }

    /// Reports, in the function definitions of the `.c` files (each parsed
    /// on its own), each `strncmp` against a literal prefix compared with
    /// `0`. What was reported before stays in place.
    pub fn check_all(&self, ast_context: &AstContext, config: &Config, violations: &mut Vec<Violation>)
        ensures
            exists|trees: Seq<Seq<Option<SyntaxNode>>>|
                violation_views(final(violations)@) == violation_views(old(violations)@)
                    + files_tree_reports(
                    c_files(*ast_context),
                    trees,
                    prefix_check(),
                    c_files(*ast_context).len() as int,
                ),
    {
        let files = ast_context.iter_c_files();
        let check = |tree: &SyntaxNode, ctx: &CheckContext| -> (r: Vec<Violation>)
            requires
                fits(*tree, ctx.source@.len() as int, ctx.base_line as int, ctx.base_byte as int),
            ensures
                violation_views(r@) == prefix_reports(
                    ctx.file_path@,
                    ctx.source@,
                    ctx.base_line as nat,
                    ctx.base_byte as nat,
                    *tree,
                ),
            {
                let found = self.check_tree(tree, ctx);
                found
            };
        check_definition_trees(&files, check, Ghost(prefix_check()), violations);
    }
}

/// What this rule reports on the syntax tree of one function definition.
pub open spec fn prefix_check() -> TreeCheck {
    |path: Seq<char>, source: Seq<u8>, line: nat, byte: nat, tree: SyntaxNode|
        prefix_reports(path, source, line, byte, tree)
}

} // verus!
