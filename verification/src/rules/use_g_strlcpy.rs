//! Reports `strcpy`, `strcat` and `strncat`, which do not check bounds, and
//! suggests `g_strlcpy`/`g_strlcat`.

use vstd::prelude::*;

use crate::context::{c_files, AstContext};
use crate::model::expression::derefs;
use crate::rules::{
    check_definition_trees, files_tree_reports, TreeCheck, collect_node_reports, report, somes, violation_views, CheckContext,
    Category, Config, Violation, ViolationView,
};
use crate::syntax::{
    child_by_field, fits, fits_ref, lemma_fits_field_child, lemma_fits_member,
    lemma_fits_member_ref, node_text, preorder, preorder_ref, SyntaxNode,
};
use crate::text::{owned, str_eq};

verus! {

pub struct UseGStrlcpy;

/// The message for a call of the unbounded function `name`, if it is one.
pub open spec fn strlcpy_message(name: Seq<char>) -> Option<Seq<char>> {
    if name == "strcpy"@ {
        Some("Use g_strlcpy(dst, src, sizeof(dst)) instead of strcpy \u{2014} no bounds checking"@)
    } else if name == "strcat"@ {
        Some("Use g_strlcat(dst, src, sizeof(dst)) instead of strcat \u{2014} no bounds checking"@)
    } else if name == "strncat"@ {
        Some(
            "Use g_strlcat(dst, src, sizeof(dst)) instead of strncat \u{2014} strncat's n parameter is the max to append, not the buffer size, which is error-prone"@,
        )
    } else {
        None
    }
}

/// The violation at node `n` of a function's tree: a call of `strcpy`,
/// `strcat` or `strncat`.
pub open spec fn strlcpy_report(path: Seq<char>, source: Seq<u8>, base_line: nat, n: SyntaxNode) -> Option<
    ViolationView,
> {
    if n.kind@ != "call_expression"@ {
        None
    } else {
        match child_by_field(n.children@, "function"@) {
            Some(f) => match strlcpy_message(node_text(source, f)) {
                Some(m) => Some(
                    report(
                        path,
                        (base_line + n.start_row) as nat,
                        (n.start_column + 1) as nat,
                        "use_g_strlcpy"@,
                        m,
                        Seq::empty(),
                    ),
                ),
                None => None,
            },
            None => None,
        }
    }
}

/// The violations in a function's syntax tree, in pre-order.
pub open spec fn strlcpy_reports(path: Seq<char>, source: Seq<u8>, base_line: nat, tree: SyntaxNode) -> Seq<
    ViolationView,
> {
    somes(preorder(tree).map_values(|n: SyntaxNode| strlcpy_report(path, source, base_line, n)))
}

impl UseGStrlcpy {
    pub fn name(&self) -> (r: &'static str)
        ensures
            r@ == "use_g_strlcpy"@,
    {
        "use_g_strlcpy"
    }

    pub fn description(&self) -> (r: &'static str)
        ensures
            r@ == "Use g_strlcpy/g_strlcat instead of unsafe strcpy/strcat/strncat"@,
    {
        "Use g_strlcpy/g_strlcat instead of unsafe strcpy/strcat/strncat"
    }

    pub fn category(&self) -> (r: Category)
        ensures
            r == Category::Correctness,
    {
        Category::Correctness
    }

    pub fn fixable(&self) -> (r: bool)
        ensures
            !r,
    {
        false
    }

    /// The violation at one node, if any.
    pub fn check_node(&self, node: &SyntaxNode, ctx: &CheckContext) -> (r: Option<Violation>)
        requires
            fits(*node, ctx.source@.len() as int, ctx.base_line as int, ctx.base_byte as int),
        ensures
            crate::rules::opt_view(r) == strlcpy_report(
                ctx.file_path@,
                ctx.source@,
                ctx.base_line as nat,
                *node,
            ),
    {
        proof {
            lemma_fits_member(*node, *node, ctx.source@.len() as int, ctx.base_line as int, ctx.base_byte as int);
            assert(preorder(*node)[0] == *node);
            reveal_strlit("function");
        }
        if !node.is_kind("call_expression") {
            return None;
        }
        let function = match node.child_by_field_name("function") {
            Some(f) => f,
            None => return None,
        };
        proof {
            lemma_fits_field_child(*node, "function"@, ctx.source@.len() as int, ctx.base_line as int, ctx.base_byte as int);
        }
        let func_name = function.text(ctx.source);
        let message: &str = if str_eq(func_name, "strcpy") {
            "Use g_strlcpy(dst, src, sizeof(dst)) instead of strcpy \u{2014} no bounds checking"
        } else if str_eq(func_name, "strcat") {
            "Use g_strlcat(dst, src, sizeof(dst)) instead of strcat \u{2014} no bounds checking"
        } else if str_eq(func_name, "strncat") {
            "Use g_strlcat(dst, src, sizeof(dst)) instead of strncat \u{2014} strncat's n parameter is the max to append, not the buffer size, which is error-prone"
        } else {
            return None;
        };
        Some(Violation::new(
            ctx.file_path,
            ctx.base_line + node.start_row,
            node.start_column + 1,
            "use_g_strlcpy",
            owned(message),
            Vec::new(),
        ))
    }

    /// The violations in the syntax tree of a function, in pre-order.
    pub fn check_tree(&self, tree: &SyntaxNode, ctx: &CheckContext) -> (r: Vec<Violation>)
        requires
            fits(*tree, ctx.source@.len() as int, ctx.base_line as int, ctx.base_byte as int),
        ensures
            violation_views(r@) == strlcpy_reports(ctx.file_path@, ctx.source@, ctx.base_line as nat, *tree),
    {
        let nodes = tree.preorder();
        let check = |n: &SyntaxNode| -> (r: Option<Violation>)
            requires
                preorder_ref(tree).contains(*n),
                fits_ref(tree, ctx.source@.len() as int, ctx.base_line as int, ctx.base_byte as int),
            ensures
                crate::rules::opt_view(r) == strlcpy_report(
                    ctx.file_path@,
                    ctx.source@,
                    ctx.base_line as nat,
                    *n,
                ),
            {
                proof {
                    lemma_fits_member_ref(tree, *n, ctx.source@.len() as int, ctx.base_line as int, ctx.base_byte as int);
                }
                let found = self.check_node(n, ctx);
                found
            };
        let ghost per = |n: SyntaxNode| strlcpy_report(ctx.file_path@, ctx.source@, ctx.base_line as nat, n);
        let r = collect_node_reports(&nodes, check, Ghost(per));
        assert(derefs(nodes@).map_values(per) =~= preorder(*tree).map_values(
            |n: SyntaxNode| strlcpy_report(ctx.file_path@, ctx.source@, ctx.base_line as nat, n),
        ));
        r
    }

    /// Reports calls of `strcpy`, `strcat` and `strncat` in the function
    /// definitions of the `.c` files, each parsed on its own. What was
    /// reported before stays in place.
    pub fn check_all(&self, ast_context: &AstContext, config: &Config, violations: &mut Vec<Violation>)
        ensures
            exists|trees: Seq<Seq<Option<SyntaxNode>>>|
                violation_views(final(violations)@) == violation_views(old(violations)@)
                    + files_tree_reports(
                    c_files(*ast_context),
                    trees,
                    strlcpy_check(),
                    c_files(*ast_context).len() as int,
                ),
    {
        let files = ast_context.iter_c_files();
        let check = |tree: &SyntaxNode, ctx: &CheckContext| -> (r: Vec<Violation>)
            requires
                fits(*tree, ctx.source@.len() as int, ctx.base_line as int, ctx.base_byte as int),
            ensures
                violation_views(r@) == strlcpy_reports(ctx.file_path@, ctx.source@, ctx.base_line as nat, *tree),
            {
                let found = self.check_tree(tree, ctx);
                found
            };
        check_definition_trees(&files, check, Ghost(strlcpy_check()), violations);
    }
}

/// What this rule reports on the syntax tree of one function definition.
pub open spec fn strlcpy_check() -> TreeCheck {
    |path: Seq<char>, source: Seq<u8>, line: nat, byte: nat, tree: SyntaxNode|
        strlcpy_reports(path, source, line, tree)
}

} // verus!
