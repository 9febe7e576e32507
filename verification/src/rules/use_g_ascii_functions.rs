//! Suggests the locale-independent `g_ascii_*` functions in place of the C
//! ctype functions.

use vstd::prelude::*;

use crate::context::{c_files, AstContext};
use crate::model::expression::derefs;
use crate::rules::{
    check_definition_trees, files_tree_reports, TreeCheck, collect_node_reports, node_fix, report, somes, violation_views,
    CheckContext, Category, Config, Fix, Violation, ViolationView,
};
use crate::syntax::{
    child_by_field, fits, lemma_fits_field_child, lemma_fits_member, node_text, preorder,
    preorder_ref, fits_ref, lemma_fits_member_ref, SyntaxNode,
};
use crate::text::{concat3, owned, push_str, str_eq};

verus! {

pub struct UseGAsciiFunctions;

/// The ctype functions and their `g_ascii_*` replacements.
pub open spec fn ascii_table() -> Seq<(Seq<char>, Seq<char>)> {
    seq![
        ("tolower"@, "g_ascii_tolower"@),
        ("toupper"@, "g_ascii_toupper"@),
        ("isdigit"@, "g_ascii_isdigit"@),
        ("isalpha"@, "g_ascii_isalpha"@),
        ("isalnum"@, "g_ascii_isalnum"@),
        ("isspace"@, "g_ascii_isspace"@),
        ("isupper"@, "g_ascii_isupper"@),
        ("islower"@, "g_ascii_islower"@),
        ("isxdigit"@, "g_ascii_isxdigit"@),
        ("ispunct"@, "g_ascii_ispunct"@),
        ("isprint"@, "g_ascii_isprint"@),
        ("isgraph"@, "g_ascii_isgraph"@),
        ("iscntrl"@, "g_ascii_iscntrl"@),
    ]
}

/// The entry of `table` for `key`: the first one.
pub open spec fn lookup(table: Seq<(Seq<char>, Seq<char>)>, key: Seq<char>) -> Option<Seq<char>>
    decreases table.len(),
{
    if table.len() == 0 {
        None
    } else if table[0].0 == key {
        Some(table[0].1)
    } else {
        lookup(table.drop_first(), key)
    }
}

/// The `g_ascii_*` function that replaces the ctype function `name`.
pub fn g_ascii_replacement(name: &str) -> (r: Option<&'static str>)
    ensures
        r matches Some(t) ==> lookup(ascii_table(), name@) == Some(t@),
        r is None ==> lookup(ascii_table(), name@) is None,
{
    let table: [(&'static str, &'static str); 13] = [
        ("tolower", "g_ascii_tolower"),
        ("toupper", "g_ascii_toupper"),
        ("isdigit", "g_ascii_isdigit"),
        ("isalpha", "g_ascii_isalpha"),
        ("isalnum", "g_ascii_isalnum"),
        ("isspace", "g_ascii_isspace"),
        ("isupper", "g_ascii_isupper"),
        ("islower", "g_ascii_islower"),
        ("isxdigit", "g_ascii_isxdigit"),
        ("ispunct", "g_ascii_ispunct"),
        ("isprint", "g_ascii_isprint"),
        ("isgraph", "g_ascii_isgraph"),
        ("iscntrl", "g_ascii_iscntrl"),
    ];
    let ghost views = table@.map_values(|p: (&str, &str)| (p.0@, p.1@));
    assert(views =~= ascii_table());
    assert(views.skip(0) =~= views);
    let mut k: usize = 0;
    while k < 13
        invariant
            k <= 13,
            table@.len() == 13,
            views == table@.map_values(|p: (&str, &str)| (p.0@, p.1@)),
            lookup(ascii_table(), name@) == lookup(views.skip(k as int), name@),
        decreases 13 - k,
    {
        assert(views.skip(k as int).drop_first() =~= views.skip(k + 1));
        let (f, t) = table[k];
        if str_eq(name, f) {
            return Some(t);
        }
        k = k + 1;
    }
    None
}

/// The violation at node `n` of a function's tree: a call of a ctype
/// function, reported at the call, fixed at the function name.
pub open spec fn ascii_report(path: Seq<char>, source: Seq<u8>, base_line: nat, base_byte: nat, n: SyntaxNode) -> Option<
    ViolationView,
> {
    if n.kind@ != "call_expression"@ {
        None
    } else {
        match child_by_field(n.children@, "function"@) {
            Some(f) => {
                let name = node_text(source, f);
                match lookup(ascii_table(), name) {
                    Some(rep) => Some(
                        report(
                            path,
                            (base_line + n.start_row) as nat,
                            (n.start_column + 1) as nat,
                            "use_g_ascii_functions"@,
                            "Use "@ + rep + "() instead of "@ + name
                                + "() \u{2014} C ctype functions are locale-dependent"@,
                            seq![node_fix(base_byte, f, rep)],
                        ),
                    ),
                    None => None,
                }
            },
            None => None,
        }
    }
}

/// The violations in a function's syntax tree, in pre-order.
pub open spec fn ascii_reports(path: Seq<char>, source: Seq<u8>, base_line: nat, base_byte: nat, tree: SyntaxNode) -> Seq<
    ViolationView,
> {
    somes(
        preorder(tree).map_values(
            |n: SyntaxNode| ascii_report(path, source, base_line, base_byte, n),
        ),
    )
}

impl UseGAsciiFunctions {
    pub fn name(&self) -> (r: &'static str)
        ensures
            r@ == "use_g_ascii_functions"@,
    {
        "use_g_ascii_functions"
    }

    pub fn description(&self) -> (r: &'static str)
        ensures
            r@ == "Use g_ascii_* functions instead of locale-dependent C ctype functions"@,
    {
        "Use g_ascii_* functions instead of locale-dependent C ctype functions"
    }

    pub fn category(&self) -> (r: Category)
        ensures
            r == Category::Correctness,
    {
        Category::Correctness
    }

    pub fn fixable(&self) -> (r: bool)
        ensures
            r,
    {
        true
    }

    /// The violation at one node, if any.
    pub fn check_node(&self, node: &SyntaxNode, ctx: &CheckContext) -> (r: Option<Violation>)
        requires
            fits(*node, ctx.source@.len() as int, ctx.base_line as int, ctx.base_byte as int),
        ensures
            r matches Some(v) ==> ascii_report(
                ctx.file_path@,
                ctx.source@,
                ctx.base_line as nat,
                ctx.base_byte as nat,
                *node,
            ) == Some(v@),
            r is None ==> ascii_report(
                ctx.file_path@,
                ctx.source@,
                ctx.base_line as nat,
                ctx.base_byte as nat,
                *node,
            ) is None,
    {
        proof {
            lemma_fits_member(*node, *node, ctx.source@.len() as int, ctx.base_line as int, ctx.base_byte as int);
            assert(preorder(*node)[0] == *node);
            reveal_strlit("function");
        }
        if !node.is_kind("call_expression") {
            return None;
        }
        let function = match node.child_by_field_name("function") {
            Some(f) => f,
            None => return None,
        };
        proof {
            lemma_fits_field_child(*node, "function"@, ctx.source@.len() as int, ctx.base_line as int, ctx.base_byte as int);
        }
        let func_name = function.text(ctx.source);
        let replacement = match g_ascii_replacement(func_name) {
            Some(r) => r,
            None => return None,
        };
        let fix = Fix::from_node(function, ctx, owned(replacement));
        let mut message = concat3("Use ", replacement, "() instead of ");
        push_str(&mut message, func_name);
        push_str(&mut message, "() \u{2014} C ctype functions are locale-dependent");
        let mut fixes: Vec<Fix> = Vec::new();
        fixes.push(fix);
        assert(crate::rules::fix_views(fixes@) =~= seq![fixes@[0]@]);
        Some(Violation::new(
            ctx.file_path,
            ctx.base_line + node.start_row,
            node.start_column + 1,
            "use_g_ascii_functions",
            message,
            fixes,
        ))
    }

    /// The violations in the syntax tree of a function, in pre-order.
    pub fn check_tree(&self, tree: &SyntaxNode, ctx: &CheckContext) -> (r: Vec<Violation>)
        requires
            fits(*tree, ctx.source@.len() as int, ctx.base_line as int, ctx.base_byte as int),
        ensures
            violation_views(r@) == ascii_reports(
                ctx.file_path@,
                ctx.source@,
                ctx.base_line as nat,
                ctx.base_byte as nat,
                *tree,
            ),
    {
        let nodes = tree.preorder();
        let check = |n: &SyntaxNode| -> (r: Option<Violation>)
            requires
                preorder_ref(tree).contains(*n),
                fits_ref(tree, ctx.source@.len() as int, ctx.base_line as int, ctx.base_byte as int),
            ensures
                crate::rules::opt_view(r) == ascii_report(
                    ctx.file_path@,
                    ctx.source@,
                    ctx.base_line as nat,
                    ctx.base_byte as nat,
                    *n,
                ),
            {
                proof {
                    lemma_fits_member_ref(tree, *n, ctx.source@.len() as int, ctx.base_line as int, ctx.base_byte as int);
                }
                let found = self.check_node(n, ctx);
                found
            };
        let ghost per = |n: SyntaxNode|
            ascii_report(ctx.file_path@, ctx.source@, ctx.base_line as nat, ctx.base_byte as nat, n);
        let r = collect_node_reports(&nodes, check, Ghost(per));
        assert(derefs(nodes@).map_values(per) =~= preorder(*tree).map_values(
            |n: SyntaxNode| ascii_report(ctx.file_path@, ctx.source@, ctx.base_line as nat, ctx.base_byte as nat, n),
        ));
        r
    }

    /// Reports calls of the C ctype functions in the function definitions of
    /// the `.c` files, each parsed on its own. What was reported before
    /// stays in place.
    pub fn check_all(&self, ast_context: &AstContext, config: &Config, violations: &mut Vec<Violation>)
        ensures
            exists|trees: Seq<Seq<Option<SyntaxNode>>>|
                violation_views(final(violations)@) == violation_views(old(violations)@)
                    + files_tree_reports(
                    c_files(*ast_context),
                    trees,
                    ascii_check(),
                    c_files(*ast_context).len() as int,
                ),
    {
        let files = ast_context.iter_c_files();
        let check = |tree: &SyntaxNode, ctx: &CheckContext| -> (r: Vec<Violation>)
            requires
                fits(*tree, ctx.source@.len() as int, ctx.base_line as int, ctx.base_byte as int),
            ensures
                violation_views(r@) == ascii_reports(
                    ctx.file_path@,
                    ctx.source@,
                    ctx.base_line as nat,
                    ctx.base_byte as nat,
                    *tree,
                ),
            {
                let found = self.check_tree(tree, ctx);
                found
            };
        check_definition_trees(&files, check, Ghost(ascii_check()), violations);
    }
}

/// What this rule reports on the syntax tree of one function definition.
pub open spec fn ascii_check() -> TreeCheck {
    |path: Seq<char>, source: Seq<u8>, line: nat, byte: nat, tree: SyntaxNode|
        ascii_reports(path, source, line, byte, tree)
}

} // verus!
