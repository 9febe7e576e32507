//! Suggests `g_clear_handle_id()` in place of a handle cleanup call followed
//! by setting the handle to zero.

use vstd::prelude::*;

use crate::context::{c_files, AstContext};
use crate::model::expression::derefs;
use crate::rules::{
    check_definition_trees, files_tree_reports, TreeCheck, collect_node_report_lists, flatten_views, report, violation_views,
    CheckContext, Category, Config, Violation, ViolationView,
};
use crate::syntax::{
    child_by_field, fits, fits_ref, lemma_fits_child, lemma_fits_field_child, lemma_fits_member,
    lemma_fits_member_ref, lemma_fits_root, node_text, preorder, preorder_list,
    preorder_ref, SyntaxNode,
};
use crate::text::{concat3, owned, push_str, str_eq, str_in, str_views, trim, trim_spec};

verus! {

pub struct UseGClearHandleId;

/// The functions that release a handle id.
pub open spec fn handle_cleanups() -> Seq<Seq<char>> {
    seq![
        "g_source_remove"@,
        "g_source_destroy"@,
        "g_signal_handler_disconnect"@,
        "g_signal_handler_block"@,
        "g_signal_handler_unblock"@,
    ]
}

/// The first node of `ns` of kind `kind`.
pub open spec fn first_of_kind(ns: Seq<SyntaxNode>, kind: Seq<char>) -> Option<SyntaxNode>
    decreases ns.len(),
{
    if ns.len() == 0 {
        None
    } else if ns[0].kind@ == kind {
        Some(ns[0])
    } else {
        first_of_kind(ns.drop_first(), kind)
    }
}

/// The first child that is not a `(`, `)` or `,` token.
pub open spec fn first_argument(children: Seq<SyntaxNode>) -> Option<SyntaxNode>
    decreases children.len(),
{
    if children.len() == 0 {
        None
    } else if children[0].kind@ != "("@ && children[0].kind@ != ")"@ && children[0].kind@ != ","@ {
        Some(children[0])
    } else {
        first_argument(children.drop_first())
    }
}

/// `(handle, function)` when the first call in the statement `s` is a handle
/// cleanup with a first argument.
pub open spec fn handle_cleanup(source: Seq<u8>, s: SyntaxNode) -> Option<(Seq<char>, Seq<char>)> {
    match first_of_kind(preorder(s), "call_expression"@) {
        Some(call) => match child_by_field(call.children@, "function"@) {
            Some(f) => if !handle_cleanups().contains(node_text(source, f)) {
                None
            } else {
                match child_by_field(call.children@, "arguments"@) {
                    Some(args) => match first_argument(args.children@) {
                        Some(a) => Some((trim_spec(node_text(source, a)), node_text(source, f))),
                        None => None,
                    },
                    None => None,
                }
            },
            None => None,
        },
        None => None,
    }
}

/// The variable that the first assignment below `s` sets to `0`.
pub open spec fn zero_assignment(source: Seq<u8>, s: SyntaxNode) -> Option<Seq<char>> {
    match first_of_kind(preorder_list(s.children@, 0), "assignment_expression"@) {
        Some(a) => match (child_by_field(a.children@, "left"@), child_by_field(a.children@, "right"@)) {
            (Some(l), Some(r)) => if trim_spec(node_text(source, r)) == "0"@ {
                Some(trim_spec(node_text(source, l)))
            } else {
                None
            },
            _ => None,
        },
        None => None,
    }
}

/// The expression statements among `children`, in order.
pub open spec fn expression_statements(children: Seq<SyntaxNode>) -> Seq<SyntaxNode>
    decreases children.len(),
{
    if children.len() == 0 {
        Seq::empty()
    } else {
        expression_statements(children.drop_last()) + if children.last().kind@
            == "expression_statement"@ {
            seq![children.last()]
        } else {
            Seq::empty()
        }
    }
}

/// The violation for the consecutive statements `first`, `second`, if the
/// first releases a handle that the second sets to zero.
pub open spec fn cleanup_pair_report(path: Seq<char>, source: Seq<u8>, base_line: nat, first: SyntaxNode, second: SyntaxNode) -> Seq<
    ViolationView,
> {
    match handle_cleanup(source, first) {
        Some((var, func)) => match zero_assignment(source, second) {
            Some(target) => if trim_spec(target) == trim_spec(var) {
                seq![
                    report(
                        path,
                        (base_line + first.start_row) as nat,
                        (first.start_column + 1) as nat,
                        "use_g_clear_handle_id"@,
                        "Use g_clear_handle_id(&"@ + var + ", "@ + func + ") instead of "@ + func
                            + " and zero assignment"@,
                        Seq::empty(),
                    ),
                ]
            } else {
                Seq::empty()
            },
            None => Seq::empty(),
        },
        None => Seq::empty(),
    }
}

/// The violations of the consecutive pairs of `stmts[..n]`.
pub open spec fn cleanup_pairs(path: Seq<char>, source: Seq<u8>, base_line: nat, stmts: Seq<SyntaxNode>, n: int) -> Seq<
    ViolationView,
>
    decreases n,
{
    if n <= 1 || n > stmts.len() {
        Seq::empty()
    } else {
        cleanup_pairs(path, source, base_line, stmts, n - 1) + cleanup_pair_report(
            path,
            source,
            base_line,
            stmts[n - 2],
            stmts[n - 1],
        )
    }
}

/// The violations at node `n`: in a block, or in the consequence of an
/// `if`, each handle cleanup statement followed at once by setting the
/// handle to zero.
pub open spec fn handle_reports_at(path: Seq<char>, source: Seq<u8>, base_line: nat, n: SyntaxNode) -> Seq<
    ViolationView,
> {
    let body = if n.kind@ == "if_statement"@ {
        child_by_field(n.children@, "consequence"@)
    } else if n.kind@ == "compound_statement"@ {
        Some(n)
    } else {
        None
    };
    match body {
        Some(b) => {
            let stmts = expression_statements(b.children@);
            cleanup_pairs(path, source, base_line, stmts, stmts.len() as int)
        },
        None => Seq::empty(),
    }
}

/// The violations in a function's syntax tree, node by node in pre-order.
pub open spec fn handle_reports(path: Seq<char>, source: Seq<u8>, base_line: nat, tree: SyntaxNode) -> Seq<
    ViolationView,
> {
    flatten_views(preorder(tree).map_values(|n: SyntaxNode| handle_reports_at(path, source, base_line, n)))
}

/// The first node of the pre-order `ns[from..]` of kind `kind`, with where
/// it stands.
pub fn find_first_of_kind<'a>(ns: &Vec<&'a SyntaxNode>, from: usize, kind: &str) -> (r: Option<&'a SyntaxNode>)
    requires
        from <= ns@.len(),
    ensures
        r matches Some(x) ==> first_of_kind(derefs(ns@).skip(from as int), kind@) == Some(*x)
            && derefs(ns@).contains(*x),
        r is None ==> first_of_kind(derefs(ns@).skip(from as int), kind@) is None,
{
    let ghost all = derefs(ns@);
    let mut i = from;
    while i < ns.len()
        invariant
            from <= i <= ns@.len(),
            all == derefs(ns@),
            first_of_kind(all.skip(from as int), kind@) == first_of_kind(all.skip(i as int), kind@),
        decreases ns@.len() - i,
    {
        assert(all.skip(i as int).drop_first() =~= all.skip(i + 1));
        assert(all.skip(i as int)[0] == *ns@[i as int]);
        if ns[i].is_kind(kind) {
            assert(all[i as int] == *ns@[i as int]);
            return Some(ns[i]);
        }
        i = i + 1;
    }
    None
}

proof fn lemma_expression_statements_in(children: Seq<SyntaxNode>)
    ensures
        forall|k: int|
            0 <= k < expression_statements(children).len() ==> children.contains(
                #[trigger] expression_statements(children)[k],
            ),
    decreases children.len(),
{
    if children.len() > 0 {
        lemma_expression_statements_in(children.drop_last());
        let prev = expression_statements(children.drop_last());
        assert forall|k: int| 0 <= k < expression_statements(children).len() implies children.contains(
            #[trigger] expression_statements(children)[k],
        ) by {
            if k < prev.len() {
                assert(expression_statements(children)[k] == prev[k]);
                let m = choose|m: int| 0 <= m < children.drop_last().len() && #[trigger] children.drop_last()[m] == prev[k];
                assert(children[m] == prev[k]);
            } else {
                assert(children[children.len() - 1] == children.last());
            }
        }
    }
}

impl UseGClearHandleId {
    pub fn name(&self) -> (r: &'static str)
        ensures
            r@ == "use_g_clear_handle_id"@,
    {
        "use_g_clear_handle_id"
    }

    pub fn description(&self) -> (r: &'static str)
        ensures
            r@ == "Suggest g_clear_handle_id() instead of manual handle cleanup and zero assignment"@,
    {
        "Suggest g_clear_handle_id() instead of manual handle cleanup and zero assignment"
    }

    pub fn category(&self) -> (r: Category)
        ensures
            r == Category::Complexity,
    {
        Category::Complexity
    }

    pub fn fixable(&self) -> (r: bool)
        ensures
            !r,
    {
        false
    }

    /// `(handle, function)` when the first call in `node` releases a handle.
    pub fn extract_handle_cleanup(&self, node: &SyntaxNode, source: &[u8]) -> (r: Option<(String, String)>)
        requires
            fits(*node, source@.len() as int, 0, 0),
        ensures
            r matches Some((v, f)) ==> handle_cleanup(source@, *node) == Some((v@, f@)),
            r is None ==> handle_cleanup(source@, *node) is None,
    {
        let ghost len = source@.len() as int;
        let all = node.preorder();
        assert(derefs(all@).skip(0) =~= derefs(all@));
        proof {
            reveal_strlit("function");
            reveal_strlit("arguments");
        }
        proof {
            reveal_strlit("call_expression");
        }
        let call = match find_first_of_kind(&all, 0, "call_expression") {
            Some(c) => c,
            None => return None,
        };
        proof {
            lemma_fits_member(*node, *call, len, 0, 0);
        }
        let function = match call.child_by_field_name("function") {
            Some(f) => f,
            None => return None,
        };
        proof {
            lemma_fits_field_child(*call, "function"@, len, 0, 0);
            lemma_fits_field_child(*call, "arguments"@, len, 0, 0);
        }
        let func_name = function.text(source);
        let cleanups: [&str; 5] = [
            "g_source_remove",
            "g_source_destroy",
            "g_signal_handler_disconnect",
            "g_signal_handler_block",
            "g_signal_handler_unblock",
        ];
        assert(str_views(cleanups@) =~= handle_cleanups());
        if !str_in(&cleanups, func_name) {
            return None;
        }
        let args = match call.child_by_field_name("arguments") {
            Some(a) => a,
            None => return None,
        };
        let ghost cs = args.children@;
        assert(cs.skip(0) =~= cs);
        let mut i: usize = 0;
        while i < args.children.len()
            invariant
                i <= cs.len(),
                cs == args.children@,
                len == source@.len(),
                fits(*args, len, 0, 0),
                first_of_kind(preorder(*node), "call_expression"@) == Some(*call),
                child_by_field(call.children@, "function"@) == Some(*function),
                child_by_field(call.children@, "arguments"@) == Some(*args),
                func_name@ == node_text(source@, *function),
                handle_cleanups().contains(func_name@),
                first_argument(cs) == first_argument(cs.skip(i as int)),
            decreases cs.len() - i,
        {
            let c = &args.children[i];
            assert(cs.skip(i as int).drop_first() =~= cs.skip(i + 1));
            assert(cs.skip(i as int)[0] == *c);
            if !c.is_kind("(") && !c.is_kind(")") && !c.is_kind(",") {
                proof {
                    lemma_fits_child(*args, i as int, len, 0, 0);
                    lemma_fits_root(*c, len, 0, 0);
                }
                let t = trim(c.text(source));
                return Some((t, owned(func_name)));
            }
            i = i + 1;
        }
        None
    }

    /// The variable that the first assignment below `node` sets to `0`.
    pub fn extract_zero_assignment(&self, node: &SyntaxNode, source: &[u8]) -> (r: Option<String>)
        requires
            fits(*node, source@.len() as int, 0, 0),
        ensures
            r matches Some(v) ==> zero_assignment(source@, *node) == Some(v@),
            r is None ==> zero_assignment(source@, *node) is None,
    {
        let ghost len = source@.len() as int;
        let all = node.preorder();
        assert(derefs(all@).skip(1) =~= preorder_list(node.children@, 0));
        proof {
            reveal_strlit("left");
            reveal_strlit("right");
        }
        let assignment = match find_first_of_kind(&all, 1, "assignment_expression") {
            Some(a) => a,
            None => return None,
        };
        proof {
            lemma_fits_member(*node, *assignment, len, 0, 0);
            lemma_fits_field_child(*assignment, "left"@, len, 0, 0);
            lemma_fits_field_child(*assignment, "right"@, len, 0, 0);
        }
        let left = match assignment.child_by_field_name("left") {
            Some(l) => l,
            None => return None,
        };
        let right = match assignment.child_by_field_name("right") {
            Some(r) => r,
            None => return None,
        };
        let right_text = trim(right.text(source));
        if str_eq(right_text.as_str(), "0") {
            Some(trim(left.text(source)))
        } else {
            None
        }
    }

    /// The violations of the consecutive expression statements of `body`.
    pub fn check_cleanup_then_zero(&self, body: &SyntaxNode, ctx: &CheckContext) -> (r: Vec<Violation>)
        requires
            fits(*body, ctx.source@.len() as int, ctx.base_line as int, ctx.base_byte as int),
        ensures
            violation_views(r@) == cleanup_pairs(
                ctx.file_path@,
                ctx.source@,
                ctx.base_line as nat,
                expression_statements(body.children@),
                expression_statements(body.children@).len() as int,
            ),
    {
        let ghost len = ctx.source@.len() as int;
        let ghost cs = body.children@;
        let mut stmts: Vec<&SyntaxNode> = Vec::new();
        let mut i: usize = 0;
        while i < body.children.len()
            invariant
                i <= cs.len(),
                cs == body.children@,
                derefs(stmts@) == expression_statements(cs.take(i as int)),
            decreases cs.len() - i,
        {
            let c = &body.children[i];
            assert(cs.take(i + 1).drop_last() =~= cs.take(i as int));
            assert(cs.take(i + 1).last() == *c);
            if c.is_kind("expression_statement") {
                let ghost before = derefs(stmts@);
                stmts.push(c);
                assert(derefs(stmts@) =~= before.push(*c));
            } else {
                assert(expression_statements(cs.take(i + 1)) =~= expression_statements(cs.take(i as int))
                    + Seq::empty());
            }
            i = i + 1;
        }
        assert(cs.take(cs.len() as int) =~= cs);
        let ghost ss = derefs(stmts@);
        proof {
            lemma_expression_statements_in(cs);
        }
        let mut out: Vec<Violation> = Vec::new();
        let mut k: usize = 1;
        while k < stmts.len()
            invariant
                1 <= k,
                k <= stmts@.len() || stmts@.len() == 0,
                ss == derefs(stmts@),
                ss == expression_statements(cs),
                cs == body.children@,
                fits(*body, len, ctx.base_line as int, ctx.base_byte as int),
                len == ctx.source@.len(),
                forall|j: int| 0 <= j < ss.len() ==> cs.contains(#[trigger] ss[j]),
                violation_views(out@) == cleanup_pairs(
                    ctx.file_path@,
                    ctx.source@,
                    ctx.base_line as nat,
                    ss,
                    k as int,
                ),
            decreases stmts@.len() - k,
        {
            let first: &SyntaxNode = stmts[k - 1];
            let second: &SyntaxNode = stmts[k];
            proof {
                assert(cs.contains(ss[k - 1]));
                assert(cs.contains(ss[k as int]));
                let m1 = choose|m: int| 0 <= m < cs.len() && #[trigger] cs[m] == ss[k - 1];
                let m2 = choose|m: int| 0 <= m < cs.len() && #[trigger] cs[m] == ss[k as int];
                lemma_fits_child(*body, m1, len, ctx.base_line as int, ctx.base_byte as int);
                lemma_fits_child(*body, m2, len, ctx.base_line as int, ctx.base_byte as int);
                lemma_fits_root(*first, len, ctx.base_line as int, ctx.base_byte as int);
                crate::syntax::lemma_fits_loosen(*first, len, ctx.base_line as int, ctx.base_byte as int);
                crate::syntax::lemma_fits_loosen(*second, len, ctx.base_line as int, ctx.base_byte as int);
            }
            let ghost before = violation_views(out@);
            if let Some((var_name, cleanup_func)) = self.extract_handle_cleanup(first, ctx.source) {
                if let Some(assign_var) = self.extract_zero_assignment(second, ctx.source) {
                    let a = trim(assign_var.as_str());
                    let b = trim(var_name.as_str());
                    if str_eq(a.as_str(), b.as_str()) {
                        let mut message = concat3("Use g_clear_handle_id(&", var_name.as_str(), ", ");
                        push_str(&mut message, cleanup_func.as_str());
                        push_str(&mut message, ") instead of ");
                        push_str(&mut message, cleanup_func.as_str());
                        push_str(&mut message, " and zero assignment");
                        let v = Violation::new(
                            ctx.file_path,
                            ctx.base_line + first.start_row,
                            first.start_column + 1,
                            "use_g_clear_handle_id",
                            message,
                            Vec::new(),
                        );
                        out.push(v);
                        assert(violation_views(out@) =~= before.push(v@));
                    }
                }
            }
            assert(violation_views(out@) =~= cleanup_pairs(
                ctx.file_path@,
                ctx.source@,
                ctx.base_line as nat,
                ss,
                k + 1,
            ));
            k = k + 1;
        }
        proof {
            if ss.len() == 0 {
                assert(cleanup_pairs(ctx.file_path@, ctx.source@, ctx.base_line as nat, ss, 0) =~= Seq::empty());
            }
        }
        out
    }

    /// The violations at one node.
    pub fn check_node(&self, node: &SyntaxNode, ctx: &CheckContext) -> (r: Vec<Violation>)
        requires
            fits(*node, ctx.source@.len() as int, ctx.base_line as int, ctx.base_byte as int),
        ensures
            violation_views(r@) == handle_reports_at(ctx.file_path@, ctx.source@, ctx.base_line as nat, *node),
    {
        proof {
            reveal_strlit("consequence");
            lemma_fits_field_child(*node, "consequence"@, ctx.source@.len() as int, ctx.base_line as int, ctx.base_byte as int);
        }
        let body: &SyntaxNode = if node.is_kind("if_statement") {
            match node.child_by_field_name("consequence") {
                Some(b) => b,
                None => {
                    let out: Vec<Violation> = Vec::new();
                    assert(violation_views(out@) =~= Seq::<ViolationView>::empty());
                    return out;
                },
            }
        } else if node.is_kind("compound_statement") {
            node
        } else {
            let out: Vec<Violation> = Vec::new();
            assert(violation_views(out@) =~= Seq::<ViolationView>::empty());
            return out;
        };
        self.check_cleanup_then_zero(body, ctx)
    }

    /// The violations in the syntax tree of a function, node by node in
    /// pre-order.
    pub fn check_tree(&self, tree: &SyntaxNode, ctx: &CheckContext) -> (r: Vec<Violation>)
        requires
            fits(*tree, ctx.source@.len() as int, ctx.base_line as int, ctx.base_byte as int),
        ensures
            violation_views(r@) == handle_reports(ctx.file_path@, ctx.source@, ctx.base_line as nat, *tree),
    {
        let nodes = tree.preorder();
        let check = |n: &SyntaxNode| -> (r: Vec<Violation>)
            requires
                preorder_ref(tree).contains(*n),
                fits_ref(tree, ctx.source@.len() as int, ctx.base_line as int, ctx.base_byte as int),
            ensures
                violation_views(r@) == handle_reports_at(ctx.file_path@, ctx.source@, ctx.base_line as nat, *n),
            {
                proof {
                    lemma_fits_member_ref(tree, *n, ctx.source@.len() as int, ctx.base_line as int, ctx.base_byte as int);
                }
                let found = self.check_node(n, ctx);
                found
            };
        let ghost per = |n: SyntaxNode| handle_reports_at(ctx.file_path@, ctx.source@, ctx.base_line as nat, n);
        let r = collect_node_report_lists(&nodes, check, Ghost(per));
        assert(derefs(nodes@).map_values(per) =~= preorder(*tree).map_values(
            |n: SyntaxNode| handle_reports_at(ctx.file_path@, ctx.source@, ctx.base_line as nat, n),
        ));
        r
    }

    /// Reports, in the function definitions of the `.c` files (each parsed
    /// on its own), each handle cleanup call followed at once by setting the
    /// handle to zero. What was reported before stays in place.
    pub fn check_all(&self, ast_context: &AstContext, config: &Config, violations: &mut Vec<Violation>)
        ensures
            exists|trees: Seq<Seq<Option<SyntaxNode>>>|
                violation_views(final(violations)@) == violation_views(old(violations)@)
                    + files_tree_reports(
                    c_files(*ast_context),
                    trees,
                    handle_check(),
                    c_files(*ast_context).len() as int,
                ),
    {
        let files = ast_context.iter_c_files();
        let check = |tree: &SyntaxNode, ctx: &CheckContext| -> (r: Vec<Violation>)
            requires
                fits(*tree, ctx.source@.len() as int, ctx.base_line as int, ctx.base_byte as int),
            ensures
                violation_views(r@) == handle_reports(ctx.file_path@, ctx.source@, ctx.base_line as nat, *tree),
            {
                let found = self.check_tree(tree, ctx);
                found
            };
        check_definition_trees(&files, check, Ghost(handle_check()), violations);
    }
}

/// What this rule reports on the syntax tree of one function definition.
pub open spec fn handle_check() -> TreeCheck {
    |path: Seq<char>, source: Seq<u8>, line: nat, byte: nat, tree: SyntaxNode|
        handle_reports(path, source, line, tree)
}

} // verus!
