//! Suggests `g_clear_signal_handler ()` in place of
//! `g_signal_handler_disconnect ()` followed by zeroing the handler id, of the
//! same under an `if` that tests the id, and of a bare disconnect of an id
//! kept in a struct member.

use vstd::prelude::*;

use crate::context::{c_files, AstContext};
use crate::model::expression::derefs;
use crate::rules::tree_match::{
    arguments_of, call_arguments, children_except, children_without, lemma_fits_children_except,
    punctuation,
};
use crate::rules::use_g_clear_handle_id::{find_first_of_kind, first_of_kind};
use crate::rules::{
    check_definition_trees, files_tree_reports, TreeCheck, fix_at, node_fix, report, violation_views, CheckContext, Category,
    Config, Fix, Violation, ViolationView,
};
use crate::syntax::{
    child_by_field, fits, lemma_fits_child, lemma_fits_field_child, lemma_fits_loosen,
    lemma_fits_member, lemma_fits_root, node_text, preorder, SyntaxNode,
};
use crate::text::{
    chars_of, concat3, contains_str, has_substring, head_before, owned, push_str, split_head,
    str_eq, str_in, str_views, string_from_chars, trim, trim_spec,
};

verus! {

pub struct UseGClearSignalHandler;

/// The children of a block that are not statements.
pub open spec fn block_skip() -> Seq<Seq<char>> {
    seq!["{"@, "}"@, "comment"@]
}

/// The parentheses around a condition.
pub open spec fn paren_skip() -> Seq<Seq<char>> {
    seq!["("@, ")"@]
}

/// `n` is a statement of the block it stands in.
pub open spec fn is_block_statement(n: SyntaxNode) -> bool {
    !block_skip().contains(n.kind@)
}

/// `(object, handler id)` when the statement `s` calls
/// `g_signal_handler_disconnect (object, id)`.
pub open spec fn disconnect_args(source: Seq<u8>, s: SyntaxNode) -> Option<(Seq<char>, Seq<char>)> {
    if s.kind@ != "expression_statement"@ {
        None
    } else {
        match first_of_kind(preorder(s), "call_expression"@) {
            Some(call) => match child_by_field(call.children@, "function"@) {
                Some(f) => if node_text(source, f) != "g_signal_handler_disconnect"@ {
                    None
                } else {
                    match child_by_field(call.children@, "arguments"@) {
                        Some(a) => if call_arguments(a).len() == 2 {
                            Some(
                                (
                                    node_text(source, call_arguments(a)[0]),
                                    node_text(source, call_arguments(a)[1]),
                                ),
                            )
                        } else {
                            None
                        },
                        None => None,
                    }
                },
                None => None,
            },
            None => None,
        }
    }
}

/// The statement `s` is `id = 0;`.
pub open spec fn is_zero_assign(source: Seq<u8>, s: SyntaxNode, id: Seq<char>) -> bool {
    &&& s.kind@ == "expression_statement"@
    &&& first_of_kind(s.children@, "assignment_expression"@) matches Some(a)
    &&& child_by_field(a.children@, "left"@) matches Some(l)
    &&& child_by_field(a.children@, "right"@) matches Some(r)
    &&& node_text(source, l) == id
    &&& node_text(source, r) == "0"@
}

/// The handler id that the condition `c` tests, when it means that the id
/// is set: `(id)`, `(id != 0)`, `(0 != id)`, `(id > 0)` or `(0 < id)`.
pub open spec fn condition_id(source: Seq<u8>, c: SyntaxNode) -> Option<Seq<char>> {
    let inner = children_except(c.children@, paren_skip());
    if c.kind@ != "parenthesized_expression"@ || inner.len() == 0 {
        None
    } else if inner[0].kind@ == "binary_expression"@ {
        match (
            child_by_field(inner[0].children@, "operator"@),
            child_by_field(inner[0].children@, "left"@),
            child_by_field(inner[0].children@, "right"@),
        ) {
            (Some(o), Some(l), Some(r)) => {
                let op = node_text(source, o);
                let lt = node_text(source, l);
                let rt = node_text(source, r);
                if op == "!="@ {
                    if rt == "0"@ {
                        Some(lt)
                    } else if lt == "0"@ {
                        Some(rt)
                    } else {
                        None
                    }
                } else if op == ">"@ {
                    if rt == "0"@ {
                        Some(lt)
                    } else {
                        None
                    }
                } else if op == "<"@ {
                    if lt == "0"@ {
                        Some(rt)
                    } else {
                        None
                    }
                } else {
                    None
                }
            },
            _ => None,
        }
    } else {
        Some(node_text(source, inner[0]))
    }
}

/// The call that replaces the disconnection of `id` from `object`.
pub open spec fn clear_call_text(id: Seq<char>, object: Seq<char>) -> Seq<char> {
    "g_clear_signal_handler (&"@ + id + ", "@ + object + ");"@
}

/// The violation for `if (id) { g_signal_handler_disconnect (obj, id); id = 0; }`
/// (with no `else`), which the call replaces whole.
pub open spec fn guarded_report(path: Seq<char>, source: Seq<u8>, base_line: nat, base_byte: nat, s: SyntaxNode) -> Option<
    ViolationView,
> {
    if s.kind@ != "if_statement"@ || child_by_field(s.children@, "alternative"@) is Some {
        None
    } else {
        match (child_by_field(s.children@, "condition"@), child_by_field(s.children@, "consequence"@)) {
            (Some(c), Some(q)) => {
                let st = children_except(q.children@, block_skip());
                match (condition_id(source, c), disconnect_args(source, st[0])) {
                    (Some(g), Some((obj, id))) => if q.kind@ == "compound_statement"@ && st.len() == 2
                        && id == g && is_zero_assign(source, st[1], id) {
                        Some(
                            report(
                                path,
                                (base_line + s.start_row) as nat,
                                (s.start_column + 1) as nat,
                                "use_g_clear_signal_handler"@,
                                "Use "@ + clear_call_text(id, obj)
                                    + " instead of if-guarded g_signal_handler_disconnect"@,
                                seq![node_fix(base_byte, s, clear_call_text(id, obj))],
                            ),
                        )
                    } else {
                        None
                    },
                    _ => None,
                }
            },
            _ => None,
        }
    }
}

/// The violation for `g_signal_handler_disconnect (obj, id);` followed by
/// `id = 0;`; the call replaces both.
pub open spec fn pair_report(
    path: Seq<char>,
    source: Seq<u8>,
    base_line: nat,
    base_byte: nat,
    s1: SyntaxNode,
    s2: SyntaxNode,
) -> Option<ViolationView> {
    match disconnect_args(source, s1) {
        Some((obj, id)) => if is_zero_assign(source, s2, id) {
            Some(
                report(
                    path,
                    (base_line + s1.start_row) as nat,
                    (s1.start_column + 1) as nat,
                    "use_g_clear_signal_handler"@,
                    "Use "@ + clear_call_text(id, obj)
                        + " instead of g_signal_handler_disconnect and zeroing the ID"@,
                    seq![
                        fix_at(
                            (base_byte + s1.start_byte) as nat,
                            (base_byte + s2.end_byte) as nat,
                            clear_call_text(id, obj),
                        ),
                    ],
                ),
            )
        } else {
            None
        },
        None => None,
    }
}

/// A function of this name releases what it is given.
pub open spec fn releases(name: Seq<char>) -> bool {
    has_substring(name, "free"@) || has_substring(name, "unref"@) || has_substring(name, "destroy"@)
        || has_substring(name, "clear"@)
}

/// An argument written `t` passes `target`, or its address.
pub open spec fn names_target(t: Seq<char>, target: Seq<char>) -> bool {
    t == target || (t.len() > 0 && t[0] == '&' && t.drop_first() == target)
}

/// The statement `s` calls a releasing function with `target` (or
/// `&target`) among its arguments.
pub open spec fn frees(source: Seq<u8>, s: SyntaxNode, target: Seq<char>) -> bool {
    &&& s.kind@ == "expression_statement"@
    &&& first_of_kind(preorder(s), "call_expression"@) matches Some(call)
    &&& child_by_field(call.children@, "function"@) matches Some(f)
    &&& releases(node_text(source, f))
    &&& child_by_field(call.children@, "arguments"@) matches Some(a)
    &&& exists|k: int|
        0 <= k < call_arguments(a).len() && names_target(
            node_text(source, #[trigger] call_arguments(a)[k]),
            target,
        )
}

/// One of `stmts` releases `target`.
pub open spec fn freed_in(source: Seq<u8>, stmts: Seq<SyntaxNode>, target: Seq<char>) -> bool {
    exists|k: int| 0 <= k < stmts.len() && #[trigger] frees(source, stmts[k], target)
}

/// The violation for a bare `g_signal_handler_disconnect (obj, p->id);` of a
/// handler id kept in a struct member, unless the block `all` releases the
/// struct or the object.
pub open spec fn bare_report(
    path: Seq<char>,
    source: Seq<u8>,
    base_line: nat,
    base_byte: nat,
    s: SyntaxNode,
    all: Seq<SyntaxNode>,
) -> Option<ViolationView> {
    match disconnect_args(source, s) {
        Some((obj, id)) => {
            let base = trim_spec(split_head(id, "->"@));
            if !has_substring(id, "->"@) || base.len() == 0 || freed_in(source, all, base) || freed_in(
                source,
                all,
                obj,
            ) {
                None
            } else {
                Some(
                    report(
                        path,
                        (base_line + s.start_row) as nat,
                        (s.start_column + 1) as nat,
                        "use_g_clear_signal_handler"@,
                        "Use "@ + clear_call_text(id, obj)
                            + " instead of g_signal_handler_disconnect (also zeroes the stored ID)"@,
                        seq![node_fix(base_byte, s, clear_call_text(id, obj))],
                    ),
                )
            }
        },
        None => None,
    }
}

/// The position of the first statement of `cs` at or after `i`, or the
/// length of `cs`.
pub open spec fn next_statement(cs: Seq<SyntaxNode>, i: int) -> int
    decreases cs.len() - i,
{
    if i < 0 || i >= cs.len() {
        cs.len() as int
    } else if is_block_statement(cs[i]) {
        i
    } else {
        next_statement(cs, i + 1)
    }
}

/// The next statement lies between `i` and the end.
pub proof fn lemma_next_statement_bounds(cs: Seq<SyntaxNode>, i: int)
    requires
        0 <= i <= cs.len(),
    ensures
        i <= next_statement(cs, i) <= cs.len(),
    decreases cs.len() - i,
{
    if i < cs.len() && !is_block_statement(cs[i]) {
        lemma_next_statement_bounds(cs, i + 1);
    }
}

/// The violations of the subtree of `n`: a block is scanned statement by
/// statement; any other node passes the scan on to its children.
pub open spec fn signal_reports(path: Seq<char>, source: Seq<u8>, base_line: nat, base_byte: nat, n: SyntaxNode) -> Seq<
    ViolationView,
>
    decreases n, 1int,
{
    if n.kind@ == "compound_statement"@ {
        block_reports(path, source, base_line, base_byte, n.children@, 0)
    } else {
        list_reports(path, source, base_line, base_byte, n.children@, 0)
    }
}

/// The violations of the subtrees of `cs[i..]`, one after the other.
pub open spec fn list_reports(
    path: Seq<char>,
    source: Seq<u8>,
    base_line: nat,
    base_byte: nat,
    cs: Seq<SyntaxNode>,
    i: int,
) -> Seq<ViolationView>
    decreases cs, 0int, cs.len() - i,
{
    if 0 <= i < cs.len() {
        signal_reports(path, source, base_line, base_byte, cs[i]) + list_reports(
            path,
            source,
            base_line,
            base_byte,
            cs,
            i + 1,
        )
    } else {
        Seq::empty()
    }
}

/// The scan of a block's children from `cs[i]`: a statement is an if-guarded
/// disconnect, or with the next statement a disconnect then zeroing (both are
/// then passed over), or a bare disconnect of a member; otherwise its own
/// subtree is scanned.
pub open spec fn block_reports(
    path: Seq<char>,
    source: Seq<u8>,
    base_line: nat,
    base_byte: nat,
    cs: Seq<SyntaxNode>,
    i: int,
) -> Seq<ViolationView>
    decreases cs, 0int, cs.len() - i,
{
    if i < 0 || i >= cs.len() {
        Seq::empty()
    } else if !is_block_statement(cs[i]) {
        block_reports(path, source, base_line, base_byte, cs, i + 1)
    } else {
        match guarded_report(path, source, base_line, base_byte, cs[i]) {
            Some(v) => seq![v] + block_reports(path, source, base_line, base_byte, cs, i + 1),
            None => {
                let j = next_statement(cs, i + 1);
                proof {
                    lemma_next_statement_bounds(cs, i + 1);
                }
                match if j < cs.len() {
                    pair_report(path, source, base_line, base_byte, cs[i], cs[j])
                } else {
                    None
                } {
                    Some(v) => seq![v] + block_reports(path, source, base_line, base_byte, cs, j + 1),
                    None => match bare_report(
                        path,
                        source,
                        base_line,
                        base_byte,
                        cs[i],
                        children_except(cs, block_skip()),
                    ) {
                        Some(v) => seq![v] + block_reports(path, source, base_line, base_byte, cs, i + 1),
                        None => signal_reports(path, source, base_line, base_byte, cs[i])
                            + block_reports(path, source, base_line, base_byte, cs, i + 1),
                    },
                }
            },
        }
    }
}

/// The call that replaces the disconnection of `id` from `object`.
fn clear_call(id: &str, object: &str) -> (r: String)
    ensures
        r@ == clear_call_text(id@, object@),
{
    let mut s = concat3("g_clear_signal_handler (&", id, ", ");
    push_str(&mut s, object);
    push_str(&mut s, ");");
    s
}

/// The first child of `n` of kind `kind`.
fn first_child_of_kind<'a>(n: &'a SyntaxNode, kind: &str) -> (r: Option<&'a SyntaxNode>)
    ensures
        r matches Some(x) ==> first_of_kind(n.children@, kind@) == Some(*x) && exists|k: int|
            0 <= k < n.children@.len() && n.children@[k] == *x,
        r is None ==> first_of_kind(n.children@, kind@) is None,
{
    let ghost cs = n.children@;
    let mut i: usize = 0;
    assert(cs.skip(0) =~= cs);
    while i < n.children.len()
        invariant
            i <= cs.len(),
            cs == n.children@,
            first_of_kind(cs, kind@) == first_of_kind(cs.skip(i as int), kind@),
        decreases cs.len() - i,
    {
        assert(cs.skip(i as int).drop_first() =~= cs.skip(i + 1));
        assert(cs.skip(i as int)[0] == cs[i as int]);
        if n.children[i].is_kind(kind) {
            return Some(&n.children[i]);
        }
        i = i + 1;
    }
    None
}

/// Whether `n` is a statement of the block it stands in.
fn block_statement(n: &SyntaxNode) -> (r: bool)
    ensures
        r == is_block_statement(*n),
{
    let skip: [&str; 3] = ["{", "}", "comment"];
    proof {
        reveal_strlit("{");
        reveal_strlit("}");
        reveal_strlit("comment");
    }
    assert(str_views(skip@) =~= block_skip());
    !str_in(&skip, n.kind.as_str())
}

/// Whether the function `name` releases what it is given.
fn releasing(name: &str) -> (r: bool)
    ensures
        r == releases(name@),
{
    contains_str(name, "free") || contains_str(name, "unref") || contains_str(name, "destroy")
        || contains_str(name, "clear")
}

/// Whether the argument text `t` passes `target` or its address.
fn passes_target(t: &str, target: &str) -> (r: bool)
    ensures
        r == names_target(t@, target@),
{
    if str_eq(t, target) {
        return true;
    }
    let cs = chars_of(t);
    if cs.len() == 0 || cs[0] != '&' {
        return false;
    }
    let mut rest: Vec<char> = Vec::new();
    let mut i: usize = 1;
    while i < cs.len()
        invariant
            1 <= i <= cs@.len(),
            rest@ == cs@.subrange(1, i as int),
        decreases cs@.len() - i,
    {
        rest.push(cs[i]);
        i = i + 1;
        assert(rest@ =~= cs@.subrange(1, i as int));
    }
    assert(cs@.drop_first() =~= cs@.subrange(1, cs@.len() as int));
    let r = string_from_chars(rest.as_slice());
    str_eq(r.as_str(), target)
}

impl UseGClearSignalHandler {
    pub fn name(&self) -> (r: &'static str)
        ensures
            r@ == "use_g_clear_signal_handler"@,
    {
        "use_g_clear_signal_handler"
    }

    pub fn description(&self) -> (r: &'static str)
        ensures
            r@ == "Use g_clear_signal_handler() instead of g_signal_handler_disconnect() and zeroing the ID"@,
    {
        "Use g_clear_signal_handler() instead of g_signal_handler_disconnect() and zeroing the ID"
    }

    pub fn category(&self) -> (r: Category)
        ensures
            r == Category::Complexity,
    {
        Category::Complexity
    }

    pub fn fixable(&self) -> (r: bool)
        ensures
            r,
    {
        true
    }

    /// `(object, handler id)` when `stmt` calls
    /// `g_signal_handler_disconnect (object, id)`.
    pub fn extract_disconnect_args(&self, stmt: &SyntaxNode, source: &[u8]) -> (r: Option<(String, String)>)
        requires
            fits(*stmt, source@.len() as int, 0, 0),
        ensures
            r matches Some((o, i)) ==> disconnect_args(source@, *stmt) == Some((o@, i@)),
            r is None ==> disconnect_args(source@, *stmt) is None,
    {
        let ghost len = source@.len() as int;
        if !stmt.is_kind("expression_statement") {
            return None;
        }
        let all = stmt.preorder();
        assert(derefs(all@).skip(0) =~= derefs(all@));
        proof {
            reveal_strlit("function");
            reveal_strlit("arguments");
            reveal_strlit("call_expression");
        }
        let call = match find_first_of_kind(&all, 0, "call_expression") {
            Some(c) => c,
            None => return None,
        };
        proof {
            lemma_fits_member(*stmt, *call, len, 0, 0);
            lemma_fits_field_child(*call, "function"@, len, 0, 0);
            lemma_fits_field_child(*call, "arguments"@, len, 0, 0);
        }
        let function = match call.child_by_field_name("function") {
            Some(f) => f,
            None => return None,
        };
        if !str_eq(function.text(source), "g_signal_handler_disconnect") {
            return None;
        }
        let args = match call.child_by_field_name("arguments") {
            Some(a) => a,
            None => return None,
        };
        let arguments = arguments_of(args);
        if arguments.len() != 2 {
            return None;
        }
        proof {
            lemma_fits_children_except(*args, punctuation(), len, 0, 0);
            assert(derefs(arguments@)[0] == *arguments@[0]);
            assert(derefs(arguments@)[1] == *arguments@[1]);
        }
        Some((owned(arguments[0].text(source)), owned(arguments[1].text(source))))
    }

    /// Whether `stmt` is `expected_id = 0;`.
    pub fn is_zero_assign(&self, stmt: &SyntaxNode, expected_id: &str, source: &[u8]) -> (r: bool)
        requires
            fits(*stmt, source@.len() as int, 0, 0),
        ensures
            r == is_zero_assign(source@, *stmt, expected_id@),
    {
        let ghost len = source@.len() as int;
        if !stmt.is_kind("expression_statement") {
            return false;
        }
        let assignment = first_child_of_kind(stmt, "assignment_expression");
        proof {
            reveal_strlit("assignment_expression");
        }
        let a = match assignment {
            Some(a) => a,
            None => return false,
        };
        proof {
            let k = choose|k: int| 0 <= k < stmt.children@.len() && stmt.children@[k] == *a;
            lemma_fits_child(*stmt, k, len, 0, 0);
            reveal_strlit("left");
            reveal_strlit("right");
            lemma_fits_field_child(*a, "left"@, len, 0, 0);
            lemma_fits_field_child(*a, "right"@, len, 0, 0);
        }
        let left = match a.child_by_field_name("left") {
            Some(l) => l,
            None => return false,
        };
        let right = match a.child_by_field_name("right") {
            Some(r) => r,
            None => return false,
        };
        str_eq(left.text(source), expected_id) && str_eq(right.text(source), "0")
    }

    /// The handler id that the condition `condition` tests (see
    /// `condition_id`).
    pub fn extract_id_from_condition(&self, condition: &SyntaxNode, source: &[u8]) -> (r: Option<String>)
        requires
            fits(*condition, source@.len() as int, 0, 0),
        ensures
            r matches Some(i) ==> condition_id(source@, *condition) == Some(i@),
            r is None ==> condition_id(source@, *condition) is None,
    {
        let ghost len = source@.len() as int;
        if !condition.is_kind("parenthesized_expression") {
            return None;
        }
        let skip: [&str; 2] = ["(", ")"];
        proof {
            reveal_strlit("(");
            reveal_strlit(")");
        }
        assert(str_views(skip@) =~= paren_skip());
        let inner_nodes = children_without(condition, &skip);
        if inner_nodes.len() == 0 {
            return None;
        }
        let inner: &SyntaxNode = inner_nodes[0];
        proof {
            lemma_fits_children_except(*condition, paren_skip(), len, 0, 0);
            assert(derefs(inner_nodes@)[0] == *inner);
        }
        if !inner.is_kind("binary_expression") {
            return Some(owned(inner.text(source)));
        }
        proof {
            reveal_strlit("operator");
            reveal_strlit("left");
            reveal_strlit("right");
            lemma_fits_field_child(*inner, "operator"@, len, 0, 0);
            lemma_fits_field_child(*inner, "left"@, len, 0, 0);
            lemma_fits_field_child(*inner, "right"@, len, 0, 0);
        }
        let (o, l, r) = match (
            inner.child_by_field_name("operator"),
            inner.child_by_field_name("left"),
            inner.child_by_field_name("right"),
        ) {
            (Some(o), Some(l), Some(r)) => (o, l, r),
            _ => return None,
        };
        let op = o.text(source);
        let lt = l.text(source);
        let rt = r.text(source);
        if str_eq(op, "!=") {
            if str_eq(rt, "0") {
                Some(owned(lt))
            } else if str_eq(lt, "0") {
                Some(owned(rt))
            } else {
                None
            }
        } else if str_eq(op, ">") {
            if str_eq(rt, "0") {
                Some(owned(lt))
            } else {
                None
            }
        } else if str_eq(op, "<") {
            if str_eq(lt, "0") {
                Some(owned(rt))
            } else {
                None
            }
        } else {
            None
        }
    }

    /// The violation for an if-guarded disconnect (see `guarded_report`).
    pub fn try_if_guarded(&self, if_node: &SyntaxNode, ctx: &CheckContext) -> (r: Option<Violation>)
        requires
            fits(*if_node, ctx.source@.len() as int, ctx.base_line as int, ctx.base_byte as int),
        ensures
            crate::rules::opt_view(r) == guarded_report(
                ctx.file_path@,
                ctx.source@,
                ctx.base_line as nat,
                ctx.base_byte as nat,
                *if_node,
            ),
    {
        let ghost len = ctx.source@.len() as int;
        let source = ctx.source;
        proof {
            lemma_fits_loosen(*if_node, len, ctx.base_line as int, ctx.base_byte as int);
            lemma_fits_root(*if_node, len, ctx.base_line as int, ctx.base_byte as int);
            reveal_strlit("alternative");
            reveal_strlit("condition");
            reveal_strlit("consequence");
            lemma_fits_field_child(*if_node, "condition"@, len, 0, 0);
            lemma_fits_field_child(*if_node, "consequence"@, len, 0, 0);
        }
        if !if_node.is_kind("if_statement") {
            return None;
        }
        if if_node.child_by_field_name("alternative").is_some() {
            return None;
        }
        let condition = match if_node.child_by_field_name("condition") {
            Some(c) => c,
            None => return None,
        };
        let consequence = match if_node.child_by_field_name("consequence") {
            Some(q) => q,
            None => return None,
        };
        let skip: [&str; 3] = ["{", "}", "comment"];
        proof {
            reveal_strlit("{");
            reveal_strlit("}");
            reveal_strlit("comment");
        }
        assert(str_views(skip@) =~= block_skip());
        let stmts = children_without(consequence, &skip);
        let guarded_id = match self.extract_id_from_condition(condition, source) {
            Some(g) => g,
            None => return None,
        };
        if !consequence.is_kind("compound_statement") || stmts.len() != 2 {
            return None;
        }
        proof {
            lemma_fits_children_except(*consequence, block_skip(), len, 0, 0);
            assert(derefs(stmts@)[0] == *stmts@[0]);
            assert(derefs(stmts@)[1] == *stmts@[1]);
        }
        let (obj, handler_id) = match self.extract_disconnect_args(stmts[0], source) {
            Some(p) => p,
            None => return None,
        };
        if !str_eq(handler_id.as_str(), guarded_id.as_str()) {
            return None;
        }
        if !self.is_zero_assign(stmts[1], handler_id.as_str(), source) {
            return None;
        }
        let replacement = clear_call(handler_id.as_str(), obj.as_str());
        let mut message = concat3("Use ", replacement.as_str(), " instead of if-guarded g_signal_handler_disconnect");
        let fix = Fix::from_node(if_node, ctx, replacement);
        let mut fixes: Vec<Fix> = Vec::new();
        fixes.push(fix);
        assert(crate::rules::fix_views(fixes@) =~= seq![fixes@[0]@]);
        proof {
            reveal_strlit("use_g_clear_signal_handler");
        }
        Some(Violation::new(
            ctx.file_path,
            ctx.base_line + if_node.start_row,
            if_node.start_column + 1,
            "use_g_clear_signal_handler",
            message,
            fixes,
        ))
    }

    /// The violation for a disconnect followed by zeroing the id (see
    /// `pair_report`).
    pub fn try_disconnect_then_zero(&self, s1: &SyntaxNode, s2: &SyntaxNode, ctx: &CheckContext) -> (r: Option<
        Violation,
    >)
        requires
            fits(*s1, ctx.source@.len() as int, ctx.base_line as int, ctx.base_byte as int),
            fits(*s2, ctx.source@.len() as int, ctx.base_line as int, ctx.base_byte as int),
        ensures
            crate::rules::opt_view(r) == pair_report(
                ctx.file_path@,
                ctx.source@,
                ctx.base_line as nat,
                ctx.base_byte as nat,
                *s1,
                *s2,
            ),
    {
        let ghost len = ctx.source@.len() as int;
        proof {
            lemma_fits_loosen(*s1, len, ctx.base_line as int, ctx.base_byte as int);
            lemma_fits_loosen(*s2, len, ctx.base_line as int, ctx.base_byte as int);
            lemma_fits_root(*s1, len, ctx.base_line as int, ctx.base_byte as int);
            lemma_fits_root(*s2, len, ctx.base_line as int, ctx.base_byte as int);
        }
        let (obj, handler_id) = match self.extract_disconnect_args(s1, ctx.source) {
            Some(p) => p,
            None => return None,
        };
        if !self.is_zero_assign(s2, handler_id.as_str(), ctx.source) {
            return None;
        }
        let replacement = clear_call(handler_id.as_str(), obj.as_str());
        let message = concat3(
            "Use ",
            replacement.as_str(),
            " instead of g_signal_handler_disconnect and zeroing the ID",
        );
        let fix = Fix::new(ctx.base_byte + s1.start_byte, ctx.base_byte + s2.end_byte, replacement);
        let mut fixes: Vec<Fix> = Vec::new();
        fixes.push(fix);
        assert(crate::rules::fix_views(fixes@) =~= seq![fixes@[0]@]);
        proof {
            reveal_strlit("use_g_clear_signal_handler");
        }
        Some(Violation::new(
            ctx.file_path,
            ctx.base_line + s1.start_row,
            s1.start_column + 1,
            "use_g_clear_signal_handler",
            message,
            fixes,
        ))
    }

    /// Whether one of `stmts` releases `target` (see `freed_in`).
    pub fn is_freed_in_stmts(&self, stmts: &Vec<&SyntaxNode>, target: &str, source: &[u8]) -> (r: bool)
        requires
            forall|k: int| 0 <= k < stmts@.len() ==> fits(*#[trigger] stmts@[k], source@.len() as int, 0, 0),
        ensures
            r == freed_in(source@, derefs(stmts@), target@),
    {
        let ghost len = source@.len() as int;
        let ghost ss = derefs(stmts@);
        let mut i: usize = 0;
        while i < stmts.len()
            invariant
                i <= stmts@.len(),
                ss == derefs(stmts@),
                len == source@.len(),
                forall|k: int| 0 <= k < stmts@.len() ==> fits(*#[trigger] stmts@[k], len, 0, 0),
                forall|k: int| 0 <= k < i ==> !frees(source@, #[trigger] ss[k], target@),
            decreases stmts@.len() - i,
        {
            let stmt: &SyntaxNode = stmts[i];
            assert(ss[i as int] == *stmt);
            if self.frees(stmt, target, source) {
                return true;
            }
            i = i + 1;
        }
        false
    }

    /// Whether the statement `stmt` releases `target` (see `frees`).
    fn frees(&self, stmt: &SyntaxNode, target: &str, source: &[u8]) -> (r: bool)
        requires
            fits(*stmt, source@.len() as int, 0, 0),
        ensures
            r == frees(source@, *stmt, target@),
    {
        let ghost len = source@.len() as int;
        if !stmt.is_kind("expression_statement") {
            return false;
        }
        let all = stmt.preorder();
        assert(derefs(all@).skip(0) =~= derefs(all@));
        proof {
            reveal_strlit("function");
            reveal_strlit("arguments");
            reveal_strlit("call_expression");
        }
        let call = match find_first_of_kind(&all, 0, "call_expression") {
            Some(c) => c,
            None => return false,
        };
        proof {
            lemma_fits_member(*stmt, *call, len, 0, 0);
            lemma_fits_field_child(*call, "function"@, len, 0, 0);
            lemma_fits_field_child(*call, "arguments"@, len, 0, 0);
        }
        let function = match call.child_by_field_name("function") {
            Some(f) => f,
            None => return false,
        };
        if !releasing(function.text(source)) {
            return false;
        }
        let args = match call.child_by_field_name("arguments") {
            Some(a) => a,
            None => return false,
        };
        let arguments = arguments_of(args);
        let ghost xs = call_arguments(*args);
        proof {
            lemma_fits_children_except(*args, punctuation(), len, 0, 0);
        }
        let mut k: usize = 0;
        while k < arguments.len()
            invariant
                k <= arguments@.len(),
                derefs(arguments@) == xs,
                xs == call_arguments(*args),
                len == source@.len(),
                stmt.kind@ == "expression_statement"@,
                first_of_kind(preorder(*stmt), "call_expression"@) == Some(*call),
                child_by_field(call.children@, "function"@) == Some(*function),
                releases(node_text(source@, *function)),
                child_by_field(call.children@, "arguments"@) == Some(*args),
                forall|j: int| 0 <= j < xs.len() ==> fits(#[trigger] xs[j], len, 0, 0) && crate::syntax::node_fits(
                    xs[j],
                    len,
                    0,
                    0,
                ),
                forall|j: int| 0 <= j < k ==> !names_target(node_text(source@, #[trigger] xs[j]), target@),
            decreases arguments@.len() - k,
        {
            assert(xs[k as int] == *arguments@[k as int]);
            if passes_target(arguments[k].text(source), target) {
                assert(names_target(node_text(source@, call_arguments(*args)[k as int]), target@));
                return true;
            }
            k = k + 1;
        }
        false
    }

    /// The violation for a bare disconnect of a member-held id (see
    /// `bare_report`); `all` are the statements of the enclosing block.
    pub fn try_bare_disconnect_on_member(&self, stmt: &SyntaxNode, all: &Vec<&SyntaxNode>, ctx: &CheckContext) -> (r:
        Option<Violation>)
        requires
            fits(*stmt, ctx.source@.len() as int, ctx.base_line as int, ctx.base_byte as int),
            forall|k: int| 0 <= k < all@.len() ==> fits(*#[trigger] all@[k], ctx.source@.len() as int, 0, 0),
        ensures
            crate::rules::opt_view(r) == bare_report(
                ctx.file_path@,
                ctx.source@,
                ctx.base_line as nat,
                ctx.base_byte as nat,
                *stmt,
                derefs(all@),
            ),
    {
        let ghost len = ctx.source@.len() as int;
        proof {
            lemma_fits_loosen(*stmt, len, ctx.base_line as int, ctx.base_byte as int);
            lemma_fits_root(*stmt, len, ctx.base_line as int, ctx.base_byte as int);
        }
        let (obj, handler_id) = match self.extract_disconnect_args(stmt, ctx.source) {
            Some(p) => p,
            None => return None,
        };
        if !contains_str(handler_id.as_str(), "->") {
            return None;
        }
        let head = head_before(handler_id.as_str(), "->");
        let base = trim(head.as_str());
        if chars_of(base.as_str()).len() == 0 {
            return None;
        }
        if self.is_freed_in_stmts(all, base.as_str(), ctx.source) || self.is_freed_in_stmts(
            all,
            obj.as_str(),
            ctx.source,
        ) {
            return None;
        }
        let replacement = clear_call(handler_id.as_str(), obj.as_str());
        let message = concat3(
            "Use ",
            replacement.as_str(),
            " instead of g_signal_handler_disconnect (also zeroes the stored ID)",
        );
        let fix = Fix::from_node(stmt, ctx, replacement);
        let mut fixes: Vec<Fix> = Vec::new();
        fixes.push(fix);
        assert(crate::rules::fix_views(fixes@) =~= seq![fixes@[0]@]);
        proof {
            reveal_strlit("use_g_clear_signal_handler");
        }
        Some(Violation::new(
            ctx.file_path,
            ctx.base_line + stmt.start_row,
            stmt.start_column + 1,
            "use_g_clear_signal_handler",
            message,
            fixes,
        ))
    }

    /// The scan of the statements of the block `compound` (see
    /// `block_reports`).
    pub fn check_compound(&self, compound: &SyntaxNode, ctx: &CheckContext) -> (r: Vec<Violation>)
        requires
            fits(*compound, ctx.source@.len() as int, ctx.base_line as int, ctx.base_byte as int),
        ensures
            violation_views(r@) == block_reports(
                ctx.file_path@,
                ctx.source@,
                ctx.base_line as nat,
                ctx.base_byte as nat,
                compound.children@,
                0,
            ),
        decreases *compound, 0int,
    {
        let ghost len = ctx.source@.len() as int;
        let ghost bl = ctx.base_line as int;
        let ghost bb = ctx.base_byte as int;
        let ghost path = ctx.file_path@;
        let ghost cs = compound.children@;
        let skip: [&str; 3] = ["{", "}", "comment"];
        proof {
            reveal_strlit("{");
            reveal_strlit("}");
            reveal_strlit("comment");
        }
        assert(str_views(skip@) =~= block_skip());
        let all = children_without(compound, &skip);
        proof {
            lemma_fits_children_except(*compound, block_skip(), len, bl, bb);
            assert forall|k: int| 0 <= k < all@.len() implies fits(*#[trigger] all@[k], len, 0, 0) by {
                assert(derefs(all@)[k] == *all@[k]);
                lemma_fits_loosen(*all@[k], len, bl, bb);
            }
        }
        let n = compound.children.len();
        let mut out: Vec<Violation> = Vec::new();
        let mut i: usize = 0;
        assert(violation_views(out@) =~= Seq::<ViolationView>::empty());
        while i < n
            invariant
                n == cs.len(),
                cs == compound.children@,
                i <= n,
                len == ctx.source@.len(),
                bl == ctx.base_line as int,
                bb == ctx.base_byte as int,
                path == ctx.file_path@,
                fits(*compound, len, bl, bb),
                derefs(all@) == children_except(cs, block_skip()),
                forall|k: int| 0 <= k < all@.len() ==> fits(*#[trigger] all@[k], len, 0, 0),
                violation_views(out@) + block_reports(path, ctx.source@, bl as nat, bb as nat, cs, i as int)
                    == block_reports(path, ctx.source@, bl as nat, bb as nat, cs, 0),
            decreases n - i,
        {
            let s = &compound.children[i];
            proof {
                lemma_fits_child(*compound, i as int, len, bl, bb);
            }
            let ghost before = violation_views(out@);
            if !block_statement(s) {
                i = i + 1;
                continue;
            }
            match self.try_if_guarded(s, ctx) {
                Some(v) => {
                    out.push(v);
                    assert(violation_views(out@) =~= before + seq![v@]);
                    assert(before + seq![v@] + block_reports(path, ctx.source@, bl as nat, bb as nat, cs, i + 1)
                        =~= before + (seq![v@] + block_reports(path, ctx.source@, bl as nat, bb as nat, cs, i + 1)));
                    i = i + 1;
                    continue;
                },
                None => {},
            }
            let mut j: usize = i + 1;
            while j < n && !block_statement(&compound.children[j])
                invariant
                    n == cs.len(),
                    cs == compound.children@,
                    i < j <= n,
                    next_statement(cs, i + 1) == next_statement(cs, j as int),
                decreases n - j,
            {
                j = j + 1;
            }
            proof {
                lemma_next_statement_bounds(cs, i + 1);
            }
            if j < n {
                proof {
                    lemma_fits_child(*compound, j as int, len, bl, bb);
                }
                match self.try_disconnect_then_zero(s, &compound.children[j], ctx) {
                    Some(v) => {
                        out.push(v);
                        assert(violation_views(out@) =~= before + seq![v@]);
                        assert(before + seq![v@] + block_reports(path, ctx.source@, bl as nat, bb as nat, cs, j + 1)
                            =~= before + (seq![v@] + block_reports(path, ctx.source@, bl as nat, bb as nat, cs, j + 1)));
                        i = j + 1;
                        continue;
                    },
                    None => {},
                }
            }
            match self.try_bare_disconnect_on_member(s, &all, ctx) {
                Some(v) => {
                    out.push(v);
                    assert(violation_views(out@) =~= before + seq![v@]);
                    assert(before + seq![v@] + block_reports(path, ctx.source@, bl as nat, bb as nat, cs, i + 1)
                        =~= before + (seq![v@] + block_reports(path, ctx.source@, bl as nat, bb as nat, cs, i + 1)));
                    i = i + 1;
                    continue;
                },
                None => {},
            }
            let mut inner = self.check_node(s, ctx);
            let ghost found = violation_views(inner@);
            out.append(&mut inner);
            assert(violation_views(out@) =~= before + found);
            assert(before + found + block_reports(path, ctx.source@, bl as nat, bb as nat, cs, i + 1)
                =~= before + (found + block_reports(path, ctx.source@, bl as nat, bb as nat, cs, i + 1)));
            i = i + 1;
        }
        assert(violation_views(out@) + Seq::<ViolationView>::empty() =~= violation_views(out@));
        out
    }

    /// The violations of the subtree of `node` (see `signal_reports`).
    pub fn check_node(&self, node: &SyntaxNode, ctx: &CheckContext) -> (r: Vec<Violation>)
        requires
            fits(*node, ctx.source@.len() as int, ctx.base_line as int, ctx.base_byte as int),
        ensures
            violation_views(r@) == signal_reports(
                ctx.file_path@,
                ctx.source@,
                ctx.base_line as nat,
                ctx.base_byte as nat,
                *node,
            ),
        decreases *node, 1int,
    {
        if node.is_kind("compound_statement") {
            return self.check_compound(node, ctx);
        }
        let ghost len = ctx.source@.len() as int;
        let ghost bl = ctx.base_line as int;
        let ghost bb = ctx.base_byte as int;
        let ghost path = ctx.file_path@;
        let ghost cs = node.children@;
        let n = node.children.len();
        let mut out: Vec<Violation> = Vec::new();
        let mut i: usize = 0;
        assert(violation_views(out@) =~= Seq::<ViolationView>::empty());
        while i < n
            invariant
                n == cs.len(),
                cs == node.children@,
                i <= n,
                len == ctx.source@.len(),
                bl == ctx.base_line as int,
                bb == ctx.base_byte as int,
                path == ctx.file_path@,
                fits(*node, len, bl, bb),
                violation_views(out@) + list_reports(path, ctx.source@, bl as nat, bb as nat, cs, i as int)
                    == list_reports(path, ctx.source@, bl as nat, bb as nat, cs, 0),
            decreases n - i,
        {
            proof {
                lemma_fits_child(*node, i as int, len, bl, bb);
            }
            let ghost before = violation_views(out@);
            let mut inner = self.check_node(&node.children[i], ctx);
            let ghost found = violation_views(inner@);
            out.append(&mut inner);
            assert(violation_views(out@) =~= before + found);
            assert(before + found + list_reports(path, ctx.source@, bl as nat, bb as nat, cs, i + 1)
                =~= before + (found + list_reports(path, ctx.source@, bl as nat, bb as nat, cs, i + 1)));
            i = i + 1;
        }
        assert(violation_views(out@) + Seq::<ViolationView>::empty() =~= violation_views(out@));
        out
    }

    /// Reports, in the function definitions of the `.c` files (each parsed
    /// on its own), the disconnections of signal handlers that
    /// `g_clear_signal_handler ()` does in one call. What was reported before
    /// stays in place.
    pub fn check_all(&self, ast_context: &AstContext, config: &Config, violations: &mut Vec<Violation>)
        ensures
            exists|trees: Seq<Seq<Option<SyntaxNode>>>|
                violation_views(final(violations)@) == violation_views(old(violations)@)
                    + files_tree_reports(
                    c_files(*ast_context),
                    trees,
                    signal_check(),
                    c_files(*ast_context).len() as int,
                ),
    {
        let files = ast_context.iter_c_files();
        let check = |tree: &SyntaxNode, ctx: &CheckContext| -> (r: Vec<Violation>)
            requires
                fits(*tree, ctx.source@.len() as int, ctx.base_line as int, ctx.base_byte as int),
            ensures
                violation_views(r@) == signal_reports(
                    ctx.file_path@,
                    ctx.source@,
                    ctx.base_line as nat,
                    ctx.base_byte as nat,
                    *tree,
                ),
            {
                let found = self.check_node(tree, ctx);
                found
            };
        check_definition_trees(&files, check, Ghost(signal_check()), violations);
    }
}

/// What this rule reports on the syntax tree of one function definition.
pub open spec fn signal_check() -> TreeCheck {
    |path: Seq<char>, source: Seq<u8>, line: nat, byte: nat, tree: SyntaxNode|
        signal_reports(path, source, line, byte, tree)
}

} // verus!
