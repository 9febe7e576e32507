//! Ensures that `g_param_spec_*` calls with literal strings carry the
//! `G_PARAM_STATIC_*` flags.

use vstd::prelude::*;

use crate::context::{c_files, AstContext};
use crate::model::expression::derefs;
use crate::rules::{
    check_definition_trees, files_tree_reports, TreeCheck, collect_node_reports, node_fix, report, somes, violation_views,
    CheckContext, Category, Config, Fix, Violation, ViolationView,
};
use crate::syntax::{
    child_by_field, fits, fits_ref, lemma_fits_child, lemma_fits_field_child, lemma_fits_member,
    lemma_fits_member_ref, lemma_fits_root, lemma_fits_loosen, node_fits, node_text, preorder, preorder_ref, SyntaxNode,
};
use crate::text::{
    chars_of, concat3, contains_str, has_prefix, has_substring, owned, push_char, push_str, starts_with,
    str_eq, str_in, str_views, trim, trim_spec,
};

verus! {

pub struct GParamSpecStaticStrings;

/// The flags that name a static string, which the fix replaces.
pub open spec fn static_flag_names() -> Seq<Seq<char>> {
    seq![
        "G_PARAM_STATIC_NAME"@,
        "G_PARAM_STATIC_NICK"@,
        "G_PARAM_STATIC_BLURB"@,
        "G_PARAM_STATIC_STRINGS"@,
    ]
}

/// The flags that must be added, given which of nick and blurb are literals.
pub open spec fn needed_flags_spec(nick_is_literal: bool, blurb_is_literal: bool) -> Seq<char> {
    if nick_is_literal && blurb_is_literal {
        "G_PARAM_STATIC_STRINGS"@
    } else if nick_is_literal {
        "G_PARAM_STATIC_NAME | G_PARAM_STATIC_NICK"@
    } else if blurb_is_literal {
        "G_PARAM_STATIC_NAME | G_PARAM_STATIC_BLURB"@
    } else {
        "G_PARAM_STATIC_NAME"@
    }
}

/// The flags appended by the fix, one by one.
pub open spec fn needed_flag_list(nick_is_literal: bool, blurb_is_literal: bool) -> Seq<Seq<char>> {
    if nick_is_literal && blurb_is_literal {
        seq!["G_PARAM_STATIC_STRINGS"@]
    } else if nick_is_literal {
        seq!["G_PARAM_STATIC_NAME"@, "G_PARAM_STATIC_NICK"@]
    } else if blurb_is_literal {
        seq!["G_PARAM_STATIC_NAME"@, "G_PARAM_STATIC_BLURB"@]
    } else {
        seq!["G_PARAM_STATIC_NAME"@]
    }
}

/// The pieces of `s` between `|` characters (`str::split('|')`).
pub open spec fn split_bar(s: Seq<char>) -> Seq<Seq<char>>
    decreases s.len(),
{
    if s.len() == 0 {
        seq![Seq::empty()]
    } else {
        let prev = split_bar(s.drop_last());
        if s.last() == '|' {
            prev.push(Seq::empty())
        } else {
            prev.update(prev.len() - 1, prev.last().push(s.last()))
        }
    }
}

/// The trimmed pieces of `pieces` that are not static-string flags, in
/// order.
pub open spec fn kept_flags(pieces: Seq<Seq<char>>) -> Seq<Seq<char>>
    decreases pieces.len(),
{
    if pieces.len() == 0 {
        Seq::empty()
    } else {
        kept_flags(pieces.drop_last()) + if static_flag_names().contains(trim_spec(pieces.last())) {
            Seq::empty()
        } else {
            seq![trim_spec(pieces.last())]
        }
    }
}

/// `parts` joined with `" | "`.
pub open spec fn join_bar(parts: Seq<Seq<char>>) -> Seq<char>
    decreases parts.len(),
{
    if parts.len() == 0 {
        Seq::empty()
    } else if parts.len() == 1 {
        parts[0]
    } else {
        join_bar(parts.drop_last()) + " | "@ + parts.last()
    }
}

/// The replacement flags: those of `flags` (unless it is empty or `0`)
/// without any static-string flag, then the needed ones, joined with
/// `" | "`.
pub open spec fn fixed_flags(flags: Seq<char>, nick_is_literal: bool, blurb_is_literal: bool) -> Seq<char> {
    let kept = if flags.len() == 0 || flags == "0"@ {
        Seq::empty()
    } else {
        kept_flags(split_bar(flags))
    };
    join_bar(kept + needed_flag_list(nick_is_literal, blurb_is_literal))
}

/// The static-string flags in `flags` already cover the literal strings.
pub open spec fn flags_satisfied(flags: Seq<char>, nick_is_literal: bool, blurb_is_literal: bool) -> bool {
    let name = has_substring(flags, "G_PARAM_STATIC_NAME"@);
    let nick = has_substring(flags, "G_PARAM_STATIC_NICK"@);
    let blurb = has_substring(flags, "G_PARAM_STATIC_BLURB"@);
    if has_substring(flags, "G_PARAM_STATIC_STRINGS"@) {
        true
    } else if nick_is_literal && blurb_is_literal {
        name && nick && blurb
    } else if nick_is_literal {
        name && nick
    } else if blurb_is_literal {
        name && blurb
    } else {
        name
    }
}

/// The arguments among the children of an argument list: every child but
/// the `(`, `)` and `,` tokens, in order.
pub open spec fn argument_nodes(children: Seq<SyntaxNode>) -> Seq<SyntaxNode>
    decreases children.len(),
{
    if children.len() == 0 {
        Seq::empty()
    } else {
        argument_nodes(children.drop_last()) + if children.last().kind@ == "("@ || children.last().kind@
            == ")"@ || children.last().kind@ == ","@ {
            Seq::empty()
        } else {
            seq![children.last()]
        }
    }
}

/// The text is the null pointer `NULL` (white space aside).
pub open spec fn null_text(text: Seq<char>) -> bool {
    trim_spec(text) == "NULL"@
}

/// What the rule finds in a `g_param_spec_*` call `n` whose name is a
/// literal and whose nick and blurb are literals or `NULL`: the flags
/// argument, its text, whether it is satisfied, and whether nick and blurb
/// are literals.
pub open spec fn param_spec_flags(source: Seq<u8>, n: SyntaxNode) -> Option<(SyntaxNode, Seq<char>, bool, bool, bool)> {
    match child_by_field(n.children@, "arguments"@) {
        Some(args) => {
            let a = argument_nodes(args.children@);
            if a.len() < 4 {
                None
            } else {
                let name_lit = a[0].kind@ == "string_literal"@;
                let nick_lit = a[1].kind@ == "string_literal"@;
                let blurb_lit = a[2].kind@ == "string_literal"@;
                if !name_lit || (!nick_lit && !null_text(node_text(source, a[1]))) || (!blurb_lit
                    && !null_text(node_text(source, a[2]))) {
                    None
                } else {
                    let flags = a.last();
                    let text = node_text(source, flags);
                    Some((flags, text, flags_satisfied(text, nick_lit, blurb_lit), nick_lit, blurb_lit))
                }
            }
        },
        None => None,
    }
}

/// The violation at node `n` of a function's tree: a `g_param_spec_*` call
/// (other than `_override` and `_internal`) whose flags miss the needed
/// static-string flags; the fix rewrites the flags argument.
pub open spec fn param_spec_report(path: Seq<char>, source: Seq<u8>, base_line: nat, base_byte: nat, n: SyntaxNode) -> Option<
    ViolationView,
> {
    if n.kind@ != "call_expression"@ {
        None
    } else {
        match child_by_field(n.children@, "function"@) {
            Some(f) => {
                let name = node_text(source, f);
                if !has_prefix(name, "g_param_spec_"@) || name == "g_param_spec_override"@ || name
                    == "g_param_spec_internal"@ {
                    None
                } else {
                    match param_spec_flags(source, n) {
                        Some((flags, text, satisfied, nick, blurb)) => if satisfied {
                            None
                        } else {
                            Some(
                                report(
                                    path,
                                    (base_line + n.start_row) as nat,
                                    (n.start_column + 1) as nat,
                                    "g_param_spec_static_strings"@,
                                    "Add "@ + needed_flags_spec(nick, blurb) + " to "@ + name
                                        + " flags (saves memory for static strings)"@,
                                    seq![node_fix(base_byte, flags, fixed_flags(text, nick, blurb))],
                                ),
                            )
                        },
                        None => None,
                    }
                }
            },
            None => None,
        }
    }
}

/// The violations in a function's syntax tree, in pre-order.
pub open spec fn param_spec_reports(path: Seq<char>, source: Seq<u8>, base_line: nat, base_byte: nat, tree: SyntaxNode) -> Seq<
    ViolationView,
> {
    somes(
        preorder(tree).map_values(
            |n: SyntaxNode| param_spec_report(path, source, base_line, base_byte, n),
        ),
    )
}

proof fn lemma_split_bar_len(s: Seq<char>)
    ensures
        split_bar(s).len() >= 1,
    decreases s.len(),
{
    if s.len() > 0 {
        lemma_split_bar_len(s.drop_last());
    }
}

/// Every argument node is one of the children.
proof fn lemma_argument_nodes_in(children: Seq<SyntaxNode>)
    ensures
        forall|k: int|
            0 <= k < argument_nodes(children).len() ==> children.contains(
                #[trigger] argument_nodes(children)[k],
            ),
    decreases children.len(),
{
    if children.len() > 0 {
        lemma_argument_nodes_in(children.drop_last());
        let prev = argument_nodes(children.drop_last());
        assert forall|k: int| 0 <= k < argument_nodes(children).len() implies children.contains(
            #[trigger] argument_nodes(children)[k],
        ) by {
            if k < prev.len() {
                assert(argument_nodes(children)[k] == prev[k]);
                let m = choose|m: int| 0 <= m < children.drop_last().len() && #[trigger] children.drop_last()[m] == prev[k];
                assert(children[m] == prev[k]);
            } else {
                assert(children[children.len() - 1] == children.last());
            }
        }
    }
}

/// The null pointer literal `NULL`.
pub fn is_null_literal(text: &str) -> (r: bool)
    ensures
        r == null_text(text@),
{
    let t = trim(text);
    str_eq(t.as_str(), "NULL")
}

impl GParamSpecStaticStrings {
    pub fn name(&self) -> (r: &'static str)
        ensures
            r@ == "g_param_spec_static_strings"@,
    {
        "g_param_spec_static_strings"
    }

    pub fn description(&self) -> (r: &'static str)
        ensures
            r@ == "Ensure g_param_spec_* calls use G_PARAM_STATIC_STRINGS flag for string literals"@,
    {
        "Ensure g_param_spec_* calls use G_PARAM_STATIC_STRINGS flag for string literals"
    }

    pub fn category(&self) -> (r: Category)
        ensures
            r == Category::Perf,
    {
        Category::Perf
    }

    pub fn fixable(&self) -> (r: bool)
        ensures
            r,
    {
        true
    }

    /// The flags to add, given which of nick and blurb are literals.
    pub fn needed_flags(&self, nick_is_literal: bool, blurb_is_literal: bool) -> (r: &'static str)
        ensures
            r@ == needed_flags_spec(nick_is_literal, blurb_is_literal),
    {
        if nick_is_literal && blurb_is_literal {
            "G_PARAM_STATIC_STRINGS"
        } else if nick_is_literal {
            "G_PARAM_STATIC_NAME | G_PARAM_STATIC_NICK"
        } else if blurb_is_literal {
            "G_PARAM_STATIC_NAME | G_PARAM_STATIC_BLURB"
        } else {
            "G_PARAM_STATIC_NAME"
        }
    }

    /// The pieces of `s` between `|` characters.
    fn split_flags(s: &str) -> (r: Vec<String>)
        ensures
            r@.map_values(|p: String| p@) == split_bar(s@),
    {
        let cs = chars_of(s);
        let mut pieces: Vec<String> = Vec::new();
        let mut current = String::new();
        let mut i: usize = 0;
        while i < cs.len()
            invariant
                i <= cs@.len(),
                cs@ == s@,
                pieces@.map_values(|p: String| p@).push(current@) == split_bar(s@.take(i as int)),
            decreases cs@.len() - i,
        {
            let c = cs[i];
            let ghost before = pieces@.map_values(|p: String| p@).push(current@);
            assert(s@.take(i + 1).drop_last() =~= s@.take(i as int));
            assert(s@.take(i + 1).last() == c);
            proof {
                lemma_split_bar_len(s@.take(i as int));
            }
            if c == '|' {
                let done = current;
                pieces.push(done);
                current = String::new();
                assert(pieces@.map_values(|p: String| p@).push(current@) =~= before.push(Seq::empty()));
            } else {
                push_char(&mut current, c);
                assert(pieces@.map_values(|p: String| p@).push(current@) =~= before.update(
                    before.len() - 1,
                    before.last().push(c),
                ));
            }
            i = i + 1;
        }
        assert(s@.take(cs@.len() as int) =~= s@);
        pieces.push(current);
        pieces
    }

    /// Build the replacement flags: the present flags without any
    /// static-string flag, then the needed ones, joined with `" | "`.
    pub fn build_fixed_flags(&self, flags_text: &str, nick_is_literal: bool, blurb_is_literal: bool) -> (r: String)
        ensures
            r@ == fixed_flags(flags_text@, nick_is_literal, blurb_is_literal),
    {
        let individual: [&str; 4] = [
            "G_PARAM_STATIC_NAME",
            "G_PARAM_STATIC_NICK",
            "G_PARAM_STATIC_BLURB",
            "G_PARAM_STATIC_STRINGS",
        ];
        assert(str_views(individual@) =~= static_flag_names());
        let mut parts: Vec<String> = Vec::new();
        let empty_or_zero = chars_of(flags_text).len() == 0 || str_eq(flags_text, "0");
        if !empty_or_zero {
            let pieces = Self::split_flags(flags_text);
            let ghost ps = pieces@.map_values(|p: String| p@);
            let mut k: usize = 0;
            while k < pieces.len()
                invariant
                    k <= pieces@.len(),
                    ps == pieces@.map_values(|p: String| p@),
                    str_views(individual@) == static_flag_names(),
                    parts@.map_values(|p: String| p@) == kept_flags(ps.take(k as int)),
                decreases pieces@.len() - k,
            {
                assert(ps.take(k + 1).drop_last() =~= ps.take(k as int));
                assert(ps.take(k + 1).last() == pieces@[k as int]@);
                let t = trim(pieces[k].as_str());
                let ghost before = parts@.map_values(|p: String| p@);
                if !str_in(&individual, t.as_str()) {
                    parts.push(t);
                    assert(parts@.map_values(|p: String| p@) =~= before.push(trim_spec(ps[k as int])));
                } else {
                    assert(kept_flags(ps.take(k + 1)) =~= kept_flags(ps.take(k as int)) + Seq::empty());
                }
                k = k + 1;
            }
            assert(ps.take(pieces@.len() as int) =~= ps);
        }
        let ghost kept = parts@.map_values(|p: String| p@);
        if nick_is_literal && blurb_is_literal {
            parts.push(owned("G_PARAM_STATIC_STRINGS"));
        } else if nick_is_literal {
            parts.push(owned("G_PARAM_STATIC_NAME"));
            parts.push(owned("G_PARAM_STATIC_NICK"));
        } else if blurb_is_literal {
            parts.push(owned("G_PARAM_STATIC_NAME"));
            parts.push(owned("G_PARAM_STATIC_BLURB"));
        } else {
            parts.push(owned("G_PARAM_STATIC_NAME"));
        }
        let ghost all = parts@.map_values(|p: String| p@);
        assert(all =~= kept + needed_flag_list(nick_is_literal, blurb_is_literal));
        let mut out = String::new();
        let mut k: usize = 0;
        while k < parts.len()
            invariant
                k <= parts@.len(),
                all == parts@.map_values(|p: String| p@),
                out@ == join_bar(all.take(k as int)),
            decreases parts@.len() - k,
        {
            assert(all.take(k + 1).drop_last() =~= all.take(k as int));
            if k > 0 {
                push_str(&mut out, " | ");
            }
            push_str(&mut out, parts[k].as_str());
            proof {
                if k == 0 {
                    assert(all.take(1) =~= seq![all[0]]);
                    assert(out@ =~= join_bar(all.take(1)));
                } else {
                    assert(out@ =~= join_bar(all.take(k + 1)));
                }
            }
            k = k + 1;
        }
        assert(all.take(parts@.len() as int) =~= all);
        out
    }

    /// The argument nodes of an argument list, in order.
    fn argument_nodes<'a>(args: &'a SyntaxNode) -> (r: Vec<&'a SyntaxNode>)
        ensures
            derefs(r@) == argument_nodes(args.children@),
    {
        let ghost cs = args.children@;
        let mut out: Vec<&'a SyntaxNode> = Vec::new();
        let mut i: usize = 0;
        while i < args.children.len()
            invariant
                i <= cs.len(),
                cs == args.children@,
                derefs(out@) == argument_nodes(cs.take(i as int)),
            decreases cs.len() - i,
        {
            let c = &args.children[i];
            assert(cs.take(i + 1).drop_last() =~= cs.take(i as int));
            assert(cs.take(i + 1).last() == *c);
            if c.is_kind("(") || c.is_kind(")") || c.is_kind(",") {
                assert(argument_nodes(cs.take(i + 1)) =~= argument_nodes(cs.take(i as int))
                    + Seq::empty());
            } else {
                let ghost before = derefs(out@);
                out.push(c);
                assert(derefs(out@) =~= before.push(*c));
            }
            i = i + 1;
        }
        assert(cs.take(cs.len() as int) =~= cs);
        out
    }

    /// Whether the call `call_node` qualifies, and what it holds: the flags
    /// node and text, whether the flags are satisfied, and whether nick and
    /// blurb are literals.
    fn check_param_spec_flags<'a>(&self, call_node: &'a SyntaxNode, source: &'a [u8]) -> (r: Option<(&'a SyntaxNode, &'a str, bool, bool, bool)>)
        requires
            fits(*call_node, source@.len() as int, 0, 0),
        ensures
            r matches Some((f, t, s, n, b)) ==> param_spec_flags(source@, *call_node) == Some((*f, t@, s, n, b))
                && fits(*f, source@.len() as int, 0, 0),
            r is None ==> param_spec_flags(source@, *call_node) is None,
    {
        proof {
            reveal_strlit("arguments");
        }
        let args = match call_node.child_by_field_name("arguments") {
            Some(a) => a,
            None => return None,
        };
        proof {
            lemma_fits_field_child(*call_node, "arguments"@, source@.len() as int, 0, 0);
        }
        let arguments = Self::argument_nodes(args);
        if arguments.len() < 4 {
            return None;
        }
        let ghost a = derefs(arguments@);
        proof {
            lemma_argument_nodes_in(args.children@);
            assert forall|k: int| 0 <= k < a.len() implies fits(#[trigger] a[k], source@.len() as int, 0, 0) by {
                assert(args.children@.contains(argument_nodes(args.children@)[k]));
                let m = choose|m: int| 0 <= m < args.children@.len() && #[trigger] args.children@[m] == a[k];
                lemma_fits_child(*args, m, source@.len() as int, 0, 0);
            }
            lemma_fits_root(a[1], source@.len() as int, 0, 0);
            lemma_fits_root(a[2], source@.len() as int, 0, 0);
            lemma_fits_root(a[a.len() - 1], source@.len() as int, 0, 0);
        }
        let name_is_literal = arguments[0].is_kind("string_literal");
        let nick_is_literal = arguments[1].is_kind("string_literal");
        let blurb_is_literal = arguments[2].is_kind("string_literal");
        let nick_text = arguments[1].text(source);
        let blurb_text = arguments[2].text(source);
        if !name_is_literal || (!nick_is_literal && !is_null_literal(nick_text)) || (!blurb_is_literal
            && !is_null_literal(blurb_text)) {
            return None;
        }
        let flags_arg: &SyntaxNode = arguments[arguments.len() - 1];
        let flags_text = flags_arg.text(source);
        let has_static_strings = contains_str(flags_text, "G_PARAM_STATIC_STRINGS");
        let has_static_name = contains_str(flags_text, "G_PARAM_STATIC_NAME");
        let has_static_nick = contains_str(flags_text, "G_PARAM_STATIC_NICK");
        let has_static_blurb = contains_str(flags_text, "G_PARAM_STATIC_BLURB");
        let is_satisfied = if has_static_strings {
            true
        } else if nick_is_literal && blurb_is_literal {
            has_static_name && has_static_nick && has_static_blurb
        } else if nick_is_literal {
            has_static_name && has_static_nick
        } else if blurb_is_literal {
            has_static_name && has_static_blurb
        } else {
            has_static_name
        };
        assert(a.last() == *flags_arg);
        Some((flags_arg, flags_text, is_satisfied, nick_is_literal, blurb_is_literal))
    }

    /// The violation at one node, if any.
    pub fn check_node(&self, node: &SyntaxNode, ctx: &CheckContext) -> (r: Option<Violation>)
        requires
            fits(*node, ctx.source@.len() as int, ctx.base_line as int, ctx.base_byte as int),
        ensures
            crate::rules::opt_view(r) == param_spec_report(
                ctx.file_path@,
                ctx.source@,
                ctx.base_line as nat,
                ctx.base_byte as nat,
                *node,
            ),
    {
        let ghost len = ctx.source@.len() as int;
        proof {
            lemma_fits_member(*node, *node, len, ctx.base_line as int, ctx.base_byte as int);
            assert(preorder(*node)[0] == *node);
            reveal_strlit("function");
            lemma_fits_loosen(*node, len, ctx.base_line as int, ctx.base_byte as int);
        }
        if !node.is_kind("call_expression") {
            return None;
        }
        let function = match node.child_by_field_name("function") {
            Some(f) => f,
            None => return None,
        };
        proof {
            lemma_fits_field_child(*node, "function"@, len, ctx.base_line as int, ctx.base_byte as int);
        }
        let func_name = function.text(ctx.source);
        if !starts_with(func_name, "g_param_spec_") || str_eq(func_name, "g_param_spec_override")
            || str_eq(func_name, "g_param_spec_internal") {
            return None;
        }
        let (flags_arg, flags_text, is_satisfied, nick, blurb) = match self.check_param_spec_flags(
            node,
            ctx.source,
        ) {
            Some(x) => x,
            None => return None,
        };
        if is_satisfied {
            return None;
        }
        proof {
            lemma_fits_root(*flags_arg, len, 0, 0);
            lemma_flags_fit(*node, *flags_arg, len, ctx.base_line as int, ctx.base_byte as int);
        }
        let needed = self.needed_flags(nick, blurb);
        let fixed = self.build_fixed_flags(flags_text, nick, blurb);
        let fix = Fix::from_node(flags_arg, ctx, fixed);
        let mut message = concat3("Add ", needed, " to ");
        push_str(&mut message, func_name);
        push_str(&mut message, " flags (saves memory for static strings)");
        let mut fixes: Vec<Fix> = Vec::new();
        fixes.push(fix);
        assert(crate::rules::fix_views(fixes@) =~= seq![fixes@[0]@]);
        Some(Violation::new(
            ctx.file_path,
            ctx.base_line + node.start_row,
            node.start_column + 1,
            "g_param_spec_static_strings",
            message,
            fixes,
        ))
    }

    /// The violations in the syntax tree of a function, in pre-order.
    pub fn check_tree(&self, tree: &SyntaxNode, ctx: &CheckContext) -> (r: Vec<Violation>)
        requires
            fits(*tree, ctx.source@.len() as int, ctx.base_line as int, ctx.base_byte as int),
        ensures
            violation_views(r@) == param_spec_reports(
                ctx.file_path@,
                ctx.source@,
                ctx.base_line as nat,
                ctx.base_byte as nat,
                *tree,
            ),
    {
        let nodes = tree.preorder();
        let check = |n: &SyntaxNode| -> (r: Option<Violation>)
            requires
                preorder_ref(tree).contains(*n),
                fits_ref(tree, ctx.source@.len() as int, ctx.base_line as int, ctx.base_byte as int),
            ensures
                crate::rules::opt_view(r) == param_spec_report(
                    ctx.file_path@,
                    ctx.source@,
                    ctx.base_line as nat,
                    ctx.base_byte as nat,
                    *n,
                ),
            {
                proof {
                    lemma_fits_member_ref(tree, *n, ctx.source@.len() as int, ctx.base_line as int, ctx.base_byte as int);
                }
                let found = self.check_node(n, ctx);
                found
            };
        let ghost per = |n: SyntaxNode|
            param_spec_report(ctx.file_path@, ctx.source@, ctx.base_line as nat, ctx.base_byte as nat, n);
        let r = collect_node_reports(&nodes, check, Ghost(per));
        assert(derefs(nodes@).map_values(per) =~= preorder(*tree).map_values(
            |n: SyntaxNode|
                param_spec_report(ctx.file_path@, ctx.source@, ctx.base_line as nat, ctx.base_byte as nat, n),
        ));
        r
    }

    /// Reports, in the function definitions of the `.c` files (each parsed
    /// on its own), every `g_param_spec_*` call with literal strings whose
    /// flags miss the needed static-string flags. What was reported before
    /// stays in place.
    pub fn check_all(&self, ast_context: &AstContext, config: &Config, violations: &mut Vec<Violation>)
        ensures
            exists|trees: Seq<Seq<Option<SyntaxNode>>>|
                violation_views(final(violations)@) == violation_views(old(violations)@)
                    + files_tree_reports(
                    c_files(*ast_context),
                    trees,
                    param_spec_check(),
                    c_files(*ast_context).len() as int,
                ),
    {
        let files = ast_context.iter_c_files();
        let check = |tree: &SyntaxNode, ctx: &CheckContext| -> (r: Vec<Violation>)
            requires
                fits(*tree, ctx.source@.len() as int, ctx.base_line as int, ctx.base_byte as int),
            ensures
                violation_views(r@) == param_spec_reports(
                    ctx.file_path@,
                    ctx.source@,
                    ctx.base_line as nat,
                    ctx.base_byte as nat,
                    *tree,
                ),
            {
                let found = self.check_tree(tree, ctx);
                found
            };
        check_definition_trees(&files, check, Ghost(param_spec_check()), violations);
    }
}

/// The flags node found in a call of a tree that fits fits with the base
/// line and byte too.
proof fn lemma_flags_fit(call: SyntaxNode, flags: SyntaxNode, len: int, base_line: int, base_byte: int)
    requires
        fits(call, len, base_line, base_byte),
        param_spec_flags_node(call, flags),
    ensures
        node_fits(flags, len, base_line, base_byte),
{
    let args = child_by_field(call.children@, "arguments"@).unwrap();
    lemma_fits_field_child(call, "arguments"@, len, base_line, base_byte);
    lemma_argument_nodes_in(args.children@);
    let a = argument_nodes(args.children@);
    assert(args.children@.contains(a[a.len() - 1]));
    let m = choose|m: int| 0 <= m < args.children@.len() && #[trigger] args.children@[m] == a[a.len() - 1];
    lemma_fits_child(args, m, len, base_line, base_byte);
    lemma_fits_root(flags, len, base_line, base_byte);
}

/// `flags` is the last argument of the call `call`.
pub open spec fn param_spec_flags_node(call: SyntaxNode, flags: SyntaxNode) -> bool {
    child_by_field(call.children@, "arguments"@) matches Some(args) && argument_nodes(args.children@).len()
        > 0 && argument_nodes(args.children@).last() == flags
}

/// What this rule reports on the syntax tree of one function definition.
pub open spec fn param_spec_check() -> TreeCheck {
    |path: Seq<char>, source: Seq<u8>, line: nat, byte: nat, tree: SyntaxNode|
        param_spec_reports(path, source, line, byte, tree)
}

} // verus!
