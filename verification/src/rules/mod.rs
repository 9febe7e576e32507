//! What the rules report (violations with their fixes), the configuration
//! they read, and the rules themselves.

pub mod deprecated_add_private;
pub mod function_visibility_ast;
pub mod g_param_spec_static_strings;
pub mod use_g_ascii_functions;
pub mod use_g_autolist;
pub mod use_g_clear_signal_handler;
pub mod use_g_clear_handle_id;
pub mod use_g_new;
pub mod use_g_set_object;
pub mod use_g_str_has_prefix;
pub mod use_g_str_has_prefix_suffix;
pub mod use_g_strlcpy;
pub mod use_g_variant_new_typed;
pub mod tree_match;
pub mod use_pragma_once;

use vstd::prelude::*;

use crate::model::expression::derefs;
use crate::model::function::FunctionInfo;
use crate::model::location::SourceLocation;
use crate::model::project::FileModel;
use crate::syntax::{fits, parse_c_source, tree_fits, SyntaxNode};
use crate::text::{owned, push_str};

verus! {

/// The kind of problem a rule looks for.
#[derive(Clone, Copy, Debug, PartialEq, Eq, Structural)]
pub enum Category {
    Correctness,
    Perf,
    Style,
    Complexity,
    Restriction,
}

/// An edit that resolves a violation: the bytes `start_byte..end_byte` of the
/// file are replaced by `replacement`.
#[derive(Debug)]
pub struct Fix {
    pub start_byte: usize,
    pub end_byte: usize,
    pub replacement: String,
}

/// What a fix says, as plain values.
pub struct FixView {
    pub start_byte: nat,
    pub end_byte: nat,
    pub replacement: Seq<char>,
}

impl View for Fix {
    type V = FixView;

    open spec fn view(&self) -> FixView {
        FixView {
            start_byte: self.start_byte as nat,
            end_byte: self.end_byte as nat,
            replacement: self.replacement@,
        }
    }
}

impl Fix {
    pub fn new(start_byte: usize, end_byte: usize, replacement: String) -> (r: Self)
        ensures
            r.start_byte == start_byte,
            r.end_byte == end_byte,
            r.replacement@ == replacement@,
    {
        Fix { start_byte, end_byte, replacement }
    }
}

/// A problem that a rule found at a place of a file.
#[derive(Debug)]
pub struct Violation {
    pub file: String,
    pub line: usize,
    pub column: usize,
    pub message: String,
    pub rule: String,
    pub snippet: Option<String>,
    pub fixes: Vec<Fix>,
}

/// What a violation says, as plain values.
pub struct ViolationView {
    pub file: Seq<char>,
    pub line: nat,
    pub column: nat,
    pub message: Seq<char>,
    pub rule: Seq<char>,
    /// The source text shown with the violation, when there is one.
    pub snippet: Option<Seq<char>>,
    pub fixes: Seq<FixView>,
}

/// The views of a list of fixes.
pub open spec fn fix_views(fixes: Seq<Fix>) -> Seq<FixView> {
    fixes.map_values(|f: Fix| f@)
}

impl View for Violation {
    type V = ViolationView;

    open spec fn view(&self) -> ViolationView {
        ViolationView {
            file: self.file@,
            line: self.line as nat,
            column: self.column as nat,
            message: self.message@,
            rule: self.rule@,
            snippet: match self.snippet {
                Some(t) => Some(t@),
                None => None,
            },
            fixes: fix_views(self.fixes@),
        }
    }
}

/// The views of a list of violations.
pub open spec fn violation_views(vs: Seq<Violation>) -> Seq<ViolationView> {
    vs.map_values(|v: Violation| v@)
}

/// A violation of `rule` at `line`:`column` of `file`, with `fixes` and no
/// snippet.
pub open spec fn report(
    file: Seq<char>,
    line: nat,
    column: nat,
    rule: Seq<char>,
    message: Seq<char>,
    fixes: Seq<FixView>,
) -> ViolationView {
    ViolationView { file, line, column, message, rule, snippet: None, fixes }
}

/// A fix as plain values.
pub open spec fn fix_at(start: nat, end: nat, replacement: Seq<char>) -> FixView {
    FixView { start_byte: start, end_byte: end, replacement }
}

impl Violation {
    /// A violation of the rule `rule` with no snippet.
    pub fn new(file: &str, line: usize, column: usize, rule: &str, message: String, fixes: Vec<Fix>) -> (r: Self)
        ensures
            r@ == report(file@, line as nat, column as nat, rule@, message@, fix_views(fixes@)),
            fixes@.len() == 0 ==> r@.fixes == Seq::<FixView>::empty(),
            r.snippet is None,
    {
        assert(fixes@.len() == 0 ==> fix_views(fixes@) =~= Seq::<FixView>::empty());
        Violation { file: owned(file), line, column, message, rule: owned(rule), snippet: None, fixes }
    }

    /// A violation with a single fix, placed where `location` starts.
    pub fn with_fix_at(file: &str, location: &SourceLocation, rule: &str, message: String, fix: Fix) -> (r: Self)
        ensures
            r@ == report(
                file@,
                location.line as nat,
                location.column as nat,
                rule@,
                message@,
                seq![fix@],
            ),
    {
        let mut fixes: Vec<Fix> = Vec::new();
        fixes.push(fix);
        assert(fix_views(fixes@) =~= seq![fix@]);
        Violation::new(file, location.line, location.column, rule, message, fixes)
    }
}

/// Which rules run: one switch per rule, under the rule's name.
#[derive(Clone, Copy, Debug)]
pub struct RulesConfig {
    pub function_visibility: bool,
    pub deprecated_add_private: bool,
    pub use_g_autolist: bool,
    pub use_g_new: bool,
    pub use_g_set_object: bool,
    pub use_g_variant_new_typed: bool,
    pub use_pragma_once: bool,
    pub g_param_spec_static_strings: bool,
    pub use_g_ascii_functions: bool,
    pub use_g_clear_handle_id: bool,
    pub use_g_clear_signal_handler: bool,
    pub use_g_str_has_prefix_suffix: bool,
    pub use_g_strlcpy: bool,
}

impl RulesConfig {
    /// Every rule switched on.
    pub fn all_enabled() -> (r: Self)
        ensures
            r.function_visibility && r.deprecated_add_private && r.use_g_autolist && r.use_g_new
                && r.use_g_set_object && r.use_g_variant_new_typed && r.use_pragma_once
                && r.g_param_spec_static_strings && r.use_g_ascii_functions && r.use_g_clear_handle_id
                && r.use_g_clear_signal_handler && r.use_g_str_has_prefix_suffix && r.use_g_strlcpy,
    {
        RulesConfig {
            function_visibility: true,
            deprecated_add_private: true,
            use_g_autolist: true,
            use_g_new: true,
            use_g_set_object: true,
            use_g_variant_new_typed: true,
            use_pragma_once: true,
            g_param_spec_static_strings: true,
            use_g_ascii_functions: true,
            use_g_clear_handle_id: true,
            use_g_clear_signal_handler: true,
            use_g_str_has_prefix_suffix: true,
            use_g_strlcpy: true,
        }
    }
}

/// How suggested code is written.
#[derive(Clone, Copy, Debug)]
pub struct StyleConfig {
    /// Write a space between a function's name and its `(`, as GNOME code
    /// does.
    pub space_before_paren: bool,
}

/// The glob patterns of files whose reports of the rule `rule` are dropped.
#[derive(Clone, Debug)]
pub struct RuleIgnore {
    pub rule: String,
    pub patterns: Vec<String>,
}

/// The linter's configuration, as far as the rules read it.
#[derive(Clone, Debug)]
pub struct Config {
    pub rules: RulesConfig,
    pub style: StyleConfig,
    /// Per rule, the files whose reports are dropped.
    pub ignores: Vec<RuleIgnore>,
    /// The glob patterns of files that are not linted at all; the caller
    /// that collects the project's files applies them.
    pub ignore: Vec<String>,
}

impl Default for Config {
    fn default() -> (r: Self)
        ensures
            r.rules.function_visibility && r.rules.deprecated_add_private && r.rules.use_g_autolist
                && r.rules.use_g_new && r.rules.use_g_set_object && r.rules.use_g_variant_new_typed
                && r.rules.use_pragma_once && r.rules.g_param_spec_static_strings
                && r.rules.use_g_ascii_functions && r.rules.use_g_clear_handle_id
                && r.rules.use_g_clear_signal_handler && r.rules.use_g_str_has_prefix_suffix
                && r.rules.use_g_strlcpy,
            r.style.space_before_paren,
            r.ignores@.len() == 0,
            r.ignore@.len() == 0,
    {
        Config {
            rules: RulesConfig::all_enabled(),
            style: StyleConfig { space_before_paren: true },
            ignores: Vec::new(),
            ignore: Vec::new(),
        }
    }
}

/// `args` joined with `", "`.
pub open spec fn join_args(args: Seq<Seq<char>>) -> Seq<char>
    decreases args.len(),
{
    if args.len() == 0 {
        Seq::empty()
    } else if args.len() == 1 {
        args[0]
    } else {
        join_args(args.drop_last()) + ", "@ + args.last()
    }
}

/// A call of `name` on `args` as written in the configured style.
pub open spec fn call_text(space: bool, name: Seq<char>, args: Seq<Seq<char>>) -> Seq<char> {
    name + (if space {
        " ("@
    } else {
        "("@
    }) + join_args(args) + ")"@
}

impl StyleConfig {
    /// A call of `name` on `args` as written in this style: `name (a, b)` or
    /// `name(a, b)`.
    pub fn format_call(&self, name: &str, args: &[&str]) -> (r: String)
        ensures
            r@ == call_text(
                self.space_before_paren,
                name@,
                args@.map_values(|a: &str| a@),
            ),
    {
        let mut s = owned(name);
        if self.space_before_paren {
            push_str(&mut s, " (");
        } else {
            push_str(&mut s, "(");
        }
        let ghost head = s@;
        let mut i: usize = 0;
        while i < args.len()
            invariant
                i <= args@.len(),
                s@ == head + join_args(args@.map_values(|a: &str| a@).take(i as int)),
            decreases args@.len() - i,
        {
            let ghost views = args@.map_values(|a: &str| a@);
            assert(views.take(i + 1).drop_last() =~= views.take(i as int));
            if i > 0 {
                push_str(&mut s, ", ");
            }
            push_str(&mut s, args[i]);
            proof {
                if i == 0 {
                    assert(views.take(1) =~= seq![views[0]]);
                    assert(s@ =~= head + join_args(views.take(1)));
                } else {
                    assert(s@ =~= head + join_args(views.take(i + 1)));
                }
            }
            i = i + 1;
        }
        assert(args@.map_values(|a: &str| a@).take(args@.len() as int) =~= args@.map_values(
            |a: &str| a@,
        ));
        push_str(&mut s, ")");
        s
    }
}

/// Moves the violations of `more` to the end of `violations`, in order.
pub fn append_violations(violations: &mut Vec<Violation>, more: Vec<Violation>)
    ensures
        violation_views(final(violations)@) == violation_views(old(violations)@) + violation_views(
            more@,
        ),
{
    let mut more = more;
    let ghost m = more@;
    violations.append(&mut more);
    assert(violation_views(violations@) =~= violation_views(old(violations)@) + violation_views(m));
}

/// What a per-function check reports over the function definitions among
/// `fs`, function by function, in order.
pub open spec fn over_functions(
    file: FileModel,
    fs: Seq<FunctionInfo>,
    per: spec_fn(FileModel, FunctionInfo) -> Seq<ViolationView>,
) -> Seq<ViolationView>
    decreases fs.len(),
{
    if fs.len() == 0 {
        Seq::empty()
    } else {
        over_functions(file, fs.drop_last(), per) + if fs.last().is_definition {
            per(file, fs.last())
        } else {
            Seq::empty()
        }
    }
}

/// What a per-function check reports over the function definitions of the
/// first `n` of `files`, file by file, in order.
pub open spec fn over_definitions(
    files: Seq<FileModel>,
    per: spec_fn(FileModel, FunctionInfo) -> Seq<ViolationView>,
    n: int,
) -> Seq<ViolationView>
    decreases n,
{
    if n <= 0 {
        Seq::empty()
    } else {
        over_definitions(files, per, n - 1) + over_functions(files[n - 1], files[n - 1].functions@, per)
    }
}

/// What a per-function check reports over all function definitions of
/// `files`, in order.
pub open spec fn over_all_definitions(
    files: Seq<FileModel>,
    per: spec_fn(FileModel, FunctionInfo) -> Seq<ViolationView>,
) -> Seq<ViolationView> {
    over_definitions(files, per, files.len() as int)
}

/// The files that `refs` point to.
pub open spec fn file_seq(refs: Seq<&FileModel>) -> Seq<FileModel> {
    refs.map_values(|f: &FileModel| *f)
}

/// Runs `check` on every function definition of `files`, file by file and
/// in order, and appends what it reports to `violations`.
pub fn check_definitions<F: Fn(&FileModel, &FunctionInfo) -> Vec<Violation>>(
    files: &Vec<&FileModel>,
    check: F,
    Ghost(per): Ghost<spec_fn(FileModel, FunctionInfo) -> Seq<ViolationView>>,
    violations: &mut Vec<Violation>,
)
    requires
        forall|file: &FileModel, func: &FunctionInfo|
            file_seq(files@).contains(*file) && file.functions@.contains(*func)
                ==> #[trigger] check.requires((file, func)),
        forall|file: &FileModel, func: &FunctionInfo, r: Vec<Violation>|
            #[trigger] check.ensures((file, func), r) ==> violation_views(r@) == per(*file, *func),
    ensures
        violation_views(final(violations)@) == violation_views(old(violations)@)
            + over_all_definitions(file_seq(files@), per),
{
    let ghost fseq = file_seq(files@);
    let mut i: usize = 0;
    while i < files.len()
        invariant
            i <= files@.len(),
            fseq == file_seq(files@),
            forall|file: &FileModel, func: &FunctionInfo|
                fseq.contains(*file) && file.functions@.contains(*func)
                    ==> #[trigger] check.requires((file, func)),
            forall|file: &FileModel, func: &FunctionInfo, r: Vec<Violation>|
                #[trigger] check.ensures((file, func), r) ==> violation_views(r@) == per(
                    *file,
                    *func,
                ),
            violation_views(violations@) == violation_views(old(violations)@) + over_definitions(
                fseq,
                per,
                i as int,
            ),
        decreases files@.len() - i,
    {
        let file: &FileModel = files[i];
        let ghost mid = violation_views(violations@);
        let mut j: usize = 0;
        while j < file.functions.len()
            invariant
                j <= file.functions@.len(),
                i < files@.len(),
                fseq == file_seq(files@),
                *file == fseq[i as int],
                forall|file: &FileModel, func: &FunctionInfo|
                    fseq.contains(*file) && file.functions@.contains(*func)
                        ==> #[trigger] check.requires((file, func)),
                forall|file: &FileModel, func: &FunctionInfo, r: Vec<Violation>|
                    #[trigger] check.ensures((file, func), r) ==> violation_views(r@) == per(
                        *file,
                        *func,
                    ),
                violation_views(violations@) == mid + over_functions(
                    *file,
                    file.functions@.take(j as int),
                    per,
                ),
            decreases file.functions@.len() - j,
        {
            let func = &file.functions[j];
            assert(file.functions@.take(j + 1).drop_last() =~= file.functions@.take(j as int));
            assert(fseq.contains(*file));
            assert(file.functions@.contains(*func));
            if func.is_definition {
                let found = check(file, func);
                let ghost before = violation_views(violations@);
                append_violations(violations, found);
                assert(violation_views(violations@) =~= mid + over_functions(
                    *file,
                    file.functions@.take(j + 1),
                    per,
                ));
            } else {
                assert(over_functions(*file, file.functions@.take(j + 1), per) =~= over_functions(
                    *file,
                    file.functions@.take(j as int),
                    per,
                ) + Seq::empty());
            }
            j = j + 1;
        }
        assert(file.functions@.take(file.functions@.len() as int) =~= file.functions@);
        assert(fseq[i as int] == *file);
        i = i + 1;
    }
}

/// The values held by the `Some`s of `s`, in order.
pub open spec fn somes<T>(s: Seq<Option<T>>) -> Seq<T>
    decreases s.len(),
{
    if s.len() == 0 {
        Seq::empty()
    } else {
        somes(s.drop_last()) + match s.last() {
            Some(v) => seq![v],
            None => Seq::empty(),
        }
    }
}

/// Taking one more element of `s` adds what it holds, if anything.
pub proof fn lemma_somes_take<T>(s: Seq<Option<T>>, i: int)
    requires
        0 <= i < s.len(),
    ensures
        somes(s.take(i + 1)) == somes(s.take(i)) + match s[i] {
            Some(v) => seq![v],
            None => Seq::<T>::empty(),
        },
{
    assert(s.take(i + 1).drop_last() =~= s.take(i));
}

/// The view of an optional violation.
pub open spec fn opt_view(v: Option<Violation>) -> Option<ViolationView> {
    match v {
        Some(x) => Some(x@),
        None => None,
    }
}

/// Where a syntax tree of a function's source stands: the function's text,
/// its file, and the line and byte of the file at which the text starts.
pub struct CheckContext<'a> {
    pub source: &'a [u8],
    pub file_path: &'a str,
    pub base_line: usize,
    pub base_byte: usize,
}

/// The fix that replaces the bytes of `node` (a node of the tree of
/// `ctx.source`) by `replacement`.
pub open spec fn node_fix(base_byte: nat, node: SyntaxNode, replacement: Seq<char>) -> FixView {
    fix_at((base_byte + node.start_byte) as nat, (base_byte + node.end_byte) as nat, replacement)
}

impl Fix {
    /// The fix that replaces the bytes of `node`, placed in the file by
    /// `ctx.base_byte`, with `replacement`.
    pub fn from_node(node: &SyntaxNode, ctx: &CheckContext, replacement: String) -> (r: Self)
        requires
            ctx.base_byte + node.end_byte <= usize::MAX,
            node.start_byte <= node.end_byte,
        ensures
            r@ == node_fix(ctx.base_byte as nat, *node, replacement@),
    {
        Fix::new(ctx.base_byte + node.start_byte, ctx.base_byte + node.end_byte, replacement)
    }
}

/// The source text of a function definition of `file`, when its byte range
/// is known and lies within the file.
pub fn definition_source<'a>(file: &'a FileModel, func: &FunctionInfo) -> (r: Option<&'a [u8]>)
    ensures
        r matches Some(b) ==> func.start_byte matches Some(s) && func.end_byte matches Some(e) && s
            <= e <= file.source@.len() && b@ == file.source@.subrange(s as int, e as int),
        r is None ==> !(func.start_byte matches Some(s) && func.end_byte matches Some(e) && s <= e
            <= file.source@.len()),
{
    match (func.start_byte, func.end_byte) {
        (Some(s), Some(e)) => {
            if s <= e && e <= file.source.len() {
                Some(vstd::slice::slice_subrange(file.source.as_slice(), s, e))
            } else {
                None
            }
        },
        _ => None,
    }
}

/// What a check on a syntax tree reports, given the file's path, the text
/// that was parsed, the line and byte of the file at which that text starts,
/// and the tree.
pub type TreeCheck = spec_fn(Seq<char>, Seq<u8>, nat, nat, SyntaxNode) -> Seq<ViolationView>;

/// What `per` reports on `func` of `file` when its text was parsed into
/// `tree`: nothing unless `func` is a definition whose byte range lies within
/// the file and `tree` fits that text.
pub open spec fn definition_tree_reports(
    file: FileModel,
    func: FunctionInfo,
    tree: Option<SyntaxNode>,
    per: TreeCheck,
) -> Seq<ViolationView> {
    match (func.start_byte, func.end_byte, tree) {
        (Some(s), Some(e), Some(t)) => {
            if func.is_definition && s <= e <= file.source@.len() && fits(
                t,
                e - s,
                func.line as int,
                s as int,
            ) {
                per(file.path@, file.source@.subrange(s as int, e as int), func.line as nat, s as nat, t)
            } else {
                Seq::empty()
            }
        },
        _ => Seq::empty(),
    }
}

/// What `per` reports on the first `n` functions of `file`, in order, the
/// text of function `j` having been parsed into `trees[j]`.
pub open spec fn file_tree_reports(
    file: FileModel,
    trees: Seq<Option<SyntaxNode>>,
    per: TreeCheck,
    n: int,
) -> Seq<ViolationView>
    decreases n,
{
    if n <= 0 {
        Seq::empty()
    } else {
        file_tree_reports(file, trees, per, n - 1) + definition_tree_reports(
            file,
            file.functions@[n - 1],
            trees[n - 1],
            per,
        )
    }
}

/// What `per` reports on the functions of the first `n` of `files`, file by
/// file and in order, the text of function `j` of file `i` having been parsed
/// into `trees[i][j]`.
pub open spec fn files_tree_reports(
    files: Seq<FileModel>,
    trees: Seq<Seq<Option<SyntaxNode>>>,
    per: TreeCheck,
    n: int,
) -> Seq<ViolationView>
    decreases n,
{
    if n <= 0 {
        Seq::empty()
    } else {
        files_tree_reports(files, trees, per, n - 1) + file_tree_reports(
            files[n - 1],
            trees[n - 1],
            per,
            files[n - 1].functions@.len() as int,
        )
    }
}

proof fn lemma_file_tree_reports_prefix(
    file: FileModel,
    a: Seq<Option<SyntaxNode>>,
    b: Seq<Option<SyntaxNode>>,
    per: TreeCheck,
    n: int,
)
    requires
        forall|k: int| 0 <= k < n ==> a[k] == b[k],
    ensures
        file_tree_reports(file, a, per, n) == file_tree_reports(file, b, per, n),
    decreases n,
{
    if n > 0 {
        lemma_file_tree_reports_prefix(file, a, b, per, n - 1);
    }
}

proof fn lemma_files_tree_reports_prefix(
    files: Seq<FileModel>,
    a: Seq<Seq<Option<SyntaxNode>>>,
    b: Seq<Seq<Option<SyntaxNode>>>,
    per: TreeCheck,
    n: int,
)
    requires
        forall|k: int| 0 <= k < n ==> a[k] == b[k],
    ensures
        files_tree_reports(files, a, per, n) == files_tree_reports(files, b, per, n),
    decreases n,
{
    if n > 0 {
        lemma_files_tree_reports_prefix(files, a, b, per, n - 1);
    }
}

/// Parses each function definition of `files` on its own and runs `check` on
/// its syntax tree, with the function's file, first line and first byte;
/// appends what it reports to `violations`. Definitions whose text cannot be
/// had or parsed, or whose tree does not fit, are skipped.
pub fn check_definition_trees<F: Fn(&SyntaxNode, &CheckContext) -> Vec<Violation>>(
    files: &Vec<&FileModel>,
    check: F,
    Ghost(per): Ghost<TreeCheck>,
    violations: &mut Vec<Violation>,
)
    requires
        forall|tree: &SyntaxNode, ctx: &CheckContext|
            fits(*tree, ctx.source@.len() as int, ctx.base_line as int, ctx.base_byte as int)
                ==> #[trigger] check.requires((tree, ctx)),
        forall|tree: &SyntaxNode, ctx: &CheckContext, r: Vec<Violation>|
            #[trigger] check.ensures((tree, ctx), r) ==> violation_views(r@) == per(
                ctx.file_path@,
                ctx.source@,
                ctx.base_line as nat,
                ctx.base_byte as nat,
                *tree,
            ),
    ensures
        exists|trees: Seq<Seq<Option<SyntaxNode>>>|
            violation_views(final(violations)@) == violation_views(old(violations)@)
                + files_tree_reports(file_seq(files@), trees, per, files@.len() as int),
{
    let ghost start = violation_views(violations@);
    let ghost fseq = file_seq(files@);
    let ghost mut done: Seq<Seq<Option<SyntaxNode>>> = Seq::empty();
    let mut i: usize = 0;
    while i < files.len()
        invariant
            i <= files@.len(),
            fseq == file_seq(files@),
            done.len() == i,
            forall|tree: &SyntaxNode, ctx: &CheckContext|
                fits(*tree, ctx.source@.len() as int, ctx.base_line as int, ctx.base_byte as int)
                    ==> #[trigger] check.requires((tree, ctx)),
            forall|tree: &SyntaxNode, ctx: &CheckContext, r: Vec<Violation>|
                #[trigger] check.ensures((tree, ctx), r) ==> violation_views(r@) == per(
                    ctx.file_path@,
                    ctx.source@,
                    ctx.base_line as nat,
                    ctx.base_byte as nat,
                    *tree,
                ),
            start == violation_views(old(violations)@),
            violation_views(violations@) == start + files_tree_reports(fseq, done, per, i as int),
        decreases files@.len() - i,
    {
        let file: &FileModel = files[i];
        let ghost mid = violation_views(violations@);
        let ghost mut cur: Seq<Option<SyntaxNode>> = Seq::empty();
        let mut j: usize = 0;
        while j < file.functions.len()
            invariant
                j <= file.functions@.len(),
                cur.len() == j,
                i < files@.len(),
                fseq == file_seq(files@),
                *file == fseq[i as int],
                forall|tree: &SyntaxNode, ctx: &CheckContext|
                    fits(*tree, ctx.source@.len() as int, ctx.base_line as int, ctx.base_byte as int)
                        ==> #[trigger] check.requires((tree, ctx)),
                forall|tree: &SyntaxNode, ctx: &CheckContext, r: Vec<Violation>|
                    #[trigger] check.ensures((tree, ctx), r) ==> violation_views(r@) == per(
                        ctx.file_path@,
                        ctx.source@,
                        ctx.base_line as nat,
                        ctx.base_byte as nat,
                        *tree,
                    ),
                violation_views(violations@) == mid + file_tree_reports(*file, cur, per, j as int),
            decreases file.functions@.len() - j,
        {
            let func = &file.functions[j];
            let ghost outcome: Option<SyntaxNode> = None;
            if func.is_definition {
                if let Some(src) = definition_source(file, func) {
                    if let Some(tree) = parse_c_source(src) {
                        let base_byte = match func.start_byte {
                            Some(b) => b,
                            None => 0,
                        };
                        if tree_fits(&tree, src.len(), func.line, base_byte) {
                            let ctx = CheckContext {
                                source: src,
                                file_path: file.path.as_str(),
                                base_line: func.line,
                                base_byte,
                            };
                            let found = check(&tree, &ctx);
                            append_violations(violations, found);
                            proof {
                                outcome = Some(tree);
                            }
                        }
                    }
                }
            }
            proof {
                let next = cur.push(outcome);
                lemma_file_tree_reports_prefix(*file, cur, next, per, j as int);
                assert(definition_tree_reports(*file, file.functions@[j as int], outcome, per)
                    == if outcome is Some {
                    definition_tree_reports(*file, file.functions@[j as int], outcome, per)
                } else {
                    Seq::empty()
                });
                cur = next;
            }
            j = j + 1;
        }
        proof {
            let next = done.push(cur);
            lemma_files_tree_reports_prefix(fseq, done, next, per, i as int);
            done = next;
        }
        i = i + 1;
    }
}

/// Runs `check` on each of `nodes` in order and keeps what it reports.
pub fn collect_node_reports<F: Fn(&SyntaxNode) -> Option<Violation>>(
    nodes: &Vec<&SyntaxNode>,
    check: F,
    Ghost(per): Ghost<spec_fn(SyntaxNode) -> Option<ViolationView>>,
) -> (r: Vec<Violation>)
    requires
        forall|n: &SyntaxNode| derefs(nodes@).contains(*n) ==> #[trigger] check.requires((n,)),
        forall|n: &SyntaxNode, v: Option<Violation>|
            #[trigger] check.ensures((n,), v) ==> opt_view(v) == per(*n),
    ensures
        violation_views(r@) == somes(derefs(nodes@).map_values(per)),
{
    let ghost ns = derefs(nodes@);
    let ghost opts = ns.map_values(per);
    let mut out: Vec<Violation> = Vec::new();
    let mut k: usize = 0;
    while k < nodes.len()
        invariant
            k <= nodes@.len(),
            ns == derefs(nodes@),
            opts == ns.map_values(per),
            forall|n: &SyntaxNode| ns.contains(*n) ==> #[trigger] check.requires((n,)),
            forall|n: &SyntaxNode, v: Option<Violation>|
                #[trigger] check.ensures((n,), v) ==> opt_view(v) == per(*n),
            violation_views(out@) == somes(opts.take(k as int)),
        decreases nodes@.len() - k,
    {
        let n: &SyntaxNode = nodes[k];
        assert(ns[k as int] == *n);
        assert(ns.contains(*n));
        proof {
            lemma_somes_take(opts, k as int);
        }
        match check(n) {
            Some(v) => {
                let ghost before = out@;
                out.push(v);
                assert(violation_views(out@) =~= violation_views(before).push(v@));
            },
            None => {
                assert(somes(opts.take(k + 1)) =~= somes(opts.take(k as int)));
            },
        }
        k = k + 1;
    }
    assert(opts.take(nodes@.len() as int) =~= opts);
    out
}

/// The sequences of `s`, one after the other.
pub open spec fn flatten_views(s: Seq<Seq<ViolationView>>) -> Seq<ViolationView>
    decreases s.len(),
{
    if s.len() == 0 {
        Seq::empty()
    } else {
        flatten_views(s.drop_last()) + s.last()
    }
}

/// Runs `check` on each of `nodes` in order and keeps all it reports.
pub fn collect_node_report_lists<F: Fn(&SyntaxNode) -> Vec<Violation>>(
    nodes: &Vec<&SyntaxNode>,
    check: F,
    Ghost(per): Ghost<spec_fn(SyntaxNode) -> Seq<ViolationView>>,
) -> (r: Vec<Violation>)
    requires
        forall|n: &SyntaxNode| derefs(nodes@).contains(*n) ==> #[trigger] check.requires((n,)),
        forall|n: &SyntaxNode, v: Vec<Violation>|
            #[trigger] check.ensures((n,), v) ==> violation_views(v@) == per(*n),
    ensures
        violation_views(r@) == flatten_views(derefs(nodes@).map_values(per)),
{
    let ghost ns = derefs(nodes@);
    let ghost lists = ns.map_values(per);
    let mut out: Vec<Violation> = Vec::new();
    let mut k: usize = 0;
    while k < nodes.len()
        invariant
            k <= nodes@.len(),
            ns == derefs(nodes@),
            lists == ns.map_values(per),
            forall|n: &SyntaxNode| ns.contains(*n) ==> #[trigger] check.requires((n,)),
            forall|n: &SyntaxNode, v: Vec<Violation>|
                #[trigger] check.ensures((n,), v) ==> violation_views(v@) == per(*n),
            violation_views(out@) == flatten_views(lists.take(k as int)),
        decreases nodes@.len() - k,
    {
        let n: &SyntaxNode = nodes[k];
        assert(ns[k as int] == *n);
        assert(ns.contains(*n));
        assert(lists.take(k + 1).drop_last() =~= lists.take(k as int));
        let found = check(n);
        let ghost before = violation_views(out@);
        append_violations(&mut out, found);
        assert(violation_views(out@) =~= flatten_views(lists.take(k + 1)));
        k = k + 1;
    }
    assert(lists.take(nodes@.len() as int) =~= lists);
    out
}

} // verus!
