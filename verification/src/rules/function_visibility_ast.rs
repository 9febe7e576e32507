//! Reports non-static functions that no header declares: they should be
//! static, exported or declared.

use vstd::prelude::*;

use crate::context::{gobject_internal, pair_views, undeclared_in, AstContext};
use crate::model::function::FunctionInfo;
use crate::rules::{report, violation_views, Config, Violation, ViolationView};
use crate::text::{chars_of, concat3, has_prefix, starts_with};

verus! {

/// Rule that checks for function visibility issues on the project model.
pub struct FunctionVisibilityAst;

/// `c` is one of the `/`-separated components of `path`.
pub open spec fn has_component(path: Seq<char>, c: Seq<char>) -> bool {
    exists|i: int, j: int|
        0 <= i <= j <= path.len() && #[trigger] path.subrange(i, j) == c && (i == 0 || path[i - 1]
            == '/') && (j == path.len() || path[j] == '/')
}

/// A test function: named `test_...`, in a `test` or `tests` directory (or
/// any component of its path so named).
pub open spec fn test_function(name: Seq<char>, path: Seq<char>) -> bool {
    has_prefix(name, "test_"@) && (has_component(path, "test"@) || has_component(path, "tests"@))
}

/// The message for a function named `name`.
pub open spec fn visibility_message(name: Seq<char>) -> Seq<char> {
    "Function '"@ + name
        + "' is not static and not declared in any header. Consider making it static or adding an export macro."@
}

/// The violations for the candidates `cands`, in order: those that are
/// neither GObject internals of `files` nor test functions.
pub open spec fn visibility_reports(files: Seq<crate::model::project::FileModel>, cands: Seq<(Seq<char>, FunctionInfo)>) -> Seq<ViolationView>
    decreases cands.len(),
{
    if cands.len() == 0 {
        Seq::empty()
    } else {
        let (path, f) = cands.last();
        visibility_reports(files, cands.drop_last()) + if gobject_internal(files, f.name@)
            || test_function(f.name@, path) {
            Seq::empty()
        } else {
            seq![
                report(
                    path,
                    f.line as nat,
                    1,
                    "function_visibility"@,
                    visibility_message(f.name@),
                    Seq::empty(),
                ),
            ]
        }
    }
}

/// `i..j` is bounded by separators (or the ends) of `path`.
pub open spec fn bounded(path: Seq<char>, i: int, j: int) -> bool {
    &&& 0 <= i <= j <= path.len()
    &&& i == 0 || path[i - 1] == '/'
    &&& j == path.len() || path[j] == '/'
}

/// `path` has a component equal to `a` or to `b`, where neither holds a `/`.
fn has_component_exec(path: &str, a: &str, b: &str) -> (r: bool)
    requires
        !a@.contains('/'),
        !b@.contains('/'),
    ensures
        r == (has_component(path@, a@) || has_component(path@, b@)),
{
    let p = chars_of(path);
    let x = chars_of(a);
    let y = chars_of(b);
    let mut start: usize = 0;
    let mut k: usize = 0;
    // `start..k` is the current component; every earlier one differs from
    // both names.
    while k < p.len()
        invariant
            p@ == path@,
            x@ == a@,
            y@ == b@,
            !a@.contains('/'),
            !b@.contains('/'),
            start <= k <= p@.len(),
            start == 0 || p@[start - 1] == '/',
            forall|m: int| start <= m < k ==> p@[m] != '/',
            forall|i: int, j: int|
                #![trigger p@.subrange(i, j)]
                bounded(p@, i, j) && j < start ==> p@.subrange(i, j) != a@ && p@.subrange(i, j) != b@,
        decreases p@.len() - k,
    {
        if p[k] == '/' {
            let comp = crate::text::slice_chars(&p, start, k);
            if crate::text::chars_eq(comp.as_slice(), x.as_slice()) || crate::text::chars_eq(
                comp.as_slice(),
                y.as_slice(),
            ) {
                assert(bounded(p@, start as int, k as int));
                return true;
            }
            proof {
                lemma_components_upto(p@, a@, b@, start as int, k as int);
            }
            start = k + 1;
        }
        k = k + 1;
    }
    let comp = crate::text::slice_chars(&p, start, k);
    if crate::text::chars_eq(comp.as_slice(), x.as_slice()) || crate::text::chars_eq(
        comp.as_slice(),
        y.as_slice(),
    ) {
        assert(bounded(p@, start as int, k as int));
        return true;
    }
    proof {
        lemma_components_upto(p@, a@, b@, start as int, k as int);
        assert forall|c: Seq<char>| c == a@ || c == b@ implies !has_component(p@, c) by {
            if has_component(p@, c) {
                let (i, j) = choose|i: int, j: int|
                    0 <= i <= j <= p@.len() && #[trigger] p@.subrange(i, j) == c && (i == 0 || p@[i
                        - 1] == '/') && (j == p@.len() || p@[j] == '/');
                assert(bounded(p@, i, j));
            }
        }
    }
    false
}

/// Once the component `start..k` (ended by a separator or the end of `p`)
/// differs from both names, so does every bounded range that ends by `k`.
proof fn lemma_components_upto(p: Seq<char>, a: Seq<char>, b: Seq<char>, start: int, k: int)
    requires
        !a.contains('/'),
        !b.contains('/'),
        0 <= start <= k <= p.len(),
        k == p.len() || p[k] == '/',
        start == 0 || p[start - 1] == '/',
        forall|m: int| start <= m < k ==> p[m] != '/',
        p.subrange(start, k) != a,
        p.subrange(start, k) != b,
        forall|i: int, j: int|
            #![trigger p.subrange(i, j)]
            bounded(p, i, j) && j < start ==> p.subrange(i, j) != a && p.subrange(i, j) != b,
    ensures
        forall|i: int, j: int|
            #![trigger p.subrange(i, j)]
            bounded(p, i, j) && j <= k ==> p.subrange(i, j) != a && p.subrange(i, j) != b,
{
    assert forall|i: int, j: int|
        #![trigger p.subrange(i, j)]
        bounded(p, i, j) && j <= k implies p.subrange(i, j) != a && p.subrange(i, j) != b by {
        if j >= start {
            if j < k {
                assert(p[j] != '/');
            }
            assert(j == k);
            if i < start {
                assert(p.subrange(i, j)[start - 1 - i] == '/');
                assert(p.subrange(i, j).contains('/'));
            } else if i > start {
                assert(p[i - 1] != '/');
            }
        }
    }
}

/// Check if a function is a test function in a test directory.
pub fn is_test_function(name: &str, path: &str) -> (r: bool)
    ensures
        r == test_function(name@, path@),
{
    if !starts_with(name, "test_") {
        return false;
    }
    proof {
        reveal_strlit("test");
        reveal_strlit("tests");
        assert(!"test"@.contains('/')) by {
            assert("test"@ =~= seq!['t', 'e', 's', 't']);
        }
        assert(!"tests"@.contains('/')) by {
            assert("tests"@ =~= seq!['t', 'e', 's', 't', 's']);
        }
    }
    has_component_exec(path, "test", "tests")
}

impl FunctionVisibilityAst {
    /// Reports each non-static function definition of a `.c` file that no
    /// header declares, carries no export macro, and is neither special, a
    /// GObject internal nor a test function; nothing when the rule is off.
    pub fn check_all(&self, ast_context: &AstContext, config: &Config) -> (r: Vec<Violation>)
        ensures
            !config.rules.function_visibility ==> r@.len() == 0,
            config.rules.function_visibility ==> violation_views(r@) == visibility_reports(
                ast_context.project.files@,
                undeclared_in(
                    ast_context.project.files@,
                    ast_context.project.files@.len() as int,
                ),
            ),
    {
        let mut out: Vec<Violation> = Vec::new();
        if !config.rules.function_visibility {
            return out;
        }
        let cands = ast_context.find_undeclared_non_static_functions();
        let ghost cs = pair_views(cands@);
        let ghost files = ast_context.project.files@;
        let mut i: usize = 0;
        while i < cands.len()
            invariant
                i <= cands@.len(),
                cs == pair_views(cands@),
                files == ast_context.project.files@,
                violation_views(out@) == visibility_reports(files, cs.take(i as int)),
            decreases cands@.len() - i,
        {
            let (path, func) = cands[i];
            assert(cs.take(i + 1).drop_last() =~= cs.take(i as int));
            assert(cs.take(i + 1).last() == (path@, *func));
            if ast_context.is_gobject_internal(func.name.as_str()) || is_test_function(
                func.name.as_str(),
                path,
            ) {
                assert(visibility_reports(files, cs.take(i + 1)) =~= visibility_reports(
                    files,
                    cs.take(i as int),
                ) + Seq::empty());
            } else {
                let message = concat3(
                    "Function '",
                    func.name.as_str(),
                    "' is not static and not declared in any header. Consider making it static or adding an export macro.",
                );
                let v = Violation::new(path, func.line, 1, "function_visibility", message, Vec::new());
                let ghost before = out@;
                out.push(v);
                assert(violation_views(out@) =~= violation_views(before).push(v@));
            }
            i = i + 1;
        }
        assert(cs.take(cands@.len() as int) =~= cs);
        out
    }
}

} // verus!
