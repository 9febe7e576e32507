//! What an editor is shown of the violations of one file.

use vstd::prelude::*;

use crate::model::expression::derefs;
use crate::rules::Violation;
use crate::text::str_eq;

verus! {

/// Where an editor marks a violation: a 0-based line and the 0-based range
/// of characters on it, one character wide, that starts at the violation's
/// column.
#[derive(Clone, Copy, Debug, PartialEq, Eq, Structural)]
pub struct DiagnosticRange {
    pub line: usize,
    pub start_character: usize,
    pub end_character: usize,
}

/// `n - 1`, or `0` for `0`.
pub open spec fn before(n: nat) -> nat {
    if n == 0 {
        0
    } else {
        (n - 1) as nat
    }
}

/// The violations of `vs` reported for the file `path`, in order.
pub open spec fn in_file(vs: Seq<Violation>, path: Seq<char>) -> Seq<Violation>
    decreases vs.len(),
{
    if vs.len() == 0 {
        Seq::empty()
    } else {
        in_file(vs.drop_last(), path) + if vs.last().file@ == path {
            seq![vs.last()]
        } else {
            Seq::empty()
        }
    }
}

/// The range that marks a violation at the 1-based `line` and `column`.
pub fn diagnostic_range(line: usize, column: usize) -> (r: DiagnosticRange)
    ensures
        r.line == before(line as nat),
        r.start_character == before(column as nat),
        r.end_character == before(column as nat) + 1,
{
    let start = column.saturating_sub(1);
    DiagnosticRange { line: line.saturating_sub(1), start_character: start, end_character: start + 1 }
}

/// The violations of `violations` that were reported for the file `path`.
pub fn violations_in_file<'a>(violations: &'a Vec<Violation>, path: &str) -> (r: Vec<&'a Violation>)
    ensures
        derefs(r@) == in_file(violations@, path@),
{
    let ghost vs = violations@;
    let mut out: Vec<&'a Violation> = Vec::new();
    let mut i: usize = 0;
    while i < violations.len()
        invariant
            i <= vs.len(),
            vs == violations@,
            derefs(out@) == in_file(vs.take(i as int), path@),
        decreases vs.len() - i,
    {
        let v = &violations[i];
        assert(vs.take(i + 1).drop_last() =~= vs.take(i as int));
        assert(vs.take(i + 1).last() == *v);
        if str_eq(v.file.as_str(), path) {
            let ghost before_push = derefs(out@);
            out.push(v);
            assert(derefs(out@) =~= before_push.push(*v));
        } else {
            assert(in_file(vs.take(i + 1), path@) =~= in_file(vs.take(i as int), path@) + Seq::empty());
        }
        i = i + 1;
    }
    assert(vs.take(vs.len() as int) =~= vs);
    out
}

} // verus!
