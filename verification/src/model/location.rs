//! Where a node of the C syntax tree stands in its file.

use vstd::prelude::*;
use vstd::utf8::*;

verus! {

/// Source location of an AST node: 1-based line and column, and the byte range
/// `start_byte..end_byte` in the file's source.
#[derive(Clone, Copy, Debug)]
pub struct SourceLocation {
    pub line: usize,
    pub column: usize,
    pub start_byte: usize,
    pub end_byte: usize,
}

/// The text of `bytes` when they are valid UTF-8 (`std::str::from_utf8`).
pub fn utf8_text(bytes: &[u8]) -> (r: Option<&str>)
    ensures
        r is Some <==> valid_utf8(bytes@),
        r matches Some(s) ==> s@ == decode_utf8(bytes@),
{
    from_utf8_checked(bytes)
}

/// `std::str::from_utf8`, which accepts exactly the well-formed UTF-8 byte
/// sequences and then holds the characters they encode.
#[verifier::external_body]
fn from_utf8_checked(bytes: &[u8]) -> (r: Option<&str>)
    ensures
        r is Some <==> valid_utf8(bytes@),
        r matches Some(s) ==> s@ == decode_utf8(bytes@),
{
    std::str::from_utf8(bytes).ok()
}

/// What a byte range of `source` reads as: its decoding when the bytes are
/// valid UTF-8, none otherwise.
pub open spec fn text_of(source: Seq<u8>, start: int, end: int) -> Option<Seq<char>> {
    let bytes = source.subrange(start, end);
    if valid_utf8(bytes) {
        Some(decode_utf8(bytes))
    } else {
        None
    }
}

/// Start of the line that holds `pos`: the byte after the last newline before
/// `pos`, or 0.
pub open spec fn line_start_spec(source: Seq<u8>, pos: int) -> int
    decreases pos,
{
    if pos <= 0 {
        0
    } else if source[pos - 1] == 10u8 {
        pos
    } else {
        line_start_spec(source, pos - 1)
    }
}

/// End of the line that holds `pos`: the position of the next newline at or
/// after `pos`, or the end of the source.
pub open spec fn line_end_spec(source: Seq<u8>, pos: int) -> int
    decreases source.len() - pos,
{
    if pos >= source.len() {
        source.len() as int
    } else if source[pos] == 10u8 {
        pos
    } else {
        line_end_spec(source, pos + 1)
    }
}

/// Every byte of `line` is a space or a tab.
pub open spec fn blank_bytes(line: Seq<u8>) -> bool {
    forall|i: int| 0 <= i < line.len() ==> (line[i] == 32u8 || line[i] == 9u8)
}

/// The bounds that `find_line_bounds` gives for a position `pos`: from the
/// start of its line, moved to the start of the previous line when that one
/// is blank, to the end of its line, past the newline when there is one.
pub open spec fn line_bounds_spec(source: Seq<u8>, pos: int) -> (int, int) {
    let start = line_start_spec(source, pos);
    let first = if start > 0 {
        let prev = line_start_spec(source, start - 1);
        if blank_bytes(source.subrange(prev, start - 1)) {
            prev
        } else {
            start
        }
    } else {
        start
    };
    let end = line_end_spec(source, pos);
    let last = if end < source.len() {
        end + 1
    } else {
        end
    };
    (first, last)
}

proof fn lemma_line_start_bounds(source: Seq<u8>, pos: int)
    requires
        0 <= pos <= source.len(),
    ensures
        0 <= line_start_spec(source, pos) <= pos,
    decreases pos,
{
    if pos > 0 && source[pos - 1] != 10u8 {
        lemma_line_start_bounds(source, pos - 1);
    }
}

proof fn lemma_line_end_bounds(source: Seq<u8>, pos: int)
    requires
        0 <= pos <= source.len(),
    ensures
        pos <= line_end_spec(source, pos) <= source.len(),
        line_end_spec(source, pos) < source.len() ==> source[line_end_spec(source, pos)]
            == 10u8,
    decreases source.len() - pos,
{
    if pos < source.len() && source[pos] != 10u8 {
        lemma_line_end_bounds(source, pos + 1);
    }
}

/// Walks back from `pos` to the start of its line.
pub fn line_start(source: &[u8], pos: usize) -> (r: usize)
    requires
        pos <= source@.len(),
    ensures
        r == line_start_spec(source@, pos as int),
        r <= pos,
{
    let mut p = pos;
    while p > 0 && source[p - 1] != 10u8
        invariant
            p <= pos <= source@.len(),
            line_start_spec(source@, p as int) == line_start_spec(source@, pos as int),
        decreases p,
    {
        p = p - 1;
    }
    p
}

/// Walks forward from `pos` to the end of its line (the newline, or the end
/// of the source).
pub fn line_end(source: &[u8], pos: usize) -> (r: usize)
    requires
        pos <= source@.len(),
    ensures
        r == line_end_spec(source@, pos as int),
        pos <= r <= source@.len(),
{
    let mut p = pos;
    while p < source.len() && source[p] != 10u8
        invariant
            pos <= p <= source@.len(),
            line_end_spec(source@, p as int) == line_end_spec(source@, pos as int),
        decreases source@.len() - p,
    {
        p = p + 1;
    }
    p
}

impl SourceLocation {
    pub fn new(line: usize, column: usize, start_byte: usize, end_byte: usize) -> (r: Self)
        ensures
            r.line == line,
            r.column == column,
            r.start_byte == start_byte,
            r.end_byte == end_byte,
    {
        SourceLocation { line, column, start_byte, end_byte }
    }

    /// The range `start_byte..end_byte` lies within a source of `len` bytes.
    pub open spec fn within(self, len: int) -> bool {
        self.start_byte <= self.end_byte && self.end_byte <= len
    }

    /// Extract the source text for this location.
    pub fn as_str<'a>(&self, source: &'a [u8]) -> (r: Option<&'a str>)
        requires
            self.within(source@.len() as int),
        ensures
            r matches Some(s) ==> text_of(source@, self.start_byte as int, self.end_byte as int)
                == Some(s@),
            r is None ==> text_of(source@, self.start_byte as int, self.end_byte as int) is None,
    {
        let bytes = vstd::slice::slice_subrange(source, self.start_byte, self.end_byte);
        utf8_text(bytes)
    }

    /// Find the start and end byte positions of the line containing this
    /// location, the newline included; when the previous line holds only
    /// spaces and tabs, it is included too.
    pub fn find_line_bounds(&self, source: &[u8]) -> (r: (usize, usize))
        requires
            self.start_byte <= source@.len(),
        ensures
            r.0 == line_bounds_spec(source@, self.start_byte as int).0,
            r.1 == line_bounds_spec(source@, self.start_byte as int).1,
    {
        let mut line_start_pos = line_start(source, self.start_byte);
        if line_start_pos > 0 {
            let prev_line_start = line_start(source, line_start_pos - 1);
            proof {
                lemma_line_start_bounds(source@, line_start_pos - 1);
            }
            let mut blank = true;
            let mut i = prev_line_start;
            while i < line_start_pos - 1
                invariant
                    prev_line_start <= i <= line_start_pos - 1,
                    line_start_pos <= source@.len(),
                    blank == blank_bytes(source@.subrange(prev_line_start as int, i as int)),
                decreases line_start_pos - 1 - i,
            {
                let b = source[i];
                proof {
                    let s0 = source@.subrange(prev_line_start as int, i as int);
                    let s1 = source@.subrange(prev_line_start as int, i + 1);
                    assert(s1 =~= s0.push(b));
                    if !blank_bytes(s0) {
                        let k = choose|k: int|
                            0 <= k < s0.len() && !(s0[k] == 32u8 || s0[k] == 9u8);
                        assert(s1[k] == s0[k]);
                    }
                    assert(s1[s1.len() - 1] == b);
                }
                blank = blank && (b == 32u8 || b == 9u8);
                i = i + 1;
            }
            if blank {
                line_start_pos = prev_line_start;
            }
        }
        let mut line_end_pos = line_end(source, self.start_byte);
        if line_end_pos < source.len() && source[line_end_pos] == 10u8 {
            line_end_pos = line_end_pos + 1;
        }
        proof {
            lemma_line_end_bounds(source@, self.start_byte as int);
        }
        (line_start_pos, line_end_pos)
    }
}

} // verus!
