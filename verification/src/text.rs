//! Character-level text operations with their specifications.
//!
//! Every name, operator and snippet of C source that the linter handles is a
//! `String`; its view is the sequence of its Unicode scalar values.  The
//! functions here compare, search, trim and build such strings, each with a
//! contract over `Seq<char>`.

use vstd::prelude::*;

verus! {

// ---------------------------------------------------------------------------
// Specifications
// ---------------------------------------------------------------------------

/// Unicode `White_Space`, the property that `char::is_whitespace` tests.
pub open spec fn is_whitespace_char(c: char) -> bool {
    ||| ('\u{9}' <= c && c <= '\u{d}')
    ||| c == ' '
    ||| c == '\u{85}'
    ||| c == '\u{a0}'
    ||| c == '\u{1680}'
    ||| ('\u{2000}' <= c && c <= '\u{200a}')
    ||| c == '\u{2028}'
    ||| c == '\u{2029}'
    ||| c == '\u{202f}'
    ||| c == '\u{205f}'
    ||| c == '\u{3000}'
}

/// `c` is an ASCII upper-case letter.
pub open spec fn is_ascii_upper(c: char) -> bool {
    'A' <= c && c <= 'Z'
}

/// `c` is an ASCII lower-case letter.
pub open spec fn is_ascii_lower(c: char) -> bool {
    'a' <= c && c <= 'z'
}

/// Every character of `s` is ASCII.
pub open spec fn all_ascii(s: Seq<char>) -> bool {
    forall|i: int| 0 <= i < s.len() ==> (#[trigger] s[i] as u32) < 128
}

/// `c` is an ASCII digit.
pub open spec fn is_ascii_digit(c: char) -> bool {
    '0' <= c && c <= '9'
}

/// Drops from the front of `s` every character for which `p` holds.
pub open spec fn strip_front(s: Seq<char>, p: spec_fn(char) -> bool) -> Seq<char>
    decreases s.len(),
{
    if s.len() > 0 && p(s[0]) {
        strip_front(s.drop_first(), p)
    } else {
        s
    }
}

/// Drops from the back of `s` every character for which `p` holds.
pub open spec fn strip_back(s: Seq<char>, p: spec_fn(char) -> bool) -> Seq<char>
    decreases s.len(),
{
    if s.len() > 0 && p(s.last()) {
        strip_back(s.drop_last(), p)
    } else {
        s
    }
}

/// What `str::trim` gives back: `s` without leading and trailing white space.
pub open spec fn trim_spec(s: Seq<char>) -> Seq<char> {
    strip_back(strip_front(s, |c: char| is_whitespace_char(c)), |c: char| is_whitespace_char(c))
}

/// What `str::trim_matches('"')` gives back.
pub open spec fn trim_quotes_spec(s: Seq<char>) -> Seq<char> {
    strip_back(strip_front(s, |c: char| c == '"'), |c: char| c == '"')
}

/// `s` without its delimiting quotes: one `"` taken off the front and one
/// off the back, where they stand.
pub open spec fn unquote_spec(s: Seq<char>) -> Seq<char> {
    let a = if s.len() > 0 && s[0] == '"' {
        s.skip(1)
    } else {
        s
    };
    if a.len() > 0 && a[a.len() - 1] == '"' {
        a.drop_last()
    } else {
        a
    }
}

/// `p` is a prefix of `s`.
pub open spec fn has_prefix(s: Seq<char>, p: Seq<char>) -> bool {
    p.len() <= s.len() && s.subrange(0, p.len() as int) == p
}

/// `p` is a suffix of `s`.
pub open spec fn has_suffix(s: Seq<char>, p: Seq<char>) -> bool {
    p.len() <= s.len() && s.subrange(s.len() - p.len(), s.len() as int) == p
}

/// `p` occurs in `s` at position `i`.
pub open spec fn occurs_at(s: Seq<char>, p: Seq<char>, i: int) -> bool {
    0 <= i && i + p.len() <= s.len() && s.subrange(i, i + p.len()) == p
}

/// `p` occurs somewhere in `s`.
pub open spec fn has_substring(s: Seq<char>, p: Seq<char>) -> bool {
    exists|i: int| occurs_at(s, p, i)
}

// ---------------------------------------------------------------------------
// Lemmas on the stripping functions
// ---------------------------------------------------------------------------

/// Stripping from the front skips exactly the leading run of `p`.
pub proof fn lemma_strip_front_skip(s: Seq<char>, p: spec_fn(char) -> bool, k: int)
    requires
        0 <= k <= s.len(),
        forall|i: int| 0 <= i < k ==> p(s[i]),
        k == s.len() || !p(s[k]),
    ensures
        strip_front(s, p) == s.subrange(k, s.len() as int),
    decreases k,
{
    if k == 0 {
        assert(s.subrange(0, s.len() as int) =~= s);
    } else {
        let t = s.drop_first();
        assert forall|i: int| 0 <= i < k - 1 implies p(t[i]) by {
            assert(t[i] == s[i + 1]);
        }
        if k - 1 < t.len() {
            assert(t[k - 1] == s[k]);
        }
        lemma_strip_front_skip(t, p, k - 1);
        assert(t.subrange(k - 1, t.len() as int) =~= s.subrange(k, s.len() as int));
    }
}

/// Stripping from the back takes exactly what precedes the trailing run of `p`.
pub proof fn lemma_strip_back_take(s: Seq<char>, p: spec_fn(char) -> bool, k: int)
    requires
        0 <= k <= s.len(),
        forall|i: int| k <= i < s.len() ==> p(s[i]),
        k == 0 || !p(s[k - 1]),
    ensures
        strip_back(s, p) == s.subrange(0, k),
    decreases s.len() - k,
{
    if k == s.len() {
        assert(s.subrange(0, k) =~= s);
    } else {
        let t = s.drop_last();
        assert forall|i: int| k <= i < t.len() implies p(t[i]) by {
            assert(t[i] == s[i]);
        }
        if k > 0 {
            assert(t[k - 1] == s[k - 1]);
        }
        lemma_strip_back_take(t, p, k);
        assert(t.subrange(0, k) =~= s.subrange(0, k));
    }
}

// ---------------------------------------------------------------------------
// Executable operations
// ---------------------------------------------------------------------------

/// The characters of `s`, in order.
pub fn chars_of(s: &str) -> (r: Vec<char>)
    ensures
        r@ == s@,
{
    let mut v: Vec<char> = Vec::new();
    for c in it: s.chars()
        invariant
            v@ == it.seq().take(it.index() as int),
            it.seq() == s@,
    {
        v.push(c);
    }
    v
}

/// `char::is_whitespace`.
pub fn is_whitespace(c: char) -> (r: bool)
    ensures
        r == is_whitespace_char(c),
{
    ('\u{9}' <= c && c <= '\u{d}') || c == ' ' || c == '\u{85}' || c == '\u{a0}' || c
        == '\u{1680}' || ('\u{2000}' <= c && c <= '\u{200a}') || c == '\u{2028}' || c
        == '\u{2029}' || c == '\u{202f}' || c == '\u{205f}' || c == '\u{3000}'
}

/// A new string holding the characters of `s`.
pub fn owned(s: &str) -> (r: String)
    ensures
        r@ == s@,
{
    s.to_owned()
}

/// The characters of `v` as a string.
pub fn string_from_chars(v: &[char]) -> (r: String)
    ensures
        r@ == v@,
{
    let mut out = String::new();
    for i in 0..v.len()
        invariant
            out@ == v@.take(i as int),
    {
        push_char(&mut out, v[i]);
        assert(v@.take(i + 1) =~= v@.take(i as int).push(v@[i as int]));
    }
    assert(v@.take(v@.len() as int) =~= v@);
    out
}

/// `String::push`: appends one character.
#[verifier::external_body]
pub(crate) fn push_char(s: &mut String, c: char)
    ensures
        final(s)@ == old(s)@.push(c),
{
    s.push(c)
}

/// Appends `t` to `s`.
pub fn push_str(s: &mut String, t: &str)
    ensures
        final(s)@ == old(s)@ + t@,
{
    s.append(t);
}

/// `a` followed by `b`, as a new string.
pub fn concat2(a: &str, b: &str) -> (r: String)
    ensures
        r@ == a@ + b@,
{
    let mut s = owned(a);
    push_str(&mut s, b);
    s
}

/// `a`, `b`, `c` one after the other, as a new string.
pub fn concat3(a: &str, b: &str, c: &str) -> (r: String)
    ensures
        r@ == a@ + b@ + c@,
{
    let mut s = owned(a);
    push_str(&mut s, b);
    push_str(&mut s, c);
    s
}

/// Character sequences `a` and `b` are equal.
pub fn chars_eq(a: &[char], b: &[char]) -> (r: bool)
    ensures
        r == (a@ == b@),
{
    if a.len() != b.len() {
        return false;
    }
    let mut i: usize = 0;
    while i < a.len()
        invariant
            a@.len() == b@.len(),
            i <= a@.len(),
            forall|j: int| 0 <= j < i ==> a@[j] == b@[j],
        decreases a@.len() - i,
    {
        if a[i] != b[i] {
            return false;
        }
        i = i + 1;
    }
    assert(a@ =~= b@);
    true
}

/// The strings `a` and `b` hold the same characters.
pub fn str_eq(a: &str, b: &str) -> (r: bool)
    ensures
        r == (a@ == b@),
{
    let x = chars_of(a);
    let y = chars_of(b);
    chars_eq(x.as_slice(), y.as_slice())
}

/// `s` has `p` as a prefix (`str::starts_with`).
pub fn starts_with(s: &str, p: &str) -> (r: bool)
    ensures
        r == has_prefix(s@, p@),
{
    let x = chars_of(s);
    let y = chars_of(p);
    if y.len() > x.len() {
        return false;
    }
    let mut i: usize = 0;
    while i < y.len()
        invariant
            y@.len() <= x@.len(),
            i <= y@.len(),
            x@ == s@,
            y@ == p@,
            forall|j: int| 0 <= j < i ==> x@[j] == y@[j],
        decreases y@.len() - i,
    {
        if x[i] != y[i] {
            assert(s@.subrange(0, p@.len() as int)[i as int] != p@[i as int]);
            return false;
        }
        i = i + 1;
    }
    assert(s@.subrange(0, p@.len() as int) =~= p@);
    true
}

/// `s` has `p` as a suffix (`str::ends_with`).
pub fn ends_with(s: &str, p: &str) -> (r: bool)
    ensures
        r == has_suffix(s@, p@),
{
    let x = chars_of(s);
    let y = chars_of(p);
    if y.len() > x.len() {
        return false;
    }
    let off = x.len() - y.len();
    let mut i: usize = 0;
    while i < y.len()
        invariant
            y@.len() <= x@.len(),
            off == x@.len() - y@.len(),
            off + y@.len() == x@.len(),
            x@.len() <= usize::MAX,
            i <= y@.len(),
            x@ == s@,
            y@ == p@,
            forall|j: int| 0 <= j < i ==> x@[off + j] == y@[j],
        decreases y@.len() - i,
    {
        if x[off + i] != y[i] {
            assert(s@.subrange(s@.len() - p@.len(), s@.len() as int)[i as int] != p@[i as int]);
            return false;
        }
        i = i + 1;
    }
    assert(s@.subrange(s@.len() - p@.len(), s@.len() as int) =~= p@);
    true
}

/// `x[at..]` starts with `y`.
pub(crate) fn occurs_at_exec(x: &Vec<char>, y: &Vec<char>, at: usize) -> (r: bool)
    requires
        at + y@.len() <= x@.len(),
    ensures
        r == occurs_at(x@, y@, at as int),
{
    let n = x.len();
    let mut i: usize = 0;
    while i < y.len()
        invariant
            at + y@.len() <= x@.len(),
            n == x@.len(),
            i <= y@.len(),
            forall|j: int| 0 <= j < i ==> x@[at + j] == y@[j],
        decreases y@.len() - i,
    {
        if x[at + i] != y[i] {
            assert(x@.subrange(at as int, at + y@.len())[i as int] != y@[i as int]);
            return false;
        }
        i = i + 1;
    }
    assert(x@.subrange(at as int, at + y@.len()) =~= y@);
    true
}

/// `p` occurs in `s` (`str::contains` with a string pattern).
pub fn contains_str(s: &str, p: &str) -> (r: bool)
    ensures
        r == has_substring(s@, p@),
{
    let x = chars_of(s);
    let y = chars_of(p);
    if y.len() > x.len() {
        assert forall|i: int| !occurs_at(s@, p@, i) by {}
        return false;
    }
    let last = x.len() - y.len();
    let mut i: usize = 0;
    loop
        invariant
            y@.len() <= x@.len(),
            last == x@.len() - y@.len(),
            i <= last,
            x@ == s@,
            y@ == p@,
            forall|j: int| 0 <= j < i ==> !occurs_at(s@, p@, j),
        ensures
            forall|j: int| 0 <= j <= last ==> !occurs_at(s@, p@, j),
        decreases last - i,
    {
        if occurs_at_exec(&x, &y, i) {
            return true;
        }
        if i == last {
            break;
        }
        i = i + 1;
    }
    false
}

/// `c` occurs in `s`.
pub fn contains_char(s: &str, c: char) -> (r: bool)
    ensures
        r == s@.contains(c),
{
    let x = chars_of(s);
    let mut i: usize = 0;
    while i < x.len()
        invariant
            x@ == s@,
            i <= x@.len(),
            forall|j: int| 0 <= j < i ==> x@[j] != c,
        decreases x@.len() - i,
    {
        if x[i] == c {
            assert(s@[i as int] == c);
            return true;
        }
        i = i + 1;
    }
    false
}

/// `str::trim`: `s` without leading and trailing white space.
pub fn trim(s: &str) -> (r: String)
    ensures
        r@ == trim_spec(s@),
{
    let x = chars_of(s);
    let ghost p = |c: char| is_whitespace_char(c);
    let mut i: usize = 0;
    while i < x.len() && is_whitespace(x[i])
        invariant
            x@ == s@,
            i <= x@.len(),
            forall|j: int| 0 <= j < i ==> #[trigger] is_whitespace_char(x@[j]),
        decreases x@.len() - i,
    {
        i = i + 1;
    }
    proof {
        lemma_strip_front_skip(s@, p, i as int);
    }
    let ghost front = s@.subrange(i as int, s@.len() as int);
    let mut j: usize = x.len();
    while j > i && is_whitespace(x[j - 1])
        invariant
            x@ == s@,
            i <= j <= x@.len(),
            forall|k: int| j <= k < x@.len() ==> #[trigger] is_whitespace_char(x@[k]),
        decreases j,
    {
        j = j - 1;
    }
    proof {
        assert forall|k: int| (j - i) <= k < front.len() implies p(front[k]) by {
            assert(front[k] == x@[i + k]);
        }
        if j > i {
            assert(front[j - i - 1] == x@[j - 1]);
        }
        lemma_strip_back_take(front, p, j - i);
        assert(front.subrange(0, j - i) =~= x@.subrange(i as int, j as int));
    }
    let sub = slice_chars(&x, i, j);
    string_from_chars(sub.as_slice())
}

/// `s` without its delimiting quotes (see `unquote_spec`).
pub fn unquote(s: &str) -> (r: String)
    ensures
        r@ == unquote_spec(s@),
{
    let x = chars_of(s);
    let mut from: usize = 0;
    if x.len() > 0 && x[0] == '"' {
        from = 1;
    }
    let mut to: usize = x.len();
    if to > from && x[to - 1] == '"' {
        to = to - 1;
    }
    let part = slice_chars(&x, from, to);
    proof {
        let a = if s@.len() > 0 && s@[0] == '"' {
            s@.skip(1)
        } else {
            s@
        };
        assert(a =~= x@.subrange(from as int, x@.len() as int));
        if a.len() > 0 && a[a.len() - 1] == '"' {
            assert(a.drop_last() =~= part@);
        } else {
            assert(a =~= part@);
        }
    }
    string_from_chars(part.as_slice())
}

/// `str::trim_matches('"')`: `s` without leading and trailing double quotes.
pub fn trim_quotes(s: &str) -> (r: String)
    ensures
        r@ == trim_quotes_spec(s@),
{
    let x = chars_of(s);
    let ghost p = |c: char| c == '"';
    let mut i: usize = 0;
    while i < x.len() && x[i] == '"'
        invariant
            x@ == s@,
            i <= x@.len(),
            forall|j: int| 0 <= j < i ==> x@[j] == '"',
        decreases x@.len() - i,
    {
        i = i + 1;
    }
    proof {
        lemma_strip_front_skip(s@, p, i as int);
    }
    let ghost front = s@.subrange(i as int, s@.len() as int);
    let mut j: usize = x.len();
    while j > i && x[j - 1] == '"'
        invariant
            x@ == s@,
            i <= j <= x@.len(),
            forall|k: int| j <= k < x@.len() ==> x@[k] == '"',
        decreases j,
    {
        j = j - 1;
    }
    proof {
        assert forall|k: int| (j - i) <= k < front.len() implies p(front[k]) by {
            assert(front[k] == x@[i + k]);
        }
        if j > i {
            assert(front[j - i - 1] == x@[j - 1]);
        }
        lemma_strip_back_take(front, p, j - i);
        assert(front.subrange(0, j - i) =~= x@.subrange(i as int, j as int));
    }
    let sub = slice_chars(&x, i, j);
    string_from_chars(sub.as_slice())
}

/// A newline, carriage return, space or tab.
pub open spec fn is_layout_char(c: char) -> bool {
    c == '\n' || c == '\r' || c == ' ' || c == '\t'
}

/// `str::trim_start_matches(['\n', '\r', ' ', '\t'])`: `s` without its
/// leading newlines, carriage returns, spaces and tabs.
pub fn trim_start_layout(s: &str) -> (r: String)
    ensures
        r@ == strip_front(s@, |c: char| is_layout_char(c)),
{
    let x = chars_of(s);
    let ghost p = |c: char| is_layout_char(c);
    let mut i: usize = 0;
    while i < x.len() && (x[i] == '\n' || x[i] == '\r' || x[i] == ' ' || x[i] == '\t')
        invariant
            x@ == s@,
            i <= x@.len(),
            forall|j: int| 0 <= j < i ==> is_layout_char(x@[j]),
        decreases x@.len() - i,
    {
        i = i + 1;
    }
    proof {
        lemma_strip_front_skip(s@, p, i as int);
    }
    let sub = slice_chars(&x, i, x.len());
    string_from_chars(sub.as_slice())
}

/// Where `p` first occurs in `s` at or after `i`, or the length of `s`
/// when it occurs there nowhere.
pub open spec fn first_match(s: Seq<char>, p: Seq<char>, i: int) -> int
    decreases s.len() - i,
{
    if i < 0 || i + p.len() > s.len() {
        s.len() as int
    } else if occurs_at(s, p, i) {
        i
    } else {
        proof {
            if p.len() == 0 {
                assert(s.subrange(i, i) =~= p);
            }
        }
        first_match(s, p, i + 1)
    }
}

/// What stands before the first occurrence of `p` in `s`, or all of `s`
/// (the first piece that `str::split` gives).
pub open spec fn split_head(s: Seq<char>, p: Seq<char>) -> Seq<char> {
    s.take(first_match(s, p, 0))
}

/// The first piece of `s` split at `p` (`s.split(p).next()`).
pub fn head_before(s: &str, p: &str) -> (r: String)
    ensures
        r@ == split_head(s@, p@),
{
    let x = chars_of(s);
    let y = chars_of(p);
    let mut i: usize = 0;
    loop
        invariant
            i <= x@.len(),
            x@ == s@,
            y@ == p@,
            first_match(x@, y@, 0) == first_match(x@, y@, i as int),
        decreases x@.len() - i,
    {
        if y.len() > x.len() - i {
            let all = slice_chars(&x, 0, x.len());
            assert(x@.take(x@.len() as int) =~= x@.subrange(0, x@.len() as int));
            return string_from_chars(all.as_slice());
        }
        if occurs_at_exec(&x, &y, i) {
            let head = slice_chars(&x, 0, i);
            assert(x@.take(i as int) =~= x@.subrange(0, i as int));
            return string_from_chars(head.as_slice());
        }
        if y.len() == 0 {
            assert(x@.subrange(i as int, i as int) =~= y@);
        }
        i = i + 1;
    }
}

/// The number that the decimal digits `s` write.
pub open spec fn digits_value(s: Seq<char>) -> int
    decreases s.len(),
{
    if s.len() == 0 {
        0
    } else {
        digits_value(s.drop_last()) * 10 + (s.last() as int - '0' as int)
    }
}

/// `s` is one or more ASCII digits.
pub open spec fn all_digits(s: Seq<char>) -> bool {
    s.len() > 0 && forall|i: int| 0 <= i < s.len() ==> is_ascii_digit(#[trigger] s[i])
}

/// What `str::parse::<i64>` gives: an optional `+` or `-` followed by one or
/// more ASCII digits, when the number fits in an `i64`.
pub open spec fn parse_i64_spec(s: Seq<char>) -> Option<i64> {
    let neg = s.len() > 0 && s[0] == '-';
    let body = if s.len() > 0 && (s[0] == '-' || s[0] == '+') {
        s.drop_first()
    } else {
        s
    };
    let v = if neg {
        -digits_value(body)
    } else {
        digits_value(body)
    };
    if all_digits(body) && i64::MIN <= v <= i64::MAX {
        Some(v as i64)
    } else {
        None
    }
}

proof fn lemma_digits_value_grows(s: Seq<char>, k: int)
    requires
        0 <= k <= s.len(),
        forall|i: int| 0 <= i < s.len() ==> is_ascii_digit(#[trigger] s[i]),
    ensures
        digits_value(s.take(k)) <= digits_value(s),
        0 <= digits_value(s.take(k)),
    decreases s.len() - k,
{
    if k < s.len() {
        let t = s.take(k + 1);
        assert(t.drop_last() =~= s.take(k));
        assert(t.last() == s[k]);
        assert(is_ascii_digit(s[k]));
        lemma_digits_value_grows(s, k + 1);
    } else {
        assert(s.take(k) =~= s);
        lemma_digits_nonnegative(s);
    }
}

proof fn lemma_digits_nonnegative(s: Seq<char>)
    requires
        forall|i: int| 0 <= i < s.len() ==> is_ascii_digit(#[trigger] s[i]),
    ensures
        0 <= digits_value(s),
    decreases s.len(),
{
    if s.len() > 0 {
        assert forall|i: int| 0 <= i < s.drop_last().len() implies is_ascii_digit(#[trigger] s.drop_last()[i]) by {
            assert(s.drop_last()[i] == s[i]);
        }
        lemma_digits_nonnegative(s.drop_last());
        assert(is_ascii_digit(s[s.len() - 1]));
    }
}

/// When the digits of `body` up to `k` already write more than `u64::MAX`,
/// `x` (a sign, if any, and then `body`) parses to no `i64`.
proof fn lemma_too_large(x: Seq<char>, body: Seq<char>, k: int)
    requires
        0 < k <= body.len(),
        body == (if x.len() > 0 && (x[0] == '-' || x[0] == '+') {
            x.drop_first()
        } else {
            x
        }),
        digits_value(body.take(k)) > u64::MAX,
    ensures
        parse_i64_spec(x) is None,
{
    if all_digits(body) {
        lemma_digits_value_grows(body, k);
    }
}

/// `s.parse::<i64>().ok()`.
pub fn parse_i64(s: &str) -> (r: Option<i64>)
    ensures
        r == parse_i64_spec(s@),
{
    let x = chars_of(s);
    let neg = x.len() > 0 && x[0] == '-';
    let start: usize = if x.len() > 0 && (x[0] == '-' || x[0] == '+') {
        1
    } else {
        0
    };
    let ghost body = if x@.len() > 0 && (x@[0] == '-' || x@[0] == '+') {
        x@.drop_first()
    } else {
        x@
    };
    assert(body =~= x@.subrange(start as int, x@.len() as int));
    if start >= x.len() {
        return None;
    }
    let mut acc: u64 = 0;
    let mut i = start;
    assert(body.take(0) =~= Seq::<char>::empty());
    while i < x.len()
        invariant
            start <= i <= x@.len(),
            start < x@.len(),
            x@ == s@,
            body == (if x@.len() > 0 && (x@[0] == '-' || x@[0] == '+') {
                x@.drop_first()
            } else {
                x@
            }),
            body =~= x@.subrange(start as int, x@.len() as int),
            acc as int == digits_value(body.take(i - start)),
            forall|j: int| 0 <= j < i - start ==> is_ascii_digit(#[trigger] body[j]),
        decreases x@.len() - i,
    {
        let c = x[i];
        if !('0' <= c && c <= '9') {
            assert(!is_ascii_digit(body[i - start]));
            return None;
        }
        let d = (c as u32 - '0' as u32) as u64;
        proof {
            let t = body.take(i - start + 1);
            assert(t.drop_last() =~= body.take(i - start));
            assert(t.last() == c);
        }
        match acc.checked_mul(10) {
            Some(m) => match m.checked_add(d) {
                Some(n) => {
                    acc = n;
                },
                None => {
                    proof {
                        lemma_too_large(x@, body, i - start + 1);
                    }
                    return None;
                },
            },
            None => {
                proof {
                    lemma_too_large(x@, body, i - start + 1);
                }
                return None;
            },
        }
        i = i + 1;
    }
    assert(body.take(body.len() as int) =~= body);
    if neg {
        if acc <= 9223372036854775808u64 {
            if acc == 9223372036854775808u64 {
                Some(i64::MIN)
            } else {
                Some(-(acc as i64))
            }
        } else {
            None
        }
    } else {
        if acc <= 9223372036854775807u64 {
            Some(acc as i64)
        } else {
            None
        }
    }
}

/// The characters `x[from..to]` as a new vector.
pub fn slice_chars(x: &Vec<char>, from: usize, to: usize) -> (r: Vec<char>)
    requires
        from <= to <= x@.len(),
    ensures
        r@ == x@.subrange(from as int, to as int),
{
    let mut out: Vec<char> = Vec::new();
    let mut i = from;
    while i < to
        invariant
            from <= i <= to <= x@.len(),
            out@ == x@.subrange(from as int, i as int),
        decreases to - i,
    {
        out.push(x[i]);
        i = i + 1;
        assert(out@ =~= x@.subrange(from as int, i as int));
    }
    out
}

/// The views of a list of string slices.
pub open spec fn str_views(names: Seq<&str>) -> Seq<Seq<char>> {
    names.map_values(|n: &str| n@)
}

/// `s` is one of `names` (`<[&str]>::contains`).
pub fn str_in(names: &[&str], s: &str) -> (r: bool)
    ensures
        r == str_views(names@).contains(s@),
{
    let mut i: usize = 0;
    while i < names.len()
        invariant
            i <= names@.len(),
            forall|j: int| 0 <= j < i ==> names@[j]@ != s@,
        decreases names@.len() - i,
    {
        if str_eq(names[i], s) {
            assert(str_views(names@)[i as int] == s@);
            return true;
        }
        i = i + 1;
    }
    assert forall|j: int| 0 <= j < str_views(names@).len() implies str_views(names@)[j] != s@ by {
        assert(str_views(names@)[j] == names@[j]@);
    }
    false
}

/// Unicode's `Uppercase` property, which `char::is_uppercase` tests.
pub uninterp spec fn unicode_uppercase(c: char) -> bool;

/// Unicode's numeric general categories (`Nd`, `Nl`, `No`), which
/// `char::is_numeric` tests.
pub uninterp spec fn unicode_numeric(c: char) -> bool;

/// `char::is_uppercase`: whether `c` has the Unicode `Uppercase` property.
/// Among ASCII characters exactly `A`..`Z` have it.
#[verifier::external_body]
pub(crate) fn char_is_uppercase(c: char) -> (r: bool)
    ensures
        r == unicode_uppercase(c),
        (c as u32) < 128 ==> (r <==> is_ascii_upper(c)),
{
    c.is_uppercase()
}

/// `char::is_numeric`: whether `c` is in one of Unicode's numeric general
/// categories. Among ASCII characters exactly the digits are.
#[verifier::external_body]
pub(crate) fn char_is_numeric(c: char) -> (r: bool)
    ensures
        r == unicode_numeric(c),
        (c as u32) < 128 ==> (r <==> is_ascii_digit(c)),
{
    c.is_numeric()
}

/// Unicode's uppercase mapping of a whole string, which `str::to_uppercase`
/// applies.
pub uninterp spec fn unicode_upper_str(s: Seq<char>) -> Seq<char>;

/// The ASCII uppercase of `c`: `a`..`z` mapped to `A`..`Z`, any other
/// character unchanged.
pub open spec fn ascii_upper_char(c: char) -> char {
    if is_ascii_lower(c) {
        ((c as u32) - 32) as char
    } else {
        c
    }
}

/// `str::to_uppercase`: the Unicode uppercase of `s`; on ASCII text, each
/// letter `a`..`z` becomes `A`..`Z` and every other character stays.
#[verifier::external_body]
pub(crate) fn str_to_uppercase(s: &str) -> (r: String)
    ensures
        r@ == unicode_upper_str(s@),
        (forall|i: int| 0 <= i < s@.len() ==> (#[trigger] s@[i] as u32) < 128) ==> r@ == s@.map_values(
            |c: char| ascii_upper_char(c),
        ),
{
    s.to_uppercase()
}

} // verus!
