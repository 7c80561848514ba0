//! Character-level text helpers shared by the post parsers: whitespace as
//! `char::is_whitespace` defines it, trimming, and line scanning.
use vstd::prelude::*;

verus! {

/// The Unicode `White_Space` property, which `char::is_whitespace` tests.
pub open spec fn is_space(c: char) -> bool {
    ||| c == ' '
    ||| ('\t' <= c && c <= '\r')
    ||| c == '\u{85}'
    ||| c == '\u{a0}'
    ||| c == '\u{1680}'
    ||| ('\u{2000}' <= c && c <= '\u{200a}')
    ||| c == '\u{2028}'
    ||| c == '\u{2029}'
    ||| c == '\u{202f}'
    ||| c == '\u{205f}'
    ||| c == '\u{3000}'
}

/// The characters that a trim removes: whitespace, or one given character.
#[derive(Clone, Copy)]
pub enum CharClass {
    Space,
    Only(char),
}

pub open spec fn in_class(k: CharClass, c: char) -> bool {
    match k {
        CharClass::Space => is_space(c),
        CharClass::Only(x) => c == x,
    }
}

/// `s` without its leading characters of class `k`.
pub open spec fn trim_start_in(s: Seq<char>, k: CharClass) -> Seq<char>
    decreases s.len(),
{
    if s.len() > 0 && in_class(k, s[0]) {
        trim_start_in(s.drop_first(), k)
    } else {
        s
    }
}

/// `s` without its trailing characters of class `k`.
pub open spec fn trim_end_in(s: Seq<char>, k: CharClass) -> Seq<char>
    decreases s.len(),
{
    if s.len() > 0 && in_class(k, s.last()) {
        trim_end_in(s.drop_last(), k)
    } else {
        s
    }
}

/// `str::trim_end`.
pub open spec fn trim_end(s: Seq<char>) -> Seq<char> {
    trim_end_in(s, CharClass::Space)
}

/// `str::trim`.
pub open spec fn trim(s: Seq<char>) -> Seq<char> {
    trim_end_in(trim_start_in(s, CharClass::Space), CharClass::Space)
}

/// `str::trim_matches` with a single character.
pub open spec fn trim_matches(s: Seq<char>, c: char) -> Seq<char> {
    trim_end_in(trim_start_in(s, CharClass::Only(c)), CharClass::Only(c))
}

/// Length of the first line of `s`: the index of its first `'\n'`, or its
/// length when it has none.
pub open spec fn line_len(s: Seq<char>) -> nat
    decreases s.len(),
{
    if s.len() == 0 {
        0
    } else if s[0] == '\n' {
        0
    } else {
        1 + line_len(s.drop_first())
    }
}

/// The first line of `s`, without its `'\n'`.
pub open spec fn first_line(s: Seq<char>) -> Seq<char> {
    s.take(line_len(s) as int)
}

/// What follows the first `'\n'` of `s`.
pub open spec fn after_line(s: Seq<char>) -> Seq<char> {
    s.skip(line_len(s) + 1int)
}

/// Whether `s` holds a `'\n'`, so that another line follows the first.
pub open spec fn has_newline(s: Seq<char>) -> bool {
    line_len(s) < s.len()
}

pub proof fn lemma_line_len_bound(s: Seq<char>)
    ensures
        line_len(s) <= s.len(),
        line_len(s) < s.len() ==> s[line_len(s) as int] == '\n',
        forall|i: int| 0 <= i < line_len(s) ==> s[i] != '\n',
    decreases s.len(),
{
    if s.len() > 0 && s[0] != '\n' {
        lemma_line_len_bound(s.drop_first());
        assert forall|i: int| 0 <= i < line_len(s) implies s[i] != '\n' by {
            if i > 0 {
                assert(s[i] == s.drop_first()[i - 1]);
            }
        }
    }
}

/// A line without `'\n'` is the whole first line of itself, a newline and
/// anything after.
pub proof fn lemma_line_then_newline(a: Seq<char>, s: Seq<char>)
    requires
        forall|i: int| 0 <= i < a.len() ==> a[i] != '\n',
    ensures
        line_len(a + seq!['\n'] + s) == a.len(),
    decreases a.len(),
{
    if a.len() > 0 {
        assert((a + seq!['\n'] + s).drop_first() =~= a.drop_first() + seq!['\n'] + s);
        lemma_line_then_newline(a.drop_first(), s);
    }
}

/// Text that holds a line break keeps its first line, whatever follows it.
pub proof fn lemma_line_len_prefix(y: Seq<char>, s: Seq<char>)
    requires
        has_newline(y),
    ensures
        line_len(y + s) == line_len(y),
        first_line(y + s) == first_line(y),
        after_line(y + s) == after_line(y) + s,
    decreases y.len(),
{
    if y[0] != '\n' {
        assert((y + s).drop_first() =~= y.drop_first() + s);
        lemma_line_len_prefix(y.drop_first(), s);
    }
    assert(first_line(y + s) =~= first_line(y));
    assert(after_line(y + s) =~= after_line(y) + s);
}

pub fn is_space_char(c: char) -> (b: bool)
    ensures
        b == is_space(c),
{
    c == ' ' || ('\t' <= c && c <= '\r') || c == '\u{85}' || c == '\u{a0}' || c == '\u{1680}'
        || ('\u{2000}' <= c && c <= '\u{200a}') || c == '\u{2028}' || c == '\u{2029}'
        || c == '\u{202f}' || c == '\u{205f}' || c == '\u{3000}'
}

pub fn in_class_char(k: CharClass, c: char) -> (b: bool)
    ensures
        b == in_class(k, c),
{
    match k {
        CharClass::Space => is_space_char(c),
        CharClass::Only(x) => c == x,
    }
}

/// The characters of `s`, in order.
pub fn chars_of(s: &str) -> (v: Vec<char>)
    ensures
        v@ == s@,
{
    let mut v: Vec<char> = Vec::new();
    for c in it: s.chars()
        invariant
            v@ == it.seq().take(it.index() as int),
            it.seq() == s@,
    {
        v.push(c);
    }
    v
}

/// Start of `cs[lo..hi]` once its leading characters of class `k` are gone.
pub fn skip_start(cs: &Vec<char>, lo: usize, hi: usize, k: CharClass) -> (r: usize)
    requires
        lo <= hi <= cs.len(),
    ensures
        lo <= r <= hi,
        cs@.subrange(r as int, hi as int) == trim_start_in(cs@.subrange(lo as int, hi as int), k),
{
    let mut r = lo;
    while r < hi && in_class_char(k, cs[r])
        invariant
            lo <= r <= hi <= cs.len(),
            trim_start_in(cs@.subrange(r as int, hi as int), k) == trim_start_in(
                cs@.subrange(lo as int, hi as int),
                k,
            ),
        decreases hi - r,
    {
        assert(cs@.subrange(r as int, hi as int).drop_first() =~= cs@.subrange(
            r + 1,
            hi as int,
        ));
        r = r + 1;
    }
    r
}

/// End of `cs[lo..hi]` once its trailing characters of class `k` are gone.
pub fn skip_end(cs: &Vec<char>, lo: usize, hi: usize, k: CharClass) -> (r: usize)
    requires
        lo <= hi <= cs.len(),
    ensures
        lo <= r <= hi,
        cs@.subrange(lo as int, r as int) == trim_end_in(cs@.subrange(lo as int, hi as int), k),
{
    let mut r = hi;
    while r > lo && in_class_char(k, cs[r - 1])
        invariant
            lo <= r <= hi <= cs.len(),
            trim_end_in(cs@.subrange(lo as int, r as int), k) == trim_end_in(
                cs@.subrange(lo as int, hi as int),
                k,
            ),
        decreases r - lo,
    {
        assert(cs@.subrange(lo as int, r as int).drop_last() =~= cs@.subrange(
            lo as int,
            r - 1,
        ));
        r = r - 1;
    }
    r
}

/// End of the line that starts at `pos`: the index of the next `'\n'`, or
/// the length of `cs`.
pub fn line_end(cs: &Vec<char>, pos: usize) -> (e: usize)
    requires
        pos <= cs.len(),
    ensures
        pos <= e <= cs.len(),
        e - pos == line_len(cs@.subrange(pos as int, cs.len() as int)),
{
    let n = cs.len();
    let mut e = pos;
    while e < n && cs[e] != '\n'
        invariant
            pos <= e <= n == cs.len(),
            line_len(cs@.subrange(pos as int, n as int)) == (e - pos) + line_len(
                cs@.subrange(e as int, n as int),
            ),
        decreases n - e,
    {
        assert(cs@.subrange(e as int, n as int).drop_first() =~= cs@.subrange(e + 1, n as int));
        e = e + 1;
    }
    e
}

/// Whether `cs[lo..hi]` equals `pat`.
pub fn range_equals(cs: &Vec<char>, lo: usize, hi: usize, pat: &Vec<char>) -> (b: bool)
    requires
        lo <= hi <= cs.len(),
    ensures
        b == (cs@.subrange(lo as int, hi as int) == pat@),
{
    if hi - lo != pat.len() {
        return false;
    }
    let mut i: usize = 0;
    while i < pat.len()
        invariant
            lo <= hi <= cs.len(),
            hi - lo == pat.len(),
            i <= pat.len(),
            forall|j: int| 0 <= j < i ==> cs@[lo + j] == pat@[j],
        decreases pat.len() - i,
    {
        if cs[lo + i] != pat[i] {
            assert(cs@.subrange(lo as int, hi as int)[i as int] != pat@[i as int]);
            return false;
        }
        i = i + 1;
    }
    assert(cs@.subrange(lo as int, hi as int) =~= pat@);
    true
}

} // verus!
