//! The front-matter header of a post: a first line `---`, then `key: value`
//! lines up to a closing `---` line.
use vstd::prelude::*;

use crate::text::{
    after_line, first_line, has_newline, lemma_line_len_bound, lemma_line_len_prefix, line_end,
    line_len, range_equals, skip_end, skip_start, trim, trim_end, trim_matches, CharClass,
};

verus! {

/// The line that opens and closes the header.
pub open spec fn fence() -> Seq<char> {
    seq!['-', '-', '-']
}

/// A raw value, trimmed of whitespace, then of `"` and then of `'` at both ends.
pub open spec fn clean_value(v: Seq<char>) -> Seq<char> {
    trim_matches(trim_matches(trim(v), '"'), '\'')
}

/// What one header line yields for `key`: the cleaned text after `key:`,
/// when the line (trimmed at its end) starts with `key:` and that text is not
/// empty.
pub open spec fn line_value(line: Seq<char>, key: Seq<char>) -> Option<Seq<char>> {
    let t = trim_end(line);
    let prefix = key.push(':');
    if t.len() >= prefix.len() && t.take(prefix.len() as int) == prefix && clean_value(
        t.skip(prefix.len() as int),
    ).len() > 0 {
        Some(clean_value(t.skip(prefix.len() as int)))
    } else {
        None
    }
}

/// Whether `line` closes the header.
pub open spec fn is_fence(line: Seq<char>) -> bool {
    trim_end(line) == fence()
}

/// The first value for `key` among the header lines that start `rest`,
/// scanning up to the closing fence or the end of the text.
pub open spec fn first_value_in(rest: Seq<char>, key: Seq<char>) -> Option<Seq<char>>
    decreases rest.len(),
{
    if is_fence(first_line(rest)) {
        None
    } else if line_value(first_line(rest), key) is Some {
        line_value(first_line(rest), key)
    } else if has_newline(rest) {
        proof {
            lemma_line_len_bound(rest);
        }
        first_value_in(after_line(rest), key)
    } else {
        None
    }
}

/// The last value for `key` among the header lines that start `rest`.
pub open spec fn last_value_in(rest: Seq<char>, key: Seq<char>) -> Option<Seq<char>>
    decreases rest.len(),
{
    if is_fence(first_line(rest)) {
        None
    } else {
        let later = if has_newline(rest) {
            proof {
                lemma_line_len_bound(rest);
            }
            last_value_in(after_line(rest), key)
        } else {
            None
        };
        if later is Some {
            later
        } else {
            line_value(first_line(rest), key)
        }
    }
}

/// Whether the text opens with a header: its first line, trimmed, is `---`,
/// and a line break follows it.
pub open spec fn opens_header(md: Seq<char>) -> bool {
    has_newline(md) && trim(first_line(md)) == fence()
}

/// The first value for `key` in the header of `md`; none when `md` does not
/// open with a header.
pub open spec fn frontmatter_value(md: Seq<char>, key: Seq<char>) -> Option<Seq<char>> {
    if opens_header(md) {
        first_value_in(after_line(md), key)
    } else {
        None
    }
}

/// The last value for `key` in the header of `md`.
pub open spec fn last_frontmatter_value(md: Seq<char>, key: Seq<char>) -> Option<Seq<char>> {
    if opens_header(md) {
        last_value_in(after_line(md), key)
    } else {
        None
    }
}

/// Whether a closing `---` line comes among the lines that start `rest`.
pub open spec fn closes_header(rest: Seq<char>) -> bool
    decreases rest.len(),
{
    if is_fence(first_line(rest)) {
        true
    } else if has_newline(rest) {
        proof {
            lemma_line_len_bound(rest);
        }
        closes_header(after_line(rest))
    } else {
        false
    }
}

/// `md` opens with a header and closes it.
pub open spec fn header_closed(md: Seq<char>) -> bool {
    opens_header(md) && closes_header(after_line(md))
}

/// How many lines of the header that starts `rest` give a value for `key`.
pub open spec fn value_lines(rest: Seq<char>, key: Seq<char>) -> nat
    decreases rest.len(),
{
    if is_fence(first_line(rest)) {
        0
    } else {
        (if line_value(first_line(rest), key) is Some {
            1nat
        } else {
            0nat
        }) + (if has_newline(rest) {
            proof {
                lemma_line_len_bound(rest);
            }
            value_lines(after_line(rest), key)
        } else {
            0nat
        })
    }
}

/// Text that ends with a line break holds one, and what follows its first
/// line ends with that line break too.
proof fn lemma_ends_with_newline(rest: Seq<char>)
    requires
        rest.len() > 0,
        rest.last() == '\n',
    ensures
        has_newline(rest),
        after_line(rest).len() > 0 ==> after_line(rest).last() == '\n',
{
    lemma_line_len_bound(rest);
    if line_len(rest) == rest.len() {
        assert(rest[rest.len() - 1] != '\n');
    }
}

proof fn lemma_header_lines_ignore_tail(rest: Seq<char>, tail: Seq<char>, key: Seq<char>)
    requires
        rest.len() > 0,
        rest.last() == '\n',
        closes_header(rest),
    ensures
        first_value_in(rest + tail, key) == first_value_in(rest, key),
        last_value_in(rest + tail, key) == last_value_in(rest, key),
    decreases rest.len(),
{
    lemma_ends_with_newline(rest);
    lemma_line_len_prefix(rest, tail);
    lemma_line_len_bound(rest);
    lemma_line_len_bound(rest + tail);
    if !is_fence(first_line(rest)) {
        let next = after_line(rest);
        if next.len() == 0 {
            assert(first_line(next) =~= next);
            assert(!is_fence(first_line(next)));
            assert(!has_newline(next));
            assert(!closes_header(next));
            assert(false);
        } else {
            lemma_header_lines_ignore_tail(next, tail, key);
        }
    }
}

/// Nothing after the closing `---` line matters: a header that is closed,
/// on text ending with a line break, gives every key the same values
/// whatever text is appended.
pub proof fn lemma_closed_header_ignores_tail(md: Seq<char>, tail: Seq<char>, key: Seq<char>)
    requires
        header_closed(md),
        md.last() == '\n',
    ensures
        frontmatter_value(md + tail, key) == frontmatter_value(md, key),
        last_frontmatter_value(md + tail, key) == last_frontmatter_value(md, key),
{
    lemma_line_len_bound(md);
    lemma_line_len_prefix(md, tail);
    lemma_line_len_bound(md + tail);
    let rest = after_line(md);
    if rest.len() == 0 {
        assert(first_line(rest) =~= rest);
        assert(!is_fence(first_line(rest)));
        assert(!has_newline(rest));
    } else {
        assert(rest.last() == md.last());
        lemma_header_lines_ignore_tail(rest, tail, key);
    }
}

proof fn lemma_no_value_lines(rest: Seq<char>, key: Seq<char>)
    requires
        value_lines(rest, key) == 0,
    ensures
        first_value_in(rest, key) is None,
        last_value_in(rest, key) is None,
    decreases rest.len(),
{
    lemma_line_len_bound(rest);
    if !is_fence(first_line(rest)) && has_newline(rest) {
        lemma_no_value_lines(after_line(rest), key);
    }
}

proof fn lemma_single_value_line(rest: Seq<char>, key: Seq<char>)
    requires
        value_lines(rest, key) <= 1,
    ensures
        first_value_in(rest, key) == last_value_in(rest, key),
    decreases rest.len(),
{
    lemma_line_len_bound(rest);
    if !is_fence(first_line(rest)) && has_newline(rest) {
        if line_value(first_line(rest), key) is Some {
            lemma_no_value_lines(after_line(rest), key);
        } else {
            lemma_single_value_line(after_line(rest), key);
        }
    }
}

/// When at most one header line gives `key` a value, the first value and the
/// last value are the same.
pub proof fn lemma_single_value_lookups_agree(md: Seq<char>, key: Seq<char>)
    requires
        opens_header(md) ==> value_lines(after_line(md), key) <= 1,
    ensures
        frontmatter_value(md, key) == last_frontmatter_value(md, key),
{
    if opens_header(md) {
        lemma_single_value_line(after_line(md), key);
    }
}

pub fn fence_chars() -> (v: Vec<char>)
    ensures
        v@ == fence(),
{
    let mut v: Vec<char> = Vec::new();
    v.push('-');
    v.push('-');
    v.push('-');
    assert(v@ =~= fence());
    v
}

/// Where the second line starts, when `cs` opens with a header.
pub fn header_start(cs: &Vec<char>) -> (r: Option<usize>)
    ensures
        r is Some <==> opens_header(cs@),
        r matches Some(p) ==> p == line_len(cs@) + 1 && p <= cs.len(),
{
    let n = cs.len();
    let e = line_end(cs, 0);
    proof {
        assert(cs@.subrange(0, n as int) =~= cs@);
        lemma_line_len_bound(cs@);
        assert(first_line(cs@) =~= cs@.subrange(0, e as int));
    }
    if e == n {
        return None;
    }
    let lo = skip_start(cs, 0, e, CharClass::Space);
    let hi = skip_end(cs, lo, e, CharClass::Space);
    let f = fence_chars();
    if range_equals(cs, lo, hi, &f) {
        Some(e + 1)
    } else {
        None
    }
}

/// Whether the line `cs[pos..e]` closes the header.
pub fn fence_at(cs: &Vec<char>, pos: usize, e: usize) -> (b: bool)
    requires
        pos <= e <= cs.len(),
    ensures
        b == is_fence(cs@.subrange(pos as int, e as int)),
{
    let hi = skip_end(cs, pos, e, CharClass::Space);
    let f = fence_chars();
    range_equals(cs, pos, hi, &f)
}

/// Where the cleaned value of `cs[lo..hi]` lies.
pub fn clean_range(cs: &Vec<char>, lo: usize, hi: usize) -> (r: (usize, usize))
    requires
        lo <= hi <= cs.len(),
    ensures
        lo <= r.0 <= r.1 <= hi,
        cs@.subrange(r.0 as int, r.1 as int) == clean_value(cs@.subrange(lo as int, hi as int)),
{
    let a1 = skip_start(cs, lo, hi, CharClass::Space);
    let h1 = skip_end(cs, a1, hi, CharClass::Space);
    let a2 = skip_start(cs, a1, h1, CharClass::Only('"'));
    let h2 = skip_end(cs, a2, h1, CharClass::Only('"'));
    let a3 = skip_start(cs, a2, h2, CharClass::Only('\''));
    let h3 = skip_end(cs, a3, h2, CharClass::Only('\''));
    (a3, h3)
}

/// The value that the line `cs[pos..e]` yields for the key `kc`, as a range
/// of `cs`.
pub fn value_at(cs: &Vec<char>, pos: usize, e: usize, kc: &Vec<char>) -> (r: Option<(usize, usize)>)
    requires
        pos <= e <= cs.len(),
    ensures
        r is Some <==> line_value(cs@.subrange(pos as int, e as int), kc@) is Some,
        r matches Some((a, b)) ==> a <= b <= cs.len() && line_value(
            cs@.subrange(pos as int, e as int),
            kc@,
        ) == Some(cs@.subrange(a as int, b as int)),
{
    let hi = skip_end(cs, pos, e, CharClass::Space);
    let ghost t = cs@.subrange(pos as int, hi as int);
    let ghost prefix = kc@.push(':');
    let k = kc.len();
    if hi - pos <= k {
        return None;
    }
    let key_matches = range_equals(cs, pos, pos + k, kc);
    if !key_matches || cs[pos + k] != ':' {
        proof {
            if t.take(prefix.len() as int) == prefix {
                assert(prefix.take(k as int) =~= kc@);
                assert(cs@.subrange(pos as int, pos + k) =~= t.take(prefix.len() as int).take(
                    k as int,
                ));
                assert(t.take(prefix.len() as int)[k as int] == cs@[pos + k]);
                assert(prefix[k as int] == ':');
            }
        }
        return None;
    }
    assert(t.take(prefix.len() as int) =~= prefix);
    assert(t.skip(prefix.len() as int) =~= cs@.subrange(pos + k + 1, hi as int));
    let (a, b) = clean_range(cs, pos + k + 1, hi);
    if a < b {
        Some((a, b))
    } else {
        None
    }
}

} // verus!
