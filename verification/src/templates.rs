//! The HTML pages of the site, as `maud` would write them.
pub mod components;
pub mod navbar;
pub mod pages;

use vstd::prelude::*;

verus! {

/// One character as `maud` escapes text: `&`, `<`, `>` and `"` become
/// entities.
pub open spec fn markup_escaped_char(c: char) -> Seq<char> {
    if c == '&' {
        seq!['&', 'a', 'm', 'p', ';']
    } else if c == '<' {
        seq!['&', 'l', 't', ';']
    } else if c == '>' {
        seq!['&', 'g', 't', ';']
    } else if c == '"' {
        seq!['&', 'q', 'u', 'o', 't', ';']
    } else {
        seq![c]
    }
}

/// Text as `maud` escapes it.
pub open spec fn markup_escaped(s: Seq<char>) -> Seq<char>
    decreases s.len(),
{
    if s.len() == 0 {
        Seq::empty()
    } else {
        markup_escaped_char(s[0]) + markup_escaped(s.drop_first())
    }
}

/// Escaped text holds no `<`, `>` or `"`: text that a page shows cannot
/// open or close a tag, nor end an attribute's value.
pub proof fn lemma_markup_escaped_is_inert(s: Seq<char>)
    ensures
        forall|i: int|
            0 <= i < markup_escaped(s).len() ==> #[trigger] markup_escaped(s)[i] != '<'
                && markup_escaped(s)[i] != '>' && markup_escaped(s)[i] != '"',
    decreases s.len(),
{
    if s.len() > 0 {
        lemma_markup_escaped_is_inert(s.drop_first());
        let head = markup_escaped_char(s[0]);
        let tail = markup_escaped(s.drop_first());
        assert forall|i: int| 0 <= i < markup_escaped(s).len() implies #[trigger] markup_escaped(
            s,
        )[i] != '<' && markup_escaped(s)[i] != '>' && markup_escaped(s)[i] != '"' by {
            if i >= head.len() {
                assert(markup_escaped(s)[i] == tail[i - head.len()]);
            }
        }
    }
}

/// `maud::Render::render` on text, then `into_string`: claimed to replace
/// `&`, `<`, `>` and `"` by `&amp;`, `&lt;`, `&gt;` and `&quot;` and keep every
/// other character, as maud's own documentation of its escaping says.
#[verifier::external_body]
pub(crate) fn escape_markup(s: &str) -> (r: String)
    ensures
        r@ == markup_escaped(s@),
{
    maud::Render::render(s).into_string()
}

} // verus!
