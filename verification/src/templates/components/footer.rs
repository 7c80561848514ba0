use vstd::prelude::*;

verus! {

pub open spec fn footer_markup() -> Seq<char> {
    "<footer><p>made with \u{2764}\u{fe0f} by <a href=\"https://github.com/razmag\">razmag</a></p></footer>"@
}

pub fn footer() -> (m: String)
    ensures
        m@ == footer_markup(),
{
    "<footer><p>made with \u{2764}\u{fe0f} by <a href=\"https://github.com/razmag\">razmag</a></p></footer>".to_owned()
}

} // verus!
