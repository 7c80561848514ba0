//! The shorter navigation bar: home, posts and about.
use vstd::prelude::*;

verus! {

pub open spec fn short_navbar_markup() -> Seq<char> {
    "<nav class=\"navbar\"><a href=\"/\">Home</a><a href=\"/posts\">Posts</a><a href=\"/about\">About</a></nav>"@
}

pub fn navbar() -> (m: String)
    ensures
        m@ == short_navbar_markup(),
{
    "<nav class=\"navbar\"><a href=\"/\">Home</a><a href=\"/posts\">Posts</a><a href=\"/about\">About</a></nav>".to_owned()
}

} // verus!
