use vstd::prelude::*;

verus! {

pub open spec fn navbar_markup() -> Seq<char> {
    "<nav class=\"navbar\"><a href=\"/\">Home</a><a href=\"/posts\">Posts</a><a href=\"/write\">Write</a><a href=\"/login\">Login</a><a href=\"/about\">About</a></nav>"@
}

pub fn navbar() -> (m: String)
    ensures
        m@ == navbar_markup(),
{
    "<nav class=\"navbar\"><a href=\"/\">Home</a><a href=\"/posts\">Posts</a><a href=\"/write\">Write</a><a href=\"/login\">Login</a><a href=\"/about\">About</a></nav>".to_owned()
}

} // verus!
