use vstd::prelude::*;
use vstd::string::StringExecFns;

use crate::posts::{Post, PostView};
use crate::templates::{escape_markup, markup_escaped};

verus! {

/// A post as an article: its title (escaped) as a heading, then its body.
pub open spec fn post_markup(post: PostView) -> Seq<char> {
    "<article><h2>"@ + markup_escaped(post.title) + "</h2>"@ + post.body_html + "</article>"@
}

pub fn post_component(post: &Post) -> (m: String)
    ensures
        m@ == post_markup(post@),
{
    "<article><h2>".to_owned().concat(escape_markup(post.title.as_str()).as_str()).concat(
        "</h2>",
    ).concat(post.body_html.as_str()).concat("</article>")
}

} // verus!
