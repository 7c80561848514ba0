use vstd::prelude::*;

use crate::posts::Post;
use crate::templates::components::layout::{layout, layout_markup};
use crate::templates::components::post::{post_component, post_markup};

verus! {

/// The page of one post, titled by it.
pub fn post_page(post: Post) -> (m: String)
    ensures
        m@ == layout_markup(post@.title, post_markup(post@)),
{
    layout(post.title.as_str(), post_component(&post).as_str())
}

} // verus!
