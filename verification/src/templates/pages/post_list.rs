use vstd::prelude::*;
use vstd::string::StringExecFns;

use crate::order::views;
use crate::posts::{Post, PostView};
use crate::templates::components::layout::{layout, layout_markup};
use crate::templates::components::post::{post_component, post_markup};

verus! {

/// The articles of `posts`, one after the other.
pub open spec fn articles(posts: Seq<PostView>) -> Seq<char>
    decreases posts.len(),
{
    if posts.len() == 0 {
        Seq::empty()
    } else {
        articles(posts.drop_last()) + post_markup(posts.last())
    }
}

/// The section that lists `posts`, or says that there are none.
pub open spec fn post_list_section(posts: Seq<PostView>) -> Seq<char> {
    "<section><h1>Posts</h1>"@ + (if posts.len() == 0 {
        "<p>No posts available.</p>"@
    } else {
        articles(posts)
    }) + "</section>"@
}

pub fn post_list_page(posts: Vec<Post>) -> (m: String)
    ensures
        m@ == layout_markup("Posts"@, post_list_section(views(posts@))),
{
    let ghost vs = views(posts@);
    let mut section = "<section><h1>Posts</h1>".to_owned();
    if posts.len() == 0 {
        section = section.concat("<p>No posts available.</p>");
    } else {
        let ghost start = section@;
        let mut i: usize = 0;
        while i < posts.len()
            invariant
                i <= posts.len(),
                vs == views(posts@),
                section@ == start + articles(vs.take(i as int)),
            decreases posts.len() - i,
        {
            assert(vs.take(i + 1).drop_last() =~= vs.take(i as int));
            section = section.concat(post_component(&posts[i]).as_str());
            i = i + 1;
        }
        assert(vs.take(posts.len() as int) =~= vs);
    }
    section = section.concat("</section>");
    layout("Posts", section.as_str())
}

/// A list of one post shows that post's article, and nothing else, in the
/// section.
pub proof fn lemma_one_post_listed(p: PostView)
    ensures
        post_list_section(seq![p]) == "<section><h1>Posts</h1>"@ + post_markup(p)
            + "</section>"@,
{
    assert(seq![p].drop_last() =~= Seq::<PostView>::empty());
    assert(seq![p].last() == p);
    assert(articles(Seq::<PostView>::empty()) =~= Seq::<char>::empty());
    assert(articles(seq![p]) == articles(Seq::<PostView>::empty()) + post_markup(p));
    assert(articles(seq![p]) =~= post_markup(p));
}

/// Adding a post at the end of a non-empty list adds its article at the end
/// of the section, before `</section>`, and changes nothing else: every post
/// listed is shown, in order.
pub proof fn lemma_next_post_listed(posts: Seq<PostView>, p: PostView, before: Seq<char>)
    requires
        posts.len() > 0,
        post_list_section(posts) == before + "</section>"@,
    ensures
        post_list_section(posts.push(p)) == before + post_markup(p) + "</section>"@,
{
    let head = "<section><h1>Posts</h1>"@;
    let tail = "</section>"@;
    assert(posts.push(p).drop_last() =~= posts);
    assert(articles(posts.push(p)) == articles(posts) + post_markup(p));
    assert(head + articles(posts) + tail == before + tail);
    assert(before =~= (before + tail).take(before.len() as int));
    assert(head + articles(posts) =~= (head + articles(posts) + tail).take(
        (head + articles(posts)).len() as int,
    ));
    assert(before == head + articles(posts));
    assert(post_list_section(posts.push(p)) =~= before + post_markup(p) + tail);
}

} // verus!
