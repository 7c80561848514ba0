//! The page of a single post, rendered straight from its markdown file.
use vstd::prelude::*;
use vstd::string::{StrSliceExecFns, StringExecFns};

use crate::header::{
    fence_at, frontmatter_value, header_start, last_frontmatter_value, last_value_in,
    lemma_single_value_lookups_agree, opens_header, value_at, value_lines,
};
use crate::posts::{
    io_not_found, is_not_found, markdown_html, md_suffix, path_push, render_markdown, title_key,
};
use crate::text::{after_line, chars_of, first_line, has_newline, line_end};

verus! {

/// One character as `html_escape::encode_text` writes it.
pub open spec fn text_escaped_char(c: char) -> Seq<char> {
    if c == '&' {
        seq!['&', 'a', 'm', 'p', ';']
    } else if c == '<' {
        seq!['&', 'l', 't', ';']
    } else if c == '>' {
        seq!['&', 'g', 't', ';']
    } else {
        seq![c]
    }
}

/// Text escaped for HTML text content: `&`, `<` and `>` become entities.
pub open spec fn text_escaped(s: Seq<char>) -> Seq<char>
    decreases s.len(),
{
    if s.len() == 0 {
        Seq::empty()
    } else {
        text_escaped_char(s[0]) + text_escaped(s.drop_first())
    }
}

/// Escaped text holds no `<` or `>`: a title or an id shown on the page
/// cannot open or close a tag.
pub proof fn lemma_text_escaped_is_inert(s: Seq<char>)
    ensures
        forall|i: int|
            0 <= i < text_escaped(s).len() ==> #[trigger] text_escaped(s)[i] != '<'
                && text_escaped(s)[i] != '>',
    decreases s.len(),
{
    if s.len() > 0 {
        lemma_text_escaped_is_inert(s.drop_first());
        let head = text_escaped_char(s[0]);
        let tail = text_escaped(s.drop_first());
        assert forall|i: int| 0 <= i < text_escaped(s).len() implies #[trigger] text_escaped(s)[i]
            != '<' && text_escaped(s)[i] != '>' by {
            if i >= head.len() {
                assert(text_escaped(s)[i] == tail[i - head.len()]);
            }
        }
    }
}

/// `html_escape::encode_text`: claimed to replace `&`, `<` and `>` by
/// `&amp;`, `&lt;` and `&gt;` and keep every other character.
#[verifier::external_body]
fn encode_text(s: &str) -> (r: String)
    ensures
        r@ == text_escaped(s@),
{
    html_escape::encode_text(s).into_owned()
}

/// The title that the header of `md` gives; when it gives several, the last.
pub fn extract_title(md: &str) -> (r: Option<String>)
    ensures
        r.deep_view() == last_frontmatter_value(md@, title_key()),
{
    proof {
        reveal_strlit("title");
        assert("title"@ =~= title_key());
    }
    let cs = chars_of(md);
    let kc = chars_of("title");
    let n = cs.len();
    let mut pos = match header_start(&cs) {
        None => return None,
        Some(p) => p,
    };
    assert(after_line(md@) =~= cs@.subrange(pos as int, n as int));
    let mut found: Option<(usize, usize)> = None;
    loop
        invariant
            pos <= n == cs.len(),
            cs@ == md@,
            kc@ == title_key(),
            found matches Some((a, b)) ==> a <= b <= n,
            last_frontmatter_value(md@, title_key()) == (if last_value_in(
                cs@.subrange(pos as int, n as int),
                kc@,
            ) is Some {
                last_value_in(cs@.subrange(pos as int, n as int), kc@)
            } else {
                match found {
                    Some((a, b)) => Some(cs@.subrange(a as int, b as int)),
                    None => None,
                }
            }),
        decreases n + 1 - pos,
    {
        let ghost rest = cs@.subrange(pos as int, n as int);
        let e = line_end(&cs, pos);
        assert(first_line(rest) =~= cs@.subrange(pos as int, e as int));
        if fence_at(&cs, pos, e) {
            return match found {
                Some((a, b)) => Some(md.substring_char(a, b).to_owned()),
                None => None,
            };
        }
        match value_at(&cs, pos, e, &kc) {
            Some((a, b)) => {
                found = Some((a, b));
            },
            None => {},
        }
        if e == n {
            return match found {
                Some((a, b)) => Some(md.substring_char(a, b).to_owned()),
                None => None,
            };
        }
        assert(has_newline(rest));
        assert(after_line(rest) =~= cs@.subrange(e + 1, n as int));
        pos = e + 1;
    }
}

/// The post page and the listing show the same title when at most one header
/// line gives a title: the page takes the last one, the listing the first.
pub proof fn lemma_page_title_matches_listing_title(md: Seq<char>)
    requires
        opens_header(md) ==> value_lines(after_line(md), title_key()) <= 1,
    ensures
        last_frontmatter_value(md, title_key()) == frontmatter_value(md, title_key()),
{
    lemma_single_value_lookups_agree(md, title_key());
}

/// The directory of the posts, as the page reads it.
pub open spec fn page_posts_dir() -> Seq<char> {
    seq!['p', 'o', 's', 't', 's']
}

/// The path that the page reads the post `id` from.
pub fn post_file(id: &str) -> (path: String)
    ensures
        path@ == path_push(page_posts_dir(), id@ + md_suffix()),
{
    proof {
        reveal_strlit(".md");
        reveal_strlit("posts/");
        assert(".md"@ =~= md_suffix());
        assert("posts/"@ =~= page_posts_dir().push('/'));
    }
    let file = id.to_owned().concat(".md");
    if !id.is_empty() && id.get_char(0) == '/' {
        file
    } else {
        let path = "posts/".to_owned().concat(file.as_str());
        assert(path@ =~= page_posts_dir().push('/') + (id@ + md_suffix()));
        path
    }
}

/// A minimal HTML document with `title` (escaped) and `body` (as it is).
pub open spec fn simple_document(title: Seq<char>, body: Seq<char>) -> Seq<char> {
    "<!DOCTYPE html>\n<html lang=\"en\">\n<head>\n  <meta charset=\"utf-8\" />\n  <title>"@
        + text_escaped(title) + "</title>\n</head>\n<body>\n"@ + body + "\n</body>\n</html>"@
}

pub fn simple_page(title: &str, body: &str) -> (page: String)
    ensures
        page@ == simple_document(title@, body@),
{
    let escaped = encode_text(title);
    "<!DOCTYPE html>\n<html lang=\"en\">\n<head>\n  <meta charset=\"utf-8\" />\n  <title>".to_owned()
        .concat(escaped.as_str()).concat("</title>\n</head>\n<body>\n").concat(body).concat(
        "\n</body>\n</html>",
    )
}

/// The title that the page shows for the post `id` with markdown `md`.
pub open spec fn page_title(id: Seq<char>, md: Seq<char>) -> Seq<char> {
    match last_frontmatter_value(md, title_key()) {
        Some(t) => t,
        None => id,
    }
}

/// The page of the post `id` whose file holds `md`.
pub open spec fn post_document(id: Seq<char>, md: Seq<char>) -> Seq<char> {
    simple_document(
        page_title(id, md),
        "<article><h1>"@ + text_escaped(page_title(id, md)) + "</h1>"@ + markdown_html(md)
            + "</article>"@,
    )
}

/// The page of the post `id` whose file holds `markdown`.
pub fn render_post(id: &str, markdown: &str) -> (page: String)
    ensures
        page@ == post_document(id@, markdown@),
{
    let rendered = render_markdown(markdown);
    let title = match extract_title(markdown) {
        Some(t) => t,
        None => id.to_owned(),
    };
    let body = "<article><h1>".to_owned().concat(encode_text(title.as_str()).as_str()).concat(
        "</h1>",
    ).concat(rendered.as_str()).concat("</article>");
    simple_page(title.as_str(), body.as_str())
}

/// The page shown when no post has the id `id`.
pub open spec fn not_found_document(id: Seq<char>) -> Seq<char> {
    simple_document(
        "Post Not Found"@,
        "<h1>Post not found</h1><p>No post available for id <code>"@ + text_escaped(id)
            + "</code>.</p>"@,
    )
}

/// The page shown when the post could not be read otherwise.
pub open spec fn error_document() -> Seq<char> {
    simple_document(
        "Post Error"@,
        "<h1>Something went wrong</h1><p>Unable to load this post.</p>"@,
    )
}

/// The HTTP status and page for the post `id`, when reading its file failed:
/// 404 when the file is missing, else 500.
pub fn failure_reply(id: &str, not_found: bool) -> (reply: (u16, String))
    ensures
        not_found ==> reply.0 == 404 && reply.1@ == not_found_document(id@),
        !not_found ==> reply.0 == 500 && reply.1@ == error_document(),
{
    if not_found {
        let body = "<h1>Post not found</h1><p>No post available for id <code>".to_owned().concat(
            encode_text(id).as_str(),
        ).concat("</code>.</p>");
        (404, simple_page("Post Not Found", body.as_str()))
    } else {
        (500, simple_page("Post Error", "<h1>Something went wrong</h1><p>Unable to load this post.</p>"))
    }
}

/// The HTTP status and page for the post `id`, from what reading its file gave:
/// 200 and the post, 404 when the file is missing, else 500.
pub fn post_page(id: &str, read: &Result<String, std::io::Error>) -> (reply: (u16, String))
    ensures
        read matches Ok(md) ==> reply.0 == 200 && reply.1@ == post_document(id@, md@),
        read matches Err(e) ==> (io_not_found(*e) ==> reply.0 == 404 && reply.1@
            == not_found_document(id@)),
        read matches Err(e) ==> (!io_not_found(*e) ==> reply.0 == 500 && reply.1@
            == error_document()),
{
    match read {
        Ok(md) => (200, render_post(id, md.as_str())),
        Err(err) => failure_reply(id, is_not_found(err)),
    }
}

} // verus!
