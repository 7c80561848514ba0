use xub::post::{failure_reply, post_page, render_post, simple_page};
use xub::posts::{Post, Timestamp};
use xub::templates::components::footer::footer;
use xub::templates::components::layout::layout;
use xub::templates::components::navbar::navbar;
use xub::templates::components::post::post_component;
use xub::templates::navbar::navbar as short_navbar;
use xub::templates::pages::{home_page, login_page, logout_page, secret_page, write_page};
use xub::templates::pages::post::post_page as single_post_page;
use xub::templates::pages::post_list::post_list_page;
use xub::templates::pages::{login, logout};

const NAV: &str = "<nav class=\"navbar\"><a href=\"/\">Home</a><a href=\"/posts\">Posts</a><a href=\"/write\">Write</a><a href=\"/login\">Login</a><a href=\"/about\">About</a></nav>";
const FOOT: &str = "<footer><p>made with \u{2764}\u{fe0f} by <a href=\"https://github.com/razmag\">razmag</a></p></footer>";

fn framed(title: &str, content: &str) -> String {
    format!(
        "<!DOCTYPE html><html lang=\"en\"><head><meta charset=\"utf-8\"><meta name=\"viewport\" content=\"width=device-width, initial-scale=1\"><title>{title}</title></head><body>{NAV}<main>{content}</main>{FOOT}</body></html>"
    )
}

#[test]
fn fixed_components() {
    assert_eq!(navbar(), NAV);
    assert_eq!(footer(), FOOT);
    assert_eq!(
        short_navbar(),
        "<nav class=\"navbar\"><a href=\"/\">Home</a><a href=\"/posts\">Posts</a><a href=\"/about\">About</a></nav>"
    );
}

#[test]
fn layout_escapes_title_not_content() {
    assert_eq!(
        layout("A & \"B\" <C>", "<p>x</p>"),
        framed("A &amp; &quot;B&quot; &lt;C&gt;", "<p>x</p>")
    );
}

#[test]
fn post_component_markup() {
    let post = Post {
        id: "p".to_string(),
        title: "<Hi>".to_string(),
        body_html: "<p>raw</p>".to_string(),
        created: Some(Timestamp { secs: 1, nanos: 0 }),
    };
    assert_eq!(post_component(&post), "<article><h2>&lt;Hi&gt;</h2><p>raw</p></article>");
    assert_eq!(
        single_post_page(post),
        framed("&lt;Hi&gt;", "<article><h2>&lt;Hi&gt;</h2><p>raw</p></article>")
    );
}

#[test]
fn post_list_empty_and_full() {
    assert_eq!(
        post_list_page(vec![]),
        framed("Posts", "<section><h1>Posts</h1><p>No posts available.</p></section>")
    );
    let posts = vec![
        Post { id: "a".into(), title: "A".into(), body_html: "1".into(), created: None },
        Post { id: "b".into(), title: "B".into(), body_html: "2".into(), created: None },
    ];
    assert_eq!(
        post_list_page(posts),
        framed(
            "Posts",
            "<section><h1>Posts</h1><article><h2>A</h2>1</article><article><h2>B</h2>2</article></section>"
        )
    );
}

#[test]
fn static_pages() {
    assert_eq!(
        home_page(),
        framed("Welcome", "<section><h1>Hello from xub!</h1><p>A place to write</p></section>")
    );
    let login_html = framed("Login", "<section><h1>Login</h1><form method=\"post\" action=\"/login\"><label for=\"username\">Username</label><input id=\"username\" name=\"username\" type=\"text\" required><label for=\"password\">Password</label><input id=\"password\" name=\"password\" type=\"password\" required><button type=\"submit\">Sign In</button></form></section>");
    assert_eq!(login_page(), login_html);
    assert_eq!(login::login_page(), login_html);
    let logout_html = framed("Logged Out", "<section><h1>Logged Out</h1><p>You have ended the session.</p><a href=\"/\">Go back home</a></section>");
    assert_eq!(logout_page(), logout_html);
    assert_eq!(logout::logout_page(), logout_html);
    assert_eq!(
        secret_page(),
        framed("Secret", "<section><h1>Top Secret</h1><p>Authorized eyes only.</p></section>")
    );
    let write_html = framed("Write a Post", "<section><h1>Write a new post</h1><form method=\"post\" action=\"/write\"><label for=\"title\">Title</label><input id=\"title\" name=\"title\" type=\"text\" required><label for=\"content\">Content</label><textarea id=\"content\" name=\"content\" required></textarea><button type=\"submit\">Publish</button></form></section>");
    assert_eq!(write_page(), write_html);
    assert_eq!(xub::templates::pages::write::write_page(), write_html);
}

fn simple(title: &str, body: &str) -> String {
    format!("<!DOCTYPE html>\n<html lang=\"en\">\n<head>\n  <meta charset=\"utf-8\" />\n  <title>{title}</title>\n</head>\n<body>\n{body}\n</body>\n</html>")
}

#[test]
fn simple_page_escapes_text() {
    assert_eq!(simple_page("a<b>&\"c\"", "<b>x</b>"), simple("a&lt;b&gt;&amp;\"c\"", "<b>x</b>"));
}

#[test]
fn render_post_page() {
    assert_eq!(
        render_post("id1", "---\ntitle: T & U\n---\nHello\n"),
        simple("T &amp; U", "<article><h1>T &amp; U</h1><p>Hello</p>\n</article>")
    );
    assert_eq!(
        render_post("<id>", "Body"),
        simple("&lt;id&gt;", "<article><h1>&lt;id&gt;</h1><p>Body</p>\n</article>")
    );
}

#[test]
fn failure_pages() {
    let (status, page) = failure_reply("x<y", true);
    assert_eq!(status, 404);
    assert_eq!(
        page,
        simple(
            "Post Not Found",
            "<h1>Post not found</h1><p>No post available for id <code>x&lt;y</code>.</p>"
        )
    );
    let (status, page) = failure_reply("x", false);
    assert_eq!(status, 500);
    assert_eq!(
        page,
        simple("Post Error", "<h1>Something went wrong</h1><p>Unable to load this post.</p>")
    );
}

#[test]
fn post_page_from_read() {
    let (status, _) = post_page("a", &Ok("text".to_string()));
    assert_eq!(status, 200);
    let missing = Err(std::io::Error::new(std::io::ErrorKind::NotFound, "gone"));
    assert_eq!(post_page("a", &missing).0, 404);
    let denied = Err(std::io::Error::new(std::io::ErrorKind::PermissionDenied, "no"));
    assert_eq!(post_page("a", &denied).0, 500);
}
