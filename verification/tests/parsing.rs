use xub::post;
use xub::posts::{
    extract_created, extract_frontmatter_value, extract_title, listing_id, parse_post,
    post_path, posts_directory, Timestamp,
};

#[test]
fn frontmatter_value_found() {
    let md = "---\ntitle: Hello\ncreated: 2024-01-02T03:04:05Z\n---\nbody";
    assert_eq!(extract_frontmatter_value(md, "title"), Some("Hello".to_string()));
    assert_eq!(
        extract_frontmatter_value(md, "created"),
        Some("2024-01-02T03:04:05Z".to_string())
    );
    assert_eq!(extract_frontmatter_value(md, "author"), None);
}

#[test]
fn frontmatter_value_strips_quotes_and_spaces() {
    assert_eq!(
        extract_frontmatter_value("---\ntitle:   \"Quoted\"  \n---\n", "title"),
        Some("Quoted".to_string())
    );
    assert_eq!(
        extract_frontmatter_value("---\ntitle: 'Single'\n---\n", "title"),
        Some("Single".to_string())
    );
    assert_eq!(
        extract_frontmatter_value("---\ntitle: \"'Both'\"\n---\n", "title"),
        Some("Both".to_string())
    );
}

#[test]
fn frontmatter_value_needs_opening_fence() {
    assert_eq!(extract_frontmatter_value("title: Hello\n", "title"), None);
    assert_eq!(extract_frontmatter_value("", "title"), None);
    assert_eq!(extract_frontmatter_value("---", "title"), None);
    assert_eq!(extract_frontmatter_value("# ---\ntitle: x\n", "title"), None);
}

#[test]
fn frontmatter_value_opening_fence_trimmed() {
    assert_eq!(
        extract_frontmatter_value("  ---  \ntitle: Spaced\n---\n", "title"),
        Some("Spaced".to_string())
    );
}

#[test]
fn frontmatter_value_stops_at_closing_fence() {
    assert_eq!(extract_frontmatter_value("---\n---\ntitle: After\n", "title"), None);
    assert_eq!(extract_frontmatter_value("---\nx: 1\n---   \ntitle: After\n", "title"), None);
}

#[test]
fn frontmatter_value_without_closing_fence() {
    assert_eq!(
        extract_frontmatter_value("---\nx: 1\n\ntitle: Late", "title"),
        Some("Late".to_string())
    );
}

#[test]
fn frontmatter_value_skips_empty_values() {
    assert_eq!(
        extract_frontmatter_value("---\ntitle:\ntitle: \"\"\ntitle: Second\n---\n", "title"),
        Some("Second".to_string())
    );
}

#[test]
fn frontmatter_value_crlf_lines() {
    assert_eq!(
        extract_frontmatter_value("---\r\ntitle: Windows\r\n---\r\nbody", "title"),
        Some("Windows".to_string())
    );
}

#[test]
fn frontmatter_value_key_must_start_line() {
    assert_eq!(extract_frontmatter_value("---\n title: Indented\n---\n", "title"), None);
    assert_eq!(extract_frontmatter_value("---\ntitles: Plural\n---\n", "title"), None);
}

#[test]
fn listing_title_is_first_page_title_is_last() {
    let md = "---\ntitle: One\ntitle: Two\n---\n";
    assert_eq!(extract_title(md), Some("One".to_string()));
    assert_eq!(post::extract_title(md), Some("Two".to_string()));
    assert_eq!(post::extract_title("---\ntitle: Only\n---\n"), Some("Only".to_string()));
    assert_eq!(post::extract_title("no header"), None);
    assert_eq!(post::extract_title("---\ntitle: A\n---\ntitle: B\n"), Some("A".to_string()));
}

#[test]
fn created_parses_rfc3339() {
    assert_eq!(
        extract_created("---\ncreated: 2024-01-02T03:04:05Z\n---\n"),
        Some(Timestamp { secs: 1704164645, nanos: 0 })
    );
    assert_eq!(
        extract_created("---\ncreated: 2024-01-02T05:04:05.5+02:00\n---\n"),
        Some(Timestamp { secs: 1704164645, nanos: 500_000_000 })
    );
    assert_eq!(extract_created("---\ncreated: yesterday\n---\n"), None);
    assert_eq!(extract_created("---\ntitle: x\n---\n"), None);
}

#[test]
fn parse_post_uses_header() {
    let post = parse_post(
        "hello".to_string(),
        "---\ntitle: Hello World\ncreated: 2024-01-02T03:04:05Z\n---\n# Hi\n",
    );
    assert_eq!(post.id, "hello");
    assert_eq!(post.title, "Hello World");
    assert_eq!(post.body_html, "<h1>Hi</h1>\n");
    assert_eq!(post.created, Some(Timestamp { secs: 1704164645, nanos: 0 }));
}

#[test]
fn parse_post_title_falls_back_to_id() {
    let post = parse_post("plain".to_string(), "Just *text*.");
    assert_eq!(post.title, "plain");
    assert_eq!(post.body_html, "<p>Just <em>text</em>.</p>\n");
    assert_eq!(post.created, None);
}

#[test]
fn post_path_joins_directory() {
    assert_eq!(post_path("abc"), "./posts/abc.md");
    assert_eq!(post_path("/etc/abc"), "/etc/abc.md");
    assert_eq!(post_path(""), "./posts/.md");
    assert_eq!(posts_directory(), "./posts");
}

#[test]
fn post_page_file_path() {
    assert_eq!(post::post_file("abc"), "posts/abc.md");
    assert_eq!(post::post_file("/abs"), "/abs.md");
}

#[test]
fn listing_id_of_file_names() {
    assert_eq!(listing_id("a.md"), Some("a".to_string()));
    assert_eq!(listing_id("a.md.md"), Some("a".to_string()));
    assert_eq!(listing_id("x.tar.md"), Some("x.tar".to_string()));
    assert_eq!(listing_id(".md.md"), Some("".to_string()));
    assert_eq!(listing_id(".md"), None);
    assert_eq!(listing_id("a.txt"), None);
    assert_eq!(listing_id("md"), None);
    assert_eq!(listing_id("a.MD"), None);
    assert_eq!(listing_id("a.md.txt"), None);
}
