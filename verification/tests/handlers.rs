use std::io::{Error, ErrorKind};

use xub::posts::{
    extract_frontmatter_value, listing_after_dir_error, listing_failure, post_from_read,
    read_failure, PostError,
};
use xub::posts::{listing_step, WalkAction, WalkEvent};
use xub::router::{auth_allows, login_reply, posts_index_page};
use xub::write::{compose_post, created_reply, draft_frontmatter, new_frontmatter, save_path, NewPost};

#[test]
fn login_with_defaults() {
    assert_eq!(login_reply("admin", "password", None, None), (200, String::new()));
    assert_eq!(
        login_reply("admin", "wrong", None, None),
        (401, "Invalid credentials".to_string())
    );
    assert_eq!(login_reply("root", "password", None, None).0, 401);
}

#[test]
fn login_with_configured_credentials() {
    let user = Some("alice".to_string());
    let pass = Some("s3cret".to_string());
    assert_eq!(login_reply("alice", "s3cret", user.clone(), pass.clone()).0, 200);
    assert_eq!(login_reply("admin", "password", user.clone(), pass.clone()).0, 401);
    assert_eq!(login_reply("alice", "password", user, None).0, 200);
}

#[test]
fn auth_needs_true_flag() {
    assert!(auth_allows(true, Some(true)));
    assert!(!auth_allows(true, Some(false)));
    assert!(!auth_allows(true, None));
    assert!(!auth_allows(false, Some(true)));
}

#[test]
fn index_failure_is_500() {
    let (status, body) = posts_index_page(Err(PostError::Io(Error::new(ErrorKind::Other, "x"))));
    assert_eq!(status, 500);
    assert!(body.is_empty());
}

#[test]
fn read_errors_classified() {
    assert!(matches!(read_failure("a", true, Error::new(ErrorKind::Other, "x")), PostError::NotFound(id) if id == "a"));
    assert!(matches!(read_failure("a", false, Error::new(ErrorKind::Other, "x")), PostError::Io(_)));
    match post_from_read("gone", Err(Error::new(ErrorKind::NotFound, "x"))) {
        Err(PostError::NotFound(id)) => assert_eq!(id, "gone"),
        other => panic!("unexpected {other:?}"),
    }
    assert!(matches!(
        post_from_read("a", Err(Error::new(ErrorKind::PermissionDenied, "x"))),
        Err(PostError::Io(_))
    ));
    let post = post_from_read("a", Ok("---\ntitle: Ok\n---\n".to_string())).unwrap();
    assert_eq!(post.title, "Ok");
    let converted: PostError = Error::new(ErrorKind::Other, "x").into();
    assert!(matches!(converted, PostError::Io(_)));
}

#[test]
fn listing_dir_errors() {
    assert!(matches!(listing_failure(true, Error::new(ErrorKind::Other, "x")), Ok(v) if v.is_empty()));
    assert!(matches!(listing_failure(false, Error::new(ErrorKind::Other, "x")), Err(PostError::Io(_))));
    assert!(matches!(listing_after_dir_error(Error::new(ErrorKind::NotFound, "x")), Ok(v) if v.is_empty()));
    assert!(matches!(
        listing_after_dir_error(Error::new(ErrorKind::PermissionDenied, "x")),
        Err(PostError::Io(_))
    ));
}

#[test]
fn compose_and_paths() {
    assert_eq!(compose_post("title: A\n", "Body"), "---\ntitle: A\n---\nBody");
    assert_eq!(save_path("abc"), "./posts/abc.md");
    assert_eq!(created_reply("Hi"), (201, "Created post: Hi".to_string()));
    let f = new_frontmatter("T", "2024".to_string(), "id".to_string());
    assert_eq!((f.title.as_str(), f.date.as_str(), f.id.as_str()), ("T", "2024", "id"));
}

#[test]
fn draft_has_fresh_id() {
    let draft = draft_frontmatter(&NewPost { title: "New".to_string(), content: "c".to_string() })
        .unwrap();
    assert!(!draft.date.contains('\n'));
    assert_eq!(draft.title, "New");
    assert_eq!(draft.id.chars().count(), 21);
    assert!(draft.id.chars().all(|c| c.is_ascii_alphanumeric() || c == '_' || c == '-'));
    assert!(xub::posts::extract_created(&format!("---\ncreated: {}\n---\n", draft.date)).is_some());
}

#[test]
fn written_title_reads_back() {
    let text = compose_post("title: My Post\nid: abc\n", "---\ntitle: Not This\n");
    assert_eq!(extract_frontmatter_value(&text, "title"), Some("My Post".to_string()));
    assert_eq!(extract_frontmatter_value(&text, "id"), Some("abc".to_string()));
    let other = compose_post("title: My Post\nid: abc\n", "completely different");
    assert_eq!(
        extract_frontmatter_value(&other, "title"),
        extract_frontmatter_value(&text, "title")
    );
}

#[test]
fn closed_header_ignores_appended_text() {
    let md = "---\ntitle: Kept\nid: k1\n---\n";
    for tail in ["", "title: Other\n", "---\ntitle: X\n---\n", "# body"] {
        let text = format!("{md}{tail}");
        assert_eq!(extract_frontmatter_value(&text, "title"), Some("Kept".to_string()));
        assert_eq!(extract_frontmatter_value(&text, "id"), Some("k1".to_string()));
        assert_eq!(xub::post::extract_title(&text), Some("Kept".to_string()));
    }
}

#[test]
fn single_title_lookups_agree() {
    for md in ["---\ntitle: One\n---\nbody", "---\nx: 1\ntitle: 'Q'\n---\n", "plain", "---\n---\n"] {
        assert_eq!(xub::posts::extract_title(md), xub::post::extract_title(md));
    }
}

#[test]
fn listed_post_loads_back_by_id() {
    let name = "hello.world.md";
    let id = xub::posts::listing_id(name).unwrap();
    assert_eq!(id, "hello.world");
    assert_eq!(xub::posts::post_path(&id), format!("{}/{}", xub::posts::posts_directory(), name));
}

#[test]
fn written_post_reads_back_title_and_id() {
    let text = compose_post("title: My Post\ndate: 2024-01-02T03:04:05+00:00\nid: V1StGXR8_Z5jdHi6B-myT\n", "Body text");
    assert_eq!(extract_frontmatter_value(&text, "title"), Some("My Post".to_string()));
    assert_eq!(extract_frontmatter_value(&text, "id"), Some("V1StGXR8_Z5jdHi6B-myT".to_string()));
    assert!(text.ends_with("Body text"));
    let post = post_from_read("V1StGXR8_Z5jdHi6B-myT", Ok(text)).unwrap();
    assert_eq!(post.title, "My Post");
    // The header names the time `date`, while posts are dated by `created`.
    assert_eq!(post.created, None);
}

#[test]
fn listing_walk_steps() {
    let (found, action) = listing_step(Vec::new(), WalkEvent::Entry("a.md".to_string()));
    assert!(found.is_empty());
    assert!(matches!(action, WalkAction::ReadFile(ref id) if id == "a"));
    let (found, action) = listing_step(found, WalkEvent::Entry("notes.txt".to_string()));
    assert!(matches!(action, WalkAction::Next));
    let (found, action) = listing_step(found, WalkEvent::Read("a".to_string(), Ok("A".to_string())));
    assert!(matches!(action, WalkAction::Next));
    assert_eq!(found, vec![("a".to_string(), "A".to_string())]);
    let (found, action) = listing_step(
        found,
        WalkEvent::Read("b".to_string(), Err(Error::new(ErrorKind::PermissionDenied, "x"))),
    );
    assert!(matches!(action, WalkAction::Next));
    assert_eq!(found.len(), 1);
    let (_, action) = listing_step(found.clone(), WalkEvent::Failed(Error::new(ErrorKind::Other, "x")));
    assert!(matches!(action, WalkAction::Finish(Err(PostError::Io(_)))));
    match listing_step(found, WalkEvent::Done).1 {
        WalkAction::Finish(Ok(posts)) => {
            assert_eq!(posts.len(), 1);
            assert_eq!(posts[0].id, "a");
        }
        _ => panic!("walk did not finish"),
    }
}
