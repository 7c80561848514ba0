use xub::order::{precedes, stable_sort, text_less, PostOrder};
use xub::posts::{listing_from, Post, Timestamp};
use xub::router::posts_index_page;

fn post(id: &str, created: Option<i64>) -> Post {
    Post {
        id: id.to_string(),
        title: id.to_uppercase(),
        body_html: String::new(),
        created: created.map(|secs| Timestamp { secs, nanos: 0 }),
    }
}

fn ids(posts: &[Post]) -> Vec<String> {
    posts.iter().map(|p| p.id.clone()).collect()
}

#[test]
fn text_order_is_lexicographic() {
    assert!(text_less("a", "b"));
    assert!(text_less("a", "ab"));
    assert!(!text_less("ab", "a"));
    assert!(!text_less("same", "same"));
    assert!(text_less("", "x"));
    assert!(text_less("Z", "a"));
    assert!(text_less("z", "\u{e9}"));
}

#[test]
fn listing_order_dated_first_newest_first() {
    let sorted = stable_sort(
        vec![
            post("old", Some(100)),
            post("b", None),
            post("new", Some(300)),
            post("d", None),
            post("mid", Some(200)),
            post("a", None),
        ],
        PostOrder::Listing,
    );
    assert_eq!(ids(&sorted), vec!["new", "mid", "old", "d", "b", "a"]);
}

#[test]
fn newest_first_is_stable() {
    let sorted = stable_sort(
        vec![
            post("u1", None),
            post("t1", Some(5)),
            post("u2", None),
            post("t2", Some(5)),
            post("t3", Some(9)),
        ],
        PostOrder::NewestFirst,
    );
    assert_eq!(ids(&sorted), vec!["t3", "t1", "t2", "u1", "u2"]);
}

#[test]
fn listing_keeps_equal_posts_in_order() {
    let sorted = stable_sort(
        vec![post("x", Some(7)), post("y", Some(7)), post("z", Some(7))],
        PostOrder::Listing,
    );
    assert_eq!(ids(&sorted), vec!["x", "y", "z"]);
    let nanos_differ = stable_sort(
        vec![
            Post { created: Some(Timestamp { secs: 7, nanos: 1 }), ..post("p", None) },
            Post { created: Some(Timestamp { secs: 7, nanos: 2 }), ..post("q", None) },
        ],
        PostOrder::Listing,
    );
    assert_eq!(ids(&nanos_differ), vec!["q", "p"]);
}

#[test]
fn sort_of_empty_and_single() {
    assert!(stable_sort(vec![], PostOrder::Listing).is_empty());
    assert_eq!(ids(&stable_sort(vec![post("only", None)], PostOrder::NewestFirst)), vec!["only"]);
}

#[test]
fn precedes_orders() {
    let a = post("a", Some(1));
    let b = post("b", None);
    let c = post("c", None);
    assert!(precedes(PostOrder::Listing, &a, &b));
    assert!(!precedes(PostOrder::Listing, &b, &a));
    assert!(precedes(PostOrder::Listing, &c, &b));
    assert!(!precedes(PostOrder::NewestFirst, &c, &b));
    assert!(!precedes(PostOrder::NewestFirst, &b, &c));
}

#[test]
fn listing_from_parses_and_sorts() {
    let found = vec![
        ("first".to_string(), "---\ncreated: 2024-01-01T00:00:00Z\n---\nA".to_string()),
        ("plain".to_string(), "no header".to_string()),
        ("second".to_string(), "---\ncreated: 2024-06-01T00:00:00Z\ntitle: S\n---\nB".to_string()),
        ("zeta".to_string(), "nothing".to_string()),
    ];
    let posts = listing_from(found);
    assert_eq!(ids(&posts), vec!["second", "first", "zeta", "plain"]);
    assert_eq!(posts[0].title, "S");
    assert_eq!(posts[1].title, "first");
}

#[test]
fn index_resort_keeps_listing_order() {
    let listed = stable_sort(
        vec![post("b", None), post("n", Some(2)), post("c", None), post("o", Some(1))],
        PostOrder::Listing,
    );
    let before = ids(&listed);
    let resorted = stable_sort(listed.clone(), PostOrder::NewestFirst);
    assert_eq!(ids(&resorted), before);
    let (status, page) = posts_index_page(Ok(listed));
    assert_eq!(status, 200);
    let positions: Vec<usize> = ["<h2>N</h2>", "<h2>O</h2>", "<h2>C</h2>", "<h2>B</h2>"]
        .iter()
        .map(|h| page.find(h).unwrap())
        .collect();
    assert!(positions.windows(2).all(|w| w[0] < w[1]));
}
