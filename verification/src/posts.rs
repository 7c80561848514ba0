//! Posts: parsing a markdown file with its header into a [`Post`], the order
//! in which posts are listed, and the decisions of loading them.
use vstd::prelude::*;
use vstd::string::{StrSliceExecFns, StringExecFns};

use crate::header::{
    fence_at, first_value_in, frontmatter_value, header_start, value_at,
};
use crate::order::{stable_sort, stable_sorted, views, PostOrder};
use crate::text::{after_line, chars_of, first_line, has_newline, line_end, range_equals};

verus! {

/// A point in time as seconds since the Unix epoch and the nanoseconds within
/// that second (above a billion only in a leap second), as `chrono` gives them.
#[derive(Clone, Copy, Debug, PartialEq, Eq, Structural)]
pub struct Timestamp {
    pub secs: i64,
    pub nanos: u32,
}

/// A post, read from `<id>.md`.
#[derive(Debug, Clone)]
pub struct Post {
    pub id: String,
    pub title: String,
    pub body_html: String,
    pub created: Option<Timestamp>,
}

/// What a [`Post`] holds, as mathematical text.
pub struct PostView {
    pub id: Seq<char>,
    pub title: Seq<char>,
    pub body_html: Seq<char>,
    pub created: Option<Timestamp>,
}

impl View for Post {
    type V = PostView;

    open spec fn view(&self) -> PostView {
        PostView {
            id: self.id@,
            title: self.title@,
            body_html: self.body_html@,
            created: self.created,
        }
    }
}

/// The key of the title in the header.
pub open spec fn title_key() -> Seq<char> {
    seq!['t', 'i', 't', 'l', 'e']
}

/// The key of the creation time in the header.
pub open spec fn created_key() -> Seq<char> {
    seq!['c', 'r', 'e', 'a', 't', 'e', 'd']
}

/// The HTML that `pulldown_cmark` renders from `markdown`, with YAML-style
/// metadata blocks enabled.
pub uninterp spec fn markdown_html(markdown: Seq<char>) -> Seq<char>;

/// The instant that `chrono` reads from an RFC 3339 date and time, in UTC;
/// none when the text is not one.
pub uninterp spec fn rfc3339_instant(text: Seq<char>) -> Option<Timestamp>;

/// Renders markdown to HTML with `pulldown_cmark` (`Parser::new_ext` with
/// `ENABLE_YAML_STYLE_METADATA_BLOCKS`, then `html::push_html`). Claimed: the
/// output is a function of the input alone, named [`markdown_html`].
#[verifier::external_body]
pub(crate) fn render_markdown(markdown: &str) -> (html: String)
    ensures
        html@ == markdown_html(markdown@),
{
    let mut options = pulldown_cmark::Options::empty();
    options.insert(pulldown_cmark::Options::ENABLE_YAML_STYLE_METADATA_BLOCKS);
    let parser = pulldown_cmark::Parser::new_ext(markdown, options);
    let mut output = String::new();
    pulldown_cmark::html::push_html(&mut output, parser);
    output
}

/// Parses an RFC 3339 date and time with `chrono::DateTime::parse_from_rfc3339`
/// and moves it to UTC (`with_timezone(&Utc)`, then `timestamp` and
/// `timestamp_subsec_nanos`). Claimed: the result is a function of the text
/// alone, named [`rfc3339_instant`].
#[verifier::external_body]
fn parse_rfc3339(value: &str) -> (r: Option<Timestamp>)
    ensures
        r == rfc3339_instant(value@),
{
    match chrono::DateTime::parse_from_rfc3339(value) {
        Ok(dt) => {
            let utc = dt.with_timezone(&chrono::Utc);
            Some(Timestamp { secs: utc.timestamp(), nanos: utc.timestamp_subsec_nanos() })
        },
        Err(_) => None,
    }
}

/// The first value that the header of `md` gives `key`
/// (`key: value` lines between a first line `---` and a closing `---`).
pub fn extract_frontmatter_value(md: &str, key: &str) -> (r: Option<String>)
    ensures
        r.deep_view() == frontmatter_value(md@, key@),
{
    let cs = chars_of(md);
    let kc = chars_of(key);
    let n = cs.len();
    let mut pos = match header_start(&cs) {
        None => return None,
        Some(p) => p,
    };
    assert(after_line(md@) =~= cs@.subrange(pos as int, n as int));
    loop
        invariant
            pos <= n == cs.len(),
            cs@ == md@,
            kc@ == key@,
            first_value_in(cs@.subrange(pos as int, n as int), kc@) == frontmatter_value(
                md@,
                key@,
            ),
        decreases n + 1 - pos,
    {
        let ghost rest = cs@.subrange(pos as int, n as int);
        let e = line_end(&cs, pos);
        assert(first_line(rest) =~= cs@.subrange(pos as int, e as int));
        if fence_at(&cs, pos, e) {
            return None;
        }
        match value_at(&cs, pos, e, &kc) {
            Some((a, b)) => {
                return Some(md.substring_char(a, b).to_owned());
            },
            None => {},
        }
        if e == n {
            return None;
        }
        assert(has_newline(rest));
        assert(after_line(rest) =~= cs@.subrange(e + 1, n as int));
        pos = e + 1;
    }
}

} // verus!

verus! {

/// The title that the header of `md` gives.
pub fn extract_title(md: &str) -> (r: Option<String>)
    ensures
        r.deep_view() == frontmatter_value(md@, title_key()),
{
    proof {
        reveal_strlit("title");
        assert("title"@ =~= title_key());
    }
    extract_frontmatter_value(md, "title")
}

/// The creation time that the header of `md` gives, when its value reads as
/// an RFC 3339 date and time.
pub fn extract_created(md: &str) -> (r: Option<Timestamp>)
    ensures
        r == (match frontmatter_value(md@, created_key()) {
            Some(v) => rfc3339_instant(v),
            None => None,
        }),
{
    proof {
        reveal_strlit("created");
        assert("created"@ =~= created_key());
    }
    match extract_frontmatter_value(md, "created") {
        Some(value) => parse_rfc3339(value.as_str()),
        None => None,
    }
}

/// The post that `markdown`, read from `<id>.md`, describes: its title from the
/// header or else the id, its body rendered to HTML, its creation time from
/// the header.
pub open spec fn parsed_post(id: Seq<char>, md: Seq<char>) -> PostView {
    PostView {
        id: id,
        title: match frontmatter_value(md, title_key()) {
            Some(t) => t,
            None => id,
        },
        body_html: markdown_html(md),
        created: match frontmatter_value(md, created_key()) {
            Some(v) => rfc3339_instant(v),
            None => None,
        },
    }
}

/// A parsed post's body is the whole of its file rendered: what
/// `pulldown_cmark` gives for the full text, whatever its length, and the
/// same whatever the post's id.
pub proof fn lemma_body_renders_whole_file(id: Seq<char>, other_id: Seq<char>, md: Seq<char>)
    ensures
        parsed_post(id, md).body_html == markdown_html(md),
        parsed_post(id, md).body_html == parsed_post(other_id, md).body_html,
{
}

pub fn parse_post(id: String, markdown: &str) -> (post: Post)
    ensures
        post@ == parsed_post(id@, markdown@),
{
    let title = match extract_title(markdown) {
        Some(t) => t,
        None => id.clone(),
    };
    let body_html = render_markdown(markdown);
    let created = extract_created(markdown);
    Post { id, title, body_html, created }
}

/// The directory that holds the posts, as the loader names it.
pub open spec fn posts_dir() -> Seq<char> {
    seq!['.', '/', 'p', 'o', 's', 't', 's']
}

/// The ending of a post's file name.
pub open spec fn md_suffix() -> Seq<char> {
    seq!['.', 'm', 'd']
}

/// `PathBuf::push` onto a base without a trailing `/`: an absolute path
/// replaces the base, any other follows it after a `/`.
pub open spec fn path_push(base: Seq<char>, p: Seq<char>) -> Seq<char> {
    if p.len() > 0 && p[0] == '/' {
        p
    } else {
        base.push('/') + p
    }
}

/// The directory that the loader lists.
pub fn posts_directory() -> (dir: String)
    ensures
        dir@ == posts_dir(),
{
    proof {
        reveal_strlit("./posts");
    }
    let dir = "./posts".to_owned();
    assert(dir@ =~= posts_dir());
    dir
}

/// The path of the file that holds the post `id`.
pub fn post_path(id: &str) -> (path: String)
    ensures
        path@ == path_push(posts_dir(), id@ + md_suffix()),
{
    proof {
        reveal_strlit(".md");
        reveal_strlit("./posts/");
        assert(".md"@ =~= md_suffix());
        assert("./posts/"@ =~= posts_dir().push('/'));
    }
    let file = id.to_owned().concat(".md");
    if !id.is_empty() && id.get_char(0) == '/' {
        file
    } else {
        let path = "./posts/".to_owned().concat(file.as_str());
        assert(path@ =~= posts_dir().push('/') + (id@ + md_suffix()));
        path
    }
}

#[verifier::external_type_specification]
#[verifier::external_body]
pub struct ExIoError(std::io::Error);

/// Why a post could not be loaded.
#[derive(Debug)]
pub enum PostError {
    /// No file holds the post with this id.
    NotFound(String),
    /// Reading failed otherwise.
    Io(std::io::Error),
}

impl From<std::io::Error> for PostError {
    fn from(err: std::io::Error) -> (r: Self) {
        PostError::Io(err)
    }
}

impl vstd::std_specs::convert::FromSpecImpl<std::io::Error> for PostError {
    open spec fn obeys_from_spec() -> bool {
        true
    }

    open spec fn from_spec(err: std::io::Error) -> Self {
        PostError::Io(err)
    }
}

/// Whether an I/O error says that the file or directory does not exist
/// (its kind is `ErrorKind::NotFound`).
pub uninterp spec fn io_not_found(err: std::io::Error) -> bool;

/// `io::Error::kind`, compared with `ErrorKind::NotFound`. Claimed: the kind
/// is a function of the error alone, named [`io_not_found`].
#[verifier::external_body]
pub(crate) fn is_not_found(err: &std::io::Error) -> (b: bool)
    ensures
        b == io_not_found(*err),
{
    err.kind() == std::io::ErrorKind::NotFound
}

/// The error for a post whose file could not be read: `NotFound` with its id
/// when the file is missing, else the I/O error itself.
pub fn read_failure(id: &str, not_found: bool, err: std::io::Error) -> (e: PostError)
    ensures
        not_found ==> (e matches PostError::NotFound(i) && i@ == id@),
        !not_found ==> e == PostError::Io(err),
{
    if not_found {
        PostError::NotFound(id.to_owned())
    } else {
        PostError::Io(err)
    }
}

/// The post `id`, from what reading its file gave.
pub fn post_from_read(id: &str, read: Result<String, std::io::Error>) -> (r: Result<
    Post,
    PostError,
>)
    ensures
        read matches Ok(md) ==> (r matches Ok(post) && post@ == parsed_post(id@, md@)),
        read matches Err(err) ==> (io_not_found(err) ==> (r matches Err(PostError::NotFound(i))
            && i@ == id@)),
        read matches Err(err) ==> (!io_not_found(err) ==> r == Err::<Post, PostError>(
            PostError::Io(err),
        )),
{
    match read {
        Ok(md) => Ok(parse_post(id.to_owned(), md.as_str())),
        Err(err) => {
            let not_found = is_not_found(&err);
            Err(read_failure(id, not_found, err))
        },
    }
}

/// Whether `Path::extension` of the file name `name` is `md`: it ends in
/// `.md` and something stands before that dot.
pub open spec fn has_md_extension(name: Seq<char>) -> bool {
    name.len() > 3 && name.skip(name.len() - 3) == md_suffix()
}

/// `str::trim_end_matches(".md")`: every trailing `.md` removed.
pub open spec fn strip_md(s: Seq<char>) -> Seq<char>
    decreases s.len(),
{
    if s.len() >= 3 && s.skip(s.len() - 3) == md_suffix() {
        strip_md(s.take(s.len() - 3))
    } else {
        s
    }
}

/// The id of the post that a directory entry named `file_name` holds, or none
/// when the entry is no post. A name that is not UTF-8 is given lossily.
pub fn listing_id(file_name: &str) -> (r: Option<String>)
    ensures
        r.deep_view() == (if has_md_extension(file_name@) {
            Some(strip_md(file_name@))
        } else {
            None
        }),
{
    let cs = chars_of(file_name);
    let suffix = md_chars();
    let n = cs.len();
    if n <= 3 || !range_equals(&cs, n - 3, n, &suffix) {
        assert(n > 3 ==> cs@.skip(n - 3) =~= cs@.subrange(n - 3, n as int));
        return None;
    }
    let mut hi = n;
    assert(cs@.subrange(0, hi as int) =~= cs@);
    while hi >= 3 && range_equals(&cs, hi - 3, hi, &suffix)
        invariant
            hi <= n == cs.len(),
            cs@ == file_name@,
            suffix@ == md_suffix(),
            strip_md(cs@.subrange(0, hi as int)) == strip_md(file_name@),
        decreases hi,
    {
        assert(cs@.subrange(0, hi as int).skip(hi - 3) =~= cs@.subrange(hi - 3, hi as int));
        assert(cs@.subrange(0, hi as int).take(hi - 3) =~= cs@.subrange(0, hi - 3));
        hi = hi - 3;
    }
    assert(hi >= 3 ==> cs@.subrange(0, hi as int).skip(hi - 3) =~= cs@.subrange(
        hi - 3,
        hi as int,
    ));
    Some(file_name.substring_char(0, hi).to_owned())
}

fn md_chars() -> (v: Vec<char>)
    ensures
        v@ == md_suffix(),
{
    let mut v: Vec<char> = Vec::new();
    v.push('.');
    v.push('m');
    v.push('d');
    assert(v@ =~= md_suffix());
    v
}

/// Whether `s` ends with `.md`.
pub open spec fn ends_with_md(s: Seq<char>) -> bool {
    s.len() >= 3 && s.skip(s.len() - 3) == md_suffix()
}

/// A listed post loads back under its id: for a post file named `name` (no
/// `/` in it, and no second `.md` before its ending), the path that loading
/// the id reads is the file the listing read, `./posts/<name>`; both then
/// parse its text as [`parsed_post`] with that id.
pub proof fn lemma_listed_post_loads_back(name: Seq<char>)
    requires
        has_md_extension(name),
        forall|i: int| 0 <= i < name.len() ==> name[i] != '/',
        !ends_with_md(name.take(name.len() - 3)),
    ensures
        strip_md(name) == name.take(name.len() - 3),
        path_push(posts_dir(), strip_md(name) + md_suffix()) == posts_dir().push('/') + name,
{
    let stem = name.take(name.len() - 3);
    assert(name.skip(name.len() - 3) == md_suffix());
    assert(strip_md(stem) == stem);
    assert(strip_md(name) == stem);
    assert(stem + md_suffix() =~= name);
    assert(stem[0] == name[0]);
}

/// The posts that the files found describe, each an id with its markdown.
pub open spec fn parsed_all(found: Seq<(String, String)>) -> Seq<PostView> {
    found.map_values(|e: (String, String)| parsed_post(e.0@, e.1@))
}

/// The listing of the posts found: each parsed, then put in listing order.
pub fn listing_from(found: Vec<(String, String)>) -> (posts: Vec<Post>)
    ensures
        stable_sorted(parsed_all(found@), views(posts@), PostOrder::Listing),
{
    let mut parsed: Vec<Post> = Vec::new();
    let mut i: usize = 0;
    while i < found.len()
        invariant
            i <= found.len(),
            parsed.len() == i,
            forall|j: int| 0 <= j < i ==> #[trigger] parsed@[j]@ == parsed_all(found@)[j],
        decreases found.len() - i,
    {
        let (id, md) = (&found[i].0, &found[i].1);
        parsed.push(parse_post(id.clone(), md.as_str()));
        i = i + 1;
    }
    assert(views(parsed@) =~= parsed_all(found@));
    stable_sort(parsed, PostOrder::Listing)
}

/// What listing gives when the posts directory could not be read: no posts
/// when it does not exist, else the I/O error.
pub fn listing_failure(not_found: bool, err: std::io::Error) -> (r: Result<Vec<Post>, PostError>)
    ensures
        not_found ==> (r matches Ok(v) && v@.len() == 0),
        !not_found ==> r == Err::<Vec<Post>, PostError>(PostError::Io(err)),
{
    if not_found {
        Ok(Vec::new())
    } else {
        Err(PostError::Io(err))
    }
}

/// What listing gives when the posts directory could not be read: no posts
/// when it does not exist, else the I/O error.
pub fn listing_after_dir_error(err: std::io::Error) -> (r: Result<Vec<Post>, PostError>)
    ensures
        io_not_found(err) ==> (r matches Ok(v) && v@.len() == 0),
        !io_not_found(err) ==> r == Err::<Vec<Post>, PostError>(PostError::Io(err)),
{
    let not_found = is_not_found(&err);
    listing_failure(not_found, err)
}

/// What happens next in the walk over the posts directory.
pub enum WalkEvent {
    /// The walk found an entry with this file name (given lossily when it is
    /// not UTF-8).
    Entry(String),
    /// Reading the post with this id gave this.
    Read(String, Result<String, std::io::Error>),
    /// The walk failed.
    Failed(std::io::Error),
    /// The walk is over.
    Done,
}

/// What the walk does next.
pub enum WalkAction {
    /// Read the file of the post with this id.
    ReadFile(String),
    /// Go on to the next entry.
    Next,
    /// Stop, with this listing.
    Finish(Result<Vec<Post>, PostError>),
}

/// One step of listing the posts directory: from the posts found so far, each
/// an id with its markdown, and what just happened, to the posts found after
/// it and what to do next. An entry that is no post is passed over; a post
/// file that cannot be read is left out; a failed walk fails the listing; at
/// the end the posts found are parsed and put in listing order.
pub fn listing_step(found: Vec<(String, String)>, event: WalkEvent) -> (r: (
    Vec<(String, String)>,
    WalkAction,
))
    ensures
        event matches WalkEvent::Entry(name) ==> r.0 == found && (if has_md_extension(name@) {
            r.1 matches WalkAction::ReadFile(id) && id@ == strip_md(name@)
        } else {
            r.1 is Next
        }),
        event matches WalkEvent::Read(id, read) ==> r.1 is Next && (match read {
            Ok(md) => r.0@ == found@.push((id, md)),
            Err(_) => r.0 == found,
        }),
        event matches WalkEvent::Failed(err) ==> r.1 == WalkAction::Finish(
            Err::<Vec<Post>, PostError>(PostError::Io(err)),
        ),
        event is Done ==> (r.1 matches WalkAction::Finish(Ok(posts)) && stable_sorted(
            parsed_all(found@),
            views(posts@),
            PostOrder::Listing,
        )),
{
    match event {
        WalkEvent::Entry(name) => match listing_id(name.as_str()) {
            Some(id) => (found, WalkAction::ReadFile(id)),
            None => (found, WalkAction::Next),
        },
        WalkEvent::Read(id, read) => match read {
            Ok(md) => {
                let mut found = found;
                found.push((id, md));
                (found, WalkAction::Next)
            },
            Err(_) => (found, WalkAction::Next),
        },
        WalkEvent::Failed(err) => (Vec::new(), WalkAction::Finish(Err(PostError::Io(err)))),
        WalkEvent::Done => (Vec::new(), WalkAction::Finish(Ok(listing_from(found)))),
    }
}

} // verus!
