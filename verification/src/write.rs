//! Writing a new post: its header, the text of its file, and where it goes.
use vstd::prelude::*;
use vstd::string::StringExecFns;

use crate::header::{clean_value, fence, first_value_in, frontmatter_value, is_fence, line_value};
use crate::posts::title_key;
use crate::text::{
    after_line, first_line, has_newline, is_space, lemma_line_len_prefix, lemma_line_then_newline,
    line_len, trim, trim_end, trim_matches, trim_start_in, CharClass,
};

verus! {

/// A post as the writing form submits it.
pub struct NewPost {
    pub title: String,
    pub content: String,
}

/// The header written at the top of a new post.
pub struct Frontmatter {
    pub title: String,
    pub date: String,
    pub id: String,
}

/// The characters of the ids that `nanoid` draws: `A-Z`, `a-z`, `0-9`, `_`
/// and `-`.
pub open spec fn is_id_char(c: char) -> bool {
    ||| ('A' <= c && c <= 'Z')
    ||| ('a' <= c && c <= 'z')
    ||| ('0' <= c && c <= '9')
    ||| c == '_'
    ||| c == '-'
}

/// The current time in RFC 3339, as `chrono` writes it: the clock
/// (`SystemTime::now`) read as a `chrono::DateTime<Utc>` (`From<SystemTime>`,
/// which `Utc::now` uses too), then `to_rfc3339`. None when the clock reads
/// before 1970, where `Utc::now` would panic. Claimed, as chrono's writer
/// shows (digits, signs, `-`, `T`, `:`, `.`): the text holds no line break.
/// Which instant, and whether the clock is before 1970, is left open: it is
/// the clock's.
#[verifier::external_body]
fn now_rfc3339() -> (date: Option<String>)
    ensures
        date matches Some(d) ==> forall|j: int| 0 <= j < d@.len() ==> d@[j] != '\n',
{
    let now = std::time::SystemTime::now();
    match now.duration_since(std::time::UNIX_EPOCH) {
        Ok(_) => Some(chrono::DateTime::<chrono::Utc>::from(now).to_rfc3339()),
        Err(_) => None,
    }
}

/// A fresh random id (`nanoid::format` with the default random source, the
/// `SAFE` alphabet and size 21, which `nanoid!()` expands to). Claimed, as its
/// source shows for an alphabet of 64 characters: 21 characters, each from
/// that alphabet. Which ones is left open: they are random.
#[verifier::external_body]
fn fresh_id() -> (id: String)
    ensures
        id@.len() == 21,
        forall|i: int| 0 <= i < id@.len() ==> is_id_char(#[trigger] id@[i]),
{
    nanoid::format(nanoid::rngs::default, &nanoid::alphabet::SAFE, 21)
}

/// The header of a post titled `title`, written at `date`, with the id `id`.
pub fn new_frontmatter(title: &str, date: String, id: String) -> (f: Frontmatter)
    ensures
        f.title@ == title@,
        f.date == date,
        f.id == id,
{
    Frontmatter { title: title.to_owned(), date, id }
}

/// The header for a new post: its title, the current time and a fresh id;
/// none when the clock reads before 1970.
pub fn draft_frontmatter(post: &NewPost) -> (r: Option<Frontmatter>)
    ensures
        r matches Some(f) ==> {
            &&& f.title@ == post.title@
            &&& forall|j: int| 0 <= j < f.date@.len() ==> f.date@[j] != '\n'
            &&& f.id@.len() == 21
            &&& forall|i: int| 0 <= i < f.id@.len() ==> is_id_char(#[trigger] f.id@[i])
            &&& is_plain_value(f.id@)
        },
{
    let date = match now_rfc3339() {
        Some(d) => d,
        None => return None,
    };
    let id = fresh_id();
    proof {
        lemma_drawn_id_is_plain(id@);
    }
    Some(new_frontmatter(post.title.as_str(), date, id))
}

/// The text of a post's file: its header (YAML, between `---` lines), then
/// its content.
pub open spec fn composed_post(frontmatter_yaml: Seq<char>, content: Seq<char>) -> Seq<char> {
    fence().push('\n') + frontmatter_yaml + fence().push('\n') + content
}

pub fn compose_post(frontmatter_yaml: &str, content: &str) -> (post: String)
    ensures
        post@ == composed_post(frontmatter_yaml@, content@),
{
    proof {
        reveal_strlit("---\n");
        assert("---\n"@ =~= fence().push('\n'));
    }
    "---\n".to_owned().concat(frontmatter_yaml).concat("---\n").concat(content)
}

/// Where a new post with the id `id` is saved.
pub open spec fn post_file_path(id: Seq<char>) -> Seq<char> {
    "./posts/"@ + id + ".md"@
}

pub fn save_path(id: &str) -> (path: String)
    ensures
        path@ == post_file_path(id@),
{
    "./posts/".to_owned().concat(id).concat(".md")
}

/// The answer once a post is saved: 201 and `Created post: <title>`.
pub fn created_reply(title: &str) -> (reply: (u16, String))
    ensures
        reply.0 == 201,
        reply.1@ == "Created post: "@ + title@,
{
    (201, "Created post: ".to_owned().concat(title))
}

proof fn lemma_fence_line(c: Seq<char>)
    ensures
        line_len(fence().push('\n') + c) == 3,
        first_line(fence().push('\n') + c) == fence(),
        has_newline(fence().push('\n') + c),
        after_line(fence().push('\n') + c) == c,
        is_fence(fence()),
        trim(fence()) == fence(),
{
    assert(fence().push('\n') + c =~= fence() + seq!['\n'] + c);
    lemma_line_then_newline(fence(), c);
    assert(first_line(fence().push('\n') + c) =~= fence());
    assert(after_line(fence().push('\n') + c) =~= c);
    assert(fence().drop_last().last() == '-');
}

/// Header lookups in `yaml` followed by a closing fence and any content do not
/// depend on that content.
proof fn lemma_lookup_stops_at_fence(yaml: Seq<char>, content: Seq<char>, key: Seq<char>)
    requires
        yaml.len() == 0 || yaml.last() == '\n',
    ensures
        first_value_in(yaml + fence().push('\n') + content, key) == first_value_in(
            yaml + fence().push('\n'),
            key,
        ),
    decreases yaml.len(),
{
    if yaml.len() == 0 {
        lemma_fence_line(content);
        lemma_fence_line(Seq::empty());
        assert(yaml + fence().push('\n') + content =~= fence().push('\n') + content);
        assert(yaml + fence().push('\n') =~= fence().push('\n') + Seq::<char>::empty());
    } else {
        crate::text::lemma_line_len_bound(yaml);
        assert(has_newline(yaml)) by {
            if line_len(yaml) == yaml.len() {
                assert(forall|i: int| 0 <= i < line_len(yaml) ==> yaml[i] != '\n');
                assert(yaml[yaml.len() - 1] != '\n');
            }
        }
        let tail = fence().push('\n') + content;
        assert(yaml + fence().push('\n') + content =~= yaml + tail);
        lemma_line_len_prefix(yaml, tail);
        lemma_line_len_prefix(yaml, fence().push('\n'));
        let rest = after_line(yaml);
        assert(rest.len() == 0 || rest.last() == '\n') by {
            if rest.len() > 0 {
                assert(rest.last() == yaml.last());
            }
        }
        lemma_lookup_stops_at_fence(rest, content, key);
        assert(after_line(yaml) + tail =~= rest + fence().push('\n') + content);
    }
}

/// What a post's file gives for a header key depends only on the header
/// written, never on the content after it.
pub proof fn lemma_content_does_not_reach_header(
    yaml: Seq<char>,
    content1: Seq<char>,
    content2: Seq<char>,
    key: Seq<char>,
)
    requires
        yaml.len() == 0 || yaml.last() == '\n',
    ensures
        frontmatter_value(composed_post(yaml, content1), key) == frontmatter_value(
            composed_post(yaml, content2),
            key,
        ),
{
    let c1 = yaml + fence().push('\n') + content1;
    let c2 = yaml + fence().push('\n') + content2;
    assert(composed_post(yaml, content1) =~= fence().push('\n') + c1);
    assert(composed_post(yaml, content2) =~= fence().push('\n') + c2);
    lemma_fence_line(c1);
    lemma_fence_line(c2);
    lemma_lookup_stops_at_fence(yaml, content1, key);
    lemma_lookup_stops_at_fence(yaml, content2, key);
}

/// A value that reads back as itself from a `key: value` line: not empty, on
/// one line, and neither starting nor ending with whitespace or a quote.
pub open spec fn is_plain_value(t: Seq<char>) -> bool {
    &&& t.len() > 0
    &&& forall|i: int| 0 <= i < t.len() ==> t[i] != '\n'
    &&& !is_space(t[0]) && t[0] != '"' && t[0] != '\''
    &&& !is_space(t.last()) && t.last() != '"' && t.last() != '\''
}

/// The header line `title: <t>`.
pub open spec fn title_line(t: Seq<char>) -> Seq<char> {
    title_key().push(':').push(' ') + t
}

/// A post written with a plain `title: <t>` as the first line of its header
/// reads back with the title `t`, whatever else the header and the content
/// hold.
pub proof fn lemma_written_title_reads_back(t: Seq<char>, more_yaml: Seq<char>, content: Seq<char>)
    requires
        is_plain_value(t),
    ensures
        frontmatter_value(
            composed_post(title_line(t) + seq!['\n'] + more_yaml, content),
            title_key(),
        ) == Some(t),
{
    let line = title_line(t);
    let after = more_yaml + fence().push('\n') + content;
    let body = line + seq!['\n'] + after;
    assert(composed_post(line + seq!['\n'] + more_yaml, content) =~= fence().push('\n') + body);
    lemma_fence_line(body);
    assert forall|i: int| 0 <= i < line.len() implies line[i] != '\n' by {
        if i >= 7 {
            assert(line[i] == t[i - 7]);
        }
    }
    lemma_line_then_newline(line, after);
    assert(first_line(body) =~= line);
    assert(trim_end(line) == line) by {
        assert(line.last() == t.last());
    }
    assert(!is_fence(line)) by {
        assert(line[0] == 't');
    }
    let prefix = title_key().push(':');
    assert(line.take(prefix.len() as int) =~= prefix);
    let v = line.skip(prefix.len() as int);
    assert(v =~= seq![' '] + t);
    assert(v.drop_first() =~= t);
    assert(trim_start_in(t, CharClass::Space) == t);
    assert(is_space(v[0]));
    assert(trim_start_in(v, CharClass::Space) == t);
    assert(trim(v) == t);
    assert(trim_matches(t, '"') == t);
    assert(trim_matches(t, '\'') == t);
    assert(clean_value(v) == t);
    assert(line_value(line, title_key()) == Some(t));
}

/// The header line `<k>: <v>`.
pub open spec fn key_line(k: Seq<char>, v: Seq<char>) -> Seq<char> {
    k.push(':').push(' ') + v
}

/// The key of the date in the header.
pub open spec fn date_key() -> Seq<char> {
    seq!['d', 'a', 't', 'e']
}

/// The key of the id in the header.
pub open spec fn id_key() -> Seq<char> {
    seq!['i', 'd']
}

/// The header of a new post as YAML writes its three fields in order, each
/// as a plain `key: value` line.
pub open spec fn written_header(title: Seq<char>, date: Seq<char>, id: Seq<char>) -> Seq<char> {
    key_line(title_key(), title).push('\n') + key_line(date_key(), date).push('\n') + key_line(
        id_key(),
        id,
    ).push('\n')
}

proof fn lemma_trim_end_keeps_first(s: Seq<char>)
    requires
        s.len() > 0,
        !is_space(s[0]),
    ensures
        trim_end(s).len() > 0,
        trim_end(s)[0] == s[0],
    decreases s.len(),
{
    if is_space(s.last()) {
        lemma_trim_end_keeps_first(s.drop_last());
    }
}

proof fn lemma_key_line_shape(k: Seq<char>, v: Seq<char>)
    requires
        k.len() > 0,
        forall|j: int| 0 <= j < k.len() ==> k[j] != '\n',
        forall|j: int| 0 <= j < v.len() ==> v[j] != '\n',
        !is_space(k[0]),
        k[0] != '-',
    ensures
        forall|j: int| 0 <= j < key_line(k, v).len() ==> key_line(k, v)[j] != '\n',
        trim_end(key_line(k, v)).len() > 0,
        trim_end(key_line(k, v))[0] == k[0],
        !is_fence(key_line(k, v)),
{
    let line = key_line(k, v);
    assert forall|j: int| 0 <= j < line.len() implies line[j] != '\n' by {
        if j >= k.len() + 2 {
            assert(line[j] == v[j - k.len() - 2]);
        } else if j < k.len() {
            assert(line[j] == k[j]);
        }
    }
    assert(line[0] == k[0]);
    lemma_trim_end_keeps_first(line);
}

proof fn lemma_line_for_other_key(k: Seq<char>, v: Seq<char>, k2: Seq<char>)
    requires
        k.len() > 0,
        k2.len() > 0,
        k[0] != k2[0],
        forall|j: int| 0 <= j < k.len() ==> k[j] != '\n',
        forall|j: int| 0 <= j < v.len() ==> v[j] != '\n',
        !is_space(k[0]),
        k[0] != '-',
    ensures
        line_value(key_line(k, v), k2) is None,
{
    lemma_key_line_shape(k, v);
    let t = trim_end(key_line(k, v));
    let p = k2.push(':');
    if t.len() >= p.len() && t.take(p.len() as int) == p {
        assert(t.take(p.len() as int)[0] == t[0]);
        assert(p[0] == k2[0]);
    }
}

proof fn lemma_line_for_own_key(k: Seq<char>, v: Seq<char>)
    requires
        k.len() > 0,
        forall|j: int| 0 <= j < k.len() ==> k[j] != '\n',
        !is_space(k[0]),
        k[0] != '-',
        is_plain_value(v),
    ensures
        line_value(key_line(k, v), k) == Some(v),
{
    lemma_key_line_shape(k, v);
    let line = key_line(k, v);
    assert(trim_end(line) == line) by {
        assert(line.last() == v.last());
    }
    let prefix = k.push(':');
    assert(line.take(prefix.len() as int) =~= prefix);
    let rest = line.skip(prefix.len() as int);
    assert(rest =~= seq![' '] + v);
    assert(rest.drop_first() =~= v);
    assert(trim_start_in(v, CharClass::Space) == v);
    assert(is_space(rest[0]));
    assert(trim_start_in(rest, CharClass::Space) == v);
    assert(trim(rest) == v);
    assert(trim_matches(v, '"') == v);
    assert(trim_matches(v, '\'') == v);
    assert(clean_value(rest) == v);
}

/// A header line that is no fence and gives no value for `key` is passed
/// over.
proof fn lemma_pass_line(line: Seq<char>, rest: Seq<char>, key: Seq<char>)
    requires
        forall|j: int| 0 <= j < line.len() ==> line[j] != '\n',
        !is_fence(line),
    ensures
        first_value_in(line.push('\n') + rest, key) == (if line_value(line, key) is Some {
            line_value(line, key)
        } else {
            first_value_in(rest, key)
        }),
{
    assert(line.push('\n') + rest =~= line + seq!['\n'] + rest);
    lemma_line_then_newline(line, rest);
    assert(first_line(line.push('\n') + rest) =~= line);
    assert(after_line(line.push('\n') + rest) =~= rest);
}

/// The ids that `nanoid` draws read back as themselves.
pub proof fn lemma_drawn_id_is_plain(id: Seq<char>)
    requires
        id.len() == 21,
        forall|i: int| 0 <= i < id.len() ==> is_id_char(#[trigger] id[i]),
    ensures
        is_plain_value(id),
{
    assert(is_id_char(id[0]));
    assert(is_id_char(id[20]));
    assert forall|i: int| 0 <= i < id.len() implies id[i] != '\n' by {
        assert(is_id_char(id[i]));
    }
}

/// A new post's file reads back what was written: its title and its id from
/// the header, and it ends with the content.
pub proof fn lemma_written_post_reads_back(
    title: Seq<char>,
    date: Seq<char>,
    id: Seq<char>,
    content: Seq<char>,
)
    requires
        is_plain_value(title),
        is_plain_value(id),
        forall|j: int| 0 <= j < date.len() ==> date[j] != '\n',
    ensures
        frontmatter_value(composed_post(written_header(title, date, id), content), title_key())
            == Some(title),
        frontmatter_value(composed_post(written_header(title, date, id), content), id_key())
            == Some(id),
        composed_post(written_header(title, date, id), content).skip(
            composed_post(written_header(title, date, id), content).len() - content.len(),
        ) == content,
{
    let l1 = key_line(title_key(), title);
    let l2 = key_line(date_key(), date);
    let l3 = key_line(id_key(), id);
    let rest4 = fence().push('\n') + content;
    let body = l1.push('\n') + (l2.push('\n') + (l3.push('\n') + rest4));
    let text = composed_post(written_header(title, date, id), content);
    assert(text =~= fence().push('\n') + body);
    lemma_fence_line(body);
    lemma_key_line_shape(title_key(), title);
    lemma_key_line_shape(date_key(), date);
    lemma_key_line_shape(id_key(), id);
    lemma_line_for_own_key(title_key(), title);
    lemma_line_for_own_key(id_key(), id);
    lemma_line_for_other_key(title_key(), title, id_key());
    lemma_line_for_other_key(date_key(), date, id_key());
    lemma_pass_line(l1, l2.push('\n') + (l3.push('\n') + rest4), title_key());
    lemma_pass_line(l1, l2.push('\n') + (l3.push('\n') + rest4), id_key());
    lemma_pass_line(l2, l3.push('\n') + rest4, id_key());
    lemma_pass_line(l3, rest4, id_key());
    assert(text.skip(text.len() - content.len()) =~= content);
}

} // verus!
