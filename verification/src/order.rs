//! The orders in which posts are listed, and a stable sort by them.
use vstd::prelude::*;

use crate::posts::{Post, PostView, Timestamp};
use crate::text::chars_of;

verus! {

/// Lexicographic order on text, character by character: the order of
/// `String`'s `Ord`, since UTF-8 keeps the order of code points.
pub open spec fn chars_less(a: Seq<char>, b: Seq<char>) -> bool
    decreases a.len(),
{
    if a.len() == 0 {
        b.len() > 0
    } else if b.len() == 0 {
        false
    } else if a[0] != b[0] {
        a[0] < b[0]
    } else {
        chars_less(a.drop_first(), b.drop_first())
    }
}

pub proof fn lemma_chars_less_irreflexive(a: Seq<char>)
    ensures
        !chars_less(a, a),
    decreases a.len(),
{
    if a.len() > 0 {
        lemma_chars_less_irreflexive(a.drop_first());
    }
}

pub proof fn lemma_chars_less_transitive(a: Seq<char>, b: Seq<char>, c: Seq<char>)
    requires
        chars_less(a, b),
        chars_less(b, c),
    ensures
        chars_less(a, c),
    decreases a.len(),
{
    if a.len() > 0 && b.len() > 0 && c.len() > 0 && a[0] == b[0] && b[0] == c[0] {
        lemma_chars_less_transitive(a.drop_first(), b.drop_first(), c.drop_first());
    }
}

pub proof fn lemma_chars_less_total(a: Seq<char>, b: Seq<char>)
    ensures
        a == b || chars_less(a, b) || chars_less(b, a),
    decreases a.len(),
{
    if a.len() > 0 && b.len() > 0 && a[0] == b[0] {
        lemma_chars_less_total(a.drop_first(), b.drop_first());
        if a.drop_first() == b.drop_first() {
            assert(a =~= seq![a[0]] + a.drop_first());
            assert(b =~= seq![b[0]] + b.drop_first());
        }
    } else if a.len() == 0 && b.len() == 0 {
        assert(a =~= b);
    }
}

/// `k` is where `a` and `b` part in code-point lexicographic order, with `a`
/// first: they agree on their first `k` characters, and then `a` ends while `b`
/// goes on, or `a`'s next character is the smaller code point (`char`'s
/// order is that of code points).
pub open spec fn parts_before_at(a: Seq<char>, b: Seq<char>, k: int) -> bool {
    &&& 0 <= k <= a.len()
    &&& k <= b.len()
    &&& a.take(k) == b.take(k)
    &&& ((k == a.len() && k < b.len()) || (k < a.len() && k < b.len() && a[k] < b[k]))
}

/// Text order is code-point lexicographic order, the order of `String`'s
/// `Ord`: `a` comes before `b` exactly when they part somewhere with `a` first.
pub proof fn lemma_text_order_is_lexicographic(a: Seq<char>, b: Seq<char>)
    ensures
        chars_less(a, b) <==> exists|k: int| parts_before_at(a, b, k),
    decreases a.len(),
{
    if a.len() == 0 {
        if b.len() > 0 {
            assert(a.take(0) =~= b.take(0));
            assert(parts_before_at(a, b, 0));
        }
    } else if b.len() == 0 {
        assert forall|k: int| !parts_before_at(a, b, k) by {}
    } else if a[0] != b[0] {
        if chars_less(a, b) {
            assert(a.take(0) =~= b.take(0));
            assert(parts_before_at(a, b, 0));
        }
        assert forall|k: int| parts_before_at(a, b, k) implies chars_less(a, b) by {
            if k > 0 {
                assert(a.take(k)[0] == b.take(k)[0]);
            }
        }
    } else {
        let a1 = a.drop_first();
        let b1 = b.drop_first();
        lemma_text_order_is_lexicographic(a1, b1);
        if chars_less(a, b) {
            let k1 = choose|k: int| parts_before_at(a1, b1, k);
            assert(a.take(k1 + 1) =~= seq![a[0]] + a1.take(k1));
            assert(b.take(k1 + 1) =~= seq![b[0]] + b1.take(k1));
            assert(parts_before_at(a, b, k1 + 1));
        }
        assert forall|k: int| parts_before_at(a, b, k) implies chars_less(a, b) by {
            assert(k > 0);
            assert(a1.take(k - 1) =~= a.take(k).drop_first());
            assert(b1.take(k - 1) =~= b.take(k).drop_first());
            assert(parts_before_at(a1, b1, k - 1));
        }
    }
}

/// On single characters, text order is code-point order.
pub proof fn lemma_text_order_on_characters(x: char, y: char)
    ensures
        chars_less(seq![x], seq![y]) <==> x < y,
{
    lemma_text_order_is_lexicographic(seq![x], seq![y]);
    if x < y {
        assert(seq![x].take(0) =~= seq![y].take(0));
        assert(parts_before_at(seq![x], seq![y], 0));
    }
    assert forall|k: int| parts_before_at(seq![x], seq![y], k) implies x < y by {
        if k == 1 {
            assert(seq![x].take(1)[0] == seq![y].take(1)[0]);
        }
    }
}

/// Two posts without a date are listed by id, descending in code-point
/// lexicographic order: `a` goes first exactly when `b`'s id comes before
/// `a`'s.
pub proof fn lemma_undated_listing_by_id(a: PostView, b: PostView)
    requires
        a.created is None,
        b.created is None,
    ensures
        goes_before(PostOrder::Listing, a, b) <==> exists|k: int| parts_before_at(b.id, a.id, k),
{
    lemma_text_order_is_lexicographic(b.id, a.id);
}

/// Whether the instant `a` comes before `b`.
pub open spec fn instant_less(a: Timestamp, b: Timestamp) -> bool {
    a.secs < b.secs || (a.secs == b.secs && a.nanos < b.nanos)
}

/// The two orders in which posts are put.
#[derive(Clone, Copy, Debug, PartialEq, Eq, Structural)]
pub enum PostOrder {
    /// Dated posts first, newest first; then undated ones by id, descending.
    Listing,
    /// Dated posts first, newest first; undated ones are all equal.
    NewestFirst,
}

/// Whether `a` goes strictly before `b` in `order`.
pub open spec fn goes_before(order: PostOrder, a: PostView, b: PostView) -> bool {
    match (a.created, b.created) {
        (Some(x), Some(y)) => instant_less(y, x),
        (Some(_), None) => true,
        (None, Some(_)) => false,
        (None, None) => match order {
            PostOrder::Listing => chars_less(b.id, a.id),
            PostOrder::NewestFirst => false,
        },
    }
}

/// `goes_before` is a strict weak order: asymmetric, and its complement is
/// transitive.
pub proof fn lemma_order_laws(order: PostOrder, a: PostView, b: PostView, c: PostView)
    ensures
        goes_before(order, a, b) ==> !goes_before(order, b, a),
        !goes_before(order, a, b) && !goes_before(order, b, c) ==> !goes_before(order, a, c),
{
    if goes_before(order, a, b) && goes_before(order, b, a) {
        if a.created is None && b.created is None {
            lemma_chars_less_transitive(a.id, b.id, a.id);
            lemma_chars_less_irreflexive(a.id);
        }
    }
    if !goes_before(order, a, b) && !goes_before(order, b, c) && goes_before(order, a, c) {
        if a.created is None && b.created is None && c.created is None {
            lemma_chars_less_total(a.id, b.id);
            lemma_chars_less_total(b.id, c.id);
            lemma_chars_less_irreflexive(a.id);
            if a.id == b.id && b.id == c.id {
            } else if a.id == b.id {
                lemma_chars_less_transitive(c.id, b.id, c.id);
            } else if b.id == c.id {
                lemma_chars_less_transitive(c.id, a.id, c.id);
            } else {
                lemma_chars_less_transitive(a.id, b.id, c.id);
                lemma_chars_less_transitive(c.id, a.id, c.id);
            }
            lemma_chars_less_irreflexive(c.id);
        }
    }
}

/// What a sequence of posts holds.
pub open spec fn views(s: Seq<Post>) -> Seq<PostView> {
    s.map_values(|p: Post| p@)
}

/// `out` is `inp` put in `order` by a stable sort, `p` telling where each of
/// its items came from: each comes from a distinct place, no item goes before
/// an earlier one, and items that neither goes before keep their order.
pub open spec fn stable_arrangement(
    inp: Seq<PostView>,
    out: Seq<PostView>,
    order: PostOrder,
    p: Seq<int>,
) -> bool {
    &&& p.len() == inp.len()
    &&& out.len() == inp.len()
    &&& forall|i: int| 0 <= i < p.len() ==> 0 <= #[trigger] p[i] < inp.len() && out[i] == inp[p[i]]
    &&& forall|i: int, j: int| 0 <= i < j < p.len() ==> p[i] != p[j]
    &&& forall|i: int, j: int|
        0 <= i < j < out.len() ==> !goes_before(order, #[trigger] out[j], #[trigger] out[i])
    &&& forall|i: int, j: int|
        0 <= i < j < out.len() && !goes_before(order, #[trigger] out[i], #[trigger] out[j])
            ==> p[i] < p[j]
}

/// `out` is what a stable sort of `inp` by `order` gives.
pub open spec fn stable_sorted(inp: Seq<PostView>, out: Seq<PostView>, order: PostOrder) -> bool {
    exists|p: Seq<int>| stable_arrangement(inp, out, order, p)
}

/// `s` is already in `order`.
pub open spec fn in_order(s: Seq<PostView>, order: PostOrder) -> bool {
    forall|i: int, j: int| 0 <= i < j < s.len() ==> !goes_before(order, #[trigger] s[j], #[trigger] s[i])
}

fn instant_before(a: Timestamp, b: Timestamp) -> (r: bool)
    ensures
        r == instant_less(a, b),
{
    a.secs < b.secs || (a.secs == b.secs && a.nanos < b.nanos)
}

/// `a < b` for text, as `str`'s `Ord` compares.
pub fn text_less(a: &str, b: &str) -> (r: bool)
    ensures
        r == chars_less(a@, b@),
{
    let ac = chars_of(a);
    let bc = chars_of(b);
    let mut i: usize = 0;
    assert(ac@.skip(0) =~= ac@ && bc@.skip(0) =~= bc@);
    while i < ac.len() && i < bc.len() && ac[i] == bc[i]
        invariant
            i <= ac.len(),
            i <= bc.len(),
            ac@ == a@,
            bc@ == b@,
            chars_less(a@, b@) == chars_less(ac@.skip(i as int), bc@.skip(i as int)),
        decreases ac.len() - i,
    {
        assert(ac@.skip(i as int).drop_first() =~= ac@.skip(i + 1));
        assert(bc@.skip(i as int).drop_first() =~= bc@.skip(i + 1));
        i = i + 1;
    }
    if i == ac.len() {
        i < bc.len()
    } else if i == bc.len() {
        false
    } else {
        ac[i] < bc[i]
    }
}

/// Whether `a` goes strictly before `b` in `order`.
pub fn precedes(order: PostOrder, a: &Post, b: &Post) -> (r: bool)
    ensures
        r == goes_before(order, a@, b@),
{
    match (a.created, b.created) {
        (Some(x), Some(y)) => instant_before(y, x),
        (Some(_), None) => true,
        (None, Some(_)) => false,
        (None, None) => match order {
            PostOrder::Listing => text_less(b.id.as_str(), a.id.as_str()),
            PostOrder::NewestFirst => false,
        },
    }
}

/// Sorts `posts` by `order`, keeping the order of posts that neither goes
/// before (as `sort_by` does).
pub fn stable_sort(posts: Vec<Post>, order: PostOrder) -> (out: Vec<Post>)
    ensures
        stable_sorted(views(posts@), views(out@), order),
{
    let ghost inp = views(posts@);
    let n = posts.len();
    let mut rest = posts;
    let mut out: Vec<Post> = Vec::new();
    let ghost mut p: Seq<int> = seq![];
    while rest.len() > 0
        invariant
            inp.len() == n,
            rest.len() + out.len() == n,
            views(rest@) == inp.take(rest.len() as int),
            p.len() == out.len(),
            forall|i: int|
                0 <= i < p.len() ==> rest.len() <= #[trigger] p[i] < n && views(out@)[i]
                    == inp[p[i]],
            forall|i: int, j: int| 0 <= i < j < p.len() ==> p[i] != p[j],
            in_order(views(out@), order),
            forall|i: int, j: int|
                0 <= i < j < out.len() && !goes_before(
                    order,
                    #[trigger] views(out@)[i],
                    #[trigger] views(out@)[j],
                ) ==> p[i] < p[j],
        decreases rest.len(),
    {
        let ghost old_out = views(out@);
        let ghost old_p = p;
        let ghost old_rest = views(rest@);
        let x = rest.pop().unwrap();
        let ghost xi = rest.len() as int;
        assert(x@ == inp[xi]) by {
            assert(old_rest[xi] == x@);
        }
        assert(views(rest@) =~= inp.take(rest.len() as int));
        let mut k: usize = 0;
        while k < out.len() && precedes(order, &out[k], &x)
            invariant
                k <= out.len(),
                views(out@) == old_out,
                forall|t: int| 0 <= t < k ==> goes_before(order, #[trigger] old_out[t], x@),
            decreases out.len() - k,
        {
            k = k + 1;
        }
        out.insert(k, x);
        proof {
            p = old_p.insert(k as int, xi);
            let new_out = views(out@);
            assert(new_out =~= old_out.insert(k as int, x@));
            assert forall|i: int, j: int| 0 <= i < j < new_out.len() implies !goes_before(
                order,
                #[trigger] new_out[j],
                #[trigger] new_out[i],
            ) by {
                if i < k && j == k {
                    lemma_order_laws(order, old_out[i], x@, x@);
                } else if i == k && j > k {
                    lemma_order_laws(order, old_out[j - 1], old_out[k as int], x@);
                    if j - 1 > k {
                        assert(!goes_before(order, old_out[j - 1], old_out[k as int]));
                    }
                } else if i < k && j > k {
                    assert(!goes_before(order, old_out[j - 1], old_out[i]));
                } else if i > k {
                    assert(!goes_before(order, old_out[j - 1], old_out[i - 1]));
                } else {
                    assert(!goes_before(order, old_out[j], old_out[i]));
                }
            }
            assert forall|i: int, j: int|
                0 <= i < j < new_out.len() && !goes_before(
                    order,
                    #[trigger] new_out[i],
                    #[trigger] new_out[j],
                ) implies p[i] < p[j] by {
                if i < k && j == k {
                } else if i == k {
                    assert(p[j] == old_p[j - 1]);
                } else if i < k && j > k {
                    assert(p[j] == old_p[j - 1]);
                    assert(!goes_before(order, old_out[i], old_out[j - 1]));
                } else if i > k {
                    assert(p[j] == old_p[j - 1]);
                    assert(p[i] == old_p[i - 1]);
                    assert(!goes_before(order, old_out[i - 1], old_out[j - 1]));
                } else {
                    assert(!goes_before(order, old_out[i], old_out[j]));
                }
            }
            assert forall|i: int| 0 <= i < p.len() implies rest.len() <= #[trigger] p[i] < n
                && new_out[i] == inp[p[i]] by {
                if i < k {
                } else if i > k {
                    assert(p[i] == old_p[i - 1]);
                }
            }
            assert forall|i: int, j: int| 0 <= i < j < p.len() implies p[i] != p[j] by {
                if i < k && j > k {
                    assert(p[j] == old_p[j - 1]);
                } else if i > k {
                    assert(p[j] == old_p[j - 1]);
                    assert(p[i] == old_p[i - 1]);
                } else if i == k {
                    assert(p[j] == old_p[j - 1]);
                }
            }
        }
    }
    proof {
        assert(stable_arrangement(inp, views(out@), order, p));
    }
    out
}

proof fn lemma_increasing_at_least(p: Seq<int>, i: int)
    requires
        0 <= i < p.len(),
        forall|k: int| 0 <= k < p.len() ==> 0 <= #[trigger] p[k],
        forall|k: int, l: int| 0 <= k < l < p.len() ==> p[k] < p[l],
    ensures
        p[i] >= i,
    decreases i,
{
    if i > 0 {
        lemma_increasing_at_least(p, i - 1);
    }
}

proof fn lemma_increasing_at_most(p: Seq<int>, i: int)
    requires
        0 <= i < p.len(),
        forall|k: int| 0 <= k < p.len() ==> #[trigger] p[k] < p.len(),
        forall|k: int, l: int| 0 <= k < l < p.len() ==> p[k] < p[l],
    ensures
        p[i] <= i,
    decreases p.len() - i,
{
    if i < p.len() - 1 {
        lemma_increasing_at_most(p, i + 1);
    }
}

/// Sorting what is already in order changes nothing.
pub proof fn lemma_sorting_sorted_is_identity(
    inp: Seq<PostView>,
    out: Seq<PostView>,
    order: PostOrder,
)
    requires
        in_order(inp, order),
        stable_sorted(inp, out, order),
    ensures
        out == inp,
{
    let p = choose|p: Seq<int>| stable_arrangement(inp, out, order, p);
    assert forall|k: int, l: int| 0 <= k < l < p.len() implies p[k] < p[l] by {
        if p[l] < p[k] {
            assert(!goes_before(order, inp[p[k]], inp[p[l]]));
            assert(!goes_before(order, out[k], out[l]));
        }
    }
    assert forall|i: int| 0 <= i < out.len() implies out[i] == inp[i] by {
        lemma_increasing_at_least(p, i);
        lemma_increasing_at_most(p, i);
    }
    assert(out =~= inp);
}

/// Whatever goes before in newest-first order goes before in listing order.
pub proof fn lemma_listing_refines_newest_first(s: Seq<PostView>)
    requires
        in_order(s, PostOrder::Listing),
    ensures
        in_order(s, PostOrder::NewestFirst),
{
    assert forall|i: int, j: int| 0 <= i < j < s.len() implies !goes_before(
        PostOrder::NewestFirst,
        #[trigger] s[j],
        #[trigger] s[i],
    ) by {
        assert(!goes_before(PostOrder::Listing, s[j], s[i]));
    }
}

/// The post index sorts the listing newest first once more; that sort leaves
/// the listing as it was.
pub proof fn lemma_index_resort_keeps_listing(listed: Seq<PostView>, shown: Seq<PostView>)
    requires
        in_order(listed, PostOrder::Listing),
        stable_sorted(listed, shown, PostOrder::NewestFirst),
    ensures
        shown == listed,
{
    lemma_listing_refines_newest_first(listed);
    lemma_sorting_sorted_is_identity(listed, shown, PostOrder::NewestFirst);
}

/// What a stable sort gives is in order.
pub proof fn lemma_stable_sorted_in_order(inp: Seq<PostView>, out: Seq<PostView>, order: PostOrder)
    requires
        stable_sorted(inp, out, order),
    ensures
        in_order(out, order),
{
    let p = choose|p: Seq<int>| stable_arrangement(inp, out, order, p);
    assert(stable_arrangement(inp, out, order, p));
}

/// `n` distinct places below `n` take every place below `n`.
proof fn lemma_distinct_places_cover(p: Seq<int>, v: int)
    requires
        forall|i: int| 0 <= i < p.len() ==> 0 <= #[trigger] p[i] < p.len(),
        forall|i: int, j: int| 0 <= i < j < p.len() ==> p[i] != p[j],
        0 <= v < p.len(),
    ensures
        exists|i: int| 0 <= i < p.len() && p[i] == v,
{
    broadcast use vstd::seq_lib::seq_to_set_is_finite;

    assert(p.no_duplicates()) by {
        assert forall|i: int, j: int| 0 <= i < p.len() && 0 <= j < p.len() && i != j implies p[i]
            != p[j] by {
            if i > j {
                assert(p[j] != p[i]);
            }
        }
    }
    p.unique_seq_to_set();
    vstd::set_lib::lemma_int_range(0, p.len() as int);
    let range = vstd::set_lib::set_int_range(0, p.len() as int);
    assert(p.to_set().subset_of(range)) by {
        assert forall|x: int| p.to_set().contains(x) implies range.contains(x) by {
            assert(p.contains(x));
        }
    }
    vstd::set_lib::lemma_subset_equality(p.to_set(), range);
    assert(range.contains(v));
    assert(p.to_set().contains(v));
    assert(p.contains(v));
}

/// A stable sort has one result: any two stable sorts of the same posts by
/// the same order agree.
pub proof fn lemma_stable_sort_unique(
    inp: Seq<PostView>,
    out1: Seq<PostView>,
    out2: Seq<PostView>,
    order: PostOrder,
)
    requires
        stable_sorted(inp, out1, order),
        stable_sorted(inp, out2, order),
    ensures
        out1 == out2,
{
    let p1 = choose|p: Seq<int>| stable_arrangement(inp, out1, order, p);
    let p2 = choose|p: Seq<int>| stable_arrangement(inp, out2, order, p);
    let n = inp.len();
    let q = Seq::new(n as nat, |i: int| choose|j: int| 0 <= j < n && p2[j] == p1[i]);
    assert forall|i: int| 0 <= i < n implies 0 <= #[trigger] q[i] < n && p2[q[i]] == p1[i]
        && out1[i] == out2[q[i]] by {
        lemma_distinct_places_cover(p2, p1[i]);
    }
    assert forall|k: int, l: int| 0 <= k < l < q.len() implies q[k] < q[l] by {
        assert(p1[k] != p1[l]);
        assert(q[k] != q[l]);
        if q[l] < q[k] {
            assert(!goes_before(order, out2[q[k]], out2[q[l]]));
            assert(!goes_before(order, out1[l], out1[k]));
            assert(p1[k] < p1[l]);
            assert(!goes_before(order, out2[q[l]], out2[q[k]]));
            assert(p2[q[l]] < p2[q[k]]);
        }
    }
    assert forall|i: int| 0 <= i < n implies out1[i] == out2[i] by {
        lemma_increasing_at_least(q, i);
        lemma_increasing_at_most(q, i);
    }
    assert(out1 =~= out2);
}

} // verus!
