//! Segmentation of text into grapheme clusters.
//!
//! The clusters themselves come from the `unicode-segmentation` crate. This
//! module states what the rest of the library relies on: the clusters of a
//! text are non-empty pieces that, joined in order, give the text back.
use crate::text::{least, push_char};
use unicode_segmentation::UnicodeSegmentation;
use vstd::prelude::*;
use vstd::seq_lib::lemma_flatten_concat;
use vstd::string::*;

verus! {

/// The extended grapheme clusters of `text`, in order, as the segmentation
/// crate reports them.
pub uninterp spec fn grapheme_clusters(text: Seq<char>) -> Seq<Seq<char>>;

/// `parts` cut `text` into consecutive non-empty pieces.
pub open spec fn tiles(parts: Seq<Seq<char>>, text: Seq<char>) -> bool {
    &&& parts.flatten() == text
    &&& forall|i: int| 0 <= i < parts.len() ==> (#[trigger] parts[i]).len() > 0
}

/// Every character of `text` as a piece of its own.
pub open spec fn singletons(text: Seq<char>) -> Seq<Seq<char>> {
    Seq::new(text.len(), |i: int| seq![text[i]])
}

/// The grapheme clusters of `text`.
///
/// These are the reported clusters. The definition falls back on one piece per
/// character where the reported ones would not tile the text, so that the
/// clusters of every text tile it (see [`lemma_clusters_tile`]).
pub open spec fn clusters(text: Seq<char>) -> Seq<Seq<char>> {
    if tiles(grapheme_clusters(text), text) {
        grapheme_clusters(text)
    } else {
        singletons(text)
    }
}

/// The number of characters that stand before piece `i`.
pub open spec fn offset(parts: Seq<Seq<char>>, i: int) -> int {
    parts.take(i).flatten().len() as int
}

/// The extended grapheme clusters of `s`, each as a string of its own.
///
/// Calls `UnicodeSegmentation::graphemes` with `is_extended` set. Its iterator
/// hands out consecutive slices of `s`, each at least one character long, from
/// the start of `s` to its end; that is all the contract claims beyond naming
/// the result.
#[verifier::external_body]
fn segment(s: &str) -> (parts: Vec<String>)
    ensures
        parts.deep_view() == grapheme_clusters(s@),
        tiles(parts.deep_view(), s@),
{
    s.graphemes(true).map(String::from).collect()
}

/// The grapheme clusters of `s`, each as a string of its own.
pub fn graphemes(s: &str) -> (parts: Vec<String>)
    ensures
        parts.deep_view() == clusters(s@),
{
    segment(s)
}

/// One piece per character tiles the text.
proof fn lemma_singletons_tile(text: Seq<char>)
    ensures
        tiles(singletons(text), text),
    decreases text.len(),
{
    let parts = singletons(text);
    if text.len() > 0 {
        lemma_singletons_tile(text.drop_last());
        assert(parts.drop_last() =~= singletons(text.drop_last()));
        assert(parts =~= parts.drop_last().push(seq![text.last()]));
        parts.drop_last().lemma_flatten_push(seq![text.last()]);
        assert(parts.flatten() =~= text);
    } else {
        assert(parts.flatten() =~= text);
    }
}

/// The clusters of a text are non-empty and, joined, give the text.
pub proof fn lemma_clusters_tile(text: Seq<char>)
    ensures
        tiles(clusters(text), text),
{
    if !tiles(grapheme_clusters(text), text) {
        lemma_singletons_tile(text);
    }
}

/// Joining the pieces before `k` and the pieces from `k` on gives the whole.
pub proof fn lemma_flatten_split(parts: Seq<Seq<char>>, k: int)
    requires
        0 <= k <= parts.len(),
    ensures
        parts.take(k).flatten() + parts.skip(k).flatten() == parts.flatten(),
{
    assert(parts =~= parts.take(k) + parts.skip(k));
    lemma_flatten_concat(parts.take(k), parts.skip(k));
}

/// Non-empty pieces are no more than the characters they hold.
pub proof fn lemma_parts_le_chars(parts: Seq<Seq<char>>)
    requires
        forall|i: int| 0 <= i < parts.len() ==> (#[trigger] parts[i]).len() > 0,
    ensures
        parts.len() <= parts.flatten().len(),
    decreases parts.len(),
{
    if parts.len() > 0 {
        let rest = parts.drop_last();
        assert forall|i: int| 0 <= i < rest.len() implies (#[trigger] rest[i]).len() > 0 by {
            assert(rest[i] == parts[i]);
        }
        lemma_parts_le_chars(rest);
        assert(parts =~= rest.push(parts.last()));
        rest.lemma_flatten_push(parts.last());
    }
}

/// The offset of the piece after `i` is the offset of `i` plus its length.
pub proof fn lemma_offset_step(parts: Seq<Seq<char>>, i: int)
    requires
        0 <= i < parts.len(),
    ensures
        offset(parts, i + 1) == offset(parts, i) + parts[i].len(),
        offset(parts, 0) == 0,
{
    assert(parts.take(i + 1) =~= parts.take(i).push(parts[i]));
    parts.take(i).lemma_flatten_push(parts[i]);
    assert(parts.take(0) =~= Seq::<Seq<char>>::empty());
}

/// Offsets grow strictly along non-empty pieces.
pub proof fn lemma_offset_increases(parts: Seq<Seq<char>>, i: int, j: int)
    requires
        0 <= i < j <= parts.len(),
        forall|k: int| 0 <= k < parts.len() ==> (#[trigger] parts[k]).len() > 0,
    ensures
        offset(parts, i) < offset(parts, j),
    decreases j - i,
{
    lemma_offset_step(parts, j - 1);
    if i < j - 1 {
        lemma_offset_increases(parts, i, j - 1);
    }
}

/// The pieces before `b`, joined, are the pieces before `a` and the pieces
/// from `a` up to `b`, joined.
pub proof fn lemma_flatten_prefix(parts: Seq<Seq<char>>, a: int, b: int)
    requires
        0 <= a <= b <= parts.len(),
    ensures
        parts.take(b).flatten() == parts.take(a).flatten() + parts.subrange(a, b).flatten(),
        offset(parts, b) == offset(parts, a) + parts.subrange(a, b).flatten().len(),
{
    assert(parts.take(b) =~= parts.take(a) + parts.subrange(a, b));
    lemma_flatten_concat(parts.take(a), parts.subrange(a, b));
}

/// The first boundary between pieces, from `k` on, that has at least `p`
/// characters before it; the number of pieces where there is none.
pub open spec fn boundary_from(parts: Seq<Seq<char>>, p: int, k: int) -> int
    decreases parts.len() - k,
{
    if k >= parts.len() || offset(parts, k) >= p {
        k
    } else {
        boundary_from(parts, p, k + 1)
    }
}

/// The first boundary between pieces that has at least `p` characters
/// before it.
pub open spec fn boundary_behind(parts: Seq<Seq<char>>, p: int) -> int {
    boundary_from(parts, p, 0)
}

/// `boundary_from` names the first boundary from `k` on with `p` characters
/// before it, wherever some boundary `h` has that many.
pub proof fn lemma_boundary_from(parts: Seq<Seq<char>>, p: int, k: int, h: int)
    requires
        0 <= k <= h <= parts.len(),
        offset(parts, h) >= p,
    ensures
        k <= boundary_from(parts, p, k) <= h,
        offset(parts, boundary_from(parts, p, k)) >= p,
        forall|m: int| k <= m < boundary_from(parts, p, k) ==> offset(parts, m) < p,
    decreases parts.len() - k,
{
    if k < parts.len() && offset(parts, k) < p {
        lemma_boundary_from(parts, p, k + 1, h);
    }
}

/// Joining the pieces of `all` after one more piece went in at `at`.
pub proof fn lemma_flatten_insert(all: Seq<Seq<char>>, at: int, piece: Seq<char>)
    requires
        0 <= at <= all.len(),
    ensures
        all.insert(at, piece).flatten() == all.take(at).flatten() + piece + all.skip(at).flatten(),
{
    assert(all.insert(at, piece) =~= all.take(at).push(piece) + all.skip(at));
    lemma_flatten_concat(all.take(at).push(piece), all.skip(at));
    all.take(at).lemma_flatten_push(piece);
}

/// Joining the pieces of `all` after the piece at `at` went out.
proof fn lemma_flatten_remove(all: Seq<Seq<char>>, at: int)
    requires
        0 <= at < all.len(),
    ensures
        all.remove(at).flatten() == all.take(at).flatten() + all.skip(at + 1).flatten(),
{
    assert(all.remove(at) =~= all.take(at) + all.skip(at + 1));
    lemma_flatten_concat(all.take(at), all.skip(at + 1));
}

/// The pieces of `all` from `lo` up to `hi`, joined; both bounds are held
/// within the pieces there are, and `lo` below `hi`.
pub open spec fn joined(all: Seq<Seq<char>>, lo: int, hi: int) -> Seq<char> {
    let stop = least(hi, all.len() as int);
    all.subrange(least(lo, stop), stop).flatten()
}

/// The strings of `parts` from `lo` up to `hi`, joined.
pub fn join(parts: &Vec<String>, lo: usize, hi: usize) -> (text: String)
    ensures
        text@ == joined(parts.deep_view(), lo as int, hi as int),
{
    let hi = if hi < parts.len() {
        hi
    } else {
        parts.len()
    };
    let lo = if lo < hi {
        lo
    } else {
        hi
    };
    let mut text = String::new();
    let mut i: usize = lo;
    assert(parts.deep_view().subrange(lo as int, lo as int) =~= Seq::<Seq<char>>::empty());
    while i < hi
        invariant
            lo <= i <= hi <= parts.len(),
            text@ == parts.deep_view().subrange(lo as int, i as int).flatten(),
        decreases hi - i,
    {
        proof {
            let g = parts.deep_view();
            assert(g.subrange(lo as int, i + 1) =~= g.subrange(lo as int, i as int).push(g[i as int]));
            g.subrange(lo as int, i as int).lemma_flatten_push(g[i as int]);
        }
        text.append(parts[i].as_str());
        i += 1;
    }
    text
}

/// The strings of `parts` joined, with `c` put in before piece `at`, or at
/// the end where there is no such piece.
pub fn join_with(parts: &Vec<String>, at: usize, c: char) -> (text: String)
    ensures
        text@ == parts.deep_view().insert(least(at as int, parts.len() as int), seq![c]).flatten(),
{
    let at = if at < parts.len() {
        at
    } else {
        parts.len()
    };
    let mut text = join(parts, 0, at);
    push_char(&mut text, c);
    let tail = join(parts, at, parts.len());
    text.append(tail.as_str());
    proof {
        let all = parts.deep_view();
        lemma_flatten_insert(all, at as int, seq![c]);
        assert(all.take(at as int) =~= all.subrange(0, at as int));
        assert(all.skip(at as int) =~= all.subrange(at as int, all.len() as int));
    }
    text
}

/// The strings of `parts` joined, without piece `at`; all of them where
/// there is no such piece.
pub fn join_without(parts: &Vec<String>, at: usize) -> (text: String)
    ensures
        text@ == (if at < parts.len() {
            parts.deep_view().remove(at as int)
        } else {
            parts.deep_view()
        }).flatten(),
{
    if at >= parts.len() {
        let text = join(parts, 0, parts.len());
        assert(parts.deep_view().subrange(0, parts.len() as int) =~= parts.deep_view());
        return text;
    }
    let mut text = join(parts, 0, at);
    let tail = join(parts, at + 1, parts.len());
    text.append(tail.as_str());
    proof {
        let all = parts.deep_view();
        lemma_flatten_remove(all, at as int);
        assert(all.take(at as int) =~= all.subrange(0, at as int));
        assert(all.skip(at + 1) =~= all.subrange(at + 1, all.len() as int));
    }
    text
}

} // verus!
