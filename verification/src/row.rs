//! One line of text, addressed by grapheme clusters.
use crate::editor::SearchDirection;
use crate::hightlighting::{classes, render_parts, reset_sequence, shown, tag_at, tags_from, visible, Type};
use crate::search::{find_among, find_in, lemma_find_bounds, lemma_part_from_finds, match_starts_in, part_starting_at, starts_among};
use crate::segment::{boundary_behind, clusters, graphemes, join, join_with, join_without, lemma_boundary_from, lemma_clusters_tile, lemma_flatten_insert, lemma_flatten_prefix, lemma_flatten_split, lemma_offset_increases, lemma_parts_le_chars, offset};
use crate::text::{byte_len, first_occurrence, is_last_occurrence, least, lemma_first_occurrence_is_leftmost, lemma_last_occurrence, occurs_at, push_char};
use vstd::prelude::*;
use vstd::string::*;
use vstd::utf8::encode_utf8;

verus! {

/// One line of a document, without its line break.
pub struct Row {
    string: String,
    hightlighting: Vec<Type>,
    len: usize,
}

/// What a [`Row`] holds.
pub struct RowView {
    /// The characters of the line.
    pub text: Seq<char>,
    /// The number of graphemes that the row takes itself to have.
    pub len: nat,
    /// The class of each grapheme, as last computed.
    pub highlighting: Seq<Type>,
}

/// The text of the word searched for, if there is one.
pub open spec fn word_view(word: Option<&str>) -> Option<Seq<char>> {
    match word {
        Some(w) => Some(w@),
        None => None,
    }
}

impl RowView {
    /// The grapheme clusters of the text.
    pub open spec fn graphemes(self) -> Seq<Seq<char>> {
        clusters(self.text)
    }

    /// The length is no more than the number of characters.
    pub open spec fn wf(self) -> bool {
        self.len <= self.text.len()
    }

    /// The length is the number of grapheme clusters of the text.
    ///
    /// A row made from a text counts its graphemes. An edit adds to the
    /// length or takes from it what it did to the graphemes it saw, so the
    /// row goes on counting them as long as the graphemes around the edit
    /// stay what they were.
    pub open spec fn is_exact(self) -> bool {
        self.len == self.graphemes().len()
    }

    /// The index of the grapheme at which `query` is found, for a search
    /// from grapheme `at`.
    pub open spec fn find(self, query: Seq<char>, at: int, direction: SearchDirection) -> Option<int> {
        find_among(self.graphemes(), self.len as int, query, at, direction)
    }

    /// The class of every grapheme, given the word searched for.
    ///
    /// Without a word, or with one that is found nowhere, each grapheme is
    /// classified by itself. With a word, each match is marked over as many
    /// graphemes as the word has; the matches are looked for from the start
    /// of the row, each behind the one before.
    pub open spec fn tags_for(self, word: Option<Seq<char>>) -> Seq<Type> {
        match word {
            None => tags_from(self.graphemes(), Seq::empty(), 0, 0),
            Some(query) => {
                let stride = clusters(query).len() as int;
                tags_from(
                    self.graphemes(),
                    starts_among(self.graphemes(), self.len as int, query, stride, 0),
                    stride,
                    0,
                )
            },
        }
    }

    /// The row with its highlighting computed anew.
    pub open spec fn highlight(self, word: Option<Seq<char>>) -> RowView {
        RowView { highlighting: self.tags_for(word), ..self }
    }

    /// What is shown of the graphemes from `start` up to `end`, both clamped
    /// to the row.
    pub open spec fn render(self, start: int, end: int) -> Seq<char> {
        shown(self.graphemes(), self.highlighting, start, end)
    }

    /// The row after `c` went in before grapheme `at`.
    ///
    /// At or beyond the length, `c` goes to the end of the text and the
    /// length grows by one. Before it, `c` goes in front of grapheme `at` of
    /// the text and the length becomes the number of graphemes of the text
    /// plus one; where the text has no grapheme `at`, it stays as it is and
    /// the length becomes the number of its graphemes.
    pub open spec fn insert(self, at: int, c: char) -> RowView {
        let all = self.graphemes();
        if at >= self.len {
            RowView { text: self.text.push(c), len: self.len + 1, ..self }
        } else if at < all.len() {
            RowView { text: all.insert(at, seq![c]).flatten(), len: all.len() + 1, ..self }
        } else {
            RowView { len: all.len(), ..self }
        }
    }

    /// The row after grapheme `at` went out.
    ///
    /// Beyond the length nothing changes. Otherwise grapheme `at` of the text
    /// is taken out, if the text has one, and the length becomes the number
    /// of graphemes that are left.
    pub open spec fn delete(self, at: int) -> RowView {
        let all = self.graphemes();
        if at > self.len {
            self
        } else if at < all.len() {
            RowView { text: all.remove(at).flatten(), len: (all.len() - 1) as nat, ..self }
        } else {
            RowView { len: all.len(), ..self }
        }
    }

    /// The row with the text of `other` behind its own; the lengths add up.
    pub open spec fn append(self, other: RowView) -> RowView {
        RowView { text: self.text + other.text, len: self.len + other.len, ..self }
    }

    /// The number of graphemes that stay in front when the row is split at `at`.
    pub open spec fn split_point(self, at: int) -> int {
        least(at, self.graphemes().len() as int)
    }

    /// What stays of the row when it is split at `at`: the graphemes before `at`.
    pub open spec fn split_head(self, at: int) -> RowView {
        let k = self.split_point(at);
        RowView { text: self.graphemes().take(k).flatten(), len: k as nat, ..self }
    }

    /// What leaves the row when it is split at `at`: the graphemes from `at`
    /// on, as a row of their own without highlighting.
    pub open spec fn split_tail(self, at: int) -> RowView {
        let k = self.split_point(at);
        RowView {
            text: self.graphemes().skip(k).flatten(),
            len: (self.graphemes().len() - k) as nat,
            highlighting: Seq::empty(),
        }
    }

    /// The first boundary between graphemes at or behind the end of the
    /// occurrence of `query` that starts with grapheme `found`.
    pub open spec fn closing_boundary(self, query: Seq<char>, found: int) -> int {
        boundary_behind(self.graphemes(), offset(self.graphemes(), found) + query.len())
    }

    /// Within the graphemes before `behind`, `query` stands nowhere to the
    /// right of the start of grapheme `found`.
    pub open spec fn no_later_occurrence(self, query: Seq<char>, found: int, behind: int) -> bool {
        forall|p: int|
            offset(self.graphemes(), found) < p ==> !#[trigger] occurs_at(
                self.graphemes().take(behind).flatten(),
                query,
                p,
            )
    }
}

impl View for Row {
    type V = RowView;

    closed spec fn view(&self) -> RowView {
        RowView { text: self.string@, len: self.len as nat, highlighting: self.hightlighting@ }
    }
}

impl From<&str> for Row {
    /// A row that holds `slice`; its length is the number of grapheme
    /// clusters of `slice`, and nothing is highlighted yet.
    fn from(slice: &str) -> (row: Row)
        ensures
            row@ == (RowView {
                text: slice@,
                len: clusters(slice@).len(),
                highlighting: Seq::empty(),
            }),
    {
        let parts = graphemes(slice);
        proof {
            lemma_clusters_tile(slice@);
            lemma_parts_le_chars(clusters(slice@));
        }
        Row { string: String::from_str(slice), hightlighting: Vec::new(), len: parts.len() }
    }
}

/// The contract of `from` says what the conversion gives; no value of the
/// specification stands for it.
impl vstd::std_specs::convert::FromSpecImpl<&str> for Row {
    open spec fn obeys_from_spec() -> bool {
        false
    }

    open spec fn from_spec(slice: &str) -> Row {
        arbitrary()
    }
}

impl Default for Row {
    /// The empty row.
    fn default() -> (row: Row)
        ensures
            row@ == (RowView { text: Seq::empty(), len: 0, highlighting: Seq::empty() }),
    {
        Row { string: String::new(), hightlighting: Vec::new(), len: 0 }
    }
}

impl Row {
    /// What every row keeps to: by its own count it holds no more graphemes
    /// than characters.
    #[verifier::type_invariant]
    pub closed spec fn wf(&self) -> bool {
        self@.wf()
    }

    /// The number of graphemes of the row.
    pub fn len(&self) -> (n: usize)
        ensures
            n == self@.len,
    {
        self.len
    }

    /// Whether the row holds no text.
    pub fn is_empty(&self) -> (empty: bool)
        ensures
            empty == (self@.text.len() == 0),
    {
        self.string.as_str().is_empty()
    }

    /// The text of the row in UTF-8.
    pub fn as_bytes(&self) -> (bytes: &[u8])
        ensures
            bytes@ == encode_utf8(self@.text),
    {
        self.string.as_str().as_bytes()
    }

    /// The graphemes from `start` up to `end` as they are shown.
    ///
    /// Both bounds are clamped to the row. A tab is shown as one space. Where
    /// the class changes from one grapheme to the next, the colour of the new
    /// class is set first; at the end the foreground is reset.
    pub fn render(&self, start: usize, end: usize) -> (text: String)
        ensures
            text@ == self@.render(start as int, end as int),
    {
        let parts = graphemes(self.string.as_str());
        render_parts(&parts, &self.hightlighting, start, end)
    }

    /// Puts `c` in as a grapheme of its own before grapheme `at`, or at the
    /// end of the row where `at` is not below the length.
    pub fn insert(&mut self, at: usize, c: char)
        ensures
            final(self)@ == old(self)@.insert(at as int, c),
    {
        proof {
            use_type_invariant(&*self);
        }
        if at >= self.len {
            let mut result = String::from_str(self.string.as_str());
            push_char(&mut result, c);
            let _ = byte_len(result.as_str());
            self.string = result;
            self.len = self.len + 1;
            return ;
        }
        let parts = graphemes(self.string.as_str());
        let count = parts.len();
        proof {
            lemma_clusters_tile(self@.text);
            lemma_parts_le_chars(parts.deep_view());
        }
        if at < count {
            let result = join_with(&parts, at, c);
            let _ = byte_len(result.as_str());
            proof {
                let all = parts.deep_view();
                lemma_flatten_insert(all, at as int, seq![c]);
                lemma_flatten_split(all, at as int);
            }
            self.string = result;
            self.len = count + 1;
        } else {
            self.len = count;
        }
    }

    /// Takes grapheme `at` out of the row; beyond the end nothing happens.
    pub fn delete(&mut self, at: usize)
        ensures
            final(self)@ == old(self)@.delete(at as int),
    {
        proof {
            use_type_invariant(&*self);
        }
        if at > self.len {
            return ;
        }
        let parts = graphemes(self.string.as_str());
        let count = parts.len();
        proof {
            lemma_clusters_tile(self@.text);
            lemma_parts_le_chars(parts.deep_view());
        }
        if at < count {
            let result = join_without(&parts, at);
            proof {
                lemma_parts_le_chars(parts.deep_view().remove(at as int));
            }
            self.len = count - 1;
            self.string = result;
        } else {
            self.len = count;
        }
    }

    /// Puts the text of `new` behind the text of this row.
    pub fn append(&mut self, new: &Row)
        ensures
            final(self)@ == old(self)@.append(new@),
    {
        proof {
            use_type_invariant(&*self);
            use_type_invariant(new);
        }
        let mut result = String::from_str(self.string.as_str());
        result.append(new.string.as_str());
        let _ = byte_len(result.as_str());
        self.string = result;
        self.len = self.len + new.len;
    }

    /// Cuts the row in two before grapheme `at`: the row keeps what stands
    /// before, and what stands from `at` on is handed out as a new row.
    pub fn split(&mut self, at: usize) -> (tail: Row)
        ensures
            final(self)@ == old(self)@.split_head(at as int),
            tail@ == old(self)@.split_tail(at as int),
    {
        let parts = graphemes(self.string.as_str());
        let count = parts.len();
        let k = if at < count {
            at
        } else {
            count
        };
        let head = join(&parts, 0, k);
        let rest = join(&parts, k, count);
        proof {
            let all = parts.deep_view();
            lemma_clusters_tile(self@.text);
            assert(all.take(k as int) =~= all.subrange(0, k as int));
            assert(all.skip(k as int) =~= all.subrange(k as int, count as int));
            lemma_parts_le_chars(all);
            lemma_parts_le_chars(all.take(k as int));
            lemma_parts_le_chars(all.skip(k as int));
        }
        self.len = k;
        self.string = head;
        Row { string: rest, hightlighting: Vec::new(), len: count - k }
    }

    /// Computes the class of every grapheme anew.
    ///
    /// With a `word`, its matches in the row are marked; everything else is a
    /// number or plain. The row gets exactly one class for each grapheme
    /// cluster of its text.
    pub fn hightlight(&mut self, word: Option<&str>)
        ensures
            final(self)@ == old(self)@.highlight(word_view(word)),
            final(self)@.highlighting.len() == old(self)@.graphemes().len(),
    {
        let parts = graphemes(self.string.as_str());
        let highlighting = match word {
            Some(word) => {
                let stride = graphemes(word).len();
                let starts = match_starts_in(&parts, self.len, word, stride);
                classes(&parts, &starts, stride)
            },
            None => {
                let starts: Vec<usize> = Vec::new();
                assert(crate::search::ints(starts@) =~= Seq::<int>::empty());
                classes(&parts, &starts, 0)
            },
        };
        proof {
            use_type_invariant(&*self);
        }
        self.hightlighting = highlighting;
    }

    /// Searches the row for `query`, starting from grapheme `at`.
    ///
    /// Forward, the search looks at the graphemes from `at` on; backward, at
    /// those before `at`. The answer is the grapheme with which the first
    /// occurrence that it meets starts. There is none where `at` lies beyond
    /// the length or `query` is empty; see [`find_among`] for the rest.
    pub fn find(&self, query: &str, at: usize, direction: SearchDirection) -> (found: Option<usize>)
        ensures
            match found {
                Some(x) => self@.find(query@, at as int, direction) == Some(x as int),
                None => self@.find(query@, at as int, direction) is None,
            },
    {
        let parts = graphemes(self.string.as_str());
        find_in(&parts, self.len, query, at, direction)
    }
}

/// An insertion makes a row that counts its graphemes one longer. The row
/// goes on counting them wherever the character stands as a grapheme cluster
/// of its own in the text it went into.
pub proof fn lemma_insert_keeps_count(row: RowView, at: int, c: char)
    requires
        row.is_exact(),
        0 <= at,
    ensures
        row.insert(at, c).len == row.len + 1,
        clusters(row.insert(at, c).text) == row.graphemes().insert(
            least(at, row.len as int),
            seq![c],
        ) ==> row.insert(at, c).is_exact(),
{
}

/// A row whose length is the number of its graphemes is left as it is by a
/// deletion at or beyond its length. A deletion before that makes it one
/// shorter, and it keeps counting its graphemes wherever the graphemes that
/// are left stay the graphemes of the new text.
pub proof fn lemma_delete_keeps_count(row: RowView, at: int)
    requires
        row.is_exact(),
        0 <= at,
    ensures
        at >= row.len ==> row.delete(at) == row,
        at < row.len ==> row.delete(at).len == row.len - 1,
        at < row.len && clusters(row.delete(at).text) == row.graphemes().remove(at)
            ==> row.delete(at).is_exact(),
{
}

/// Splitting a row gives `at` graphemes to the head, but no more than the
/// row has, and the rest to the tail. Each half counts its graphemes wherever
/// the graphemes it got stay the graphemes of its text.
pub proof fn lemma_split_keeps_count(row: RowView, at: int)
    requires
        row.is_exact(),
        0 <= at,
    ensures
        row.split_head(at).len == least(at, row.len as int),
        row.split_head(at).len + row.split_tail(at).len == row.len,
        clusters(row.split_head(at).text) == row.graphemes().take(row.split_point(at))
            ==> row.split_head(at).is_exact(),
        clusters(row.split_tail(at).text) == row.graphemes().skip(row.split_point(at))
            ==> row.split_tail(at).is_exact(),
{
}

/// Appending one row to another adds the lengths. The row goes on counting
/// its graphemes wherever no grapheme reaches across the seam.
pub proof fn lemma_append_keeps_count(row: RowView, other: RowView)
    requires
        row.is_exact(),
        other.is_exact(),
    ensures
        row.append(other).len == row.len + other.len,
        clusters(row.text + other.text) == row.graphemes() + other.graphemes() ==> row.append(
            other,
        ).is_exact(),
{
}

/// Putting a character in and taking the grapheme at the same index out
/// again gives the row back, text and length, wherever the character stands
/// as a grapheme cluster of its own in the text it went into.
pub proof fn lemma_insert_then_delete(row: RowView, at: int, c: char)
    requires
        row.is_exact(),
        0 <= at <= row.len,
        clusters(row.insert(at, c).text) == row.graphemes().insert(at, seq![c]),
    ensures
        row.insert(at, c).delete(at) == row,
{
    let all = row.graphemes();
    lemma_clusters_tile(row.text);
    assert(all.insert(at, seq![c]).remove(at) =~= all);
}

/// Splitting a row and appending what was split off gives the row back:
/// the text in any case, and the length where it was the number of graphemes.
pub proof fn lemma_split_then_append(row: RowView, at: int)
    requires
        0 <= at,
    ensures
        row.split_head(at).append(row.split_tail(at)).text == row.text,
        row.split_head(at).append(row.split_tail(at)).len == row.graphemes().len(),
        row.is_exact() ==> row.split_head(at).append(row.split_tail(at)) == row,
{
    lemma_clusters_tile(row.text);
    lemma_flatten_split(row.graphemes(), row.split_point(at));
}

/// Showing a tab as a space goes piece by piece.
proof fn lemma_visible_concat(a: Seq<char>, b: Seq<char>)
    ensures
        visible(a + b) == visible(a) + visible(b),
{
    assert(visible(a + b) =~= visible(a) + visible(b));
}

/// Where every grapheme from `i` up to `end` is plain and the class last
/// shown was plain, what is shown is the text of those graphemes with tabs as
/// spaces, and the reset.
proof fn lemma_rendered_plain(all: Seq<Seq<char>>, tags: Seq<Type>, i: int, end: int)
    requires
        0 <= i <= end <= all.len(),
        forall|k: int| i <= k < end ==> tag_at(tags, k) == Type::Plain,
    ensures
        crate::hightlighting::rendered(all, tags, Type::Plain, i, end) == visible(
            all.subrange(i, end).flatten(),
        ) + reset_sequence(),
    decreases end - i,
{
    let whole = crate::hightlighting::rendered(all, tags, Type::Plain, i, end);
    if i < end {
        lemma_rendered_plain(all, tags, i + 1, end);
        let window = all.subrange(i, end);
        assert(window.drop_first() =~= all.subrange(i + 1, end));
        assert(window.first() == all[i]);
        lemma_visible_concat(all[i], all.subrange(i + 1, end).flatten());
        assert(whole =~= visible(window.flatten()) + reset_sequence());
    } else {
        assert(all.subrange(i, end) =~= Seq::<Seq<char>>::empty());
        assert(visible(Seq::<char>::empty()) =~= Seq::<char>::empty());
        assert(whole =~= visible(all.subrange(i, end).flatten()) + reset_sequence());
    }
}

/// A row in which no grapheme is highlighted is shown, over its whole length,
/// as its text with every tab as one space, followed by the reset and by
/// nothing else.
pub proof fn lemma_render_plain_row(row: RowView)
    requires
        row.is_exact(),
        forall|k: int| 0 <= k < row.len ==> tag_at(row.highlighting, k) == Type::Plain,
    ensures
        row.render(0, row.len as int) == visible(row.text) + reset_sequence(),
{
    let all = row.graphemes();
    lemma_clusters_tile(row.text);
    lemma_rendered_plain(all, row.highlighting, 0, all.len() as int);
    assert(all.subrange(0, all.len() as int) =~= all);
}

/// What a forward search finds, a backward search finds again.
///
/// Let a forward search from `from` find `query` at grapheme `found`, and let
/// `behind` be the first boundary between graphemes at or behind the end of
/// that occurrence. Then the backward search from `behind` answers `found`,
/// unless `query` stands a second time, further right, before `behind`.
pub proof fn lemma_find_backward_meets_forward(row: RowView, query: Seq<char>, from: int, found: int)
    requires
        0 <= from,
        row.find(query, from, SearchDirection::Forward) == Some(found),
        row.no_later_occurrence(query, found, row.closing_boundary(query, found)),
    ensures
        found < row.closing_boundary(query, found) <= row.len,
        row.find(query, row.closing_boundary(query, found), SearchDirection::Backward) == Some(
            found,
        ),
{
    let all = row.graphemes();
    lemma_clusters_tile(row.text);
    lemma_find_bounds(all, row.len as int, query, from, SearchDirection::Forward);
    let lo = from;
    let hi = least(row.len as int, all.len() as int);
    let window = all.subrange(lo, hi);
    let p = first_occurrence(window.flatten(), query)->0;
    let i = found - lo;
    assert(part_starting_at(window, p) == Some(i));
    crate::search::lemma_part_from_bounds(window, p, 0);
    lemma_first_occurrence_is_leftmost(window.flatten(), query);
    assert(0 <= i < window.len() && offset(window, i) == p);
    // The occurrence, as a place in the text of the whole row.
    let start = offset(all, found);
    lemma_flatten_prefix(all, lo, hi);
    lemma_flatten_prefix(all, lo, found);
    assert(window.take(i) =~= all.subrange(lo, found));
    assert(start == offset(all, lo) + p);
    let upto_hi = all.take(hi).flatten();
    assert(start + query.len() <= upto_hi.len());
    assert(upto_hi.subrange(start, start + query.len()) =~= window.flatten().subrange(
        p,
        p + query.len(),
    ));
    // The boundary that closes it.
    let behind = boundary_behind(all, start + query.len());
    lemma_boundary_from(all, start + query.len(), 0, hi);
    assert(found < behind) by {
        if behind < found {
            lemma_offset_increases(all, behind, found);
        }
    }
    let upto = all.take(behind).flatten();
    lemma_flatten_prefix(all, behind, hi);
    assert(upto.subrange(start, start + query.len()) =~= upto_hi.subrange(
        start,
        start + query.len(),
    ));
    assert(occurs_at(upto, query, start));
    assert(is_last_occurrence(upto, query, start));
    lemma_last_occurrence(upto, query, start);
    // The grapheme that starts there.
    let head = all.take(behind);
    assert(head.take(found) =~= all.take(found));
    assert forall|k: int| 0 <= k < head.len() implies (#[trigger] head[k]).len() > 0 by {
        assert(head[k] == all[k]);
    }
    lemma_part_from_finds(head, 0, found);
}

} // verus!
