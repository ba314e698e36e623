//! Searching a text that is cut into graphemes.
//!
//! A search compares characters and answers in graphemes: a place at which
//! the query stands counts only where a grapheme starts exactly there.
use crate::editor::SearchDirection;
use crate::segment::{lemma_offset_increases, lemma_offset_step, offset};
use crate::text::{extend_with_chars, find_first, find_last, first_occurrence, last_occurrence, least, to_chars};
use vstd::prelude::*;
use vstd::string::*;

verus! {

/// The first piece of `parts`, from piece `i` on, that starts right after `p`
/// characters, if one does.
pub open spec fn part_from(parts: Seq<Seq<char>>, p: int, i: int) -> Option<int>
    decreases parts.len() - i,
{
    if i < 0 || i >= parts.len() {
        None
    } else if offset(parts, i) == p {
        Some(i)
    } else {
        part_from(parts, p, i + 1)
    }
}

/// The first piece of `parts` that starts right after `p` characters, if one
/// does.
pub open spec fn part_starting_at(parts: Seq<Seq<char>>, p: int) -> Option<int> {
    part_from(parts, p, 0)
}

/// What `part_from` names is a piece from `i` on.
pub proof fn lemma_part_from_bounds(parts: Seq<Seq<char>>, p: int, i: int)
    requires
        0 <= i,
    ensures
        part_from(parts, p, i) is Some ==> i <= part_from(parts, p, i)->0 < parts.len() && offset(
            parts,
            part_from(parts, p, i)->0,
        ) == p,
    decreases parts.len() - i,
{
    if i < parts.len() && offset(parts, i) != p {
        lemma_part_from_bounds(parts, p, i + 1);
    }
}

/// Among non-empty pieces, the piece that starts at the offset of piece `k`
/// is `k`.
pub proof fn lemma_part_from_finds(parts: Seq<Seq<char>>, i: int, k: int)
    requires
        0 <= i <= k < parts.len(),
        forall|j: int| 0 <= j < parts.len() ==> (#[trigger] parts[j]).len() > 0,
    ensures
        part_from(parts, offset(parts, k), i) == Some(k),
    decreases k - i,
{
    if i < k {
        lemma_offset_increases(parts, i, k);
        lemma_part_from_finds(parts, i + 1, k);
    }
}

/// The index of the grapheme at which `query` is found among the graphemes
/// `all` of a row that takes itself to have `len` of them.
///
/// Forward, the search runs over the graphemes from `at` up to the length;
/// backward, over the graphemes before `at`. Within that window it takes the
/// leftmost (forward) or rightmost (backward) place where the characters of
/// `query` stand, and answers with the grapheme that starts exactly there.
/// There is no answer if `at` lies beyond the length, if `query` is empty,
/// if it stands nowhere in the window, or if the place taken falls inside a
/// grapheme.
pub open spec fn find_among(
    all: Seq<Seq<char>>,
    len: int,
    query: Seq<char>,
    at: int,
    direction: SearchDirection,
) -> Option<int> {
    if at > len || query.len() == 0 {
        None
    } else {
        match direction {
            SearchDirection::Forward => {
                let lo = least(at, all.len() as int);
                let window = all.subrange(lo, least(len, all.len() as int));
                match first_occurrence(window.flatten(), query) {
                    Some(p) => match part_starting_at(window, p) {
                        Some(i) => Some(lo + i),
                        None => None,
                    },
                    None => None,
                }
            },
            SearchDirection::Backward => {
                let window = all.take(least(at, all.len() as int));
                match last_occurrence(window.flatten(), query) {
                    Some(p) => part_starting_at(window, p),
                    None => None,
                }
            },
        }
    }
}

/// A search answers within the window it runs over.
pub proof fn lemma_find_bounds(
    all: Seq<Seq<char>>,
    len: int,
    query: Seq<char>,
    at: int,
    direction: SearchDirection,
)
    requires
        0 <= at,
        0 <= len,
        find_among(all, len, query, at, direction) is Some,
    ensures
        at <= len,
        query.len() > 0,
        direction == SearchDirection::Forward ==> at <= find_among(all, len, query, at, direction)->0
            < least(len, all.len() as int),
        direction == SearchDirection::Backward ==> 0 <= find_among(
            all,
            len,
            query,
            at,
            direction,
        )->0 < least(at, all.len() as int),
{
    match direction {
        SearchDirection::Forward => {
            let lo = least(at, all.len() as int);
            let window = all.subrange(lo, least(len, all.len() as int));
            let p = first_occurrence(window.flatten(), query)->0;
            lemma_part_from_bounds(window, p, 0);
        },
        SearchDirection::Backward => {
            let window = all.take(least(at, all.len() as int));
            let p = last_occurrence(window.flatten(), query)->0;
            lemma_part_from_bounds(window, p, 0);
        },
    }
}

/// The graphemes at which the matches of `query` start, for a scan that
/// looks forward from grapheme `from`.
///
/// After a match at `m` the scan goes on from `m + stride`. It stops where
/// nothing more is found, and where that sum would no longer fit a machine
/// word.
pub open spec fn starts_among(
    all: Seq<Seq<char>>,
    len: int,
    query: Seq<char>,
    stride: int,
    from: int,
) -> Seq<int>
    decreases
        (if 0 <= from <= len {
            len - from + 1
        } else {
            0
        }),
{
    if from < 0 || len < 0 {
        Seq::empty()
    } else {
        match find_among(all, len, query, from, SearchDirection::Forward) {
            None => Seq::empty(),
            Some(m) => {
                if stride <= 0 || m + stride > usize::MAX {
                    seq![m]
                } else {
                    proof {
                        lemma_find_bounds(all, len, query, from, SearchDirection::Forward);
                    }
                    seq![m] + starts_among(all, len, query, stride, m + stride)
                }
            },
        }
    }
}

/// The numbers of `v` as integers.
pub open spec fn ints(v: Seq<usize>) -> Seq<int> {
    Seq::new(v.len(), |k: int| v[k] as int)
}

/// The first index in `starts` of the entry equal to `p`, where `starts`
/// holds the offsets of the pieces of `parts` in order.
fn index_of_offset(starts: &Vec<usize>, p: usize, Ghost(parts): Ghost<Seq<Seq<char>>>) -> (found: Option<usize>)
    requires
        starts.len() == parts.len(),
        forall|i: int| 0 <= i < starts.len() ==> starts[i] == offset(parts, i),
    ensures
        match found {
            Some(i) => i < starts.len() && part_starting_at(parts, p as int) == Some(i as int),
            None => part_starting_at(parts, p as int) is None,
        },
{
    let mut i: usize = 0;
    while i < starts.len()
        invariant
            i <= starts.len(),
            starts.len() == parts.len(),
            forall|i: int| 0 <= i < starts.len() ==> starts[i] == offset(parts, i),
            part_starting_at(parts, p as int) == part_from(parts, p as int, i as int),
        decreases starts.len() - i,
    {
        if starts[i] == p {
            return Some(i);
        }
        i += 1;
    }
    None
}

/// Searches the graphemes `parts` of a row that takes itself to have `len`
/// of them for `query`, starting from grapheme `at`.
pub fn find_in(parts: &Vec<String>, len: usize, query: &str, at: usize, direction: SearchDirection) -> (found: Option<usize>)
    ensures
        match found {
            Some(x) => find_among(parts.deep_view(), len as int, query@, at as int, direction)
                == Some(x as int),
            None => find_among(parts.deep_view(), len as int, query@, at as int, direction)
                is None,
        },
{
    if at > len || query.is_empty() {
        return None;
    }
    let count = parts.len();
    let (lo, hi) = match direction {
        SearchDirection::Forward => (
            if at < count {
                at
            } else {
                count
            },
            if len < count {
                len
            } else {
                count
            },
        ),
        SearchDirection::Backward => (0, if at < count {
            at
        } else {
            count
        }),
    };
    let ghost window = parts.deep_view().subrange(lo as int, hi as int);
    proof {
        assert(parts.deep_view().take(hi as int) =~= parts.deep_view().subrange(0, hi as int));
        assert(window.take(0) =~= Seq::<Seq<char>>::empty());
    }
    let mut hay: Vec<char> = Vec::new();
    let mut starts: Vec<usize> = Vec::new();
    let mut i: usize = lo;
    while i < hi
        invariant
            lo <= i <= hi <= parts.len(),
            window == parts.deep_view().subrange(lo as int, hi as int),
            hay@ == window.take(i - lo).flatten(),
            starts.len() == i - lo,
            forall|k: int| 0 <= k < starts.len() ==> starts[k] == offset(window, k),
        decreases hi - i,
    {
        proof {
            lemma_offset_step(window, i - lo);
            assert(window.take(i - lo + 1) =~= window.take(i - lo).push(window[i - lo]));
            window.take(i - lo).lemma_flatten_push(window[i - lo]);
        }
        starts.push(hay.len());
        extend_with_chars(&mut hay, parts[i].as_str());
        i += 1;
    }
    proof {
        assert(window.take(hi - lo) =~= window);
    }
    let needle = to_chars(query);
    let place = match direction {
        SearchDirection::Forward => find_first(&hay, &needle),
        SearchDirection::Backward => find_last(&hay, &needle),
    };
    match place {
        None => None,
        Some(p) => match index_of_offset(&starts, p, Ghost(window)) {
            None => None,
            Some(k) => Some(lo + k),
        },
    }
}

/// The graphemes at which the matches of `query` start among the graphemes
/// `parts` of a row that takes itself to have `len` of them, for a query of
/// `stride` graphemes.
pub fn match_starts_in(parts: &Vec<String>, len: usize, query: &str, stride: usize) -> (starts: Vec<usize>)
    ensures
        ints(starts@) == starts_among(parts.deep_view(), len as int, query@, stride as int, 0),
{
    let ghost all = parts.deep_view();
    let mut starts: Vec<usize> = Vec::new();
    let mut search_index: usize = 0;
    assert(ints(starts@) =~= Seq::<int>::empty());
    loop
        invariant_except_break
            starts_among(all, len as int, query@, stride as int, 0) == ints(starts@) + starts_among(
                all,
                len as int,
                query@,
                stride as int,
                search_index as int,
            ),
        invariant
            all == parts.deep_view(),
        ensures
            starts_among(all, len as int, query@, stride as int, 0) == ints(starts@),
        decreases
            (if search_index <= len {
                len - search_index + 1
            } else {
                0
            }),
    {
        match find_in(parts, len, query, search_index, SearchDirection::Forward) {
            None => {
                break ;
            },
            Some(m) => {
                proof {
                    lemma_find_bounds(
                        all,
                        len as int,
                        query@,
                        search_index as int,
                        SearchDirection::Forward,
                    );
                }
                let ghost before = ints(starts@);
                starts.push(m);
                assert(ints(starts@) =~= before + seq![m as int]);
                if stride == 0 {
                    break ;
                }
                match m.checked_add(stride) {
                    Some(next) => {
                        search_index = next;
                    },
                    None => {
                        break ;
                    },
                }
            },
        }
    }
    starts
}

} // verus!
