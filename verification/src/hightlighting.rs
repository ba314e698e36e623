//! The classes a grapheme can be shown in, and the colour of each.
use crate::search::ints;
use crate::text::{decimal, least, push_char, to_chars};
use vstd::prelude::*;
use vstd::string::*;

verus! {

/// How one grapheme of a row is shown.
#[derive(PartialEq, Eq, Structural, Clone, Copy, Debug)]
pub enum Type {
    /// Plain text.
    Plain,
    /// An ASCII digit.
    Number,
    /// Part of a match of the active search.
    Match,
}

/// A colour by its red, green and blue parts.
#[derive(PartialEq, Eq, Structural, Clone, Copy, Debug)]
pub struct Color {
    pub red: u8,
    pub green: u8,
    pub blue: u8,
}

impl Type {
    /// The colour of this class.
    pub open spec fn color(self) -> Color {
        match self {
            Type::Number => (Color { red: 220, green: 163, blue: 163 }),
            Type::Match => (Color { red: 38, green: 139, blue: 210 }),
            Type::Plain => (Color { red: 255, green: 255, blue: 255 }),
        }
    }

    /// The colour of this class.
    pub fn to_color(&self) -> (color: Color)
        ensures
            color == self.color(),
    {
        match self {
            Type::Number => Color { red: 220, green: 163, blue: 163 },
            Type::Match => Color { red: 38, green: 139, blue: 210 },
            Type::Plain => Color { red: 255, green: 255, blue: 255 },
        }
    }
}

/// The characters that open every control sequence: escape and `[`.
pub open spec fn control_introducer() -> Seq<char> {
    seq!['\u{1b}', '[']
}

/// The control sequence that sets the foreground to `color`.
pub open spec fn foreground_sequence(color: Color) -> Seq<char> {
    control_introducer() + seq!['3', '8', ';', '2', ';'] + decimal(color.red as nat) + seq![';']
        + decimal(color.green as nat) + seq![';'] + decimal(color.blue as nat) + seq!['m']
}

/// The control sequence that sets the foreground back to the terminal's own.
pub open spec fn reset_sequence() -> Seq<char> {
    control_introducer() + seq!['3', '9', 'm']
}

/// The control sequence that sets the foreground to `color`.
///
/// Formats `termion::color::Fg` of a `termion::color::Rgb`. The crate writes
/// the introducer, `38;2;`, the three parts in decimal with `;` between
/// them, and `m`.
#[verifier::external_body]
pub(crate) fn foreground(color: Color) -> (sequence: String)
    ensures
        sequence@ == foreground_sequence(color),
{
    format!("{}", termion::color::Fg(termion::color::Rgb(color.red, color.green, color.blue)))
}

/// The control sequence that sets the foreground back to the terminal's own.
///
/// Formats `termion::color::Fg` of `termion::color::Reset`, which the crate
/// writes as the introducer followed by `39m`.
#[verifier::external_body]
pub(crate) fn foreground_reset() -> (sequence: String)
    ensures
        sequence@ == reset_sequence(),
{
    format!("{}", termion::color::Fg(termion::color::Reset))
}

/// Whether `c` is one of the ten ASCII digits.
pub open spec fn is_ascii_digit(c: char) -> bool {
    '0' <= c && c <= '9'
}

/// The class of a grapheme outside any match: a number if it begins with an
/// ASCII digit, plain otherwise.
pub open spec fn classify(cluster: Seq<char>) -> Type {
    if cluster.len() > 0 && is_ascii_digit(cluster[0]) {
        Type::Number
    } else {
        Type::Plain
    }
}

/// The classes of the graphemes of `all` from index `i` on.
///
/// A grapheme whose index is in `starts` opens a run of `stride` matches, cut
/// short at the end of the row; the walk goes on behind the run. Any other
/// grapheme is classified by itself.
pub open spec fn tags_from(all: Seq<Seq<char>>, starts: Seq<int>, stride: int, i: int) -> Seq<Type>
    decreases all.len() - i,
{
    if i < 0 || i >= all.len() {
        Seq::empty()
    } else if stride > 0 && starts.contains(i) {
        let run = least(stride, all.len() - i);
        Seq::new(run as nat, |k: int| Type::Match) + tags_from(all, starts, stride, i + run)
    } else {
        seq![classify(all[i])] + tags_from(all, starts, stride, i + 1)
    }
}

/// The walk of `tags_from` yields one class for each grapheme it covers.
pub proof fn lemma_tags_len(all: Seq<Seq<char>>, starts: Seq<int>, stride: int, i: int)
    requires
        0 <= i <= all.len(),
    ensures
        tags_from(all, starts, stride, i).len() == all.len() - i,
    decreases all.len() - i,
{
    if i < all.len() {
        if stride > 0 && starts.contains(i) {
            lemma_tags_len(all, starts, stride, i + least(stride, all.len() - i));
        } else {
            lemma_tags_len(all, starts, stride, i + 1);
        }
    }
}

/// The class of grapheme `i`; plain where none was computed.
pub open spec fn tag_at(tags: Seq<Type>, i: int) -> Type {
    if 0 <= i < tags.len() {
        tags[i]
    } else {
        Type::Plain
    }
}

/// The characters as they are shown: a tab becomes a single space.
pub open spec fn visible(chars: Seq<char>) -> Seq<char> {
    Seq::new(chars.len(), |k: int| if chars[k] == '\t' { ' ' } else { chars[k] })
}

/// What is shown of the graphemes from `i` up to `end`, when the class last
/// shown was `current`.
///
/// Each grapheme is shown whole, preceded by the colour of its class where
/// that class differs from the one before it. The foreground is reset at the
/// end.
pub open spec fn rendered(all: Seq<Seq<char>>, tags: Seq<Type>, current: Type, i: int, end: int) -> Seq<char>
    decreases end - i,
{
    if i >= end {
        reset_sequence()
    } else {
        let tag = tag_at(tags, i);
        let color = if tag != current {
            foreground_sequence(tag.color())
        } else {
            Seq::empty()
        };
        color + visible(all[i]) + rendered(all, tags, tag, i + 1, end)
    }
}

/// What is shown of the graphemes of `all` from `start` up to `end`, both
/// held within the graphemes there are, and `start` below `end`.
pub open spec fn shown(all: Seq<Seq<char>>, tags: Seq<Type>, start: int, end: int) -> Seq<char> {
    let stop = least(end, all.len() as int);
    rendered(all, tags, Type::Plain, least(start, stop), stop)
}

/// Whether `index` is among `starts`.
fn contains_index(starts: &Vec<usize>, index: usize) -> (found: bool)
    ensures
        found == ints(starts@).contains(index as int),
{
    let mut k: usize = 0;
    while k < starts.len()
        invariant
            k <= starts.len(),
            forall|j: int| 0 <= j < k ==> ints(starts@)[j] != index,
        decreases starts.len() - k,
    {
        if starts[k] == index {
            assert(ints(starts@)[k as int] == index);
            return true;
        }
        k += 1;
    }
    false
}

/// The class of every grapheme of `parts`, where the matches of a word of
/// `stride` graphemes start at `starts`.
pub fn classes(parts: &Vec<String>, starts: &Vec<usize>, stride: usize) -> (tags: Vec<Type>)
    ensures
        tags@ == tags_from(parts.deep_view(), ints(starts@), stride as int, 0),
        tags.len() == parts.len(),
{
    let count = parts.len();
    let ghost all = parts.deep_view();
    let mut tags: Vec<Type> = Vec::new();
    let mut index: usize = 0;
    while index < count
        invariant
            index <= count == parts.len(),
            all == parts.deep_view(),
            tags_from(all, ints(starts@), stride as int, 0) == tags@ + tags_from(
                all,
                ints(starts@),
                stride as int,
                index as int,
            ),
        decreases count - index,
    {
        if stride > 0 && contains_index(starts, index) {
            let run = if stride < count - index {
                stride
            } else {
                count - index
            };
            let ghost before = tags@;
            let mut k: usize = 0;
            while k < run
                invariant
                    k <= run,
                    tags@ == before + Seq::new(k as nat, |j: int| Type::Match),
                decreases run - k,
            {
                tags.push(Type::Match);
                k += 1;
                assert(tags@ =~= before + Seq::new(k as nat, |j: int| Type::Match));
            }
            index += run;
        } else {
            let cluster = parts[index].as_str();
            let mut class = Type::Plain;
            if !cluster.is_empty() {
                let first = cluster.get_char(0);
                if '0' <= first && first <= '9' {
                    class = Type::Number;
                }
            }
            tags.push(class);
            index += 1;
        }
    }
    proof {
        lemma_tags_len(all, ints(starts@), stride as int, 0);
    }
    tags
}

/// The graphemes `parts` from `start` up to `end` as they are shown, with
/// the classes `tags`.
pub fn render_parts(parts: &Vec<String>, tags: &Vec<Type>, start: usize, end: usize) -> (text: String)
    ensures
        text@ == shown(parts.deep_view(), tags@, start as int, end as int),
{
    let end = if end < parts.len() {
        end
    } else {
        parts.len()
    };
    let start = if start < end {
        start
    } else {
        end
    };
    let ghost all = parts.deep_view();
    let mut result = String::new();
    let mut current = Type::Plain;
    let mut index: usize = start;
    while index < end
        invariant
            start <= index <= end <= parts.len(),
            all == parts.deep_view(),
            rendered(all, tags@, Type::Plain, start as int, end as int) == result@ + rendered(
                all,
                tags@,
                current,
                index as int,
                end as int,
            ),
        decreases end - index,
    {
        let tag = if index < tags.len() {
            tags[index]
        } else {
            Type::Plain
        };
        if tag != current {
            current = tag;
            result.append(foreground(tag.to_color()).as_str());
        }
        let ghost colored = result@;
        let cluster = to_chars(parts[index].as_str());
        let mut k: usize = 0;
        while k < cluster.len()
            invariant
                k <= cluster.len(),
                result@ == colored + visible(cluster@).take(k as int),
            decreases cluster.len() - k,
        {
            let c = cluster[k];
            push_char(&mut result, if c == '\t' { ' ' } else { c });
            assert(visible(cluster@).take(k + 1) =~= visible(cluster@).take(k as int).push(
                visible(cluster@)[k as int],
            ));
            k += 1;
        }
        assert(visible(cluster@).take(cluster.len() as int) =~= visible(cluster@));
        index += 1;
    }
    result.append(foreground_reset().as_str());
    result
}

} // verus!
