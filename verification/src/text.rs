//! Small helpers on strings and character sequences.
use vstd::prelude::*;
use vstd::string::*;
use vstd::utf8::encode_utf8;

verus! {

/// Appends `c` to `s`.
///
/// Calls `String::push`; trusted to append exactly the given character.
#[verifier::external_body]
pub(crate) fn push_char(s: &mut String, c: char)
    ensures
        final(s)@ == old(s)@.push(c),
{
    s.push(c)
}

/// Takes the last character of `s` away; an empty string stays empty.
///
/// Calls `String::pop`, which removes the last character and hands it out,
/// or hands out nothing where the string is empty.
#[verifier::external_body]
pub(crate) fn pop_char(s: &mut String)
    ensures
        old(s)@.len() > 0 ==> final(s)@ == old(s)@.drop_last(),
        old(s)@.len() == 0 ==> final(s)@ == old(s)@,
{
    s.pop();
}

/// Every character takes at least one byte in UTF-8.
pub proof fn lemma_chars_fit_in_bytes(chars: Seq<char>)
    ensures
        chars.len() <= encode_utf8(chars).len(),
    decreases chars.len(),
{
    if chars.len() > 0 {
        lemma_chars_fit_in_bytes(chars.drop_first());
    }
}

/// The number of bytes of `s`; it bounds the number of its characters.
pub fn byte_len(s: &str) -> (n: usize)
    ensures
        n == encode_utf8(s@).len(),
        s@.len() <= n,
{
    proof {
        lemma_chars_fit_in_bytes(s@);
    }
    s.as_bytes().len()
}

/// The characters of `s`, in order.
pub fn to_chars(s: &str) -> (v: Vec<char>)
    ensures
        v@ == s@,
{
    let mut v: Vec<char> = Vec::new();
    for c in it: s.chars()
        invariant
            it.seq() == s@,
            v@ == it.seq().take(it.index()),
    {
        v.push(c);
    }
    v
}

/// Appends the characters of `s` to `v`.
pub fn extend_with_chars(v: &mut Vec<char>, s: &str)
    ensures
        final(v)@ == old(v)@ + s@,
{
    let ghost before = v@;
    for c in it: s.chars()
        invariant
            it.seq() == s@,
            v@ == before + it.seq().take(it.index()),
    {
        v.push(c);
    }
}

/// The smaller of two numbers.
pub open spec fn least(a: int, b: int) -> int {
    if a <= b {
        a
    } else {
        b
    }
}

/// The larger of two numbers.
pub open spec fn greatest(a: int, b: int) -> int {
    if a >= b {
        a
    } else {
        b
    }
}

/// The character of the decimal digit `d`.
pub open spec fn digit(d: nat) -> char
    recommends
        d < 10,
{
    if d == 0 {
        '0'
    } else if d == 1 {
        '1'
    } else if d == 2 {
        '2'
    } else if d == 3 {
        '3'
    } else if d == 4 {
        '4'
    } else if d == 5 {
        '5'
    } else if d == 6 {
        '6'
    } else if d == 7 {
        '7'
    } else if d == 8 {
        '8'
    } else {
        '9'
    }
}

/// `n` in decimal, without leading zeros.
pub open spec fn decimal(n: nat) -> Seq<char>
    decreases n,
{
    if n < 10 {
        seq![digit(n)]
    } else {
        decimal(n / 10).push(digit(n % 10))
    }
}

/// `n` spaces.
pub open spec fn spaces(n: nat) -> Seq<char> {
    Seq::new(n, |i: int| ' ')
}

/// The first `n` characters of `text`, or all of it where it has fewer.
pub open spec fn truncated(text: Seq<char>, n: nat) -> Seq<char> {
    if n < text.len() {
        text.take(n as int)
    } else {
        text
    }
}

/// The character of the decimal digit `d`.
fn digit_char(d: usize) -> (c: char)
    requires
        d < 10,
    ensures
        c == digit(d as nat),
{
    if d == 0 {
        '0'
    } else if d == 1 {
        '1'
    } else if d == 2 {
        '2'
    } else if d == 3 {
        '3'
    } else if d == 4 {
        '4'
    } else if d == 5 {
        '5'
    } else if d == 6 {
        '6'
    } else if d == 7 {
        '7'
    } else if d == 8 {
        '8'
    } else {
        '9'
    }
}

/// `n` in decimal, without leading zeros.
pub fn decimal_string(n: usize) -> (digits: String)
    ensures
        digits@ == decimal(n as nat),
    decreases n,
{
    if n < 10 {
        let mut digits = String::new();
        push_char(&mut digits, digit_char(n));
        assert(digits@ =~= seq![digit(n as nat)]);
        digits
    } else {
        let mut digits = decimal_string(n / 10);
        push_char(&mut digits, digit_char(n % 10));
        digits
    }
}

/// Appends `n` spaces to `s`.
pub fn pad(s: &mut String, n: usize)
    ensures
        final(s)@ == old(s)@ + spaces(n as nat),
{
    let mut k: usize = 0;
    while k < n
        invariant
            k <= n,
            s@ == old(s)@ + spaces(k as nat),
        decreases n - k,
    {
        push_char(s, ' ');
        k += 1;
        assert(s@ =~= old(s)@ + spaces(k as nat));
    }
    assert(s@ =~= old(s)@ + spaces(n as nat));
}

/// The first `n` characters of `text`, or all of it where it has fewer.
pub fn truncate(text: &str, n: usize) -> (cut: String)
    ensures
        cut@ == truncated(text@, n as nat),
{
    let chars = to_chars(text);
    if n >= chars.len() {
        return String::from_str(text);
    }
    let mut cut = String::new();
    let mut k: usize = 0;
    while k < n
        invariant
            k <= n < chars.len(),
            cut@ == chars@.take(k as int),
        decreases n - k,
    {
        push_char(&mut cut, chars[k]);
        assert(chars@.take(k + 1) =~= chars@.take(k as int).push(chars@[k as int]));
        k += 1;
    }
    cut
}

/// `needle` stands in `hay` at position `p`.
pub open spec fn occurs_at(hay: Seq<char>, needle: Seq<char>, p: int) -> bool {
    &&& 0 <= p
    &&& p + needle.len() <= hay.len()
    &&& hay.subrange(p, p + needle.len()) == needle
}

/// `p` is the leftmost position at which `needle` stands in `hay`.
pub open spec fn is_first_occurrence(hay: Seq<char>, needle: Seq<char>, p: int) -> bool {
    &&& occurs_at(hay, needle, p)
    &&& forall|k: int| 0 <= k < p ==> !occurs_at(hay, needle, k)
}

/// `p` is the rightmost position at which `needle` stands in `hay`.
pub open spec fn is_last_occurrence(hay: Seq<char>, needle: Seq<char>, p: int) -> bool {
    &&& occurs_at(hay, needle, p)
    &&& forall|k: int| p < k ==> !occurs_at(hay, needle, k)
}

/// The leftmost position at which `needle` stands in `hay`, if there is one.
pub open spec fn first_occurrence(hay: Seq<char>, needle: Seq<char>) -> Option<int> {
    if exists|p: int| occurs_at(hay, needle, p) {
        Some(choose|p: int| is_first_occurrence(hay, needle, p))
    } else {
        None
    }
}

/// The rightmost position at which `needle` stands in `hay`, if there is one.
pub open spec fn last_occurrence(hay: Seq<char>, needle: Seq<char>) -> Option<int> {
    if exists|p: int| occurs_at(hay, needle, p) {
        Some(choose|p: int| is_last_occurrence(hay, needle, p))
    } else {
        None
    }
}

/// A leftmost occurrence is the one that `first_occurrence` names.
pub proof fn lemma_first_occurrence(hay: Seq<char>, needle: Seq<char>, p: int)
    requires
        is_first_occurrence(hay, needle, p),
    ensures
        first_occurrence(hay, needle) == Some(p),
{
    let q = choose|q: int| is_first_occurrence(hay, needle, q);
    assert(is_first_occurrence(hay, needle, q));
    assert(q == p) by {
        if q < p {
            assert(!occurs_at(hay, needle, q));
        }
        if p < q {
            assert(!occurs_at(hay, needle, p));
        }
    }
}

/// A rightmost occurrence is the one that `last_occurrence` names.
pub proof fn lemma_last_occurrence(hay: Seq<char>, needle: Seq<char>, p: int)
    requires
        is_last_occurrence(hay, needle, p),
    ensures
        last_occurrence(hay, needle) == Some(p),
{
    let q = choose|q: int| is_last_occurrence(hay, needle, q);
    assert(is_last_occurrence(hay, needle, q));
    assert(q == p) by {
        if q < p {
            assert(!occurs_at(hay, needle, p));
        }
        if p < q {
            assert(!occurs_at(hay, needle, q));
        }
    }
}

/// Where `needle` stands at `p`, it has a leftmost occurrence.
proof fn lemma_leftmost_exists(hay: Seq<char>, needle: Seq<char>, p: int)
    requires
        occurs_at(hay, needle, p),
    ensures
        exists|q: int| is_first_occurrence(hay, needle, q),
    decreases p,
{
    if exists|k: int| 0 <= k < p && occurs_at(hay, needle, k) {
        let k = choose|k: int| 0 <= k < p && occurs_at(hay, needle, k);
        lemma_leftmost_exists(hay, needle, k);
    } else {
        assert(is_first_occurrence(hay, needle, p));
    }
}

/// What `first_occurrence` names is the leftmost occurrence.
pub proof fn lemma_first_occurrence_is_leftmost(hay: Seq<char>, needle: Seq<char>)
    requires
        first_occurrence(hay, needle) is Some,
    ensures
        is_first_occurrence(hay, needle, first_occurrence(hay, needle)->0),
{
    let p = choose|p: int| occurs_at(hay, needle, p);
    lemma_leftmost_exists(hay, needle, p);
}

/// Whether `needle` stands in `hay` at position `p`.
pub fn matches_at(hay: &Vec<char>, needle: &Vec<char>, p: usize) -> (found: bool)
    ensures
        found == occurs_at(hay@, needle@, p as int),
{
    if needle.len() > hay.len() || p > hay.len() - needle.len() {
        return false;
    }
    let mut k: usize = 0;
    while k < needle.len()
        invariant
            k <= needle.len(),
            p + needle.len() <= hay.len(),
            forall|j: int| 0 <= j < k ==> hay@[p + j] == needle@[j],
        decreases needle.len() - k,
    {
        if hay[p + k] != needle[k] {
            assert(hay@.subrange(p as int, p + needle.len())[k as int] != needle@[k as int]);
            return false;
        }
        k += 1;
    }
    assert(hay@.subrange(p as int, p + needle.len()) =~= needle@);
    true
}

/// The leftmost position at which `needle` stands in `hay`.
pub fn find_first(hay: &Vec<char>, needle: &Vec<char>) -> (found: Option<usize>)
    ensures
        match found {
            Some(p) => first_occurrence(hay@, needle@) == Some(p as int),
            None => first_occurrence(hay@, needle@) is None,
        },
{
    if needle.len() > hay.len() {
        return None;
    }
    let last: usize = hay.len() - needle.len();
    let mut p: usize = 0;
    loop
        invariant
            last == hay.len() - needle.len(),
            p <= last,
            forall|k: int| 0 <= k < p ==> !occurs_at(hay@, needle@, k),
        decreases last - p,
    {
        if matches_at(hay, needle, p) {
            proof {
                lemma_first_occurrence(hay@, needle@, p as int);
            }
            return Some(p);
        }
        if p == last {
            return None;
        }
        p += 1;
    }
}

/// The rightmost position at which `needle` stands in `hay`.
pub fn find_last(hay: &Vec<char>, needle: &Vec<char>) -> (found: Option<usize>)
    ensures
        match found {
            Some(p) => last_occurrence(hay@, needle@) == Some(p as int),
            None => last_occurrence(hay@, needle@) is None,
        },
{
    if needle.len() > hay.len() {
        return None;
    }
    let mut p: usize = hay.len() - needle.len();
    loop
        invariant
            p <= hay.len() - needle.len(),
            needle.len() <= hay.len(),
            forall|k: int| p < k ==> !occurs_at(hay@, needle@, k),
        decreases p,
    {
        if matches_at(hay, needle, p) {
            proof {
                lemma_last_occurrence(hay@, needle@, p as int);
            }
            return Some(p);
        }
        if p == 0 {
            return None;
        }
        p -= 1;
    }
}

} // verus!
