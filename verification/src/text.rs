//! Text as sequences of characters: conversion from and to strings, white
//! space, words, decimal integers and searching.

use vstd::prelude::*;
use vstd::string::*;

verus! {

/// `String::push` appends one character to the end of the string.
pub assume_specification[ String::push ](s: &mut String, c: char)
    ensures
        final(s)@ == old(s)@.push(c),
;

/// The characters of a string, in order.
pub fn chars_of(s: &str) -> (v: Vec<char>)
    ensures
        v@ == s@,
{
    broadcast use group_string_axioms;

    let mut v: Vec<char> = Vec::new();
    for c in it: s.chars()
        invariant
            it.seq() == s@,
            v@ == it.seq().take(it.index()),
    {
        v.push(c);
    }
    v
}

/// The string made of the given characters, in order.
pub fn string_of(chars: &[char]) -> (s: String)
    ensures
        s@ == chars@,
{
    let mut s = String::new();
    let mut i: usize = 0;
    while i < chars.len()
        invariant
            i <= chars.len(),
            s@ == chars@.take(i as int),
        decreases chars.len() - i,
    {
        s.push(chars[i]);
        i = i + 1;
    }
    s
}

/// Whether a character is white space: one of the code points with the
/// Unicode property `White_Space`.
pub open spec fn white_space(c: char) -> bool {
    let u = c as u32;
    ||| 0x09 <= u <= 0x0D
    ||| u == 0x20
    ||| u == 0x85
    ||| u == 0xA0
    ||| u == 0x1680
    ||| 0x2000 <= u <= 0x200A
    ||| u == 0x2028
    ||| u == 0x2029
    ||| u == 0x202F
    ||| u == 0x205F
    ||| u == 0x3000
}

/// Whether a character is white space.
pub fn is_white_space(c: char) -> (r: bool)
    ensures
        r == white_space(c),
{
    let u: u32 = c as u32;
    (0x09 <= u && u <= 0x0D) || u == 0x20 || u == 0x85 || u == 0xA0 || u == 0x1680 || (0x2000 <= u
        && u <= 0x200A) || u == 0x2028 || u == 0x2029 || u == 0x202F || u == 0x205F || u == 0x3000
}

/// The first position at or after `from` that holds no white space; the
/// length of `s` where there is none.
pub open spec fn first_solid(s: Seq<char>, from: int) -> int
    decreases s.len() - from,
{
    if from < 0 || from >= s.len() {
        s.len() as int
    } else if !white_space(s[from]) {
        from
    } else {
        first_solid(s, from + 1)
    }
}

/// The first position at or after `from` that holds white space; the length
/// of `s` where there is none.
pub open spec fn first_space(s: Seq<char>, from: int) -> int
    decreases s.len() - from,
{
    if from < 0 || from >= s.len() {
        s.len() as int
    } else if white_space(s[from]) {
        from
    } else {
        first_space(s, from + 1)
    }
}

/// The position just after the last character before `to` that is no white
/// space; 0 where there is none.
pub open spec fn last_solid_end(s: Seq<char>, to: int) -> int
    decreases to,
{
    if to <= 0 || to > s.len() {
        0
    } else if !white_space(s[to - 1]) {
        to
    } else {
        last_solid_end(s, to - 1)
    }
}

/// `s` without the white space at its two ends.
pub open spec fn trimmed(s: Seq<char>) -> Seq<char> {
    let start = first_solid(s, 0);
    let end = last_solid_end(s, s.len() as int);
    if start < end {
        s.subrange(start, end)
    } else {
        Seq::empty()
    }
}

/// The first word of `s`: its first maximal run of characters that are no
/// white space; empty where `s` holds only white space.
pub open spec fn first_word(s: Seq<char>) -> Seq<char> {
    let start = first_solid(s, 0);
    s.subrange(start, first_space(s, start))
}

/// What `first_solid` finds: only white space lies between `from` and the
/// position found, and no white space at that position.
pub proof fn lemma_first_solid(s: Seq<char>, from: int)
    requires
        0 <= from <= s.len(),
    ensures
        from <= first_solid(s, from) <= s.len(),
        forall|i: int| from <= i < first_solid(s, from) ==> white_space(s[i]),
        first_solid(s, from) < s.len() ==> !white_space(s[first_solid(s, from)]),
    decreases s.len() - from,
{
    if from < s.len() && white_space(s[from]) {
        lemma_first_solid(s, from + 1);
    }
}

/// What `first_space` finds: no white space lies between `from` and the
/// position found, and white space at that position.
pub proof fn lemma_first_space(s: Seq<char>, from: int)
    requires
        0 <= from <= s.len(),
    ensures
        from <= first_space(s, from) <= s.len(),
        forall|i: int| from <= i < first_space(s, from) ==> !white_space(s[i]),
        first_space(s, from) < s.len() ==> white_space(s[first_space(s, from)]),
    decreases s.len() - from,
{
    if from < s.len() && !white_space(s[from]) {
        lemma_first_space(s, from + 1);
    }
}

/// What `last_solid_end` finds: only white space lies between the position
/// found and `to`, and no white space just before that position.
pub proof fn lemma_last_solid_end(s: Seq<char>, to: int)
    requires
        0 <= to <= s.len(),
    ensures
        0 <= last_solid_end(s, to) <= to,
        forall|i: int| last_solid_end(s, to) <= i < to ==> white_space(s[i]),
        last_solid_end(s, to) > 0 ==> !white_space(s[last_solid_end(s, to) - 1]),
    decreases to,
{
    if to > 0 && white_space(s[to - 1]) {
        lemma_last_solid_end(s, to - 1);
    }
}

/// What trimming does: `s` is white space, then `trimmed(s)`, then white
/// space again, and a trimmed text that is not empty begins and ends with a
/// character that is no white space.
pub proof fn lemma_trimmed(s: Seq<char>)
    ensures
        exists|start: int, end: int|
            {
                &&& 0 <= start <= end <= s.len()
                &&& #[trigger] s.subrange(start, end) == trimmed(s)
                &&& forall|i: int| 0 <= i < start ==> white_space(s[i])
                &&& forall|i: int| end <= i < s.len() ==> white_space(s[i])
            },
        trimmed(s).len() > 0 ==> !white_space(trimmed(s).first()) && !white_space(
            trimmed(s).last(),
        ),
{
    let start = first_solid(s, 0);
    let after = last_solid_end(s, s.len() as int);
    lemma_first_solid(s, 0);
    lemma_last_solid_end(s, s.len() as int);
    let end = if start < after {
        after
    } else {
        start
    };
    assert(s.subrange(start, end) == trimmed(s));
}

/// What the first word is: `s` is white space, then `first_word(s)`, and
/// then either nothing or more that begins with white space; and the word
/// holds no white space.
pub proof fn lemma_first_word(s: Seq<char>)
    ensures
        exists|start: int, end: int|
            {
                &&& 0 <= start <= end <= s.len()
                &&& #[trigger] s.subrange(start, end) == first_word(s)
                &&& forall|i: int| 0 <= i < start ==> white_space(s[i])
                &&& end < s.len() ==> white_space(s[end])
            },
        forall|i: int| 0 <= i < first_word(s).len() ==> !white_space(first_word(s)[i]),
{
    let start = first_solid(s, 0);
    lemma_first_solid(s, 0);
    lemma_first_space(s, start);
    let end = first_space(s, start);
    assert(s.subrange(start, end) == first_word(s));
}

/// The first position at or after `from` that holds no white space.
pub(crate) fn skip_white_space(s: &[char], from: usize) -> (r: usize)
    requires
        from <= s.len(),
    ensures
        r == first_solid(s@, from as int),
        from <= r <= s.len(),
{
    let mut i: usize = from;
    while i < s.len() && is_white_space(s[i])
        invariant
            from <= i <= s.len(),
            first_solid(s@, i as int) == first_solid(s@, from as int),
        decreases s.len() - i,
    {
        i = i + 1;
    }
    i
}

/// The first position at or after `from` that holds white space.
pub(crate) fn skip_word(s: &[char], from: usize) -> (r: usize)
    requires
        from <= s.len(),
    ensures
        r == first_space(s@, from as int),
        from <= r <= s.len(),
{
    let mut i: usize = from;
    while i < s.len() && !is_white_space(s[i])
        invariant
            from <= i <= s.len(),
            first_space(s@, i as int) == first_space(s@, from as int),
        decreases s.len() - i,
    {
        i = i + 1;
    }
    i
}

/// The characters of `s` from `start` up to `end`.
pub(crate) fn slice_of(s: &[char], start: usize, end: usize) -> (r: Vec<char>)
    requires
        start <= end <= s.len(),
    ensures
        r@ == s@.subrange(start as int, end as int),
{
    let mut r: Vec<char> = Vec::new();
    let mut i: usize = start;
    while i < end
        invariant
            start <= i <= end <= s.len(),
            r@ == s@.subrange(start as int, i as int),
        decreases end - i,
    {
        r.push(s[i]);
        i = i + 1;
    }
    r
}

/// `s` without the white space at its two ends.
pub fn trim(s: &[char]) -> (r: Vec<char>)
    ensures
        r@ == trimmed(s@),
{
    let start: usize = skip_white_space(s, 0);
    let mut end: usize = s.len();
    while end > 0 && is_white_space(s[end - 1])
        invariant
            end <= s.len(),
            last_solid_end(s@, end as int) == last_solid_end(s@, s.len() as int),
        decreases end,
    {
        end = end - 1;
    }
    if start < end {
        slice_of(s, start, end)
    } else {
        Vec::new()
    }
}

/// The first word of `s`.
pub fn take_first_word(s: &[char]) -> (r: Vec<char>)
    ensures
        r@ == first_word(s@),
{
    let start: usize = skip_white_space(s, 0);
    let end: usize = skip_word(s, start);
    slice_of(s, start, end)
}

/// Whether a character is one of the decimal digits `0` to `9`.
pub open spec fn decimal_digit(c: char) -> bool {
    0x30 <= c as u32 <= 0x39
}

/// The number that a string of decimal digits writes.
pub open spec fn digits_value(s: Seq<char>) -> int
    decreases s.len(),
{
    if s.len() == 0 {
        0
    } else {
        10 * digits_value(s.drop_last()) + (s.last() as u32 - 0x30)
    }
}

/// Whether every character of `s` is a decimal digit.
pub open spec fn all_digits(s: Seq<char>) -> bool {
    forall|i: int| 0 <= i < s.len() ==> decimal_digit(#[trigger] s[i])
}

/// The 32-bit integer that `s` writes in decimal: an optional sign, `+` or
/// `-`, then one digit or more, and nothing else. `None` where `s` has
/// another form or the number does not fit.
pub open spec fn integer_of(s: Seq<char>) -> Option<i32> {
    let signed = s.len() > 0 && (s[0] == '-' || s[0] == '+');
    let body = if signed {
        s.skip(1)
    } else {
        s
    };
    let value = if s.len() > 0 && s[0] == '-' {
        -digits_value(body)
    } else {
        digits_value(body)
    };
    if body.len() > 0 && all_digits(body) && i32::MIN <= value <= i32::MAX {
        Some(value as i32)
    } else {
        None
    }
}

/// The 32-bit integer that `s` writes in decimal.
pub fn parse_integer(s: &[char]) -> (r: Option<i32>)
    ensures
        r == integer_of(s@),
{
    let n: usize = s.len();
    if n == 0 {
        return None;
    }
    let negative: bool = s[0] == '-';
    let start: usize = if s[0] == '-' || s[0] == '+' {
        1
    } else {
        0
    };
    if start == n {
        return None;
    }
    let ghost body = if start == 1 {
        s@.skip(1)
    } else {
        s@
    };
    let mut magnitude: i64 = 0;
    let mut too_large: bool = false;
    let mut i: usize = start;
    while i < n
        invariant
            start <= i <= n,
            n == s.len(),
            n > 0,
            start == (if s@[0] == '-' || s@[0] == '+' {
                1int
            } else {
                0int
            }),
            body == (if start == 1 {
                s@.skip(1)
            } else {
                s@
            }),
            all_digits(body.take(i - start)),
            too_large ==> digits_value(body.take(i - start)) > 0x8000_0000,
            !too_large ==> magnitude == digits_value(body.take(i - start)),
            0 <= magnitude <= 0x8000_0000,
        decreases n - i,
    {
        let c: char = s[i];
        let u: u32 = c as u32;
        if u < 0x30 || u > 0x39 {
            assert(body[i - start] == s@[i as int]);
            assert(!all_digits(body));
            return None;
        }
        proof {
            let next = body.take(i - start + 1);
            assert(next.drop_last() == body.take(i - start));
            assert(next.last() == c);
        }
        if !too_large {
            magnitude = 10 * magnitude + (u - 0x30) as i64;
            if magnitude > 0x8000_0000 {
                too_large = true;
                magnitude = 0;
            }
        }
        i = i + 1;
    }
    assert(body.take(n - start) == body);
    if too_large {
        None
    } else if negative {
        Some((-magnitude) as i32)
    } else if magnitude == 0x8000_0000 {
        None
    } else {
        Some(magnitude as i32)
    }
}

/// Whether `needle` stands in `hay` at position `at`.
pub open spec fn occurs_at(hay: Seq<char>, needle: Seq<char>, at: int) -> bool {
    &&& 0 <= at
    &&& at + needle.len() <= hay.len()
    &&& hay.subrange(at, at + needle.len()) == needle
}

/// The first position at or after `from` at which `needle` stands in `hay`.
pub open spec fn first_occurrence(hay: Seq<char>, needle: Seq<char>, from: int) -> Option<int>
    decreases hay.len() + 1 - from,
{
    if from < 0 || from + needle.len() > hay.len() {
        None
    } else if occurs_at(hay, needle, from) {
        Some(from)
    } else {
        first_occurrence(hay, needle, from + 1)
    }
}

/// Whether `needle` stands somewhere in `hay`.
pub open spec fn contains(hay: Seq<char>, needle: Seq<char>) -> bool {
    first_occurrence(hay, needle, 0) is Some
}

/// `first_occurrence` is the least position from `from` on at which the
/// needle stands, and `None` only where it stands at none.
pub proof fn lemma_first_occurrence_is_least(hay: Seq<char>, needle: Seq<char>, from: int)
    requires
        0 <= from,
    ensures
        match first_occurrence(hay, needle, from) {
            Some(at) => {
                &&& from <= at
                &&& occurs_at(hay, needle, at)
                &&& forall|j: int| from <= j < at ==> !occurs_at(hay, needle, j)
            },
            None => forall|j: int| from <= j ==> !occurs_at(hay, needle, j),
        },
    decreases hay.len() + 1 - from,
{
    if from + needle.len() <= hay.len() && !occurs_at(hay, needle, from) {
        lemma_first_occurrence_is_least(hay, needle, from + 1);
    }
}

/// Whether `needle` stands in `hay` at position `at`.
pub fn matches_at(hay: &[char], needle: &[char], at: usize) -> (r: bool)
    ensures
        r == occurs_at(hay@, needle@, at as int),
{
    if needle.len() > hay.len() || at > hay.len() - needle.len() {
        return false;
    }
    let mut j: usize = 0;
    while j < needle.len()
        invariant
            j <= needle.len(),
            at + needle.len() <= hay.len(),
            hay@.subrange(at as int, at + j) == needle@.take(j as int),
        decreases needle.len() - j,
    {
        if hay[at + j] != needle[j] {
            assert(hay@.subrange(at as int, at + needle.len())[j as int] != needle@[j as int]);
            return false;
        }
        proof {
            assert(hay@.subrange(at as int, at + j + 1) == hay@.subrange(at as int, at + j).push(
                hay@[at + j],
            ));
            assert(needle@.take(j + 1) == needle@.take(j as int).push(needle@[j as int]));
        }
        j = j + 1;
    }
    assert(needle@.take(needle.len() as int) == needle@);
    true
}

/// The first position at or after `from` at which `needle` stands in `hay`.
pub fn find(hay: &[char], needle: &[char], from: usize) -> (r: Option<usize>)
    ensures
        match r {
            Some(at) => {
                &&& first_occurrence(hay@, needle@, from as int) == Some(at as int)
                &&& from <= at
                &&& occurs_at(hay@, needle@, at as int)
                &&& forall|j: int| from <= j < at ==> !occurs_at(hay@, needle@, j)
            },
            None => {
                &&& first_occurrence(hay@, needle@, from as int) is None
                &&& forall|j: int| from <= j ==> !occurs_at(hay@, needle@, j)
            },
        },
{
    proof {
        lemma_first_occurrence_is_least(hay@, needle@, from as int);
    }
    if needle.len() > hay.len() {
        return None;
    }
    let last: usize = hay.len() - needle.len();
    let mut i: usize = from;
    while i <= last
        invariant
            from <= i,
            last == hay.len() - needle.len(),
            first_occurrence(hay@, needle@, i as int) == first_occurrence(
                hay@,
                needle@,
                from as int,
            ),
        decreases last + 1 - i,
    {
        proof {
            lemma_first_occurrence_is_least(hay@, needle@, from as int);
        }
        if matches_at(hay, needle, i) {
            return Some(i);
        }
        if i == last {
            assert(first_occurrence(hay@, needle@, i + 1) is None);
            return None;
        }
        i = i + 1;
    }
    None
}

/// A character with the letters `A` to `Z` turned into `a` to `z`.
pub open spec fn lower(c: char) -> char {
    if 0x41 <= c as u32 <= 0x5A {
        ((c as u32 + 0x20) as u8) as char
    } else {
        c
    }
}

/// `s` with the letters `A` to `Z` turned into `a` to `z`.
pub open spec fn lowered(s: Seq<char>) -> Seq<char> {
    Seq::new(s.len(), |i: int| lower(s[i]))
}

/// `s` with the letters `A` to `Z` turned into `a` to `z`.
pub fn to_lower(s: &[char]) -> (r: Vec<char>)
    ensures
        r@ == lowered(s@),
{
    let mut r: Vec<char> = Vec::new();
    let mut i: usize = 0;
    while i < s.len()
        invariant
            i <= s.len(),
            r@ == lowered(s@).take(i as int),
        decreases s.len() - i,
    {
        let c: char = s[i];
        let u: u32 = c as u32;
        if 0x41 <= u && u <= 0x5A {
            r.push(((u + 0x20) as u8) as char);
        } else {
            r.push(c);
        }
        proof {
            assert(lowered(s@).take(i + 1) == lowered(s@).take(i as int).push(lower(s@[i as int])));
        }
        i = i + 1;
    }
    assert(lowered(s@).take(s.len() as int) == lowered(s@));
    r
}

} // verus!
