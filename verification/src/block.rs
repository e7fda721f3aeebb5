//! The data block of a page: the script that carries the forecast, the
//! array of records in it, and the repair of that array before decoding.

use crate::text::{
    chars_of, contains, find, first_occurrence, lowered, matches_at, occurs_at, slice_of,
    to_lower,
};
use vstd::prelude::*;

verus! {

/// The call by which a script hands data to the page.
pub open spec fn push_marker() -> Seq<char> {
    "window.ctx.push"@
}

/// The key of the forecast data, in lower case.
pub open spec fn data_key() -> Seq<char> {
    "fcdata"@
}

/// The label after which the array of records stands.
pub open spec fn data_label() -> Seq<char> {
    "fcData:"@
}

/// How the source writes a missing number.
pub open spec fn null_marker() -> Seq<char> {
    ": null"@
}

/// What stands in for a missing number.
pub open spec fn zero_marker() -> Seq<char> {
    ": 0"@
}

/// Whether a script is a candidate for the data block: it holds the push
/// marker, and the data key in any mix of upper and lower case.
pub open spec fn candidate(script: Seq<char>) -> bool {
    contains(script, push_marker()) && contains(lowered(script), data_key())
}

/// Whether a script is a candidate for the data block.
pub fn is_candidate(script: &[char]) -> (r: bool)
    ensures
        r == candidate(script@),
{
    let marker: Vec<char> = chars_of("window.ctx.push");
    if find(script, marker.as_slice(), 0).is_none() {
        return false;
    }
    let key: Vec<char> = chars_of("fcdata");
    let folded: Vec<char> = to_lower(script);
    find(folded.as_slice(), key.as_slice(), 0).is_some()
}

/// Where the value of the data label begins in a script: just after the
/// first occurrence of the label. `None` where the script has no label.
pub open spec fn value_start(script: Seq<char>) -> Option<int> {
    match first_occurrence(script, data_label(), 0) {
        Some(at) => Some(at + data_label().len()),
        None => None,
    }
}

/// Where the value of the data label begins in a script.
pub fn find_value_start(script: &[char]) -> (r: Option<usize>)
    ensures
        match r {
            Some(start) => value_start(script@) == Some(start as int) && start <= script.len(),
            None => value_start(script@) is None,
        },
{
    let label: Vec<char> = chars_of("fcData:");
    match find(script, label.as_slice(), 0) {
        Some(at) => {
            assert(at + label.len() <= script.len());
            Some(at + label.len())
        },
        None => None,
    }
}

/// Where a scan through JSON text stands with respect to string literals.
#[derive(Clone, Copy, Debug, PartialEq, Eq, Structural)]
pub enum Mode {
    /// Outside any string literal.
    Plain,
    /// Inside a string literal.
    Quoted,
    /// Inside a string literal, just after a backslash.
    Escaped,
}

/// The bracket depth and the mode after one more character.
pub open spec fn scan_step(depth: int, mode: Mode, c: char) -> (int, Mode) {
    match mode {
        Mode::Escaped => (depth, Mode::Quoted),
        Mode::Quoted => if c == '\\' {
            (depth, Mode::Escaped)
        } else if c == '"' {
            (depth, Mode::Plain)
        } else {
            (depth, Mode::Quoted)
        },
        Mode::Plain => if c == '"' {
            (depth, Mode::Quoted)
        } else if c == '[' {
            (depth + 1, Mode::Plain)
        } else if c == ']' && depth > 0 {
            (depth - 1, Mode::Plain)
        } else {
            (depth, Mode::Plain)
        },
    }
}

/// The bracket depth and the mode after the whole of `s`, scanned from
/// depth 0 outside any string literal.
pub open spec fn scan_after(s: Seq<char>) -> (int, Mode)
    decreases s.len(),
{
    if s.len() == 0 {
        (0, Mode::Plain)
    } else {
        let before = scan_after(s.drop_last());
        scan_step(before.0, before.1, s.last())
    }
}

/// Whether position `at` of `s` holds the structural closing bracket of the
/// top-level array: a `]` outside any string literal that no inner array
/// claims.
pub open spec fn closes_at(s: Seq<char>, at: int) -> bool {
    &&& 0 <= at < s.len()
    &&& s[at] == ']'
    &&& scan_after(s.take(at)).1 == Mode::Plain
    &&& scan_after(s.take(at)).0 <= 1
}

/// The first position from `from` on at which the top-level array closes.
pub open spec fn first_close(s: Seq<char>, from: int) -> Option<int>
    decreases s.len() - from,
{
    if from < 0 || from >= s.len() {
        None
    } else if closes_at(s, from) {
        Some(from)
    } else {
        first_close(s, from + 1)
    }
}

/// The array of records in `value`, the text after the data label: `value`
/// up to and including the first structural closing bracket of the
/// top-level array. `None` where the array does not close.
pub open spec fn array_text(value: Seq<char>) -> Option<Seq<char>> {
    match first_close(value, 0) {
        Some(at) => Some(value.take(at + 1)),
        None => None,
    }
}

/// `first_close` is the least position from `from` on at which the array
/// closes, and `None` only where it closes at none.
pub proof fn lemma_first_close_is_least(s: Seq<char>, from: int)
    requires
        0 <= from,
    ensures
        match first_close(s, from) {
            Some(at) => {
                &&& from <= at < s.len()
                &&& closes_at(s, at)
                &&& forall|j: int| from <= j < at ==> !closes_at(s, j)
            },
            None => forall|j: int| from <= j ==> !closes_at(s, j),
        },
    decreases s.len() - from,
{
    if from < s.len() && !closes_at(s, from) {
        lemma_first_close_is_least(s, from + 1);
    }
}

/// The position at which the top-level array of `value` closes.
pub fn find_close(value: &[char]) -> (r: Option<usize>)
    ensures
        match r {
            Some(at) => {
                &&& first_close(value@, 0) == Some(at as int)
                &&& at < value.len()
                &&& closes_at(value@, at as int)
                &&& forall|j: int| 0 <= j < at ==> !closes_at(value@, j)
            },
            None => {
                &&& first_close(value@, 0) is None
                &&& forall|j: int| 0 <= j ==> !closes_at(value@, j)
            },
        },
{
    proof {
        lemma_first_close_is_least(value@, 0);
    }
    let mut depth: usize = 0;
    let mut mode: Mode = Mode::Plain;
    let mut i: usize = 0;
    while i < value.len()
        invariant
            i <= value.len(),
            depth <= i,
            scan_after(value@.take(i as int)) == (depth as int, mode),
            first_close(value@, i as int) == first_close(value@, 0),
        decreases value.len() - i,
    {
        let c: char = value[i];
        proof {
            assert(value@.take(i + 1).drop_last() == value@.take(i as int));
            assert(value@.take(i + 1).last() == c);
        }
        match mode {
            Mode::Escaped => {
                mode = Mode::Quoted;
            },
            Mode::Quoted => {
                if c == '\\' {
                    mode = Mode::Escaped;
                } else if c == '"' {
                    mode = Mode::Plain;
                }
            },
            Mode::Plain => {
                if c == '"' {
                    mode = Mode::Quoted;
                } else if c == '[' {
                    depth = depth + 1;
                } else if c == ']' {
                    if depth <= 1 {
                        proof {
                            lemma_first_close_is_least(value@, 0);
                        }
                        return Some(i);
                    }
                    depth = depth - 1;
                }
            },
        }
        i = i + 1;
    }
    None
}

/// Appends the characters of `extra` to `out`.
fn append(out: &mut Vec<char>, extra: &[char])
    ensures
        final(out)@ == old(out)@ + extra@,
{
    let mut i: usize = 0;
    while i < extra.len()
        invariant
            i <= extra.len(),
            out@ == old(out)@ + extra@.take(i as int),
        decreases extra.len() - i,
    {
        out.push(extra[i]);
        i = i + 1;
    }
    assert(extra@.take(extra.len() as int) == extra@);
}

/// `s` with every occurrence of `pattern` replaced by `with`, the
/// occurrences being taken from left to right and not overlapping. An empty
/// pattern occurs nowhere.
pub open spec fn replaced(s: Seq<char>, pattern: Seq<char>, with: Seq<char>) -> Seq<char>
    decreases s.len(),
{
    if s.len() == 0 || pattern.len() == 0 {
        s
    } else if occurs_at(s, pattern, 0) {
        with + replaced(s.skip(pattern.len() as int), pattern, with)
    } else {
        seq![s[0]] + replaced(s.skip(1), pattern, with)
    }
}

/// `s` with every occurrence of `pattern` replaced by `with`.
pub fn replace(s: &[char], pattern: &[char], with: &[char]) -> (r: Vec<char>)
    ensures
        r@ == replaced(s@, pattern@, with@),
{
    if pattern.len() == 0 {
        return slice_of(s, 0, s.len());
    }
    let mut out: Vec<char> = Vec::new();
    let mut i: usize = 0;
    proof {
        assert(s@.skip(0) == s@);
        assert(out@ + replaced(s@, pattern@, with@) == replaced(s@, pattern@, with@));
    }
    while i < s.len()
        invariant
            i <= s.len(),
            pattern.len() > 0,
            out@ + replaced(s@.skip(i as int), pattern@, with@) == replaced(
                s@,
                pattern@,
                with@,
            ),
        decreases s.len() - i,
    {
        let ghost rest = s@.skip(i as int);
        proof {
            assert(occurs_at(rest, pattern@, 0) == occurs_at(s@, pattern@, i as int)) by {
                if i + pattern.len() <= s.len() {
                    assert(rest.subrange(0, pattern.len() as int) == s@.subrange(
                        i as int,
                        i + pattern.len(),
                    ));
                }
            }
        }
        if matches_at(s, pattern, i) {
            proof {
                assert(rest.skip(pattern.len() as int) == s@.skip(i + pattern.len()));
                assert(out@ + (with@ + replaced(s@.skip(i + pattern.len()), pattern@, with@)) == (
                out@ + with@) + replaced(s@.skip(i + pattern.len()), pattern@, with@));
            }
            append(&mut out, with);
            i = i + pattern.len();
        } else {
            proof {
                assert(rest.skip(1) == s@.skip(i + 1));
                assert(rest[0] == s@[i as int]);
                assert(out@ + (seq![s@[i as int]] + replaced(s@.skip(i + 1), pattern@, with@))
                    == out@.push(s@[i as int]) + replaced(s@.skip(i + 1), pattern@, with@));
            }
            out.push(s[i]);
            i = i + 1;
        }
    }
    assert(s@.skip(s.len() as int).len() == 0);
    assert(out@ + Seq::<char>::empty() == out@);
    out
}

/// The array text made fit for decoding: every missing number is written
/// as zero.
pub open spec fn repaired(array: Seq<char>) -> Seq<char> {
    replaced(array, null_marker(), zero_marker())
}

/// The array text made fit for decoding.
pub fn repair(array: &[char]) -> (r: Vec<char>)
    ensures
        r@ == repaired(array@),
{
    let missing: Vec<char> = chars_of(": null");
    let zero: Vec<char> = chars_of(": 0");
    replace(array, missing.as_slice(), zero.as_slice())
}

} // verus!
