//! Decimal digit runs inside character sequences.
//!
//! Both parsers of the library — the slot timestamp and the room label — read
//! fixed- or variable-width runs of ASCII digits. This module gives the runs
//! their meaning: which characters count as digits, what decimal value a run
//! denotes, and where a run ends.

use vstd::prelude::*;

verus! {

/// Whether `c` is an ASCII decimal digit.
pub open spec fn is_digit(c: char) -> bool {
    48 <= c as u32 <= 57
}

/// The value of an ASCII decimal digit.
pub open spec fn digit_val(c: char) -> int {
    c as u32 - 48
}

/// The decimal value of `s[from..to]`, most significant digit first.
/// An empty range denotes zero.
pub open spec fn dec_val(s: Seq<char>, from: int, to: int) -> int
    decreases to - from,
{
    if to <= from {
        0
    } else {
        dec_val(s, from, to - 1) * 10 + digit_val(s[to - 1])
    }
}

/// The end of the digit run that begins at `i`: the first position at or
/// after `i` that is past the end of `s` or holds a non-digit.
pub open spec fn digit_run_end(s: Seq<char>, i: int) -> int
    decreases s.len() - i,
{
    if 0 <= i < s.len() && is_digit(s[i]) {
        digit_run_end(s, i + 1)
    } else {
        i
    }
}

/// A run of digits denotes a nonnegative value.
pub proof fn lemma_dec_val_nonneg(s: Seq<char>, from: int, to: int)
    requires
        forall|k: int| from <= k < to ==> is_digit(s[k]),
    ensures
        dec_val(s, from, to) >= 0,
    decreases to - from,
{
    if to > from {
        lemma_dec_val_nonneg(s, from, to - 1);
    }
}

/// A short run of digits denotes a small value: one below ten to the power
/// of the run's width, spelled out for the widths the parsers read.
pub proof fn lemma_dec_val_bound(s: Seq<char>, from: int, to: int)
    requires
        0 <= to - from <= 4,
        forall|k: int| from <= k < to ==> is_digit(s[k]),
    ensures
        to - from == 0 ==> dec_val(s, from, to) == 0,
        to - from == 1 ==> dec_val(s, from, to) < 10,
        to - from == 2 ==> dec_val(s, from, to) < 100,
        to - from == 3 ==> dec_val(s, from, to) < 1000,
        to - from == 4 ==> dec_val(s, from, to) < 10000,
    decreases to - from,
{
    if to > from {
        lemma_dec_val_bound(s, from, to - 1);
    }
}

/// The end of a digit run is pinned by its witnesses: if everything in
/// `[i, j)` is a digit and `j` is past the end or holds a non-digit, then
/// the run that begins at `i` ends exactly at `j`.
pub proof fn lemma_digit_run_end(s: Seq<char>, i: int, j: int)
    requires
        0 <= i <= j <= s.len(),
        forall|k: int| i <= k < j ==> is_digit(s[k]),
        j == s.len() || !is_digit(s[j]),
    ensures
        digit_run_end(s, i) == j,
    decreases j - i,
{
    if i < j {
        lemma_digit_run_end(s, i + 1, j);
    }
}

/// Reads the fixed-width digit field `s[from..to]`, of at most four digits.
/// Returns its decimal value, or `None` if any character in the field is not
/// an ASCII digit.
pub fn parse_fixed_digits(s: &str, from: usize, to: usize) -> (r: Option<u32>)
    requires
        from <= to <= s@.len(),
        to - from <= 4,
    ensures
        r is Some <==> (forall|k: int| from <= k < to ==> is_digit(s@[k])),
        r is Some ==> r == Some(dec_val(s@, from as int, to as int) as u32),
{
    let mut acc: u32 = 0;
    let mut j: usize = from;
    while j < to
        invariant
            from <= j <= to <= s@.len(),
            to - from <= 4,
            forall|k: int| from <= k < j ==> is_digit(s@[k]),
            acc == dec_val(s@, from as int, j as int),
        decreases to - j,
    {
        let c = s.get_char(j);
        let v = c as u32;
        if v < 48 || v > 57 {
            return None;
        }
        proof {
            lemma_dec_val_nonneg(s@, from as int, j as int);
            lemma_dec_val_bound(s@, from as int, j as int);
            assert(dec_val(s@, from as int, j + 1) == dec_val(s@, from as int, j as int) * 10
                + digit_val(s@[j as int]));
        }
        acc = acc * 10 + (v - 48);
        j = j + 1;
    }
    Some(acc)
}

} // verus!
