//! The room-label grammar.
//!
//! A bookable room announces itself with a label that contains, anywhere
//! inside it, the pattern `King Study Room <number> - <capacity> Person`,
//! where `<number>` and `<capacity>` are runs of one or more decimal digits.
//! This module states that grammar over character sequences and parses it:
//! the leftmost occurrence wins, and each digit run extends as far as the
//! digits do.

use vstd::prelude::*;

use crate::digits::dec_val;
use crate::digits::digit_run_end;
use crate::digits::digit_val;
use crate::digits::is_digit;
use crate::digits::lemma_dec_val_nonneg;
use crate::digits::lemma_digit_run_end;
use crate::time::ParseError;

verus! {

/// The literal `King Study Room ` (with its trailing space) stands at `i`.
pub open spec fn king_prefix_at(s: Seq<char>, i: int) -> bool {
    &&& s[i] == 'K'
    &&& s[i + 1] == 'i'
    &&& s[i + 2] == 'n'
    &&& s[i + 3] == 'g'
    &&& s[i + 4] == ' '
    &&& s[i + 5] == 'S'
    &&& s[i + 6] == 't'
    &&& s[i + 7] == 'u'
    &&& s[i + 8] == 'd'
    &&& s[i + 9] == 'y'
    &&& s[i + 10] == ' '
    &&& s[i + 11] == 'R'
    &&& s[i + 12] == 'o'
    &&& s[i + 13] == 'o'
    &&& s[i + 14] == 'm'
    &&& s[i + 15] == ' '
}

/// The literal ` - ` stands at `i`.
pub open spec fn sep_at(s: Seq<char>, i: int) -> bool {
    &&& s[i] == ' '
    &&& s[i + 1] == '-'
    &&& s[i + 2] == ' '
}

/// The literal ` Person` stands at `i`.
pub open spec fn person_at(s: Seq<char>, i: int) -> bool {
    &&& s[i] == ' '
    &&& s[i + 1] == 'P'
    &&& s[i + 2] == 'e'
    &&& s[i + 3] == 'r'
    &&& s[i + 4] == 's'
    &&& s[i + 5] == 'o'
    &&& s[i + 6] == 'n'
}

/// A full occurrence of the room pattern begins at `i`: the opening
/// literal, a nonempty digit run, the separator, a second nonempty digit
/// run, and the closing literal, all within `s`. Each digit run is maximal,
/// which is exactly what a greedy match of `\d+` yields here, since the
/// character after either run is never a digit.
pub open spec fn label_match_at(s: Seq<char>, i: int) -> bool {
    let p = i + 16;
    let q = digit_run_end(s, p);
    let t = q + 3;
    let e = digit_run_end(s, t);
    &&& 0 <= i
    &&& p <= s.len()
    &&& king_prefix_at(s, i)
    &&& q > p
    &&& t <= s.len()
    &&& sep_at(s, q)
    &&& e > t
    &&& e + 7 <= s.len()
    &&& person_at(s, e)
}

/// The position of the leftmost occurrence of the room pattern at or after
/// `i`, or -1 if there is none.
pub open spec fn first_match_from(s: Seq<char>, i: int) -> int
    decreases s.len() - i,
{
    if !(0 <= i <= s.len()) {
        -1
    } else if label_match_at(s, i) {
        i
    } else if i == s.len() {
        -1
    } else {
        first_match_from(s, i + 1)
    }
}

/// What `first_match_from` finds: -1 exactly when no occurrence starts in
/// `[i, s.len()]`, and otherwise the least starting position.
pub proof fn lemma_first_match_from(s: Seq<char>, i: int)
    requires
        0 <= i <= s.len(),
    ensures
        first_match_from(s, i) == -1 ==> forall|j: int|
            i <= j <= s.len() ==> !label_match_at(s, j),
        first_match_from(s, i) != -1 ==> {
            let r = first_match_from(s, i);
            &&& i <= r <= s.len()
            &&& label_match_at(s, r)
            &&& forall|j: int| i <= j < r ==> !label_match_at(s, j)
        },
    decreases s.len() - i,
{
    if label_match_at(s, i) {
    } else if i == s.len() {
    } else {
        lemma_first_match_from(s, i + 1);
    }
}

/// What the label grammar makes of `s`: no occurrence of the pattern is a
/// mismatch; a captured number or capacity too large for its field cannot
/// be reported; otherwise the two captured values of the leftmost
/// occurrence.
pub open spec fn spec_label_parse(s: Seq<char>) -> Result<(u16, u8), ParseError> {
    let i = first_match_from(s, 0);
    if i < 0 {
        Err(ParseError::NameDoesNotMatch)
    } else {
        let p = i + 16;
        let q = digit_run_end(s, p);
        let t = q + 3;
        let e = digit_run_end(s, t);
        let number = dec_val(s, p, q);
        let capacity = dec_val(s, t, e);
        if number > 65535 {
            Err(ParseError::NoNumber)
        } else if capacity > 255 {
            Err(ParseError::NoCapacity)
        } else {
            Ok((number as u16, capacity as u8))
        }
    }
}

/// Whether the opening literal stands at `i`.
fn king_at(s: &str, i: usize) -> (b: bool)
    requires
        i + 16 <= s@.len(),
        s@.len() <= usize::MAX,
    ensures
        b == king_prefix_at(s@, i as int),
{
    s.get_char(i) == 'K' && s.get_char(i + 1) == 'i' && s.get_char(i + 2) == 'n' && s.get_char(
        i + 3,
    ) == 'g' && s.get_char(i + 4) == ' ' && s.get_char(i + 5) == 'S' && s.get_char(i + 6) == 't'
        && s.get_char(i + 7) == 'u' && s.get_char(i + 8) == 'd' && s.get_char(i + 9) == 'y'
        && s.get_char(i + 10) == ' ' && s.get_char(i + 11) == 'R' && s.get_char(i + 12) == 'o'
        && s.get_char(i + 13) == 'o' && s.get_char(i + 14) == 'm' && s.get_char(i + 15) == ' '
}

/// Whether the separator literal stands at `i`.
fn sep_at_exec(s: &str, i: usize) -> (b: bool)
    requires
        i + 3 <= s@.len(),
        s@.len() <= usize::MAX,
    ensures
        b == sep_at(s@, i as int),
{
    s.get_char(i) == ' ' && s.get_char(i + 1) == '-' && s.get_char(i + 2) == ' '
}

/// Whether the closing literal stands at `i`.
fn person_at_exec(s: &str, i: usize) -> (b: bool)
    requires
        i + 7 <= s@.len(),
        s@.len() <= usize::MAX,
    ensures
        b == person_at(s@, i as int),
{
    s.get_char(i) == ' ' && s.get_char(i + 1) == 'P' && s.get_char(i + 2) == 'e' && s.get_char(
        i + 3,
    ) == 'r' && s.get_char(i + 4) == 's' && s.get_char(i + 5) == 'o' && s.get_char(i + 6) == 'n'
}

/// Scans the digit run that begins at `from` and accumulates its decimal
/// value. Returns the end of the run, and the value unless it exceeds
/// `cap`.
fn scan_digits(s: &str, from: usize, cap: u32) -> (r: (usize, Option<u32>))
    requires
        from as int <= s@.len(),
        cap <= 65535,
    ensures
        r.0 == digit_run_end(s@, from as int),
        from <= r.0 && r.0 as int <= s@.len(),
        forall|k: int| from <= k < r.0 ==> is_digit(s@[k]),
        r.1 is Some <==> dec_val(s@, from as int, r.0 as int) <= cap,
        r.1 is Some ==> r.1 == Some(dec_val(s@, from as int, r.0 as int) as u32),
{
    let n = s.unicode_len();
    let mut j = from;
    let mut acc: u32 = 0;
    let mut big = false;
    loop
        invariant
            n == s@.len(),
            from <= j <= n,
            cap <= 65535,
            forall|k: int| from <= k < j ==> is_digit(s@[k]),
            big <==> dec_val(s@, from as int, j as int) > cap,
            !big ==> acc == dec_val(s@, from as int, j as int),
        ensures
            from <= j <= n,
            forall|k: int| from <= k < j ==> is_digit(s@[k]),
            j == n || !is_digit(s@[j as int]),
            big <==> dec_val(s@, from as int, j as int) > cap,
            !big ==> acc == dec_val(s@, from as int, j as int),
        decreases n - j,
    {
        if j == n {
            break ;
        }
        let c = s.get_char(j);
        let v = c as u32;
        if v < 48 || v > 57 {
            break ;
        }
        proof {
            lemma_dec_val_nonneg(s@, from as int, j as int);
            assert(dec_val(s@, from as int, j + 1) == dec_val(s@, from as int, j as int) * 10
                + digit_val(s@[j as int]));
        }
        if !big {
            let nv = acc * 10 + (v - 48);
            if nv > cap {
                big = true;
            } else {
                acc = nv;
            }
        }
        j = j + 1;
    }
    proof {
        lemma_digit_run_end(s@, from as int, j as int);
    }
    (j, if big {
        None
    } else {
        Some(acc)
    })
}

/// Parses a room label against the grammar: finds the leftmost occurrence
/// of the pattern and captures its room number and person capacity.
pub fn parse_label(s: &str) -> (r: Result<(u16, u8), ParseError>)
    ensures
        r == spec_label_parse(s@),
{
    let n = s.unicode_len();
    let mut i: usize = 0;
    while n - i >= 16
        invariant
            n == s@.len(),
            i <= n,
            forall|j: int| 0 <= j < i ==> !label_match_at(s@, j),
        decreases n - i,
    {
        if king_at(s, i) {
            let p = i + 16;
            let (q, number) = scan_digits(s, p, 65535);
            if q > p && n - q >= 3 && sep_at_exec(s, q) {
                let t = q + 3;
                let (e, capacity) = scan_digits(s, t, 255);
                if e > t && n - e >= 7 && person_at_exec(s, e) {
                    proof {
                        assert(label_match_at(s@, i as int));
                        lemma_first_match_from(s@, 0);
                        assert(first_match_from(s@, 0) == i);
                        lemma_dec_val_nonneg(s@, p as int, q as int);
                        lemma_dec_val_nonneg(s@, t as int, e as int);
                    }
                    match number {
                        None => {
                            return Err(ParseError::NoNumber);
                        },
                        Some(nv) => {
                            match capacity {
                                None => {
                                    return Err(ParseError::NoCapacity);
                                },
                                Some(cv) => {
                                    return Ok((nv as u16, cv as u8));
                                },
                            }
                        },
                    }
                }
            }
        }
        proof {
            assert(!label_match_at(s@, i as int));
        }
        i = i + 1;
    }
    proof {
        assert forall|j: int| 0 <= j <= s@.len() implies !label_match_at(s@, j) by {
            if j >= i {
                assert(j + 16 > s@.len());
            }
        }
        lemma_first_match_from(s@, 0);
    }
    Err(ParseError::NameDoesNotMatch)
}

} // verus!
