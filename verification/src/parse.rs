//! Parsing the row-count argument: a base-10 non-negative integer.
//!
//! A string is accepted exactly when it is non-empty, consists of decimal
//! digits only, and its value fits in `usize`; anything else (a sign, a
//! letter, the empty string, an oversized value) is rejected.

use vstd::prelude::*;

use crate::text::is_digit;

verus! {

/// The numeric value of one decimal digit character.
pub open spec fn digit_val(c: char) -> nat
    recommends
        is_digit(c),
{
    if c == '0' {
        0
    } else if c == '1' {
        1
    } else if c == '2' {
        2
    } else if c == '3' {
        3
    } else if c == '4' {
        4
    } else if c == '5' {
        5
    } else if c == '6' {
        6
    } else if c == '7' {
        7
    } else if c == '8' {
        8
    } else if c == '9' {
        9
    } else {
        0
    }
}

/// The value of a digit string read in base 10, most significant digit
/// first; the empty string reads as 0.
pub open spec fn dec_val(s: Seq<char>) -> nat
    decreases s.len(),
{
    if s.len() == 0 {
        0
    } else {
        dec_val(s.drop_last()) * 10 + digit_val(s.last())
    }
}

/// The value of a prefix never exceeds the value of the whole string.
pub proof fn lemma_dec_val_take_le(s: Seq<char>, i: int)
    requires
        0 <= i <= s.len(),
    ensures
        dec_val(s.take(i)) <= dec_val(s),
    decreases s.len() - i,
{
    if i == s.len() {
        assert(s.take(i) =~= s);
    } else {
        assert(s.take(i + 1).drop_last() =~= s.take(i));
        assert(s.take(i + 1).last() == s[i]);
        assert(dec_val(s.take(i + 1)) == dec_val(s.take(i)) * 10 + digit_val(s[i]));
        lemma_dec_val_take_le(s, i + 1);
    }
}

/// The digit value of a character, or `None` where it is no digit.
pub fn char_digit(c: char) -> (r: Option<usize>)
    ensures
        r is Some <==> is_digit(c),
        r matches Some(v) ==> v < 10 && v as nat == digit_val(c),
{
    match c {
        '0' => Some(0),
        '1' => Some(1),
        '2' => Some(2),
        '3' => Some(3),
        '4' => Some(4),
        '5' => Some(5),
        '6' => Some(6),
        '7' => Some(7),
        '8' => Some(8),
        '9' => Some(9),
        _ => None,
    }
}

/// Parses the row count: `Some` exactly on non-empty all-digit strings
/// whose base-10 value fits in `usize`, and then the value read.
pub fn parse_row_count(s: &str) -> (r: Option<usize>)
    ensures
        r is Some <==> (s@.len() > 0 && (forall|j: int| 0 <= j < s@.len() ==> is_digit(
            #[trigger] s@[j],
        )) && dec_val(s@) <= usize::MAX),
        r matches Some(v) ==> v as nat == dec_val(s@),
{
    let len = s.unicode_len();
    if len == 0 {
        return None;
    }
    let mut val: usize = 0;
    let mut i: usize = 0;
    while i < len
        invariant
            i <= len,
            len == s@.len(),
            val as nat == dec_val(s@.take(i as int)),
            forall|j: int| 0 <= j < i ==> is_digit(#[trigger] s@[j]),
        decreases len - i,
    {
        let c = s.get_char(i);
        let d = match char_digit(c) {
            Some(d) => d,
            None => {
                return None;
            },
        };
        proof {
            assert(s@.take(i + 1).drop_last() =~= s@.take(i as int));
            assert(s@.take(i + 1).last() == s@[i as int]);
        }
        let v10 = match val.checked_mul(10) {
            Some(v10) => v10,
            None => {
                proof {
                    lemma_dec_val_take_le(s@, i + 1);
                }
                return None;
            },
        };
        let v = match v10.checked_add(d) {
            Some(v) => v,
            None => {
                proof {
                    lemma_dec_val_take_le(s@, i + 1);
                }
                return None;
            },
        };
        val = v;
        i = i + 1;
    }
    proof {
        assert(s@.take(len as int) =~= s@);
    }
    Some(val)
}

} // verus!
