//! The mathematical model of the produced text: decimal digit strings,
//! runs of `'0'` characters, data lines, and the whole file content.

use vstd::prelude::*;

verus! {

/// A run of `n` copies of the character `'0'`.
pub open spec fn zeros(n: nat) -> Seq<char> {
    Seq::new(n, |i: int| '0')
}

/// The character for one decimal digit.
pub open spec fn digit_char(d: nat) -> char
    recommends
        d < 10,
{
    if d == 0 {
        '0'
    } else if d == 1 {
        '1'
    } else if d == 2 {
        '2'
    } else if d == 3 {
        '3'
    } else if d == 4 {
        '4'
    } else if d == 5 {
        '5'
    } else if d == 6 {
        '6'
    } else if d == 7 {
        '7'
    } else if d == 8 {
        '8'
    } else {
        '9'
    }
}

/// Whether a character is a decimal digit.
pub open spec fn is_digit(c: char) -> bool {
    c == '0' || c == '1' || c == '2' || c == '3' || c == '4' || c == '5' || c == '6' || c == '7'
        || c == '8' || c == '9'
}

/// The base-10 representation of `n`, most significant digit first,
/// without leading zeros (except for `n == 0`, which is `"0"`).
pub open spec fn dec_rep(n: nat) -> Seq<char>
    decreases n,
{
    if n < 10 {
        seq![digit_char(n)]
    } else {
        dec_rep(n / 10).push(digit_char(n % 10))
    }
}

/// One data line, without its terminator: `<i>,<i zeros>`.
pub open spec fn data_line(i: nat) -> Seq<char> {
    dec_rep(i) + seq![','] + zeros(i)
}

/// The fixed header line, without its terminator.
pub open spec fn header() -> Seq<char> {
    "line,message"@
}

/// The record terminator.
pub open spec fn nl() -> Seq<char> {
    seq!['\n']
}

/// The whole file content for row count `n`: the header line followed by
/// the data lines for `1..=n`, each line terminated by `'\n'`.
pub open spec fn csv_content(n: nat) -> Seq<char>
    decreases n,
{
    if n == 0 {
        header() + nl()
    } else {
        csv_content((n - 1) as nat) + data_line(n) + nl()
    }
}

/// Every character of a decimal representation is a digit, and the
/// representation is never empty.
pub proof fn lemma_dec_rep_digits(n: nat)
    ensures
        dec_rep(n).len() >= 1,
        forall|j: int| 0 <= j < dec_rep(n).len() ==> is_digit(#[trigger] dec_rep(n)[j]),
    decreases n,
{
    if n >= 10 {
        lemma_dec_rep_digits(n / 10);
    }
}

/// Builds the string of `n` zero characters.
pub fn zeros_string(n: usize) -> (r: String)
    ensures
        r@ == zeros(n as nat),
{
    let mut s = String::new();
    let mut i: usize = 0;
    while i < n
        invariant
            i <= n,
            s@ == zeros(i as nat),
        decreases n - i,
    {
        s.append("0");
        proof {
            reveal_strlit("0");
            assert(s@ =~= zeros((i + 1) as nat));
        }
        i = i + 1;
    }
    s
}

/// The string for one decimal digit.
pub fn digit_str(d: usize) -> (r: &'static str)
    requires
        d < 10,
    ensures
        r@ == seq![digit_char(d as nat)],
{
    proof {
        reveal_strlit("0");
        reveal_strlit("1");
        reveal_strlit("2");
        reveal_strlit("3");
        reveal_strlit("4");
        reveal_strlit("5");
        reveal_strlit("6");
        reveal_strlit("7");
        reveal_strlit("8");
        reveal_strlit("9");
    }
    let r = match d {
        0 => "0",
        1 => "1",
        2 => "2",
        3 => "3",
        4 => "4",
        5 => "5",
        6 => "6",
        7 => "7",
        8 => "8",
        _ => "9",
    };
    proof {
        assert(r@ =~= seq![digit_char(d as nat)]);
    }
    r
}

/// Builds the base-10 representation of `n`.
pub fn usize_to_string(n: usize) -> (r: String)
    ensures
        r@ == dec_rep(n as nat),
    decreases n,
{
    if n < 10 {
        let r = digit_str(n).to_owned();
        proof {
            assert(r@ =~= dec_rep(n as nat));
        }
        r
    } else {
        let mut s = usize_to_string(n / 10);
        s.append(digit_str(n % 10));
        proof {
            assert(s@ =~= dec_rep(n as nat));
        }
        s
    }
}

} // verus!
