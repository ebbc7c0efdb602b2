//! The general properties of the produced text, stated and proved over
//! the model: its line structure, the content of each data line, and the
//! determinism that makes a rerun overwrite the file with the same bytes.

use vstd::prelude::*;

use crate::parse::dec_val;
use crate::parse::digit_val;
use crate::text::csv_content;
use crate::text::data_line;
use crate::text::dec_rep;
use crate::text::digit_char;
use crate::text::header;
use crate::text::is_digit;
use crate::text::lemma_dec_rep_digits;
use crate::text::nl;
use crate::text::zeros;

verus! {

/// A sequence of lines joined into one text, each line terminated by
/// `'\n'`.
pub open spec fn join_lines(ls: Seq<Seq<char>>) -> Seq<char>
    decreases ls.len(),
{
    if ls.len() == 0 {
        Seq::empty()
    } else {
        join_lines(ls.drop_last()) + ls.last() + nl()
    }
}

/// The lines of the file for row count `n`, without their terminators:
/// the header first, then the data line for each `i` in `1..=n`.
pub open spec fn file_lines(n: nat) -> Seq<Seq<char>> {
    Seq::new(
        n + 1,
        |k: int|
            if k == 0 {
                header()
            } else {
                data_line(k as nat)
            },
    )
}

/// No character of the header is a line terminator.
proof fn lemma_header_no_newline()
    ensures
        forall|j: int| 0 <= j < header().len() ==> header()[j] != '\n',
{
    reveal_strlit("line,message");
}

/// No character of a data line is a line terminator.
proof fn lemma_data_line_no_newline(i: nat)
    ensures
        forall|j: int| 0 <= j < data_line(i).len() ==> data_line(i)[j] != '\n',
{
    lemma_dec_rep_digits(i);
    assert forall|j: int| 0 <= j < data_line(i).len() implies data_line(i)[j] != '\n' by {
        let d = dec_rep(i);
        if j < d.len() {
            assert(data_line(i)[j] == d[j]);
            assert(is_digit(d[j]));
        } else if j == d.len() {
            assert(data_line(i)[j] == ',');
        } else {
            assert(data_line(i)[j] == '0');
        }
    }
}

/// The file for row count `n` consists of exactly `n + 1` lines — one
/// header line and `n` data lines — each terminated by `'\n'` and free of
/// `'\n'` itself.
pub proof fn lemma_line_structure(n: nat)
    ensures
        file_lines(n).len() == n + 1,
        csv_content(n) == join_lines(file_lines(n)),
        forall|k: int, j: int|
            0 <= k < n + 1 && 0 <= j < file_lines(n)[k].len() ==> file_lines(n)[k][j] != '\n',
    decreases n,
{
    assert forall|k: int, j: int|
        0 <= k < n + 1 && 0 <= j < file_lines(n)[k].len() implies file_lines(n)[k][j] != '\n' by {
        if k == 0 {
            lemma_header_no_newline();
        } else {
            lemma_data_line_no_newline(k as nat);
        }
    }
    if n == 0 {
        assert(file_lines(0).drop_last() =~~= Seq::<Seq<char>>::empty());
        assert(file_lines(0).last() == header());
        assert(join_lines(Seq::<Seq<char>>::empty()) == Seq::<char>::empty());
        assert(csv_content(0) =~= join_lines(file_lines(0)));
    } else {
        lemma_line_structure((n - 1) as nat);
        assert(file_lines(n).drop_last() =~= file_lines((n - 1) as nat));
        assert(file_lines(n).last() == data_line(n));
        assert(join_lines(file_lines(n)) == join_lines(file_lines((n - 1) as nat)) + data_line(n)
            + nl());
        assert(csv_content(n) =~= join_lines(file_lines(n)));
    }
}

/// Reading a decimal representation back yields the represented number.
pub proof fn lemma_dec_val_dec_rep(n: nat)
    ensures
        dec_val(dec_rep(n)) == n,
    decreases n,
{
    if n < 10 {
        let d = seq![digit_char(n)];
        assert(d.drop_last() =~= Seq::<char>::empty());
        assert(d.last() == digit_char(n));
        assert(dec_val(Seq::<char>::empty()) == 0);
        assert(dec_val(d) == digit_val(digit_char(n)));
    } else {
        lemma_dec_val_dec_rep(n / 10);
        let d = dec_rep(n / 10).push(digit_char(n % 10));
        assert(d.drop_last() =~= dec_rep(n / 10));
        assert(dec_val(d) == (n / 10) * 10 + digit_val(digit_char(n % 10)));
        assert(digit_val(digit_char(n % 10)) == n % 10);
        assert((n / 10) * 10 + n % 10 == n) by {
            vstd::arithmetic::div_mod::lemma_fundamental_div_mod(n as int, 10);
        }
    }
}

/// The `i`-th data line (1-based, `1 <= i <= n`) of the file for row count
/// `n` is exactly `<i>,<i zeros>`: the decimal text of `i` — which reads
/// back as `i` — then a comma, then `i` zero characters.
pub proof fn lemma_data_line_at(n: nat, i: nat)
    requires
        1 <= i <= n,
    ensures
        file_lines(n)[i as int] == data_line(i),
        data_line(i) == dec_rep(i) + seq![','] + zeros(i),
        dec_val(dec_rep(i)) == i,
        zeros(i).len() == i,
        forall|j: int| 0 <= j < i ==> zeros(i)[j] == '0',
{
    lemma_dec_val_dec_rep(i);
}

/// Two runs with the same row count produce identical content: the output
/// is a function of the row count alone, so a rerun overwrites the file
/// with the very bytes it already holds.
pub proof fn lemma_deterministic(n: nat, first: Seq<char>, second: Seq<char>)
    requires
        first == csv_content(n),
        second == csv_content(n),
    ensures
        first == second,
{
}

} // verus!
