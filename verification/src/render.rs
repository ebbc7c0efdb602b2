//! Rendering the row sequence as comma-separated text.
//!
//! Two write strategies produce the same text: hand formatting of each
//! line, and delegation of field encoding to the `csv` crate. Both are
//! pinned to the same model, [`crate::text::csv_content`].

use vstd::prelude::*;

use crate::rows::Row;
use crate::rows::Rows;
use crate::rows::generate_rows;
use crate::rows::is_generated;
use crate::text::csv_content;
use crate::text::data_line;
use crate::text::dec_rep;
use crate::text::header;
use crate::text::is_digit;
use crate::text::lemma_dec_rep_digits;
use crate::text::nl;
use crate::text::zeros;

verus! {

/// How field-level encoding is done; both strategies emit identical text
/// for this payload.
#[derive(Clone, Copy, Debug, PartialEq, Eq, Structural)]
pub enum WriteStrategy {
    /// Hand-format each line by string interpolation.
    ManualFormat,
    /// Delegate record encoding to a generic CSV encoder.
    GenericRecord,
}

/// A character that the CSV encoder writes verbatim: not a delimiter, not
/// a quote, and not part of a record terminator, so no quoting is applied.
pub open spec fn csv_plain(c: char) -> bool {
    c != ',' && c != '"' && c != '\n' && c != '\r'
}

/// The text of one row, terminator included: `<line>,<message>\n`.
pub open spec fn row_text(row: Row) -> Seq<char> {
    dec_rep(row.line as nat) + seq![','] + row.message@ + nl()
}

/// The text of a row sequence: the rows' texts, in order.
pub open spec fn rendered(rs: Seq<Row>) -> Seq<char>
    decreases rs.len(),
{
    if rs.len() == 0 {
        Seq::empty()
    } else {
        rendered(rs.drop_last()) + row_text(rs.last())
    }
}

/// Relies on `csv::Writer` over an in-memory buffer: with the default
/// configuration (delimiter `,`, record terminator `\n`, quoting only
/// where a field holds a delimiter, quote, CR or LF byte), `write_record`
/// writes a record of two plain fields verbatim as `<first>,<second>\n`,
/// and writing to a `Vec<u8>` never fails.
#[verifier::external_body]
fn csv_encode_record(first: &str, second: &str) -> (r: String)
    requires
        forall|j: int| 0 <= j < first@.len() ==> csv_plain(#[trigger] first@[j]),
        forall|j: int| 0 <= j < second@.len() ==> csv_plain(#[trigger] second@[j]),
    ensures
        r@ == first@ + seq![','] + second@ + seq!['\n'],
{
    let mut writer = csv::Writer::from_writer(Vec::new());
    writer.write_record(&[first, second]).unwrap();
    String::from_utf8(writer.into_inner().unwrap()).unwrap()
}

/// The fixed header line, without its terminator.
pub fn header_line() -> (r: &'static str)
    ensures
        r@ == header(),
{
    "line,message"
}

/// Renders one row as `<line>,<message>\n`, by the chosen strategy.
pub fn render_row(row: &Row, strategy: WriteStrategy) -> (r: String)
    requires
        strategy == WriteStrategy::GenericRecord ==> forall|j: int|
            0 <= j < row.message@.len() ==> csv_plain(#[trigger] row.message@[j]),
    ensures
        r@ == row_text(*row),
{
    let line_text = crate::text::usize_to_string(row.line);
    match strategy {
        WriteStrategy::ManualFormat => {
            let mut s = line_text;
            s.append(",");
            s.append(row.message.as_str());
            s.append("\n");
            proof {
                reveal_strlit(",");
                reveal_strlit("\n");
                assert(s@ =~= row_text(*row));
            }
            s
        },
        WriteStrategy::GenericRecord => {
            proof {
                lemma_dec_rep_digits(row.line as nat);
                assert forall|j: int| 0 <= j < line_text@.len() implies csv_plain(
                    #[trigger] line_text@[j],
                ) by {
                    assert(is_digit(line_text@[j]));
                }
            }
            let r = csv_encode_record(line_text.as_str(), row.message.as_str());
            proof {
                assert(r@ =~= row_text(*row));
            }
            r
        },
    }
}

/// Renders the header line and then every row, in order.
pub fn render_rows(rows: &Rows, strategy: WriteStrategy) -> (r: String)
    requires
        strategy == WriteStrategy::GenericRecord ==> forall|k: int, j: int|
            0 <= k < rows@.len() && 0 <= j < rows@[k].message@.len() ==> csv_plain(
                #[trigger] rows@[k].message@[j],
            ),
    ensures
        r@ == header() + nl() + rendered(rows@),
{
    let mut s = header_line().to_owned();
    s.append("\n");
    proof {
        reveal_strlit("\n");
        assert(s@ =~= header() + nl());
        assert(rows@.take(0) =~= Seq::<Row>::empty());
        assert(s@ =~= header() + nl() + rendered(rows@.take(0)));
    }
    let items = rows.iter();
    let n = items.len();
    let mut i: usize = 0;
    while i < n
        invariant
            i <= n,
            n == rows@.len(),
            items@ == rows@,
            strategy == WriteStrategy::GenericRecord ==> forall|k: int, j: int|
                0 <= k < rows@.len() && 0 <= j < rows@[k].message@.len() ==> csv_plain(
                    #[trigger] rows@[k].message@[j],
                ),
            s@ == header() + nl() + rendered(rows@.take(i as int)),
        decreases n - i,
    {
        let line = render_row(&items[i], strategy);
        s.append(line.as_str());
        proof {
            let taken = rows@.take(i + 1);
            assert(taken.drop_last() =~= rows@.take(i as int));
            assert(taken.last() == rows@[i as int]);
            assert(rendered(taken) == rendered(rows@.take(i as int)) + row_text(rows@[i as int]));
            assert(s@ =~= header() + nl() + rendered(taken));
        }
        i = i + 1;
    }
    proof {
        assert(rows@.take(n as int) =~= rows@);
    }
    s
}

/// The rendered text of the generated row sequence for `n` is exactly the
/// file content `csv_content(n)`.
pub proof fn lemma_rendered_generated(rs: Seq<Row>, n: nat)
    requires
        is_generated(rs, n),
    ensures
        header() + nl() + rendered(rs) == csv_content(n),
    decreases n,
{
    if n == 0 {
        assert(header() + nl() + rendered(rs) =~= csv_content(0));
    } else {
        let rs0 = rs.drop_last();
        assert(is_generated(rs0, (n - 1) as nat));
        lemma_rendered_generated(rs0, (n - 1) as nat);
        assert(rs.last().line == n);
        assert(rs.last().message@ == zeros(n));
        assert(row_text(rs.last()) =~= data_line(n) + nl());
        assert(header() + nl() + rendered(rs) =~= (header() + nl() + rendered(rs0)) + row_text(
            rs.last(),
        ));
        assert((csv_content((n - 1) as nat) + (data_line(n) + nl())) =~= csv_content(n));
        assert(header() + nl() + rendered(rs) =~= csv_content(n));
    }
}

/// Produces the whole file content for row count `n`: the header line
/// `line,message` followed by the data lines `<i>,<i zeros>` for `i` in
/// `1..=n`, each terminated by `'\n'`.
pub fn generate_csv(n: usize, strategy: WriteStrategy) -> (r: String)
    ensures
        r@ == csv_content(n as nat),
{
    let rows = generate_rows(n);
    proof {
        assert forall|k: int, j: int|
            0 <= k < rows@.len() && 0 <= j < rows@[k].message@.len() implies csv_plain(
            #[trigger] rows@[k].message@[j],
        ) by {
            assert(rows@[k].message@ == zeros((k + 1) as nat));
            assert(rows@[k].message@[j] == '0');
        }
    }
    let s = render_rows(&rows, strategy);
    proof {
        lemma_rendered_generated(rows@, n as nat);
    }
    s
}

} // verus!
