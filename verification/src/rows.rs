//! The in-memory row sequence: one [`Row`] per output line, collected in
//! order by [`Rows`], and produced by [`generate_rows`].

use vstd::prelude::*;

use crate::text::zeros;
use crate::text::zeros_string;

verus! {

/// One logical record of the output: a 1-based line number and a message
/// of exactly `line` zero characters.
pub struct Row {
    pub line: usize,
    pub message: String,
}

impl Row {
    /// The invariant of a generated row: the message is a run of zeros
    /// whose length equals the line number.
    pub open spec fn wf(self) -> bool {
        self.message@ == zeros(self.line as nat)
    }
}

/// An ordered sequence of rows.
pub struct Rows {
    rows: Vec<Row>,
}

impl View for Rows {
    type V = Seq<Row>;

    closed spec fn view(&self) -> Seq<Row> {
        self.rows@
    }
}

impl Rows {
    /// Creates an empty sequence.
    pub fn new() -> (r: Rows)
        ensures
            r@ == Seq::<Row>::empty(),
    {
        Rows { rows: Vec::new() }
    }

    /// Appends one row at the end.
    pub fn add(&mut self, row: Row)
        ensures
            final(self)@ == old(self)@.push(row),
    {
        self.rows.push(row);
    }

    /// The rows, in order.
    pub fn iter(&self) -> (r: &Vec<Row>)
        ensures
            r@ == self@,
    {
        &self.rows
    }

    /// The number of rows.
    pub fn len(&self) -> (r: usize)
        ensures
            r == self@.len(),
    {
        self.rows.len()
    }
}

/// Whether `rs` is exactly the generated sequence for row count `n`:
/// `n` rows, the `k`-th (0-based) carrying line number `k + 1` and a
/// message of `k + 1` zeros.
pub open spec fn is_generated(rs: Seq<Row>, n: nat) -> bool {
    &&& rs.len() == n
    &&& forall|k: int|
        0 <= k < n ==> (#[trigger] rs[k]).line == k + 1 && rs[k].message@ == zeros((k + 1) as nat)
}

/// Builds the row sequence for row count `n`: rows `1..=n` in strictly
/// increasing order of line number, with no gaps and no duplicates.
pub fn generate_rows(n: usize) -> (r: Rows)
    ensures
        is_generated(r@, n as nat),
        forall|k: int| 0 <= k < n ==> (#[trigger] r@[k]).wf(),
{
    let mut rows = Rows::new();
    let mut i: usize = 0;
    while i < n
        invariant
            i <= n,
            is_generated(rows@, i as nat),
        decreases n - i,
    {
        let message = zeros_string(i + 1);
        rows.add(Row { line: i + 1, message });
        i = i + 1;
    }
    rows
}

} // verus!
