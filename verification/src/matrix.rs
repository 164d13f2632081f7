//! The result matrix: one row for each benchmark case, one column for each
//! client, and in each cell the rate that the client reached on the case,
//! or nothing where it was not measured.

use vstd::prelude::*;
use crate::bench_summary::{BenchEngineAPIRequestSummary, BenchInput};
use crate::gas::{
    checked_parse_gas_used,
    compute_gas_per_second,
    format_gas_rate,
    gas_per_second,
    gas_rate_text,
    gas_value,
    is_gas_hex,
};

verus! {

/// A summary that cannot be turned into a rate.
#[derive(Debug, Clone, PartialEq, Eq)]
pub enum MatrixError {
    /// The gas figure of a summary is malformed; the figure is kept as it
    /// came.
    MalformedGas(String),
}

impl MatrixError {
    /// The text that describes the error.
    pub open spec fn message_text(self) -> Seq<char> {
        match self {
            MatrixError::MalformedGas(figure) => "Failed to parse hexadecimal string: "@ + figure@,
        }
    }

    /// Describes the error in words.
    pub fn message(&self) -> (text: String)
        ensures
            text@ == self.message_text(),
    {
        match self {
            MatrixError::MalformedGas(figure) => String::from_str(
                "Failed to parse hexadecimal string: ",
            ).concat(figure.as_str()),
        }
    }
}

/// The rate of a summary in gas per second.
pub open spec fn summary_rate(summary: BenchEngineAPIRequestSummary) -> nat {
    gas_per_second(gas_value(summary.gas_used@), summary.time_taken_microseconds as nat)
}

/// The text that a summary puts into its cell.
pub open spec fn summary_cell(summary: BenchEngineAPIRequestSummary) -> Seq<char> {
    gas_rate_text(summary_rate(summary))
}

/// Whether every summary names its gas in a well-formed figure.
pub open spec fn all_well_formed(summaries: Seq<BenchEngineAPIRequestSummary>) -> bool {
    forall|i: int| 0 <= i < summaries.len() ==> is_gas_hex(#[trigger] summaries[i].gas_used@)
}

/// What a cell holds after the summaries of a run were entered: the text
/// of the last summary, or what it held before where the run left none.
pub open spec fn cell_after(before: Seq<char>, summaries: Seq<BenchEngineAPIRequestSummary>) -> Seq<
    char,
> {
    if summaries.len() == 0 {
        before
    } else {
        summary_cell(summaries.last())
    }
}

/// The text of a summary's rate, or an error where its gas figure is
/// malformed.
pub fn rate_text(summary: &BenchEngineAPIRequestSummary) -> (text: Result<String, MatrixError>)
    ensures
        is_gas_hex(summary.gas_used@) ==> (text matches Ok(t) && t@ == summary_cell(*summary)),
        !is_gas_hex(summary.gas_used@) ==> (text matches Err(MatrixError::MalformedGas(figure))
            && figure == summary.gas_used),
{
    match checked_parse_gas_used(summary.gas_used.as_str()) {
        Some(gas) => Ok(
            format_gas_rate(compute_gas_per_second(gas, summary.time_taken_microseconds)),
        ),
        None => Err(MatrixError::MalformedGas(summary.gas_used.clone())),
    }
}

/// The first row of the table: `Name`, `Description`, then the clients.
pub open spec fn header_texts(clients: Seq<Seq<char>>) -> Seq<Seq<char>> {
    seq!["Name"@, "Description"@] + clients
}

/// Writes the first row of the table.
pub fn header(clients: &Vec<String>) -> (row: Vec<String>)
    ensures
        row.deep_view() == header_texts(clients.deep_view()),
{
    let mut row: Vec<String> = Vec::new();
    row.push(String::from_str("Name"));
    row.push(String::from_str("Description"));
    let mut i: usize = 0;
    while i < clients.len()
        invariant
            i <= clients.len(),
            row@.len() == 2 + i,
            row@[0]@ == "Name"@,
            row@[1]@ == "Description"@,
            forall|k: int| 0 <= k < i ==> (#[trigger] row@[2 + k])@ == clients@[k]@,
        decreases clients.len() - i,
    {
        row.push(clients[i].clone());
        i = i + 1;
    }
    assert(row.deep_view() =~= header_texts(clients.deep_view())) by {
        assert forall|k: int| 0 <= k < row@.len() implies row.deep_view()[k] == header_texts(
            clients.deep_view(),
        )[k] by {
            if k >= 2 {
                assert(row@[2 + (k - 2)]@ == clients@[k - 2]@);
            }
        }
    }
    row
}

/// The results of a comparison, case by case and client by client.
pub struct ResultMatrix {
    cells: Vec<Vec<String>>,
    clients: usize,
}

impl ResultMatrix {
    /// The number of cases.
    pub closed spec fn rows(&self) -> nat {
        self.cells@.len()
    }

    /// The number of clients.
    pub closed spec fn columns(&self) -> nat {
        self.clients as nat
    }

    /// What the cell of case `row` and client `column` holds.
    pub closed spec fn cell(&self, row: int, column: int) -> Seq<char> {
        self.cells@[row]@[column]@
    }

    /// Every row has one cell for each client.
    pub closed spec fn wf(&self) -> bool {
        forall|r: int| 0 <= r < self.cells@.len() ==> (#[trigger] self.cells@[r])@.len() == self.clients
    }

    /// A matrix for `cases` cases and `clients` clients, with every cell
    /// empty.
    pub fn new(cases: usize, clients: usize) -> (matrix: Self)
        ensures
            matrix.wf(),
            matrix.rows() == cases,
            matrix.columns() == clients,
            forall|r: int, c: int|
                0 <= r < cases && 0 <= c < clients ==> (#[trigger] matrix.cell(r, c)).len() == 0,
    {
        let mut cells: Vec<Vec<String>> = Vec::new();
        let mut r: usize = 0;
        while r < cases
            invariant
                r <= cases,
                cells@.len() == r,
                forall|k: int| 0 <= k < r ==> (#[trigger] cells@[k])@.len() == clients,
                forall|k: int, c: int|
                    0 <= k < r && 0 <= c < clients ==> (#[trigger] cells@[k]@[c])@.len() == 0,
            decreases cases - r,
        {
            let mut row: Vec<String> = Vec::new();
            let mut c: usize = 0;
            while c < clients
                invariant
                    c <= clients,
                    row@.len() == c,
                    forall|k: int| 0 <= k < c ==> (#[trigger] row@[k])@.len() == 0,
                decreases clients - c,
            {
                row.push(String::new());
                c = c + 1;
            }
            cells.push(row);
            r = r + 1;
        }
        ResultMatrix { cells, clients }
    }

    /// Enters the summaries that a run of case `row` against client
    /// `column` left: the cell then shows the rate of the last of them. A
    /// malformed gas figure is an error, and the matrix stays as it was.
    pub fn record(&mut self, row: usize, column: usize, summaries: &Vec<BenchEngineAPIRequestSummary>) -> (done:
        Result<(), MatrixError>)
        requires
            old(self).wf(),
            row < old(self).rows(),
            column < old(self).columns(),
        ensures
            final(self).wf(),
            final(self).rows() == old(self).rows(),
            final(self).columns() == old(self).columns(),
            done is Ok <==> all_well_formed(summaries@),
            forall|r: int, c: int|
                0 <= r < old(self).rows() && 0 <= c < old(self).columns() && (r != row || c
                    != column) ==> #[trigger] final(self).cell(r, c) == old(self).cell(r, c),
            done is Ok ==> final(self).cell(row as int, column as int) == cell_after(
                old(self).cell(row as int, column as int),
                summaries@,
            ),
            done is Err ==> final(self).cell(row as int, column as int) == old(self).cell(
                row as int,
                column as int,
            ),
            done matches Err(MatrixError::MalformedGas(figure)) ==> exists|i: int|
                0 <= i < summaries@.len() && !is_gas_hex(#[trigger] summaries@[i].gas_used@)
                    && figure == summaries@[i].gas_used && all_well_formed(summaries@.take(i)),
    {
        let mut last: Option<String> = None;
        let mut i: usize = 0;
        while i < summaries.len()
            invariant
                *self == *old(self),
                self.wf(),
                i <= summaries.len(),
                all_well_formed(summaries@.take(i as int)),
                i == 0 ==> last is None,
                i > 0 ==> (last matches Some(t) && t@ == summary_cell(summaries@[i - 1])),
            decreases summaries.len() - i,
        {
            match rate_text(&summaries[i]) {
                Ok(text) => {
                    last = Some(text);
                },
                Err(e) => {
                    assert(!all_well_formed(summaries@)) by {
                        assert(!is_gas_hex(summaries@[i as int].gas_used@));
                    }
                    return Err(e);
                },
            }
            proof {
                let seen = summaries@.take(i + 1);
                assert forall|k: int| 0 <= k < seen.len() implies is_gas_hex(
                    #[trigger] seen[k].gas_used@,
                ) by {
                    if k < i {
                        assert(summaries@.take(i as int)[k] == seen[k]);
                    }
                }
            }
            i = i + 1;
        }
        assert(summaries@.take(i as int) == summaries@);
        if let Some(text) = last {
            self.cells[row][column] = text;
        }
        Ok(())
    }

    /// One row of the table: the name and the description of the case,
    /// then its cells, client by client.
    pub open spec fn row_texts(&self, row: int, case: BenchInput) -> Seq<Seq<char>> {
        seq![case.name@, case.description@] + Seq::new(
            self.columns(),
            |c: int| self.cell(row, c),
        )
    }

    /// Writes the rows of the table, one for each case.
    pub fn rows_of(&self, cases: &Vec<BenchInput>) -> (table: Vec<Vec<String>>)
        requires
            self.wf(),
            cases@.len() == self.rows(),
        ensures
            table@.len() == cases@.len(),
            forall|r: int|
                0 <= r < cases@.len() ==> (#[trigger] table@[r]).deep_view() == self.row_texts(
                    r,
                    cases@[r],
                ),
    {
        let mut table: Vec<Vec<String>> = Vec::new();
        let mut r: usize = 0;
        while r < cases.len()
            invariant
                self.wf(),
                cases@.len() == self.rows(),
                r <= cases.len(),
                table@.len() == r,
                forall|k: int|
                    0 <= k < r ==> (#[trigger] table@[k]).deep_view() == self.row_texts(
                        k,
                        cases@[k],
                    ),
            decreases cases.len() - r,
        {
            let mut row: Vec<String> = Vec::new();
            row.push(cases[r].name.clone());
            row.push(cases[r].description.clone());
            let mut c: usize = 0;
            while c < self.clients
                invariant
                    self.wf(),
                    r < self.cells@.len(),
                    r < cases@.len(),
                    c <= self.clients,
                    row@.len() == 2 + c,
                    row@[0]@ == cases@[r as int].name@,
                    row@[1]@ == cases@[r as int].description@,
                    forall|k: int| 0 <= k < c ==> (#[trigger] row@[2 + k])@ == self.cell(r as int, k),
                decreases self.clients - c,
            {
                row.push(self.cells[r][c].clone());
                c = c + 1;
            }
            assert(row.deep_view() =~= self.row_texts(r as int, cases@[r as int])) by {
                let want = self.row_texts(r as int, cases@[r as int]);
                assert forall|k: int| 0 <= k < row@.len() implies row.deep_view()[k] == want[k] by {
                    if k >= 2 {
                        assert(row@[2 + (k - 2)]@ == self.cell(r as int, k - 2));
                    }
                }
            }
            table.push(row);
            r = r + 1;
        }
        table
    }
}

} // verus!
