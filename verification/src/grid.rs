//! The tabular source model: a two-dimensional grid of typed cells.
//!
//! A spreadsheet or delimited-text container is read outside the library and
//! handed in as a [`Grid`]. Cells carry plain values only: text, fixed-point
//! numbers in cents, calendar days, booleans, or nothing.

use vstd::prelude::*;

use crate::date::Date;

verus! {

/// One cell of a tabular source.
///
/// A numeric cell holds its value in cents (scaled by one hundred), the
/// fixed-point form every amount takes in this library. A date cell holds a
/// well-formed calendar day; [`RawCell::wf`] states it.
#[derive(Debug, Clone, PartialEq)]
pub enum RawCell {
    Empty,
    Text(String),
    Number(i64),
    Date(Date),
    Bool(bool),
    Error,
}

/// The mathematical value of a cell.
#[verifier::ext_equal]
pub ghost enum CellV {
    Empty,
    Text(Seq<char>),
    Number(i64),
    Date(Date),
    Bool(bool),
    Error,
}

impl View for RawCell {
    type V = CellV;

    open spec fn view(&self) -> CellV {
        match self {
            RawCell::Empty => CellV::Empty,
            RawCell::Text(s) => CellV::Text(s@),
            RawCell::Number(n) => CellV::Number(*n),
            RawCell::Date(d) => CellV::Date(*d),
            RawCell::Bool(b) => CellV::Bool(*b),
            RawCell::Error => CellV::Error,
        }
    }
}

impl DeepView for RawCell {
    type V = CellV;

    open spec fn deep_view(&self) -> CellV {
        self.view()
    }
}

/// Well-formedness of a cell value: a date cell holds a valid calendar day.
pub open spec fn cell_wf(c: CellV) -> bool {
    match c {
        CellV::Date(d) => d.wf(),
        _ => true,
    }
}

/// A row/column-addressable view over a tabular source. Rows may be ragged;
/// a cell beyond a row's width reads as empty.
#[derive(Debug, Clone, PartialEq)]
pub struct Grid {
    pub rows: Vec<Vec<RawCell>>,
}

impl View for Grid {
    type V = Seq<Seq<CellV>>;

    open spec fn view(&self) -> Seq<Seq<CellV>> {
        self.rows.deep_view()
    }
}

/// The cell of a row at a column, read as empty past the row's width.
pub open spec fn spec_cell_at(row: Seq<CellV>, j: int) -> CellV {
    if 0 <= j < row.len() {
        row[j]
    } else {
        CellV::Empty
    }
}

/// Well-formedness of a row of cell values.
pub open spec fn row_wf(row: Seq<CellV>) -> bool {
    forall|j: int| 0 <= j < row.len() ==> cell_wf(#[trigger] row[j])
}

impl Grid {
    /// Well-formedness: every date cell holds a valid calendar day.
    pub open spec fn wf(self) -> bool {
        forall|i: int| 0 <= i < self@.len() ==> row_wf(#[trigger] self@[i])
    }
}

} // verus!
