//! The error taxonomy of the loader. Container-, spreadsheet- and
//! delimited-reader failures carry the decoder's message; every validation
//! rule of the dataset has its own variant.

use vstd::prelude::*;

verus! {

#[derive(Debug, Clone)]
pub enum Error {
    /// The version cell named a release number outside the recognized table.
    InvalidVersion(u32),
    /// No cell beginning with the version marker was found.
    EmptyVersion,
    /// A version cell was found but its payload is not an unsigned number.
    InvalidVersionText(String),
    /// No cell beginning with the extraction-date marker was found.
    EmptyExtractedDate,
    /// The extraction-date text does not parse as day/month/year.
    DateParse(String),
    /// The row-count cell lacks its marker text or does not hold a number.
    InvalidRowCount(String),
    /// No cell beginning with the row-count marker was found.
    EmptyRowCount,
    /// The archive container is malformed or lacks the named entry.
    Archive(String),
    /// The metadata spreadsheet could not be decoded.
    Spreadsheet(String),
    /// The delimited reader rejected the table text.
    Delimited(String),
    /// The table header lacks a required column.
    MissingColumn(String),
    /// A data row's length differs from the header's (row index, from zero).
    RowLength(usize),
    /// A primary-identifier cell does not hold an unsigned number.
    InvalidId(String),
    /// A cell's text is outside the closed vocabulary of its column.
    UnknownVariant(String),
    /// The declared row count differs from the number of indexed records.
    RowCountMismatch(u32, usize),
    /// Two records share a primary identifier.
    DuplicateId(u32),
    /// Two records share an external identifier.
    DuplicatePowoId(String),
}

} // verus!
