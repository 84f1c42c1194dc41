//! Verified ingestion and query core for the World Checklist of Vascular
//! Plants (WCVP) distribution archive: a compressed container holding a
//! spreadsheet with release metadata and a pipe-delimited table of
//! taxonomic name records.
//!
//! The archive container, spreadsheet cell stream and delimited-row reader
//! are outside decoders reached through trusted wrappers; every rule of the
//! dataset itself (marker-cell scanning, version, date and row-count
//! validation, the record field vocabularies, indexing and the frequency
//! statistics) is verified code.

mod archive;
mod date;
mod error;
mod text;
mod wcvp;

pub use date::Date;
pub use error::Error;
pub use wcvp::data::decode_reviewed;
pub use wcvp::statistics::{Stat, StatKey};
pub use wcvp::{Climate, Data, HybridType, Metadata, Statistics, Status, TaxonRank, Version, Wcvp};
