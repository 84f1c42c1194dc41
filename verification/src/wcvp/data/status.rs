//! The closed vocabulary of nomenclatural/taxonomic statuses.

use vstd::prelude::*;
use crate::text;

verus! {

#[derive(Debug, Clone, Copy, PartialEq, Eq, Structural)]
pub enum Status {
    Accepted,
    ArtificialHybrid,
    Illegitimate,
    Invalid,
    LocalBiotype,
    Misapplied,
    Orthographic,
    Synonym,
    Unplaced,
    ProvisionallyAccepted,
}

/// The status denoted by a cell's text, if it is in the vocabulary.
pub open spec fn spec_status_of(s: Seq<char>) -> Option<Status> {
    if s == "Accepted"@ {
        Some(Status::Accepted)
    } else if s == "Artificial Hybrid"@ {
        Some(Status::ArtificialHybrid)
    } else if s == "Illegitimate"@ {
        Some(Status::Illegitimate)
    } else if s == "Invalid"@ {
        Some(Status::Invalid)
    } else if s == "Local Biotype"@ {
        Some(Status::LocalBiotype)
    } else if s == "Misapplied"@ {
        Some(Status::Misapplied)
    } else if s == "Orthographic"@ {
        Some(Status::Orthographic)
    } else if s == "Synonym"@ {
        Some(Status::Synonym)
    } else if s == "Unplaced"@ {
        Some(Status::Unplaced)
    } else if s == "Provisionally Accepted"@ {
        Some(Status::ProvisionallyAccepted)
    } else {
        None
    }
}

impl Status {
    /// Decode a cell's text against the status vocabulary.
    pub fn decode(s: &str) -> (r: Option<Status>)
        ensures
            r == spec_status_of(s@),
    {
        if text::text_eq(s, "Accepted") {
            Some(Status::Accepted)
        } else if text::text_eq(s, "Artificial Hybrid") {
            Some(Status::ArtificialHybrid)
        } else if text::text_eq(s, "Illegitimate") {
            Some(Status::Illegitimate)
        } else if text::text_eq(s, "Invalid") {
            Some(Status::Invalid)
        } else if text::text_eq(s, "Local Biotype") {
            Some(Status::LocalBiotype)
        } else if text::text_eq(s, "Misapplied") {
            Some(Status::Misapplied)
        } else if text::text_eq(s, "Orthographic") {
            Some(Status::Orthographic)
        } else if text::text_eq(s, "Synonym") {
            Some(Status::Synonym)
        } else if text::text_eq(s, "Unplaced") {
            Some(Status::Unplaced)
        } else if text::text_eq(s, "Provisionally Accepted") {
            Some(Status::ProvisionallyAccepted)
        } else {
            None
        }
    }
}

} // verus!
