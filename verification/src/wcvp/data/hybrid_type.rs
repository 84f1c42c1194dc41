//! The two-variant vocabulary of hybrid markers.

use vstd::prelude::*;
use crate::text;

verus! {

#[derive(Debug, Clone, Copy, PartialEq, Eq, Structural)]
pub enum HybridType {
    GraftChimera,
    Hybrid,
}

/// The hybrid marker denoted by a cell's text: `+` is a graft-chimaera
/// and `×` a hybrid.
pub open spec fn spec_hybrid_of(s: Seq<char>) -> Option<HybridType> {
    if s == "+"@ {
        Some(HybridType::GraftChimera)
    } else if s == "×"@ {
        Some(HybridType::Hybrid)
    } else {
        None
    }
}

impl HybridType {
    /// Decode a cell's text against the hybrid-marker vocabulary.
    pub fn decode(s: &str) -> (r: Option<HybridType>)
        ensures
            r == spec_hybrid_of(s@),
    {
        if text::text_eq(s, "+") {
            Some(HybridType::GraftChimera)
        } else if text::text_eq(s, "×") {
            Some(HybridType::Hybrid)
        } else {
            None
        }
    }
}

} // verus!
