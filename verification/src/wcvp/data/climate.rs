//! The closed vocabulary of habitat (climate) categories.

use vstd::prelude::*;
use crate::text;

verus! {

#[derive(Debug, Clone, Copy, PartialEq, Eq, Structural)]
pub enum Climate {
    DesertAndDryShrubland,
    DesertOrDryShrubland,
    MontaneTropical,
    SeasonallyDryTropical,
    SubalpineOrSubarctic,
    Subtropical,
    SubtropicalAndTropical,
    SubtropicalOrTropical,
    Temperate,
    TemperateAndTropical,
    TemperateOrTropicalOrSubtropical,
    WetTropical,
}

/// The climate denoted by a cell's text, if it is in the vocabulary.
pub open spec fn spec_climate_of(s: Seq<char>) -> Option<Climate> {
    if s == "desert and dry shrubland"@ {
        Some(Climate::DesertAndDryShrubland)
    } else if s == "desert or dry shrubland"@ {
        Some(Climate::DesertOrDryShrubland)
    } else if s == "montane tropical"@ {
        Some(Climate::MontaneTropical)
    } else if s == "seasonally dry tropical"@ {
        Some(Climate::SeasonallyDryTropical)
    } else if s == "subalpine or subarctic"@ {
        Some(Climate::SubalpineOrSubarctic)
    } else if s == "subtropical"@ {
        Some(Climate::Subtropical)
    } else if s == "subtropical and tropical"@ {
        Some(Climate::SubtropicalAndTropical)
    } else if s == "subtropical or tropical"@ {
        Some(Climate::SubtropicalOrTropical)
    } else if s == "temperate"@ {
        Some(Climate::Temperate)
    } else if s == "temperate and tropical"@ {
        Some(Climate::TemperateAndTropical)
    } else if s == "temperate, subtropical or tropical"@ {
        Some(Climate::TemperateOrTropicalOrSubtropical)
    } else if s == "wet tropical"@ {
        Some(Climate::WetTropical)
    } else {
        None
    }
}

impl Climate {
    /// Decode a cell's text against the climate vocabulary.
    pub fn decode(s: &str) -> (r: Option<Climate>)
        ensures
            r == spec_climate_of(s@),
    {
        if text::text_eq(s, "desert and dry shrubland") {
            Some(Climate::DesertAndDryShrubland)
        } else if text::text_eq(s, "desert or dry shrubland") {
            Some(Climate::DesertOrDryShrubland)
        } else if text::text_eq(s, "montane tropical") {
            Some(Climate::MontaneTropical)
        } else if text::text_eq(s, "seasonally dry tropical") {
            Some(Climate::SeasonallyDryTropical)
        } else if text::text_eq(s, "subalpine or subarctic") {
            Some(Climate::SubalpineOrSubarctic)
        } else if text::text_eq(s, "subtropical") {
            Some(Climate::Subtropical)
        } else if text::text_eq(s, "subtropical and tropical") {
            Some(Climate::SubtropicalAndTropical)
        } else if text::text_eq(s, "subtropical or tropical") {
            Some(Climate::SubtropicalOrTropical)
        } else if text::text_eq(s, "temperate") {
            Some(Climate::Temperate)
        } else if text::text_eq(s, "temperate and tropical") {
            Some(Climate::TemperateAndTropical)
        } else if text::text_eq(s, "temperate, subtropical or tropical") {
            Some(Climate::TemperateOrTropicalOrSubtropical)
        } else if text::text_eq(s, "wet tropical") {
            Some(Climate::WetTropical)
        } else {
            None
        }
    }
}

} // verus!
