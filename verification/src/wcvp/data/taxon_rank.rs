//! The closed vocabulary of taxonomic ranks. The empty cell decodes to an
//! explicit "not ranked" variant rather than an absent value.

use vstd::prelude::*;
use crate::text;

verus! {

#[derive(Debug, Clone, Copy, PartialEq, Eq, Hash, Structural)]
pub enum TaxonRank {
    Convariety,
    Form,
    Genus,
    Species,
    Subform,
    Subspecies,
    Subvariety,
    Variety,
    NothoSubspecies,
    NothoVariety,
    Nothoform,
    Subsubspecies,
    Grex,
    Mutation,
    Modif,
    Agamosp,
    Group,
    Lusus,
    Sublusus,
    Proles,
    Subproles,
    Stirps,
    Monstr,
    Microgene,
    Micromorphe,
    Microf,
    Provar,
    Subap,
    Subspecioid,
    Nid,
    Psp,
    Ecas,
    Positio,
    NotRanked,
}

/// The rank denoted by a cell's text, if it is in the vocabulary.
pub open spec fn spec_rank_of(s: Seq<char>) -> Option<TaxonRank> {
    if s == "Convariety"@ {
        Some(TaxonRank::Convariety)
    } else if s == "Form"@ {
        Some(TaxonRank::Form)
    } else if s == "Genus"@ {
        Some(TaxonRank::Genus)
    } else if s == "Species"@ {
        Some(TaxonRank::Species)
    } else if s == "Subform"@ {
        Some(TaxonRank::Subform)
    } else if s == "Subspecies"@ {
        Some(TaxonRank::Subspecies)
    } else if s == "Subvariety"@ {
        Some(TaxonRank::Subvariety)
    } else if s == "Variety"@ {
        Some(TaxonRank::Variety)
    } else if s == "nothosubsp."@ {
        Some(TaxonRank::NothoSubspecies)
    } else if s == "nothovar."@ {
        Some(TaxonRank::NothoVariety)
    } else if s == "nothof."@ {
        Some(TaxonRank::Nothoform)
    } else if s == "subsubsp."@ {
        Some(TaxonRank::Subsubspecies)
    } else if s == "grex"@ {
        Some(TaxonRank::Grex)
    } else if s == "mut."@ {
        Some(TaxonRank::Mutation)
    } else if s == "modif."@ {
        Some(TaxonRank::Modif)
    } else if s == "agamosp."@ {
        Some(TaxonRank::Agamosp)
    } else if s == "group"@ {
        Some(TaxonRank::Group)
    } else if s == "lusus"@ {
        Some(TaxonRank::Lusus)
    } else if s == "sublusus"@ {
        Some(TaxonRank::Sublusus)
    } else if s == "proles"@ {
        Some(TaxonRank::Proles)
    } else if s == "subproles"@ {
        Some(TaxonRank::Subproles)
    } else if s == "stirps"@ {
        Some(TaxonRank::Stirps)
    } else if s == "monstr."@ {
        Some(TaxonRank::Monstr)
    } else if s == "microg√®ne"@ {
        Some(TaxonRank::Microgene)
    } else if s == "micromorphe"@ {
        Some(TaxonRank::Micromorphe)
    } else if s == "microf."@ {
        Some(TaxonRank::Microf)
    } else if s == "provar."@ {
        Some(TaxonRank::Provar)
    } else if s == "subap."@ {
        Some(TaxonRank::Subap)
    } else if s == "subspecioid"@ {
        Some(TaxonRank::Subspecioid)
    } else if s == "nid"@ {
        Some(TaxonRank::Nid)
    } else if s == "psp."@ {
        Some(TaxonRank::Psp)
    } else if s == "ecas."@ {
        Some(TaxonRank::Ecas)
    } else if s == "positio"@ {
        Some(TaxonRank::Positio)
    } else if s == ""@ {
        Some(TaxonRank::NotRanked)
    } else {
        None
    }
}

/// A fixed position for each rank, used as the deterministic tie-break
/// when frequency tables are ordered.
pub open spec fn spec_rank_index(r: TaxonRank) -> u32 {
    match r {
        TaxonRank::Convariety => 0,
        TaxonRank::Form => 1,
        TaxonRank::Genus => 2,
        TaxonRank::Species => 3,
        TaxonRank::Subform => 4,
        TaxonRank::Subspecies => 5,
        TaxonRank::Subvariety => 6,
        TaxonRank::Variety => 7,
        TaxonRank::NothoSubspecies => 8,
        TaxonRank::NothoVariety => 9,
        TaxonRank::Nothoform => 10,
        TaxonRank::Subsubspecies => 11,
        TaxonRank::Grex => 12,
        TaxonRank::Mutation => 13,
        TaxonRank::Modif => 14,
        TaxonRank::Agamosp => 15,
        TaxonRank::Group => 16,
        TaxonRank::Lusus => 17,
        TaxonRank::Sublusus => 18,
        TaxonRank::Proles => 19,
        TaxonRank::Subproles => 20,
        TaxonRank::Stirps => 21,
        TaxonRank::Monstr => 22,
        TaxonRank::Microgene => 23,
        TaxonRank::Micromorphe => 24,
        TaxonRank::Microf => 25,
        TaxonRank::Provar => 26,
        TaxonRank::Subap => 27,
        TaxonRank::Subspecioid => 28,
        TaxonRank::Nid => 29,
        TaxonRank::Psp => 30,
        TaxonRank::Ecas => 31,
        TaxonRank::Positio => 32,
        TaxonRank::NotRanked => 33,
    }
}

impl TaxonRank {
    /// Decode a cell's text against the rank vocabulary.
    pub fn decode(s: &str) -> (r: Option<TaxonRank>)
        ensures
            r == spec_rank_of(s@),
    {
        if text::text_eq(s, "Convariety") {
            Some(TaxonRank::Convariety)
        } else if text::text_eq(s, "Form") {
            Some(TaxonRank::Form)
        } else if text::text_eq(s, "Genus") {
            Some(TaxonRank::Genus)
        } else if text::text_eq(s, "Species") {
            Some(TaxonRank::Species)
        } else if text::text_eq(s, "Subform") {
            Some(TaxonRank::Subform)
        } else if text::text_eq(s, "Subspecies") {
            Some(TaxonRank::Subspecies)
        } else if text::text_eq(s, "Subvariety") {
            Some(TaxonRank::Subvariety)
        } else if text::text_eq(s, "Variety") {
            Some(TaxonRank::Variety)
        } else if text::text_eq(s, "nothosubsp.") {
            Some(TaxonRank::NothoSubspecies)
        } else if text::text_eq(s, "nothovar.") {
            Some(TaxonRank::NothoVariety)
        } else if text::text_eq(s, "nothof.") {
            Some(TaxonRank::Nothoform)
        } else if text::text_eq(s, "subsubsp.") {
            Some(TaxonRank::Subsubspecies)
        } else if text::text_eq(s, "grex") {
            Some(TaxonRank::Grex)
        } else if text::text_eq(s, "mut.") {
            Some(TaxonRank::Mutation)
        } else if text::text_eq(s, "modif.") {
            Some(TaxonRank::Modif)
        } else if text::text_eq(s, "agamosp.") {
            Some(TaxonRank::Agamosp)
        } else if text::text_eq(s, "group") {
            Some(TaxonRank::Group)
        } else if text::text_eq(s, "lusus") {
            Some(TaxonRank::Lusus)
        } else if text::text_eq(s, "sublusus") {
            Some(TaxonRank::Sublusus)
        } else if text::text_eq(s, "proles") {
            Some(TaxonRank::Proles)
        } else if text::text_eq(s, "subproles") {
            Some(TaxonRank::Subproles)
        } else if text::text_eq(s, "stirps") {
            Some(TaxonRank::Stirps)
        } else if text::text_eq(s, "monstr.") {
            Some(TaxonRank::Monstr)
        } else if text::text_eq(s, "microg√®ne") {
            Some(TaxonRank::Microgene)
        } else if text::text_eq(s, "micromorphe") {
            Some(TaxonRank::Micromorphe)
        } else if text::text_eq(s, "microf.") {
            Some(TaxonRank::Microf)
        } else if text::text_eq(s, "provar.") {
            Some(TaxonRank::Provar)
        } else if text::text_eq(s, "subap.") {
            Some(TaxonRank::Subap)
        } else if text::text_eq(s, "subspecioid") {
            Some(TaxonRank::Subspecioid)
        } else if text::text_eq(s, "nid") {
            Some(TaxonRank::Nid)
        } else if text::text_eq(s, "psp.") {
            Some(TaxonRank::Psp)
        } else if text::text_eq(s, "ecas.") {
            Some(TaxonRank::Ecas)
        } else if text::text_eq(s, "positio") {
            Some(TaxonRank::Positio)
        } else if text::text_eq(s, "") {
            Some(TaxonRank::NotRanked)
        } else {
            None
        }
    }

    /// The rank's fixed tie-break position.
    pub fn index(self) -> (r: u32)
        ensures
            r == spec_rank_index(self),
    {
        match self {
            TaxonRank::Convariety => 0,
            TaxonRank::Form => 1,
            TaxonRank::Genus => 2,
            TaxonRank::Species => 3,
            TaxonRank::Subform => 4,
            TaxonRank::Subspecies => 5,
            TaxonRank::Subvariety => 6,
            TaxonRank::Variety => 7,
            TaxonRank::NothoSubspecies => 8,
            TaxonRank::NothoVariety => 9,
            TaxonRank::Nothoform => 10,
            TaxonRank::Subsubspecies => 11,
            TaxonRank::Grex => 12,
            TaxonRank::Mutation => 13,
            TaxonRank::Modif => 14,
            TaxonRank::Agamosp => 15,
            TaxonRank::Group => 16,
            TaxonRank::Lusus => 17,
            TaxonRank::Sublusus => 18,
            TaxonRank::Proles => 19,
            TaxonRank::Subproles => 20,
            TaxonRank::Stirps => 21,
            TaxonRank::Monstr => 22,
            TaxonRank::Microgene => 23,
            TaxonRank::Micromorphe => 24,
            TaxonRank::Microf => 25,
            TaxonRank::Provar => 26,
            TaxonRank::Subap => 27,
            TaxonRank::Subspecioid => 28,
            TaxonRank::Nid => 29,
            TaxonRank::Psp => 30,
            TaxonRank::Ecas => 31,
            TaxonRank::Positio => 32,
            TaxonRank::NotRanked => 33,
        }
    }
}

} // verus!
