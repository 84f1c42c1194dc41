//! The taxonomic record schema and its header-driven decoder.
//!
//! The delimited reader (an outside crate) only splits the table's bytes
//! into rows of string fields; every rule of the schema — which columns
//! must exist, which cells may be empty, the closed vocabularies and the
//! three-valued reviewed flag — is verified code.

mod climate;
mod hybrid_type;
mod status;
mod taxon_rank;

use vstd::prelude::*;
use crate::error::Error;
use crate::text;

pub use climate::{spec_climate_of, Climate};
pub use hybrid_type::{spec_hybrid_of, HybridType};
pub use status::{spec_status_of, Status};
pub use taxon_rank::{spec_rank_index, spec_rank_of, TaxonRank};

verus! {

/// One taxonomic name entry of the dataset.
#[derive(Debug, Clone)]
pub struct Data {
    /// Primary identifier, unique within the dataset.
    pub id: u32,
    /// External identifier in the plant-name index, when matched.
    pub ipni_id: Option<String>,
    /// Level of the name in the taxonomic hierarchy.
    pub taxon_rank: TaxonRank,
    /// Nomenclatural status and taxonomic opinion.
    pub taxon_status: Status,
    /// Family the taxon belongs to.
    pub family: String,
    /// Hybrid marker at genus level.
    pub genus_hybrid: Option<HybridType>,
    /// Genus the record refers to.
    pub genus: String,
    /// Hybrid marker at species level.
    pub species_hybrid: Option<HybridType>,
    /// Species epithet; empty at genus rank.
    pub species: Option<String>,
    /// Rank of the infraspecific epithet, when any.
    pub infraspecific_rank: Option<String>,
    /// Infraspecific epithet, when any.
    pub infraspecies: Option<String>,
    /// Author of the basionym, when any.
    pub parenthetical_author: Option<String>,
    /// Author(s) who published the name, when known.
    pub primary_author: Option<String>,
    /// Author(s) of the publication, when different from the primary author.
    pub publication_author: Option<String>,
    /// Publication the name appeared in, when known.
    pub place_of_publication: Option<String>,
    /// Volume and page numbers of the original publication, when known.
    pub volume_and_page: Option<String>,
    /// Year of publication, when known.
    pub first_published: Option<String>,
    /// Remarks on the nomenclature.
    pub nomenclatural_remarks: Option<String>,
    /// Narrative geographic distribution, for species rank or below.
    pub geographic_area: Option<String>,
    /// Lifeform(s) of the taxon, when known.
    pub lifeform_description: Option<String>,
    /// Habitat category, when known.
    pub climate_description: Option<Climate>,
    /// Genus combined with the epithets into the full name.
    pub taxon_name: String,
    /// Concatenation of parenthetical and primary authors, when known.
    pub taxon_authors: Option<String>,
    /// Identifier of the accepted name of this taxon, when placed.
    pub accepted_plant_name_id: Option<String>,
    /// Identifier of the original name this one was derived from, when any.
    pub basionym_plant_name_id: Option<String>,
    /// Author(s) of the replaced synonym, when any.
    pub replaced_synonym_author: Option<String>,
    /// Homotypic-synonym flag as recorded in the source, when any.
    pub homotypic_synonym: Option<String>,
    /// Identifier of the parent genus or species, when calculated.
    pub parent_plant_name_id: Option<String>,
    /// External identifier used as the dataset's secondary key.
    pub powo_id: String,
    /// Parents of a hybrid, when any.
    pub hybrid_formula: Option<String>,
    /// Whether the family has been peer reviewed.
    pub reviewed: bool,
}

/// The reviewed flag's three-valued textual domain.
pub open spec fn spec_reviewed_of(s: Seq<char>) -> Option<bool> {
    if s == "Y"@ {
        Some(true)
    } else if s == ""@ {
        Some(false)
    } else if s == "N"@ {
        Some(false)
    } else {
        None
    }
}

/// Decode the reviewed flag: `Y` is true, empty and `N` are false,
/// anything else is outside the domain.
pub fn decode_reviewed(s: &str) -> (r: Option<bool>)
    ensures
        r == spec_reviewed_of(s@),
{
    if text::text_eq(s, "Y") {
        Some(true)
    } else if text::text_eq(s, "") {
        Some(false)
    } else if text::text_eq(s, "N") {
        Some(false)
    } else {
        None
    }
}

/// Index of the first header cell equal to `name`, if any.
pub open spec fn spec_find_col(h: Seq<Seq<char>>, name: Seq<char>) -> Option<int>
    decreases h.len(),
{
    if h.len() == 0 {
        None
    } else if h.first() == name {
        Some(0)
    } else {
        match spec_find_col(h.drop_first(), name) {
            Some(i) => Some(i + 1),
            None => None,
        }
    }
}

proof fn lemma_find_col_some(h: Seq<Seq<char>>, name: Seq<char>, i: int)
    requires
        0 <= i < h.len(),
        h[i] == name,
        forall|j: int| 0 <= j < i ==> h[j] != name,
    ensures
        spec_find_col(h, name) == Some(i),
    decreases i,
{
    if i == 0 {
    } else {
        assert(h.first() != name);
        let h1 = h.drop_first();
        assert(h1[i - 1] == h[i]);
        assert(forall|j: int| 0 <= j < i - 1 ==> h1[j] == h[j + 1] && h[j + 1] != name);
        lemma_find_col_some(h1, name, i - 1);
    }
}

proof fn lemma_find_col_none(h: Seq<Seq<char>>, name: Seq<char>)
    requires
        forall|j: int| 0 <= j < h.len() ==> h[j] != name,
    ensures
        spec_find_col(h, name) is None,
    decreases h.len(),
{
    if h.len() == 0 {
    } else {
        let h1 = h.drop_first();
        assert(forall|j: int| 0 <= j < h1.len() ==> h1[j] == h[j + 1] && h[j + 1] != name);
        lemma_find_col_none(h1, name);
    }
}

/// First column of `header` named `name`, if any.
pub fn find_column(header: &Vec<String>, name: &str) -> (r: Option<usize>)
    ensures
        match r {
            Some(i) => i < header@.len() && spec_find_col(header.deep_view(), name@) == Some(
                i as int,
            ),
            None => spec_find_col(header.deep_view(), name@) is None,
        },
{
    let mut i: usize = 0;
    while i < header.len()
        invariant
            i <= header@.len(),
            forall|j: int| 0 <= j < i ==> header.deep_view()[j] != name@,
        decreases header@.len() - i,
    {
        if text::text_eq(header[i].as_str(), name) {
            proof {
                lemma_find_col_some(header.deep_view(), name@, i as int);
            }
            return Some(i);
        }
        i = i + 1;
    }
    proof {
        lemma_find_col_none(header.deep_view(), name@);
    }
    None
}

/// The cell of `row` under the header column named `name`, if any.
pub open spec fn cell_of(h: Seq<Seq<char>>, row: Seq<Seq<char>>, name: Seq<char>) -> Option<
    Seq<char>,
> {
    match spec_find_col(h, name) {
        Some(i) => if i < row.len() {
            Some(row[i])
        } else {
            None
        },
        None => None,
    }
}

/// Fetch the cell of `row` under the column named `name`.
fn get_cell<'a>(header: &Vec<String>, row: &'a Vec<String>, name: &str) -> (r: Option<&'a String>)
    requires
        row@.len() == header@.len(),
    ensures
        match r {
            Some(c) => cell_of(header.deep_view(), row.deep_view(), name@) == Some(c@),
            None => cell_of(header.deep_view(), row.deep_view(), name@) is None,
        },
{
    match find_column(header, name) {
        Some(i) => Some(&row[i]),
        None => None,
    }
}

// Per-kind success conditions for a fetched cell.

/// A column that must exist; any text is acceptable.
pub open spec fn txt_ok(c: Option<Seq<char>>) -> bool {
    c is Some
}

/// The primary identifier: present and an unsigned number.
pub open spec fn id_ok(c: Option<Seq<char>>) -> bool {
    c is Some && text::spec_parse_u32(c.unwrap()) is Some
}

/// A rank cell: present and in the rank vocabulary.
pub open spec fn rank_ok(c: Option<Seq<char>>) -> bool {
    c is Some && spec_rank_of(c.unwrap()) is Some
}

/// A status cell: present and in the status vocabulary.
pub open spec fn status_ok(c: Option<Seq<char>>) -> bool {
    c is Some && spec_status_of(c.unwrap()) is Some
}

/// A hybrid-marker cell: present, and empty or in the vocabulary.
pub open spec fn hybrid_ok(c: Option<Seq<char>>) -> bool {
    c is Some && (c.unwrap().len() == 0 || spec_hybrid_of(c.unwrap()) is Some)
}

/// A climate cell: present, and empty or in the vocabulary.
pub open spec fn climate_ok(c: Option<Seq<char>>) -> bool {
    c is Some && (c.unwrap().len() == 0 || spec_climate_of(c.unwrap()) is Some)
}

/// A reviewed cell: present and in the three-valued domain.
pub open spec fn reviewed_ok(c: Option<Seq<char>>) -> bool {
    c is Some && spec_reviewed_of(c.unwrap()) is Some
}

/// An optional text cell decodes to `None` exactly when empty.
pub open spec fn opt_text_matches(c: Seq<char>, o: Option<String>) -> bool {
    if c.len() == 0 {
        o is None
    } else {
        o matches Some(s) && s@ == c
    }
}

pub open spec fn opt_hybrid_matches(c: Seq<char>, o: Option<HybridType>) -> bool {
    if c.len() == 0 {
        o is None
    } else {
        o matches Some(x) && spec_hybrid_of(c) == Some(x)
    }
}

pub open spec fn opt_climate_matches(c: Seq<char>, o: Option<Climate>) -> bool {
    if c.len() == 0 {
        o is None
    } else {
        o matches Some(x) && spec_climate_of(c) == Some(x)
    }
}

/// Every column of the schema is present and its cell decodes.
pub open spec fn row_ok(h: Seq<Seq<char>>, row: Seq<Seq<char>>) -> bool {
    &&& id_ok(cell_of(h, row, "plant_name_id"@))
    &&& txt_ok(cell_of(h, row, "ipni_id"@))
    &&& rank_ok(cell_of(h, row, "taxon_rank"@))
    &&& status_ok(cell_of(h, row, "taxon_status"@))
    &&& txt_ok(cell_of(h, row, "family"@))
    &&& hybrid_ok(cell_of(h, row, "genus_hybrid"@))
    &&& txt_ok(cell_of(h, row, "genus"@))
    &&& hybrid_ok(cell_of(h, row, "species_hybrid"@))
    &&& txt_ok(cell_of(h, row, "species"@))
    &&& txt_ok(cell_of(h, row, "infraspecific_rank"@))
    &&& txt_ok(cell_of(h, row, "infraspecies"@))
    &&& txt_ok(cell_of(h, row, "parenthetical_author"@))
    &&& txt_ok(cell_of(h, row, "primary_author"@))
    &&& txt_ok(cell_of(h, row, "publication_author"@))
    &&& txt_ok(cell_of(h, row, "place_of_publication"@))
    &&& txt_ok(cell_of(h, row, "volume_and_page"@))
    &&& txt_ok(cell_of(h, row, "first_published"@))
    &&& txt_ok(cell_of(h, row, "nomenclatural_remarks"@))
    &&& txt_ok(cell_of(h, row, "geographic_area"@))
    &&& txt_ok(cell_of(h, row, "lifeform_description"@))
    &&& climate_ok(cell_of(h, row, "climate_description"@))
    &&& txt_ok(cell_of(h, row, "taxon_name"@))
    &&& txt_ok(cell_of(h, row, "taxon_authors"@))
    &&& txt_ok(cell_of(h, row, "accepted_plant_name_id"@))
    &&& txt_ok(cell_of(h, row, "basionym_plant_name_id"@))
    &&& txt_ok(cell_of(h, row, "replaced_synonym_author"@))
    &&& txt_ok(cell_of(h, row, "homotypic_synonym"@))
    &&& txt_ok(cell_of(h, row, "parent_plant_name_id"@))
    &&& txt_ok(cell_of(h, row, "powo_id"@))
    &&& txt_ok(cell_of(h, row, "hybrid_formula"@))
    &&& reviewed_ok(cell_of(h, row, "reviewed"@))
}

/// The record decoded from a row whose every cell is acceptable.
pub open spec fn row_data(h: Seq<Seq<char>>, row: Seq<Seq<char>>, d: Data) -> bool {
    &&& d.id == text::spec_parse_u32(cell_of(h, row, "plant_name_id"@).unwrap()).unwrap()
    &&& opt_text_matches(cell_of(h, row, "ipni_id"@).unwrap(), d.ipni_id)
    &&& spec_rank_of(cell_of(h, row, "taxon_rank"@).unwrap()) == Some(d.taxon_rank)
    &&& spec_status_of(cell_of(h, row, "taxon_status"@).unwrap()) == Some(d.taxon_status)
    &&& d.family@ == cell_of(h, row, "family"@).unwrap()
    &&& opt_hybrid_matches(cell_of(h, row, "genus_hybrid"@).unwrap(), d.genus_hybrid)
    &&& d.genus@ == cell_of(h, row, "genus"@).unwrap()
    &&& opt_hybrid_matches(cell_of(h, row, "species_hybrid"@).unwrap(), d.species_hybrid)
    &&& opt_text_matches(cell_of(h, row, "species"@).unwrap(), d.species)
    &&& opt_text_matches(cell_of(h, row, "infraspecific_rank"@).unwrap(), d.infraspecific_rank)
    &&& opt_text_matches(cell_of(h, row, "infraspecies"@).unwrap(), d.infraspecies)
    &&& opt_text_matches(
        cell_of(h, row, "parenthetical_author"@).unwrap(),
        d.parenthetical_author,
    )
    &&& opt_text_matches(cell_of(h, row, "primary_author"@).unwrap(), d.primary_author)
    &&& opt_text_matches(cell_of(h, row, "publication_author"@).unwrap(), d.publication_author)
    &&& opt_text_matches(
        cell_of(h, row, "place_of_publication"@).unwrap(),
        d.place_of_publication,
    )
    &&& opt_text_matches(cell_of(h, row, "volume_and_page"@).unwrap(), d.volume_and_page)
    &&& opt_text_matches(cell_of(h, row, "first_published"@).unwrap(), d.first_published)
    &&& opt_text_matches(
        cell_of(h, row, "nomenclatural_remarks"@).unwrap(),
        d.nomenclatural_remarks,
    )
    &&& opt_text_matches(cell_of(h, row, "geographic_area"@).unwrap(), d.geographic_area)
    &&& opt_text_matches(cell_of(h, row, "lifeform_description"@).unwrap(), d.lifeform_description)
    &&& opt_climate_matches(cell_of(h, row, "climate_description"@).unwrap(), d.climate_description)
    &&& d.taxon_name@ == cell_of(h, row, "taxon_name"@).unwrap()
    &&& opt_text_matches(cell_of(h, row, "taxon_authors"@).unwrap(), d.taxon_authors)
    &&& opt_text_matches(
        cell_of(h, row, "accepted_plant_name_id"@).unwrap(),
        d.accepted_plant_name_id,
    )
    &&& opt_text_matches(
        cell_of(h, row, "basionym_plant_name_id"@).unwrap(),
        d.basionym_plant_name_id,
    )
    &&& opt_text_matches(
        cell_of(h, row, "replaced_synonym_author"@).unwrap(),
        d.replaced_synonym_author,
    )
    &&& opt_text_matches(cell_of(h, row, "homotypic_synonym"@).unwrap(), d.homotypic_synonym)
    &&& opt_text_matches(
        cell_of(h, row, "parent_plant_name_id"@).unwrap(),
        d.parent_plant_name_id,
    )
    &&& d.powo_id@ == cell_of(h, row, "powo_id"@).unwrap()
    &&& opt_text_matches(cell_of(h, row, "hybrid_formula"@).unwrap(), d.hybrid_formula)
    &&& spec_reviewed_of(cell_of(h, row, "reviewed"@).unwrap()) == Some(d.reviewed)
}

/// The error named when a column is missing.
pub open spec fn missing_err(e: Error, name: Seq<char>) -> bool {
    e matches Error::MissingColumn(s) && s@ == name
}

/// The error named when a cell's text is outside its vocabulary.
pub open spec fn variant_err(e: Error, c: Option<Seq<char>>) -> bool {
    e matches Error::UnknownVariant(s) && Some(s@) == c
}

/// A required-text failure can only be a missing column.
pub open spec fn txt_err(e: Error, c: Option<Seq<char>>, name: Seq<char>) -> bool {
    c is None && missing_err(e, name)
}

pub open spec fn id_err(e: Error, c: Option<Seq<char>>, name: Seq<char>) -> bool {
    match c {
        None => missing_err(e, name),
        Some(t) => e matches Error::InvalidId(s) && s@ == t,
    }
}

pub open spec fn vocab_err(e: Error, c: Option<Seq<char>>, name: Seq<char>) -> bool {
    match c {
        None => missing_err(e, name),
        Some(_) => variant_err(e, c),
    }
}

/// The error reported for a row, determined by the first schema field
/// (in declaration order) whose cell is missing or malformed.
pub open spec fn spec_row_err(h: Seq<Seq<char>>, row: Seq<Seq<char>>, e: Error) -> bool {
    if !id_ok(cell_of(h, row, "plant_name_id"@)) {
        id_err(e, cell_of(h, row, "plant_name_id"@), "plant_name_id"@)
    } else if !txt_ok(cell_of(h, row, "ipni_id"@)) {
        txt_err(e, cell_of(h, row, "ipni_id"@), "ipni_id"@)
    } else if !rank_ok(cell_of(h, row, "taxon_rank"@)) {
        vocab_err(e, cell_of(h, row, "taxon_rank"@), "taxon_rank"@)
    } else if !status_ok(cell_of(h, row, "taxon_status"@)) {
        vocab_err(e, cell_of(h, row, "taxon_status"@), "taxon_status"@)
    } else if !txt_ok(cell_of(h, row, "family"@)) {
        txt_err(e, cell_of(h, row, "family"@), "family"@)
    } else if !hybrid_ok(cell_of(h, row, "genus_hybrid"@)) {
        vocab_err(e, cell_of(h, row, "genus_hybrid"@), "genus_hybrid"@)
    } else if !txt_ok(cell_of(h, row, "genus"@)) {
        txt_err(e, cell_of(h, row, "genus"@), "genus"@)
    } else if !hybrid_ok(cell_of(h, row, "species_hybrid"@)) {
        vocab_err(e, cell_of(h, row, "species_hybrid"@), "species_hybrid"@)
    } else if !txt_ok(cell_of(h, row, "species"@)) {
        txt_err(e, cell_of(h, row, "species"@), "species"@)
    } else if !txt_ok(cell_of(h, row, "infraspecific_rank"@)) {
        txt_err(e, cell_of(h, row, "infraspecific_rank"@), "infraspecific_rank"@)
    } else if !txt_ok(cell_of(h, row, "infraspecies"@)) {
        txt_err(e, cell_of(h, row, "infraspecies"@), "infraspecies"@)
    } else if !txt_ok(cell_of(h, row, "parenthetical_author"@)) {
        txt_err(e, cell_of(h, row, "parenthetical_author"@), "parenthetical_author"@)
    } else if !txt_ok(cell_of(h, row, "primary_author"@)) {
        txt_err(e, cell_of(h, row, "primary_author"@), "primary_author"@)
    } else if !txt_ok(cell_of(h, row, "publication_author"@)) {
        txt_err(e, cell_of(h, row, "publication_author"@), "publication_author"@)
    } else if !txt_ok(cell_of(h, row, "place_of_publication"@)) {
        txt_err(e, cell_of(h, row, "place_of_publication"@), "place_of_publication"@)
    } else if !txt_ok(cell_of(h, row, "volume_and_page"@)) {
        txt_err(e, cell_of(h, row, "volume_and_page"@), "volume_and_page"@)
    } else if !txt_ok(cell_of(h, row, "first_published"@)) {
        txt_err(e, cell_of(h, row, "first_published"@), "first_published"@)
    } else if !txt_ok(cell_of(h, row, "nomenclatural_remarks"@)) {
        txt_err(e, cell_of(h, row, "nomenclatural_remarks"@), "nomenclatural_remarks"@)
    } else if !txt_ok(cell_of(h, row, "geographic_area"@)) {
        txt_err(e, cell_of(h, row, "geographic_area"@), "geographic_area"@)
    } else if !txt_ok(cell_of(h, row, "lifeform_description"@)) {
        txt_err(e, cell_of(h, row, "lifeform_description"@), "lifeform_description"@)
    } else if !climate_ok(cell_of(h, row, "climate_description"@)) {
        vocab_err(e, cell_of(h, row, "climate_description"@), "climate_description"@)
    } else if !txt_ok(cell_of(h, row, "taxon_name"@)) {
        txt_err(e, cell_of(h, row, "taxon_name"@), "taxon_name"@)
    } else if !txt_ok(cell_of(h, row, "taxon_authors"@)) {
        txt_err(e, cell_of(h, row, "taxon_authors"@), "taxon_authors"@)
    } else if !txt_ok(cell_of(h, row, "accepted_plant_name_id"@)) {
        txt_err(e, cell_of(h, row, "accepted_plant_name_id"@), "accepted_plant_name_id"@)
    } else if !txt_ok(cell_of(h, row, "basionym_plant_name_id"@)) {
        txt_err(e, cell_of(h, row, "basionym_plant_name_id"@), "basionym_plant_name_id"@)
    } else if !txt_ok(cell_of(h, row, "replaced_synonym_author"@)) {
        txt_err(e, cell_of(h, row, "replaced_synonym_author"@), "replaced_synonym_author"@)
    } else if !txt_ok(cell_of(h, row, "homotypic_synonym"@)) {
        txt_err(e, cell_of(h, row, "homotypic_synonym"@), "homotypic_synonym"@)
    } else if !txt_ok(cell_of(h, row, "parent_plant_name_id"@)) {
        txt_err(e, cell_of(h, row, "parent_plant_name_id"@), "parent_plant_name_id"@)
    } else if !txt_ok(cell_of(h, row, "powo_id"@)) {
        txt_err(e, cell_of(h, row, "powo_id"@), "powo_id"@)
    } else if !txt_ok(cell_of(h, row, "hybrid_formula"@)) {
        txt_err(e, cell_of(h, row, "hybrid_formula"@), "hybrid_formula"@)
    } else if !reviewed_ok(cell_of(h, row, "reviewed"@)) {
        vocab_err(e, cell_of(h, row, "reviewed"@), "reviewed"@)
    } else {
        false
    }
}

/// What the delimited reader yields for given bytes and delimiter: the
/// table's rows, one string per field, or nothing when it rejects the
/// text (a ragged row, broken quoting, bytes that are not text).
pub uninterp spec fn delimited_rows_of(bytes: Seq<u8>, delim: u8) -> Option<Seq<Seq<Seq<char>>>>;

/// Relies on csv's `ReaderBuilder` with the given single-byte delimiter
/// and no header handling: every row of the table as string fields; the
/// outcome is a function of the bytes and the delimiter alone.
#[verifier::external_body]
fn read_delimited(bytes: &Vec<u8>, delim: u8) -> (r: Result<Vec<Vec<String>>, String>)
    ensures
        match r {
            Ok(rows) => delimited_rows_of(bytes@, delim) == Some(rows.deep_view()),
            Err(_) => delimited_rows_of(bytes@, delim) is None,
        },
{
    let mut rdr = csv::ReaderBuilder::new().delimiter(delim).has_headers(false).from_reader(
        &bytes[..],
    );
    let mut out: Vec<Vec<String>> = Vec::new();
    for rec in rdr.records() {
        match rec {
            Ok(row) => out.push(row.iter().map(|f| f.to_string()).collect()),
            Err(e) => {
                return Err(format!("{e}"));
            },
        }
    }
    Ok(out)
}

/// Every data row has the header's width.
pub open spec fn rows_uniform(rs: Seq<Seq<Seq<char>>>) -> bool {
    forall|j: int| 1 <= j < rs.len() ==> (#[trigger] rs[j]).len() == rs[0].len()
}

/// Every data row decodes against the header.
pub open spec fn table_ok(rs: Seq<Seq<Seq<char>>>) -> bool {
    rs.len() == 0 || (rows_uniform(rs) && (forall|j: int|
        1 <= j < rs.len() ==> row_ok(rs[0], #[trigger] rs[j])))
}

/// `ds` is the decode of the table's data rows, in order.
pub open spec fn table_data(rs: Seq<Seq<Seq<char>>>, ds: Seq<Data>) -> bool {
    &&& ds.len() == (if rs.len() == 0 {
        0int
    } else {
        rs.len() - 1
    })
    &&& forall|j: int| 0 <= j < ds.len() ==> row_data(rs[0], rs[j + 1], #[trigger] ds[j])
}

/// Rows before `j` are fine, and row `j` fails with error `e`: a wrong
/// width gives the row's index (from zero among data rows), anything else
/// the first failing field's error.
pub open spec fn row_bad_err(rs: Seq<Seq<Seq<char>>>, j: int, e: Error) -> bool {
    if rs[j].len() != rs[0].len() {
        e matches Error::RowLength(i) && i == j - 1
    } else {
        !row_ok(rs[0], rs[j]) && spec_row_err(rs[0], rs[j], e)
    }
}

pub open spec fn row_fine(rs: Seq<Seq<Seq<char>>>, k: int) -> bool {
    rs[k].len() == rs[0].len() && row_ok(rs[0], rs[k])
}

/// The error of the first failing data row.
pub open spec fn table_err(rs: Seq<Seq<Seq<char>>>, e: Error) -> bool {
    exists|j: int|
        1 <= j < rs.len() && (forall|k: int| 1 <= k < j ==> row_fine(rs, k)) && #[trigger] row_bad_err(
            rs,
            j,
            e,
        )
}

/// Decode a whole table: the first row is the header, every later row one
/// record. A row that fails aborts the parse with that row's error; an
/// empty table (not even a header) decodes to no records.
pub fn decode_rows(rows: &Vec<Vec<String>>) -> (r: Result<Vec<Data>, Error>)
    ensures
        match r {
            Ok(ds) => table_ok(rows.deep_view()) && table_data(rows.deep_view(), ds@),
            Err(e) => !table_ok(rows.deep_view()) && table_err(rows.deep_view(), e),
        },
{
    let ghost rs = rows.deep_view();
    if rows.len() == 0 {
        return Ok(Vec::new());
    }
    let mut out: Vec<Data> = Vec::new();
    let mut i: usize = 1;
    while i < rows.len()
        invariant
            rs == rows.deep_view(),
            rs.len() == rows@.len(),
            1 <= i <= rs.len(),
            out@.len() == i - 1,
            forall|k: int| 1 <= k < i ==> row_fine(rs, k),
            forall|j: int| 0 <= j < out@.len() ==> row_data(rs[0], rs[j + 1], #[trigger] out@[j]),
        decreases rs.len() - i,
    {
        let row_len = rows[i].len();
        let header_len = rows[0].len();
        if row_len != header_len {
            proof {
                assert(row_bad_err(rs, i as int, Error::RowLength((i - 1) as usize)));
                assert(table_err(rs, Error::RowLength((i - 1) as usize)));
            }
            return Err(Error::RowLength(i - 1));
        }
        let d = match Data::decode_record(&rows[0], &rows[i]) {
            Ok(d) => d,
            Err(e) => {
                proof {
                    assert(row_bad_err(rs, i as int, e));
                    assert(table_err(rs, e));
                }
                return Err(e);
            },
        };
        out.push(d);
        i = i + 1;
    }
    proof {
        assert forall|j: int|
            1 <= j < rs.len() implies (#[trigger] rs[j]).len() == rs[0].len() && row_ok(
            rs[0],
            rs[j],
        ) by {
            assert(row_fine(rs, j));
        }
    }
    Ok(out)
}

/// Parse the table entry's bytes: split them into pipe-delimited rows
/// through the delimited reader, then decode every data row against the
/// header.
pub fn parse_table(bytes: &Vec<u8>) -> (r: Result<Vec<Data>, Error>)
    ensures
        match r {
            Ok(ds) => delimited_rows_of(bytes@, 124) matches Some(rs) && table_ok(rs)
                && table_data(rs, ds@),
            Err(e) => {
                ||| (delimited_rows_of(bytes@, 124) is None && e matches Error::Delimited(_))
                ||| (delimited_rows_of(bytes@, 124) matches Some(rs) && !table_ok(rs) && table_err(
                    rs,
                    e,
                ))
            },
        },
{
    let rows = match read_delimited(bytes, 124) {
        Ok(rows) => rows,
        Err(msg) => {
            return Err(Error::Delimited(msg));
        },
    };
    decode_rows(&rows)
}

impl Data {
    /// Decode one data row against the header, field by field in schema
    /// order. Succeeds exactly when every column exists and every cell
    /// decodes; the error names the first failure.
    #[verifier::rlimit(100)]
    pub fn decode_record(header: &Vec<String>, row: &Vec<String>) -> (r: Result<Data, Error>)
        requires
            row@.len() == header@.len(),
        ensures
            match r {
                Ok(d) => row_ok(header.deep_view(), row.deep_view()) && row_data(
                    header.deep_view(),
                    row.deep_view(),
                    d,
                ),
                Err(e) => !row_ok(header.deep_view(), row.deep_view()) && spec_row_err(
                    header.deep_view(),
                    row.deep_view(),
                    e,
                ),
            },
    {
        let c = match get_cell(header, row, "plant_name_id") {
            Some(c) => c,
            None => {
                return Err(Error::MissingColumn("plant_name_id".to_owned()));
            },
        };
        let idv = text::chars_of(c.as_str());
        let id = match text::parse_u32(&idv) {
            Some(n) => n,
            None => {
                return Err(Error::InvalidId(c.clone()));
            },
        };
        let c = match get_cell(header, row, "ipni_id") {
            Some(c) => c,
            None => {
                return Err(Error::MissingColumn("ipni_id".to_owned()));
            },
        };
        let ipni_id = if c.as_str().is_empty() {
            None
        } else {
            Some(c.clone())
        };
        let c = match get_cell(header, row, "taxon_rank") {
            Some(c) => c,
            None => {
                return Err(Error::MissingColumn("taxon_rank".to_owned()));
            },
        };
        let taxon_rank = match TaxonRank::decode(c.as_str()) {
            Some(v) => v,
            None => {
                return Err(Error::UnknownVariant(c.clone()));
            },
        };
        let c = match get_cell(header, row, "taxon_status") {
            Some(c) => c,
            None => {
                return Err(Error::MissingColumn("taxon_status".to_owned()));
            },
        };
        let taxon_status = match Status::decode(c.as_str()) {
            Some(v) => v,
            None => {
                return Err(Error::UnknownVariant(c.clone()));
            },
        };
        let c = match get_cell(header, row, "family") {
            Some(c) => c,
            None => {
                return Err(Error::MissingColumn("family".to_owned()));
            },
        };
        let family = c.clone();
        let c = match get_cell(header, row, "genus_hybrid") {
            Some(c) => c,
            None => {
                return Err(Error::MissingColumn("genus_hybrid".to_owned()));
            },
        };
        let genus_hybrid = if c.as_str().is_empty() {
            None
        } else {
            match HybridType::decode(c.as_str()) {
                Some(v) => Some(v),
                None => {
                    return Err(Error::UnknownVariant(c.clone()));
                },
            }
        };
        let c = match get_cell(header, row, "genus") {
            Some(c) => c,
            None => {
                return Err(Error::MissingColumn("genus".to_owned()));
            },
        };
        let genus = c.clone();
        let c = match get_cell(header, row, "species_hybrid") {
            Some(c) => c,
            None => {
                return Err(Error::MissingColumn("species_hybrid".to_owned()));
            },
        };
        let species_hybrid = if c.as_str().is_empty() {
            None
        } else {
            match HybridType::decode(c.as_str()) {
                Some(v) => Some(v),
                None => {
                    return Err(Error::UnknownVariant(c.clone()));
                },
            }
        };
        let c = match get_cell(header, row, "species") {
            Some(c) => c,
            None => {
                return Err(Error::MissingColumn("species".to_owned()));
            },
        };
        let species = if c.as_str().is_empty() {
            None
        } else {
            Some(c.clone())
        };
        let c = match get_cell(header, row, "infraspecific_rank") {
            Some(c) => c,
            None => {
                return Err(Error::MissingColumn("infraspecific_rank".to_owned()));
            },
        };
        let infraspecific_rank = if c.as_str().is_empty() {
            None
        } else {
            Some(c.clone())
        };
        let c = match get_cell(header, row, "infraspecies") {
            Some(c) => c,
            None => {
                return Err(Error::MissingColumn("infraspecies".to_owned()));
            },
        };
        let infraspecies = if c.as_str().is_empty() {
            None
        } else {
            Some(c.clone())
        };
        let c = match get_cell(header, row, "parenthetical_author") {
            Some(c) => c,
            None => {
                return Err(Error::MissingColumn("parenthetical_author".to_owned()));
            },
        };
        let parenthetical_author = if c.as_str().is_empty() {
            None
        } else {
            Some(c.clone())
        };
        let c = match get_cell(header, row, "primary_author") {
            Some(c) => c,
            None => {
                return Err(Error::MissingColumn("primary_author".to_owned()));
            },
        };
        let primary_author = if c.as_str().is_empty() {
            None
        } else {
            Some(c.clone())
        };
        let c = match get_cell(header, row, "publication_author") {
            Some(c) => c,
            None => {
                return Err(Error::MissingColumn("publication_author".to_owned()));
            },
        };
        let publication_author = if c.as_str().is_empty() {
            None
        } else {
            Some(c.clone())
        };
        let c = match get_cell(header, row, "place_of_publication") {
            Some(c) => c,
            None => {
                return Err(Error::MissingColumn("place_of_publication".to_owned()));
            },
        };
        let place_of_publication = if c.as_str().is_empty() {
            None
        } else {
            Some(c.clone())
        };
        let c = match get_cell(header, row, "volume_and_page") {
            Some(c) => c,
            None => {
                return Err(Error::MissingColumn("volume_and_page".to_owned()));
            },
        };
        let volume_and_page = if c.as_str().is_empty() {
            None
        } else {
            Some(c.clone())
        };
        let c = match get_cell(header, row, "first_published") {
            Some(c) => c,
            None => {
                return Err(Error::MissingColumn("first_published".to_owned()));
            },
        };
        let first_published = if c.as_str().is_empty() {
            None
        } else {
            Some(c.clone())
        };
        let c = match get_cell(header, row, "nomenclatural_remarks") {
            Some(c) => c,
            None => {
                return Err(Error::MissingColumn("nomenclatural_remarks".to_owned()));
            },
        };
        let nomenclatural_remarks = if c.as_str().is_empty() {
            None
        } else {
            Some(c.clone())
        };
        let c = match get_cell(header, row, "geographic_area") {
            Some(c) => c,
            None => {
                return Err(Error::MissingColumn("geographic_area".to_owned()));
            },
        };
        let geographic_area = if c.as_str().is_empty() {
            None
        } else {
            Some(c.clone())
        };
        let c = match get_cell(header, row, "lifeform_description") {
            Some(c) => c,
            None => {
                return Err(Error::MissingColumn("lifeform_description".to_owned()));
            },
        };
        let lifeform_description = if c.as_str().is_empty() {
            None
        } else {
            Some(c.clone())
        };
        let c = match get_cell(header, row, "climate_description") {
            Some(c) => c,
            None => {
                return Err(Error::MissingColumn("climate_description".to_owned()));
            },
        };
        let climate_description = if c.as_str().is_empty() {
            None
        } else {
            match Climate::decode(c.as_str()) {
                Some(v) => Some(v),
                None => {
                    return Err(Error::UnknownVariant(c.clone()));
                },
            }
        };
        let c = match get_cell(header, row, "taxon_name") {
            Some(c) => c,
            None => {
                return Err(Error::MissingColumn("taxon_name".to_owned()));
            },
        };
        let taxon_name = c.clone();
        let c = match get_cell(header, row, "taxon_authors") {
            Some(c) => c,
            None => {
                return Err(Error::MissingColumn("taxon_authors".to_owned()));
            },
        };
        let taxon_authors = if c.as_str().is_empty() {
            None
        } else {
            Some(c.clone())
        };
        let c = match get_cell(header, row, "accepted_plant_name_id") {
            Some(c) => c,
            None => {
                return Err(Error::MissingColumn("accepted_plant_name_id".to_owned()));
            },
        };
        let accepted_plant_name_id = if c.as_str().is_empty() {
            None
        } else {
            Some(c.clone())
        };
        let c = match get_cell(header, row, "basionym_plant_name_id") {
            Some(c) => c,
            None => {
                return Err(Error::MissingColumn("basionym_plant_name_id".to_owned()));
            },
        };
        let basionym_plant_name_id = if c.as_str().is_empty() {
            None
        } else {
            Some(c.clone())
        };
        let c = match get_cell(header, row, "replaced_synonym_author") {
            Some(c) => c,
            None => {
                return Err(Error::MissingColumn("replaced_synonym_author".to_owned()));
            },
        };
        let replaced_synonym_author = if c.as_str().is_empty() {
            None
        } else {
            Some(c.clone())
        };
        let c = match get_cell(header, row, "homotypic_synonym") {
            Some(c) => c,
            None => {
                return Err(Error::MissingColumn("homotypic_synonym".to_owned()));
            },
        };
        let homotypic_synonym = if c.as_str().is_empty() {
            None
        } else {
            Some(c.clone())
        };
        let c = match get_cell(header, row, "parent_plant_name_id") {
            Some(c) => c,
            None => {
                return Err(Error::MissingColumn("parent_plant_name_id".to_owned()));
            },
        };
        let parent_plant_name_id = if c.as_str().is_empty() {
            None
        } else {
            Some(c.clone())
        };
        let c = match get_cell(header, row, "powo_id") {
            Some(c) => c,
            None => {
                return Err(Error::MissingColumn("powo_id".to_owned()));
            },
        };
        let powo_id = c.clone();
        let c = match get_cell(header, row, "hybrid_formula") {
            Some(c) => c,
            None => {
                return Err(Error::MissingColumn("hybrid_formula".to_owned()));
            },
        };
        let hybrid_formula = if c.as_str().is_empty() {
            None
        } else {
            Some(c.clone())
        };
        let c = match get_cell(header, row, "reviewed") {
            Some(c) => c,
            None => {
                return Err(Error::MissingColumn("reviewed".to_owned()));
            },
        };
        let reviewed = match decode_reviewed(c.as_str()) {
            Some(b) => b,
            None => {
                return Err(Error::UnknownVariant(c.clone()));
            },
        };
        Ok(
            Data {
                id,
                ipni_id,
                taxon_rank,
                taxon_status,
                family,
                genus_hybrid,
                genus,
                species_hybrid,
                species,
                infraspecific_rank,
                infraspecies,
                parenthetical_author,
                primary_author,
                publication_author,
                place_of_publication,
                volume_and_page,
                first_published,
                nomenclatural_remarks,
                geographic_area,
                lifeform_description,
                climate_description,
                taxon_name,
                taxon_authors,
                accepted_plant_name_id,
                basionym_plant_name_id,
                replaced_synonym_author,
                homotypic_synonym,
                parent_plant_name_id,
                powo_id,
                hybrid_formula,
                reviewed,
            },
        )
    }
}

} // verus!
