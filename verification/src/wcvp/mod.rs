//! The dataset root: orchestration of archive reading, metadata
//! extraction, record parsing, indexing and statistics, and the public
//! query surface of a loaded dataset.

pub mod data;
pub mod metadata;
pub mod statistics;
pub mod version;

pub use data::{Climate, Data, HybridType, Status, TaxonRank};
pub use metadata::Metadata;
pub use statistics::Statistics;
pub use version::Version;

use vstd::prelude::*;
use crate::archive::{read_archive_entry, zip_entry_of};
use crate::error::Error;
use crate::text;
use crate::wcvp::data::{
    cell_of, delimited_rows_of, parse_table, row_ok, table_data, table_err, table_ok,
};
use crate::wcvp::metadata::{meta_err, meta_ok, meta_value, read_sheet_text_cells, sheet_cells_of};

verus! {

/// The primary identifier a data row declares.
pub open spec fn row_id(h: Seq<Seq<char>>, row: Seq<Seq<char>>) -> u32 {
    text::spec_parse_u32(cell_of(h, row, "plant_name_id"@).unwrap()).unwrap()
}

/// The external identifier a data row declares.
pub open spec fn row_powo(h: Seq<Seq<char>>, row: Seq<Seq<char>>) -> Seq<char> {
    cell_of(h, row, "powo_id"@).unwrap()
}

/// No two data rows declare the same primary identifier.
pub open spec fn rows_unique_ids(rs: Seq<Seq<Seq<char>>>) -> bool {
    forall|i: int, j: int|
        1 <= i < j < rs.len() ==> row_id(rs[0], #[trigger] rs[i]) != row_id(rs[0], #[trigger] rs[j])
}

/// No two data rows declare the same external identifier.
pub open spec fn rows_unique_powos(rs: Seq<Seq<Seq<char>>>) -> bool {
    forall|i: int, j: int|
        1 <= i < j < rs.len() ==> row_powo(rs[0], #[trigger] rs[i]) != row_powo(
            rs[0],
            #[trigger] rs[j],
        )
}

/// No two records share a primary identifier.
pub open spec fn unique_ids(s: Seq<Data>) -> bool {
    forall|i: int, j: int| 0 <= i < j < s.len() ==> (#[trigger] s[i]).id != (#[trigger] s[j]).id
}

/// No two records share an external identifier.
pub open spec fn unique_powos(s: Seq<Data>) -> bool {
    forall|i: int, j: int|
        0 <= i < j < s.len() ==> (#[trigger] s[i]).powo_id@ != (#[trigger] s[j]).powo_id@
}

/// The cells and the table bytes make a loadable dataset: the metadata
/// decodes, the table splits and decodes, both identifiers are unique,
/// and the declared row count equals the number of records.
pub open spec fn parts_ok(cs: Seq<Seq<char>>, tb: Seq<u8>) -> bool {
    &&& meta_ok(cs)
    &&& delimited_rows_of(tb, 124) matches Some(rs) && table_ok(rs) && rows_unique_ids(rs)
        && rows_unique_powos(rs)
    &&& meta_rows_declared(cs) == table_record_count(tb)
}

/// The declared row count of the cells, once `meta_ok` holds.
pub open spec fn meta_rows_declared(cs: Seq<Seq<char>>) -> int {
    crate::wcvp::metadata::spec_rows_num(
        crate::wcvp::metadata::first_match(cs, "Table"@).unwrap(),
    ).unwrap() as int
}

/// The number of data rows of the table bytes, once they split.
pub open spec fn table_record_count(tb: Seq<u8>) -> int {
    let rs = delimited_rows_of(tb, 124).unwrap();
    if rs.len() == 0 {
        0int
    } else {
        rs.len() - 1
    }
}

/// The error reported for cells and table bytes, by the first failing
/// stage: metadata, table split, row decode, duplicate identifiers, then
/// the row-count cross-check.
pub open spec fn parts_err(cs: Seq<Seq<char>>, tb: Seq<u8>, e: Error) -> bool {
    if !meta_ok(cs) {
        meta_err(cs, e)
    } else if delimited_rows_of(tb, 124) is None {
        e matches Error::Delimited(_)
    } else {
        let rs = delimited_rows_of(tb, 124).unwrap();
        if !table_ok(rs) {
            table_err(rs, e)
        } else if !rows_unique_ids(rs) {
            e matches Error::DuplicateId(x) && (exists|i: int, j: int|
                1 <= i < j < rs.len() && row_id(rs[0], #[trigger] rs[i]) == row_id(
                    rs[0],
                    #[trigger] rs[j],
                ) && row_id(rs[0], rs[i]) == x)
        } else if !rows_unique_powos(rs) {
            e matches Error::DuplicatePowoId(s) && (exists|i: int, j: int|
                1 <= i < j < rs.len() && row_powo(rs[0], #[trigger] rs[i]) == row_powo(
                    rs[0],
                    #[trigger] rs[j],
                ) && row_powo(rs[0], rs[i]) == s@)
        } else {
            meta_rows_declared(cs) != table_record_count(tb) && (e matches Error::RowCountMismatch(
                declared,
                counted,
            ) && declared == meta_rows_declared(cs) && counted == table_record_count(tb))
        }
    }
}

/// A loaded dataset: validated metadata, the indexed records, and the
/// frequency statistics, computed once at load.
pub struct Wcvp {
    metadata: Metadata,
    records: Vec<Data>,
    statistics: Statistics,
}

impl Wcvp {
    /// The indexed records, in table order.
    pub closed spec fn records_view(self) -> Seq<Data> {
        self.records@
    }

    pub closed spec fn metadata_view(self) -> Metadata {
        self.metadata
    }

    pub closed spec fn statistics_view(self) -> Statistics {
        self.statistics
    }

    /// A loaded dataset is well formed: identifiers unique, the record
    /// count equal to the declared row count, and statistics that
    /// describe exactly the records.
    pub open spec fn wf(self) -> bool {
        &&& unique_ids(self.records_view())
        &&& unique_powos(self.records_view())
        &&& self.records_view().len() == self.metadata_view().rows
        &&& self.statistics_view().wf()
        &&& self.statistics_view().describes(self.records_view())
    }

    /// The dataset carried by the given cells and table bytes.
    pub open spec fn loaded_from(self, cs: Seq<Seq<char>>, tb: Seq<u8>) -> bool {
        &&& meta_value(cs, self.metadata_view())
        &&& delimited_rows_of(tb, 124) matches Some(rs) && table_data(rs, self.records_view())
    }

    /// Load a dataset from already-extracted parts: the spreadsheet's
    /// textual cells and the table entry's bytes.
    ///
    /// Where the source table repeats a primary or external identifier
    /// the load is rejected with a duplicate-key error rather than
    /// overwriting the earlier record, and a declared row count that
    /// differs from the number of records is rejected too: a loaded
    /// dataset always satisfies `wf`.
    pub fn from_parts(cells: &Vec<String>, table_bytes: &Vec<u8>) -> (r: Result<Wcvp, Error>)
        ensures
            match r {
                Ok(w) => parts_ok(cells.deep_view(), table_bytes@) && w.wf() && w.loaded_from(
                    cells.deep_view(),
                    table_bytes@,
                ),
                Err(e) => !parts_ok(cells.deep_view(), table_bytes@) && parts_err(
                    cells.deep_view(),
                    table_bytes@,
                    e,
                ),
            },
    {
        let ghost cs = cells.deep_view();
        let ghost tb = table_bytes@;
        let metadata = match Metadata::extract(cells) {
            Ok(m) => m,
            Err(e) => {
                return Err(e);
            },
        };
        let records = match parse_table(table_bytes) {
            Ok(ds) => ds,
            Err(e) => {
                return Err(e);
            },
        };
        let ghost rs = delimited_rows_of(tb, 124).unwrap();
        if let Some(x) = Wcvp::find_duplicate_id(&records) {
            proof {
                let (a, b) = choose|a: int, b: int|
                    0 <= a < b < records@.len() && (#[trigger] records@[a]).id == (
                    #[trigger] records@[b]).id && records@[a].id == x;
                assert(row_id(rs[0], rs[a + 1]) == row_id(rs[0], rs[b + 1]));
            }
            return Err(Error::DuplicateId(x));
        }
        proof {
            assert forall|i: int, j: int|
                1 <= i < j < rs.len() implies row_id(rs[0], #[trigger] rs[i]) != row_id(
                rs[0],
                #[trigger] rs[j],
            ) by {
                assert(records@[i - 1].id == row_id(rs[0], rs[i]));
                assert(records@[j - 1].id == row_id(rs[0], rs[j]));
            }
        }
        if let Some(s) = Wcvp::find_duplicate_powo(&records) {
            proof {
                let (a, b) = choose|a: int, b: int|
                    0 <= a < b < records@.len() && (#[trigger] records@[a]).powo_id@ == (
                    #[trigger] records@[b]).powo_id@ && records@[a].powo_id@ == s@;
                assert(row_powo(rs[0], rs[a + 1]) == row_powo(rs[0], rs[b + 1]));
            }
            return Err(Error::DuplicatePowoId(s));
        }
        proof {
            assert forall|i: int, j: int|
                1 <= i < j < rs.len() implies row_powo(rs[0], #[trigger] rs[i]) != row_powo(
                rs[0],
                #[trigger] rs[j],
            ) by {
                assert(records@[i - 1].powo_id@ == row_powo(rs[0], rs[i]));
                assert(records@[j - 1].powo_id@ == row_powo(rs[0], rs[j]));
            }
        }
        if records.len() != (metadata.rows as usize) {
            return Err(Error::RowCountMismatch(metadata.rows, records.len()));
        }
        let statistics = Statistics::calculate(&records);
        Ok(Wcvp { metadata, records, statistics })
    }

    /// A primary identifier two records share, if any.
    fn find_duplicate_id(records: &Vec<Data>) -> (r: Option<u32>)
        ensures
            match r {
                Some(x) => exists|i: int, j: int|
                    0 <= i < j < records@.len() && (#[trigger] records@[i]).id == (
                    #[trigger] records@[j]).id && records@[i].id == x,
                None => unique_ids(records@),
            },
    {
        let mut j: usize = 0;
        while j < records.len()
            invariant
                j <= records@.len(),
                forall|a: int, b: int|
                    0 <= a < b < j ==> (#[trigger] records@[a]).id != (#[trigger] records@[b]).id,
            decreases records@.len() - j,
        {
            let mut i: usize = 0;
            while i < j
                invariant
                    i <= j < records@.len(),
                    forall|a: int| 0 <= a < i ==> (#[trigger] records@[a]).id != records@[j as int].id,
                decreases j - i,
            {
                if records[i].id == records[j].id {
                    return Some(records[i].id);
                }
                i = i + 1;
            }
            j = j + 1;
        }
        None
    }

    /// An external identifier two records share, if any.
    fn find_duplicate_powo(records: &Vec<Data>) -> (r: Option<String>)
        ensures
            match r {
                Some(s) => exists|i: int, j: int|
                    0 <= i < j < records@.len() && (#[trigger] records@[i]).powo_id@ == (
                    #[trigger] records@[j]).powo_id@ && records@[i].powo_id@ == s@,
                None => unique_powos(records@),
            },
    {
        let mut j: usize = 0;
        while j < records.len()
            invariant
                j <= records@.len(),
                forall|a: int, b: int|
                    0 <= a < b < j ==> (#[trigger] records@[a]).powo_id@ != (
                    #[trigger] records@[b]).powo_id@,
            decreases records@.len() - j,
        {
            let mut i: usize = 0;
            while i < j
                invariant
                    i <= j < records@.len(),
                    forall|a: int|
                        0 <= a < i ==> (#[trigger] records@[a]).powo_id@ != records@[j as int].powo_id@,
                decreases j - i,
            {
                if text::text_eq(records[i].powo_id.as_str(), records[j].powo_id.as_str()) {
                    return Some(records[i].powo_id.clone());
                }
                i = i + 1;
            }
            j = j + 1;
        }
        None
    }

    /// Load a dataset from the bytes of the whole archive: read the
    /// spreadsheet entry and the table entry, then build from the parts.
    pub fn from_bytes(bytes: &Vec<u8>) -> (r: Result<Wcvp, Error>)
        ensures
            match r {
                Ok(w) => bytes_ok(bytes@) && w.wf() && ({
                    let cs = sheet_cells_of(
                        zip_entry_of(bytes@, "README_WCVP.xlsx"@).unwrap(),
                        "README"@,
                    ).unwrap();
                    let tb = zip_entry_of(bytes@, "wcvp_names.csv"@).unwrap();
                    w.loaded_from(cs, tb)
                }),
                Err(e) => !bytes_ok(bytes@) && bytes_err(bytes@, e),
            },
    {
        let meta_bytes = match read_archive_entry(bytes, "README_WCVP.xlsx") {
            Ok(v) => v,
            Err(msg) => {
                return Err(Error::Archive(msg));
            },
        };
        let cells = match read_sheet_text_cells(&meta_bytes, "README") {
            Ok(cells) => cells,
            Err(msg) => {
                return Err(Error::Spreadsheet(msg));
            },
        };
        let table_bytes = match read_archive_entry(bytes, "wcvp_names.csv") {
            Ok(v) => v,
            Err(msg) => {
                return Err(Error::Archive(msg));
            },
        };
        Wcvp::from_parts(&cells, &table_bytes)
    }

    /// How many records the dataset holds.
    pub fn len(&self) -> (r: usize)
        ensures
            r == self.records_view().len(),
    {
        self.records.len()
    }

    #[must_use]
    pub fn is_empty(&self) -> (r: bool)
        ensures
            r == (self.records_view().len() == 0),
    {
        self.records.is_empty()
    }

    /// All records, in table order.
    pub fn data(&self) -> (r: &Vec<Data>)
        ensures
            r@ == self.records_view(),
    {
        &self.records
    }

    pub fn metadata(&self) -> (r: &Metadata)
        ensures
            *r == self.metadata_view(),
    {
        &self.metadata
    }

    /// Point lookup by primary identifier; absent identifiers yield
    /// nothing.
    pub fn from_id(&self, id: u32) -> (r: Option<&Data>)
        ensures
            match r {
                Some(d) => d.id == id && self.records_view().contains(*d),
                None => forall|i: int|
                    0 <= i < self.records_view().len() ==> (#[trigger] self.records_view()[i]).id
                        != id,
            },
    {
        let mut i: usize = 0;
        while i < self.records.len()
            invariant
                i <= self.records@.len(),
                forall|a: int| 0 <= a < i ==> (#[trigger] self.records@[a]).id != id,
            decreases self.records@.len() - i,
        {
            if self.records[i].id == id {
                return Some(&self.records[i]);
            }
            i = i + 1;
        }
        None
    }

    /// Point lookup by external identifier; absent identifiers yield
    /// nothing.
    pub fn from_powo(&self, powo: &str) -> (r: Option<&Data>)
        ensures
            match r {
                Some(d) => d.powo_id@ == powo@ && self.records_view().contains(*d),
                None => forall|i: int|
                    0 <= i < self.records_view().len() ==> (
                    #[trigger] self.records_view()[i]).powo_id@ != powo@,
            },
    {
        let mut i: usize = 0;
        while i < self.records.len()
            invariant
                i <= self.records@.len(),
                forall|a: int| 0 <= a < i ==> (#[trigger] self.records@[a]).powo_id@ != powo@,
            decreases self.records@.len() - i,
        {
            if text::text_eq(self.records[i].powo_id.as_str(), powo) {
                return Some(&self.records[i]);
            }
            i = i + 1;
        }
        None
    }

    /// The statistics computed at load.
    pub fn statistics(&self) -> (r: &Statistics)
        ensures
            *r == self.statistics_view(),
    {
        &self.statistics
    }
}

/// The archive's bytes make a loadable dataset.
pub open spec fn bytes_ok(bytes: Seq<u8>) -> bool {
    &&& zip_entry_of(bytes, "README_WCVP.xlsx"@) matches Some(mb) && sheet_cells_of(mb, "README"@)
        matches Some(cs) && zip_entry_of(bytes, "wcvp_names.csv"@) matches Some(tb) && parts_ok(
        cs,
        tb,
    )
}

/// The error reported for archive bytes, by the first failing stage:
/// spreadsheet entry, worksheet decode, table entry, then the parts.
pub open spec fn bytes_err(bytes: Seq<u8>, e: Error) -> bool {
    if zip_entry_of(bytes, "README_WCVP.xlsx"@) is None {
        e matches Error::Archive(_)
    } else {
        let mb = zip_entry_of(bytes, "README_WCVP.xlsx"@).unwrap();
        if sheet_cells_of(mb, "README"@) is None {
            e matches Error::Spreadsheet(_)
        } else if zip_entry_of(bytes, "wcvp_names.csv"@) is None {
            e matches Error::Archive(_)
        } else {
            parts_err(
                sheet_cells_of(mb, "README"@).unwrap(),
                zip_entry_of(bytes, "wcvp_names.csv"@).unwrap(),
                e,
            )
        }
    }
}

/// A successfully loaded dataset holds exactly as many records as its
/// metadata declares.
pub proof fn lemma_record_count_matches_rows(w: Wcvp)
    requires
        w.wf(),
    ensures
        w.records_view().len() == w.metadata_view().rows,
{
}

/// Primary identifiers are unique among the loaded records.
pub proof fn lemma_ids_unique(w: Wcvp)
    requires
        w.wf(),
    ensures
        forall|i: int, j: int|
            0 <= i < j < w.records_view().len() ==> (#[trigger] w.records_view()[i]).id != (
            #[trigger] w.records_view()[j]).id,
{
}

/// Any record that matches the external identifier of the loaded record
/// at position `i` is that record: together with `from_powo`'s contract,
/// looking up a loaded record's external identifier yields the record.
pub proof fn lemma_powo_lookup_roundtrip(w: Wcvp, i: int, d: Data)
    requires
        w.wf(),
        0 <= i < w.records_view().len(),
        w.records_view().contains(d),
        d.powo_id@ == w.records_view()[i].powo_id@,
    ensures
        d == w.records_view()[i],
{
    let s = w.records_view();
    let j = choose|j: int| 0 <= j < s.len() && s[j] == d;
    assert(s[j].powo_id@ == s[i].powo_id@);
    if i < j {
        assert((#[trigger] s[i]).powo_id@ != (#[trigger] s[j]).powo_id@);
    } else if j < i {
        assert((#[trigger] s[j]).powo_id@ != (#[trigger] s[i]).powo_id@);
    }
}

/// The same round trip for the primary identifier.
pub proof fn lemma_id_lookup_roundtrip(w: Wcvp, i: int, d: Data)
    requires
        w.wf(),
        0 <= i < w.records_view().len(),
        w.records_view().contains(d),
        d.id == w.records_view()[i].id,
    ensures
        d == w.records_view()[i],
{
    let s = w.records_view();
    let j = choose|j: int| 0 <= j < s.len() && s[j] == d;
    assert(s[j].id == s[i].id);
    if i < j {
        assert((#[trigger] s[i]).id != (#[trigger] s[j]).id);
    } else if j < i {
        assert((#[trigger] s[j]).id != (#[trigger] s[i]).id);
    }
}

/// The statistics of a loaded dataset account for every record: the rank
/// counts sum to the record count, and each optional-field table sums to
/// the number of records that carry the field.
pub proof fn lemma_statistics_totals(w: Wcvp)
    requires
        w.wf(),
    ensures
        w.statistics_view().ranks_stat().total() == w.records_view().len(),
        w.statistics_view().lifeform_stat().total() == statistics::count_with_lifeform(
            w.records_view(),
        ),
        w.statistics_view().area_stat().total() == statistics::count_with_area(w.records_view()),
{
}

} // verus!
