//! Release metadata extracted from the archive's spreadsheet entry: a
//! three-slot scan over the worksheet's textual cells, then a strict
//! decode of the version, extraction-date and row-count markers.

use vstd::prelude::*;
use crate::date::{spec_parse_dmy, Date};
use crate::error::Error;
use crate::text;
use crate::wcvp::version::Version;

verus! {

/// What the spreadsheet decoder yields for given bytes and worksheet
/// name: the worksheet's textual cells in document order, or nothing
/// when the bytes or the name are not accepted.
pub uninterp spec fn sheet_cells_of(bytes: Seq<u8>, sheet: Seq<char>) -> Option<Seq<Seq<char>>>;

/// Relies on calamine's `Xlsx` reader (`open_workbook_from_rs`,
/// `worksheet_cells_reader`, `next_cell`): the inline- and shared-string
/// cells of the named worksheet, in document order; the outcome is a
/// function of the bytes and the name alone.
#[verifier::external_body]
pub(crate) fn read_sheet_text_cells(bytes: &Vec<u8>, sheet: &str) -> (r: Result<Vec<String>, String>)
    ensures
        match r {
            Ok(cells) => sheet_cells_of(bytes@, sheet@) == Some(cells.deep_view()),
            Err(_) => sheet_cells_of(bytes@, sheet@) is None,
        },
{
    let cur = std::io::Cursor::new(bytes.clone());
    let mut wb: calamine::Xlsx<std::io::Cursor<Vec<u8>>> = calamine::open_workbook_from_rs(cur)
        .map_err(|e| format!("{e}"))?;
    let mut rd = wb.worksheet_cells_reader(sheet).map_err(|e| format!("{e}"))?;
    let mut out = Vec::new();
    while let Ok(Some(cell)) = rd.next_cell() {
        match cell.get_value() {
            calamine::DataRef::String(s) => out.push(s.clone()),
            calamine::DataRef::SharedString(s) => out.push(s.to_string()),
            _ => {},
        }
    }
    Ok(out)
}

/// The first cell that begins with the marker `p`, if any.
pub open spec fn first_match(cells: Seq<Seq<char>>, p: Seq<char>) -> Option<Seq<char>>
    decreases cells.len(),
{
    if cells.len() == 0 {
        None
    } else if text::is_prefix(p, cells.first()) {
        Some(cells.first())
    } else {
        first_match(cells.drop_first(), p)
    }
}

proof fn lemma_first_match_at(cs: Seq<Seq<char>>, p: Seq<char>, i: int)
    requires
        0 <= i < cs.len(),
        forall|k: int| 0 <= k < i ==> !text::is_prefix(p, #[trigger] cs[k]),
        text::is_prefix(p, cs[i]),
    ensures
        first_match(cs, p) == Some(cs[i]),
    decreases i,
{
    if i == 0 {
    } else {
        assert(!text::is_prefix(p, cs[0]));
        let c1 = cs.drop_first();
        assert forall|k: int| 0 <= k < i - 1 implies !text::is_prefix(p, #[trigger] c1[k]) by {
            assert(c1[k] == cs[k + 1]);
            assert(!text::is_prefix(p, cs[k + 1]));
        }
        assert(c1[i - 1] == cs[i]);
        lemma_first_match_at(c1, p, i - 1);
    }
}

proof fn lemma_first_match_none(cs: Seq<Seq<char>>, p: Seq<char>)
    requires
        forall|k: int| 0 <= k < cs.len() ==> !text::is_prefix(p, #[trigger] cs[k]),
    ensures
        first_match(cs, p) is None,
    decreases cs.len(),
{
    if cs.len() > 0 {
        let c1 = cs.drop_first();
        assert forall|k: int| 0 <= k < c1.len() implies !text::is_prefix(p, #[trigger] c1[k]) by {
            assert(c1[k] == cs[k + 1]);
            assert(!text::is_prefix(p, cs[k + 1]));
        }
        lemma_first_match_none(c1, p);
    }
}

/// The version number declared by a version cell: the text after the
/// literal `"Version "` prefix, quote characters removed, as a number.
pub open spec fn spec_version_num(cell: Seq<char>) -> Option<u32> {
    if text::is_prefix("Version "@, cell) {
        text::spec_parse_u32(text::remove_ch(cell.skip("Version "@.len() as int), '"'))
    } else {
        None
    }
}

/// The date declared by an extraction cell: the text after the literal
/// `"Extracted: "` prefix, read as day/month/year.
pub open spec fn spec_extracted_date(cell: Seq<char>) -> Option<Date> {
    if text::is_prefix("Extracted: "@, cell) {
        spec_parse_dmy(cell.skip("Extracted: "@.len() as int))
    } else {
        None
    }
}

/// The row count declared by a table cell: the text left of the first
/// `"rows and"` marker, after the literal `"Table: "` prefix, commas
/// removed and spaces trimmed, as a number.
pub open spec fn spec_rows_num(cell: Seq<char>) -> Option<u32> {
    match spec_find_sub(cell, "rows and"@) {
        Some(i) => {
            let left = cell.take(i);
            if text::is_prefix("Table: "@, left) {
                text::spec_parse_u32(
                    text::spec_trim(
                        text::remove_ch(left.skip("Table: "@.len() as int), ','),
                    ),
                )
            } else {
                None
            }
        },
        None => None,
    }
}

/// Position of the first occurrence of `p` in `s`, if any.
pub open spec fn spec_find_sub(s: Seq<char>, p: Seq<char>) -> Option<int>
    decreases s.len(),
{
    if p.len() > s.len() {
        None
    } else if s.take(p.len() as int) == p {
        Some(0)
    } else if s.len() == p.len() {
        None
    } else {
        match spec_find_sub(s.drop_first(), p) {
            Some(i) => Some(i + 1),
            None => None,
        }
    }
}

proof fn lemma_find_sub_some(s: Seq<char>, p: Seq<char>, i: int)
    requires
        text::occurs_at(s, p, i),
        forall|k: int| 0 <= k < i ==> !text::occurs_at(s, p, k),
    ensures
        spec_find_sub(s, p) == Some(i),
    decreases i,
{
    if i == 0 {
        assert(s.take(p.len() as int) =~= p);
    } else {
        assert(!text::occurs_at(s, p, 0));
        assert(s.take(p.len() as int) != p) by {
            if s.take(p.len() as int) == p {
                assert forall|j: int| 0 <= j < p.len() implies s[0 + j] == #[trigger] p[j] by {
                    assert(s.take(p.len() as int)[j] == p[j]);
                }
                assert(text::occurs_at(s, p, 0));
            }
        }
        assert(s.len() > p.len()) by {
            assert(i + p.len() <= s.len());
        }
        let s1 = s.drop_first();
        assert(text::occurs_at(s1, p, i - 1)) by {
            assert forall|j: int| 0 <= j < p.len() implies s1[(i - 1) + j] == #[trigger] p[j] by {
                assert(s1[(i - 1) + j] == s[i + j]);
            }
        }
        assert forall|k: int| 0 <= k < i - 1 implies !text::occurs_at(s1, p, k) by {
            if text::occurs_at(s1, p, k) {
                assert forall|j: int| 0 <= j < p.len() implies s[(k + 1) + j] == #[trigger] p[j] by {
                    assert(s1[k + j] == s[k + 1 + j]);
                }
                assert(text::occurs_at(s, p, k + 1));
            }
        }
        lemma_find_sub_some(s1, p, i - 1);
    }
}

proof fn lemma_find_sub_none(s: Seq<char>, p: Seq<char>)
    requires
        forall|k: int| !text::occurs_at(s, p, k),
    ensures
        spec_find_sub(s, p) is None,
    decreases s.len(),
{
    if p.len() > s.len() {
    } else {
        assert(s.take(p.len() as int) != p) by {
            if s.take(p.len() as int) == p {
                assert forall|j: int| 0 <= j < p.len() implies s[0 + j] == #[trigger] p[j] by {
                    assert(s.take(p.len() as int)[j] == p[j]);
                }
                assert(text::occurs_at(s, p, 0));
            }
        }
        if s.len() > p.len() {
            let s1 = s.drop_first();
            assert forall|k: int| !text::occurs_at(s1, p, k) by {
                if text::occurs_at(s1, p, k) {
                    assert forall|j: int| 0 <= j < p.len() implies s[(k + 1) + j] == #[trigger] p[j] by {
                        assert(s1[k + j] == s[k + 1 + j]);
                    }
                    assert(text::occurs_at(s, p, k + 1));
                }
            }
            lemma_find_sub_none(s1, p);
        }
    }
}

/// All three markers are found and decode.
pub open spec fn meta_ok(cs: Seq<Seq<char>>) -> bool {
    &&& first_match(cs, "Version"@) matches Some(vc) && spec_version_num(vc) matches Some(n)
        && Version::spec_from_number(n) is Some
    &&& first_match(cs, "Extracted"@) matches Some(ec) && spec_extracted_date(ec) is Some
    &&& first_match(cs, "Table"@) matches Some(rc) && spec_rows_num(rc) is Some
}

/// The metadata value carried by the cells, when `meta_ok` holds.
pub open spec fn meta_value(cs: Seq<Seq<char>>, m: Metadata) -> bool {
    &&& first_match(cs, "Version"@) matches Some(vc) && spec_version_num(vc) matches Some(n)
        && Version::spec_from_number(n) == Some(m.version)
    &&& first_match(cs, "Extracted"@) matches Some(ec) && spec_extracted_date(ec) == Some(
        m.extracted,
    )
    &&& first_match(cs, "Table"@) matches Some(rc) && spec_rows_num(rc) == Some(m.rows)
}

/// The error reported for the cells, determined by the first failing
/// bucket in the order version, extraction date, row count.
pub open spec fn meta_err(cs: Seq<Seq<char>>, e: Error) -> bool {
    if first_match(cs, "Version"@) is None {
        e matches Error::EmptyVersion
    } else if spec_version_num(first_match(cs, "Version"@).unwrap()) is None {
        e matches Error::InvalidVersionText(s) && s@ == first_match(cs, "Version"@).unwrap()
    } else if Version::spec_from_number(
        spec_version_num(first_match(cs, "Version"@).unwrap()).unwrap(),
    ) is None {
        e matches Error::InvalidVersion(n) && n == spec_version_num(
            first_match(cs, "Version"@).unwrap(),
        ).unwrap()
    } else if first_match(cs, "Extracted"@) is None {
        e matches Error::EmptyExtractedDate
    } else if spec_extracted_date(first_match(cs, "Extracted"@).unwrap()) is None {
        e matches Error::DateParse(s) && s@ == first_match(cs, "Extracted"@).unwrap()
    } else if first_match(cs, "Table"@) is None {
        e matches Error::EmptyRowCount
    } else {
        spec_rows_num(first_match(cs, "Table"@).unwrap()) is None && (e matches
        Error::InvalidRowCount(s) && s@ == first_match(cs, "Table"@).unwrap())
    }
}

/// Validated release metadata of a loaded archive.
#[derive(Debug, Clone)]
pub struct Metadata {
    /// The recognized release.
    pub version: Version,
    /// The date the dataset was extracted.
    pub extracted: Date,
    /// The declared number of table rows.
    pub rows: u32,
}

/// Find the first cell beginning with `marker`, keeping a copy.
fn scan_first(cells: &Vec<String>, marker: &str) -> (r: Option<String>)
    ensures
        match r {
            Some(s) => first_match(cells.deep_view(), marker@) == Some(s@),
            None => first_match(cells.deep_view(), marker@) is None,
        },
{
    let p = text::chars_of(marker);
    let ghost cs = cells.deep_view();
    let mut i: usize = 0;
    while i < cells.len()
        invariant
            cs == cells.deep_view(),
            p@ == marker@,
            i <= cells@.len(),
            cs.len() == cells@.len(),
            forall|k: int| 0 <= k < i ==> !text::is_prefix(marker@, #[trigger] cs[k]),
        decreases cells@.len() - i,
    {
        let v = text::chars_of(cells[i].as_str());
        if text::starts_with(&v, &p) {
            proof {
                lemma_first_match_at(cs, marker@, i as int);
            }
            return Some(cells[i].clone());
        }
        i = i + 1;
    }
    proof {
        lemma_first_match_none(cs, marker@);
    }
    None
}

impl Metadata {
    /// Derive validated metadata from the worksheet's textual cells: the
    /// first cell of each marker is retained, then each bucket is decoded
    /// independently.
    pub fn extract(cells: &Vec<String>) -> (r: Result<Metadata, Error>)
        ensures
            match r {
                Ok(m) => meta_ok(cells.deep_view()) && meta_value(cells.deep_view(), m),
                Err(e) => !meta_ok(cells.deep_view()) && meta_err(cells.deep_view(), e),
            },
    {
        let version_cell = scan_first(cells, "Version");
        let extracted_cell = scan_first(cells, "Extracted");
        let rows_cell = scan_first(cells, "Table");

        let version = match &version_cell {
            Some(cell) => {
                match Metadata::decode_version_cell(cell) {
                    Ok(v) => v,
                    Err(e) => {
                        return Err(e);
                    },
                }
            },
            None => {
                return Err(Error::EmptyVersion);
            },
        };
        let extracted = match &extracted_cell {
            Some(cell) => {
                match Metadata::decode_extracted_cell(cell) {
                    Ok(d) => d,
                    Err(e) => {
                        return Err(e);
                    },
                }
            },
            None => {
                return Err(Error::EmptyExtractedDate);
            },
        };
        let rows = match &rows_cell {
            Some(cell) => {
                match Metadata::decode_rows_cell(cell) {
                    Ok(n) => n,
                    Err(e) => {
                        return Err(e);
                    },
                }
            },
            None => {
                return Err(Error::EmptyRowCount);
            },
        };
        Ok(Metadata { version, extracted, rows })
    }

    /// Decode a version cell into a recognized release.
    pub fn decode_version_cell(cell: &String) -> (r: Result<Version, Error>)
        ensures
            match r {
                Ok(v) => spec_version_num(cell@) matches Some(n) && Version::spec_from_number(n)
                    == Some(v),
                Err(e) => match e {
                    Error::InvalidVersionText(s) => spec_version_num(cell@) is None && s@
                        == cell@,
                    Error::InvalidVersion(n) => spec_version_num(cell@) == Some(n)
                        && Version::spec_from_number(n) is None,
                    _ => false,
                },
            },
    {
        let v = text::chars_of(cell.as_str());
        let p = text::chars_of("Version ");
        if !text::starts_with(&v, &p) {
            return Err(Error::InvalidVersionText(cell.clone()));
        }
        let rest = text::take_range(&v, p.len(), v.len());
        let digits = text::remove_char(&rest, '"');
        let n = match text::parse_u32(&digits) {
            Some(n) => n,
            None => {
                return Err(Error::InvalidVersionText(cell.clone()));
            },
        };
        Version::from_number(n)
    }

    /// Decode an extraction-date cell into a calendar date.
    pub fn decode_extracted_cell(cell: &String) -> (r: Result<Date, Error>)
        ensures
            match r {
                Ok(d) => spec_extracted_date(cell@) == Some(d),
                Err(e) => spec_extracted_date(cell@) is None && (e matches Error::DateParse(s)
                    && s@ == cell@),
            },
    {
        let v = text::chars_of(cell.as_str());
        let p = text::chars_of("Extracted: ");
        if !text::starts_with(&v, &p) {
            return Err(Error::DateParse(cell.clone()));
        }
        let rest = text::take_range(&v, p.len(), v.len());
        match Date::parse_dmy_chars(&rest) {
            Some(d) => Ok(d),
            None => Err(Error::DateParse(cell.clone())),
        }
    }

    /// Decode a row-count cell into the declared number of rows.
    pub fn decode_rows_cell(cell: &String) -> (r: Result<u32, Error>)
        ensures
            match r {
                Ok(n) => spec_rows_num(cell@) == Some(n),
                Err(e) => spec_rows_num(cell@) is None && (e matches Error::InvalidRowCount(s)
                    && s@ == cell@),
            },
    {
        let v = text::chars_of(cell.as_str());
        let marker = text::chars_of("rows and");
        let idx = match text::find_sub(&v, &marker) {
            Some(i) => i,
            None => {
                proof {
                    lemma_find_sub_none(cell@, "rows and"@);
                }
                return Err(Error::InvalidRowCount(cell.clone()));
            },
        };
        proof {
            lemma_find_sub_some(cell@, "rows and"@, idx as int);
        }
        let left = text::take_range(&v, 0, idx);
        let p = text::chars_of("Table: ");
        if !text::starts_with(&left, &p) {
            return Err(Error::InvalidRowCount(cell.clone()));
        }
        let rest = text::take_range(&left, p.len(), left.len());
        let no_commas = text::remove_char(&rest, ',');
        let trimmed = text::trim(&no_commas);
        match text::parse_u32(&trimmed) {
            Some(n) => Ok(n),
            None => Err(Error::InvalidRowCount(cell.clone())),
        }
    }
}

} // verus!
