use std::io::Write;
use wcvp::{Error, TaxonRank, Version, Wcvp};

const CONTENT_TYPES: &str = r#"<?xml version="1.0" encoding="UTF-8" standalone="yes"?><Types xmlns="http://schemas.openxmlformats.org/package/2006/content-types"><Default Extension="rels" ContentType="application/vnd.openxmlformats-package.relationships+xml"/><Default Extension="xml" ContentType="application/xml"/><Override PartName="/xl/workbook.xml" ContentType="application/vnd.openxmlformats-officedocument.spreadsheetml.sheet.main+xml"/><Override PartName="/xl/worksheets/sheet1.xml" ContentType="application/vnd.openxmlformats-officedocument.spreadsheetml.worksheet+xml"/></Types>"#;

const ROOT_RELS: &str = r#"<?xml version="1.0" encoding="UTF-8" standalone="yes"?><Relationships xmlns="http://schemas.openxmlformats.org/package/2006/relationships"><Relationship Id="rId1" Type="http://schemas.openxmlformats.org/officeDocument/2006/relationships/officeDocument" Target="xl/workbook.xml"/></Relationships>"#;

const WORKBOOK: &str = r#"<?xml version="1.0" encoding="UTF-8" standalone="yes"?><workbook xmlns="http://schemas.openxmlformats.org/spreadsheetml/2006/main" xmlns:r="http://schemas.openxmlformats.org/officeDocument/2006/relationships"><sheets><sheet name="README" sheetId="1" r:id="rId1"/></sheets></workbook>"#;

const WORKBOOK_RELS: &str = r#"<?xml version="1.0" encoding="UTF-8" standalone="yes"?><Relationships xmlns="http://schemas.openxmlformats.org/package/2006/relationships"><Relationship Id="rId1" Type="http://schemas.openxmlformats.org/officeDocument/2006/relationships/worksheet" Target="worksheets/sheet1.xml"/></Relationships>"#;

fn sheet_xml(cells: &[&str]) -> String {
    let mut body = String::from(
        r#"<?xml version="1.0" encoding="UTF-8" standalone="yes"?><worksheet xmlns="http://schemas.openxmlformats.org/spreadsheetml/2006/main"><sheetData>"#,
    );
    for (i, text) in cells.iter().enumerate() {
        body.push_str(&format!(
            "<row r=\"{r}\"><c r=\"A{r}\" t=\"inlineStr\"><is><t>{text}</t></is></c></row>",
            r = i + 1,
            text = text,
        ));
    }
    body.push_str("</sheetData></worksheet>");
    body
}

fn readme_xlsx(cells: &[&str]) -> Vec<u8> {
    let cur = std::io::Cursor::new(Vec::new());
    let mut zip = zip::ZipWriter::new(cur);
    let opts = zip::write::SimpleFileOptions::default();
    zip.start_file("[Content_Types].xml", opts).unwrap();
    zip.write_all(CONTENT_TYPES.as_bytes()).unwrap();
    zip.start_file("_rels/.rels", opts).unwrap();
    zip.write_all(ROOT_RELS.as_bytes()).unwrap();
    zip.start_file("xl/workbook.xml", opts).unwrap();
    zip.write_all(WORKBOOK.as_bytes()).unwrap();
    zip.start_file("xl/_rels/workbook.xml.rels", opts).unwrap();
    zip.write_all(WORKBOOK_RELS.as_bytes()).unwrap();
    zip.start_file("xl/worksheets/sheet1.xml", opts).unwrap();
    zip.write_all(sheet_xml(cells).as_bytes()).unwrap();
    zip.finish().unwrap().into_inner()
}

fn table_text() -> String {
    let columns = [
        "plant_name_id",
        "ipni_id",
        "taxon_rank",
        "taxon_status",
        "family",
        "genus_hybrid",
        "genus",
        "species_hybrid",
        "species",
        "infraspecific_rank",
        "infraspecies",
        "parenthetical_author",
        "primary_author",
        "publication_author",
        "place_of_publication",
        "volume_and_page",
        "first_published",
        "nomenclatural_remarks",
        "geographic_area",
        "lifeform_description",
        "climate_description",
        "taxon_name",
        "taxon_authors",
        "accepted_plant_name_id",
        "basionym_plant_name_id",
        "replaced_synonym_author",
        "homotypic_synonym",
        "parent_plant_name_id",
        "powo_id",
        "hybrid_formula",
        "reviewed",
    ];
    let mut text = columns.join("|");
    text.push('\n');
    text.push_str(
        "1||Species|Accepted|Asteraceae||Bellis||perennis||||||||||Europe|perennial herb|temperate|Bellis perennis||1|||||969084-1||Y\n",
    );
    text.push_str(
        "2||Genus|Accepted|Asteraceae||Bellis|||||||||||||||Bellis||2|||||30000055-2||N\n",
    );
    text
}

fn archive_bytes(cells: &[&str], table: &str) -> Vec<u8> {
    let cur = std::io::Cursor::new(Vec::new());
    let mut zip = zip::ZipWriter::new(cur);
    let opts = zip::write::SimpleFileOptions::default();
    zip.start_file("README_WCVP.xlsx", opts).unwrap();
    zip.write_all(&readme_xlsx(cells)).unwrap();
    zip.start_file("wcvp_names.csv", opts).unwrap();
    zip.write_all(table.as_bytes()).unwrap();
    zip.finish().unwrap().into_inner()
}

#[test]
fn loads_a_whole_archive_end_to_end() {
    let cells = [
        "World Checklist of Vascular Plants",
        "Version 15",
        "Extracted: 04/03/2021",
        "Table: 2 rows and 9 columns",
    ];
    let bytes = archive_bytes(&cells, &table_text());
    let w = Wcvp::from_bytes(&bytes).expect("archive should load");
    assert_eq!(w.len(), 2);
    assert_eq!(w.metadata().rows, 2);
    assert!(matches!(w.metadata().version, Version::V15));
    assert_eq!(w.data().iter().count(), 2);
    let bellis = w.from_powo("969084-1").expect("secondary key lookup");
    assert_eq!(bellis.id, 1);
    assert!(matches!(bellis.taxon_rank, TaxonRank::Species));
    let ranks = w.statistics().taxon_ranks();
    let total: u64 = ranks.iter().map(|(_, c)| *c as u64).sum();
    assert_eq!(total, 2);
}

#[test]
fn garbage_bytes_are_an_archive_error() {
    let bytes = vec![0u8, 1, 2, 3, 4, 5];
    assert!(matches!(Wcvp::from_bytes(&bytes), Err(Error::Archive(_))));
}

#[test]
fn missing_table_entry_is_an_archive_error() {
    let cells = [
        "Version 15",
        "Extracted: 04/03/2021",
        "Table: 2 rows and 9 columns",
    ];
    let cur = std::io::Cursor::new(Vec::new());
    let mut zip = zip::ZipWriter::new(cur);
    let opts = zip::write::SimpleFileOptions::default();
    zip.start_file("README_WCVP.xlsx", opts).unwrap();
    zip.write_all(&readme_xlsx(&cells)).unwrap();
    let bytes = zip.finish().unwrap().into_inner();
    assert!(matches!(Wcvp::from_bytes(&bytes), Err(Error::Archive(_))));
}

#[test]
fn broken_spreadsheet_entry_is_a_spreadsheet_error() {
    let cur = std::io::Cursor::new(Vec::new());
    let mut zip = zip::ZipWriter::new(cur);
    let opts = zip::write::SimpleFileOptions::default();
    zip.start_file("README_WCVP.xlsx", opts).unwrap();
    zip.write_all(b"not a spreadsheet").unwrap();
    zip.start_file("wcvp_names.csv", opts).unwrap();
    zip.write_all(table_text().as_bytes()).unwrap();
    let bytes = zip.finish().unwrap().into_inner();
    assert!(matches!(Wcvp::from_bytes(&bytes), Err(Error::Spreadsheet(_))));
}
