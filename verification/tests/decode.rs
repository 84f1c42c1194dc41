use wcvp::{decode_reviewed, Climate, Date, Error, HybridType, Metadata, Status, TaxonRank, Version};

#[test]
fn reviewed_flag_three_valued_domain() {
    assert_eq!(decode_reviewed("Y"), Some(true));
    assert_eq!(decode_reviewed(""), Some(false));
    assert_eq!(decode_reviewed("N"), Some(false));
    assert_eq!(decode_reviewed("y"), None);
    assert_eq!(decode_reviewed("TRUE"), None);
    assert_eq!(decode_reviewed(" Y"), None);
}

#[test]
fn version_table_recognizes_fifteen_only() {
    assert!(matches!(Version::from_number(15), Ok(Version::V15)));
    assert!(matches!(Version::from_number(16), Err(Error::InvalidVersion(16))));
    assert!(matches!(Version::from_number(0), Err(Error::InvalidVersion(0))));
    assert_eq!(Version::V15.number(), 15);
}

#[test]
fn version_cell_decodes() {
    let cell = String::from("Version 15");
    assert!(matches!(Metadata::decode_version_cell(&cell), Ok(Version::V15)));
    let quoted = String::from("Version \"15\"");
    assert!(matches!(Metadata::decode_version_cell(&quoted), Ok(Version::V15)));
    let sixteen = String::from("Version 16");
    assert!(matches!(
        Metadata::decode_version_cell(&sixteen),
        Err(Error::InvalidVersion(16))
    ));
    let words = String::from("Version next");
    match Metadata::decode_version_cell(&words) {
        Err(Error::InvalidVersionText(s)) => assert_eq!(s, "Version next"),
        other => panic!("unexpected outcome: {:?}", other),
    }
}

#[test]
fn date_cell_decodes_day_month_year() {
    assert_eq!(
        Date::parse_dmy("04/03/2021"),
        Some(Date { day: 4, month: 3, year: 2021 })
    );
    assert_eq!(Date::parse_dmy("29/02/2020"), Some(Date { day: 29, month: 2, year: 2020 }));
    assert_eq!(Date::parse_dmy("29/02/2021"), None);
    assert_eq!(Date::parse_dmy("31/04/2021"), None);
    assert_eq!(Date::parse_dmy("00/03/2021"), None);
    assert_eq!(Date::parse_dmy("04/13/2021"), None);
    assert_eq!(Date::parse_dmy("4/3/2021"), None);
    assert_eq!(Date::parse_dmy("2021-03-04"), None);
}

#[test]
fn extracted_cell_decodes() {
    let cell = String::from("Extracted: 04/03/2021");
    match Metadata::decode_extracted_cell(&cell) {
        Ok(d) => assert_eq!(d, Date { day: 4, month: 3, year: 2021 }),
        other => panic!("unexpected outcome: {:?}", other),
    }
    let bad = String::from("Extracted: March 4th");
    match Metadata::decode_extracted_cell(&bad) {
        Err(Error::DateParse(s)) => assert_eq!(s, "Extracted: March 4th"),
        other => panic!("unexpected outcome: {:?}", other),
    }
}

#[test]
fn row_count_cell_decodes_with_thousands_separators() {
    let cell = String::from("Table: 1,234 rows and 9 columns");
    match Metadata::decode_rows_cell(&cell) {
        Ok(n) => assert_eq!(n, 1234),
        other => panic!("unexpected outcome: {:?}", other),
    }
    let big = String::from("Table: 1,234,567 rows and 9 columns");
    match Metadata::decode_rows_cell(&big) {
        Ok(n) => assert_eq!(n, 1234567),
        other => panic!("unexpected outcome: {:?}", other),
    }
    let no_marker = String::from("Table: 1,234 entries");
    match Metadata::decode_rows_cell(&no_marker) {
        Err(Error::InvalidRowCount(s)) => assert_eq!(s, "Table: 1,234 entries"),
        other => panic!("unexpected outcome: {:?}", other),
    }
    let no_number = String::from("Table: many rows and 9 columns");
    assert!(matches!(
        Metadata::decode_rows_cell(&no_number),
        Err(Error::InvalidRowCount(_))
    ));
}

#[test]
fn metadata_extract_scans_buckets_in_any_order() {
    let cells: Vec<String> = vec![
        String::from("World Checklist of Vascular Plants"),
        String::from("Table: 2 rows and 9 columns"),
        String::from("Extracted: 04/03/2021"),
        String::from("Version 15"),
    ];
    let m = Metadata::extract(&cells).expect("metadata should extract");
    assert!(matches!(m.version, Version::V15));
    assert_eq!(m.extracted, Date { day: 4, month: 3, year: 2021 });
    assert_eq!(m.rows, 2);
}

#[test]
fn metadata_extract_keeps_first_cell_per_bucket() {
    let cells: Vec<String> = vec![
        String::from("Version 15"),
        String::from("Version 16"),
        String::from("Extracted: 04/03/2021"),
        String::from("Table: 7 rows and 9 columns"),
        String::from("Table: 9 rows and 9 columns"),
    ];
    let m = Metadata::extract(&cells).expect("metadata should extract");
    assert!(matches!(m.version, Version::V15));
    assert_eq!(m.rows, 7);
}

#[test]
fn metadata_extract_reports_missing_buckets() {
    let none: Vec<String> = vec![String::from("nothing here")];
    assert!(matches!(Metadata::extract(&none), Err(Error::EmptyVersion)));
    let no_date: Vec<String> = vec![
        String::from("Version 15"),
        String::from("Table: 2 rows and 9 columns"),
    ];
    assert!(matches!(Metadata::extract(&no_date), Err(Error::EmptyExtractedDate)));
    let no_rows: Vec<String> = vec![
        String::from("Version 15"),
        String::from("Extracted: 04/03/2021"),
    ];
    assert!(matches!(Metadata::extract(&no_rows), Err(Error::EmptyRowCount)));
}

#[test]
fn metadata_extract_rejects_unrecognized_version() {
    let cells: Vec<String> = vec![
        String::from("Version 16"),
        String::from("Extracted: 04/03/2021"),
        String::from("Table: 2 rows and 9 columns"),
    ];
    assert!(matches!(Metadata::extract(&cells), Err(Error::InvalidVersion(16))));
}

#[test]
fn climate_vocabulary() {
    assert!(matches!(Climate::decode("wet tropical"), Some(Climate::WetTropical)));
    assert!(matches!(Climate::decode("temperate"), Some(Climate::Temperate)));
    assert!(matches!(
        Climate::decode("temperate, subtropical or tropical"),
        Some(Climate::TemperateOrTropicalOrSubtropical)
    ));
    assert_eq!(Climate::decode("Wet Tropical"), None);
    assert_eq!(Climate::decode(""), None);
}

#[test]
fn status_vocabulary() {
    assert!(matches!(Status::decode("Accepted"), Some(Status::Accepted)));
    assert!(matches!(Status::decode("Artificial Hybrid"), Some(Status::ArtificialHybrid)));
    assert!(matches!(
        Status::decode("Provisionally Accepted"),
        Some(Status::ProvisionallyAccepted)
    ));
    assert_eq!(Status::decode("accepted"), None);
}

#[test]
fn rank_vocabulary_and_empty_cell() {
    assert!(matches!(TaxonRank::decode("Species"), Some(TaxonRank::Species)));
    assert!(matches!(TaxonRank::decode("nothosubsp."), Some(TaxonRank::NothoSubspecies)));
    assert!(matches!(TaxonRank::decode(""), Some(TaxonRank::NotRanked)));
    assert!(matches!(TaxonRank::decode("lusus"), Some(TaxonRank::Lusus)));
    assert_eq!(TaxonRank::decode("species"), None);
}

#[test]
fn hybrid_vocabulary() {
    assert!(matches!(HybridType::decode("+"), Some(HybridType::GraftChimera)));
    assert!(matches!(HybridType::decode("×"), Some(HybridType::Hybrid)));
    assert_eq!(HybridType::decode("x"), None);
}
