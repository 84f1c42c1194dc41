use wcvp::{Climate, Error, Stat, Statistics, Status, TaxonRank, Version, Wcvp};

const COLUMNS: [&str; 31] = [
    "plant_name_id",
    "ipni_id",
    "taxon_rank",
    "taxon_status",
    "family",
    "genus_hybrid",
    "genus",
    "species_hybrid",
    "species",
    "infraspecific_rank",
    "infraspecies",
    "parenthetical_author",
    "primary_author",
    "publication_author",
    "place_of_publication",
    "volume_and_page",
    "first_published",
    "nomenclatural_remarks",
    "geographic_area",
    "lifeform_description",
    "climate_description",
    "taxon_name",
    "taxon_authors",
    "accepted_plant_name_id",
    "basionym_plant_name_id",
    "replaced_synonym_author",
    "homotypic_synonym",
    "parent_plant_name_id",
    "powo_id",
    "hybrid_formula",
    "reviewed",
];

fn header_line() -> String {
    COLUMNS.join("|")
}

struct RowSpec {
    id: &'static str,
    rank: &'static str,
    status: &'static str,
    genus: &'static str,
    area: &'static str,
    lifeform: &'static str,
    climate: &'static str,
    name: &'static str,
    powo: &'static str,
    reviewed: &'static str,
}

fn row_line(r: &RowSpec) -> String {
    let mut fields: Vec<String> = COLUMNS.iter().map(|_| String::new()).collect();
    fields[0] = r.id.to_string();
    fields[2] = r.rank.to_string();
    fields[3] = r.status.to_string();
    fields[4] = String::from("Asteraceae");
    fields[6] = r.genus.to_string();
    fields[18] = r.area.to_string();
    fields[19] = r.lifeform.to_string();
    fields[20] = r.climate.to_string();
    fields[21] = r.name.to_string();
    fields[28] = r.powo.to_string();
    fields[30] = r.reviewed.to_string();
    fields.join("|")
}

fn table_bytes(rows: &[RowSpec]) -> Vec<u8> {
    let mut text = header_line();
    for r in rows {
        text.push('\n');
        text.push_str(&row_line(r));
    }
    text.push('\n');
    text.into_bytes()
}

fn meta_cells(rows: u32) -> Vec<String> {
    vec![
        String::from("World Checklist of Vascular Plants"),
        String::from("Version 15"),
        String::from("Extracted: 04/03/2021"),
        format!("Table: {} rows and 9 columns", rows),
    ]
}

fn two_rows() -> Vec<RowSpec> {
    vec![
        RowSpec {
            id: "1",
            rank: "Species",
            status: "Accepted",
            genus: "Bellis",
            area: "Europe",
            lifeform: "perennial herb",
            climate: "temperate",
            name: "Bellis perennis",
            powo: "969084-1",
            reviewed: "Y",
        },
        RowSpec {
            id: "2",
            rank: "Genus",
            status: "Accepted",
            genus: "Bellis",
            area: "",
            lifeform: "",
            climate: "",
            name: "Bellis",
            powo: "30000055-2",
            reviewed: "N",
        },
    ]
}

#[test]
fn loads_and_answers_queries() {
    let table = table_bytes(&two_rows());
    let w = Wcvp::from_parts(&meta_cells(2), &table).expect("load should succeed");

    assert_eq!(w.len(), 2);
    assert!(!w.is_empty());
    assert_eq!(w.metadata().rows, 2);
    assert!(matches!(w.metadata().version, Version::V15));
    assert_eq!(w.metadata().extracted.year, 2021);
    assert_eq!(w.data().len(), 2);

    let bellis = w.from_id(1).expect("id 1 is present");
    assert_eq!(bellis.taxon_name, "Bellis perennis");
    assert_eq!(bellis.powo_id, "969084-1");
    assert!(matches!(bellis.taxon_rank, TaxonRank::Species));
    assert!(matches!(bellis.taxon_status, Status::Accepted));
    assert!(matches!(bellis.climate_description, Some(Climate::Temperate)));
    assert_eq!(bellis.lifeform_description.as_deref(), Some("perennial herb"));
    assert!(bellis.reviewed);
    assert_eq!(bellis.species, None);
    assert_eq!(bellis.ipni_id, None);

    let genus = w.from_id(2).expect("id 2 is present");
    assert!(matches!(genus.taxon_rank, TaxonRank::Genus));
    assert_eq!(genus.climate_description, None);
    assert!(!genus.reviewed);

    assert!(w.from_id(3).is_none());
    assert!(w.from_id(0).is_none());
}

#[test]
fn external_id_lookup_round_trips() {
    let table = table_bytes(&two_rows());
    let w = Wcvp::from_parts(&meta_cells(2), &table).expect("load should succeed");
    for d in w.data() {
        let found = w.from_powo(&d.powo_id).expect("every record is reachable");
        assert_eq!(found.id, d.id);
        assert_eq!(found.taxon_name, d.taxon_name);
    }
    assert!(w.from_powo("no-such-id").is_none());
}

#[test]
fn statistics_tables_account_for_every_record() {
    let mut rows = two_rows();
    rows.push(RowSpec {
        id: "3",
        rank: "Species",
        status: "Synonym",
        genus: "Bellis",
        area: "Europe",
        lifeform: "annual herb",
        climate: "",
        name: "Bellis annua",
        powo: "123456-1",
        reviewed: "",
    });
    let table = table_bytes(&rows);
    let w = Wcvp::from_parts(&meta_cells(3), &table).expect("load should succeed");

    let ranks = w.statistics().taxon_ranks();
    let rank_total: u64 = ranks.iter().map(|(_, c)| *c as u64).sum();
    assert_eq!(rank_total, w.len() as u64);
    assert_eq!(ranks[0], (TaxonRank::Species, 2));
    assert_eq!(ranks[1], (TaxonRank::Genus, 1));

    let lifeforms = w.statistics().lifeform_descriptions();
    let lifeform_total: u64 = lifeforms.iter().map(|(_, c)| *c as u64).sum();
    let with_lifeform = w.data().iter().filter(|d| d.lifeform_description.is_some()).count();
    assert_eq!(lifeform_total, with_lifeform as u64);
    assert_eq!(lifeforms.len(), 2);
    assert_eq!(lifeforms[0], (String::from("annual herb"), 1));
    assert_eq!(lifeforms[1], (String::from("perennial herb"), 1));

    let areas = w.statistics().geographic_area();
    let area_total: u64 = areas.iter().map(|(_, c)| *c as u64).sum();
    let with_area = w.data().iter().filter(|d| d.geographic_area.is_some()).count();
    assert_eq!(area_total, with_area as u64);
    assert_eq!(areas, vec![(String::from("Europe"), 2)]);

    for table in [&lifeforms, &areas] {
        for pair in table.windows(2) {
            let (ref k0, c0) = pair[0];
            let (ref k1, c1) = pair[1];
            assert!(c0 > c1 || (c0 == c1 && k0 <= k1), "table must stay ordered");
        }
    }
}

#[test]
fn statistics_calculate_counts_directly() {
    let table = table_bytes(&two_rows());
    let w = Wcvp::from_parts(&meta_cells(2), &table).expect("load should succeed");
    let stats = Statistics::calculate(w.data());
    let ranks = stats.taxon_ranks();
    assert_eq!(ranks.len(), 2);
    let rank_total: u64 = ranks.iter().map(|(_, c)| *c as u64).sum();
    assert_eq!(rank_total, 2);
}

#[test]
fn rank_tie_break_is_rank_order() {
    let table = table_bytes(&two_rows());
    let w = Wcvp::from_parts(&meta_cells(2), &table).expect("load should succeed");
    let ranks = w.statistics().taxon_ranks();
    assert_eq!(ranks, vec![(TaxonRank::Genus, 1), (TaxonRank::Species, 1)]);
}

#[test]
fn stat_counts_and_orders() {
    let mut stat: Stat<String> = Stat::new();
    stat.add(String::from("tree"));
    stat.add(String::from("herb"));
    stat.add(String::from("herb"));
    stat.add(String::from("shrub"));
    let sorted = stat.to_sorted();
    assert_eq!(
        sorted,
        vec![
            (String::from("herb"), 2),
            (String::from("shrub"), 1),
            (String::from("tree"), 1),
        ]
    );
}

#[test]
fn duplicate_primary_id_is_rejected() {
    let mut rows = two_rows();
    rows[1].id = "1";
    let table = table_bytes(&rows);
    assert!(matches!(
        Wcvp::from_parts(&meta_cells(2), &table),
        Err(Error::DuplicateId(1))
    ));
}

#[test]
fn duplicate_external_id_is_rejected() {
    let mut rows = two_rows();
    rows[1].powo = "969084-1";
    let table = table_bytes(&rows);
    match Wcvp::from_parts(&meta_cells(2), &table) {
        Err(Error::DuplicatePowoId(s)) => assert_eq!(s, "969084-1"),
        other => panic!("unexpected outcome: {:?}", other.map(|w| w.len())),
    }
}

#[test]
fn declared_row_count_must_match() {
    let table = table_bytes(&two_rows());
    assert!(matches!(
        Wcvp::from_parts(&meta_cells(3), &table),
        Err(Error::RowCountMismatch(3, 2))
    ));
}

#[test]
fn unknown_vocabulary_text_aborts_the_parse() {
    let mut rows = two_rows();
    rows[0].status = "Bogus";
    let table = table_bytes(&rows);
    match Wcvp::from_parts(&meta_cells(2), &table) {
        Err(Error::UnknownVariant(s)) => assert_eq!(s, "Bogus"),
        other => panic!("unexpected outcome: {:?}", other.map(|w| w.len())),
    }
}

#[test]
fn unknown_reviewed_token_aborts_the_parse() {
    let mut rows = two_rows();
    rows[1].reviewed = "X";
    let table = table_bytes(&rows);
    match Wcvp::from_parts(&meta_cells(2), &table) {
        Err(Error::UnknownVariant(s)) => assert_eq!(s, "X"),
        other => panic!("unexpected outcome: {:?}", other.map(|w| w.len())),
    }
}

#[test]
fn bad_primary_id_aborts_the_parse() {
    let mut rows = two_rows();
    rows[0].id = "first";
    let table = table_bytes(&rows);
    match Wcvp::from_parts(&meta_cells(2), &table) {
        Err(Error::InvalidId(s)) => assert_eq!(s, "first"),
        other => panic!("unexpected outcome: {:?}", other.map(|w| w.len())),
    }
}

#[test]
fn missing_column_aborts_the_parse() {
    let mut text = COLUMNS[..30].join("|");
    text.push('\n');
    let mut fields: Vec<&str> = COLUMNS[..30].iter().map(|_| "").collect();
    fields[0] = "1";
    fields[3] = "Accepted";
    fields[28] = "969084-1";
    text.push_str(&fields.join("|"));
    text.push('\n');
    match Wcvp::from_parts(&meta_cells(1), &text.into_bytes()) {
        Err(Error::MissingColumn(s)) => assert_eq!(s, "reviewed"),
        other => panic!("unexpected outcome: {:?}", other.map(|w| w.len())),
    }
}

#[test]
fn empty_table_loads_when_zero_rows_declared() {
    let cells = meta_cells(0);
    let table = header_line().into_bytes();
    let w = Wcvp::from_parts(&cells, &table).expect("empty table should load");
    assert_eq!(w.len(), 0);
    assert!(w.is_empty());
    assert!(w.statistics().taxon_ranks().is_empty());
}
