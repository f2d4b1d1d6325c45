use court_enums::{Court, Courts, Fault, LoadError};

fn load(text: &str) -> Result<Courts, LoadError> {
    Courts::from_file(text.as_bytes())
}

fn court(name: &str, acronym: &str) -> Court {
    Court { name: name.to_string(), acronym: acronym.to_string() }
}

const TWO_RECORDS: &str = r#"{"items":[{"busca_documento":1,"nome":"Tribunal Um","sigla":"TRT1"},{"busca_documento":0,"nome":"Tribunal Dois","sigla":"TJ-SP"}]}"#;

#[test]
fn round_trip_extracts_the_one_selected_record() {
    let courts = load(TWO_RECORDS).unwrap();
    assert_eq!(courts.as_slice(), &[court("Tribunal Um", "TRT1")]);
}

#[test]
fn round_trip_renders_one_database_value() {
    let courts = load(TWO_RECORDS).unwrap();
    assert_eq!(courts.display_postgres_enum(), "CREATE TYPE kyc.courts AS enum(\n\t'TRT1'\n);\n");
}

#[test]
fn round_trip_renders_one_renamed_variant() {
    let courts = load(TWO_RECORDS).unwrap();
    assert_eq!(
        courts.display_rust_enum(),
        "pub enum Courts {\n\t/// Tribunal Um\n\t#[serde(rename = \"TRT1\")]\n\tTrt1,\n}\n"
    );
}

#[test]
fn missing_items_key_is_an_extraction_error() {
    assert_eq!(load(r#"{"courts":[]}"#).unwrap_err(), LoadError::Extraction(Fault::MissingItems));
}

#[test]
fn items_that_is_no_array_is_an_extraction_error() {
    assert_eq!(load(r#"{"items":{"a":1}}"#).unwrap_err(), LoadError::Extraction(Fault::MissingItems));
    assert_eq!(load(r#"{"items":null}"#).unwrap_err(), LoadError::Extraction(Fault::MissingItems));
}

#[test]
fn top_level_that_is_no_object_is_an_extraction_error() {
    assert_eq!(load("[1,2]").unwrap_err(), LoadError::Extraction(Fault::MissingItems));
    assert_eq!(load("1").unwrap_err(), LoadError::Extraction(Fault::MissingItems));
}

#[test]
fn empty_items_is_an_empty_result() {
    assert_eq!(load(r#"{"items":[]}"#).unwrap_err(), LoadError::EmptyResult);
}

#[test]
fn nothing_selected_is_an_empty_result() {
    let text = r#"{"items":[{"busca_documento":0,"nome":"A","sigla":"B"},7,{"busca_documento":2}]}"#;
    assert_eq!(load(text).unwrap_err(), LoadError::EmptyResult);
}

#[test]
fn selected_element_without_acronym_aborts_the_run() {
    let text = r#"{"items":[{"busca_documento":1,"nome":"Um","sigla":"A"},{"busca_documento":1,"nome":"Dois"}]}"#;
    assert_eq!(
        load(text).unwrap_err(),
        LoadError::Extraction(Fault::InvalidAcronym { index: 1 })
    );
}

#[test]
fn selected_element_without_name_aborts_the_run() {
    let text = r#"{"items":[{"busca_documento":1,"sigla":"A"}]}"#;
    assert_eq!(load(text).unwrap_err(), LoadError::Extraction(Fault::InvalidName { index: 0 }));
}

#[test]
fn name_is_checked_before_acronym() {
    let text = r#"{"items":[{"busca_documento":1}]}"#;
    assert_eq!(load(text).unwrap_err(), LoadError::Extraction(Fault::InvalidName { index: 0 }));
}

#[test]
fn name_or_acronym_of_another_type_aborts_the_run() {
    let name = r#"{"items":[{"busca_documento":1,"nome":5,"sigla":"A"}]}"#;
    assert_eq!(load(name).unwrap_err(), LoadError::Extraction(Fault::InvalidName { index: 0 }));
    let acronym = r#"{"items":[{"busca_documento":1,"nome":"Um","sigla":["A"]}]}"#;
    assert_eq!(
        load(acronym).unwrap_err(),
        LoadError::Extraction(Fault::InvalidAcronym { index: 0 })
    );
}

#[test]
fn element_without_flag_aborts_the_run() {
    let text = r#"{"items":[{"busca_documento":1,"nome":"Um","sigla":"A"},3,{"nome":"Dois","sigla":"B"}]}"#;
    assert_eq!(load(text).unwrap_err(), LoadError::Extraction(Fault::MissingFlag { index: 2 }));
}

#[test]
fn first_fault_wins() {
    let text = r#"{"items":[{"busca_documento":1,"nome":"Um"},{"nome":"Dois"}]}"#;
    assert_eq!(
        load(text).unwrap_err(),
        LoadError::Extraction(Fault::InvalidAcronym { index: 0 })
    );
}

#[test]
fn unselected_element_needs_no_name() {
    let text = r#"{"items":[{"busca_documento":0},{"busca_documento":1,"nome":"Um","sigla":"A"}]}"#;
    assert_eq!(load(text).unwrap().as_slice(), &[court("Um", "A")]);
}

#[test]
fn scalar_elements_are_skipped() {
    let text = r#"{"items":[1,"x",null,true,[2],{"busca_documento":1,"nome":"Um","sigla":"A"},2.5]}"#;
    assert_eq!(load(text).unwrap().as_slice(), &[court("Um", "A")]);
}

#[test]
fn only_the_integer_one_selects() {
    let text = r#"{"items":[
        {"busca_documento":1.0,"nome":"Real","sigla":"R"},
        {"busca_documento":"1","nome":"Text","sigla":"T"},
        {"busca_documento":true,"nome":"Bool","sigla":"B"},
        {"busca_documento":-1,"nome":"Minus","sigla":"M"},
        {"busca_documento":1,"nome":"One","sigla":"O"}
    ]}"#;
    assert_eq!(load(text).unwrap().as_slice(), &[court("One", "O")]);
}

#[test]
fn order_of_the_source_is_kept() {
    let text = r#"{"items":[
        {"busca_documento":1,"nome":"Zeta","sigla":"Z"},
        {"busca_documento":0,"nome":"Skipped","sigla":"S"},
        {"busca_documento":1,"nome":"Alfa","sigla":"A"},
        {"busca_documento":1,"nome":"Meio","sigla":"M"}
    ]}"#;
    assert_eq!(
        load(text).unwrap().as_slice(),
        &[court("Zeta", "Z"), court("Alfa", "A"), court("Meio", "M")]
    );
}

#[test]
fn moving_unselected_elements_changes_nothing() {
    let one = r#"{"items":[5,{"busca_documento":1,"nome":"Um","sigla":"A"},{"busca_documento":0},{"busca_documento":1,"nome":"Dois","sigla":"B"}]}"#;
    let other = r#"{"items":[{"busca_documento":1,"nome":"Um","sigla":"A"},{"busca_documento":1,"nome":"Dois","sigla":"B"},{"busca_documento":0},5]}"#;
    let first = load(one).unwrap();
    let second = load(other).unwrap();
    assert_eq!(first.as_slice(), second.as_slice());
    assert_eq!(first.display_postgres_enum(), second.display_postgres_enum());
    assert_eq!(first.display_rust_enum(), second.display_rust_enum());
}

#[test]
fn malformed_text_is_a_parse_error() {
    assert_eq!(load(r#"{"items":[}"#).unwrap_err(), LoadError::JsonParse);
    assert_eq!(load("").unwrap_err(), LoadError::JsonParse);
    assert_eq!(Courts::from_file(&[0xff, 0xfe]).unwrap_err(), LoadError::JsonParse);
}

#[test]
fn names_keep_their_characters() {
    let text = r#"{"items":[{"busca_documento":1,"nome":"Tribunal de Justiça de São Paulo","sigla":"TJ-SP"}]}"#;
    assert_eq!(
        load(text).unwrap().as_slice(),
        &[court("Tribunal de Justiça de São Paulo", "TJ-SP")]
    );
}

#[test]
fn a_repeated_key_counts_once_with_its_last_value() {
    let text = r#"{"items":[{"busca_documento":0,"busca_documento":1,"nome":"Um","nome":"Dois","sigla":"A"}]}"#;
    assert_eq!(load(text).unwrap().as_slice(), &[court("Dois", "A")]);
}
