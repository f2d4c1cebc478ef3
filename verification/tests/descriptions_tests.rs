use irate_goose::descriptions::{Configuration, Descriptions};

const CSV_HEADER: &str = "HRIR;HRTF;Configuration;Description;Source;Credits;Points\n";

fn sample_csv() -> String {
    let mut text = String::from(CSV_HEADER);
    text.push_str("SADIE_019;SADIE;Headphones;Human subject;SADIE II database;University of York;170\n");
    text.push_str("KEMAR_1;KEMAR;Speakers;Dummy head;MIT Media Lab;MIT;120\n");
    text.push_str("PLAIN_2;Plain;;\"Quoted; description\";Somewhere;Someone;\n");
    text
}

#[test]
fn test_descriptions_loading() {
    let descriptions = Descriptions::from_csv(&sample_csv());
    assert!(
        descriptions.is_ok(),
        "Failed to load descriptions: {:?}",
        descriptions.err()
    );

    let descriptions = descriptions.unwrap();
    assert!(
        descriptions.len() != 0,
        "Descriptions database should not be empty"
    );

    let count = descriptions.len();
    assert!(count > 0, "Expected at least one entry in the database");

    // Every entry put in is reachable under its key.
    let mut found = 0;
    for key in ["SADIE_019", "KEMAR_1", "PLAIN_2"] {
        assert!(descriptions.get_rc(key).is_some(), "HRIR filename should not be empty");
        found += 1;
    }
    assert_eq!(found, count, "Iterator should return all entries");

    println!("Successfully loaded {} HRTF descriptions", count);
}

#[test]
fn test_configuration_parsing() {
    assert_eq!(
        Configuration::from_str("Headphones"),
        Some(Configuration::Headphones)
    );
    assert_eq!(
        Configuration::from_str("Speakers"),
        Some(Configuration::Speakers)
    );
    assert_eq!(Configuration::from_str(""), None);
    assert_eq!(Configuration::from_str("Invalid"), None);
    assert_eq!(Configuration::from_str("headphones"), None); // case sensitive
    assert_eq!(
        Configuration::from_str("  Headphones  "),
        Some(Configuration::Headphones)
    ); // trimmed
}

#[test]
fn test_sadie_019_entry() {
    let descriptions = Descriptions::from_csv(&sample_csv()).expect("Failed to load descriptions database");

    let entry_rc = descriptions
        .get_rc("SADIE_019")
        .expect("SADIE_019 entry not found in database");

    assert_eq!(entry_rc.hrtf, "SADIE", "HRTF field mismatch");
    assert_eq!(
        entry_rc.configuration,
        Some(Configuration::Headphones),
        "Configuration mismatch"
    );
    assert_eq!(entry_rc.description, "Human subject", "Description mismatch");
    assert_eq!(entry_rc.points, Some(170), "Points mismatch (expected 170)");

    assert!(!entry_rc.source.is_empty(), "Source field should not be empty");
    assert!(
        !entry_rc.credits.is_empty(),
        "Credits field should not be empty"
    );
}

#[test]
fn test_quoted_field_and_missing_points() {
    let descriptions = Descriptions::from_csv(&sample_csv()).unwrap();
    let entry = descriptions.get_rc("PLAIN_2").expect("PLAIN_2 entry not found");
    assert_eq!(entry.description, "Quoted; description");
    assert_eq!(entry.configuration, None);
    assert_eq!(entry.points, None);
}

#[test]
fn test_duplicate_key_keeps_first() {
    let mut text = String::from(CSV_HEADER);
    text.push_str("DUP;First;Headphones;first entry;src;credit;1\n");
    text.push_str("DUP;Second;Speakers;second entry;src;credit;2\n");
    let descriptions = Descriptions::from_csv(&text).unwrap();
    assert_eq!(descriptions.len(), 1);
    let entry = descriptions.get_rc("DUP").unwrap();
    assert_eq!(entry.hrtf, "First");
}

#[test]
fn test_bad_record_length_rejected() {
    let mut text = String::from(CSV_HEADER);
    text.push_str("ONLY;three;columns\n");
    assert!(Descriptions::from_csv(&text).is_err());
}

#[test]
fn test_unreadable_points_become_none() {
    let mut text = String::from(CSV_HEADER);
    text.push_str("K1;H;Headphones;d;s;c;4294967295\n");
    text.push_str("K2;H;Headphones;d;s;c;4294967296\n");
    text.push_str("K3;H;Headphones;d;s;c;12x\n");
    let descriptions = Descriptions::from_csv(&text).unwrap();
    assert_eq!(descriptions.get_rc("K1").unwrap().points, Some(4294967295));
    assert_eq!(descriptions.get_rc("K2").unwrap().points, None);
    assert_eq!(descriptions.get_rc("K3").unwrap().points, None);
}

#[test]
fn test_empty_document_loads_empty_table() {
    let descriptions = Descriptions::from_csv("").unwrap();
    assert_eq!(descriptions.len(), 0);
    assert!(descriptions.get_rc("anything").is_none());
}
