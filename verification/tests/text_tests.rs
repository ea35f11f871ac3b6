use participation_tracker::AppConfig;
use participation_tracker::RepoError;
use participation_tracker::StudentRow;
use participation_tracker::file_name_of;
use participation_tracker::parse_config;
use participation_tracker::parse_line;
use participation_tracker::parse_roster_csv;
use participation_tracker::parse_u32_digits;
use participation_tracker::render_config;
use participation_tracker::render_roster_csv;
use participation_tracker::render_u32;

#[test]
fn decimal_rendering_and_parsing() {
    assert_eq!(render_u32(0), "0");
    assert_eq!(render_u32(11), "11");
    assert_eq!(render_u32(4294967295), "4294967295");
    assert_eq!(parse_u32_digits("0"), Some(0));
    assert_eq!(parse_u32_digits("4294967295"), Some(u32::MAX));
    assert_eq!(parse_u32_digits("4294967296"), None);
    assert_eq!(parse_u32_digits(""), None);
    assert_eq!(parse_u32_digits("12a"), None);
    assert_eq!(parse_u32_digits("-3"), None);
}

#[test]
fn import_of_two_records() {
    let records = parse_roster_csv("Alice,9\nBob,10\n").unwrap();
    assert_eq!(records.len(), 2);
    assert_eq!(records[0].0, "Alice");
    assert_eq!(records[0].1, 9);
    assert_eq!(records[1].0, "Bob");
    assert_eq!(records[1].1, 10);
}

#[test]
fn import_tolerates_carriage_returns_and_no_final_break() {
    let records = parse_roster_csv("Alice,9\r\nBob,10").unwrap();
    assert_eq!(records.len(), 2);
    assert_eq!(records[1].0, "Bob");
    assert_eq!(records[1].1, 10);
}

#[test]
fn malformed_import_is_a_typed_error() {
    assert_eq!(parse_roster_csv("Alice").unwrap_err(), RepoError::CsvMalformed);
    assert_eq!(parse_roster_csv("Alice,nine\n").unwrap_err(), RepoError::CsvMalformed);
    assert_eq!(parse_roster_csv("Alice,9\n\nBob,10\n").unwrap_err(), RepoError::CsvMalformed);
    assert!(parse_line("no comma here").is_none());
}

#[test]
fn export_of_one_student_is_canonical() {
    let rows = vec![StudentRow { id: 1, name: "Carol".to_string(), grade_level: 11 }];
    let out = render_roster_csv(&rows);
    assert_eq!(out, "Student Name,Grade Level\nCarol,11\n");
}

#[test]
fn export_quotes_names_that_need_it() {
    let rows = vec![StudentRow { id: 1, name: "Lee, Ann \"A\"".to_string(), grade_level: 8 }];
    let out = render_roster_csv(&rows);
    assert_eq!(out, "Student Name,Grade Level\n\"Lee, Ann \"\"A\"\"\",8\n");
}

#[test]
fn export_of_empty_roster_is_just_the_header() {
    let out = render_roster_csv(&Vec::new());
    assert_eq!(out, "Student Name,Grade Level\n");
}

#[test]
fn config_round_trip_keeps_the_path() {
    let mut c = AppConfig::new();
    c.set_database_path("/data/school.db".to_string());
    let text = render_config(&c);
    assert_eq!(text, "{\"databasePath\":\"/data/school.db\"}");
    let back = parse_config(&text).unwrap();
    assert_eq!(back.get_database_path().as_deref(), Some("/data/school.db"));
}

#[test]
fn config_round_trip_escapes_special_characters() {
    let mut c = AppConfig::new();
    c.set_database_path("C:\\files\\\"odd\".db".to_string());
    let text = render_config(&c);
    let back = parse_config(&text).unwrap();
    assert_eq!(back.get_database_path().as_deref(), Some("C:\\files\\\"odd\".db"));
}

#[test]
fn fresh_config_has_no_path_and_round_trips() {
    let c = AppConfig::new();
    assert!(c.get_database_path().is_none());
    let text = render_config(&c);
    assert_eq!(text, "{\"databasePath\":null}");
    let back = parse_config(&text).unwrap();
    assert!(back.get_database_path().is_none());
}

#[test]
fn corrupt_config_is_a_typed_error() {
    assert_eq!(parse_config("").unwrap_err(), RepoError::ConfigCorrupt);
    assert_eq!(parse_config("{}").unwrap_err(), RepoError::ConfigCorrupt);
    assert_eq!(
        parse_config("{\"databasePath\":\"unterminated}").unwrap_err(),
        RepoError::ConfigCorrupt
    );
    assert_eq!(parse_config("{\"databasePath\":nul}").unwrap_err(), RepoError::ConfigCorrupt);
}

#[test]
fn file_name_is_the_last_path_segment() {
    assert_eq!(file_name_of("/data/school.db"), "school.db");
    assert_eq!(file_name_of("school.db"), "school.db");
    assert_eq!(file_name_of("/data/"), "");
    assert_eq!(file_name_of(""), "");
}
