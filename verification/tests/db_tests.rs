use participation_tracker::EventKind;
use participation_tracker::ParticipationEvent;
use participation_tracker::RepoError;
use participation_tracker::add_participation_event;
use participation_tracker::add_student;
use participation_tracker::backup_database;
use participation_tracker::delete_student;
use participation_tracker::export_roster_csv;
use participation_tracker::get_student_participation_points;
use participation_tracker::get_students;
use participation_tracker::import_roster_csv;
use participation_tracker::initialize_tables;
use participation_tracker::open_database;
use participation_tracker::open_database_in_memory;

fn event(name: &str, date: u64, notes: Option<&str>, points: u32, kind: EventKind) -> ParticipationEvent {
    ParticipationEvent {
        name: name.to_string(),
        date,
        notes: notes.map(|n| n.to_string()),
        points,
        kind,
    }
}

#[test]
fn stored_student_reads_back_identically() {
    let conn = open_database_in_memory().unwrap();
    initialize_tables(&conn).unwrap();
    let events = vec![
        event("Soccer", 1000, Some("home game"), 5, EventKind::Sporting),
        event("Chess club", 2000, None, 3, EventKind::NonSporting),
    ];
    let id = add_student(&conn, "Alice", 9, &events).unwrap();
    let (students, warnings) = get_students(&conn).unwrap();
    assert_eq!(students.len(), 1);
    assert_eq!(warnings.len(), 0);
    let s = &students[0];
    assert_eq!(s.id, id);
    assert_eq!(s.name, "Alice");
    assert_eq!(s.grade_level, 9);
    assert_eq!(s.participation_events.len(), 2);
    assert_eq!(s.participation_events[0].name, "Soccer");
    assert_eq!(s.participation_events[0].date, 1000);
    assert_eq!(s.participation_events[0].notes.as_deref(), Some("home game"));
    assert_eq!(s.participation_events[0].points, 5);
    assert_eq!(s.participation_events[0].kind, EventKind::Sporting);
    assert_eq!(s.participation_events[1].name, "Chess club");
    assert_eq!(s.participation_events[1].kind, EventKind::NonSporting);
}

#[test]
fn stored_points_aggregate_and_default_to_zero() {
    let conn = open_database_in_memory().unwrap();
    initialize_tables(&conn).unwrap();
    let events = vec![
        event("A", 1, None, 3, EventKind::Sporting),
        event("B", 2, None, 5, EventKind::NonSporting),
        event("C", 3, None, 2, EventKind::Sporting),
    ];
    let with_events = add_student(&conn, "Alice", 9, &events).unwrap();
    let without = add_student(&conn, "Bob", 10, &Vec::new()).unwrap();
    assert_eq!(get_student_participation_points(&conn, with_events).unwrap(), 10);
    assert_eq!(get_student_participation_points(&conn, without).unwrap(), 0);
}

#[test]
fn stored_delete_removes_student_and_events() {
    let conn = open_database_in_memory().unwrap();
    initialize_tables(&conn).unwrap();
    let alice = add_student(
        &conn,
        "Alice",
        9,
        &vec![event("A", 1, None, 3, EventKind::Sporting)],
    )
    .unwrap();
    add_student(&conn, "Bob", 10, &Vec::new()).unwrap();
    delete_student(&conn, alice).unwrap();
    let (students, _) = get_students(&conn).unwrap();
    assert_eq!(students.len(), 1);
    assert_eq!(students[0].name, "Bob");
    assert_eq!(get_student_participation_points(&conn, alice).unwrap(), 0);
}

#[test]
fn late_event_counts_toward_points() {
    let conn = open_database_in_memory().unwrap();
    initialize_tables(&conn).unwrap();
    let id = add_student(&conn, "Alice", 9, &Vec::new()).unwrap();
    add_participation_event(&conn, id, &event("Swim", 9, None, 4, EventKind::Sporting)).unwrap();
    assert_eq!(get_student_participation_points(&conn, id).unwrap(), 4);
}

#[test]
fn oversized_date_is_an_invalid_argument() {
    let conn = open_database_in_memory().unwrap();
    initialize_tables(&conn).unwrap();
    let id = add_student(&conn, "Alice", 9, &Vec::new()).unwrap();
    let e = event("Odd", u64::MAX, None, 1, EventKind::Sporting);
    assert_eq!(add_participation_event(&conn, id, &e).unwrap_err(), RepoError::InvalidArgument);
    assert_eq!(
        add_student(&conn, "Bob", 10, &vec![e]).unwrap_err(),
        RepoError::InvalidArgument
    );
}

#[test]
fn date_at_the_store_boundary_survives() {
    let conn = open_database_in_memory().unwrap();
    initialize_tables(&conn).unwrap();
    let id = add_student(&conn, "Alice", 9, &Vec::new()).unwrap();
    let e = event("Edge", i64::MAX as u64, None, 2, EventKind::NonSporting);
    add_participation_event(&conn, id, &e).unwrap();
    let (students, _) = get_students(&conn).unwrap();
    assert_eq!(students[0].participation_events[0].date, i64::MAX as u64);
}

#[test]
fn same_named_students_stay_distinct() {
    let conn = open_database_in_memory().unwrap();
    initialize_tables(&conn).unwrap();
    let first = add_student(&conn, "Alex", 9, &Vec::new()).unwrap();
    let second = add_student(&conn, "Alex", 9, &Vec::new()).unwrap();
    assert_ne!(first, second);
    delete_student(&conn, first).unwrap();
    let (students, _) = get_students(&conn).unwrap();
    assert_eq!(students.len(), 1);
    assert_eq!(students[0].id, second);
}

#[test]
fn unreachable_database_is_a_typed_error() {
    assert_eq!(open_database("/").unwrap_err(), RepoError::DatabaseUnreachable);
}

#[test]
fn csv_import_creates_students_with_no_events() {
    let conn = open_database_in_memory().unwrap();
    initialize_tables(&conn).unwrap();
    let n = import_roster_csv(&conn, "Alice,9\nBob,10\n").unwrap();
    assert_eq!(n, 2);
    let (students, _) = get_students(&conn).unwrap();
    assert_eq!(students.len(), 2);
    assert_eq!(students[0].name, "Alice");
    assert_eq!(students[0].grade_level, 9);
    assert_eq!(students[0].participation_events.len(), 0);
    assert_eq!(students[1].name, "Bob");
    assert_eq!(students[1].grade_level, 10);
    assert_eq!(students[1].participation_events.len(), 0);
}

#[test]
fn csv_import_aborts_on_malformed_text() {
    let conn = open_database_in_memory().unwrap();
    initialize_tables(&conn).unwrap();
    assert_eq!(
        import_roster_csv(&conn, "Alice,nine\n").unwrap_err(),
        RepoError::CsvMalformed
    );
    let (students, _) = get_students(&conn).unwrap();
    assert_eq!(students.len(), 0);
}

#[test]
fn csv_export_matches_the_canonical_form() {
    let conn = open_database_in_memory().unwrap();
    initialize_tables(&conn).unwrap();
    add_student(&conn, "Carol", 11, &Vec::new()).unwrap();
    let out = export_roster_csv(&conn).unwrap();
    assert_eq!(out, "Student Name,Grade Level\nCarol,11\n");
}

#[test]
fn backup_copy_holds_the_same_data() {
    let conn = open_database_in_memory().unwrap();
    initialize_tables(&conn).unwrap();
    add_student(
        &conn,
        "Alice",
        9,
        &vec![event("Soccer", 1000, None, 5, EventKind::Sporting)],
    )
    .unwrap();
    let dest = "/tmp/participation_tracker_backup_test.db";
    backup_database(&conn, dest).unwrap();
    let copy = open_database(dest).unwrap();
    let (students, warnings) = get_students(&copy).unwrap();
    assert_eq!(warnings.len(), 0);
    assert_eq!(students.len(), 1);
    assert_eq!(students[0].name, "Alice");
    assert_eq!(students[0].grade_level, 9);
    assert_eq!(students[0].participation_events.len(), 1);
    assert_eq!(students[0].participation_events[0].name, "Soccer");
    assert_eq!(students[0].participation_events[0].points, 5);
}

#[test]
fn backup_to_an_impossible_destination_fails_typed() {
    let conn = open_database_in_memory().unwrap();
    initialize_tables(&conn).unwrap();
    assert_eq!(backup_database(&conn, "/").unwrap_err(), RepoError::BackupFailed);
}
