use participation_tracker::Database;
use participation_tracker::EventKind;
use participation_tracker::EventRow;
use participation_tracker::ParticipationEvent;
use participation_tracker::RepoError;
use participation_tracker::decode_event;
use participation_tracker::decode_events;
use participation_tracker::encode_event;
use participation_tracker::kind_code;
use participation_tracker::kind_from_code;
use participation_tracker::sum_points;

fn event(name: &str, date: u64, notes: Option<&str>, points: u32, kind: EventKind) -> ParticipationEvent {
    ParticipationEvent {
        name: name.to_string(),
        date,
        notes: notes.map(|n| n.to_string()),
        points,
        kind,
    }
}

#[test]
fn kind_codes_round_trip() {
    assert_eq!(kind_code(EventKind::NonSporting), 0);
    assert_eq!(kind_code(EventKind::Sporting), 1);
    assert_eq!(kind_from_code(0), Some(EventKind::NonSporting));
    assert_eq!(kind_from_code(1), Some(EventKind::Sporting));
    assert_eq!(kind_from_code(2), None);
}

#[test]
fn out_of_range_kind_is_a_decode_error_not_a_crash() {
    let row = EventRow {
        student_id: 1,
        name: "Chess".to_string(),
        date: 100,
        notes: None,
        points: 4,
        kind_code: 7,
    };
    let res = decode_event(&row);
    assert_eq!(res.unwrap_err(), RepoError::RowDecodeFailed(7));
}

#[test]
fn bad_rows_are_collected_not_dropped() {
    let good = encode_event(1, &event("Chess", 5, None, 3, EventKind::NonSporting));
    let bad = EventRow {
        student_id: 1,
        name: "Mystery".to_string(),
        date: 6,
        notes: None,
        points: 2,
        kind_code: 9,
    };
    let rows = vec![good, bad];
    let (events, warnings) = decode_events(&rows);
    assert_eq!(events.len(), 1);
    assert_eq!(events[0].name, "Chess");
    assert_eq!(warnings.len(), 1);
    assert_eq!(warnings[0].kind_code, 9);
}

#[test]
fn add_student_then_read_back_round_trips() {
    let mut db = Database::new();
    let events = vec![
        event("Soccer", 1000, Some("home game"), 5, EventKind::Sporting),
        event("Chess club", 2000, None, 3, EventKind::NonSporting),
    ];
    let id = db.add_student("Alice".to_string(), 9, &events);
    let (students, warnings) = db.get_students();
    assert_eq!(students.len(), 1);
    assert_eq!(warnings.len(), 0);
    let s = &students[0];
    assert_eq!(s.id, id);
    assert_eq!(s.name, "Alice");
    assert_eq!(s.grade_level, 9);
    assert_eq!(s.participation_events.len(), 2);
    assert_eq!(s.participation_events[0].name, "Soccer");
    assert_eq!(s.participation_events[0].date, 1000);
    assert_eq!(s.participation_events[0].notes.as_deref(), Some("home game"));
    assert_eq!(s.participation_events[0].points, 5);
    assert_eq!(s.participation_events[0].kind, EventKind::Sporting);
    assert_eq!(s.participation_events[1].name, "Chess club");
    assert_eq!(s.participation_events[1].kind, EventKind::NonSporting);
}

#[test]
fn point_aggregation_sums_and_defaults_to_zero() {
    let mut db = Database::new();
    let events = vec![
        event("A", 1, None, 3, EventKind::Sporting),
        event("B", 2, None, 5, EventKind::NonSporting),
        event("C", 3, None, 2, EventKind::Sporting),
    ];
    let with_events = db.add_student("Alice".to_string(), 9, &events);
    let without = db.add_student("Bob".to_string(), 10, &Vec::new());
    assert_eq!(db.get_student_participation_points(with_events), 10);
    assert_eq!(db.get_student_participation_points(without), 0);
}

#[test]
fn delete_student_removes_row_and_events() {
    let mut db = Database::new();
    let alice = db.add_student(
        "Alice".to_string(),
        9,
        &vec![event("A", 1, None, 3, EventKind::Sporting)],
    );
    let bob = db.add_student(
        "Bob".to_string(),
        10,
        &vec![event("B", 2, None, 7, EventKind::NonSporting)],
    );
    db.delete_student(alice);
    let (students, _) = db.get_students();
    assert_eq!(students.len(), 1);
    assert_eq!(students[0].name, "Bob");
    assert_eq!(db.get_student_participation_points(alice), 0);
    assert_eq!(db.get_student_participation_points(bob), 7);
}

#[test]
fn added_event_counts_toward_points() {
    let mut db = Database::new();
    let id = db.add_student("Alice".to_string(), 9, &Vec::new());
    db.add_participation_event(id, &event("Swim", 9, None, 4, EventKind::Sporting));
    assert_eq!(db.get_student_participation_points(id), 4);
}

#[test]
fn raw_row_with_bad_kind_surfaces_as_warning() {
    let mut db = Database::new();
    let id = db.add_student("Alice".to_string(), 9, &Vec::new());
    db.add_event_row(EventRow {
        student_id: id,
        name: "Mystery".to_string(),
        date: 4,
        notes: None,
        points: 6,
        kind_code: 3,
    });
    let (students, warnings) = db.get_students();
    assert_eq!(students[0].participation_events.len(), 0);
    assert_eq!(warnings.len(), 1);
    assert_eq!(warnings[0].kind_code, 3);
    // the undecodable row still counts toward the raw point sum
    assert_eq!(db.get_student_participation_points(id), 6);
}

#[test]
fn negative_date_row_surfaces_as_warning() {
    let mut db = Database::new();
    let id = db.add_student("Alice".to_string(), 9, &Vec::new());
    db.add_event_row(EventRow {
        student_id: id,
        name: "Backdated".to_string(),
        date: -5,
        notes: None,
        points: 2,
        kind_code: 0,
    });
    db.add_participation_event(id, &event("Chess", 7, None, 3, EventKind::NonSporting));
    let (students, warnings) = db.get_students();
    assert_eq!(students[0].participation_events.len(), 1);
    assert_eq!(students[0].participation_events[0].name, "Chess");
    assert_eq!(warnings.len(), 1);
    assert_eq!(warnings[0].date, -5);
    assert_eq!(warnings[0].name, "Backdated");
}

#[test]
fn negative_date_is_a_decode_error_not_a_crash() {
    let row = EventRow {
        student_id: 1,
        name: "Backdated".to_string(),
        date: -1,
        notes: None,
        points: 4,
        kind_code: 1,
    };
    assert_eq!(decode_event(&row).unwrap_err(), RepoError::RowDecodeFailed(1));
}

#[test]
fn sum_points_saturates_at_the_cap() {
    assert_eq!(sum_points(&vec![3, 5, 2]), 10);
    assert_eq!(sum_points(&Vec::new()), 0);
    assert_eq!(
        sum_points(&vec![u32::MAX as i64, u32::MAX as i64]),
        2 * (u32::MAX as u64)
    );
}

#[test]
fn sum_points_skips_cells_out_of_range() {
    assert_eq!(sum_points(&vec![5, -3, u32::MAX as i64 + 1]), 5);
}

#[test]
fn out_of_range_points_row_surfaces_as_warning() {
    let mut db = Database::new();
    let id = db.add_student("Alice".to_string(), 9, &Vec::new());
    db.add_event_row(EventRow {
        student_id: id,
        name: "Overflowing".to_string(),
        date: 3,
        notes: None,
        points: -7,
        kind_code: 1,
    });
    let (students, warnings) = db.get_students();
    assert_eq!(students[0].participation_events.len(), 0);
    assert_eq!(warnings.len(), 1);
    assert_eq!(warnings[0].points, -7);
    assert_eq!(db.get_student_participation_points(id), 0);
}
