use vstd::prelude::*;

use crate::csv::parse_roster_csv;
use crate::csv::render_roster_csv;
use crate::csv::spec_parse_roster;
use crate::errors::RepoError;
use crate::kind::kind_code;
use crate::model::ParticipationEvent;
use crate::model::Student;
use crate::model::StudentRow;
use crate::model::EventRow;
use crate::model::dup_string;
use crate::memdb::Database;
use crate::memdb::roster_matches;
use crate::memdb::lemma_roster_warnings_undecodable;
use crate::memdb::spec_sat_u64;
use crate::store;

verus! {

/// What one fetched points cell contributes to the sum: its value when it lies
/// in the range points can carry, nothing otherwise.
pub open spec fn spec_cell_contribution(p: i64) -> int {
    if 0 <= p <= u32::MAX as i64 {
        p as int
    } else {
        0
    }
}

/// The exact sum of a fetched points column, out-of-range cells contributing
/// nothing.
pub open spec fn spec_sum_points(points: Seq<i64>) -> int
    decreases points.len(),
{
    if points.len() == 0 {
        0
    } else {
        spec_sum_points(points.drop_last()) + spec_cell_contribution(points.last())
    }
}

/// A fetched points column is never summed to a negative value.
pub proof fn lemma_sum_points_nonneg(points: Seq<i64>)
    ensures
        0 <= spec_sum_points(points),
    decreases points.len(),
{
    if points.len() > 0 {
        lemma_sum_points_nonneg(points.drop_last());
    }
}

/// Sums a fetched points column: the exact sum, capped at `u64::MAX`; zero for
/// an empty column; out-of-range cells contribute nothing.
pub fn sum_points(points: &Vec<i64>) -> (r: u64)
    ensures
        r as int == spec_sat_u64(spec_sum_points(points@)),
{
    let mut total: u64 = 0;
    let mut i: usize = 0;
    while i < points.len()
        invariant
            i <= points@.len(),
            total as int == spec_sat_u64(spec_sum_points(points@.take(i as int))),
        decreases points@.len() - i,
    {
        proof {
            assert(points@.take(i + 1).drop_last() =~= points@.take(i as int));
            assert(points@.take(i + 1).last() == points@[i as int]);
            lemma_sum_points_nonneg(points@.take(i as int));
        }
        let p = points[i];
        if p >= 0 && p <= u32::MAX as i64 {
            let pu = p as u64;
            if total <= u64::MAX - pu {
                total = total + pu;
            } else {
                total = u64::MAX;
            }
        }
        i = i + 1;
    }
    proof {
        assert(points@.take(points@.len() as int) =~= points@);
    }
    total
}

/// Opens (creating it if absent) the database file at the given path.
pub fn open_database(path: &str) -> (res: Result<rusqlite::Connection, RepoError>)
    ensures
        (res is Err) ==> res == Err::<rusqlite::Connection, RepoError>(
            RepoError::DatabaseUnreachable,
        ),
{
    match store::open_connection(path) {
        Ok(c) => Ok(c),
        Err(_) => Err(RepoError::DatabaseUnreachable),
    }
}

/// Opens a fresh, empty in-memory database.
pub fn open_database_in_memory() -> (res: Result<rusqlite::Connection, RepoError>)
    ensures
        (res is Err) ==> res == Err::<rusqlite::Connection, RepoError>(
            RepoError::DatabaseUnreachable,
        ),
{
    match store::open_memory_connection() {
        Ok(c) => Ok(c),
        Err(_) => Err(RepoError::DatabaseUnreachable),
    }
}

/// Creates the two tables if they are absent; idempotent, and to be run once
/// before any other operation on the connection.
pub fn initialize_tables(conn: &rusqlite::Connection) -> (res: Result<(), RepoError>)
    ensures
        (res is Err) ==> res == Err::<(), RepoError>(RepoError::SchemaInitFailed),
{
    let r = store::exec_plain(
        conn,
        "CREATE TABLE IF NOT EXISTS Students (
        Id INTEGER PRIMARY KEY,
        Name TEXT NOT NULL,
        Grade INTEGER NOT NULL
    )",
    );
    if r.is_err() {
        return Err(RepoError::SchemaInitFailed);
    }
    let r = store::exec_plain(
        conn,
        "CREATE TABLE IF NOT EXISTS ParticipationEvents (
            StudentId INTEGER NOT NULL,
            Name TEXT NOT NULL,
            Date INTEGER NOT NULL,
            Notes TEXT,
            Points INTEGER NOT NULL,
            Kind INTEGER NOT NULL
        )",
    );
    if r.is_err() {
        return Err(RepoError::SchemaInitFailed);
    }
    Ok(())
}

/// Rolls the open transaction back, best effort, and hands the error through.
fn roll_back<T>(conn: &rusqlite::Connection, e: RepoError) -> (res: Result<T, RepoError>)
    ensures
        res == Err::<T, RepoError>(e),
{
    let _ = store::exec_plain(conn, "ROLLBACK");
    Err(e)
}

/// Inserts one student with its events, all inside one transaction: either the
/// student row and every event row are stored, or nothing is. Returns the id
/// the store assigned. A date too large for the store's signed integer is
/// rejected as an invalid argument before anything is written.
pub fn add_student(
    conn: &rusqlite::Connection,
    name: &str,
    grade_level: u32,
    events: &Vec<ParticipationEvent>,
) -> (res: Result<u32, RepoError>)
    ensures
        (res == Err::<u32, RepoError>(RepoError::InvalidArgument)) <==> (exists|i: int|
            0 <= i < events@.len() && (#[trigger] events@[i]).date > i64::MAX as u64),
        (res is Err) ==> (res == Err::<u32, RepoError>(RepoError::InvalidArgument) || res
            == Err::<u32, RepoError>(RepoError::DatabaseUnreachable)),
        (res is Ok) ==> res.unwrap() >= 1,
{
    let mut i: usize = 0;
    while i < events.len()
        invariant
            i <= events@.len(),
            forall|k: int| 0 <= k < i ==> (#[trigger] events@[k]).date <= i64::MAX as u64,
        decreases events@.len() - i,
    {
        if events[i].date > i64::MAX as u64 {
            return Err(RepoError::InvalidArgument);
        }
        i = i + 1;
    }
    if store::exec_plain(conn, "BEGIN").is_err() {
        return Err(RepoError::DatabaseUnreachable);
    }
    if store::exec_insert_student(conn, name, grade_level).is_err() {
        return roll_back(conn, RepoError::DatabaseUnreachable);
    }
    let rowid = store::last_insert_id(conn);
    if rowid < 1 || rowid > u32::MAX as i64 {
        return roll_back(conn, RepoError::DatabaseUnreachable);
    }
    let id = rowid as u32;
    let mut j: usize = 0;
    while j < events.len()
        invariant
            j <= events@.len(),
            forall|k: int| 0 <= k < events@.len() ==> (#[trigger] events@[k]).date <= i64::MAX as u64,
        decreases events@.len() - j,
    {
        let e = &events[j];
        let r = store::exec_insert_event(
            conn,
            id,
            e.name.as_str(),
            e.date as i64,
            &e.notes,
            e.points,
            kind_code(e.kind),
        );
        if r.is_err() {
            return roll_back(conn, RepoError::DatabaseUnreachable);
        }
        j = j + 1;
    }
    if store::exec_plain(conn, "COMMIT").is_err() {
        return roll_back(conn, RepoError::DatabaseUnreachable);
    }
    Ok(id)
}

/// Inserts one event against an already assigned student id. A date too large
/// for the store's signed integer is rejected as an invalid argument.
pub fn add_participation_event(
    conn: &rusqlite::Connection,
    student_id: u32,
    e: &ParticipationEvent,
) -> (res: Result<(), RepoError>)
    ensures
        (res == Err::<(), RepoError>(RepoError::InvalidArgument)) <==> e.date > i64::MAX as u64,
        (res is Err) ==> (res == Err::<(), RepoError>(RepoError::InvalidArgument) || res == Err::<
            (),
            RepoError,
        >(RepoError::DatabaseUnreachable)),
{
    if e.date > i64::MAX as u64 {
        return Err(RepoError::InvalidArgument);
    }
    let r = store::exec_insert_event(
        conn,
        student_id,
        e.name.as_str(),
        e.date as i64,
        &e.notes,
        e.points,
        kind_code(e.kind),
    );
    match r {
        Ok(_) => Ok(()),
        Err(_) => Err(RepoError::DatabaseUnreachable),
    }
}

/// Loads every student with its decoded events. A stored row with an
/// out-of-range date, points or kind column is neither dropped silently nor
/// fatal to the read: it is returned beside the roster as a warning. Whatever
/// the store handed back, the result is an exact roster of it: the returned
/// students are internally consistent with some table contents, and every
/// warning is a row that really does not decode.
pub fn get_students(conn: &rusqlite::Connection) -> (res: Result<
    (Vec<Student>, Vec<EventRow>),
    RepoError,
>)
    ensures
        (res is Err) ==> res == Err::<(Vec<Student>, Vec<EventRow>), RepoError>(
            RepoError::DatabaseUnreachable,
        ),
        (res is Ok) ==> (exists|students: Seq<StudentRow>, events: Seq<EventRow>|
            roster_matches(res.unwrap().0@, res.unwrap().1@, students, events)),
        (res is Ok) ==> (forall|k: int|
            0 <= k < res.unwrap().1@.len() ==> crate::model::spec_decode_event(
                #[trigger] res.unwrap().1@[k],
            ) is None),
{
    let srows = match store::query_student_rows(conn) {
        Ok(v) => v,
        Err(_) => {
            return Err(RepoError::DatabaseUnreachable);
        },
    };
    let raws = match store::query_all_event_rows(conn) {
        Ok(v) => v,
        Err(_) => {
            return Err(RepoError::DatabaseUnreachable);
        },
    };
    let mut students: Vec<StudentRow> = Vec::new();
    let mut i: usize = 0;
    while i < srows.len()
        decreases srows@.len() - i,
    {
        students.push(
            StudentRow { id: srows[i].0, name: dup_string(&srows[i].1), grade_level: srows[i].2 },
        );
        i = i + 1;
    }
    let mut events: Vec<EventRow> = Vec::new();
    let mut j: usize = 0;
    while j < raws.len()
        decreases raws@.len() - j,
    {
        let (sid, name, date, notes, points, kind) = &raws[j];
        events.push(
            EventRow {
                student_id: *sid,
                name: dup_string(name),
                date: *date,
                notes: crate::model::dup_opt_string(notes),
                points: *points,
                kind_code: *kind,
            },
        );
        j = j + 1;
    }
    let db = Database { students, events, next_id: 0 };
    let (roster, warnings) = db.get_students();
    proof {
        lemma_roster_warnings_undecodable(db.events@, db.students@);
        assert(roster_matches(roster@, warnings@, db.students@, db.events@));
    }
    Ok((roster, warnings))
}

/// Sums the points column of the events owned by the given student id: the
/// exact sum, capped at `u64::MAX`; zero when the student owns no events; a
/// stored cell outside the range points can carry contributes nothing.
pub fn get_student_participation_points(conn: &rusqlite::Connection, student_id: u32) -> (res:
    Result<u64, RepoError>)
    ensures
        (res is Err) ==> res == Err::<u64, RepoError>(RepoError::DatabaseUnreachable),
{
    match store::query_points(conn, student_id) {
        Ok(points) => Ok(sum_points(&points)),
        Err(_) => Err(RepoError::DatabaseUnreachable),
    }
}

/// Deletes the student row with the given id and every event it owns, inside
/// one transaction: both removals commit together or neither does.
pub fn delete_student(conn: &rusqlite::Connection, student_id: u32) -> (res: Result<(), RepoError>)
    ensures
        (res is Err) ==> res == Err::<(), RepoError>(RepoError::DatabaseUnreachable),
{
    if store::exec_plain(conn, "BEGIN").is_err() {
        return Err(RepoError::DatabaseUnreachable);
    }
    if store::exec_delete_events(conn, student_id).is_err() {
        return roll_back(conn, RepoError::DatabaseUnreachable);
    }
    if store::exec_delete_student(conn, student_id).is_err() {
        return roll_back(conn, RepoError::DatabaseUnreachable);
    }
    if store::exec_plain(conn, "COMMIT").is_err() {
        return roll_back(conn, RepoError::DatabaseUnreachable);
    }
    Ok(())
}

/// Imports students from CSV text of `name,gradeLevel` lines: every record
/// becomes a student with no events, in text order; the first malformed line
/// aborts the whole import before anything is written. Returns how many
/// students were added.
pub fn import_roster_csv(conn: &rusqlite::Connection, text: &str) -> (res: Result<
    usize,
    RepoError,
>)
    ensures
        (spec_parse_roster(text@) is None) <==> res == Err::<usize, RepoError>(
            RepoError::CsvMalformed,
        ),
        ((spec_parse_roster(text@) is Some) && (res is Ok)) ==> res.unwrap()
            == spec_parse_roster(text@).unwrap().len(),
        (res is Err) ==> (res == Err::<usize, RepoError>(RepoError::CsvMalformed) || res == Err::<
            usize,
            RepoError,
        >(RepoError::DatabaseUnreachable)),
{
    let records = match parse_roster_csv(text) {
        Ok(v) => v,
        Err(e) => {
            return Err(e);
        },
    };
    let no_events: Vec<ParticipationEvent> = Vec::new();
    let mut i: usize = 0;
    while i < records.len()
        invariant
            no_events@.len() == 0,
            spec_parse_roster(text@) is Some,
        decreases records@.len() - i,
    {
        let r = add_student(conn, records[i].0.as_str(), records[i].1, &no_events);
        if r.is_err() {
            return Err(RepoError::DatabaseUnreachable);
        }
        i = i + 1;
    }
    Ok(records.len())
}

/// Renders the whole roster as CSV: the canonical header, then one
/// `name,gradeLevel` line per student, in storage order. Whatever the store
/// handed back, the result is the canonical rendering of some roster.
pub fn export_roster_csv(conn: &rusqlite::Connection) -> (res: Result<String, RepoError>)
    ensures
        (res is Err) ==> res == Err::<String, RepoError>(RepoError::DatabaseUnreachable),
        (res is Ok) ==> (exists|rows: Seq<StudentRow>|
            res.unwrap()@ == crate::csv::spec_render_roster(rows)),
{
    let srows = match store::query_student_rows(conn) {
        Ok(v) => v,
        Err(_) => {
            return Err(RepoError::DatabaseUnreachable);
        },
    };
    let mut rows: Vec<StudentRow> = Vec::new();
    let mut i: usize = 0;
    while i < srows.len()
        decreases srows@.len() - i,
    {
        rows.push(
            StudentRow {
                id: srows[i].0,
                name: dup_string(&srows[i].1),
                grade_level: srows[i].2,
            },
        );
        i = i + 1;
    }
    let out = render_roster_csv(&rows);
    proof {
        assert(out@ == crate::csv::spec_render_roster(rows@));
    }
    Ok(out)
}

/// Copies the live database page by page into the file at the destination
/// path; on success the destination is a complete, independently openable
/// copy, and on failure it must be treated as invalid.
pub fn backup_database(conn: &rusqlite::Connection, destination: &str) -> (res: Result<
    (),
    RepoError,
>)
    ensures
        (res is Err) ==> res == Err::<(), RepoError>(RepoError::BackupFailed),
{
    match store::run_backup(conn, destination) {
        Ok(_) => Ok(()),
        Err(_) => Err(RepoError::BackupFailed),
    }
}

} // verus!
