use vstd::prelude::*;

verus! {

#[verifier::external_type_specification]
#[verifier::external_body]
pub struct ExConnection(rusqlite::Connection);

#[verifier::external_type_specification]
#[verifier::external_body]
pub struct ExSqlError(rusqlite::Error);

/// Relies on rusqlite::Connection::open: opens (creating it if absent) the
/// database file at the given path.
#[verifier::external_body]
pub(crate) fn open_connection(path: &str) -> (r: Result<rusqlite::Connection, rusqlite::Error>) {
    rusqlite::Connection::open(path)
}

/// Relies on rusqlite::Connection::open_in_memory: opens a fresh, empty
/// in-memory database.
#[verifier::external_body]
pub(crate) fn open_memory_connection() -> (r: Result<rusqlite::Connection, rusqlite::Error>) {
    rusqlite::Connection::open_in_memory()
}

/// Relies on rusqlite::Connection::execute: runs one SQL statement that takes
/// no parameters.
#[verifier::external_body]
pub(crate) fn exec_plain(conn: &rusqlite::Connection, sql: &str) -> (r: Result<
    usize,
    rusqlite::Error,
>) {
    conn.execute(sql, ())
}

/// Relies on rusqlite::Connection::execute: inserts one students-table row
/// with the given name and grade level.
#[verifier::external_body]
pub(crate) fn exec_insert_student(
    conn: &rusqlite::Connection,
    name: &str,
    grade_level: u32,
) -> (r: Result<usize, rusqlite::Error>) {
    conn.execute("INSERT INTO Students(Name, Grade) VALUES(?1, ?2)", (name, grade_level))
}

/// Relies on rusqlite::Connection::execute: inserts one events-table row with
/// the given columns; the date is bound as the signed integer SQLite stores.
#[verifier::external_body]
pub(crate) fn exec_insert_event(
    conn: &rusqlite::Connection,
    student_id: u32,
    name: &str,
    date: i64,
    notes: &Option<String>,
    points: u32,
    kind_code: u32,
) -> (r: Result<usize, rusqlite::Error>) {
    conn.execute(
        "INSERT INTO ParticipationEvents(StudentId, Name, Date, Notes, Points, Kind) VALUES(?1, ?2, ?3, ?4, ?5, ?6)",
        (student_id, name, date, notes.as_deref(), points, kind_code),
    )
}

/// Relies on rusqlite::Connection::execute: deletes every events-table row
/// owned by the given student id.
#[verifier::external_body]
pub(crate) fn exec_delete_events(conn: &rusqlite::Connection, student_id: u32) -> (r: Result<
    usize,
    rusqlite::Error,
>) {
    conn.execute("DELETE FROM ParticipationEvents WHERE StudentId=(?1)", [student_id])
}

/// Relies on rusqlite::Connection::execute: deletes the students-table row
/// with the given id.
#[verifier::external_body]
pub(crate) fn exec_delete_student(conn: &rusqlite::Connection, student_id: u32) -> (r: Result<
    usize,
    rusqlite::Error,
>) {
    conn.execute("DELETE FROM Students WHERE Id=(?1)", [student_id])
}

/// Relies on rusqlite::Connection::last_insert_rowid: the rowid of the most
/// recent successful insert on this connection.
#[verifier::external_body]
pub(crate) fn last_insert_id(conn: &rusqlite::Connection) -> (r: i64) {
    conn.last_insert_rowid()
}

/// Relies on rusqlite::Statement::query_map over a prepared select: fetches
/// id, name and grade level of every students-table row.
#[verifier::external_body]
pub(crate) fn query_student_rows(conn: &rusqlite::Connection) -> (r: Result<
    Vec<(u32, String, u32)>,
    rusqlite::Error,
>) {
    let mut stmt = conn.prepare("SELECT Id, Name, Grade FROM Students")?;
    let rows = stmt.query_map((), |row| Ok((row.get(0)?, row.get(1)?, row.get(2)?)))?;
    rows.collect()
}

/// Relies on rusqlite::Statement::query_map over a prepared select: fetches
/// owning student id, name, date, notes, points and kind code of every
/// events-table row, the date as the signed integer SQLite stores.
#[verifier::external_body]
pub(crate) fn query_all_event_rows(conn: &rusqlite::Connection) -> (r: Result<
    Vec<(u32, String, i64, Option<String>, i64, i64)>,
    rusqlite::Error,
>) {
    let mut stmt = conn.prepare(
        "SELECT StudentId, Name, Date, Notes, Points, Kind FROM ParticipationEvents",
    )?;
    let rows = stmt.query_map((), |row| {
        Ok((row.get(0)?, row.get(1)?, row.get(2)?, row.get(3)?, row.get(4)?, row.get(5)?))
    })?;
    rows.collect()
}

/// Relies on rusqlite::Statement::query_map over a prepared select: fetches
/// the points column of every events-table row owned by the given student id,
/// as the signed integers SQLite stores.
#[verifier::external_body]
pub(crate) fn query_points(conn: &rusqlite::Connection, student_id: u32) -> (r: Result<
    Vec<i64>,
    rusqlite::Error,
>) {
    let mut stmt = conn.prepare("SELECT Points FROM ParticipationEvents WHERE StudentID = (?1)")?;
    let rows = stmt.query_map([student_id], |row| row.get(0))?;
    rows.collect()
}

/// Relies on rusqlite::Connection::open, rusqlite::backup::Backup::new and
/// rusqlite::backup::Backup::run_to_completion: copies the whole live database
/// page by page (five pages per step, a 250 ms pause between steps) into the
/// file at the destination path.
#[verifier::external_body]
pub(crate) fn run_backup(src: &rusqlite::Connection, destination: &str) -> (r: Result<
    (),
    rusqlite::Error,
>) {
    let mut dst = rusqlite::Connection::open(destination)?;
    let backup = rusqlite::backup::Backup::new(src, &mut dst)?;
    backup.run_to_completion(5, core::time::Duration::from_millis(250), None)
}

} // verus!
