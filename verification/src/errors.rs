use vstd::prelude::*;

verus! {

/// The error taxonomy of the library. Every fallible operation reports one of
/// these to its caller instead of terminating the process.
#[derive(Clone, Copy, Debug, PartialEq, Eq, Structural)]
pub enum RepoError {
    /// The configuration file could not be read.
    ConfigUnavailable,
    /// The configuration file exists but does not hold a well-formed document.
    ConfigCorrupt,
    /// The database could not be opened or a statement could not be run.
    DatabaseUnreachable,
    /// Creating the two tables failed.
    SchemaInitFailed,
    /// A stored row could not be decoded: its kind code, date or points lie
    /// outside their ranges; carries the row's stored kind code.
    RowDecodeFailed(i64),
    /// An argument was outside the range the store can represent.
    InvalidArgument,
    /// The CSV text being imported is malformed.
    CsvMalformed,
    /// The page-level copy of the database did not run to completion.
    BackupFailed,
}

} // verus!
