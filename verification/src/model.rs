use vstd::prelude::*;

use crate::errors::RepoError;
use crate::kind::EventKind;
use crate::kind::spec_kind_code;
use crate::kind::spec_kind_from_code;
use crate::kind::kind_code;
use crate::kind::kind_from_code;

verus! {

/// A dated record of a student's involvement in an activity.
#[derive(Debug)]
pub struct ParticipationEvent {
    pub name: String,
    pub date: u64,
    pub notes: Option<String>,
    pub points: u32,
    pub kind: EventKind,
}

/// A student together with the participation events it owns.
#[derive(Debug)]
pub struct Student {
    pub id: u32,
    pub name: String,
    pub grade_level: u32,
    pub participation_events: Vec<ParticipationEvent>,
}

/// One row of the students table, exactly as stored.
#[derive(Debug)]
pub struct StudentRow {
    pub id: u32,
    pub name: String,
    pub grade_level: u32,
}

/// One row of the participation-events table, exactly as stored: date, points
/// and kind stand as the signed integers the store holds, and any of them may
/// be out of range when the row was written by a foreign hand.
#[derive(Debug)]
pub struct EventRow {
    pub student_id: u32,
    pub name: String,
    pub date: i64,
    pub notes: Option<String>,
    pub points: i64,
    pub kind_code: i64,
}

/// Whether a stored row's integer columns all lie in the ranges an event can
/// carry.
pub open spec fn spec_row_in_range(r: EventRow) -> bool {
    &&& 0 <= r.date
    &&& 0 <= r.points <= u32::MAX as i64
    &&& 0 <= r.kind_code <= u32::MAX as i64
}

/// The row under which an event of a given student is stored. Faithful only
/// for dates the store's signed integer can hold; larger dates are rejected
/// before anything is written.
pub open spec fn spec_encode_event(student_id: u32, e: ParticipationEvent) -> EventRow {
    EventRow {
        student_id,
        name: e.name,
        date: e.date as i64,
        notes: e.notes,
        points: e.points as i64,
        kind_code: spec_kind_code(e.kind) as i64,
    }
}

/// What a stored row decodes to: `None` exactly when an integer column is out
/// of range or the kind code names no kind.
pub open spec fn spec_decode_event(r: EventRow) -> Option<ParticipationEvent> {
    if !spec_row_in_range(r) {
        None
    } else {
        match spec_kind_from_code(r.kind_code as u32) {
            Some(k) => Some(
                ParticipationEvent {
                    name: r.name,
                    date: r.date as u64,
                    notes: r.notes,
                    points: r.points as u32,
                    kind: k,
                },
            ),
            None => None,
        }
    }
}

/// Encoding an event and decoding the row gives the event back unchanged.
pub proof fn lemma_event_round_trip(student_id: u32, e: ParticipationEvent)
    requires
        e.date <= i64::MAX as u64,
    ensures
        spec_decode_event(spec_encode_event(student_id, e)) == Some(e),
{
    crate::kind::lemma_kind_code_round_trip(e.kind);
}

/// A copy of a string, equal to the original as a value.
pub fn dup_string(s: &String) -> (r: String)
    ensures
        r == *s,
{
    s.clone()
}

/// A copy of an optional string, equal to the original as a value.
pub fn dup_opt_string(s: &Option<String>) -> (r: Option<String>)
    ensures
        r == *s,
{
    match s {
        Some(v) => Some(v.clone()),
        None => None,
    }
}

impl ParticipationEvent {
    /// A copy of the event, equal to the original as a value.
    pub fn dup(&self) -> (r: ParticipationEvent)
        ensures
            r == *self,
    {
        ParticipationEvent {
            name: dup_string(&self.name),
            date: self.date,
            notes: dup_opt_string(&self.notes),
            points: self.points,
            kind: self.kind,
        }
    }
}

impl EventRow {
    /// A copy of the row, equal to the original as a value.
    pub fn dup(&self) -> (r: EventRow)
        ensures
            r == *self,
    {
        EventRow {
            student_id: self.student_id,
            name: dup_string(&self.name),
            date: self.date,
            notes: dup_opt_string(&self.notes),
            points: self.points,
            kind_code: self.kind_code,
        }
    }
}

impl StudentRow {
    /// A copy of the row, equal to the original as a value.
    pub fn dup(&self) -> (r: StudentRow)
        ensures
            r == *self,
    {
        StudentRow { id: self.id, name: dup_string(&self.name), grade_level: self.grade_level }
    }
}

/// Builds the stored row for an event of the given student; the date must fit
/// the store's signed integer.
pub fn encode_event(student_id: u32, e: &ParticipationEvent) -> (r: EventRow)
    requires
        e.date <= i64::MAX as u64,
    ensures
        r == spec_encode_event(student_id, *e),
{
    EventRow {
        student_id,
        name: dup_string(&e.name),
        date: e.date as i64,
        notes: dup_opt_string(&e.notes),
        points: e.points as i64,
        kind_code: kind_code(e.kind) as i64,
    }
}

/// Decodes one stored row; an out-of-range column or a kind code naming no
/// kind yields a typed decode error carrying the row's stored kind code,
/// never a panic.
pub fn decode_event(r: &EventRow) -> (res: Result<ParticipationEvent, RepoError>)
    ensures
        match spec_decode_event(*r) {
            Some(e) => res == Ok::<ParticipationEvent, RepoError>(e),
            None => res == Err::<ParticipationEvent, RepoError>(
                RepoError::RowDecodeFailed(r.kind_code),
            ),
        },
{
    if r.date < 0 || r.points < 0 || r.points > u32::MAX as i64 || r.kind_code < 0 || r.kind_code
        > u32::MAX as i64 {
        return Err(RepoError::RowDecodeFailed(r.kind_code));
    }
    match kind_from_code(r.kind_code as u32) {
        Some(k) => Ok(
            ParticipationEvent {
                name: dup_string(&r.name),
                date: r.date as u64,
                notes: dup_opt_string(&r.notes),
                points: r.points as u32,
                kind: k,
            },
        ),
        None => Err(RepoError::RowDecodeFailed(r.kind_code)),
    }
}

/// What decoding a sequence of stored rows yields: the events of the rows that
/// decode, in order, beside the rows that do not, in order.
pub open spec fn spec_decode_events(rows: Seq<EventRow>) -> (Seq<ParticipationEvent>, Seq<EventRow>)
    decreases rows.len(),
{
    if rows.len() == 0 {
        (Seq::<ParticipationEvent>::empty(), Seq::<EventRow>::empty())
    } else {
        let prior = spec_decode_events(rows.drop_last());
        match spec_decode_event(rows.last()) {
            Some(e) => (prior.0.push(e), prior.1),
            None => (prior.0, prior.1.push(rows.last())),
        }
    }
}

/// Decodes a sequence of stored rows. Rows that fail to decode are collected
/// and reported beside the successes, neither dropped nor fatal to the read.
pub fn decode_events(rows: &Vec<EventRow>) -> (res: (Vec<ParticipationEvent>, Vec<EventRow>))
    ensures
        res.0@ == spec_decode_events(rows@).0,
        res.1@ == spec_decode_events(rows@).1,
{
    let mut events: Vec<ParticipationEvent> = Vec::new();
    let mut bad: Vec<EventRow> = Vec::new();
    let mut i: usize = 0;
    while i < rows.len()
        invariant
            i <= rows@.len(),
            events@ == spec_decode_events(rows@.take(i as int)).0,
            bad@ == spec_decode_events(rows@.take(i as int)).1,
        decreases rows@.len() - i,
    {
        proof {
            assert(rows@.take(i + 1).drop_last() =~= rows@.take(i as int));
            assert(rows@.take(i + 1).last() == rows@[i as int]);
        }
        match decode_event(&rows[i]) {
            Ok(e) => events.push(e),
            Err(_) => bad.push(rows[i].dup()),
        }
        i = i + 1;
    }
    proof {
        assert(rows@.take(rows@.len() as int) =~= rows@);
    }
    (events, bad)
}

} // verus!
