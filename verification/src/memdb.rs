use vstd::prelude::*;

use crate::model::ParticipationEvent;
use crate::model::Student;
use crate::model::StudentRow;
use crate::model::EventRow;
use crate::model::spec_encode_event;
use crate::model::spec_decode_event;
use crate::model::spec_decode_events;
use crate::model::encode_event;
use crate::model::decode_events;
use crate::model::dup_string;
use crate::model::lemma_event_round_trip;

verus! {

/// The rows a whole list of events encodes to for one owning student.
pub open spec fn spec_encode_all(id: u32, events: Seq<ParticipationEvent>) -> Seq<EventRow> {
    events.map_values(|e: ParticipationEvent| spec_encode_event(id, e))
}

/// The stored rows whose owning student is `id`, in storage order.
pub open spec fn spec_events_of(events: Seq<EventRow>, id: u32) -> Seq<EventRow>
    decreases events.len(),
{
    if events.len() == 0 {
        Seq::<EventRow>::empty()
    } else {
        let prior = spec_events_of(events.drop_last(), id);
        if events.last().student_id == id {
            prior.push(events.last())
        } else {
            prior
        }
    }
}

/// What one stored row contributes to a student's point sum: its points when
/// it is owned by `id` and they lie in the range points can carry; nothing
/// otherwise.
pub open spec fn spec_point_contribution(r: EventRow, id: u32) -> int {
    if r.student_id == id && 0 <= r.points <= u32::MAX as i64 {
        r.points as int
    } else {
        0
    }
}

/// The exact sum of the points of the events owned by `id`.
pub open spec fn spec_points_of(events: Seq<EventRow>, id: u32) -> int
    decreases events.len(),
{
    if events.len() == 0 {
        0
    } else {
        spec_points_of(events.drop_last(), id) + spec_point_contribution(events.last(), id)
    }
}

/// A sum as the store reports it: exact up to `u64::MAX`, capped there.
pub open spec fn spec_sat_u64(x: int) -> int {
    if x <= u64::MAX as int {
        x
    } else {
        u64::MAX as int
    }
}

/// The student rows left once the student `id` is deleted.
pub open spec fn spec_students_without(students: Seq<StudentRow>, id: u32) -> Seq<StudentRow>
    decreases students.len(),
{
    if students.len() == 0 {
        Seq::<StudentRow>::empty()
    } else {
        let prior = spec_students_without(students.drop_last(), id);
        if students.last().id == id {
            prior
        } else {
            prior.push(students.last())
        }
    }
}

/// The event rows left once the events owned by `id` are deleted.
pub open spec fn spec_events_without(events: Seq<EventRow>, id: u32) -> Seq<EventRow>
    decreases events.len(),
{
    if events.len() == 0 {
        Seq::<EventRow>::empty()
    } else {
        let prior = spec_events_without(events.drop_last(), id);
        if events.last().student_id == id {
            prior
        } else {
            prior.push(events.last())
        }
    }
}

/// The undecodable rows of a whole roster read, student by student in roster
/// order.
pub open spec fn spec_roster_warnings(events: Seq<EventRow>, students: Seq<StudentRow>) -> Seq<
    EventRow,
>
    decreases students.len(),
{
    if students.len() == 0 {
        Seq::<EventRow>::empty()
    } else {
        spec_roster_warnings(events, students.drop_last()) + spec_decode_events(
            spec_events_of(events, students.last().id),
        ).1
    }
}

/// Whether a roster read is exactly right for the given table contents: one
/// returned student per student row, in order, carrying that row's id, name
/// and grade level and the decoded events the row's id owns, with the
/// undecodable rows collected as the warnings, student by student.
pub open spec fn roster_matches(
    roster: Seq<Student>,
    warnings: Seq<EventRow>,
    students: Seq<StudentRow>,
    events: Seq<EventRow>,
) -> bool {
    &&& roster.len() == students.len()
    &&& (forall|k: int|
        0 <= k < students.len() ==> {
            let s = #[trigger] roster[k];
            &&& s.id == students[k].id
            &&& s.name == students[k].name
            &&& s.grade_level == students[k].grade_level
            &&& s.participation_events@ == spec_decode_events(
                spec_events_of(events, students[k].id),
            ).0
        })
    &&& warnings == spec_roster_warnings(events, students)
}

/// The two tables of the store, held as plain rows, with the id the next
/// insert will be assigned.
pub struct Database {
    pub students: Vec<StudentRow>,
    pub events: Vec<EventRow>,
    pub next_id: u32,
}

impl Database {
    /// Well-formedness: ids were assigned by the store, so every stored id is
    /// below the next one, student ids are unique, and every event was created
    /// as the child of a student that had been assigned an id.
    pub open spec fn wf(self) -> bool {
        &&& (forall|i: int|
            0 <= i < self.students@.len() ==> (#[trigger] self.students@[i]).id < self.next_id)
        &&& (forall|i: int, j: int|
            0 <= i < j < self.students@.len() ==> self.students@[i].id != self.students@[j].id)
        &&& (forall|i: int|
            0 <= i < self.events@.len() ==> (#[trigger] self.events@[i]).student_id < self.next_id)
    }

    /// An empty store; the first student inserted is assigned id 1.
    pub fn new() -> (r: Database)
        ensures
            r.students@ == Seq::<StudentRow>::empty(),
            r.events@ == Seq::<EventRow>::empty(),
            r.next_id == 1,
            r.wf(),
    {
        let r = Database { students: Vec::new(), events: Vec::new(), next_id: 1 };
        proof {
            assert(r.students@ =~= Seq::<StudentRow>::empty());
            assert(r.events@ =~= Seq::<EventRow>::empty());
        }
        r
    }

    /// Inserts a student row under the next id and inserts each given event
    /// against that id; returns the assigned id. Every date must fit the
    /// store's signed integer.
    pub fn add_student(
        &mut self,
        name: String,
        grade_level: u32,
        events: &Vec<ParticipationEvent>,
    ) -> (id: u32)
        requires
            old(self).wf(),
            old(self).next_id < u32::MAX,
            forall|i: int| 0 <= i < events@.len() ==> (#[trigger] events@[i]).date <= i64::MAX as u64,
        ensures
            id == old(self).next_id,
            final(self).next_id == old(self).next_id + 1,
            final(self).students@ == old(self).students@.push(
                StudentRow { id, name, grade_level },
            ),
            final(self).events@ == old(self).events@ + spec_encode_all(id, events@),
            final(self).wf(),
    {
        let id = self.next_id;
        self.next_id = id + 1;
        self.students.push(StudentRow { id, name, grade_level });
        let mut i: usize = 0;
        while i < events.len()
            invariant
                i <= events@.len(),
                id == old(self).next_id,
                id < u32::MAX,
                forall|k: int|
                    0 <= k < events@.len() ==> (#[trigger] events@[k]).date <= i64::MAX as u64,
                self.next_id == old(self).next_id + 1,
                self.students@ == old(self).students@.push(StudentRow { id, name, grade_level }),
                self.events@ == old(self).events@ + spec_encode_all(id, events@.take(i as int)),
            decreases events@.len() - i,
        {
            let r = encode_event(id, &events[i]);
            self.events.push(r);
            proof {
                assert(events@.take(i + 1).drop_last() =~= events@.take(i as int));
                assert(events@.take(i + 1).last() == events@[i as int]);
                assert(spec_encode_all(id, events@.take(i + 1)) =~= spec_encode_all(
                    id,
                    events@.take(i as int),
                ).push(spec_encode_event(id, events@[i as int])));
                assert(self.events@ =~= old(self).events@ + spec_encode_all(
                    id,
                    events@.take(i + 1),
                ));
            }
            i = i + 1;
        }
        proof {
            assert(events@.take(events@.len() as int) =~= events@);
            assert forall|k: int| 0 <= k < self.events@.len() implies (
            #[trigger] self.events@[k]).student_id < self.next_id by {
                if k >= old(self).events@.len() {
                    let m = k - old(self).events@.len();
                    assert(self.events@[k] == spec_encode_all(id, events@)[m]);
                }
            }
        }
        id
    }

    /// Appends one stored event row as it stands, raw kind code included.
    pub fn add_event_row(&mut self, row: EventRow)
        requires
            old(self).wf(),
            row.student_id < old(self).next_id,
        ensures
            final(self).students@ == old(self).students@,
            final(self).events@ == old(self).events@.push(row),
            final(self).next_id == old(self).next_id,
            final(self).wf(),
    {
        self.events.push(row);
    }

    /// Inserts one event against an already assigned student id; the date must
    /// fit the store's signed integer.
    pub fn add_participation_event(&mut self, student_id: u32, e: &ParticipationEvent)
        requires
            old(self).wf(),
            student_id < old(self).next_id,
            e.date <= i64::MAX as u64,
        ensures
            final(self).students@ == old(self).students@,
            final(self).events@ == old(self).events@.push(spec_encode_event(student_id, *e)),
            final(self).next_id == old(self).next_id,
            final(self).wf(),
    {
        let r = encode_event(student_id, e);
        self.add_event_row(r);
    }

    /// Loads every student with its decoded events. Rows whose kind code is
    /// out of range are neither dropped silently nor fatal: they are returned
    /// beside the roster as warnings.
    pub fn get_students(&self) -> (res: (Vec<Student>, Vec<EventRow>))
        ensures
            roster_matches(res.0@, res.1@, self.students@, self.events@),
    {
        let mut out: Vec<Student> = Vec::new();
        let mut warnings: Vec<EventRow> = Vec::new();
        let mut i: usize = 0;
        while i < self.students.len()
            invariant
                i <= self.students@.len(),
                out@.len() == i,
                forall|k: int|
                    0 <= k < i ==> {
                        let s = #[trigger] out@[k];
                        &&& s.id == self.students@[k].id
                        &&& s.name == self.students@[k].name
                        &&& s.grade_level == self.students@[k].grade_level
                        &&& s.participation_events@ == spec_decode_events(
                            spec_events_of(self.events@, self.students@[k].id),
                        ).0
                    },
                warnings@ == spec_roster_warnings(self.events@, self.students@.take(i as int)),
            decreases self.students@.len() - i,
        {
            let id = self.students[i].id;
            let mut rows: Vec<EventRow> = Vec::new();
            let mut j: usize = 0;
            while j < self.events.len()
                invariant
                    j <= self.events@.len(),
                    rows@ == spec_events_of(self.events@.take(j as int), id),
                decreases self.events@.len() - j,
            {
                proof {
                    assert(self.events@.take(j + 1).drop_last() =~= self.events@.take(j as int));
                    assert(self.events@.take(j + 1).last() == self.events@[j as int]);
                }
                if self.events[j].student_id == id {
                    rows.push(self.events[j].dup());
                }
                j = j + 1;
            }
            proof {
                assert(self.events@.take(self.events@.len() as int) =~= self.events@);
            }
            let (evs, mut bad) = decode_events(&rows);
            out.push(
                Student {
                    id,
                    name: dup_string(&self.students[i].name),
                    grade_level: self.students[i].grade_level,
                    participation_events: evs,
                },
            );
            warnings.append(&mut bad);
            proof {
                assert(self.students@.take(i + 1).drop_last() =~= self.students@.take(i as int));
                assert(self.students@.take(i + 1).last() == self.students@[i as int]);
            }
            i = i + 1;
        }
        proof {
            assert(self.students@.take(self.students@.len() as int) =~= self.students@);
        }
        (out, warnings)
    }

    /// Sums the points of the events owned by `id`: the exact sum, capped at
    /// `u64::MAX`; zero when the student owns no events. A row whose points
    /// lie outside the range points can carry contributes nothing.
    pub fn get_student_participation_points(&self, id: u32) -> (r: u64)
        ensures
            r as int == spec_sat_u64(spec_points_of(self.events@, id)),
    {
        let mut total: u64 = 0;
        let mut j: usize = 0;
        while j < self.events.len()
            invariant
                j <= self.events@.len(),
                total as int == spec_sat_u64(spec_points_of(self.events@.take(j as int), id)),
            decreases self.events@.len() - j,
        {
            proof {
                assert(self.events@.take(j + 1).drop_last() =~= self.events@.take(j as int));
                assert(self.events@.take(j + 1).last() == self.events@[j as int]);
                lemma_points_nonneg(self.events@.take(j as int), id);
            }
            if self.events[j].student_id == id {
                let p = self.events[j].points;
                if p >= 0 && p <= u32::MAX as i64 {
                    let pu = p as u64;
                    if total <= u64::MAX - pu {
                        total = total + pu;
                    } else {
                        total = u64::MAX;
                    }
                }
            }
            j = j + 1;
        }
        proof {
            assert(self.events@.take(self.events@.len() as int) =~= self.events@);
        }
        total
    }

    /// Deletes the student row with the given id and every event it owns;
    /// both removals happen together or not at all.
    pub fn delete_student(&mut self, id: u32)
        requires
            old(self).wf(),
        ensures
            final(self).students@ == spec_students_without(old(self).students@, id),
            final(self).events@ == spec_events_without(old(self).events@, id),
            final(self).next_id == old(self).next_id,
            final(self).wf(),
    {
        let mut kept_students: Vec<StudentRow> = Vec::new();
        let mut i: usize = 0;
        while i < self.students.len()
            invariant
                i <= self.students@.len(),
                self.students@ == old(self).students@,
                self.events@ == old(self).events@,
                self.next_id == old(self).next_id,
                kept_students@ == spec_students_without(self.students@.take(i as int), id),
            decreases self.students@.len() - i,
        {
            proof {
                assert(self.students@.take(i + 1).drop_last() =~= self.students@.take(i as int));
                assert(self.students@.take(i + 1).last() == self.students@[i as int]);
            }
            if self.students[i].id != id {
                kept_students.push(self.students[i].dup());
            }
            i = i + 1;
        }
        proof {
            assert(self.students@.take(self.students@.len() as int) =~= self.students@);
        }
        let mut kept_events: Vec<EventRow> = Vec::new();
        let mut j: usize = 0;
        while j < self.events.len()
            invariant
                j <= self.events@.len(),
                self.students@ == old(self).students@,
                self.events@ == old(self).events@,
                self.next_id == old(self).next_id,
                kept_students@ == spec_students_without(old(self).students@, id),
                kept_events@ == spec_events_without(self.events@.take(j as int), id),
            decreases self.events@.len() - j,
        {
            proof {
                assert(self.events@.take(j + 1).drop_last() =~= self.events@.take(j as int));
                assert(self.events@.take(j + 1).last() == self.events@[j as int]);
            }
            if self.events[j].student_id != id {
                kept_events.push(self.events[j].dup());
            }
            j = j + 1;
        }
        proof {
            assert(self.students@.take(self.students@.len() as int) =~= self.students@);
            assert(self.events@.take(self.events@.len() as int) =~= self.events@);
            lemma_students_without_wf(old(self).students@, id, old(self).next_id);
            lemma_events_without_bound(old(self).events@, id, old(self).next_id);
        }
        self.students = kept_students;
        self.events = kept_events;
    }
}

/// A point sum is never negative.
pub proof fn lemma_points_nonneg(events: Seq<EventRow>, id: u32)
    ensures
        0 <= spec_points_of(events, id),
    decreases events.len(),
{
    if events.len() > 0 {
        lemma_points_nonneg(events.drop_last(), id);
    }
}

/// Selecting the events of `id` distributes over concatenation.
pub proof fn lemma_events_of_concat(a: Seq<EventRow>, b: Seq<EventRow>, id: u32)
    ensures
        spec_events_of(a + b, id) == spec_events_of(a, id) + spec_events_of(b, id),
    decreases b.len(),
{
    if b.len() == 0 {
        assert(a + b =~= a);
        assert(spec_events_of(a, id) + spec_events_of(b, id) =~= spec_events_of(a, id));
    } else {
        lemma_events_of_concat(a, b.drop_last(), id);
        assert((a + b).drop_last() =~= a + b.drop_last());
        assert((a + b).last() == b.last());
        if b.last().student_id == id {
            assert((spec_events_of(a, id) + spec_events_of(b.drop_last(), id)).push(b.last())
                =~= spec_events_of(a, id) + spec_events_of(b.drop_last(), id).push(b.last()));
        }
    }
}

/// A sequence none of whose rows is owned by `id` has no events of `id`.
pub proof fn lemma_events_of_none(events: Seq<EventRow>, id: u32)
    requires
        forall|i: int|
            0 <= i < events.len() ==> (#[trigger] events[i]).student_id != id,
    ensures
        spec_events_of(events, id) == Seq::<EventRow>::empty(),
    decreases events.len(),
{
    if events.len() > 0 {
        assert(events[events.len() - 1].student_id != id);
        lemma_events_of_none(events.drop_last(), id);
    }
}

/// A sequence all of whose rows are owned by `id` is its own selection.
pub proof fn lemma_events_of_all(events: Seq<EventRow>, id: u32)
    requires
        forall|i: int|
            0 <= i < events.len() ==> (#[trigger] events[i]).student_id == id,
    ensures
        spec_events_of(events, id) == events,
    decreases events.len(),
{
    if events.len() > 0 {
        assert(events[events.len() - 1].student_id == id);
        lemma_events_of_all(events.drop_last(), id);
        assert(events.drop_last().push(events.last()) =~= events);
    }
}

/// A sequence none of whose rows is owned by `id` contributes no points to it.
pub proof fn lemma_points_none(events: Seq<EventRow>, id: u32)
    requires
        forall|i: int|
            0 <= i < events.len() ==> (#[trigger] events[i]).student_id != id,
    ensures
        spec_points_of(events, id) == 0,
    decreases events.len(),
{
    if events.len() > 0 {
        assert(events[events.len() - 1].student_id != id);
        lemma_points_none(events.drop_last(), id);
    }
}

/// Encoding a list of events for `id` and decoding the rows back gives
/// exactly the original list, with no warnings.
pub proof fn lemma_decode_encoded(id: u32, events: Seq<ParticipationEvent>)
    requires
        forall|i: int| 0 <= i < events.len() ==> (#[trigger] events[i]).date <= i64::MAX as u64,
    ensures
        spec_decode_events(spec_encode_all(id, events)) == (events, Seq::<EventRow>::empty()),
    decreases events.len(),
{
    let m = spec_encode_all(id, events);
    if events.len() == 0 {
        assert(m =~= Seq::<EventRow>::empty());
        assert(events =~= Seq::<ParticipationEvent>::empty());
    } else {
        lemma_decode_encoded(id, events.drop_last());
        assert(m.drop_last() =~= spec_encode_all(id, events.drop_last()));
        assert(m.last() == spec_encode_event(id, events.last()));
        lemma_event_round_trip(id, events.last());
        assert(events.drop_last().push(events.last()) =~= events);
    }
}

/// Deleting a student keeps exactly the rows of the other students: every kept
/// id stays below the bound, the kept ids stay unique, no kept row has the
/// deleted id, and every kept row stood in the original sequence.
pub proof fn lemma_students_without_wf(students: Seq<StudentRow>, id: u32, bound: u32)
    requires
        forall|i: int|
            0 <= i < students.len() ==> (#[trigger] students[i]).id < bound,
        forall|i: int, j: int| 0 <= i < j < students.len() ==> students[i].id != students[j].id,
    ensures
        ({
            let r = spec_students_without(students, id);
            &&& forall|k: int| 0 <= k < r.len() ==> (#[trigger] r[k]).id < bound
            &&& forall|k: int, l: int| 0 <= k < l < r.len() ==> r[k].id != r[l].id
            &&& forall|k: int| 0 <= k < r.len() ==> (#[trigger] r[k]).id != id
            &&& forall|k: int|
                0 <= k < r.len() ==> exists|j: int|
                    0 <= j < students.len() && #[trigger] r[k] == students[j]
        }),
    decreases students.len(),
{
    if students.len() > 0 {
        let prefix = students.drop_last();
        lemma_students_without_wf(prefix, id, bound);
        let r0 = spec_students_without(prefix, id);
        let r = spec_students_without(students, id);
        let last = students.last();
        assert forall|k: int| 0 <= k < r.len() implies exists|j: int|
            0 <= j < students.len() && #[trigger] r[k] == students[j] by {
            if k < r0.len() {
                let j = choose|j: int| 0 <= j < prefix.len() && r0[k] == prefix[j];
                assert(r[k] == students[j]);
            } else {
                assert(r[k] == students[students.len() - 1]);
            }
        }
        if last.id != id {
            assert forall|k: int| 0 <= k < r0.len() implies r0[k].id != last.id by {
                let j = choose|j: int| 0 <= j < prefix.len() && r0[k] == prefix[j];
                assert(students[j].id != students[students.len() - 1].id);
            }
        }
    }
}

/// Deleting the events of `id` keeps only rows of other students, all still
/// below the bound.
pub proof fn lemma_events_without_bound(events: Seq<EventRow>, id: u32, bound: u32)
    requires
        forall|i: int|
            0 <= i < events.len() ==> (#[trigger] events[i]).student_id < bound,
    ensures
        ({
            let r = spec_events_without(events, id);
            &&& forall|k: int| 0 <= k < r.len() ==> (#[trigger] r[k]).student_id < bound
            &&& forall|k: int| 0 <= k < r.len() ==> (#[trigger] r[k]).student_id != id
        }),
    decreases events.len(),
{
    if events.len() > 0 {
        assert(events[events.len() - 1].student_id < bound);
        lemma_events_without_bound(events.drop_last(), id, bound);
    }
}

/// A student added with a list of events reads back unchanged: its row holds
/// the given name and grade level, and decoding the stored events owned by its
/// id yields exactly the given list, with no warnings. Stated for dates the
/// store's signed integer can hold; larger dates are rejected at insert.
pub proof fn lemma_add_student_round_trip(
    old_db: Database,
    new_db: Database,
    name: String,
    grade_level: u32,
    events: Seq<ParticipationEvent>,
    id: u32,
)
    requires
        old_db.wf(),
        id == old_db.next_id,
        forall|i: int| 0 <= i < events.len() ==> (#[trigger] events[i]).date <= i64::MAX as u64,
        new_db.students@ == old_db.students@.push((StudentRow { id, name, grade_level })),
        new_db.events@ == old_db.events@ + spec_encode_all(id, events),
    ensures
        new_db.students@.last() == (StudentRow { id, name, grade_level }),
        spec_decode_events(spec_events_of(new_db.events@, id)) == (
            events,
            Seq::<EventRow>::empty(),
        ),
{
    let enc = spec_encode_all(id, events);
    lemma_events_of_concat(old_db.events@, enc, id);
    lemma_events_of_none(old_db.events@, id);
    assert(forall|k: int| 0 <= k < enc.len() ==> (#[trigger] enc[k]).student_id == id);
    lemma_events_of_all(enc, id);
    assert(spec_events_of(new_db.events@, id) =~= enc);
    lemma_decode_encoded(id, events);
}

/// A deleted student is gone entirely: no student row carries its id any
/// longer, it owns no stored events, and its point sum is zero.
pub proof fn lemma_delete_student_clears(
    students: Seq<StudentRow>,
    events: Seq<EventRow>,
    id: u32,
)
    ensures
        ({
            let r = spec_students_without(students, id);
            forall|k: int| 0 <= k < r.len() ==> (#[trigger] r[k]).id != id
        }),
        spec_events_of(spec_events_without(events, id), id) == Seq::<EventRow>::empty(),
        spec_points_of(spec_events_without(events, id), id) == 0,
{
    lemma_students_without_excludes(students, id);
    lemma_events_without_excludes(events, id);
    lemma_events_of_none(spec_events_without(events, id), id);
    lemma_points_none(spec_events_without(events, id), id);
}

/// No row kept by a student deletion carries the deleted id.
pub proof fn lemma_students_without_excludes(students: Seq<StudentRow>, id: u32)
    ensures
        (forall|k: int|
            0 <= k < spec_students_without(students, id).len() ==> (
            #[trigger] spec_students_without(students, id)[k]).id != id),
    decreases students.len(),
{
    if students.len() > 0 {
        lemma_students_without_excludes(students.drop_last(), id);
        let r0 = spec_students_without(students.drop_last(), id);
        let r = spec_students_without(students, id);
        assert forall|k: int| 0 <= k < r.len() implies (#[trigger] r[k]).id != id by {
            if k < r0.len() {
                assert(r[k] == r0[k]);
            }
        }
    }
}

/// Every warning a row decode reports is a row that really does not decode.
pub proof fn lemma_decode_warnings_undecodable(rows: Seq<EventRow>)
    ensures
        (forall|k: int|
            0 <= k < spec_decode_events(rows).1.len() ==> spec_decode_event(
                #[trigger] spec_decode_events(rows).1[k],
            ) is None),
    decreases rows.len(),
{
    if rows.len() > 0 {
        lemma_decode_warnings_undecodable(rows.drop_last());
        let prior = spec_decode_events(rows.drop_last()).1;
        let cur = spec_decode_events(rows).1;
        assert forall|k: int| 0 <= k < cur.len() implies spec_decode_event(
            #[trigger] cur[k],
        ) is None by {
            if k < prior.len() {
                assert(cur[k] == prior[k]);
            }
        }
    }
}

/// Every warning a roster read reports is a row that really does not decode.
pub proof fn lemma_roster_warnings_undecodable(events: Seq<EventRow>, students: Seq<StudentRow>)
    ensures
        (forall|k: int|
            0 <= k < spec_roster_warnings(events, students).len() ==> spec_decode_event(
                #[trigger] spec_roster_warnings(events, students)[k],
            ) is None),
    decreases students.len(),
{
    if students.len() > 0 {
        lemma_roster_warnings_undecodable(events, students.drop_last());
        let prior = spec_roster_warnings(events, students.drop_last());
        let tail = spec_decode_events(spec_events_of(events, students.last().id)).1;
        lemma_decode_warnings_undecodable(spec_events_of(events, students.last().id));
        let cur = spec_roster_warnings(events, students);
        assert forall|k: int| 0 <= k < cur.len() implies spec_decode_event(
            #[trigger] cur[k],
        ) is None by {
            if k < prior.len() {
                assert(cur[k] == prior[k]);
            } else {
                assert(cur[k] == tail[k - prior.len()]);
            }
        }
    }
}

/// No row kept by an event deletion is owned by the deleted id.
pub proof fn lemma_events_without_excludes(events: Seq<EventRow>, id: u32)
    ensures
        (forall|k: int|
            0 <= k < spec_events_without(events, id).len() ==> (
            #[trigger] spec_events_without(events, id)[k]).student_id != id),
    decreases events.len(),
{
    if events.len() > 0 {
        lemma_events_without_excludes(events.drop_last(), id);
    }
}

} // verus!
