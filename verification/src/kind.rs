use vstd::prelude::*;

verus! {

/// Classification of a participation event: either a sporting activity or not.
#[derive(Clone, Copy, Debug, PartialEq, Eq, Structural)]
pub enum EventKind {
    NonSporting,
    Sporting,
}

/// The integer code under which a kind is stored.
pub open spec fn spec_kind_code(k: EventKind) -> u32 {
    match k {
        EventKind::NonSporting => 0u32,
        EventKind::Sporting => 1u32,
    }
}

/// The kind a stored integer code decodes to, if it is in range.
pub open spec fn spec_kind_from_code(code: u32) -> Option<EventKind> {
    if code == 0 {
        Some(EventKind::NonSporting)
    } else if code == 1 {
        Some(EventKind::Sporting)
    } else {
        None
    }
}

/// Encodes a kind as the integer stored in the events table.
pub fn kind_code(k: EventKind) -> (r: u32)
    ensures
        r == spec_kind_code(k),
{
    match k {
        EventKind::NonSporting => 0,
        EventKind::Sporting => 1,
    }
}

/// Decodes a stored integer into a kind; an out-of-range code yields `None`
/// rather than a panic, so that readers can report a typed decode error.
pub fn kind_from_code(code: u32) -> (r: Option<EventKind>)
    ensures
        r == spec_kind_from_code(code),
{
    if code == 0 {
        Some(EventKind::NonSporting)
    } else if code == 1 {
        Some(EventKind::Sporting)
    } else {
        None
    }
}

/// Every kind survives a round trip through its stored integer code.
pub proof fn lemma_kind_code_round_trip(k: EventKind)
    ensures
        spec_kind_from_code(spec_kind_code(k)) == Some(k),
{
}

} // verus!
