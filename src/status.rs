//! Appointment status and the transition rules between statuses.
use crate::error::BookingError;
use vstd::prelude::*;

verus! {

/// Lifecycle of an appointment, in its intended forward order.
#[derive(Clone, Copy, Debug, PartialEq, Eq, Structural)]
pub enum Status {
    Awaiting,
    Staying,
    Left,
}

/// The two backward moves that are refused: un-arriving and un-departing.
pub open spec fn transition_allowed(current: Status, requested: Status) -> bool {
    !((current == Status::Staying && requested == Status::Awaiting) || (current == Status::Left
        && requested == Status::Staying))
}

/// Whether an appointment in status `current` may be set to `requested`.
pub fn can_transition(current: Status, requested: Status) -> (r: bool)
    ensures
        r == transition_allowed(current, requested),
{
    match (current, requested) {
        (Status::Staying, Status::Awaiting) => false,
        (Status::Left, Status::Staying) => false,
        _ => true,
    }
}

/// Setting a status to the value it already has is always allowed.
pub proof fn lemma_transition_idempotent(s: Status)
    ensures
        transition_allowed(s, s),
{
}

/// The full transition table: of the nine (current, requested) pairs, only
/// Staying to Awaiting and Left to Staying are refused.
pub proof fn lemma_transition_table()
    ensures
        transition_allowed(Status::Awaiting, Status::Awaiting),
        transition_allowed(Status::Awaiting, Status::Staying),
        transition_allowed(Status::Awaiting, Status::Left),
        !transition_allowed(Status::Staying, Status::Awaiting),
        transition_allowed(Status::Staying, Status::Staying),
        transition_allowed(Status::Staying, Status::Left),
        transition_allowed(Status::Left, Status::Awaiting),
        !transition_allowed(Status::Left, Status::Staying),
        transition_allowed(Status::Left, Status::Left),
{
}

/// The name under which a status is stored and exchanged.
pub open spec fn status_wire(s: Status) -> Seq<char> {
    match s {
        Status::Awaiting => "awaiting"@,
        Status::Staying => "staying"@,
        Status::Left => "left"@,
    }
}

/// The status whose stored name is `w`, if any.
pub open spec fn status_of_wire(w: Seq<char>) -> Option<Status> {
    if w == "awaiting"@ {
        Some(Status::Awaiting)
    } else if w == "staying"@ {
        Some(Status::Staying)
    } else if w == "left"@ {
        Some(Status::Left)
    } else {
        None
    }
}

impl Status {
    /// The stored name of this status.
    pub fn as_wire(&self) -> (r: String)
        ensures
            r@ == status_wire(*self),
    {
        match self {
            Status::Awaiting => "awaiting".to_owned(),
            Status::Staying => "staying".to_owned(),
            Status::Left => "left".to_owned(),
        }
    }

    /// Reads a stored status name; any other text is refused.
    pub fn from_wire(w: &str) -> (r: Option<Status>)
        ensures
            r == status_of_wire(w@),
    {
        let owned = w.to_owned();
        if owned == "awaiting".to_owned() {
            Some(Status::Awaiting)
        } else if owned == "staying".to_owned() {
            Some(Status::Staying)
        } else if owned == "left".to_owned() {
            Some(Status::Left)
        } else {
            None
        }
    }
}

/// Reading back the stored name of a status gives that status.
pub proof fn lemma_status_wire_round_trip(s: Status)
    ensures
        status_of_wire(status_wire(s)) == Some(s),
{
    reveal_strlit("awaiting");
    reveal_strlit("staying");
    reveal_strlit("left");
    assert("staying"@[0] != "awaiting"@[0]);
    assert("left"@[0] != "awaiting"@[0]);
    assert("left"@[0] != "staying"@[0]);
}

/// Outcome of a request to set the status of the appointment whose current
/// status is `current` (`None`: no such appointment).
pub open spec fn status_change_outcome(current: Option<Status>, requested: Status) -> Result<
    Status,
    BookingError,
> {
    match current {
        None => Err(BookingError::NotFound),
        Some(c) => if transition_allowed(c, requested) {
            Ok(requested)
        } else {
            Err(BookingError::IncorrectStatusFlow)
        },
    }
}

/// Decides a status change from the status just read for the appointment:
/// the status to write, or why nothing is written.
pub fn decide_status_change(current: Option<Status>, requested: Status) -> (r: Result<
    Status,
    BookingError,
>)
    ensures
        r == status_change_outcome(current, requested),
{
    match current {
        None => Err(BookingError::NotFound),
        Some(c) => if can_transition(c, requested) {
            Ok(requested)
        } else {
            Err(BookingError::IncorrectStatusFlow)
        },
    }
}

} // verus!
