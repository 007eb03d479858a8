//! Appointment records and the checks that a booking request passes before a
//! record is built: its date window, then the identity of both parties.
use crate::calendar::{parse_instant, rfc3339_millis};
use crate::error::BookingError;
use crate::ledger::{fits, stay_covers, CapacityLedger};
use crate::pets::{gender_wire, pet_type_wire, Pet, PetInputOutput};
use crate::status::Status;
use vstd::prelude::*;

verus! {

/// One booked stay of a customer's pets with a provider.
pub struct Appointment {
    pub id: String,
    /// Customer identifier.
    pub user_name: String,
    /// Provider identifier.
    pub groomer_name: String,
    /// Start instant, milliseconds since the epoch.
    pub start_date: i64,
    /// End instant, milliseconds since the epoch.
    pub end_date: i64,
    pub status: Status,
    pub pets: Vec<Pet>,
    /// Total price in hundredths of the currency unit.
    pub total_price_cents: u64,
    pub price_tier: String,
    pub transaction_id: String,
}

/// A request to book a stay.
pub struct CreateInput {
    pub user_name: String,
    pub groomer_name: String,
    pub pet_info: Vec<PetInputOutput>,
    pub price_tier: String,
    pub total_price_cents: u64,
    pub start_time: String,
    pub end_time: String,
    pub transaction_id: String,
}

/// What checking the window from `start` to `end` (RFC 3339 texts) gives:
/// both instants, when both read and the start is not after the end.
pub open spec fn window_outcome(start: Seq<char>, end: Seq<char>) -> Result<(i64, i64), BookingError> {
    match (rfc3339_millis(start), rfc3339_millis(end)) {
        (Some(s), Some(e)) => if s <= e {
            Ok((s, e))
        } else {
            Err(BookingError::InvalidDateRange)
        },
        _ => Err(BookingError::InvalidDateRange),
    }
}

/// Reads and orders the window of a booking; this runs before any identity
/// or capacity lookup.
pub fn booking_window(start: &str, end: &str) -> (r: Result<(i64, i64), BookingError>)
    ensures
        r == window_outcome(start@, end@),
{
    let s = parse_instant(start)?;
    let e = parse_instant(end)?;
    if s > e {
        Err(BookingError::InvalidDateRange)
    } else {
        Ok((s, e))
    }
}

/// Result of the two registry lookups: `None` where a lookup failed (transport,
/// timeout, malformed answer), else whether the party exists. The customer is
/// judged first.
pub open spec fn identity_outcome(customer: Option<bool>, provider: Option<bool>) -> Result<
    (),
    BookingError,
> {
    match customer {
        None => Err(BookingError::InternalError),
        Some(false) => Err(BookingError::CustomerUnknown),
        Some(true) => match provider {
            None => Err(BookingError::InternalError),
            Some(false) => Err(BookingError::ProviderUnknown),
            Some(true) => Ok(()),
        },
    }
}

/// Judges the outcome of the two registry lookups, which the caller issues
/// together and awaits both of.
pub fn identity_gate(customer: Option<bool>, provider: Option<bool>) -> (r: Result<(), BookingError>)
    ensures
        r == identity_outcome(customer, provider),
{
    match customer {
        None => Err(BookingError::InternalError),
        Some(false) => Err(BookingError::CustomerUnknown),
        Some(true) => match provider {
            None => Err(BookingError::InternalError),
            Some(false) => Err(BookingError::ProviderUnknown),
            Some(true) => Ok(()),
        },
    }
}

/// Relies on cuid's `cuid2` (cuid2's `create_id`): a fresh collision-resistant
/// identifier, one lowercase letter followed by at most 23 base-36 digits.
#[verifier::external_body]
fn fresh_id() -> (r: String)
    ensures
        1 <= r@.len() <= 24,
{
    cuid::cuid2()
}

/// The stored form of each pet of a request, in order.
pub fn stored_pets(pets: Vec<PetInputOutput>) -> (r: Vec<Pet>)
    ensures
        r@.len() == pets@.len(),
        forall|i: int|
            0 <= i < pets@.len() ==> {
                &&& (#[trigger] r@[i]).pet_type@ == pet_type_wire(pets@[i].pet_type)
                &&& r@[i].gender@ == gender_wire(pets@[i].gender)
                &&& r@[i].name@ == pets@[i].name@
                &&& r@[i].age == pets@[i].age
                &&& r@[i].medical_info@ == pets@[i].medical_info@
            },
{
    let ghost input = pets@;
    let mut rest = pets;
    let mut out: Vec<Pet> = Vec::new();
    while rest.len() > 0
        invariant
            out@.len() <= input.len(),
            rest@ == input.skip(out@.len() as int),
            forall|i: int|
                0 <= i < out@.len() ==> {
                    &&& (#[trigger] out@[i]).pet_type@ == pet_type_wire(input[i].pet_type)
                    &&& out@[i].gender@ == gender_wire(input[i].gender)
                    &&& out@[i].name@ == input[i].name@
                    &&& out@[i].age == input[i].age
                    &&& out@[i].medical_info@ == input[i].medical_info@
                },
        decreases rest@.len(),
    {
        let ghost n = out@.len();
        let p = rest.remove(0);
        assert(p == input[n as int]);
        out.push(Pet::from_input(p));
        assert(rest@ =~= input.skip(out@.len() as int));
    }
    out
}

/// The appointment that a request admitted with window (`start`, `end`)
/// becomes: status Awaiting, pets in their stored form, the other fields as
/// given.
pub open spec fn built_from(a: Appointment, input: CreateInput, start: i64, end: i64) -> bool {
    &&& a.user_name@ == input.user_name@
    &&& a.groomer_name@ == input.groomer_name@
    &&& a.start_date == start
    &&& a.end_date == end
    &&& a.status == Status::Awaiting
    &&& a.pets@.len() == input.pet_info@.len()
    &&& forall|i: int|
        0 <= i < a.pets@.len() ==> {
            &&& (#[trigger] a.pets@[i]).pet_type@ == pet_type_wire(input.pet_info@[i].pet_type)
            &&& a.pets@[i].gender@ == gender_wire(input.pet_info@[i].gender)
            &&& a.pets@[i].name@ == input.pet_info@[i].name@
            &&& a.pets@[i].age == input.pet_info@[i].age
            &&& a.pets@[i].medical_info@ == input.pet_info@[i].medical_info@
        }
    &&& a.total_price_cents == input.total_price_cents
    &&& a.price_tier@ == input.price_tier@
    &&& a.transaction_id@ == input.transaction_id@
}

/// Builds the record for a request whose parties were looked up: a reversed
/// window is refused first, then the identity gate decides, else a new record
/// under a fresh identifier.
pub fn prepare_appointment(
    input: CreateInput,
    start: i64,
    end: i64,
    customer: Option<bool>,
    provider: Option<bool>,
) -> (r: Result<Appointment, BookingError>)
    ensures
        start > end ==> r == Err::<Appointment, BookingError>(BookingError::InvalidDateRange),
        start <= end ==> match identity_outcome(customer, provider) {
            Err(e) => r == Err::<Appointment, BookingError>(e),
            Ok(_) => r matches Ok(a) && built_from(a, input, start, end) && 1 <= a.id@.len() <= 24,
        },
{
    if start > end {
        return Err(BookingError::InvalidDateRange);
    }
    identity_gate(customer, provider)?;
    let ghost req = input;
    let pets = stored_pets(input.pet_info);
    let a = Appointment {
        id: fresh_id(),
        user_name: input.user_name,
        groomer_name: input.groomer_name,
        start_date: start,
        end_date: end,
        status: Status::Awaiting,
        pets,
        total_price_cents: input.total_price_cents,
        price_tier: input.price_tier,
        transaction_id: input.transaction_id,
    };
    assert(built_from(a, req, start, end));
    Ok(a)
}

/// Units of capacity a request takes on each day of its stay: one per pet.
pub open spec fn units_of(input: CreateInput) -> int {
    input.pet_info@.len() as int
}

/// Admits a request: a reversed window is refused first, then the identity
/// gate decides, then capacity for every day of the stay against the provider's declared
/// `max`, then the new record. A refusal at either step leaves the ledger as
/// it was.
pub fn admit_booking(
    ledger: &mut CapacityLedger,
    input: CreateInput,
    start: i64,
    end: i64,
    customer: Option<bool>,
    provider: Option<bool>,
    max: u64,
) -> (r: Result<Appointment, BookingError>)
    requires
        old(ledger).wf(),
    ensures
        final(ledger).wf(),
        r is Err ==> final(ledger).records() == old(ledger).records(),
        start > end ==> r == Err::<Appointment, BookingError>(BookingError::InvalidDateRange),
        start <= end ==> (identity_outcome(customer, provider) matches Err(e) ==> r == Err::<
            Appointment,
            BookingError,
        >(e)),
        start <= end && identity_outcome(customer, provider) is Ok && !fits(
            old(ledger).records(),
            input.groomer_name@,
            start as int,
            end as int,
            units_of(input),
            max as int,
        ) ==> r == Err::<Appointment, BookingError>(BookingError::OverCapacity),
        start <= end && identity_outcome(customer, provider) is Ok && fits(
            old(ledger).records(),
            input.groomer_name@,
            start as int,
            end as int,
            units_of(input),
            max as int,
        ) ==> (r matches Ok(a) && built_from(a, input, start, end) && 1 <= a.id@.len() <= 24
            && forall|p: Seq<char>, d: int| #[trigger]
            final(ledger).committed(p, d) == old(ledger).committed(p, d) + if p == input.groomer_name@
                && stay_covers(start as int, end as int, d) {
                units_of(input)
            } else {
                0int
            }),
{
    if start > end {
        return Err(BookingError::InvalidDateRange);
    }
    identity_gate(customer, provider)?;
    let units = input.pet_info.len() as u64;
    ledger.check_and_reserve(&input.groomer_name, start, end, units, max)?;
    prepare_appointment(input, start, end, customer, provider)
}

} // verus!
