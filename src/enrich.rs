//! Enrichment of appointment lists: the distinct providers a batch refers to,
//! and the join of their resolved display details back onto each record.
use crate::booking::Appointment;
use crate::error::BookingError;
use crate::pets::{decode_outcome, Pet, PetDecodeError, PetInputOutput};
use vstd::prelude::*;

verus! {

/// Most provider lookups in flight at once while enriching one batch.
pub const MAX_IN_FLIGHT: usize = 3;

/// Display details of a provider, as its registry reports them.
pub struct ProviderInfo {
    pub name: String,
    pub picture_url: String,
}

/// The details resolved for one provider identifier.
pub struct Resolved {
    pub key: String,
    pub info: ProviderInfo,
}

/// What a customer sees of one of their appointments.
pub struct CustomerView {
    pub groomer_name: String,
    pub groomer_picture_url: String,
    pub start_date: i64,
    pub end_date: i64,
    pub pet_names: Vec<String>,
}

/// What a provider's staff see of one appointment.
pub struct StaffView {
    pub id: String,
    pub user_name: String,
    pub start_date: i64,
    pub end_date: i64,
    pub pets: Vec<PetInputOutput>,
    pub price_tier: String,
    pub total_price_cents: u64,
}

/// `keys` holds no text twice.
pub open spec fn no_repeats(keys: Seq<String>) -> bool {
    forall|i: int, j: int|
        0 <= i < keys.len() && 0 <= j < keys.len() && #[trigger] keys[i]@ == #[trigger] keys[j]@ ==> i == j
}

/// Text `k` occurs in `keys`.
pub open spec fn holds_key(keys: Seq<String>, k: Seq<char>) -> bool {
    exists|i: int| 0 <= i < keys.len() && #[trigger] keys[i]@ == k
}

/// One of the first `n` appointments is with provider `k`.
pub open spec fn mentions(appointments: Seq<Appointment>, n: int, k: Seq<char>) -> bool {
    exists|m: int| 0 <= m < n && #[trigger] appointments[m].groomer_name@ == k
}

/// The provider identifiers of a batch, each once.
pub fn distinct_providers(appointments: &Vec<Appointment>) -> (r: Vec<String>)
    ensures
        no_repeats(r@),
        forall|i: int|
            0 <= i < appointments@.len() ==> holds_key(r@, #[trigger] appointments@[i].groomer_name@),
        forall|j: int|
            0 <= j < r@.len() ==> mentions(appointments@, appointments@.len() as int, (#[trigger] r@[j])@),
{
    let mut out: Vec<String> = Vec::new();
    let mut i: usize = 0;
    while i < appointments.len()
        invariant
            i <= appointments@.len(),
            no_repeats(out@),
            forall|m: int| 0 <= m < i ==> holds_key(out@, #[trigger] appointments@[m].groomer_name@),
            forall|j: int| 0 <= j < out@.len() ==> mentions(appointments@, i as int, (#[trigger] out@[j])@),
        decreases appointments@.len() - i,
    {
        let key = &appointments[i].groomer_name;
        let mut j: usize = 0;
        let mut seen = false;
        while j < out.len()
            invariant
                j <= out@.len(),
                seen ==> holds_key(out@, key@),
                !seen ==> forall|m: int| 0 <= m < j ==> out@[m]@ != key@,
            decreases out@.len() - j,
        {
            if out[j] == *key {
                seen = true;
            }
            j = j + 1;
        }
        let ghost prev = out@;
        if !seen {
            out.push(key.clone());
            assert(out@[out@.len() - 1]@ == key@);
            assert forall|a: int, b: int|
                0 <= a < out@.len() && 0 <= b < out@.len() && #[trigger] out@[a]@ == #[trigger] out@[b]@ implies a
                == b by {
                if a < prev.len() && b < prev.len() {
                    assert(out@[a] == prev[a] && out@[b] == prev[b]);
                }
            }
        }
        assert forall|m: int| 0 <= m < i + 1 implies holds_key(out@, #[trigger] appointments@[m].groomer_name@) by {
            if m < i {
                let w = choose|w: int| 0 <= w < prev.len() && #[trigger] prev[w]@ == appointments@[m].groomer_name@;
                assert(out@[w] == prev[w]);
            } else if !seen {
                assert(out@[out@.len() - 1]@ == key@);
            }
        }
        assert forall|w: int| 0 <= w < out@.len() implies mentions(appointments@, i + 1, (#[trigger] out@[w])@) by {
            if w < prev.len() {
                assert(out@[w] == prev[w]);
                let m = choose|m: int| 0 <= m < i && #[trigger] appointments@[m].groomer_name@ == prev[w]@;
                assert(appointments@[m].groomer_name@ == out@[w]@);
            } else {
                assert(appointments@[i as int].groomer_name@ == out@[w]@);
            }
        }
        i = i + 1;
    }
    out
}

/// Entry `j` is the first in `resolved` for identifier `k`.
pub open spec fn first_for(resolved: Seq<Resolved>, j: int, k: Seq<char>) -> bool {
    &&& 0 <= j < resolved.len()
    &&& resolved[j].key@ == k
    &&& forall|m: int| 0 <= m < j ==> (#[trigger] resolved[m]).key@ != k
}

/// Position of the first entry for identifier `k`.
pub open spec fn first_index(resolved: Seq<Resolved>, k: Seq<char>) -> int {
    choose|j: int| first_for(resolved, j, k)
}

proof fn lemma_first_index(resolved: Seq<Resolved>, j: int, k: Seq<char>)
    requires
        first_for(resolved, j, k),
    ensures
        first_index(resolved, k) == j,
{
    let c = first_index(resolved, k);
    assert(first_for(resolved, c, k));
    if c < j {
        assert(resolved[c].key@ != k);
    } else if c > j {
        assert(resolved[j].key@ != k);
    }
}

/// Some entry of `resolved` is for identifier `k`.
pub open spec fn is_resolved(resolved: Seq<Resolved>, k: Seq<char>) -> bool {
    exists|j: int| 0 <= j < resolved.len() && (#[trigger] resolved[j]).key@ == k
}

/// The first entry for `key`, if any.
fn find_resolved(resolved: &Vec<Resolved>, key: &String) -> (r: Option<usize>)
    ensures
        match r {
            Some(j) => first_for(resolved@, j as int, key@),
            None => !is_resolved(resolved@, key@),
        },
{
    let mut j: usize = 0;
    while j < resolved.len()
        invariant
            j <= resolved@.len(),
            forall|m: int| 0 <= m < j ==> (#[trigger] resolved@[m]).key@ != key@,
        decreases resolved@.len() - j,
    {
        if resolved[j].key == *key {
            return Some(j);
        }
        j = j + 1;
    }
    None
}

/// The names of the pets, in order.
pub fn pet_names(pets: &Vec<Pet>) -> (r: Vec<String>)
    ensures
        r@.len() == pets@.len(),
        forall|i: int| 0 <= i < pets@.len() ==> (#[trigger] r@[i])@ == pets@[i].name@,
{
    let mut out: Vec<String> = Vec::new();
    let mut i: usize = 0;
    while i < pets.len()
        invariant
            i <= pets@.len(),
            out@.len() == i,
            forall|m: int| 0 <= m < i ==> (#[trigger] out@[m])@ == pets@[m].name@,
        decreases pets@.len() - i,
    {
        out.push(pets[i].name.clone());
        i = i + 1;
    }
    out
}

/// `v` shows appointment `a` with the details of entry `j` of `resolved`.
pub open spec fn shows(v: CustomerView, a: Appointment, resolved: Seq<Resolved>, j: int) -> bool {
    &&& v.groomer_name@ == resolved[j].info.name@
    &&& v.groomer_picture_url@ == resolved[j].info.picture_url@
    &&& v.start_date == a.start_date
    &&& v.end_date == a.end_date
    &&& v.pet_names@.len() == a.pets@.len()
    &&& forall|p: int| 0 <= p < a.pets@.len() ==> (#[trigger] v.pet_names@[p])@ == a.pets@[p].name@
}

/// Every appointment's provider has an entry in `resolved`.
pub open spec fn all_resolved(appointments: Seq<Appointment>, resolved: Seq<Resolved>) -> bool {
    forall|i: int| 0 <= i < appointments.len() ==> is_resolved(resolved, #[trigger] appointments[i].groomer_name@)
}

/// Joins the resolved provider details onto each appointment of a customer,
/// by provider identifier. A provider without details fails the whole batch.
pub fn enrich_for_customer(appointments: &Vec<Appointment>, resolved: &Vec<Resolved>) -> (r: Result<
    Vec<CustomerView>,
    BookingError,
>)
    ensures
        match r {
            Ok(v) => all_resolved(appointments@, resolved@) && v@.len() == appointments@.len()
                && forall|i: int|
                0 <= i < appointments@.len() ==> shows(
                    #[trigger] v@[i],
                    appointments@[i],
                    resolved@,
                    first_index(resolved@, appointments@[i].groomer_name@),
                ),
            Err(e) => !all_resolved(appointments@, resolved@) && e == BookingError::InternalError,
        },
{
    let mut out: Vec<CustomerView> = Vec::new();
    let mut i: usize = 0;
    while i < appointments.len()
        invariant
            i <= appointments@.len(),
            out@.len() == i,
            forall|m: int| 0 <= m < i ==> is_resolved(resolved@, #[trigger] appointments@[m].groomer_name@),
            forall|m: int|
                0 <= m < i ==> shows(
                    #[trigger] out@[m],
                    appointments@[m],
                    resolved@,
                    first_index(resolved@, appointments@[m].groomer_name@),
                ),
        decreases appointments@.len() - i,
    {
        let a = &appointments[i];
        let j = match find_resolved(resolved, &a.groomer_name) {
            Some(j) => j,
            None => return Err(BookingError::InternalError),
        };
        let info = &resolved[j].info;
        let v = CustomerView {
            groomer_name: info.name.clone(),
            groomer_picture_url: info.picture_url.clone(),
            start_date: a.start_date,
            end_date: a.end_date,
            pet_names: pet_names(&a.pets),
        };
        proof {
            lemma_first_index(resolved@, j as int, appointments@[i as int].groomer_name@);
        }
        assert(shows(v, appointments@[i as int], resolved@, j as int));
        let ghost prev = out@;
        out.push(v);
        assert forall|m: int| 0 <= m < i + 1 implies shows(
            #[trigger] out@[m],
            appointments@[m],
            resolved@,
            first_index(resolved@, appointments@[m].groomer_name@),
        ) by {
            if m < i {
                assert(out@[m] == prev[m]);
            }
        }
        i = i + 1;
    }
    assert(all_resolved(appointments@, resolved@));
    Ok(out)
}

/// A copy of a stored pet.
fn copy_pet(p: &Pet) -> (r: Pet)
    ensures
        r == *p,
{
    Pet {
        pet_type: p.pet_type.clone(),
        name: p.name.clone(),
        gender: p.gender.clone(),
        age: p.age,
        medical_info: p.medical_info.clone(),
    }
}

/// `q` is what stored pet `p` reads back as.
pub open spec fn decoded_as(q: PetInputOutput, p: Pet) -> bool {
    decode_outcome(p) matches Ok((t, g)) && q.pet_type == t && q.gender == g && q.name@ == p.name@
        && q.age == p.age && q.medical_info@ == p.medical_info@
}

/// Every stored pet reads back.
pub open spec fn all_decodable(pets: Seq<Pet>) -> bool {
    forall|i: int| 0 <= i < pets.len() ==> (decode_outcome(#[trigger] pets[i]) is Ok)
}

/// The staff view of an appointment; a stored pet that cannot be read back is
/// malformed stored data, a store failure.
pub fn staff_view(a: &Appointment) -> (r: Result<StaffView, BookingError>)
    ensures
        match r {
            Ok(v) => all_decodable(a.pets@) && v.id@ == a.id@ && v.user_name@ == a.user_name@
                && v.start_date == a.start_date && v.end_date == a.end_date && v.price_tier@
                == a.price_tier@ && v.total_price_cents == a.total_price_cents && v.pets@.len()
                == a.pets@.len() && forall|i: int|
                0 <= i < a.pets@.len() ==> decoded_as(#[trigger] v.pets@[i], a.pets@[i]),
            Err(e) => !all_decodable(a.pets@) && e == BookingError::InternalError,
        },
{
    let mut pets: Vec<PetInputOutput> = Vec::new();
    let mut i: usize = 0;
    while i < a.pets.len()
        invariant
            i <= a.pets@.len(),
            pets@.len() == i,
            forall|m: int| 0 <= m < i ==> (decode_outcome(#[trigger] a.pets@[m]) is Ok),
            forall|m: int| 0 <= m < i ==> decoded_as(#[trigger] pets@[m], a.pets@[m]),
        decreases a.pets@.len() - i,
    {
        let p = copy_pet(&a.pets[i]);
        let q: Result<PetInputOutput, PetDecodeError> = PetInputOutput::try_from_pet(p);
        match q {
            Ok(q) => {
                pets.push(q);
            },
            Err(_) => {
                return Err(BookingError::InternalError);
            },
        }
        i = i + 1;
    }
    Ok(StaffView {
        id: a.id.clone(),
        user_name: a.user_name.clone(),
        start_date: a.start_date,
        end_date: a.end_date,
        pets,
        price_tier: a.price_tier.clone(),
        total_price_cents: a.total_price_cents,
    })
}

/// Gate for resolving a batch's provider identifiers: hands out identifiers
/// to look up while fewer than `MAX_IN_FLIGHT` lookups are running, and
/// collects the answers for the join.
pub struct FanOut {
    pending: Vec<String>,
    in_flight: usize,
    resolved: Vec<Resolved>,
}

impl FanOut {
    /// Identifiers not yet handed out.
    pub closed spec fn pending(&self) -> Seq<String> {
        self.pending@
    }

    /// Lookups handed out and not yet answered.
    pub closed spec fn running(&self) -> nat {
        self.in_flight as nat
    }

    /// Answers collected so far, in order of arrival.
    pub closed spec fn answers(&self) -> Seq<Resolved> {
        self.resolved@
    }

    pub open spec fn wf(&self) -> bool {
        self.running() <= MAX_IN_FLIGHT
    }

    /// A gate with every identifier of `keys` still to look up.
    pub fn new(keys: Vec<String>) -> (r: FanOut)
        ensures
            r.wf(),
            r.pending() == keys@,
            r.running() == 0,
            r.answers().len() == 0,
    {
        FanOut { pending: keys, in_flight: 0, resolved: Vec::new() }
    }

    /// Number of lookups running.
    pub fn in_flight(&self) -> (r: usize)
        ensures
            r == self.running(),
    {
        self.in_flight
    }

    /// The next identifier to look up, if one is left and a slot is free.
    pub fn issue(&mut self) -> (r: Option<String>)
        requires
            old(self).wf(),
        ensures
            final(self).wf(),
            final(self).answers() == old(self).answers(),
            old(self).running() < MAX_IN_FLIGHT && old(self).pending().len() > 0 ==> (r matches Some(
                k,
            ) && k == old(self).pending().last() && final(self).pending() == old(
                self,
            ).pending().drop_last() && final(self).running() == old(self).running() + 1),
            !(old(self).running() < MAX_IN_FLIGHT && old(self).pending().len() > 0) ==> r is None
                && final(self).pending() == old(self).pending() && final(self).running() == old(
                self,
            ).running(),
    {
        if self.in_flight >= MAX_IN_FLIGHT {
            return None;
        }
        match self.pending.pop() {
            Some(k) => {
                self.in_flight = self.in_flight + 1;
                Some(k)
            },
            None => None,
        }
    }

    /// Records the answer of a running lookup; with none running, the answer
    /// is refused as a failure of the batch.
    pub fn complete(&mut self, answer: Resolved) -> (r: Result<(), BookingError>)
        requires
            old(self).wf(),
        ensures
            final(self).wf(),
            final(self).pending() == old(self).pending(),
            old(self).running() > 0 ==> r is Ok && final(self).running() == old(self).running() - 1
                && final(self).answers() == old(self).answers().push(answer),
            old(self).running() == 0 ==> r == Err::<(), BookingError>(BookingError::InternalError)
                && final(self).running() == 0 && final(self).answers() == old(self).answers(),
    {
        if self.in_flight == 0 {
            return Err(BookingError::InternalError);
        }
        self.in_flight = self.in_flight - 1;
        self.resolved.push(answer);
        Ok(())
    }

    /// Whether every identifier has been handed out and answered.
    pub fn is_done(&self) -> (r: bool)
        ensures
            r == (self.pending().len() == 0 && self.running() == 0),
    {
        self.pending.len() == 0 && self.in_flight == 0
    }

    /// The answers collected, in order of arrival.
    pub fn into_resolved(self) -> (r: Vec<Resolved>)
        ensures
            r@ == self.answers(),
    {
        self.resolved
    }
}

} // verus!
