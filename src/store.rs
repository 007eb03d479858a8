//! Appointment store: records keyed by their unique identifier, with point
//! lookup, filtered listing, status and date updates, and deletion.
use crate::booking::Appointment;
use crate::calendar::{ends_in_month, in_month};
use crate::error::BookingError;
use crate::status::{decide_status_change, status_change_outcome, Status};
use vstd::prelude::*;

verus! {

/// Record `i` of `recs` has identifier `id`.
pub open spec fn id_at(recs: Seq<Appointment>, i: int, id: Seq<char>) -> bool {
    0 <= i < recs.len() && recs[i].id@ == id
}

/// The record with identifier `id`, if any.
pub open spec fn lookup(recs: Seq<Appointment>, id: Seq<char>) -> Option<Appointment> {
    if exists|i: int| id_at(recs, i, id) {
        Some(recs[choose|i: int| id_at(recs, i, id)])
    } else {
        None
    }
}

/// No two records share an identifier, and every record starts no later than
/// it ends.
pub open spec fn store_wf(recs: Seq<Appointment>) -> bool {
    &&& forall|i: int, j: int|
        0 <= i < recs.len() && 0 <= j < recs.len() && #[trigger] recs[i].id@ == #[trigger] recs[j].id@
            ==> i == j
    &&& forall|i: int| 0 <= i < recs.len() ==> #[trigger] recs[i].start_date <= recs[i].end_date
}

proof fn lemma_lookup_at(recs: Seq<Appointment>, i: int)
    requires
        store_wf(recs),
        0 <= i < recs.len(),
    ensures
        lookup(recs, recs[i].id@) == Some(recs[i]),
{
    assert(id_at(recs, i, recs[i].id@));
}

proof fn lemma_lookup_push(recs: Seq<Appointment>, a: Appointment)
    requires
        store_wf(recs),
        lookup(recs, a.id@) is None,
        a.start_date <= a.end_date,
    ensures
        store_wf(recs.push(a)),
        forall|k: Seq<char>| #[trigger]
            lookup(recs.push(a), k) == if k == a.id@ {
                Some(a)
            } else {
                lookup(recs, k)
            },
{
    let after = recs.push(a);
    let n = recs.len() as int;
    assert forall|i: int, j: int|
        0 <= i < after.len() && 0 <= j < after.len() && #[trigger] after[i].id@ == #[trigger] after[j].id@ implies i
        == j by {
        if i < n && j == n {
            assert(id_at(recs, i, a.id@));
        } else if i == n && j < n {
            assert(id_at(recs, j, a.id@));
        } else if i < n && j < n {
            assert(after[i] == recs[i] && after[j] == recs[j]);
        }
    }
    assert forall|i: int| 0 <= i < after.len() implies #[trigger] after[i].start_date <= after[i].end_date by {
        if i < n {
            assert(after[i] == recs[i]);
        }
    }
    assert forall|k: Seq<char>| #[trigger]
        lookup(after, k) == if k == a.id@ {
            Some(a)
        } else {
            lookup(recs, k)
        } by {
        if k == a.id@ {
            assert(id_at(after, n, k));
            lemma_lookup_at(after, n);
        } else {
            if exists|j: int| id_at(recs, j, k) {
                let j = choose|j: int| id_at(recs, j, k);
                assert(id_at(after, j, k));
                lemma_lookup_at(after, j);
                lemma_lookup_at(recs, j);
            }
            if exists|j: int| id_at(after, j, k) {
                let j = choose|j: int| id_at(after, j, k);
                assert(j != n);
                assert(id_at(recs, j, k));
            }
        }
    }
}

proof fn lemma_lookup_remove(recs: Seq<Appointment>, i: int)
    requires
        store_wf(recs),
        0 <= i < recs.len(),
    ensures
        store_wf(recs.remove(i)),
        forall|k: Seq<char>| #[trigger]
            lookup(recs.remove(i), k) == if k == recs[i].id@ {
                None
            } else {
                lookup(recs, k)
            },
{
    let after = recs.remove(i);
    let src = |j: int| if j < i { j } else { j + 1 };
    assert forall|a: int, b: int|
        0 <= a < after.len() && 0 <= b < after.len() && #[trigger] after[a].id@ == #[trigger] after[b].id@ implies a
        == b by {
        assert(after[a] == recs[src(a)] && after[b] == recs[src(b)]);
    }
    assert forall|a: int| 0 <= a < after.len() implies #[trigger] after[a].start_date <= after[a].end_date by {
        assert(after[a] == recs[src(a)]);
    }
    assert forall|k: Seq<char>| #[trigger]
        lookup(after, k) == if k == recs[i].id@ {
            None
        } else {
            lookup(recs, k)
        } by {
        if exists|j: int| id_at(after, j, k) {
            let j = choose|j: int| id_at(after, j, k);
            assert(after[j] == recs[src(j)]);
            assert(id_at(recs, src(j), k));
            lemma_lookup_at(after, j);
            lemma_lookup_at(recs, src(j));
        }
        if k != recs[i].id@ && exists|j: int| id_at(recs, j, k) {
            let j = choose|j: int| id_at(recs, j, k);
            assert(j != i);
            let t = if j < i { j } else { j - 1 };
            assert(after[t] == recs[j]);
            assert(id_at(after, t, k));
        }
    }
}

proof fn lemma_lookup_update(recs: Seq<Appointment>, i: int, a: Appointment)
    requires
        store_wf(recs),
        0 <= i < recs.len(),
        a.id@ == recs[i].id@,
        a.start_date <= a.end_date,
    ensures
        store_wf(recs.update(i, a)),
        forall|k: Seq<char>| #[trigger]
            lookup(recs.update(i, a), k) == if k == a.id@ {
                Some(a)
            } else {
                lookup(recs, k)
            },
{
    let after = recs.update(i, a);
    assert forall|x: int, y: int|
        0 <= x < after.len() && 0 <= y < after.len() && #[trigger] after[x].id@ == #[trigger] after[y].id@ implies x
        == y by {
        assert(recs[x].id@ == after[x].id@);
        assert(recs[y].id@ == after[y].id@);
    }
    assert forall|x: int| 0 <= x < after.len() implies #[trigger] after[x].start_date <= after[x].end_date by {
        if x != i {
            assert(after[x] == recs[x]);
        }
    }
    assert forall|k: Seq<char>| #[trigger]
        lookup(after, k) == if k == a.id@ {
            Some(a)
        } else {
            lookup(recs, k)
        } by {
        if k == a.id@ {
            assert(id_at(after, i, k));
            lemma_lookup_at(after, i);
        } else {
            if exists|j: int| id_at(recs, j, k) {
                let j = choose|j: int| id_at(recs, j, k);
                assert(j != i);
                assert(id_at(after, j, k));
                lemma_lookup_at(after, j);
                lemma_lookup_at(recs, j);
            }
            if exists|j: int| id_at(after, j, k) {
                let j = choose|j: int| id_at(after, j, k);
                assert(j != i);
                assert(id_at(recs, j, k));
            }
        }
    }
}

/// `after` holds the record `a` under its identifier and is otherwise `before`.
pub open spec fn with_record(before: AppointmentStore, after: AppointmentStore, a: Appointment) -> bool {
    forall|k: Seq<char>| #[trigger]
        after.get_spec(k) == if k == a.id@ {
            Some(a)
        } else {
            before.get_spec(k)
        }
}

/// `after` is `before` without the record with identifier `id`.
pub open spec fn removed(before: AppointmentStore, after: AppointmentStore, id: Seq<char>) -> bool {
    forall|k: Seq<char>| #[trigger]
        after.get_spec(k) == if k == id {
            None
        } else {
            before.get_spec(k)
        }
}

/// Which records a listing selects.
pub enum AppointmentFilter {
    /// A provider's appointments, optionally only those in one status.
    ByProvider { provider: String, status: Option<Status> },
    /// A customer's appointments.
    ByCustomer { customer: String },
    /// A provider's appointments whose end falls in a calendar month (UTC).
    ByProviderMonth { provider: String, month: u32, year: u32 },
    /// Completed stays (status Left) of a customer with a provider.
    CompletedStay { provider: String, customer: String },
}

pub open spec fn filter_holds(f: AppointmentFilter, a: Appointment) -> bool {
    match f {
        AppointmentFilter::ByProvider { provider, status } => a.groomer_name@ == provider@ && match status {
            Some(s) => a.status == s,
            None => true,
        },
        AppointmentFilter::ByCustomer { customer } => a.user_name@ == customer@,
        AppointmentFilter::ByProviderMonth { provider, month, year } => a.groomer_name@ == provider@
            && in_month(a.end_date as int, month as int, year as int),
        AppointmentFilter::CompletedStay { provider, customer } => a.groomer_name@ == provider@
            && a.user_name@ == customer@ && a.status == Status::Left,
    }
}

impl AppointmentFilter {
    /// Whether the filter selects `a`.
    pub fn matches(&self, a: &Appointment) -> (r: bool)
        ensures
            r == filter_holds(*self, *a),
    {
        match self {
            AppointmentFilter::ByProvider { provider, status } => {
                if a.groomer_name != *provider {
                    return false;
                }
                match status {
                    Some(s) => a.status == *s,
                    None => true,
                }
            },
            AppointmentFilter::ByCustomer { customer } => a.user_name == *customer,
            AppointmentFilter::ByProviderMonth { provider, month, year } => a.groomer_name
                == *provider && ends_in_month(a.end_date, *month, *year),
            AppointmentFilter::CompletedStay { provider, customer } => a.groomer_name == *provider
                && a.user_name == *customer && a.status == Status::Left,
        }
    }
}

/// All appointment records.
pub struct AppointmentStore {
    records: Vec<Appointment>,
}

impl AppointmentStore {
    pub closed spec fn records(&self) -> Seq<Appointment> {
        self.records@
    }

    pub open spec fn wf(&self) -> bool {
        store_wf(self.records())
    }

    /// The record with identifier `id`, if any.
    pub open spec fn get_spec(&self, id: Seq<char>) -> Option<Appointment> {
        lookup(self.records(), id)
    }

    /// Status of the record with identifier `id`, if any.
    pub open spec fn status_of(&self, id: Seq<char>) -> Option<Status> {
        match self.get_spec(id) {
            Some(a) => Some(a.status),
            None => None,
        }
    }

    /// An empty store.
    pub fn new() -> (r: AppointmentStore)
        ensures
            r.wf(),
            r.records().len() == 0,
            forall|k: Seq<char>| r.get_spec(k) is None,
    {
        AppointmentStore { records: Vec::new() }
    }

    /// Number of records.
    pub fn len(&self) -> (r: usize)
        ensures
            r == self.records().len(),
    {
        self.records.len()
    }

    /// The record at position `i`.
    pub fn at(&self, i: usize) -> (r: &Appointment)
        requires
            i < self.records().len(),
        ensures
            *r == self.records()[i as int],
    {
        &self.records[i]
    }

    /// Position of the record with identifier `id`.
    fn position(&self, id: &String) -> (r: Option<usize>)
        requires
            self.wf(),
        ensures
            match r {
                Some(i) => id_at(self.records(), i as int, id@) && self.get_spec(id@) == Some(
                    self.records()[i as int],
                ),
                None => self.get_spec(id@) is None,
            },
    {
        let mut i: usize = 0;
        while i < self.records.len()
            invariant
                self.wf(),
                i <= self.records@.len(),
                forall|j: int| 0 <= j < i ==> !id_at(self.records@, j, id@),
            decreases self.records@.len() - i,
        {
            if self.records[i].id == *id {
                proof {
                    lemma_lookup_at(self.records@, i as int);
                }
                return Some(i);
            }
            i = i + 1;
        }
        None
    }

    /// Adds a new record; an identifier already in use is a store failure and
    /// leaves the store unchanged.
    pub fn insert(&mut self, a: Appointment) -> (r: Result<(), BookingError>)
        requires
            old(self).wf(),
            a.start_date <= a.end_date,
        ensures
            final(self).wf(),
            old(self).get_spec(a.id@) is Some ==> r == Err::<(), BookingError>(BookingError::InternalError)
                && final(self).records() == old(self).records(),
            old(self).get_spec(a.id@) is None ==> r is Ok && with_record(*old(self), *final(self), a),
    {
        if self.position(&a.id).is_some() {
            return Err(BookingError::InternalError);
        }
        proof {
            lemma_lookup_push(self.records@, a);
        }
        self.records.push(a);
        Ok(())
    }

    /// The record with identifier `id`.
    pub fn get(&self, id: &String) -> (r: Result<&Appointment, BookingError>)
        requires
            self.wf(),
        ensures
            match self.get_spec(id@) {
                Some(a) => r matches Ok(x) && *x == a,
                None => r matches Err(e) && e == BookingError::NotFound,
            },
    {
        match self.position(id) {
            Some(i) => Ok(&self.records[i]),
            None => Err(BookingError::NotFound),
        }
    }

    /// Removes the record with identifier `id`, unconditionally.
    pub fn delete(&mut self, id: &String) -> (r: Result<(), BookingError>)
        requires
            old(self).wf(),
        ensures
            final(self).wf(),
            old(self).get_spec(id@) is None ==> r == Err::<(), BookingError>(BookingError::NotFound)
                && final(self).records() == old(self).records(),
            old(self).get_spec(id@) is Some ==> r is Ok && removed(*old(self), *final(self), id@),
    {
        match self.position(id) {
            None => Err(BookingError::NotFound),
            Some(i) => {
                proof {
                    lemma_lookup_remove(self.records@, i as int);
                }
                self.records.remove(i);
                Ok(())
            },
        }
    }

    /// Sets the status of the record with identifier `id`, as the transition
    /// rules allow, reading the current status just before the write.
    pub fn set_status(&mut self, id: &String, requested: Status) -> (r: Result<(), BookingError>)
        requires
            old(self).wf(),
        ensures
            final(self).wf(),
            match status_change_outcome(old(self).status_of(id@), requested) {
                Ok(_) => r is Ok,
                Err(e) => r == Err::<(), BookingError>(e),
            },
            r is Err ==> final(self).records() == old(self).records(),
            r is Ok ==> with_record(
                *old(self),
                *final(self),
                Appointment { status: requested, ..old(self).get_spec(id@).unwrap() },
            ),
    {
        match self.position(id) {
            None => {
                let r = decide_status_change(None, requested);
                match r {
                    Ok(_) => Ok(()),
                    Err(e) => Err(e),
                }
            },
            Some(i) => {
                let current = self.records[i].status;
                match decide_status_change(Some(current), requested) {
                    Err(e) => Err(e),
                    Ok(s) => {
                        let ghost before = self.records@;
                        proof {
                            lemma_lookup_update(
                                before,
                                i as int,
                                Appointment { status: s, ..before[i as int] },
                            );
                        }
                        self.records[i].status = s;
                        assert(self.records@ == before.update(
                            i as int,
                            Appointment { status: s, ..before[i as int] },
                        ));
                        Ok(())
                    },
                }
            },
        }
    }

    /// Moves the stay of the record with identifier `id` to (`start`, `end`);
    /// only an appointment still Awaiting can be moved, any other is not found.
    pub fn update_dates(&mut self, id: &String, start: i64, end: i64) -> (r: Result<(), BookingError>)
        requires
            old(self).wf(),
        ensures
            final(self).wf(),
            start > end ==> r == Err::<(), BookingError>(BookingError::InvalidDateRange),
            start <= end && old(self).status_of(id@) != Some(Status::Awaiting) ==> r == Err::<
                (),
                BookingError,
            >(BookingError::NotFound),
            r is Err ==> final(self).records() == old(self).records(),
            start <= end && old(self).status_of(id@) == Some(Status::Awaiting) ==> r is Ok && with_record(
                *old(self),
                *final(self),
                Appointment { start_date: start, end_date: end, ..old(self).get_spec(id@).unwrap() },
            ),
    {
        if start > end {
            return Err(BookingError::InvalidDateRange);
        }
        match self.position(id) {
            None => Err(BookingError::NotFound),
            Some(i) => {
                if self.records[i].status != Status::Awaiting {
                    return Err(BookingError::NotFound);
                }
                let ghost before = self.records@;
                let ghost moved = Appointment { start_date: start, end_date: end, ..before[i as int] };
                proof {
                    lemma_lookup_update(before, i as int, moved);
                }
                self.records[i].start_date = start;
                self.records[i].end_date = end;
                assert(self.records@ == before.update(i as int, moved));
                Ok(())
            },
        }
    }

    /// Positions of the records that `f` selects, in store order.
    pub fn find_all(&self, f: &AppointmentFilter) -> (r: Vec<usize>)
        ensures
            forall|k: int|
                0 <= k < r@.len() ==> #[trigger] r@[k] < self.records().len() && filter_holds(
                    *f,
                    self.records()[r@[k] as int],
                ),
            forall|k: int, l: int| 0 <= k < l < r@.len() ==> #[trigger] r@[k] < #[trigger] r@[l],
            forall|i: int|
                0 <= i < self.records().len() && filter_holds(*f, #[trigger] self.records()[i])
                    ==> exists|k: int| 0 <= k < r@.len() && r@[k] == i,
    {
        let mut out: Vec<usize> = Vec::new();
        let mut i: usize = 0;
        while i < self.records.len()
            invariant
                i <= self.records@.len(),
                forall|k: int|
                    0 <= k < out@.len() ==> #[trigger] out@[k] < i && filter_holds(
                        *f,
                        self.records@[out@[k] as int],
                    ),
                forall|k: int, l: int| 0 <= k < l < out@.len() ==> #[trigger] out@[k] < #[trigger] out@[l],
                forall|j: int|
                    0 <= j < i && filter_holds(*f, #[trigger] self.records@[j]) ==> exists|k: int|
                        0 <= k < out@.len() && out@[k] == j,
            decreases self.records@.len() - i,
        {
            let ghost prev = out@;
            if f.matches(&self.records[i]) {
                out.push(i);
            }
            assert forall|j: int|
                0 <= j < i + 1 && filter_holds(*f, #[trigger] self.records@[j]) implies exists|k: int|
                    0 <= k < out@.len() && out@[k] == j by {
                if j < i {
                    let k = choose|k: int| 0 <= k < prev.len() && prev[k] == j;
                    assert(out@[k] == j);
                } else {
                    assert(out@[out@.len() - 1] == j);
                }
            }
            i = i + 1;
        }
        out
    }

    /// Whether the customer has a completed stay (status Left) with the
    /// provider.
    pub fn exists_completed_stay(&self, provider: &String, customer: &String) -> (r: bool)
        ensures
            r == exists|i: int|
                0 <= i < self.records().len() && (#[trigger] self.records()[i]).groomer_name@
                    == provider@ && self.records()[i].user_name@ == customer@
                    && self.records()[i].status == Status::Left,
    {
        let mut i: usize = 0;
        while i < self.records.len()
            invariant
                i <= self.records@.len(),
                forall|j: int|
                    0 <= j < i ==> !((#[trigger] self.records@[j]).groomer_name@ == provider@
                        && self.records@[j].user_name@ == customer@ && self.records@[j].status
                        == Status::Left),
            decreases self.records@.len() - i,
        {
            let a = &self.records[i];
            if a.groomer_name == *provider && a.user_name == *customer && a.status == Status::Left {
                return true;
            }
            i = i + 1;
        }
        false
    }
}

/// Creating a record and fetching it by its identifier gives the same record
/// back; once it is deleted, fetching it finds nothing, and every other
/// record is as before the creation.
pub proof fn lemma_create_fetch_delete(
    s0: AppointmentStore,
    s1: AppointmentStore,
    s2: AppointmentStore,
    a: Appointment,
)
    requires
        s0.get_spec(a.id@) is None,
        with_record(s0, s1, a),
        removed(s1, s2, a.id@),
    ensures
        s1.get_spec(a.id@) == Some(a),
        s2.get_spec(a.id@) is None,
        forall|k: Seq<char>| #[trigger] s2.get_spec(k) == s0.get_spec(k),
{
    assert(s1.get_spec(a.id@) == Some(a));
    assert forall|k: Seq<char>| #[trigger] s2.get_spec(k) == s0.get_spec(k) by {
        assert(s1.get_spec(k) == if k == a.id@ { Some(a) } else { s0.get_spec(k) });
        assert(s2.get_spec(k) == if k == a.id@ { None } else { s1.get_spec(k) });
    }
}

} // verus!
