//! Capacity ledger: units committed per (provider, calendar day), and the
//! all-or-nothing admission of a stay against a provider's declared maximum.
use crate::calendar::{day_of, day_of_millis};
use crate::error::BookingError;
use vstd::prelude::*;

verus! {

/// Number of upcoming days shown when a provider's availability is listed.
pub const AVAILABILITY_DAYS: usize = 30;

/// Units committed for one provider on one calendar day.
pub struct CapacityRecord {
    pub provider: String,
    /// Day number since 1970-01-01 (UTC).
    pub day: i64,
    pub committed: u64,
}

/// All capacity records; a (provider, day) pair without a record has nothing
/// committed.
pub struct CapacityLedger {
    records: Vec<CapacityRecord>,
}

/// Record `i` of `recs` is the one for provider `p` on day `d`.
pub open spec fn key_at(recs: Seq<CapacityRecord>, i: int, p: Seq<char>, d: int) -> bool {
    0 <= i < recs.len() && recs[i].provider@ == p && recs[i].day == d
}

/// Units committed for provider `p` on day `d`, zero where no record exists.
pub open spec fn committed_in(recs: Seq<CapacityRecord>, p: Seq<char>, d: int) -> int {
    if exists|i: int| key_at(recs, i, p, d) {
        recs[choose|i: int| key_at(recs, i, p, d)].committed as int
    } else {
        0
    }
}

/// No two records share a (provider, day) key.
pub open spec fn keys_unique(recs: Seq<CapacityRecord>) -> bool {
    forall|i: int, j: int|
        0 <= i < recs.len() && 0 <= j < recs.len() && #[trigger] recs[i].provider@
            == #[trigger] recs[j].provider@ && recs[i].day == recs[j].day ==> i == j
}

/// The days that a stay from `start` to `end` (instants) occupies: from the
/// day of the start up to, not including, the day of the end.
pub open spec fn stay_covers(start: int, end: int, d: int) -> bool {
    day_of(start) <= d < day_of(end)
}

/// Whether `requested` more units fit on every day of the stay.
pub open spec fn fits(
    recs: Seq<CapacityRecord>,
    p: Seq<char>,
    start: int,
    end: int,
    requested: int,
    max: int,
) -> bool {
    forall|d: int| #[trigger]
        stay_covers(start, end, d) ==> committed_in(recs, p, d) + requested <= max
}

/// What is left of `max` once `committed` units are taken, never below zero.
pub open spec fn remaining(committed: int, max: int) -> int {
    if committed <= max {
        max - committed
    } else {
        0
    }
}

impl CapacityLedger {
    pub closed spec fn records(&self) -> Seq<CapacityRecord> {
        self.records@
    }

    /// Units committed for provider `p` on day `d`.
    #[verifier::inline]
    pub open spec fn committed(&self, p: Seq<char>, d: int) -> int {
        committed_in(self.records(), p, d)
    }

    pub open spec fn wf(&self) -> bool {
        keys_unique(self.records())
    }

    /// A ledger in which nothing is committed.
    pub fn new() -> (r: CapacityLedger)
        ensures
            r.wf(),
            forall|p: Seq<char>, d: int| r.committed(p, d) == 0,
    {
        CapacityLedger { records: Vec::new() }
    }

    /// Position of the record for `provider` on `day`, if there is one.
    fn find(&self, provider: &String, day: i64) -> (r: Option<usize>)
        ensures
            match r {
                Some(i) => key_at(self.records(), i as int, provider@, day as int),
                None => !exists|i: int| key_at(self.records(), i, provider@, day as int),
            },
    {
        let mut i: usize = 0;
        while i < self.records.len()
            invariant
                0 <= i <= self.records@.len(),
                forall|j: int| 0 <= j < i ==> !key_at(self.records@, j, provider@, day as int),
            decreases self.records@.len() - i,
        {
            if self.records[i].day == day && self.records[i].provider == *provider {
                return Some(i);
            }
            i = i + 1;
        }
        None
    }

    /// Units committed for `provider` on `day`.
    pub fn committed_on(&self, provider: &String, day: i64) -> (r: u64)
        requires
            self.wf(),
        ensures
            r == self.committed(provider@, day as int),
    {
        match self.find(provider, day) {
            Some(i) => self.records[i].committed,
            None => 0,
        }
    }

    /// Adds `units` to what is committed for `provider` on `day`, creating the
    /// record if there is none.
    fn add_units(&mut self, provider: &String, day: i64, units: u64)
        requires
            old(self).wf(),
            old(self).committed(provider@, day as int) + units <= u64::MAX,
        ensures
            final(self).wf(),
            forall|p: Seq<char>, d: int| #[trigger]
                final(self).committed(p, d) == if p == provider@ && d == day as int {
                    old(self).committed(p, d) + units
                } else {
                    old(self).committed(p, d)
                },
    {
        let ghost before = self.records@;
        match self.find(provider, day) {
            Some(i) => {
                let c = self.records[i].committed;
                let rec = CapacityRecord { provider: provider.clone(), day, committed: c + units };
                self.records.set(i, rec);
                let ghost after = self.records@;
                assert(keys_unique(after)) by {
                    assert forall|a: int, b: int|
                        0 <= a < after.len() && 0 <= b < after.len() && #[trigger] after[a].provider@
                            == #[trigger] after[b].provider@ && after[a].day == after[b].day implies a
                        == b by {
                        assert(before[a].provider@ == after[a].provider@);
                        assert(before[b].provider@ == after[b].provider@);
                    }
                }
                assert forall|p: Seq<char>, d: int|
                    #[trigger] committed_in(after, p, d) == if p == provider@ && d == day as int {
                        committed_in(before, p, d) + units
                    } else {
                        committed_in(before, p, d)
                    } by {
                    if p == provider@ && d == day as int {
                        assert(key_at(after, i as int, p, d));
                        assert(key_at(before, i as int, p, d));
                    } else {
                        if exists|j: int| key_at(before, j, p, d) {
                            let j = choose|j: int| key_at(before, j, p, d);
                            assert(j != i);
                            assert(key_at(after, j, p, d));
                        }
                        if exists|j: int| key_at(after, j, p, d) {
                            let j = choose|j: int| key_at(after, j, p, d);
                            assert(j != i);
                            assert(key_at(before, j, p, d));
                        }
                    }
                }
            },
            None => {
                let rec = CapacityRecord { provider: provider.clone(), day, committed: units };
                self.records.push(rec);
                let ghost after = self.records@;
                let ghost n = before.len() as int;
                assert(key_at(after, n, provider@, day as int));
                assert(keys_unique(after)) by {
                    assert forall|a: int, b: int|
                        0 <= a < after.len() && 0 <= b < after.len() && #[trigger] after[a].provider@
                            == #[trigger] after[b].provider@ && after[a].day == after[b].day implies a
                        == b by {
                        if a < n && b == n {
                            assert(key_at(before, a, provider@, day as int));
                        } else if a == n && b < n {
                            assert(key_at(before, b, provider@, day as int));
                        } else if a < n && b < n {
                            assert(before[a] == after[a] && before[b] == after[b]);
                        }
                    }
                }
                assert forall|p: Seq<char>, d: int|
                    #[trigger] committed_in(after, p, d) == if p == provider@ && d == day as int {
                        committed_in(before, p, d) + units
                    } else {
                        committed_in(before, p, d)
                    } by {
                    if p == provider@ && d == day as int {
                        let j = choose|j: int| key_at(after, j, p, d);
                        if j < n {
                            assert(key_at(before, j, p, d));
                        }
                    } else {
                        if exists|j: int| key_at(before, j, p, d) {
                            let j = choose|j: int| key_at(before, j, p, d);
                            assert(key_at(after, j, p, d));
                        }
                        if exists|j: int| key_at(after, j, p, d) {
                            let j = choose|j: int| key_at(after, j, p, d);
                            assert(j != n);
                            assert(key_at(before, j, p, d));
                        }
                    }
                }
            },
        }
    }

    /// Admits a stay of `provider` from instant `start` to instant `end` that
    /// needs `requested` units a day, against the provider's declared `max`.
    /// Every day of the stay must fit, or nothing is recorded; when all fit,
    /// each of those days gains `requested` units and no other record changes.
    pub fn check_and_reserve(
        &mut self,
        provider: &String,
        start: i64,
        end: i64,
        requested: u64,
        max: u64,
    ) -> (r: Result<(), BookingError>)
        requires
            old(self).wf(),
        ensures
            final(self).wf(),
            start > end ==> r == Err::<(), BookingError>(BookingError::InvalidDateRange),
            start <= end ==> (r is Ok <==> fits(
                old(self).records(),
                provider@,
                start as int,
                end as int,
                requested as int,
                max as int,
            )),
            start <= end && !fits(
                old(self).records(),
                provider@,
                start as int,
                end as int,
                requested as int,
                max as int,
            ) ==> r == Err::<(), BookingError>(BookingError::OverCapacity),
            r is Err ==> final(self).records() == old(self).records(),
            r is Ok ==> forall|p: Seq<char>, d: int| #[trigger]
                final(self).committed(p, d) == old(self).committed(p, d) + if p == provider@
                    && stay_covers(start as int, end as int, d) {
                    requested as int
                } else {
                    0int
                },
    {
        if start > end {
            return Err(BookingError::InvalidDateRange);
        }
        let first = day_of_millis(start);
        let last = day_of_millis(end);
        proof {
            vstd::arithmetic::div_mod::lemma_div_is_ordered(start as int, end as int, 86_400_000);
        }
        let ghost before = self.records();
        let mut d = first;
        while d < last
            invariant
                self.wf(),
                self.records() == before,
                first == day_of(start as int),
                last == day_of(end as int),
                first <= d <= last,
                forall|x: int| first <= x < d ==> committed_in(before, provider@, x) + requested <= max,
            decreases last - d,
        {
            let c = self.committed_on(provider, d);
            if requested > max || c > max - requested {
                assert(stay_covers(start as int, end as int, d as int));
                return Err(BookingError::OverCapacity);
            }
            d = d + 1;
        }
        assert(fits(before, provider@, start as int, end as int, requested as int, max as int));
        let mut d = first;
        while d < last
            invariant
                self.wf(),
                first == day_of(start as int),
                last == day_of(end as int),
                first <= d <= last,
                forall|x: int| first <= x < last ==> committed_in(before, provider@, x) + requested <= max,
                forall|p: Seq<char>, x: int| #[trigger]
                    committed_in(self.records(), p, x) == committed_in(before, p, x) + if p
                        == provider@ && first <= x < d {
                        requested as int
                    } else {
                        0int
                    },
            decreases last - d,
        {
            assert(committed_in(self.records(), provider@, d as int) == committed_in(
                before,
                provider@,
                d as int,
            ));
            let ghost prev = self.records();
            self.add_units(provider, d, requested);
            assert forall|p: Seq<char>, x: int|
                #[trigger] committed_in(self.records(), p, x) == committed_in(before, p, x) + if p
                    == provider@ && first <= x < d + 1 {
                    requested as int
                } else {
                    0int
                } by {
                assert(self.committed(p, x) == committed_in(self.records(), p, x));
                assert(committed_in(prev, p, x) == committed_in(before, p, x) + if p == provider@
                    && first <= x < d {
                    requested as int
                } else {
                    0int
                });
            }
            d = d + 1;
        }
        Ok(())
    }

    /// For each of the `limit` days from `from_day` on, the units still free
    /// for `provider` under the declared `max` (zero where the day is full or
    /// over), in ascending order of day.
    pub fn remaining_capacity(&self, provider: &String, from_day: i64, limit: usize, max: u64) -> (r:
        Vec<u64>)
        requires
            self.wf(),
            limit <= i64::MAX,
            from_day + limit <= i64::MAX,
        ensures
            r@.len() == limit,
            forall|i: int|
                0 <= i < limit ==> #[trigger] r@[i] == remaining(
                    self.committed(provider@, from_day + i),
                    max as int,
                ),
    {
        let mut out: Vec<u64> = Vec::new();
        let mut i: usize = 0;
        while i < limit
            invariant
                self.wf(),
                i <= limit,
                limit <= i64::MAX,
                from_day + limit <= i64::MAX,
                out@.len() == i,
                forall|j: int|
                    0 <= j < i ==> #[trigger] out@[j] == remaining(
                        self.committed(provider@, from_day + j),
                        max as int,
                    ),
            decreases limit - i,
        {
            let c = self.committed_on(provider, from_day + i as i64);
            let free = if c <= max {
                max - c
            } else {
                0
            };
            out.push(free);
            i = i + 1;
        }
        out
    }
}

} // verus!
