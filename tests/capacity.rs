use appointments::error::BookingError;
use appointments::ledger::CapacityLedger;

const JAN_10: i64 = 1_704_880_800_000;
const JAN_11: i64 = 1_704_967_200_000;
const JAN_12: i64 = 1_705_050_000_000;
const DAY_JAN_10: i64 = 19_732;

#[test]
fn third_overlapping_booking_is_over_capacity() {
    let groomer = "groomer-a".to_string();
    let mut ledger = CapacityLedger::new();
    assert_eq!(ledger.check_and_reserve(&groomer, JAN_10, JAN_12, 1, 2), Ok(()));
    assert_eq!(ledger.check_and_reserve(&groomer, JAN_10, JAN_12, 1, 2), Ok(()));
    assert_eq!(ledger.committed_on(&groomer, DAY_JAN_10), 2);
    assert_eq!(ledger.committed_on(&groomer, DAY_JAN_10 + 1), 2);
    assert_eq!(ledger.committed_on(&groomer, DAY_JAN_10 + 2), 0);
    assert_eq!(
        ledger.check_and_reserve(&groomer, JAN_11, JAN_12, 1, 2),
        Err(BookingError::OverCapacity)
    );
}

#[test]
fn rejection_records_nothing() {
    let groomer = "groomer-b".to_string();
    let mut ledger = CapacityLedger::new();
    assert_eq!(ledger.check_and_reserve(&groomer, JAN_11, JAN_12, 3, 3), Ok(()));
    // Jan 10 would fit, Jan 11 would not: neither day changes.
    assert_eq!(
        ledger.check_and_reserve(&groomer, JAN_10, JAN_12, 1, 3),
        Err(BookingError::OverCapacity)
    );
    assert_eq!(ledger.committed_on(&groomer, DAY_JAN_10), 0);
    assert_eq!(ledger.committed_on(&groomer, DAY_JAN_10 + 1), 3);
}

#[test]
fn providers_have_separate_ledgers() {
    let a = "groomer-a".to_string();
    let b = "groomer-b".to_string();
    let mut ledger = CapacityLedger::new();
    assert_eq!(ledger.check_and_reserve(&a, JAN_10, JAN_12, 2, 2), Ok(()));
    assert_eq!(ledger.check_and_reserve(&b, JAN_10, JAN_12, 2, 2), Ok(()));
    assert_eq!(ledger.committed_on(&a, DAY_JAN_10), 2);
    assert_eq!(ledger.committed_on(&b, DAY_JAN_10), 2);
}

#[test]
fn same_day_stay_admits_trivially() {
    let groomer = "groomer-c".to_string();
    let mut ledger = CapacityLedger::new();
    assert_eq!(ledger.check_and_reserve(&groomer, JAN_10, JAN_10 + 3_600_000, 5, 0), Ok(()));
    assert_eq!(ledger.committed_on(&groomer, DAY_JAN_10), 0);
}

#[test]
fn request_larger_than_the_maximum_is_refused() {
    let groomer = "groomer-d".to_string();
    let mut ledger = CapacityLedger::new();
    assert_eq!(
        ledger.check_and_reserve(&groomer, JAN_10, JAN_11, 3, 2),
        Err(BookingError::OverCapacity)
    );
    assert_eq!(
        ledger.check_and_reserve(&groomer, JAN_10, JAN_11, u64::MAX, u64::MAX),
        Ok(())
    );
    assert_eq!(
        ledger.check_and_reserve(&groomer, JAN_10, JAN_11, 1, u64::MAX),
        Err(BookingError::OverCapacity)
    );
}

#[test]
fn reversed_stay_is_an_invalid_range() {
    let groomer = "groomer-e".to_string();
    let mut ledger = CapacityLedger::new();
    assert_eq!(
        ledger.check_and_reserve(&groomer, JAN_12, JAN_10, 1, 2),
        Err(BookingError::InvalidDateRange)
    );
    assert_eq!(ledger.committed_on(&groomer, DAY_JAN_10), 0);
}

#[test]
fn remaining_capacity_counts_down_per_day() {
    let groomer = "groomer-f".to_string();
    let mut ledger = CapacityLedger::new();
    assert_eq!(ledger.check_and_reserve(&groomer, JAN_10, JAN_12, 1, 4), Ok(()));
    assert_eq!(ledger.check_and_reserve(&groomer, JAN_11, JAN_12, 2, 4), Ok(()));
    assert_eq!(
        ledger.remaining_capacity(&groomer, DAY_JAN_10 - 1, 4, 4),
        vec![4, 3, 1, 4]
    );
    assert_eq!(ledger.remaining_capacity(&groomer, DAY_JAN_10 + 1, 1, 2), vec![0]);
    assert_eq!(ledger.remaining_capacity(&groomer, DAY_JAN_10, 0, 4), Vec::<u64>::new());
}
