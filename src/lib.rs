//! Booking core of a pet-grooming appointment service: the appointment status
//! state machine, calendar-day arithmetic on instants, capacity admission per
//! provider and day, and the pure steps of creating, listing and enriching
//! appointment records.
pub mod booking;
pub mod calendar;
pub mod enrich;
pub mod error;
pub mod ledger;
pub mod pets;
pub mod status;
pub mod store;
