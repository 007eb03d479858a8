//! Failures that the booking core reports to its callers.
use vstd::prelude::*;

verus! {

/// Every way a booking operation can fail, each kept distinct.
#[derive(Clone, Copy, Debug, PartialEq, Eq, Structural)]
pub enum BookingError {
    /// The appointment or record looked up by id is absent.
    NotFound,
    /// The customer registry does not know the customer.
    CustomerUnknown,
    /// The provider registry does not know the provider.
    ProviderUnknown,
    /// A timestamp is unreadable, or the start lies after the end.
    InvalidDateRange,
    /// Some day of the requested range would exceed the provider's capacity.
    OverCapacity,
    /// The requested status would move an appointment backwards.
    IncorrectStatusFlow,
    /// A collaborator or the store failed, timed out or answered malformed data.
    InternalError,
}

/// How a caller should present a failure.
#[derive(Clone, Copy, Debug, PartialEq, Eq, Structural)]
pub enum ErrorClass {
    NotFound,
    BadInput,
    OverCapacity,
    ServiceFailure,
}

pub open spec fn class_of(e: BookingError) -> ErrorClass {
    match e {
        BookingError::NotFound | BookingError::CustomerUnknown | BookingError::ProviderUnknown => ErrorClass::NotFound,
        BookingError::InvalidDateRange | BookingError::IncorrectStatusFlow => ErrorClass::BadInput,
        BookingError::OverCapacity => ErrorClass::OverCapacity,
        BookingError::InternalError => ErrorClass::ServiceFailure,
    }
}

/// The message shown to a caller for each failure.
pub open spec fn message_of(e: BookingError) -> Seq<char> {
    match e {
        BookingError::NotFound => "appointment cannot be found"@,
        BookingError::CustomerUnknown => "user cannot be found"@,
        BookingError::ProviderUnknown => "groomer cannot be found"@,
        BookingError::InvalidDateRange => "the date range is invalid"@,
        BookingError::OverCapacity => "the groomer is fully booked on some day of the stay"@,
        BookingError::IncorrectStatusFlow => "incorrect status flow"@,
        BookingError::InternalError => "internal server error"@,
    }
}

impl BookingError {
    /// The message shown to a caller for this failure.
    pub fn message(&self) -> (r: &'static str)
        ensures
            r@ == message_of(*self),
    {
        match self {
            BookingError::NotFound => "appointment cannot be found",
            BookingError::CustomerUnknown => "user cannot be found",
            BookingError::ProviderUnknown => "groomer cannot be found",
            BookingError::InvalidDateRange => "the date range is invalid",
            BookingError::OverCapacity => "the groomer is fully booked on some day of the stay",
            BookingError::IncorrectStatusFlow => "incorrect status flow",
            BookingError::InternalError => "internal server error",
        }
    }

    /// The response class of this failure.
    pub fn class(&self) -> (r: ErrorClass)
        ensures
            r == class_of(*self),
    {
        match self {
            BookingError::NotFound => ErrorClass::NotFound,
            BookingError::CustomerUnknown => ErrorClass::NotFound,
            BookingError::ProviderUnknown => ErrorClass::NotFound,
            BookingError::InvalidDateRange => ErrorClass::BadInput,
            BookingError::IncorrectStatusFlow => ErrorClass::BadInput,
            BookingError::OverCapacity => ErrorClass::OverCapacity,
            BookingError::InternalError => ErrorClass::ServiceFailure,
        }
    }
}

} // verus!
