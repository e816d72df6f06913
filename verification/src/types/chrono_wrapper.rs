//! Dates, times of day and timestamps: kept as the numbers that the layout
//! writes, and checked against the calendar when they are made.

use crate::value_encoding::error::ValueEncodingError;
use vstd::prelude::*;

verus! {

/// `chrono::NaiveDate`: a date of the calendar, handed on and never looked
/// into.
#[verifier::external_type_specification]
#[verifier::external_body]
pub struct ExNaiveDate(chrono::NaiveDate);

/// `chrono::NaiveTime`: a time of day, handed on and never looked into.
#[verifier::external_type_specification]
#[verifier::external_body]
pub struct ExNaiveTime(chrono::NaiveTime);

/// `chrono::NaiveDateTime`: a timestamp of the calendar, handed on and never
/// looked into.
#[verifier::external_type_specification]
#[verifier::external_body]
pub struct ExNaiveDateTime(chrono::NaiveDateTime);

/// Whether the calendar has a date with this day number, counted from
/// January 1 of year 1 as day 1.
pub uninterp spec fn naive_date_exists(days: i32) -> bool;

/// Whether a timestamp of `secs` whole seconds from the start of 1970 and
/// `nsecs` nanoseconds is representable.
pub uninterp spec fn naive_datetime_exists(secs: i64, nsecs: u32) -> bool;

/// Whether `secs` seconds from midnight and `nano` nanoseconds are a time of
/// day. The nanoseconds may reach into a second billion only in the last
/// second of a minute, where they stand for a leap second.
pub open spec fn naive_time_valid(secs: u32, nano: u32) -> bool {
    &&& secs < 86_400
    &&& nano < 2_000_000_000
    &&& (nano < 1_000_000_000 || secs % 60 == 59)
}

/// `chrono::NaiveDate::from_num_days_from_ce_opt` finds a date or none. Which
/// day numbers have a date is left to the calendar; the same number always
/// gives the same answer.
pub assume_specification[ chrono::NaiveDate::from_num_days_from_ce_opt ](days: i32) -> (r: Option<
    chrono::NaiveDate,
>)
    ensures
        r.is_some() == naive_date_exists(days),
;

/// `chrono::NaiveTime::from_num_seconds_from_midnight_opt` makes a time of
/// day exactly where the seconds are less than a day's, the nanoseconds less
/// than two billion, and a billion or more only in the last second of a
/// minute.
pub assume_specification[ chrono::NaiveTime::from_num_seconds_from_midnight_opt ](
    secs: u32,
    nano: u32,
) -> (r: Option<chrono::NaiveTime>)
    ensures
        r.is_some() == naive_time_valid(secs, nano),
;

/// `chrono::NaiveDateTime::from_timestamp_opt` makes a timestamp or none.
/// Which seconds and nanoseconds are representable is left to the calendar;
/// the same pair always gives the same answer.
#[allow(deprecated)]
pub assume_specification[ chrono::NaiveDateTime::from_timestamp_opt ](secs: i64, nsecs: u32) -> (r:
    Option<chrono::NaiveDateTime>)
    ensures
        r.is_some() == naive_datetime_exists(secs, nsecs),
;

/// A calendar date, kept as its day number counted from January 1 of year 1
/// as day 1.
#[derive(Clone, Copy, Debug, PartialEq, Eq)]
pub struct NaiveDateWrapper {
    days: i32,
}

impl View for NaiveDateWrapper {
    type V = i32;

    closed spec fn view(&self) -> i32 {
        self.days
    }
}

impl NaiveDateWrapper {
    #[verifier::type_invariant]
    spec fn in_calendar(self) -> bool {
        naive_date_exists(self.days)
    }

    /// The date with day number `days`, given what the calendar found for
    /// that number.
    pub fn from_lookup(days: i32, found: Option<chrono::NaiveDate>) -> (r: Result<
        Self,
        ValueEncodingError,
    >)
        requires
            found.is_some() ==> naive_date_exists(days),
        ensures
            found.is_some() ==> (r matches Ok(date) && date@ == days),
            found.is_none() ==> r == Err::<Self, ValueEncodingError>(
                ValueEncodingError::InvalidNaiveDateEncoding(days),
            ),
    {
        match found {
            Some(_) => Ok(NaiveDateWrapper { days }),
            None => Err(ValueEncodingError::InvalidNaiveDateEncoding(days)),
        }
    }

    /// The date with day number `days`, or an error where the calendar has
    /// none.
    pub fn new_with_days_value_encoding(days: i32) -> (r: Result<Self, ValueEncodingError>)
        ensures
            naive_date_exists(days) ==> (r matches Ok(date) && date@ == days),
            !naive_date_exists(days) ==> r == Err::<Self, ValueEncodingError>(
                ValueEncodingError::InvalidNaiveDateEncoding(days),
            ),
    {
        Self::from_lookup(days, chrono::NaiveDate::from_num_days_from_ce_opt(days))
    }

    pub fn num_days_from_ce(&self) -> (days: i32)
        ensures
            days == self@,
            naive_date_exists(days),
    {
        proof {
            use_type_invariant(self);
        }
        self.days
    }
}

/// A time of day, kept as seconds from midnight and nanoseconds.
#[derive(Clone, Copy, Debug, PartialEq, Eq)]
pub struct NaiveTimeWrapper {
    secs: u32,
    nano: u32,
}

impl View for NaiveTimeWrapper {
    type V = (u32, u32);

    closed spec fn view(&self) -> (u32, u32) {
        (self.secs, self.nano)
    }
}

impl NaiveTimeWrapper {
    #[verifier::type_invariant]
    spec fn in_day(self) -> bool {
        naive_time_valid(self.secs, self.nano)
    }

    /// The time of day at `secs` seconds from midnight and `nano`
    /// nanoseconds, or an error where there is none.
    pub fn new_with_secs_nano_value_encoding(secs: u32, nano: u32) -> (r: Result<
        Self,
        ValueEncodingError,
    >)
        ensures
            naive_time_valid(secs, nano) ==> (r matches Ok(time) && time@ == (secs, nano)),
            !naive_time_valid(secs, nano) ==> r == Err::<Self, ValueEncodingError>(
                ValueEncodingError::InvalidNaiveTimeEncoding(secs, nano),
            ),
    {
        match chrono::NaiveTime::from_num_seconds_from_midnight_opt(secs, nano) {
            Some(_) => Ok(NaiveTimeWrapper { secs, nano }),
            None => Err(ValueEncodingError::InvalidNaiveTimeEncoding(secs, nano)),
        }
    }

    pub fn num_seconds_from_midnight(&self) -> (secs: u32)
        ensures
            secs == self@.0,
            naive_time_valid(self@.0, self@.1),
    {
        proof {
            use_type_invariant(self);
        }
        self.secs
    }

    pub fn nanosecond(&self) -> (nano: u32)
        ensures
            nano == self@.1,
            naive_time_valid(self@.0, self@.1),
    {
        proof {
            use_type_invariant(self);
        }
        self.nano
    }
}

/// A timestamp without a zone, kept as whole seconds from the start of 1970
/// and nanoseconds.
#[derive(Clone, Copy, Debug, PartialEq, Eq)]
pub struct NaiveDateTimeWrapper {
    secs: i64,
    nsecs: u32,
}

impl View for NaiveDateTimeWrapper {
    type V = (i64, u32);

    closed spec fn view(&self) -> (i64, u32) {
        (self.secs, self.nsecs)
    }
}

impl NaiveDateTimeWrapper {
    #[verifier::type_invariant]
    spec fn in_calendar(self) -> bool {
        naive_datetime_exists(self.secs, self.nsecs)
    }

    /// The timestamp of `secs` seconds and `nsecs` nanoseconds, given what
    /// the calendar found for that pair.
    pub fn from_lookup(secs: i64, nsecs: u32, found: Option<chrono::NaiveDateTime>) -> (r: Result<
        Self,
        ValueEncodingError,
    >)
        requires
            found.is_some() ==> naive_datetime_exists(secs, nsecs),
        ensures
            found.is_some() ==> (r matches Ok(stamp) && stamp@ == (secs, nsecs)),
            found.is_none() ==> r == Err::<Self, ValueEncodingError>(
                ValueEncodingError::InvalidNaiveDateTimeEncoding(secs, nsecs),
            ),
    {
        match found {
            Some(_) => Ok(NaiveDateTimeWrapper { secs, nsecs }),
            None => Err(ValueEncodingError::InvalidNaiveDateTimeEncoding(secs, nsecs)),
        }
    }

    /// The timestamp of `secs` seconds and `nsecs` nanoseconds, or an error
    /// where it is not representable.
    #[allow(deprecated)]
    pub fn new_with_secs_nsecs_value_encoding(secs: i64, nsecs: u32) -> (r: Result<
        Self,
        ValueEncodingError,
    >)
        ensures
            naive_datetime_exists(secs, nsecs) ==> (r matches Ok(stamp) && stamp@ == (secs, nsecs)),
            !naive_datetime_exists(secs, nsecs) ==> r == Err::<Self, ValueEncodingError>(
                ValueEncodingError::InvalidNaiveDateTimeEncoding(secs, nsecs),
            ),
    {
        Self::from_lookup(secs, nsecs, chrono::NaiveDateTime::from_timestamp_opt(secs, nsecs))
    }

    pub fn timestamp(&self) -> (secs: i64)
        ensures
            secs == self@.0,
            naive_datetime_exists(self@.0, self@.1),
    {
        proof {
            use_type_invariant(self);
        }
        self.secs
    }

    pub fn timestamp_subsec_nanos(&self) -> (nsecs: u32)
        ensures
            nsecs == self@.1,
            naive_datetime_exists(self@.0, self@.1),
    {
        proof {
            use_type_invariant(self);
        }
        self.nsecs
    }
}

} // verus!
