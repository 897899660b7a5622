//! What calibre tells about a book.
use crate::bindings::{format_time, is_rfc3339_year, is_within_second, parse_time, time_parsed, time_text};
use vstd::prelude::*;

verus! {

/// A point in time that has an RFC 3339 text: seconds since 1970 in UTC, and nanoseconds. A leap
/// second has a billion nanoseconds or more.
#[derive(Debug, Clone, Copy, PartialEq, Eq)]
pub struct Timestamp {
    secs: i64,
    nanos: u32,
}

impl Timestamp {
    /// The time can be written.
    #[verifier::type_invariant]
    spec fn is_writable(self) -> bool {
        time_text(self.secs, self.nanos) is Some
    }

    /// The seconds since 1970.
    pub closed spec fn secs_spec(self) -> i64 {
        self.secs
    }

    /// The nanoseconds within the second.
    pub closed spec fn nanos_spec(self) -> u32 {
        self.nanos
    }

    /// The time with these seconds and nanoseconds, where there is one.
    pub fn new(secs: i64, nanos: u32) -> (result: Option<Timestamp>)
        ensures
            result is Some <==> time_text(secs, nanos) is Some,
            result matches Some(time) ==> time.secs_spec() == secs && time.nanos_spec() == nanos,
            result is Some ==> is_within_second(secs, nanos),
            is_rfc3339_year(secs) && is_within_second(secs, nanos) ==> result is Some,
    {
        match format_time(secs, nanos) {
            Some(_) => Some(Timestamp { secs, nanos }),
            None => None,
        }
    }

    /// The seconds since 1970.
    pub fn secs(&self) -> (secs: i64)
        ensures
            secs == self.secs_spec(),
    {
        self.secs
    }

    /// The nanoseconds within the second.
    pub fn nanos(&self) -> (nanos: u32)
        ensures
            nanos == self.nanos_spec(),
    {
        self.nanos
    }
}

/// Reads a time from its text.
pub fn deserialize(text: &str) -> (result: Result<Timestamp, String>)
    ensures
        match result {
            Ok(time) => time_parsed(text@) is Ok && time_parsed(text@)->Ok_0 == (
                time.secs_spec(),
                time.nanos_spec(),
            ),
            Err(message) => time_parsed(text@) is Err && time_parsed(text@)->Err_0 == message@,
        },
{
    match parse_time(text) {
        Ok((secs, nanos)) => Ok(Timestamp { secs, nanos }),
        Err(message) => Err(message),
    }
}

/// Writes a time as RFC 3339 text. From the year 0 to the year 9999 it is read back from the text
/// unchanged.
pub fn serialize(date: &Timestamp) -> (text: String)
    ensures
        time_text(date.secs_spec(), date.nanos_spec()) == Some(text@),
        is_rfc3339_year(date.secs_spec()) ==> time_parsed(text@) is Ok && time_parsed(text@)->Ok_0
            == (date.secs_spec(), date.nanos_spec()),
{
    proof {
        use_type_invariant(date);
    }
    match format_time(date.secs, date.nanos) {
        Some(text) => text,
        None => String::new(),
    }
}

/// A book as calibre describes it. The number of the book within its series, which may be a
/// fraction, is not kept.
#[derive(Debug, PartialEq)]
pub struct Metadata {
    pub uuid: String,
    pub lpath: String,
    pub last_modified: Timestamp,
    pub size: usize,
    pub title: String,
    pub authors: Vec<String>,
    pub tags: Vec<String>,
    pub series: Option<String>,
}

} // verus!
