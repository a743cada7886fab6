//! Creation times: an instant in UTC held as plain integers, and its text at
//! minute granularity.

use std::fmt::Write;
use vstd::prelude::*;

verus! {

/// The text that chrono prints for the UTC instant `secs` seconds and `nanos`
/// nanoseconds after the Unix epoch under the strftime pattern `pattern`.
/// `None` where chrono has no such instant or does not accept the pattern.
pub uninterp spec fn utc_text(secs: i64, nanos: u32, pattern: Seq<char>) -> Option<Seq<char>>;

/// The pattern under which a creation time enters a password hash: year, month,
/// day, hour and minute, and nothing finer.
pub const MINUTE_PATTERN: &'static str = "%Y-%m-%d-%H-%M";

/// Builds the instant with `chrono::DateTime::from_timestamp` and prints it
/// with `chrono::DateTime::format`. Not proved: that the text returned is
/// [`utc_text`] of the three arguments, which says no more than that chrono
/// prints the same text for the same arguments. `from_timestamp` gives no
/// instant for seconds out of chrono's range or nanoseconds that no second
/// has; printing fails on a pattern that chrono cannot read.
#[verifier::external_body]
fn format_utc(secs: i64, nanos: u32, pattern: &str) -> (text: Option<String>)
    ensures
        text is Some <==> utc_text(secs, nanos, pattern@) is Some,
        text matches Some(s) ==> utc_text(secs, nanos, pattern@) == Some(s@),
{
    let mut out = String::new();
    match chrono::DateTime::from_timestamp(secs, nanos) {
        Some(instant) => match write!(out, "{}", instant.format(pattern)) {
            Ok(()) => Some(out),
            Err(_) => None,
        },
        None => None,
    }
}

/// Reads the clock with `chrono::Utc::now` and takes the instant apart with
/// `DateTime::timestamp` and `DateTime::timestamp_subsec_nanos`. Not proved:
/// that chrono makes an instant of these two numbers again and prints it
/// under [`MINUTE_PATTERN`]. chrono documents that `from_timestamp` rebuilds
/// what the two accessors return. `Utc::now` panics where the system clock
/// stands before the year 1970.
#[verifier::external_body]
fn utc_now() -> (parts: (i64, u32))
    ensures
        utc_text(parts.0, parts.1, MINUTE_PATTERN@) is Some,
{
    let instant = chrono::Utc::now();
    (instant.timestamp(), instant.timestamp_subsec_nanos())
}

/// An instant in UTC that chrono can represent: whole seconds since the Unix
/// epoch and the nanoseconds past that second.
#[derive(Clone, Copy, Debug, PartialEq, Eq, Structural)]
pub struct Timestamp {
    secs: i64,
    nanos: u32,
}

impl Timestamp {
    /// Whether `secs` and `nanos` denote an instant that has a text.
    pub open spec fn representable(secs: i64, nanos: u32) -> bool {
        utc_text(secs, nanos, MINUTE_PATTERN@) is Some
    }

    /// Whole seconds since the Unix epoch.
    pub closed spec fn secs(self) -> i64 {
        self.secs
    }

    /// Nanoseconds past the last whole second.
    pub closed spec fn nanos(self) -> u32 {
        self.nanos
    }

    /// What holds of every timestamp: it has a text.
    #[verifier::type_invariant]
    pub open spec fn in_range(self) -> bool {
        Self::representable(self.secs(), self.nanos())
    }

    /// The instant's text at minute granularity.
    pub open spec fn minute(self) -> Seq<char> {
        utc_text(self.secs(), self.nanos(), MINUTE_PATTERN@).unwrap()
    }

    /// The instant `secs` seconds and `nanos` nanoseconds after the epoch, if
    /// there is one.
    pub fn new(secs: i64, nanos: u32) -> (made: Option<Timestamp>)
        ensures
            made is Some <==> Self::representable(secs, nanos),
            made matches Some(t) ==> t.secs() == secs && t.nanos() == nanos,
    {
        match format_utc(secs, nanos, MINUTE_PATTERN) {
            Some(_) => Some(Timestamp { secs, nanos }),
            None => None,
        }
    }

    /// The instant that the clock shows. Which instant that is depends on
    /// the moment of the call; whichever it is, it is one that has a text.
    pub fn now() -> (t: Timestamp)
        ensures
            Self::representable(t.secs(), t.nanos()),
    {
        let (secs, nanos) = utc_now();
        Timestamp { secs, nanos }
    }

    /// Whole seconds since the Unix epoch.
    pub fn timestamp(&self) -> (secs: i64)
        ensures
            secs == self.secs(),
    {
        self.secs
    }

    /// Nanoseconds past the last whole second.
    pub fn timestamp_subsec_nanos(&self) -> (nanos: u32)
        ensures
            nanos == self.nanos(),
    {
        self.nanos
    }

    /// The text under which this instant enters a password hash.
    pub fn minute_text(&self) -> (text: String)
        ensures
            text@ == self.minute(),
    {
        proof {
            use_type_invariant(self);
        }
        format_utc(self.secs, self.nanos, MINUTE_PATTERN).unwrap()
    }
}

} // verus!
