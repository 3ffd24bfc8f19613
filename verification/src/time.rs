//! Timestamps and durations, and the text the calendar gives them.

use vstd::prelude::*;

verus! {

/// The text of the UTC date and time that lies `secs` seconds and `nanos`
/// nanoseconds after the Unix epoch, or `None` where the calendar has no such
/// instant.
pub uninterp spec fn timestamp_text(secs: i64, nanos: u32) -> Option<Seq<char>>;

/// The decimal text of `secs` seconds and `nanos` nanoseconds, taken as one
/// number of seconds in double precision.
pub uninterp spec fn seconds_text(secs: u64, nanos: u32) -> Seq<char>;

/// Nanoseconds in one second.
pub const NANOS_PER_SEC: u32 = 1_000_000_000u32;

/// Calls `chrono::DateTime::from_timestamp` and, where it yields an instant,
/// the `to_string` of that `DateTime<Utc>`. The contract only names the
/// outcome: the text is whatever chrono prints for these two numbers, and
/// there is none exactly where chrono rejects them.
#[verifier::external_body]
fn utc_text(secs: i64, nanos: u32) -> (r: Option<String>)
    ensures
        r is Some <==> timestamp_text(secs, nanos) is Some,
        r matches Some(s) ==> Some(s@) == timestamp_text(secs, nanos),
{
    match chrono::DateTime::from_timestamp(secs, nanos) {
        Some(t) => Some(t.to_string()),
        None => None,
    }
}

/// Calls `std::time::Duration::new`, `Duration::as_secs_f64` and the
/// `to_string` of the resulting number. The contract only names the text. The
/// constructor panics when the nanoseconds carry past the last second, which
/// the bound on `nanos` rules out.
#[verifier::external_body]
fn double_seconds_text(secs: u64, nanos: u32) -> (r: String)
    requires
        nanos < NANOS_PER_SEC,
    ensures
        r@ == seconds_text(secs, nanos),
{
    std::time::Duration::new(secs, nanos).as_secs_f64().to_string()
}

/// A point in time that the calendar can name: seconds since the Unix epoch
/// and the nanoseconds within that second.
#[derive(Clone, Copy, Debug, PartialEq, Eq)]
pub struct Timestamp {
    secs: i64,
    nanos: u32,
}

impl Timestamp {
    #[verifier::type_invariant]
    spec fn nameable(self) -> bool {
        timestamp_text(self.secs, self.nanos) is Some
    }

    /// Seconds since the Unix epoch.
    pub closed spec fn spec_secs(&self) -> i64 {
        self.secs
    }

    /// Nanoseconds within the second.
    pub closed spec fn spec_nanos(&self) -> u32 {
        self.nanos
    }

    /// The timestamp of the given instant, where the calendar has one.
    pub fn new(secs: i64, nanos: u32) -> (r: Option<Timestamp>)
        ensures
            r is Some <==> timestamp_text(secs, nanos) is Some,
            r matches Some(t) ==> t.spec_secs() == secs && t.spec_nanos() == nanos,
    {
        match utc_text(secs, nanos) {
            Some(_) => Some(Timestamp { secs, nanos }),
            None => None,
        }
    }

    #[verifier::when_used_as_spec(spec_secs)]
    pub fn secs(&self) -> (r: i64)
        ensures
            r == self.spec_secs(),
    {
        self.secs
    }

    #[verifier::when_used_as_spec(spec_nanos)]
    pub fn nanos(&self) -> (r: u32)
        ensures
            r == self.spec_nanos(),
    {
        self.nanos
    }

    /// The canonical text of the instant.
    pub fn text(&self) -> (r: String)
        ensures
            Some(r@) == timestamp_text(self.spec_secs(), self.spec_nanos()),
    {
        proof {
            use_type_invariant(self);
        }
        utc_text(self.secs, self.nanos).unwrap()
    }
}

/// A length of time: whole seconds and fewer than a second's worth of
/// nanoseconds beyond them.
#[derive(Clone, Copy, Debug, PartialEq, Eq)]
pub struct Span {
    secs: u64,
    nanos: u32,
}

impl Span {
    #[verifier::type_invariant]
    spec fn normal(self) -> bool {
        self.nanos < NANOS_PER_SEC
    }

    /// Whole seconds.
    pub closed spec fn spec_secs(&self) -> u64 {
        self.secs
    }

    /// Nanoseconds beyond the whole seconds.
    pub closed spec fn spec_nanos(&self) -> u32 {
        self.nanos
    }

    /// The span of `secs` seconds and `nanos` nanoseconds, where `nanos` is
    /// less than one second.
    pub fn new(secs: u64, nanos: u32) -> (r: Option<Span>)
        ensures
            r is Some <==> nanos < NANOS_PER_SEC,
            r matches Some(d) ==> d.spec_secs() == secs && d.spec_nanos() == nanos,
    {
        if nanos < NANOS_PER_SEC {
            Some(Span { secs, nanos })
        } else {
            None
        }
    }

    #[verifier::when_used_as_spec(spec_secs)]
    pub fn secs(&self) -> (r: u64)
        ensures
            r == self.spec_secs(),
    {
        self.secs
    }

    #[verifier::when_used_as_spec(spec_nanos)]
    pub fn nanos(&self) -> (r: u32)
        ensures
            r == self.spec_nanos(),
            r < NANOS_PER_SEC,
    {
        proof {
            use_type_invariant(self);
        }
        self.nanos
    }

    /// The seconds of the span as one decimal number, fraction included.
    pub fn seconds_text(&self) -> (r: String)
        ensures
            r@ == seconds_text(self.spec_secs(), self.spec_nanos()),
    {
        proof {
            use_type_invariant(self);
        }
        double_seconds_text(self.secs, self.nanos)
    }
}

} // verus!
