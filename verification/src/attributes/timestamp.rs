//! Instants as the table counts them: in steps of 100 nanoseconds from the
//! first day of the year 1601.
use vstd::prelude::*;

verus! {

/// Number of filetime steps in one microsecond.
pub const TICKS_PER_MICROSECOND: u64 = 10;

/// Microseconds from 1601-01-01T00:00:00Z to 1970-01-01T00:00:00Z.
pub const UNIX_EPOCH_MICROS: u64 = 11_644_473_600_000_000;

/// The last microsecond that a filetime can name.
pub const LAST_MICROS: u64 = 1_844_674_407_370_955_161;

/// An instant, held as the count of whole microseconds since
/// 1601-01-01T00:00:00Z. No instant lies behind the last one that a
/// filetime can name.
#[derive(Clone, Copy, Debug, PartialEq, Eq, Structural, PartialOrd, Ord, Hash)]
pub struct Timestamp {
    micros: u64,
}

impl View for Timestamp {
    type V = nat;

    /// The count of microseconds since 1601-01-01T00:00:00Z.
    closed spec fn view(&self) -> nat {
        self.micros as nat
    }
}

/// The text of the instant that lies `unix_micros` microseconds from
/// 1970-01-01T00:00:00Z, as RFC 3339 writes it in UTC.
pub uninterp spec fn rfc3339_text(unix_micros: int) -> Seq<char>;

/// `chrono::DateTime::<Utc>::from_timestamp_micros`, then `to_rfc3339` on
/// the instant that it gives: the RFC 3339 text of the instant, in UTC.
/// The first gives nothing for an instant more than some 262,000 years from
/// the common era; every count that a filetime leads to lies far inside
/// that range.
#[verifier::external_body]
fn rfc3339(unix_micros: i64) -> (text: String)
    requires
        -(UNIX_EPOCH_MICROS as int) <= unix_micros <= LAST_MICROS - UNIX_EPOCH_MICROS,
    ensures
        text@ == rfc3339_text(unix_micros as int),
{
    match chrono::DateTime::from_timestamp_micros(unix_micros) {
        Some(instant) => instant.to_rfc3339(),
        None => String::new(),
    }
}

impl Timestamp {
    #[verifier::type_invariant]
    spec fn in_range(self) -> bool {
        self.micros <= LAST_MICROS
    }

    /// The instant that the filetime `ticks` names: the first day of 1601
    /// and a microsecond for every ten steps; what is left of a step is
    /// dropped.
    pub closed spec fn of_filetime(ticks: u64) -> Timestamp {
        Timestamp { micros: ticks / TICKS_PER_MICROSECOND }
    }

    /// The count of microseconds from 1970-01-01T00:00:00Z to this instant.
    pub open spec fn unix_micros_spec(self) -> int {
        self@ - UNIX_EPOCH_MICROS
    }

    /// The first instant: 1601-01-01T00:00:00Z.
    pub fn epoch() -> (t: Timestamp)
        ensures
            t@ == 0,
            t == Timestamp::of_filetime(0),
    {
        Timestamp { micros: 0 }
    }

    /// The instant `micros` microseconds after 1601-01-01T00:00:00Z, if a
    /// filetime can name it.
    pub fn from_micros(micros: u64) -> (t: Option<Timestamp>)
        ensures
            micros <= LAST_MICROS ==> t is Some && t->Some_0@ == micros,
            micros > LAST_MICROS ==> t is None,
    {
        if micros <= LAST_MICROS {
            Some(Timestamp { micros })
        } else {
            None
        }
    }

    /// The count of microseconds from 1601-01-01T00:00:00Z to this instant.
    pub fn micros(&self) -> (micros: u64)
        ensures
            micros == self@,
            micros <= LAST_MICROS,
    {
        proof {
            use_type_invariant(self);
        }
        self.micros
    }

    /// The count of microseconds from 1970-01-01T00:00:00Z to this instant.
    pub fn unix_micros(&self) -> (micros: i64)
        ensures
            micros == self.unix_micros_spec(),
    {
        proof {
            use_type_invariant(self);
        }
        if self.micros >= UNIX_EPOCH_MICROS {
            (self.micros - UNIX_EPOCH_MICROS) as i64
        } else {
            -((UNIX_EPOCH_MICROS - self.micros) as i64)
        }
    }

    /// The instant as RFC 3339 writes it in UTC.
    pub fn to_rfc3339(&self) -> (text: String)
        ensures
            text@ == rfc3339_text(self.unix_micros_spec()),
    {
        proof {
            use_type_invariant(self);
        }
        rfc3339(self.unix_micros())
    }
}

/// Two instants with the same count of microseconds are the same instant.
pub proof fn lemma_timestamp_by_view(a: Timestamp, b: Timestamp)
    requires
        a@ == b@,
    ensures
        a == b,
{
}

/// The instant of a filetime lies a microsecond from the first day of 1601
/// for every ten steps of the filetime.
pub proof fn lemma_filetime_micros(ticks: u64)
    ensures
        Timestamp::of_filetime(ticks)@ == ticks / TICKS_PER_MICROSECOND,
        Timestamp::of_filetime(ticks)@ <= LAST_MICROS,
{
}

/// The instant that the filetime `timestamp` names.
pub fn convert_u64_to_datetime(timestamp: u64) -> (t: Timestamp)
    ensures
        t == Timestamp::of_filetime(timestamp),
        t@ == timestamp / TICKS_PER_MICROSECOND,
{
    Timestamp { micros: timestamp / TICKS_PER_MICROSECOND }
}

} // verus!
