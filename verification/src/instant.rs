//! Points in time and time spans, as whole seconds and nanoseconds.
//!
//! The cache compares instants, adds a time-to-live to the current instant and
//! writes the result into every stored entry.  The calendar arithmetic behind
//! the written form belongs to `chrono`; here it is reached through three
//! small trusted functions, and everything decided on their results is
//! verified.
use vstd::prelude::*;

verus! {

/// Nanoseconds in one second.
pub const NANOS_PER_SEC: u32 = 1_000_000_000;

/// An instant: seconds since the Unix epoch, and nanoseconds into that second.
#[derive(Clone, Copy, Debug, PartialEq, Eq, Structural)]
pub struct Timestamp {
    /// Whole seconds since 1970-01-01T00:00:00Z; negative before it.
    pub secs: i64,
    /// Nanoseconds into the second.
    pub nanos: u32,
}

/// A signed time span: whole seconds, and nanoseconds on top of them.
#[derive(Clone, Copy, Debug, PartialEq, Eq, Structural)]
pub struct Duration {
    /// Whole seconds; negative for a span into the past.
    pub secs: i64,
    /// Nanoseconds added to the seconds.
    pub nanos: u32,
}

/// The written form that `chrono` gives the instant `secs`, `nanos`: the bytes
/// of its RFC 3339 text in UTC, or `None` where `chrono` cannot hold the instant.
pub uninterp spec fn rfc3339_text(secs: i64, nanos: u32) -> Option<Seq<u8>>;

/// The instant that `chrono` reads from `text`, or `None` where it reads none.
pub uninterp spec fn rfc3339_instant(text: Seq<u8>) -> Option<(i64, u32)>;

/// Reads the system clock with `chrono::Utc::now` and hands back the seconds
/// and nanoseconds of that instant.  Nothing is claimed of the result.
#[verifier::external_body]
fn clock() -> (r: (i64, u32)) {
    let t = chrono::Utc::now();
    (t.timestamp(), t.timestamp_subsec_nanos())
}

/// Builds the instant with `chrono::DateTime::from_timestamp` and writes it
/// with `DateTime::to_rfc3339_opts`, automatic sub-second digits and `Z` for
/// UTC.  The contract only names the result: the bytes are `rfc3339_text` of
/// the arguments, and `None` comes back exactly where that is `None`.
#[verifier::external_body]
fn format_rfc3339(secs: i64, nanos: u32) -> (r: Option<Vec<u8>>)
    ensures
        match r {
            Some(text) => rfc3339_text(secs, nanos) == Some(text@),
            None => rfc3339_text(secs, nanos) is None,
        },
{
    let t = chrono::DateTime::<chrono::Utc>::from_timestamp(secs, nanos)?;
    Some(t.to_rfc3339_opts(chrono::SecondsFormat::AutoSi, true).into_bytes())
}

/// Reads `text` with the `FromStr` impl of `chrono::DateTime<Utc>` and hands
/// back the seconds and nanoseconds of the instant.  The contract only names
/// the result: it is `rfc3339_instant` of the bytes.
#[verifier::external_body]
fn parse_rfc3339(text: &[u8]) -> (r: Option<(i64, u32)>)
    ensures
        r == rfc3339_instant(text@),
{
    let s = std::str::from_utf8(text).ok()?;
    let t = s.parse::<chrono::DateTime<chrono::Utc>>().ok()?;
    Some((t.timestamp(), t.timestamp_subsec_nanos()))
}

impl Duration {
    /// The span in nanoseconds.
    pub open spec fn length(self) -> int {
        self.secs * 1_000_000_000 + self.nanos
    }

    /// A span of `secs` whole seconds.
    pub fn seconds(secs: i64) -> (r: Duration)
        ensures
            r == (Duration { secs, nanos: 0 }),
            r.length() == secs * 1_000_000_000,
    {
        Duration { secs, nanos: 0 }
    }

    /// The span of `secs` whole seconds and `subsec` nanoseconds, where both
    /// point the same way: `subsec` lies within one second of zero and is
    /// negative only in a span into the past.  `None` for a `subsec` of a
    /// second or more, and where the seconds leave the range of `i64`.
    pub fn from_parts(secs: i64, subsec: i32) -> (r: Option<Duration>)
        ensures
            match r {
                Some(span) => span.nanos < NANOS_PER_SEC && span.length() == secs * 1_000_000_000
                    + subsec,
                None => subsec <= -1_000_000_000 || subsec >= 1_000_000_000 || (subsec < 0
                    && secs == i64::MIN),
            },
    {
        if subsec <= -1_000_000_000 || subsec >= 1_000_000_000 {
            None
        } else if subsec >= 0 {
            Some(Duration { secs, nanos: subsec as u32 })
        } else if secs == i64::MIN {
            None
        } else {
            Some(Duration { secs: secs - 1, nanos: (subsec + 1_000_000_000) as u32 })
        }
    }

    /// A span of `millis` milliseconds.
    pub fn milliseconds(millis: i64) -> (r: Duration)
        ensures
            r.nanos < NANOS_PER_SEC,
            r.length() == millis * 1_000_000,
    {
        let whole: i64 = millis / 1000;
        let part: i64 = millis % 1000;
        if part < 0 {
            Duration { secs: whole - 1, nanos: ((part + 1000) * 1_000_000) as u32 }
        } else {
            Duration { secs: whole, nanos: (part * 1_000_000) as u32 }
        }
    }
}

impl Timestamp {
    /// The nanoseconds stay within one second.
    pub open spec fn wf(self) -> bool {
        self.nanos < NANOS_PER_SEC
    }

    /// Nanoseconds since the Unix epoch.
    pub open spec fn since_epoch(self) -> int {
        self.secs * 1_000_000_000 + self.nanos
    }

    /// `self` lies before `other`: by the seconds, then by the nanoseconds.
    pub open spec fn precedes(self, other: Timestamp) -> bool {
        self.secs < other.secs || (self.secs == other.secs && self.nanos < other.nanos)
    }

    /// The instant `span` after `self`, with the nanoseconds carried into the
    /// seconds; `None` where the seconds leave the range of `i64`.
    pub open spec fn plus(self, span: Duration) -> Option<Timestamp> {
        let sum = self.nanos + span.nanos;
        let secs = self.secs + span.secs + sum / 1_000_000_000;
        if i64::MIN <= secs <= i64::MAX {
            Some(Timestamp { secs: secs as i64, nanos: (sum % 1_000_000_000) as u32 })
        } else {
            None
        }
    }

    /// The written form of `self`, where `chrono` has one that it reads back
    /// as the same instant.
    pub open spec fn written(self) -> Option<Seq<u8>> {
        match rfc3339_text(self.secs, self.nanos) {
            Some(text) => if text.len() <= u64::MAX && rfc3339_instant(text) == Some(
                (self.secs, self.nanos),
            ) {
                Some(text)
            } else {
                None
            },
            None => None,
        }
    }

    /// The instant that a written form stands for.
    pub open spec fn read(text: Seq<u8>) -> Option<Timestamp> {
        match rfc3339_instant(text) {
            Some((secs, nanos)) => Some(Timestamp { secs, nanos }),
            None => None,
        }
    }

    /// Whether `self` lies before `other`.
    pub fn is_before(&self, other: &Timestamp) -> (r: bool)
        ensures
            r == self.precedes(*other),
    {
        self.secs < other.secs || (self.secs == other.secs && self.nanos < other.nanos)
    }

    /// The instant `span` after `self`, or `None` on overflow of the seconds.
    pub fn checked_add(&self, span: &Duration) -> (r: Option<Timestamp>)
        ensures
            r == self.plus(*span),
    {
        let sum: u64 = self.nanos as u64 + span.nanos as u64;
        let carry: i64 = (sum / 1_000_000_000) as i64;
        let nanos: u32 = (sum % 1_000_000_000) as u32;
        match self.secs.checked_add(span.secs) {
            Some(secs) => match secs.checked_add(carry) {
                Some(secs) => Some(Timestamp { secs, nanos }),
                None => None,
            },
            None => {
                // The carry is at most 8 and never negative: it cannot bring
                // the sum back from below the range, and from above only
                // further away.
                if span.secs < 0 {
                    let short: i64 = self.secs + carry;
                    match short.checked_add(span.secs) {
                        Some(secs) => Some(Timestamp { secs, nanos }),
                        None => None,
                    }
                } else {
                    None
                }
            },
        }
    }

    /// The current instant, read from the system clock.  A clock reading
    /// inside a leap second is held at the last nanosecond before it.
    pub fn now() -> (r: Timestamp)
        ensures
            r.wf(),
    {
        let (secs, nanos): (i64, u32) = clock();
        Timestamp::from_reading(secs, nanos)
    }

    /// The instant that a clock reading of `secs` seconds and `nanos`
    /// nanoseconds stands for: the reading itself, but for a reading inside
    /// a leap second, which is held at the last nanosecond before it.
    pub open spec fn of_reading(secs: i64, nanos: u32) -> Timestamp {
        if nanos < NANOS_PER_SEC {
            Timestamp { secs, nanos }
        } else {
            Timestamp { secs, nanos: (NANOS_PER_SEC - 1) as u32 }
        }
    }

    /// The instant that a clock reading stands for.
    pub fn from_reading(secs: i64, nanos: u32) -> (r: Timestamp)
        ensures
            r == Timestamp::of_reading(secs, nanos),
            r.wf(),
    {
        if nanos < NANOS_PER_SEC {
            Timestamp { secs, nanos }
        } else {
            Timestamp { secs, nanos: NANOS_PER_SEC - 1 }
        }
    }

    /// The written form of `self`: RFC 3339 text in UTC.  `None` where the
    /// instant has no such form, or one that does not read back as `self`.
    pub fn to_text(&self) -> (r: Option<Vec<u8>>)
        ensures
            match r {
                Some(text) => self.written() == Some(text@),
                None => self.written() is None,
            },
    {
        match format_rfc3339(self.secs, self.nanos) {
            Some(text) => {
                assert(text@.len() == text.len());
                match parse_rfc3339(text.as_slice()) {
                    Some((secs, nanos)) => if secs == self.secs && nanos == self.nanos {
                        Some(text)
                    } else {
                        None
                    },
                    None => None,
                }
            },
            None => None,
        }
    }

    /// The instant that `text` stands for, if it is RFC 3339 text.
    pub fn from_text(text: &[u8]) -> (r: Option<Timestamp>)
        ensures
            r == Timestamp::read(text@),
    {
        match parse_rfc3339(text) {
            Some((secs, nanos)) => Some(Timestamp { secs, nanos }),
            None => None,
        }
    }
}

/// Among well-formed instants, the earlier one is the one with fewer
/// nanoseconds since the epoch.
pub proof fn lemma_precedes_is_order(a: Timestamp, b: Timestamp)
    requires
        a.wf(),
        b.wf(),
    ensures
        a.precedes(b) <==> a.since_epoch() < b.since_epoch(),
{
}

/// Adding a span to a well-formed instant gives a well-formed instant that
/// lies the span's length further on.
pub proof fn lemma_plus_is_sum(t: Timestamp, span: Duration)
    requires
        t.wf(),
        t.plus(span) is Some,
    ensures
        t.plus(span).unwrap().wf(),
        t.plus(span).unwrap().since_epoch() == t.since_epoch() + span.length(),
{
}

/// A written form reads back as the instant it was written for.
pub proof fn lemma_written_reads_back(t: Timestamp)
    requires
        t.written() is Some,
    ensures
        Timestamp::read(t.written().unwrap()) == Some(t),
{
}

} // verus!
