//! Instants on the UTC time line and the retention rule built on them.

use crate::text::chars_of;
use vstd::prelude::*;

verus! {

/// The text that `chrono` writes for the instant `secs` seconds and `nanos`
/// nanoseconds after the Unix epoch, in RFC 3339 with `Z` for UTC and as many
/// fractional digits as the instant needs; `None` where `chrono` has no such
/// instant.
pub uninterp spec fn rfc3339_text(secs: int, nanos: int) -> Option<Seq<char>>;

/// The instant that `chrono` reads from a text in RFC 3339; `None` where it
/// reads none.
pub uninterp spec fn rfc3339_instant(text: Seq<char>) -> Option<Timestamp>;

/// Calls `chrono::DateTime::from_timestamp` and, on the instant it gives,
/// `DateTime::to_rfc3339_opts` with `SecondsFormat::AutoSi` and `Z`. Claims
/// only that the text depends on the two numbers alone.
#[verifier::external_body]
fn write_rfc3339(secs: i64, nanos: u32) -> (text: Option<String>)
    ensures
        match text {
            Some(t) => rfc3339_text(secs as int, nanos as int) == Some(t@),
            None => rfc3339_text(secs as int, nanos as int) is None,
        },
{
    match chrono::DateTime::from_timestamp(secs, nanos) {
        Some(instant) => Some(instant.to_rfc3339_opts(chrono::SecondsFormat::AutoSi, true)),
        None => None,
    }
}

/// Calls `chrono::DateTime::parse_from_rfc3339` and takes the instant's
/// seconds and nanoseconds with `timestamp` and `timestamp_subsec_nanos`.
/// Claims only that the instant depends on the text alone.
#[verifier::external_body]
fn read_rfc3339(text: &str) -> (instant: Option<Timestamp>)
    ensures
        instant == rfc3339_instant(text@),
{
    match chrono::DateTime::parse_from_rfc3339(text) {
        Ok(read) => Some(Timestamp { secs: read.timestamp(), nanos: read.timestamp_subsec_nanos() }),
        Err(_) => None,
    }
}

/// A text that can stand between quotation marks as it is.
pub open spec fn is_plain(text: Seq<char>) -> bool {
    forall|i: int| 0 <= i < text.len() ==> text[i] != '"'
}

/// Decides `is_plain`.
pub fn plain(text: &str) -> (b: bool)
    ensures
        b == is_plain(text@),
{
    let chars = chars_of(text);
    let mut i: usize = 0;
    while i < chars.len()
        invariant
            chars@ == text@,
            i <= chars@.len(),
            forall|k: int| 0 <= k < i ==> chars@[k] != '"',
        decreases chars@.len() - i,
    {
        if chars[i] == '"' {
            return false;
        }
        i += 1;
    }
    true
}

/// Seconds in the retention window of thirty days.
pub const RETENTION_SECS: i64 = 2_592_000;

/// The first second of the instants that `chrono` can hold: the beginning
/// of the year -262143.
pub const FIRST_SECOND: i64 = -8_334_601_228_800;

/// The last second of the instants that `chrono` can hold: the end of the
/// year 262142.
pub const LAST_SECOND: i64 = 8_210_266_876_799;

/// Nanoseconds in one second.
pub const NANOS_PER_SEC: u32 = 1_000_000_000;

/// An instant: whole seconds since the Unix epoch and the nanoseconds since
/// that second began. A reading taken inside a leap second keeps the second
/// before it and carries a nanosecond count of one billion or more.
#[derive(Clone, Copy, Debug, PartialEq, Eq, Structural)]
pub struct Timestamp {
    pub secs: i64,
    pub nanos: u32,
}

impl Timestamp {
    /// Strict order of two instants on the time line.
    pub open spec fn is_before(self, other: Timestamp) -> bool {
        self.secs < other.secs || (self.secs == other.secs && self.nanos < other.nanos)
    }

    /// The nanosecond count once the window has been added: a leap-second
    /// reading falls back into the ordinary second it extends.
    pub open spec fn settled_nanos(self) -> int {
        if self.nanos >= NANOS_PER_SEC {
            self.nanos - NANOS_PER_SEC
        } else {
            self.nanos as int
        }
    }

    /// The instant thirty days after `self`, where `chrono` can hold it.
    pub open spec fn window_end(self) -> Option<Timestamp> {
        if FIRST_SECOND <= self.secs + RETENTION_SECS <= LAST_SECOND {
            Some(
                Timestamp {
                    secs: (self.secs + RETENTION_SECS) as i64,
                    nanos: self.settled_nanos() as u32,
                },
            )
        } else {
            None
        }
    }

    /// Whether a record last touched at `self` has outlived the retention
    /// window by the time `now`: the instant thirty days after `self` lies
    /// strictly before `now`.
    pub open spec fn is_expired_at(self, now: Timestamp) -> bool {
        self.secs + RETENTION_SECS < now.secs || (self.secs + RETENTION_SECS == now.secs
            && self.settled_nanos() < now.nanos)
    }

    /// The text under which the instant is kept in a record: what `chrono`
    /// writes for it, provided that text is plain and `chrono` reads the
    /// same instant back from it.
    pub open spec fn written(self) -> Option<Seq<char>> {
        match rfc3339_text(self.secs as int, self.nanos as int) {
            Some(text) => if is_plain(text) && rfc3339_instant(text) == Some(self) {
                Some(text)
            } else {
                None
            },
            None => None,
        }
    }

    /// Writes the instant as a record keeps it, or says that it cannot be
    /// kept.
    pub fn to_text(&self) -> (text: Option<String>)
        ensures
            match text {
                Some(t) => self.written() == Some(t@),
                None => self.written() is None,
            },
    {
        match write_rfc3339(self.secs, self.nanos) {
            Some(text) => {
                let back = read_rfc3339(text.as_str());
                let same = match back {
                    Some(instant) => instant.secs == self.secs && instant.nanos == self.nanos,
                    None => false,
                };
                if same && plain(text.as_str()) {
                    Some(text)
                } else {
                    None
                }
            },
            None => None,
        }
    }

    /// Reads an instant from a text in RFC 3339.
    pub fn from_text(text: &str) -> (instant: Option<Timestamp>)
        ensures
            instant == rfc3339_instant(text@),
    {
        read_rfc3339(text)
    }

    /// The instant `secs` seconds and `nanos` nanoseconds after the epoch.
    pub fn new(secs: i64, nanos: u32) -> (t: Timestamp)
        ensures
            t.secs == secs,
            t.nanos == nanos,
    {
        Timestamp { secs, nanos }
    }

    /// Decides `self.is_before(*other)`.
    pub fn before(&self, other: &Timestamp) -> (b: bool)
        ensures
            b == self.is_before(*other),
    {
        self.secs < other.secs || (self.secs == other.secs && self.nanos < other.nanos)
    }

    /// Computes `self.settled_nanos()`.
    fn settled(&self) -> (nanos: u32)
        ensures
            nanos == self.settled_nanos(),
    {
        if self.nanos >= NANOS_PER_SEC {
            self.nanos - NANOS_PER_SEC
        } else {
            self.nanos
        }
    }

    /// Computes `self.window_end()`.
    pub fn plus_window(&self) -> (end: Option<Timestamp>)
        ensures
            end == self.window_end(),
    {
        match self.secs.checked_add(RETENTION_SECS) {
            Some(secs) => if FIRST_SECOND <= secs && secs <= LAST_SECOND {
                Some(Timestamp { secs, nanos: self.settled() })
            } else {
                None
            },
            None => None,
        }
    }

    /// Decides `self.is_expired_at(*now)`.
    pub fn expired_at(&self, now: &Timestamp) -> (b: bool)
        ensures
            b == self.is_expired_at(*now),
    {
        match self.secs.checked_add(RETENTION_SECS) {
            Some(deadline) => deadline < now.secs || (deadline == now.secs && self.settled()
                < now.nanos),
            None => false,
        }
    }
}

/// A record is kept through the whole window: while `now` is no later than
/// thirty days after the last update, it has not expired, and from the first
/// nanosecond after that it has.
pub proof fn lemma_retention_boundary(last: Timestamp, now: Timestamp)
    requires
        last.nanos < NANOS_PER_SEC,
    ensures
        now.secs < last.secs + RETENTION_SECS ==> !last.is_expired_at(now),
        now.secs == last.secs + RETENTION_SECS && now.nanos <= last.nanos ==> !last.is_expired_at(
            now,
        ),
        now.secs > last.secs + RETENTION_SECS ==> last.is_expired_at(now),
        now.secs == last.secs + RETENTION_SECS && now.nanos > last.nanos ==> last.is_expired_at(
            now,
        ),
{
}

} // verus!
