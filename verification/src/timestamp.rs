//! The timestamp that ping replies carry: a text in RFC 3339 form, kept
//! until it is at least a millisecond old.
//!
//! Time is counted in nanoseconds since the Unix epoch and handed in by the
//! caller, so that the cache never reads a clock itself.

use vstd::prelude::*;

verus! {

/// Nanoseconds in one second.
pub const NANOS_PER_SEC: u128 = 1_000_000_000;

/// Age, in nanoseconds, from which a cached timestamp is refreshed.
pub const STALE_AFTER_NANOS: u128 = 1_000_000;

/// The last second of the year 9999, counted from the Unix epoch. Every
/// instant from the epoch up to it has a text.
pub const LAST_DATED_SECOND: i64 = 253_402_300_799;

/// The RFC 3339 text that chrono gives for a Unix timestamp of `secs` whole
/// seconds and `nanos` further nanoseconds, or `None` where chrono has no
/// date for it.
pub uninterp spec fn rfc3339_text(secs: i64, nanos: u32) -> Option<Seq<char>>;

/// Calls chrono's `DateTime::from_timestamp` and, on the date that comes
/// back, `DateTime::to_rfc3339`. Neither is verified here. The contract
/// names the text and adds two facts: the text is never empty, since the
/// year, month and day are always written; and there is a text for every
/// second from the epoch to the end of the year 9999 with less than a
/// second's worth of nanoseconds, since chrono's calendar reaches far
/// beyond those years and refuses only a nanosecond count of a second or
/// more.
#[verifier::external_body]
fn format_timestamp(secs: i64, nanos: u32) -> (text: Option<String>)
    ensures
        match text {
            Some(t) => rfc3339_text(secs, nanos) == Some(t@) && t@.len() > 0,
            None => rfc3339_text(secs, nanos) is None,
        },
        0 <= secs <= LAST_DATED_SECOND && nanos < 1_000_000_000 ==> text is Some,
{
    match chrono::DateTime::from_timestamp(secs, nanos) {
        Some(moment) => Some(moment.to_rfc3339()),
        None => None,
    }
}

/// The RFC 3339 text of the instant `now`, where it has one: the seconds
/// must fit chrono's signed count.
pub open spec fn text_at(now: u128) -> Option<Seq<char>> {
    if now / NANOS_PER_SEC <= i64::MAX {
        rfc3339_text((now / NANOS_PER_SEC) as i64, (now % NANOS_PER_SEC) as u32)
    } else {
        None
    }
}

/// Whether the instant `now` lies between the epoch and the end of the
/// year 9999.
pub open spec fn is_dated(now: u128) -> bool {
    now / NANOS_PER_SEC <= LAST_DATED_SECOND
}

/// Whether a timestamp taken at `last_updated` is due for a refresh at
/// `now`: it is at least [`STALE_AFTER_NANOS`] old, or the clock has gone
/// backwards.
pub open spec fn stale_at(last_updated: u128, now: u128) -> bool {
    now < last_updated || now - last_updated >= STALE_AFTER_NANOS
}

/// What a [`TimestampCache`] holds.
pub ghost struct CacheView {
    /// The cached text; empty until the first refresh.
    pub timestamp: Seq<char>,
    /// The instant of the last refresh.
    pub last_updated: u128,
}

/// A single cached timestamp with the instant at which it was taken.
#[derive(Debug)]
pub struct TimestampCache {
    timestamp: String,
    last_updated: u128,
}

impl View for TimestampCache {
    type V = CacheView;

    closed spec fn view(&self) -> CacheView {
        CacheView { timestamp: self.timestamp@, last_updated: self.last_updated }
    }
}

impl CacheView {
    /// Whether a request that arrives at `now` finds the cache in need of a
    /// refresh: there is no text yet, or the text is stale.
    pub open spec fn due_at(self, now: u128) -> bool {
        self.timestamp.len() == 0 || stale_at(self.last_updated, now)
    }
}

/// Renders the instant `now` as RFC 3339 text. Every instant from the epoch
/// to the end of the year 9999 has one.
pub fn render(now: u128) -> (text: Option<String>)
    ensures
        match text {
            Some(t) => text_at(now) == Some(t@) && t@.len() > 0,
            None => text_at(now) is None,
        },
        is_dated(now) ==> text is Some,
{
    let secs: u128 = now / NANOS_PER_SEC;
    let nanos: u128 = now % NANOS_PER_SEC;
    if secs <= i64::MAX as u128 {
        format_timestamp(secs as i64, nanos as u32)
    } else {
        None
    }
}

impl TimestampCache {
    /// An empty cache, last refreshed at the epoch.
    pub fn new() -> (cache: Self)
        ensures
            cache@ == (CacheView { timestamp: Seq::empty(), last_updated: 0 }),
    {
        TimestampCache { timestamp: String::new(), last_updated: 0 }
    }

    /// Whether the cached timestamp is due for a refresh at `now`.
    pub fn is_stale(&self, now: u128) -> (stale: bool)
        ensures
            stale == stale_at(self@.last_updated, now),
    {
        now < self.last_updated || now - self.last_updated >= STALE_AFTER_NANOS
    }

    /// Whether a request that arrives at `now` finds the cache in need of a
    /// refresh: there is no text yet, or the text is stale.
    pub fn needs_refresh(&self, now: u128) -> (due: bool)
        ensures
            due == self@.due_at(now),
    {
        self.timestamp.as_str().is_empty() || self.is_stale(now)
    }

    /// Replaces the cached timestamp by `text`, taken at `now`.
    pub fn store(&mut self, now: u128, text: String)
        ensures
            final(self)@ == (CacheView { timestamp: text@, last_updated: now }),
    {
        self.timestamp = text;
        self.last_updated = now;
    }

    /// Replaces the cached timestamp by the text of `now`. Where `now` has
    /// no such text the cache stays as it is and the answer is `false`;
    /// that does not happen from the epoch to the end of the year 9999.
    pub fn refresh(&mut self, now: u128) -> (refreshed: bool)
        ensures
            match text_at(now) {
                Some(t) => refreshed && final(self)@ == (CacheView {
                    timestamp: t,
                    last_updated: now,
                }) && t.len() > 0,
                None => !refreshed && final(self)@ == old(self)@,
            },
            is_dated(now) ==> refreshed,
    {
        match render(now) {
            Some(text) => {
                self.store(now, text);
                true
            },
            None => false,
        }
    }

    /// Brings the cache up to date for a request that arrives at `now`: a
    /// timestamp that is missing or stale is refreshed, a fresh one is
    /// kept. The answer says whether the cache changed. Afterwards the
    /// cache holds a text, unless it held none and `now` has none either,
    /// which does not happen from the epoch to the end of the year 9999.
    pub fn observe(&mut self, now: u128) -> (refreshed: bool)
        ensures
            refreshed == (old(self)@.due_at(now) && text_at(now) is Some),
            refreshed ==> final(self)@ == (CacheView {
                timestamp: text_at(now).unwrap(),
                last_updated: now,
            }),
            !refreshed ==> final(self)@ == old(self)@,
            text_at(now) is Some || old(self)@.timestamp.len() > 0 ==> final(self)@.timestamp.len()
                > 0,
            is_dated(now) ==> final(self)@.timestamp.len() > 0,
    {
        if self.needs_refresh(now) {
            self.refresh(now)
        } else {
            false
        }
    }

    /// The cached timestamp.
    pub fn timestamp(&self) -> (text: String)
        ensures
            text@ == self@.timestamp,
    {
        self.timestamp.clone()
    }

    /// The instant of the last refresh.
    pub fn last_updated(&self) -> (at: u128)
        ensures
            at == self@.last_updated,
    {
        self.last_updated
    }
}

} // verus!
