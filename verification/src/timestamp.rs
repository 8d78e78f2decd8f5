//! Instants on the UTC time line, counted from the Unix epoch.

use vstd::prelude::*;

verus! {

/// Nanoseconds in one second.
pub const NANOS_PER_SEC: u32 = 1_000_000_000;

/// Every instant at most this many seconds away from the epoch (about
/// 31 000 years either way) can be rendered as text.
pub const RENDERABLE_SECS: i64 = 1_000_000_000_000;

/// The text that chrono's `%+` format gives for the UTC instant `secs`
/// seconds and `nanos` nanoseconds after the epoch, or `None` where chrono
/// cannot represent that instant.
pub uninterp spec fn rfc3339_utc(secs: int, nanos: int) -> Option<Seq<char>>;

/// The view of an optional string.
pub open spec fn text_of(text: Option<String>) -> Option<Seq<char>> {
    match text {
        Some(s) => Some(s@),
        None => None,
    }
}

/// The rendering of the instant `t` nanoseconds after the epoch.
pub open spec fn timestamp_text(t: int) -> Option<Seq<char>> {
    rfc3339_utc(t / (NANOS_PER_SEC as int), t % (NANOS_PER_SEC as int))
}

/// Whether the instant `t` nanoseconds after the epoch fits a [`Timestamp`].
pub open spec fn representable(t: int) -> bool {
    i64::MIN * NANOS_PER_SEC <= t < (i64::MAX + 1) * NANOS_PER_SEC
}

/// Whether the instant `t` nanoseconds after the epoch is certain to have a
/// rendering.
pub open spec fn renderable(t: int) -> bool {
    -RENDERABLE_SECS * NANOS_PER_SEC <= t < (RENDERABLE_SECS + 1) * NANOS_PER_SEC
}

/// An instant, held as whole seconds since the epoch and the nanoseconds
/// past that second. Its view is the number of nanoseconds since the epoch.
#[derive(Clone, Copy, Debug, PartialEq, Eq, Structural)]
pub struct Timestamp {
    secs: i64,
    nanos: u32,
}

impl View for Timestamp {
    type V = int;

    closed spec fn view(&self) -> int {
        self.secs * (NANOS_PER_SEC as int) + self.nanos
    }
}

impl Timestamp {
    #[verifier::type_invariant]
    spec fn normalized(self) -> bool {
        self.nanos < NANOS_PER_SEC
    }

    /// The instant `nanos` nanoseconds past the second `secs`; `None` where
    /// `nanos` is a whole second or more.
    pub fn new(secs: i64, nanos: u32) -> (t: Option<Timestamp>)
        ensures
            t is Some <==> nanos < NANOS_PER_SEC,
            t matches Some(t) ==> t@ == secs * NANOS_PER_SEC + nanos,
    {
        if nanos < NANOS_PER_SEC {
            Some(Timestamp { secs, nanos })
        } else {
            None
        }
    }

    /// The instant that lies `secs` seconds and `nanos` nanoseconds after
    /// the epoch; `None` where `nanos` is a whole second or more, or the
    /// instant is too late to be held.
    pub fn after_epoch(secs: u64, nanos: u32) -> (t: Option<Timestamp>)
        ensures
            t is Some <==> nanos < NANOS_PER_SEC && representable(secs * NANOS_PER_SEC + nanos),
            t matches Some(t) ==> t@ == secs * NANOS_PER_SEC + nanos,
    {
        if nanos < NANOS_PER_SEC && secs <= i64::MAX as u64 {
            Some(Timestamp { secs: secs as i64, nanos })
        } else {
            None
        }
    }

    /// The instant that lies `secs` seconds and `nanos` nanoseconds before
    /// the epoch; `None` where `nanos` is a whole second or more, or the
    /// instant is too early to be held.
    pub fn before_epoch(secs: u64, nanos: u32) -> (t: Option<Timestamp>)
        ensures
            t is Some <==> nanos < NANOS_PER_SEC && representable(-(secs * NANOS_PER_SEC + nanos)),
            t matches Some(t) ==> t@ == -(secs * NANOS_PER_SEC + nanos),
    {
        if nanos >= NANOS_PER_SEC {
            return None;
        }
        let borrow: i128 = if nanos == 0 { 0 } else { 1 };
        let whole: i128 = -(secs as i128) - borrow;
        if whole < i64::MIN as i128 {
            return None;
        }
        let rest: u32 = if nanos == 0 { 0 } else { NANOS_PER_SEC - nanos };
        Some(Timestamp { secs: whole as i64, nanos: rest })
    }

    /// Whole seconds since the epoch, rounded towards the past.
    pub fn secs(&self) -> (s: i64)
        ensures
            s == self@ / (NANOS_PER_SEC as int),
    {
        proof {
            use_type_invariant(self);
        }
        self.secs
    }

    /// Nanoseconds past the whole second.
    pub fn subsec_nanos(&self) -> (n: u32)
        ensures
            n == self@ % (NANOS_PER_SEC as int),
            n < NANOS_PER_SEC,
    {
        proof {
            use_type_invariant(self);
        }
        self.nanos
    }

    /// Whether this instant is earlier than `other`.
    pub fn is_before(&self, other: &Timestamp) -> (b: bool)
        ensures
            b == (self@ < other@),
    {
        proof {
            use_type_invariant(self);
            use_type_invariant(other);
        }
        self.secs < other.secs || (self.secs == other.secs && self.nanos < other.nanos)
    }
}

/// Asks chrono for the instant `secs` seconds and `nanos` nanoseconds after
/// the epoch (`DateTime::<Utc>::from_timestamp`) and renders it with the
/// `%+` format (`DateTime::format`, then `to_string`).
///
/// Nothing here is proved; the contract is what chrono is taken to do. The
/// text is a function of the two numbers alone, so it is named
/// ([`rfc3339_utc`]), not described. Chrono holds every instant between the
/// years -262143 and 262142, so one within [`RENDERABLE_SECS`] of the epoch
/// always has a text.
#[verifier::external_body]
fn render_utc(secs: i64, nanos: u32) -> (text: Option<String>)
    ensures
        text_of(text) == rfc3339_utc(secs as int, nanos as int),
        -RENDERABLE_SECS <= secs <= RENDERABLE_SECS && nanos < NANOS_PER_SEC ==> text is Some,
{
    match chrono::DateTime::from_timestamp(secs, nanos) {
        Some(instant) => Some(instant.format("%+").to_string()),
        None => None,
    }
}

/// The instant as extended ISO 8601 text with its UTC offset, such as
/// `2024-03-01T12:34:56.789+00:00`; `None` where the instant lies outside
/// the years that can be rendered.
pub fn iso8601(t: &Timestamp) -> (text: Option<String>)
    ensures
        text_of(text) == timestamp_text(t@),
        renderable(t@) ==> text is Some,
{
    render_utc(t.secs(), t.subsec_nanos())
}

} // verus!
