//! Moments in time, as the inbox orders and shows them.

use vstd::prelude::*;

verus! {

/// The least number of seconds since the Unix epoch that a moment can have.
pub const MIN_SECS: i64 = -8334601228800;

/// The greatest number of seconds since the Unix epoch that a moment can have.
pub const MAX_SECS: i64 = 8210266876799;

/// A moment: whole seconds since the Unix epoch, and nanoseconds since that second.
pub struct Moment {
    pub secs: int,
    pub nanos: int,
}

impl Moment {
    /// The moments that exist. The nanoseconds reach past a full second only within a leap second.
    pub open spec fn valid(self) -> bool {
        &&& MIN_SECS <= self.secs <= MAX_SECS
        &&& 0 <= self.nanos < 2_000_000_000
        &&& self.nanos >= 1_000_000_000 ==> self.secs % 60 == 59
    }

    /// `self` comes after `other`.
    pub open spec fn after(self, other: Moment) -> bool {
        self.secs > other.secs || (self.secs == other.secs && self.nanos > other.nanos)
    }
}

/// A moment in UTC. Every value is one that `chrono::DateTime<Utc>` can hold.
#[derive(Clone, Copy, Debug, PartialEq, Eq, Structural)]
pub struct Timestamp {
    secs: i64,
    nanos: u32,
}

impl View for Timestamp {
    type V = Moment;

    closed spec fn view(&self) -> Moment {
        Moment { secs: self.secs as int, nanos: self.nanos as int }
    }
}

impl Timestamp {
    #[verifier::type_invariant]
    spec fn in_range(self) -> bool {
        self@.valid()
    }

    /// The moment `secs` seconds and `nanos` nanoseconds after the Unix epoch, if there is one.
    pub fn from_parts(secs: i64, nanos: u32) -> (res: Option<Timestamp>)
        ensures
            ({
                let at = Moment { secs: secs as int, nanos: nanos as int };
                &&& res is Some <==> at.valid()
                &&& res matches Some(t) ==> t@ == at
            }),
    {
        if secs < MIN_SECS || secs > MAX_SECS || nanos >= 2_000_000_000 {
            return None;
        }
        if nanos >= 1_000_000_000 {
            let shifted: u64 = (secs - MIN_SECS) as u64;
            assert(MIN_SECS % 60 == 0);
            if shifted % 60 != 59 {
                return None;
            }
        }
        Some(Timestamp { secs, nanos })
    }

    /// Whole seconds since the Unix epoch.
    pub fn secs(&self) -> (secs: i64)
        ensures
            secs == self@.secs,
    {
        self.secs
    }

    /// Nanoseconds since the last whole second.
    pub fn nanos(&self) -> (nanos: u32)
        ensures
            nanos == self@.nanos,
    {
        self.nanos
    }

    /// The current moment.
    pub fn now() -> (now: Timestamp)
        ensures
            now@.valid(),
    {
        let (secs, nanos) = utc_now();
        Timestamp { secs, nanos }
    }

    /// Tells whether `self` comes after `other`.
    pub fn is_after(&self, other: &Timestamp) -> (res: bool)
        ensures
            res == self@.after(other@),
            res == (self@.secs * 2_000_000_000 + self@.nanos > other@.secs * 2_000_000_000
                + other@.nanos),
    {
        proof {
            use_type_invariant(self);
            use_type_invariant(other);
        }
        self.secs > other.secs || (self.secs == other.secs && self.nanos > other.nanos)
    }

    /// Writes the moment in UTC by a `strftime` pattern of the specifiers in [`plain_pattern`].
    pub fn format(&self, pattern: &str) -> (out: String)
        requires
            plain_pattern(pattern@),
        ensures
            out@ == utc_text(self@.secs, self@.nanos, pattern@),
            drawn_from(out@, pattern@),
    {
        proof {
            use_type_invariant(self);
        }
        format_utc(self.secs, self.nanos, pattern)
    }
}

/// Calls `chrono::Utc::now` and takes the moment apart with `timestamp` and
/// `timestamp_subsec_nanos`. Which moment it is depends on the machine's clock; whichever it is, it
/// is one that a `DateTime<Utc>` can hold. It panics on a machine whose clock is set before the
/// Unix epoch.
#[verifier::external_body]
fn utc_now() -> (now: (i64, u32))
    ensures
        (Moment { secs: now.0 as int, nanos: now.1 as int }).valid(),
{
    let now = chrono::Utc::now();
    (now.timestamp(), now.timestamp_subsec_nanos())
}

/// Every `%` of the pattern starts one of the specifiers `%d`, `%b`, `%H`, `%M` and `%S`.
pub open spec fn plain_pattern(pattern: Seq<char>) -> bool {
    forall|i: int|
        0 <= i < pattern.len() && #[trigger] pattern[i] == '%' ==> i + 1 < pattern.len() && {
            let c = pattern[i + 1];
            c == 'd' || c == 'b' || c == 'H' || c == 'M' || c == 'S'
        }
}

/// A letter or digit of ASCII.
pub open spec fn is_alphanumeric(c: char) -> bool {
    '0' <= c <= '9' || 'A' <= c <= 'Z' || 'a' <= c <= 'z'
}

/// Each character of `s` is a letter, a digit or a character of `pattern`.
pub open spec fn drawn_from(s: Seq<char>, pattern: Seq<char>) -> bool {
    forall|i: int|
        0 <= i < s.len() ==> is_alphanumeric(#[trigger] s[i]) || pattern.contains(s[i])
}

/// The moment `secs`, `nanos` in UTC, written by `pattern` as `chrono::DateTime::format` does.
pub uninterp spec fn utc_text(secs: int, nanos: int, pattern: Seq<char>) -> Seq<char>;

/// Calls `chrono::DateTime::format` on the moment that `chrono::DateTime::from_timestamp` makes of
/// the two numbers, and writes the result out. The text is named [`utc_text`]. Of its characters
/// only this is claimed: `%d`, `%H`, `%M` and `%S` give digits, `%b` gives the letters of an English
/// month name, and all else is copied from the pattern.
#[verifier::external_body]
fn format_utc(secs: i64, nanos: u32, pattern: &str) -> (out: String)
    requires
        (Moment { secs: secs as int, nanos: nanos as int }).valid(),
        plain_pattern(pattern@),
    ensures
        out@ == utc_text(secs as int, nanos as int, pattern@),
        drawn_from(out@, pattern@),
{
    chrono::DateTime::from_timestamp(secs, nanos).unwrap().format(pattern).to_string()
}

/// One moment comes after another exactly when it lies further along the time line, on which each
/// second has room for the nanoseconds of a leap second.
pub proof fn after_is_later(a: Moment, b: Moment)
    requires
        a.valid(),
        b.valid(),
    ensures
        a.after(b) <==> a.secs * 2_000_000_000 + a.nanos > b.secs * 2_000_000_000 + b.nanos,
{
}

/// A moment of a later second comes after every moment of an earlier one; within a second the
/// nanoseconds decide, and no moment comes after itself.
pub proof fn seconds_decide_first(a: Moment, b: Moment)
    ensures
        a.secs > b.secs ==> a.after(b) && !b.after(a),
        a.secs == b.secs ==> (a.after(b) <==> a.nanos > b.nanos),
        a.after(b) || b.after(a) || (a.secs == b.secs && a.nanos == b.nanos),
        !(a.after(b) && b.after(a)),
{
}

/// A moment exists for every second from the start of the year -262143 to the end of the year
/// 262142, with every nanosecond of that second; only the last second of a minute can be a leap
/// second, which has twice as many.
pub proof fn moments_that_exist(at: Moment)
    ensures
        at.valid() <==> -8334601228800 <= at.secs <= 8210266876799 && 0 <= at.nanos && (at.nanos
            < 1_000_000_000 || (at.nanos < 2_000_000_000 && at.secs % 60 == 59)),
{
}

} // verus!
