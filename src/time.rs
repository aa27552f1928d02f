//! Points in time, as whole seconds since the Unix epoch.
use vstd::prelude::*;
use vstd::string::{StrSliceExecFns, StringExecFns};

use crate::decimal::{dec, decimal};

verus! {

#[verifier::external_type_specification]
#[verifier::external_body]
pub struct ExSystemTime(std::time::SystemTime);

/// Relies on `std::time::SystemTime::now`: the current time of the system
/// clock, of which nothing is known in advance.
#[verifier::external_body]
fn system_now() -> std::time::SystemTime {
    std::time::SystemTime::now()
}

/// Relies on `SystemTime::duration_since` with the Unix epoch, in whole
/// seconds; `None` when `t` is before the epoch.
#[verifier::external_body]
fn secs_since_unix_epoch(t: &std::time::SystemTime) -> Option<u64> {
    t.duration_since(std::time::UNIX_EPOCH).ok().map(|d| d.as_secs())
}

/// A length of time in seconds.
pub type Duration = i64;

#[derive(Debug, Clone, Copy, PartialEq, Eq, Structural, PartialOrd, Ord, Hash)]
pub struct Timestamp {
    seconds_since_epoch: i64,
}

impl Timestamp {
    pub closed spec fn seconds(&self) -> i64 {
        self.seconds_since_epoch
    }

    /// The time `seconds_since_epoch` seconds after the Unix epoch.
    pub fn from_seconds(seconds_since_epoch: i64) -> (r: Timestamp)
        ensures
            r.seconds() == seconds_since_epoch,
    {
        Timestamp { seconds_since_epoch }
    }

    /// The time that the clock reading `clock_secs` stands for: the epoch
    /// for a clock that reads before it, and the latest representable time
    /// for one past that.
    pub fn from_clock(clock_secs: Option<u64>) -> (r: Timestamp)
        ensures
            r.seconds() == match clock_secs {
                Some(s) => if s <= i64::MAX as u64 {
                    s as i64
                } else {
                    i64::MAX
                },
                None => 0,
            },
    {
        let seconds_since_epoch = match clock_secs {
            Some(s) => if s <= i64::MAX as u64 {
                s as i64
            } else {
                i64::MAX
            },
            None => 0,
        };
        Timestamp { seconds_since_epoch }
    }

    /// The current time.
    pub fn now() -> (r: Timestamp)
        ensures
            r.seconds() >= 0,
    {
        let t = system_now();
        Timestamp::from_clock(secs_since_unix_epoch(&t))
    }

    pub fn is_before(self, other: Timestamp) -> (r: bool)
        ensures
            r == (self.seconds() < other.seconds()),
    {
        self.seconds_since_epoch < other.seconds_since_epoch
    }

    /// Whether this time has passed, by the clock now.
    pub fn is_in_past(self) -> (r: bool)
        ensures
            exists|n: Timestamp| (#[trigger] n.seconds()) >= 0 && r == (self.seconds() < n.seconds()),
    {
        let t = now();
        let r = self.is_before(t);
        assert(t.seconds() >= 0 && r == (self.seconds() < t.seconds()));
        r
    }

    /// The seconds since the epoch.
    pub fn repr(self) -> (r: i64)
        ensures
            r == self.seconds(),
    {
        self.seconds_since_epoch
    }

    /// The time `offset` seconds later.
    pub fn plus(self, offset: Duration) -> (r: Timestamp)
        requires
            i64::MIN <= self.seconds() + offset <= i64::MAX,
        ensures
            r.seconds() == self.seconds() + offset,
    {
        Timestamp { seconds_since_epoch: self.seconds_since_epoch + offset }
    }

    /// The time `offset` seconds earlier.
    pub fn minus(self, offset: Duration) -> (r: Timestamp)
        requires
            i64::MIN <= self.seconds() - offset <= i64::MAX,
        ensures
            r.seconds() == self.seconds() - offset,
    {
        Timestamp { seconds_since_epoch: self.seconds_since_epoch - offset }
    }

    /// The seconds from `other` to this time.
    pub fn since(self, other: Timestamp) -> (r: Duration)
        requires
            i64::MIN <= self.seconds() - other.seconds() <= i64::MAX,
        ensures
            r == self.seconds() - other.seconds(),
    {
        self.seconds_since_epoch - other.seconds_since_epoch
    }
}

/// The current time.
pub fn now() -> (r: Timestamp)
    ensures
        r.seconds() >= 0,
{
    Timestamp::now()
}

pub fn minutes(v: i64) -> (r: Duration)
    requires
        i64::MIN <= v * 60 <= i64::MAX,
    ensures
        r == v * 60,
{
    v * 60
}

pub fn hours(v: i64) -> (r: Duration)
    requires
        i64::MIN <= v * 3600 <= i64::MAX,
    ensures
        r == v * 3600,
{
    minutes(v) * 60
}

pub fn days(v: i64) -> (r: Duration)
    requires
        i64::MIN <= v * 86400 <= i64::MAX,
    ensures
        r == v * 86400,
{
    hours(v) * 24
}

// ---------------------------------------------------------------------------
// Showing a time
// ---------------------------------------------------------------------------

/// A time of day on a date of the proleptic Gregorian calendar, in UTC.
#[derive(Debug, Clone, Copy, PartialEq, Eq, Structural)]
pub struct CivilTime {
    pub year: i32,
    /// 1 to 12.
    pub month: u8,
    pub day: u8,
    pub hour: u8,
    pub minute: u8,
    pub second: u8,
}

/// The UTC calendar date and time of the moment `secs` seconds after the
/// Unix epoch, as year, month, day, hour, minute and second; `None` outside
/// the calendar's range of years.
pub uninterp spec fn utc_civil(secs: i64) -> Option<(i32, u8, u8, u8, u8, u8)>;

pub open spec fn civil_parts(c: CivilTime) -> (i32, u8, u8, u8, u8, u8) {
    (c.year, c.month, c.day, c.hour, c.minute, c.second)
}

/// Relies on `time::OffsetDateTime::from_unix_timestamp` and its calendar
/// accessors: the UTC date and time of a Unix timestamp, which fails outside
/// the supported years.
#[verifier::external_body]
fn civil_from_unix(secs: i64) -> (r: Option<CivilTime>)
    ensures
        match r {
            Some(c) => utc_civil(secs) == Some(civil_parts(c)),
            None => utc_civil(secs) is None,
        },
{
    match time::OffsetDateTime::from_unix_timestamp(secs) {
        Ok(t) => Some(CivilTime {
            year: t.year(),
            month: t.month() as u8,
            day: t.day(),
            hour: t.hour(),
            minute: t.minute(),
            second: t.second(),
        }),
        Err(_) => None,
    }
}

/// `k` zeros.
pub open spec fn zeros(k: int) -> Seq<char> {
    Seq::new(k as nat, |i: int| '0')
}

/// The decimal form of `n` with zeros in front up to `width` characters.
pub open spec fn padded(n: nat, width: nat) -> Seq<char> {
    if dec(n).len() < width {
        zeros(width - dec(n).len()) + dec(n)
    } else {
        dec(n)
    }
}

/// The decimal form of `n` in at least `width` characters, a minus sign
/// counting as one of them.
pub open spec fn padded_signed(n: int, width: nat) -> Seq<char> {
    if n < 0 {
        seq!['-'] + padded((-n) as nat, if width > 0 { (width - 1) as nat } else { 0 })
    } else {
        padded(n as nat, width)
    }
}

/// `YYYY-MM-DD hh:mm:ss UTC`.
pub open spec fn utc_text(c: CivilTime) -> Seq<char> {
    padded_signed(c.year as int, 4) + seq!['-'] + padded(c.month as nat, 2) + seq!['-'] + padded(
        c.day as nat,
        2,
    ) + seq![' '] + padded(c.hour as nat, 2) + seq![':'] + padded(c.minute as nat, 2) + seq![':']
        + padded(c.second as nat, 2) + " UTC"@
}

/// Appends the decimal form of `n` with zeros in front up to `width`
/// characters.
fn write_padded(out: &mut String, n: u64, width: usize)
    ensures
        final(out)@ == old(out)@ + padded(n as nat, width as nat),
{
    let digits = decimal(n);
    let len = digits.as_str().unicode_len();
    let mut k = len;
    let ghost start = out@;
    while k < width
        invariant
            len == dec(n as nat).len(),
            len <= k,
            k <= width || k == len,
            out@ == start + zeros(k - len),
        decreases width - k,
    {
        out.append("0");
        proof {
            reveal_strlit("0");
        }
        assert(out@ =~= start + zeros(k + 1 - len));
        k = k + 1;
    }
    out.append(digits.as_str());
    if len >= width {
        assert(zeros(k - len) =~= Seq::<char>::empty());
    }
    assert(final(out)@ =~= old(out)@ + padded(n as nat, width as nat));
}

/// The text that shows the moment `c`: `YYYY-MM-DD hh:mm:ss UTC`.
pub fn format_utc(c: CivilTime) -> (r: String)
    ensures
        r@ == utc_text(c),
{
    let mut out = String::new();
    if c.year < 0 {
        out.append("-");
        write_padded(&mut out, (-(c.year as i64)) as u64, 3);
    } else {
        write_padded(&mut out, c.year as u64, 4);
    }
    out.append("-");
    write_padded(&mut out, c.month as u64, 2);
    out.append("-");
    write_padded(&mut out, c.day as u64, 2);
    out.append(" ");
    write_padded(&mut out, c.hour as u64, 2);
    out.append(":");
    write_padded(&mut out, c.minute as u64, 2);
    out.append(":");
    write_padded(&mut out, c.second as u64, 2);
    out.append(" UTC");
    proof {
        reveal_strlit("-");
        reveal_strlit(" ");
        reveal_strlit(":");
        reveal_strlit(" UTC");
    }
    assert(out@ =~= utc_text(c));
    out
}

impl Timestamp {
    /// This time as `YYYY-MM-DD hh:mm:ss UTC`; `None` outside the years that
    /// the calendar covers.
    pub fn to_utc_string(self) -> (r: Option<String>)
        ensures
            match r {
                Some(text) => exists|c: CivilTime|
                    utc_civil(self.seconds()) == Some(civil_parts(c)) && text@ == utc_text(c),
                None => utc_civil(self.seconds()) is None,
            },
    {
        match civil_from_unix(self.seconds_since_epoch) {
            Some(c) => Some(format_utc(c)),
            None => None,
        }
    }
}

} // verus!
