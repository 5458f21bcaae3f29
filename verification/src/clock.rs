//! Instants on the assembly clock and source ages.

use vstd::prelude::*;

use chrono::{DateTime, Utc};

verus! {

/// An instant, as whole seconds since the Unix epoch (negative before it)
/// plus the nanoseconds into that second.
#[derive(Clone, Copy, Debug, PartialEq, Eq)]
pub struct Timestamp {
    pub secs: i64,
    pub nanos: u32,
}

impl Timestamp {
    pub open spec fn wf(self) -> bool {
        self.nanos < 1_000_000_000
    }

    /// Nanoseconds since the epoch.
    pub open spec fn total_nanos(self) -> int {
        self.secs * 1_000_000_000 + self.nanos
    }
}

/// Whole minutes that elapsed from `mtime` to `now`; 0 when `mtime` is later.
pub open spec fn spec_age_minutes(now: Timestamp, mtime: Timestamp) -> int {
    if now.total_nanos() >= mtime.total_nanos() {
        ((now.total_nanos() - mtime.total_nanos()) / 1_000_000_000) / 60
    } else {
        0
    }
}

/// Minutes since the source was last modified, against the assembly clock.
pub fn age_minutes(now: Timestamp, mtime: Timestamp) -> (m: u64)
    requires
        now.wf(),
        mtime.wf(),
    ensures
        m == spec_age_minutes(now, mtime),
{
    let n: i128 = now.secs as i128 * 1_000_000_000i128 + now.nanos as i128;
    let t: i128 = mtime.secs as i128 * 1_000_000_000i128 + mtime.nanos as i128;
    if n >= t {
        let d: i128 = n - t;
        let secs: i128 = d / 1_000_000_000i128;
        let mins: i128 = secs / 60i128;
        assert(0 <= mins <= u64::MAX) by (nonlinear_arith)
            requires
                mins == (d / 1_000_000_000) / 60,
                0 <= d <= 2 * (i64::MAX as int + 1) * 1_000_000_000,
        ;
        mins as u64
    } else {
        0
    }
}

/// Earliest second of the instants chrono's `DateTime<Utc>` represents: the
/// start of January 1 of year -262143 (`NaiveDate::MIN`).
pub const MIN_CLOCK_SECS: i64 = -8_334_601_228_800;

/// Latest second of the instants chrono's `DateTime<Utc>` represents: the
/// last second of December 31 of year 262142 (`NaiveDate::MAX`).
pub const MAX_CLOCK_SECS: i64 = 8_210_266_876_799;

/// The text chrono's `DateTime::<Utc>::to_rfc3339` gives for the instant
/// `secs` seconds and `nanos` nanoseconds after the epoch.
pub uninterp spec fn rfc3339_text(secs: i64, nanos: u32) -> Seq<char>;

/// chrono: `DateTime::<Utc>::from_timestamp(secs, nanos)` then
/// `to_rfc3339()`. The result is named by `rfc3339_text`, a function of the
/// instant alone (UTC, no local time zone). `from_timestamp` returns `Some`
/// exactly when `nanos` is below two seconds (here below one) and the day
/// `secs.div_euclid(86_400) + 719_163` (counted from the Common Era) falls
/// in `NaiveDate`'s years -262143 to 262142, which is what the bounds
/// `MIN_CLOCK_SECS..=MAX_CLOCK_SECS` say; so the unwrap cannot fail.
#[verifier::external_body]
pub(crate) fn to_rfc3339(t: Timestamp) -> (s: String)
    requires
        t.wf(),
        MIN_CLOCK_SECS <= t.secs <= MAX_CLOCK_SECS,
    ensures
        s@ == rfc3339_text(t.secs, t.nanos),
{
    DateTime::<Utc>::from_timestamp(t.secs, t.nanos).unwrap().to_rfc3339()
}

} // verus!

verus! {

/// A source modified after the assembly clock has age 0, and a later clock
/// never makes a source younger.
pub proof fn law_age_monotone(now1: Timestamp, now2: Timestamp, mtime: Timestamp)
    requires
        now1.total_nanos() <= now2.total_nanos(),
    ensures
        mtime.total_nanos() > now1.total_nanos() ==> spec_age_minutes(now1, mtime) == 0,
        spec_age_minutes(now1, mtime) <= spec_age_minutes(now2, mtime),
        spec_age_minutes(now1, mtime) >= 0,
{
    let a = now1.total_nanos() - mtime.total_nanos();
    let b = now2.total_nanos() - mtime.total_nanos();
    if a >= 0 {
        assert((a / 1_000_000_000) / 60 <= (b / 1_000_000_000) / 60) by (nonlinear_arith)
            requires
                0 <= a <= b,
        ;
        assert((a / 1_000_000_000) / 60 >= 0) by (nonlinear_arith)
            requires
                0 <= a,
        ;
    }
}

/// The age counts whole elapsed minutes, rounded down: a source `d`
/// nanoseconds old (`d >= 0`) is `a` minutes old with `a` whole minutes
/// in `d` and less than one more; a source newer than the clock is 0
/// minutes old.
pub proof fn law_age_whole_minutes(now: Timestamp, mtime: Timestamp)
    ensures
        ({
            let d = now.total_nanos() - mtime.total_nanos();
            let a = spec_age_minutes(now, mtime);
            &&& d >= 0 ==> a * 60_000_000_000 <= d < (a + 1) * 60_000_000_000
            &&& d < 0 ==> a == 0
        }),
{
    let d = now.total_nanos() - mtime.total_nanos();
    if d >= 0 {
        let s = d / 1_000_000_000;
        let a = s / 60;
        assert(s * 1_000_000_000 <= d < (s + 1) * 1_000_000_000);
        assert(a * 60 <= s < (a + 1) * 60);
        assert(a * 60_000_000_000 <= d < (a + 1) * 60_000_000_000) by (nonlinear_arith)
            requires
                s * 1_000_000_000 <= d < (s + 1) * 1_000_000_000,
                a * 60 <= s < (a + 1) * 60,
        ;
    }
}

} // verus!
