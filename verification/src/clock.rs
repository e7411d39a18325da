//! The wall clock and calendar dates. Instants are counted in nanoseconds
//! since the UNIX epoch, UTC.
use vstd::prelude::*;

verus! {

#[verifier::external_type_specification]
#[verifier::external_body]
pub struct ExSystemTime(std::time::SystemTime);

/// std's `SystemTime::now`. The value depends on the clock, so nothing is
/// stated of it.
#[verifier::external_body]
fn system_now() -> std::time::SystemTime {
    std::time::SystemTime::now()
}

/// std's `SystemTime::duration_since(UNIX_EPOCH)`; `None` (std's error)
/// for a time before the epoch. The value depends on the time given,
/// which comes from the clock, so nothing more is stated.
#[verifier::external_body]
fn duration_since_epoch(t: std::time::SystemTime) -> Option<std::time::Duration> {
    match t.duration_since(std::time::UNIX_EPOCH) {
        Ok(d) => Some(d),
        Err(_) => None,
    }
}

/// std's `Duration::as_secs`: the whole seconds of a duration.
#[verifier::external_body]
fn duration_secs(d: &std::time::Duration) -> u64 {
    d.as_secs()
}

/// std's `Duration::subsec_nanos`: the fractional part of a duration in
/// nanoseconds, which std documents as always less than one billion.
#[verifier::external_body]
fn duration_subsec_nanos(d: &std::time::Duration) -> (r: u32)
    ensures
        r < 1_000_000_000,
{
    d.subsec_nanos()
}

pub open spec fn nanos_value(secs: int, subsec: int) -> int {
    secs * 1_000_000_000 + subsec
}

/// The instant `secs` seconds and `subsec` nanoseconds after the epoch,
/// in nanoseconds.
pub fn nanos_from_parts(secs: i128, subsec: u32) -> (r: i128)
    requires
        i64::MIN <= secs <= u64::MAX,
    ensures
        r == nanos_value(secs as int, subsec as int),
{
    assert(-0x8000_0000_0000_0000 * 1_000_000_000 <= secs * 1_000_000_000 <= 0xffff_ffff_ffff_ffff * 1_000_000_000)
        by (nonlinear_arith)
        requires
            -0x8000_0000_0000_0000 <= secs <= 0xffff_ffff_ffff_ffff,
    ;
    secs * 1_000_000_000 + subsec as i128
}

/// The whole seconds (rounded down) and the nanoseconds past them of an
/// instant; `None` when the seconds do not fit an `i64`.
pub open spec fn split_spec(n: int) -> Option<(i64, u32)> {
    let s = n / 1_000_000_000;
    if i64::MIN <= s <= i64::MAX {
        Some((s as i64, (n % 1_000_000_000) as u32))
    } else {
        None
    }
}

/// Splits an instant into whole seconds (rounded down) and nanoseconds.
pub fn split_nanos(n: i128) -> (r: Option<(i64, u32)>)
    ensures
        r == split_spec(n as int),
        r matches Some((s, ns)) ==> nanos_value(s as int, ns as int) == n && ns < 1_000_000_000,
{
    let q: i128;
    let rem: i128;
    if n >= 0 {
        q = n / 1_000_000_000;
        rem = n % 1_000_000_000;
    } else {
        let m: i128 = -(n + 1);
        q = -(m / 1_000_000_000) - 1;
        rem = 999_999_999 - m % 1_000_000_000;
        assert(n as int / 1_000_000_000 == q && n as int % 1_000_000_000 == rem) by (nonlinear_arith)
            requires
                m == -(n + 1),
                m >= 0,
                q == -(m / 1_000_000_000) - 1,
                rem == 999_999_999 - m % 1_000_000_000,
        ;
    }
    if q < i64::MIN as i128 || q > i64::MAX as i128 {
        None
    } else {
        Some((q as i64, rem as u32))
    }
}

/// The text of the error when the clock cannot be read as a time after
/// the UNIX epoch.
pub open spec fn clock_failure_message() -> Seq<char> {
    "system time before Unix epoch"@
}

pub fn clock_failure() -> (s: String)
    ensures
        s@ == clock_failure_message(),
{
    String::from_str("system time before Unix epoch")
}

/// The current time in nanoseconds since the UNIX epoch; `None` when the
/// system clock reads before the epoch.
pub fn now_nanos() -> (r: Option<i128>)
    ensures
        r matches Some(t) ==> t >= 0,
{
    let now = system_now();
    match duration_since_epoch(now) {
        Some(d) => {
            let secs = duration_secs(&d);
            let sub = duration_subsec_nanos(&d);
            Some(nanos_from_parts(secs as i128, sub))
        },
        None => None,
    }
}

} // verus!

verus! {

/// chrono's calendar date (`%Y-%m-%d`, UTC) of the instant `secs`
/// seconds and `nsecs` nanoseconds after the UNIX epoch; `None` where
/// chrono has no `DateTime` for that instant.
pub uninterp spec fn utc_date(secs: i64, nsecs: u32) -> Option<Seq<char>>;

/// The UTC calendar date of an instant, formatted `%Y-%m-%d`, from
/// chrono's `DateTime::from_timestamp` and `DateTime::format`. The
/// contract claims only that the result is chrono's, named `utc_date`:
/// the calendar arithmetic is not restated here.
#[verifier::external_body]
fn format_utc_day(secs: i64, nsecs: u32) -> (r: Option<String>)
    ensures
        r.deep_view() == utc_date(secs, nsecs),
{
    match chrono::DateTime::from_timestamp(secs, nsecs) {
        Some(d) => Some(d.format("%Y-%m-%d").to_string()),
        None => None,
    }
}

/// The UTC calendar day of an instant in nanoseconds: chrono's, for the
/// instant's whole seconds and nanoseconds; `None` where it has none.
pub open spec fn day_of(n: int) -> Option<Seq<char>> {
    match split_spec(n) {
        Some((s, ns)) => utc_date(s, ns),
        None => None,
    }
}

/// The UTC calendar date (`%Y-%m-%d`) of an instant in nanoseconds.
pub fn format_utc_date(nanos: i128) -> (r: Option<String>)
    ensures
        r.deep_view() == day_of(nanos as int),
{
    match split_nanos(nanos) {
        Some((s, ns)) => format_utc_day(s, ns),
        None => None,
    }
}

} // verus!
