//! Generation times of real-time state messages (Unix milliseconds) and their freshness.
//!
//! Real-time states (island and media) older than `STATE_MAX_AGE_MS` are dropped; a missing
//! time stamp (`ts <= 0`) is never stale.
use vstd::prelude::*;
use vstd::string::*;
use crate::json::{json_get_i64, json_int_field};
use crate::json_model::{JsonLeaf, LeafView, json_object_of, members_view, object_text, parse_object, put, get_member, set_member, vmember, write_object};
use crate::text::{dec_int, owned, push_int};

verus! {

/// Largest accepted age (ms) of a real-time state.
pub const STATE_MAX_AGE_MS: i64 = 15000;

/// A reading of the system clock (`std::time::SystemTime`).
#[verifier::external_type_specification]
#[verifier::external_body]
pub struct ExSystemTime(std::time::SystemTime);

/// Wraps `std::time::SystemTime::now`; nothing is promised of the machine's clock.
#[verifier::external_body]
fn system_now() -> (r: std::time::SystemTime) {
    std::time::SystemTime::now()
}

/// Wraps `SystemTime::duration_since(UNIX_EPOCH)`: the time elapsed since the Unix epoch,
/// `None` when the reading is before it.
#[verifier::external_body]
fn since_epoch(t: std::time::SystemTime) -> (r: Option<std::time::Duration>) {
    t.duration_since(std::time::UNIX_EPOCH).ok()
}

/// A reading of the monotonic clock (`std::time::Instant`).
#[verifier::external_type_specification]
#[verifier::external_body]
pub struct ExInstant(std::time::Instant);

/// Wraps `std::time::Instant::now`; nothing is promised of the reading.
#[verifier::external_body]
pub(crate) fn instant_now() -> (r: std::time::Instant) {
    std::time::Instant::now()
}

/// Wraps `Instant::elapsed`: the time since `t` by the monotonic clock.
#[verifier::external_body]
fn instant_elapsed(t: &std::time::Instant) -> (r: std::time::Duration) {
    t.elapsed()
}

/// A count of time units as a `u64`, held at `u64::MAX`.
pub open spec fn units_u64_spec(n: u128) -> u64 {
    if n > 18446744073709551615u128 { 18446744073709551615u64 } else { n as u64 }
}

/// A count of time units as a `u64`, held at `u64::MAX`.
pub fn units_u64(n: u128) -> (r: u64)
    ensures
        r == units_u64_spec(n),
{
    if n > 18446744073709551615u128 { 18446744073709551615u64 } else { n as u64 }
}

/// Nanoseconds elapsed since `t` by the monotonic clock: `units_u64` of the reading.
pub(crate) fn elapsed_ns(t: &std::time::Instant) -> u64 {
    let d = instant_elapsed(t);
    units_u64(duration_nanos(&d))
}

/// Wraps `Duration::as_nanos`.
#[verifier::external_body]
fn duration_nanos(d: &std::time::Duration) -> (r: u128) {
    d.as_nanos()
}

/// Wraps `Duration::as_millis`.
#[verifier::external_body]
pub(crate) fn duration_millis(d: &std::time::Duration) -> (r: u128) {
    d.as_millis()
}

/// Wraps `Duration::as_secs`.
#[verifier::external_body]
pub(crate) fn duration_secs(d: &std::time::Duration) -> (r: u64) {
    d.as_secs()
}

/// The time elapsed since the Unix epoch by the system clock, `None` when the clock is before
/// the epoch.
pub(crate) fn clock_since_epoch() -> (r: Option<std::time::Duration>) {
    let t = system_now();
    since_epoch(t)
}

/// The Unix time in milliseconds of a clock reading: `reading` is the milliseconds elapsed
/// since the epoch, `None` when the clock is before it (then 0); held at `i64::MAX` beyond it.
pub open spec fn ms_of_reading_spec(reading: Option<u128>) -> i64 {
    match reading {
        None => 0,
        Some(m) => if m > 9223372036854775807u128 { 9223372036854775807i64 } else { m as i64 },
    }
}

/// Converts a clock reading (milliseconds since the epoch, `None` before it) to Unix time in
/// milliseconds.
pub fn ms_of_reading(reading: Option<u128>) -> (r: i64)
    ensures
        r == ms_of_reading_spec(reading),
{
    match reading {
        Some(m) => if m > 9223372036854775807u128 { 9223372036854775807i64 } else { m as i64 },
        None => 0,
    }
}

/// The Unix time in seconds of a clock reading: `reading` is the whole seconds elapsed since
/// the epoch, `None` when the clock is before it (then 0); held at `i64::MAX` beyond it.
pub open spec fn secs_of_reading_spec(reading: Option<u64>) -> i64 {
    match reading {
        None => 0,
        Some(s) => if s > 9223372036854775807u64 { 9223372036854775807i64 } else { s as i64 },
    }
}

/// Converts a clock reading (whole seconds since the epoch, `None` before it) to Unix time in
/// seconds.
pub fn secs_of_reading(reading: Option<u64>) -> (r: i64)
    ensures
        r == secs_of_reading_spec(reading),
{
    match reading {
        Some(s) => if s > 9223372036854775807u64 { 9223372036854775807i64 } else { s as i64 },
        None => 0,
    }
}

/// Current Unix time in milliseconds by the system clock: `ms_of_reading` of its reading.
pub fn now_ms() -> (r: i64)
    ensures
        r >= 0,
        exists|reading: Option<u128>| r == #[trigger] ms_of_reading_spec(reading),
{
    let reading = match clock_since_epoch() {
        Some(d) => Some(duration_millis(&d)),
        None => None,
    };
    ms_of_reading(reading)
}

/// Whether time stamp `ts` is stale at time `now`.
pub open spec fn is_stale_spec(ts: i64, now: i64) -> bool {
    ts > 0 && now - ts > STATE_MAX_AGE_MS
}

/// Whether `ts` is older than `STATE_MAX_AGE_MS` at time `now`; never for `ts <= 0`.
pub fn is_stale(ts: i64, now: i64) -> (r: bool)
    ensures
        r == is_stale_spec(ts, now),
{
    if ts <= 0 {
        return false;
    }
    (now as i128) - (ts as i128) > (STATE_MAX_AGE_MS as i128)
}

/// The integer `ts` field of a JSON object text, if any.
pub fn extract_ts(plaintext: &str) -> (r: Option<i64>)
    ensures
        r == (match json_int_field(plaintext@, "ts"@) {
            Some(Some(v)) => Some(v),
            _ => None,
        }),
{
    match json_get_i64(plaintext, "ts") {
        Some(Some(v)) => Some(v),
        _ => None,
    }
}

/// Law: a missing time stamp is never stale.
pub proof fn law_missing_never_stale(ts: i64, now: i64)
    requires
        ts <= 0,
    ensures
        !is_stale_spec(ts, now),
{
}

/// Law: staleness is monotone in time: what is stale stays stale.
pub proof fn law_stale_stays_stale(ts: i64, now: i64, later: i64)
    requires
        is_stale_spec(ts, now),
        now <= later,
    ensures
        is_stale_spec(ts, later),
{
}

/// The text with its generation time: a JSON object without `ts` gets `ts` (in name order);
/// an object that has one is only rewritten compactly; anything else is kept as it is.
pub open spec fn inject_ts_spec(plaintext: Seq<char>, ts: i64) -> Seq<char> {
    match json_object_of(plaintext) {
        None => plaintext,
        Some(v) => if vmember(v, "ts"@) is None {
            object_text(put(v, "ts"@, LeafView::Raw(dec_int(ts as int))))
        } else {
            object_text(v)
        },
    }
}

/// Adds the generation time `ts` to a JSON object that has none.
pub fn inject_ts(plaintext: &str, ts: i64) -> (r: String)
    ensures
        r@ == inject_ts_spec(plaintext@, ts),
{
    let mut v = match parse_object(plaintext) {
        Some(v) => v,
        None => return owned(plaintext),
    };
    if get_member(&v, "ts").is_none() {
        let mut t = String::new();
        push_int(&mut t, ts);
        assert(t@ =~= dec_int(ts as int));
        set_member(&mut v, "ts", JsonLeaf::Raw(t));
    }
    write_object(&v)
}

} // verus!
