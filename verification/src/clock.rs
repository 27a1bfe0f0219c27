//! The two clocks: local calendar time as text, and seconds since the Unix epoch.
use vstd::prelude::*;

verus! {

/// How a calendar day is written.
pub const DATE_FORMAT: &'static str = "%Y-%m-%d";

/// How a time of day is written.
pub const TIME_FORMAT: &'static str = "%H:%M:%S";

/// Two decimal digits stand in `s` from position `i` on.
pub open spec fn digit_pair(s: Seq<char>, i: int) -> bool {
    '0' <= s[i] <= '9' && '0' <= s[i + 1] <= '9'
}

/// A year of four characters or more, a month and a day, with hyphens between them.
pub open spec fn is_date(s: Seq<char>) -> bool {
    let n = s.len() as int;
    &&& n >= 10
    &&& s[n - 6] == '-'
    &&& digit_pair(s, n - 5)
    &&& s[n - 3] == '-'
    &&& digit_pair(s, n - 2)
}

/// Hours, minutes and seconds, with colons between them.
pub open spec fn is_time(s: Seq<char>) -> bool {
    &&& s.len() == 8
    &&& digit_pair(s, 0)
    &&& s[2] == ':'
    &&& digit_pair(s, 3)
    &&& s[5] == ':'
    &&& digit_pair(s, 6)
}

/// `chrono::Local::now`, written with `chrono::DateTime::format`.
///
/// Which day or time it is depends on the machine's clock and time zone; that the text
/// has the shape that the format asks for is all that is claimed of it.
#[verifier::external_body]
fn local_now(format: &str) -> (res: String)
    requires
        format@ == DATE_FORMAT@ || format@ == TIME_FORMAT@,
    ensures
        format@ == DATE_FORMAT@ ==> is_date(res@),
        format@ == TIME_FORMAT@ ==> is_time(res@),
{
    chrono::Local::now().format(format).to_string()
}

/// A reading of the machine's clock.
#[verifier::external_type_specification]
#[verifier::external_body]
pub struct ExSystemTime(std::time::SystemTime);

/// `std::time::SystemTime::now`. What the clock says is left open.
#[verifier::external_body]
fn system_time() -> std::time::SystemTime {
    std::time::SystemTime::now()
}

/// `std::time::SystemTime::duration_since` the Unix epoch, or `None` for an earlier time.
///
/// A reading is opaque, so nothing is claimed of how far it is from the epoch.
#[verifier::external_body]
fn since_epoch(time: std::time::SystemTime) -> Option<std::time::Duration> {
    time.duration_since(std::time::UNIX_EPOCH).ok()
}

/// `std::time::Duration::as_nanos`.
///
/// The whole seconds fit in 64 bits, as they do in a `std::time::Duration`. A duration is
/// opaque, so nothing more is claimed of how long it is.
#[verifier::external_body]
fn nanos_in(duration: std::time::Duration) -> (res: u128)
    ensures
        res / 1_000_000_000 <= u64::MAX,
{
    duration.as_nanos()
}

/// The machine's clock in nanoseconds since the Unix epoch, or `None` for a clock that is set
/// to an earlier time.
fn system_now() -> (res: Option<u128>)
    ensures
        in_clock_range(res),
{
    match since_epoch(system_time()) {
        Some(duration) => Some(nanos_in(duration)),
        None => None,
    }
}

/// The whole seconds fit in 64 bits.
pub open spec fn in_clock_range(clock: Option<u128>) -> bool {
    clock matches Some(n) ==> n / 1_000_000_000 <= u64::MAX
}

/// The local calendar day.
pub fn today() -> (res: String)
    ensures
        is_date(res@),
{
    local_now(DATE_FORMAT)
}

/// The local time of day.
pub fn time_of_day() -> (res: String)
    ensures
        is_time(res@),
{
    local_now(TIME_FORMAT)
}

/// The whole seconds of a clock reading; zero for a time before the epoch.
pub open spec fn whole_seconds(clock: Option<u128>) -> nat {
    match clock {
        Some(n) => n as nat / 1_000_000_000,
        None => 0,
    }
}

/// The whole seconds of a clock reading; zero for a time before the epoch.
pub fn seconds_of(clock: Option<u128>) -> (res: u64)
    requires
        in_clock_range(clock),
    ensures
        res == whole_seconds(clock),
{
    match clock {
        Some(n) => (n / 1_000_000_000) as u64,
        None => 0,
    }
}

/// The nanoseconds of a clock reading; zero for a time before the epoch.
pub fn nanos_of(clock: Option<u128>) -> (res: u128)
    ensures
        res == match clock {
            Some(n) => n,
            None => 0,
        },
{
    match clock {
        Some(n) => n,
        None => 0,
    }
}

/// Seconds since the Unix epoch: those of some reading of the machine's clock.
pub fn unix_now() -> (res: u64)
    ensures
        exists|clock: Option<u128>|
            in_clock_range(clock) && res == #[trigger] whole_seconds(clock),
{
    seconds_of(system_now())
}

/// Nanoseconds since the Unix epoch, zero for a time before it. The whole seconds fit in 64
/// bits; within that any value may come back.
pub fn unix_nanos() -> (res: u128)
    ensures
        res / 1_000_000_000 <= u64::MAX,
{
    nanos_of(system_now())
}

/// The whole seconds of a reading are those that have passed in full.
pub proof fn law_whole_seconds_have_passed(n: u128)
    ensures
        whole_seconds(Some(n)) * 1_000_000_000 <= n < (whole_seconds(Some(n)) + 1) * 1_000_000_000,
        whole_seconds(None) == 0,
{
}

} // verus!
