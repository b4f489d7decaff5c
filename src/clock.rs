//! Wall-clock stamps for finished jobs, written as zero-padded `HH:MM`.

use vstd::prelude::*;
use crate::text::push_char;

verus! {

#[verifier::external_type_specification]
#[verifier::external_body]
pub struct ExOffsetDateTime(time::OffsetDateTime);

/// Relies on `time::OffsetDateTime::now_utc`: reads the system clock, so
/// nothing is promised of the instant it returns.
pub assume_specification[ time::OffsetDateTime::now_utc ]() -> time::OffsetDateTime;

/// Relies on `time::OffsetDateTime::hour`, documented to lie in `0..24`.
pub assume_specification[ time::OffsetDateTime::hour ](t: time::OffsetDateTime) -> (r: u8)
    ensures
        r < 24,
;

/// Relies on `time::OffsetDateTime::minute`, documented to lie in `0..60`.
pub assume_specification[ time::OffsetDateTime::minute ](t: time::OffsetDateTime) -> (r: u8)
    ensures
        r < 60,
;

/// The decimal digit character for `d` (`0..10`).
pub open spec fn digit_spec(d: int) -> char {
    ((48 + d) as u8) as char
}

/// The text `HH:MM` for an hour and a minute, each padded to two digits.
pub open spec fn hhmm(hour: int, minute: int) -> Seq<char> {
    seq![
        digit_spec(hour / 10),
        digit_spec(hour % 10),
        ':',
        digit_spec(minute / 10),
        digit_spec(minute % 10),
    ]
}

/// The character of a decimal digit.
pub fn digit_char(d: u8) -> (c: char)
    requires
        d < 10,
    ensures
        c == digit_spec(d as int),
{
    (48 + d) as char
}

/// Writes the clock reading `hour:minute` as `HH:MM`.
pub fn clock_text(hour: u8, minute: u8) -> (s: String)
    requires
        hour < 24,
        minute < 60,
    ensures
        s@ == hhmm(hour as int, minute as int),
{
    let mut s = String::new();
    push_char(&mut s, digit_char(hour / 10));
    push_char(&mut s, digit_char(hour % 10));
    push_char(&mut s, ':');
    push_char(&mut s, digit_char(minute / 10));
    push_char(&mut s, digit_char(minute % 10));
    assert(s@ =~= hhmm(hour as int, minute as int));
    s
}

/// The current UTC time of day as `(hour, minute)`.
pub fn clock_now() -> (r: (u8, u8))
    ensures
        r.0 < 24,
        r.1 < 60,
{
    let now = time::OffsetDateTime::now_utc();
    (now.hour(), now.minute())
}

} // verus!
