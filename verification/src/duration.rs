//! Durations in words.

use crate::text::decimal;
use crate::text::push_decimal;
use std::time::Duration;
use vstd::prelude::*;

verus! {

/// The length of a duration in nanoseconds, as `Duration::as_nanos` gives it.
pub uninterp spec fn nanoseconds(duration: Duration) -> u128;

/// The whole seconds in a duration.
pub open spec fn whole_seconds(duration: Duration) -> u64 {
    (nanoseconds(duration) / 1_000_000_000) as u64
}

/// `Duration::as_secs` gives the whole seconds in the duration, without the fraction.
pub assume_specification[ Duration::as_secs ](duration: &Duration) -> (seconds: u64)
    ensures
        seconds == whole_seconds(*duration),
;

/// `Duration::from_secs` gives the duration of that many whole seconds, without a
/// fraction.
pub assume_specification[ Duration::from_secs ](seconds: u64) -> (duration: Duration)
    ensures
        nanoseconds(duration) == seconds * 1_000_000_000,
;

/// Hours, minutes and seconds, without the leading units that are zero.
pub open spec fn clock_text(seconds: u64) -> Seq<char> {
    let h = decimal((seconds / 3600) as nat);
    let m = decimal((seconds % 3600 / 60) as nat);
    let s = decimal((seconds % 60) as nat);
    if seconds >= 3600 {
        h + " ч "@ + m + " мин "@ + s + " сек"@
    } else if seconds >= 60 {
        m + " мин "@ + s + " сек"@
    } else {
        s + " сек"@
    }
}

/// A number of seconds in hours, minutes and seconds.
pub fn format_seconds(seconds: u64) -> (text: String)
    ensures
        text@ == clock_text(seconds),
{
    let hours: u64 = seconds / 3600;
    let minutes: u64 = (seconds % 3600) / 60;
    let rest: u64 = seconds % 60;
    let mut text = String::new();
    if hours > 0 {
        push_decimal(&mut text, hours);
        text.append(" ч ");
    }
    if hours > 0 || minutes > 0 {
        push_decimal(&mut text, minutes);
        text.append(" мин ");
    }
    push_decimal(&mut text, rest);
    text.append(" сек");
    assert(text@ =~= clock_text(seconds));
    text
}

/// A duration in hours, minutes and whole seconds.
pub fn format_duration(duration: Duration) -> (text: String)
    ensures
        text@ == clock_text(whole_seconds(duration)),
{
    format_seconds(duration.as_secs())
}

/// The text of so many hours, minutes and seconds names these very numbers, and leaves
/// out the units in front that are zero.
pub proof fn law_clock_text_tells_the_time(hours: u64, minutes: u64, seconds: u64)
    requires
        minutes < 60,
        seconds < 60,
        hours * 3600 + minutes * 60 + seconds <= u64::MAX,
    ensures
        ({
            let text = clock_text((hours * 3600 + minutes * 60 + seconds) as u64);
            let end = decimal(seconds as nat) + " сек"@;
            let middle = decimal(minutes as nat) + " мин "@;
            let front = decimal(hours as nat) + " ч "@;
            &&& hours > 0 ==> text == front + middle + end
            &&& hours == 0 && minutes > 0 ==> text == middle + end
            &&& hours == 0 && minutes == 0 ==> text == end
        }),
{
    let total = (hours * 3600 + minutes * 60 + seconds) as u64;
    assert(total / 3600 == hours);
    assert(total % 3600 == minutes * 60 + seconds);
    assert(total % 3600 / 60 == minutes);
    assert(total % 60 == seconds);
    let end = decimal(seconds as nat) + " сек"@;
    let middle = decimal(minutes as nat) + " мин "@;
    let front = decimal(hours as nat) + " ч "@;
    if hours > 0 {
        assert(clock_text(total) =~= front + middle + end);
    } else if minutes > 0 {
        assert(clock_text(total) =~= middle + end);
    }
}

} // verus!
