use crate::types::{Tick, DAYS, HOURS, MINUTES, SECONDS};
use std::time::SystemTime;
use vstd::prelude::*;
use vstd::string::StringExecFns;

verus! {

#[verifier::external_type_specification]
#[verifier::external_body]
pub struct ExSystemTime(SystemTime);

/// Seconds in a mean Gregorian year of 365.2425 days.
pub const SECONDS_PER_YEAR: u128 = 31556952;

pub open spec fn digit_char(d: nat) -> char {
    if d == 0 {
        '0'
    } else if d == 1 {
        '1'
    } else if d == 2 {
        '2'
    } else if d == 3 {
        '3'
    } else if d == 4 {
        '4'
    } else if d == 5 {
        '5'
    } else if d == 6 {
        '6'
    } else if d == 7 {
        '7'
    } else if d == 8 {
        '8'
    } else {
        '9'
    }
}

/// The decimal digits of `n`, without leading zeros.
pub open spec fn decimal(n: nat) -> Seq<char>
    decreases n,
{
    if n < 10 {
        seq![digit_char(n)]
    } else {
        decimal(n / 10).push(digit_char(n % 10))
    }
}

/// The decimal digits of `n`, padded with zeros to at least two.
pub open spec fn two_digits(n: nat) -> Seq<char> {
    if n < 10 {
        seq!['0'].add(decimal(n))
    } else {
        decimal(n)
    }
}

/// `hh:mm:ss`.
pub open spec fn clock_text(hours: nat, minutes: nat, seconds: nat) -> Seq<char> {
    two_digits(hours) + seq![':'] + two_digits(minutes) + seq![':'] + two_digits(seconds)
}

/// `n` in decimal, with a leading `-` when negative.
pub open spec fn signed_decimal(n: int) -> Seq<char> {
    if n < 0 {
        seq!['-'] + decimal((-n) as nat)
    } else {
        decimal(n as nat)
    }
}

/// `d/m/y hh:mm:ss`, day and month without padding.
pub open spec fn date_text(day: nat, month: nat, year: int, hours: nat, minutes: nat, seconds: nat) -> Seq<char> {
    decimal(day) + seq!['/'] + decimal(month) + seq!['/'] + signed_decimal(year) + seq![' ']
        + clock_text(hours, minutes, seconds)
}

/// A span of ticks as `[Yy ][Dd ]hh:mm:ss`: whole mean years, then the
/// remaining days of a 365-day count, then the time of day. The year and day
/// parts are shown only where they are not zero (days also when years are
/// shown).
pub open spec fn duration_text(t: nat) -> Seq<char> {
    let secs = t / 1000;
    let seconds = secs % 60;
    let minutes = (t / 60000) % 60;
    let hours = (t / 3600000) % 24;
    let days = (secs / 86400) % 365;
    let years = secs / 31556952;
    let clock = clock_text(hours, minutes, seconds);
    if years > 0 {
        decimal(years) + seq!['y', ' '] + decimal(days) + seq!['d', ' '] + clock
    } else if days > 0 {
        decimal(days) + seq!['d', ' '] + clock
    } else {
        clock
    }
}

/// The characters that clock and date texts are made of.
pub open spec fn is_clock_char(c: char) -> bool {
    ('0' <= c && c <= '9') || c == ':' || c == ' ' || c == 'y' || c == 'd' || c == '/' || c == '-'
}

/// Appends `c`, one of the characters of clock and date texts.
fn push_char(s: &mut String, c: char)
    requires
        is_clock_char(c),
    ensures
        final(s)@ == old(s)@.push(c),
{
    proof {
        reveal_strlit("0");
        reveal_strlit("1");
        reveal_strlit("2");
        reveal_strlit("3");
        reveal_strlit("4");
        reveal_strlit("5");
        reveal_strlit("6");
        reveal_strlit("7");
        reveal_strlit("8");
        reveal_strlit("9");
        reveal_strlit(":");
        reveal_strlit(" ");
        reveal_strlit("y");
        reveal_strlit("d");
        reveal_strlit("/");
        reveal_strlit("-");
    }
    if c == '0' {
        s.append("0");
    } else if c == '1' {
        s.append("1");
    } else if c == '2' {
        s.append("2");
    } else if c == '3' {
        s.append("3");
    } else if c == '4' {
        s.append("4");
    } else if c == '5' {
        s.append("5");
    } else if c == '6' {
        s.append("6");
    } else if c == '7' {
        s.append("7");
    } else if c == '8' {
        s.append("8");
    } else if c == '9' {
        s.append("9");
    } else if c == ':' {
        s.append(":");
    } else if c == ' ' {
        s.append(" ");
    } else if c == 'y' {
        s.append("y");
    } else if c == 'd' {
        s.append("d");
    } else if c == '/' {
        s.append("/");
    } else {
        s.append("-");
    }
    assert(s@ =~= old(s)@.push(c));
}

/// Relies on `SystemTime::now`: the current time of the system clock.
#[verifier::external_body]
fn system_time_now() -> SystemTime {
    SystemTime::now()
}

/// Relies on `SystemTime::duration_since`: the whole milliseconds since the
/// Unix epoch, or `None` for a time before it.
#[verifier::external_body]
fn millis_since_epoch(time: &SystemTime) -> Option<u128> {
    match time.duration_since(std::time::UNIX_EPOCH) {
        Ok(d) => Some(d.as_millis()),
        Err(_) => None,
    }
}

/// Relies on `SystemTime::checked_add` of `Duration::from_millis(ms)` to
/// `UNIX_EPOCH`: `None` where the result cannot be represented.
#[verifier::external_body]
fn system_time_from_millis(ms: u64) -> Option<SystemTime> {
    std::time::UNIX_EPOCH.checked_add(std::time::Duration::from_millis(ms))
}

/// Relies on chrono's `DateTime::from_timestamp_millis` (`None` past the
/// dates chrono can hold), `with_timezone(&Local)` and the `Datelike` and
/// `Timelike` accessors: a month in 1..=12, a day in 1..=31, an hour in
/// 0..=23, a minute and a second in 0..=59. Gives year, month, day, hour,
/// minute, second.
#[verifier::external_body]
fn local_date_time(ms: i64) -> (r: Option<(i32, u32, u32, u32, u32, u32)>)
    ensures
        match r {
            Some((_, month, day, hour, minute, second)) => 1 <= month <= 12 && 1 <= day <= 31
                && hour < 24 && minute < 60 && second < 60,
            None => true,
        },
{
    match chrono::DateTime::from_timestamp_millis(ms) {
        Some(utc) => {
            let dt = utc.with_timezone(&chrono::Local);
            Some((
                chrono::Datelike::year(&dt),
                chrono::Datelike::month(&dt),
                chrono::Datelike::day(&dt),
                chrono::Timelike::hour(&dt),
                chrono::Timelike::minute(&dt),
                chrono::Timelike::second(&dt),
            ))
        },
        None => None,
    }
}

fn digit(d: u128) -> (c: char)
    requires
        d < 10,
    ensures
        c == digit_char(d as nat),
{
    if d == 0 {
        '0'
    } else if d == 1 {
        '1'
    } else if d == 2 {
        '2'
    } else if d == 3 {
        '3'
    } else if d == 4 {
        '4'
    } else if d == 5 {
        '5'
    } else if d == 6 {
        '6'
    } else if d == 7 {
        '7'
    } else if d == 8 {
        '8'
    } else {
        '9'
    }
}

/// Appends the decimal digits of `n`.
pub fn push_decimal(s: &mut String, n: u128)
    ensures
        final(s)@ == old(s)@ + decimal(n as nat),
    decreases n,
{
    if n >= 10 {
        push_decimal(s, n / 10);
    }
    push_char(s, digit(n % 10));
    proof {
        if n < 10 {
            assert(old(s)@ + decimal(n as nat) =~= old(s)@.push(digit_char(n as nat)));
        } else {
            assert(old(s)@ + decimal(n as nat) =~= (old(s)@ + decimal((n / 10) as nat)).push(
                digit_char((n % 10) as nat),
            ));
        }
    }
}

/// Appends `n` with at least two digits.
fn push_two_digits(s: &mut String, n: u128)
    ensures
        final(s)@ == old(s)@ + two_digits(n as nat),
{
    if n < 10 {
        push_char(s, '0');
    }
    push_decimal(s, n);
    proof {
        if n < 10 {
            assert(old(s)@.push('0') + decimal(n as nat) =~= old(s)@ + two_digits(n as nat));
        }
    }
}

fn push_clock(s: &mut String, hours: u128, minutes: u128, seconds: u128)
    ensures
        final(s)@ == old(s)@ + clock_text(hours as nat, minutes as nat, seconds as nat),
{
    let ghost s0 = s@;
    push_two_digits(s, hours);
    push_char(s, ':');
    push_two_digits(s, minutes);
    push_char(s, ':');
    push_two_digits(s, seconds);
    assert(s@ =~= s0 + clock_text(hours as nat, minutes as nat, seconds as nat));
}

/// A time of day as `hh:mm:ss`.
pub fn format_clock(hours: u32, minutes: u32, seconds: u32) -> (r: String)
    ensures
        r@ == clock_text(hours as nat, minutes as nat, seconds as nat),
{
    let mut s = String::new();
    push_clock(&mut s, hours as u128, minutes as u128, seconds as u128);
    assert(s@ =~= clock_text(hours as nat, minutes as nat, seconds as nat));
    s
}

/// Appends `n` in decimal, with a leading `-` when negative.
fn push_signed_decimal(s: &mut String, n: i64)
    ensures
        final(s)@ == old(s)@ + signed_decimal(n as int),
{
    let ghost s0 = s@;
    if n < 0 {
        push_char(s, '-');
        let magnitude: u128 = (-(n as i128)) as u128;
        push_decimal(s, magnitude);
        assert(s@ =~= s0 + signed_decimal(n as int));
    } else {
        push_decimal(s, n as u128);
    }
}

/// A date and time of day as `d/m/y hh:mm:ss`.
pub fn format_date(day: u32, month: u32, year: i64, hours: u32, minutes: u32, seconds: u32) -> (r:
    String)
    ensures
        r@ == date_text(day as nat, month as nat, year as int, hours as nat, minutes as nat, seconds as nat),
{
    let mut s = String::new();
    push_decimal(&mut s, day as u128);
    push_char(&mut s, '/');
    push_decimal(&mut s, month as u128);
    push_char(&mut s, '/');
    push_signed_decimal(&mut s, year);
    push_char(&mut s, ' ');
    push_clock(&mut s, hours as u128, minutes as u128, seconds as u128);
    assert(s@ =~= date_text(day as nat, month as nat, year as int, hours as nat, minutes as nat, seconds as nat));
    s
}

/// Conversions between ticks, the system clock and text.
pub trait SystemTimeTick: Sized {
    fn now() -> Self;

    fn from_system_time(time: SystemTime) -> Self;

    fn as_secs(&self) -> Tick;

    fn as_minutes(&self) -> Tick;

    fn as_hours(&self) -> Tick;

    fn as_days(&self) -> Tick;

    fn as_system_time(&self) -> Option<SystemTime>;

    fn formatted_as_time(&self) -> Option<String>;

    fn formatted_as_date(&self, calendar_offset: i32) -> Option<String>;

    fn formatted(&self) -> String;
}

impl SystemTimeTick for Tick {
    /// The tick of the system clock now; a clock set before the Unix epoch
    /// reads as tick zero.
    fn now() -> Tick {
        Self::from_system_time(system_time_now())
    }

    /// Milliseconds from the Unix epoch to `time`; zero for a time before it.
    fn from_system_time(time: SystemTime) -> Tick {
        match millis_since_epoch(&time) {
            Some(ms) => ms,
            None => 0,
        }
    }

    fn as_secs(&self) -> (r: Tick)
        ensures
            r == *self / SECONDS,
    {
        *self / SECONDS
    }

    fn as_minutes(&self) -> (r: Tick)
        ensures
            r == *self / MINUTES,
    {
        *self / MINUTES
    }

    fn as_hours(&self) -> (r: Tick)
        ensures
            r == *self / HOURS,
    {
        *self / HOURS
    }

    fn as_days(&self) -> (r: Tick)
        ensures
            r == *self / DAYS,
    {
        *self / DAYS
    }

    /// The system time this many milliseconds after the Unix epoch, where
    /// the system clock can represent it.
    fn as_system_time(&self) -> (r: Option<SystemTime>)
        ensures
            *self > u64::MAX ==> r is None,
    {
        if *self > u64::MAX as u128 {
            None
        } else {
            system_time_from_millis(*self as u64)
        }
    }

    /// The local time of day of this tick, as `hh:mm:ss`; `None` for a tick
    /// past the dates the calendar holds.
    fn formatted_as_time(&self) -> (r: Option<String>)
        ensures
            *self > i64::MAX ==> r is None,
            r matches Some(text) ==> exists|h: nat, m: nat, s: nat|
                h < 24 && m < 60 && s < 60 && text@ == #[trigger] clock_text(h, m, s),
    {
        if *self > i64::MAX as u128 {
            return None;
        }
        match local_date_time(*self as i64) {
            Some((_, _, _, h, m, s)) => Some(format_clock(h, m, s)),
            None => None,
        }
    }

    /// The local date and time of this tick as `d/m/y hh:mm:ss`, the year
    /// counted from the game's calendar: `calendar_offset` years after the
    /// common era's. `None` for a tick past the dates the calendar holds.
    fn formatted_as_date(&self, calendar_offset: i32) -> (r: Option<String>)
        ensures
            *self > i64::MAX ==> r is None,
            r matches Some(text) ==> exists|day: nat, month: nat, year: int, h: nat, m: nat, s: nat|
                1 <= day <= 31 && 1 <= month <= 12 && h < 24 && m < 60 && s < 60 && text@
                    == #[trigger] date_text(day, month, year + calendar_offset, h, m, s),
    {
        if *self > i64::MAX as u128 {
            return None;
        }
        match local_date_time(*self as i64) {
            Some((year, month, day, h, m, s)) => {
                let shown = year as i64 + calendar_offset as i64;
                let text = format_date(day, month, shown, h, m, s);
                assert(text@ == date_text(
                    day as nat,
                    month as nat,
                    year as int + calendar_offset as int,
                    h as nat,
                    m as nat,
                    s as nat,
                ));
                Some(text)
            },
            None => None,
        }
    }

    /// This many ticks as a span of time (see `duration_text`).
    fn formatted(&self) -> (r: String)
        ensures
            r@ == duration_text(*self as nat),
    {
        let t = *self;
        let secs = t / 1000;
        let seconds = secs % 60;
        let minutes = (t / 60000) % 60;
        let hours = (t / 3600000) % 24;
        let days = (secs / 86400) % 365;
        let years = secs / SECONDS_PER_YEAR;
        let mut s = String::new();
        if years > 0 {
            push_decimal(&mut s, years);
            push_char(&mut s, 'y');
            push_char(&mut s, ' ');
            push_decimal(&mut s, days);
            push_char(&mut s, 'd');
            push_char(&mut s, ' ');
        } else if days > 0 {
            push_decimal(&mut s, days);
            push_char(&mut s, 'd');
            push_char(&mut s, ' ');
        }
        let ghost prefix = s@;
        push_clock(&mut s, hours, minutes, seconds);
        proof {
            let tn = t as nat;
            let clock = clock_text(hours as nat, minutes as nat, seconds as nat);
            if years > 0 {
                assert(prefix =~= decimal(years as nat) + seq!['y', ' '] + decimal(days as nat) + seq!['d', ' ']);
            } else if days > 0 {
                assert(prefix =~= decimal(days as nat) + seq!['d', ' ']);
            } else {
                assert(prefix =~= Seq::<char>::empty());
            }
            assert(s@ =~= duration_text(tn));
        }
        s
    }
}

} // verus!
