use vstd::prelude::*;
use crate::text::{owned, push_char, push_zero_padded, zero_padded};

verus! {

/// Whether `y` is a leap year of the proleptic Gregorian calendar.
pub open spec fn is_leap_year(y: int) -> bool {
    y % 4 == 0 && (y % 100 != 0 || y % 400 == 0)
}

/// The number of days of month `m` (1 to 12) of year `y`.
pub open spec fn days_in_month(y: int, m: int) -> int {
    if m == 2 {
        if is_leap_year(y) {
            29
        } else {
            28
        }
    } else if m == 4 || m == 6 || m == 9 || m == 11 {
        30
    } else {
        31
    }
}

/// A real date: month 1 to 12, day 1 to the month's length.
pub open spec fn is_valid_date(y: int, m: int, d: int) -> bool {
    1 <= m <= 12 && 1 <= d <= days_in_month(y, m)
}

/// The day number of date `y-m-d` counted from 1970-01-01, by the era-based formula of
/// the proleptic Gregorian calendar: years run from March, so that the leap day ends
/// them, in eras of 400 years (146097 days). Months below 3 count as months 13 and 14 of
/// the year before; any month and day is accepted, and a day past the month's end
/// runs on into the next.
pub open spec fn days_from_civil(y: int, m: int, d: int) -> int {
    let yy = if m <= 2 {
        y - 1
    } else {
        y
    };
    let mm = if m <= 2 {
        m + 12
    } else {
        m
    };
    let era = yy / 400;
    let yoe = yy - era * 400;
    let doy = (153 * (mm - 3) + 2) / 5 + d - 1;
    let doe = yoe * 365 + yoe / 4 - yoe / 100 + doy;
    era * 146097 + doe - 719468
}

/// Milliseconds since the Unix epoch of minute `hour:minute` of date `y-m-d`.
pub open spec fn civil_to_unix_ms(y: int, m: int, d: int, hour: int, minute: int) -> int {
    (days_from_civil(y, m, d) * 86400 + hour * 3600 + minute * 60) * 1000
}

/// The day numbering starts at the Unix epoch.
pub proof fn law_epoch_is_day_zero()
    ensures
        days_from_civil(1970, 1, 1) == 0,
{
}

/// Successive days of a month have successive day numbers.
pub proof fn law_next_day(y: int, m: int, d: int)
    requires
        1 <= m <= 12,
    ensures
        days_from_civil(y, m, d + 1) == days_from_civil(y, m, d) + 1,
{
}

/// The day number of the first day of month `m` of year `y`.
pub open spec fn month_start(y: int, m: int) -> int {
    days_from_civil(y, m, 1)
}

/// The month after month `m` of year `y`.
pub open spec fn next_month(y: int, m: int) -> (int, int) {
    if m == 12 {
        (y + 1, 1)
    } else {
        (y, m + 1)
    }
}

/// The days before the first of March of year `y` of the era-based count: whole eras
/// of 146097 days, then whole years of the era counted from March.
pub open spec fn march_start(y: int) -> int {
    let era = y / 400;
    let yoe = y - era * 400;
    era * 146097 + yoe * 365 + yoe / 4 - yoe / 100
}

proof fn lemma_day_in_month(y: int, m: int, d: int)
    requires
        1 <= m <= 12,
    ensures
        days_from_civil(y, m, d) == month_start(y, m) + d - 1,
{
}

proof fn lemma_march_years(y: int)
    ensures
        march_start(y + 1) - march_start(y) == if is_leap_year(y + 1) {
            366int
        } else {
            365int
        },
{
    let era = y / 400;
    let yoe = y - era * 400;
    assert(0 <= yoe < 400);
    if yoe < 399 {
        vstd::arithmetic::div_mod::lemma_fundamental_div_mod_converse(y + 1, 400, era, yoe + 1);
        lemma_era_mods(era, yoe + 1);
        assert(y + 1 == era * 400 + (yoe + 1));
    } else {
        vstd::arithmetic::div_mod::lemma_fundamental_div_mod_converse(y + 1, 400, era + 1, 0);
        lemma_era_mods(era + 1, 0);
        assert(y + 1 == (era + 1) * 400 + 0) by (nonlinear_arith)
            requires
                y == era * 400 + yoe,
                yoe == 399,
        ;
        assert((era + 1) * 146097 == era * 146097 + 146097) by (nonlinear_arith);
    }
}

proof fn lemma_next_month_start(y: int, m: int)
    requires
        1 <= m <= 12,
    ensures
        month_start(next_month(y, m).0, next_month(y, m).1) == month_start(y, m) + days_in_month(y, m),
{
    if m == 2 {
        lemma_march_years(y - 1);
        assert(march_start(y - 1) == days_from_civil(y, 2, 1) + 719468 - 337);
        assert(march_start(y) == days_from_civil(y, 3, 1) + 719468);
    }
}

/// The position of month `m` of year `y` in the sequence of all months.
pub open spec fn month_index(y: int, m: int) -> int {
    12 * y + m - 1
}

proof fn lemma_later_month_starts_later(y1: int, m1: int, y2: int, m2: int)
    requires
        1 <= m1 <= 12,
        1 <= m2 <= 12,
        month_index(y1, m1) < month_index(y2, m2),
    ensures
        month_start(y2, m2) >= month_start(y1, m1) + days_in_month(y1, m1),
    decreases month_index(y2, m2) - month_index(y1, m1),
{
    let (yp, mp) = if m2 == 1 {
        (y2 - 1, 12int)
    } else {
        (y2, m2 - 1)
    };
    assert(next_month(yp, mp) == (y2, m2));
    lemma_next_month_start(yp, mp);
    if month_index(yp, mp) > month_index(y1, m1) {
        lemma_later_month_starts_later(y1, m1, yp, mp);
    } else {
        assert(yp == y1 && mp == m1);
    }
}

/// Each real date has its own day number: two real dates with the same day number are
/// the same date.
pub proof fn law_real_dates_have_distinct_day_numbers(y1: int, m1: int, d1: int, y2: int, m2: int, d2: int)
    requires
        is_valid_date(y1, m1, d1),
        is_valid_date(y2, m2, d2),
        days_from_civil(y1, m1, d1) == days_from_civil(y2, m2, d2),
    ensures
        y1 == y2 && m1 == m2 && d1 == d2,
{
    lemma_day_in_month(y1, m1, d1);
    lemma_day_in_month(y2, m2, d2);
    if month_index(y1, m1) < month_index(y2, m2) {
        lemma_later_month_starts_later(y1, m1, y2, m2);
    } else if month_index(y2, m2) < month_index(y1, m1) {
        lemma_later_month_starts_later(y2, m2, y1, m1);
    }
}

proof fn lemma_civil_parts(z: int, era: int, doe: int, yoe: int, doy: int, mp: int, d: int)
    requires
        era == z / 146097,
        doe == z - era * 146097,
        yoe == (doe - doe / 1460 + doe / 36524 - doe / 146096) / 365,
        doy == doe - (365 * yoe + yoe / 4 - yoe / 100),
        mp == (5 * doy + 2) / 153,
        d == doy - (153 * mp + 2) / 5 + 1,
    ensures
        0 <= doe <= 146096,
        0 <= yoe <= 399,
        0 <= doy <= 365,
        0 <= mp <= 11,
        1 <= d <= 31,
        mp == 1 || mp == 3 || mp == 6 || mp == 8 ==> d <= 30,
        mp == 11 ==> d <= 29,
        mp == 11 && d == 29 ==> (yoe + 1) % 4 == 0 && ((yoe + 1) % 100 != 0 || yoe == 399),
        doy == (153 * mp + 2) / 5 + d - 1,
{
    assert(0 <= doe <= 146096);
    assert(0 <= yoe <= 399);
    assert(0 <= doy <= 365);
    assert(0 <= mp <= 11);
    assert(1 <= d <= 31);
    assert(doy == 365 ==> (yoe + 1) % 4 == 0 && ((yoe + 1) % 100 != 0 || yoe == 399));
}

proof fn lemma_era_mods(era: int, k: int)
    ensures
        (era * 400 + k) % 4 == k % 4,
        (era * 400 + k) % 100 == k % 100,
        (era * 400 + k) % 400 == k % 400,
{
    vstd::arithmetic::div_mod::lemma_mod_multiples_vanish(era * 100, k, 4);
    vstd::arithmetic::div_mod::lemma_mod_multiples_vanish(era * 4, k, 100);
    vstd::arithmetic::div_mod::lemma_mod_multiples_vanish(era, k, 400);
    assert(4 * (era * 100) == era * 400) by (nonlinear_arith);
    assert(100 * (era * 4) == era * 400) by (nonlinear_arith);
    assert(400 * era == era * 400) by (nonlinear_arith);
}

proof fn lemma_civil_parts_bounds(z: int, era: int)
    requires
        era == z / 146097,
    ensures
        0 <= z - era * 146097 <= 146096,
{
}

/// The date `civil_from_days` computes from its parts is a real date whose day number is
/// the one it started from.
proof fn lemma_civil_roundtrip(
    z: int,
    era: int,
    doe: int,
    yoe: int,
    doy: int,
    mp: int,
    d: int,
    m: int,
    year: int,
)
    requires
        era == z / 146097,
        doe == z - era * 146097,
        yoe == (doe - doe / 1460 + doe / 36524 - doe / 146096) / 365,
        doy == doe - (365 * yoe + yoe / 4 - yoe / 100),
        mp == (5 * doy + 2) / 153,
        d == doy - (153 * mp + 2) / 5 + 1,
        m == if mp < 10 {
            mp + 3
        } else {
            mp - 9
        },
        year == yoe + era * 400 + if m <= 2 {
            1int
        } else {
            0int
        },
    ensures
        days_from_civil(year, m, d) == z - 719468,
        is_valid_date(year, m, d),
        era * 400 <= year <= era * 400 + 400,
{
    lemma_civil_parts(z, era, doe, yoe, doy, mp, d);
    let y = yoe + era * 400;
    let yy = if m <= 2 {
        year - 1
    } else {
        year
    };
    assert(yy == y);
    assert(y / 400 == era && y - era * 400 == yoe) by {
        vstd::arithmetic::div_mod::lemma_fundamental_div_mod_converse(y, 400, era, yoe);
    }
    let mm = if m <= 2 {
        m + 12
    } else {
        m
    };
    assert(mm - 3 == mp);
    if mp == 11 && d == 29 {
        lemma_era_mods(era, yoe + 1);
        assert(year == era * 400 + (yoe + 1));
    }
}

/// The year, month and day of day number `days` counted from 1970-01-01.
fn civil_from_days(days_since_unix_epoch: i64) -> (ymd: (i32, u32, u32))
    requires
        -300_000_000_000 <= days_since_unix_epoch <= 300_000_000_000,
    ensures
        days_from_civil(ymd.0 as int, ymd.1 as int, ymd.2 as int) == days_since_unix_epoch,
        is_valid_date(ymd.0 as int, ymd.1 as int, ymd.2 as int),
        days_since_unix_epoch >= 0 ==> ymd.0 >= 1970,
        ymd.0 < 1_000_000_000,
{
    let z = days_since_unix_epoch + 719_468;
    let era = (if z >= 0 {
        z
    } else {
        z - 146_096
    }) / 146_097;
    proof {
        assert(era == (z as int) / 146097);
        assert(-3_000_000 <= era <= 3_000_000);
        assert(-3_000_000 * 146097 <= era * 146097 <= 3_000_000 * 146097) by (nonlinear_arith)
            requires
                -3_000_000 <= era <= 3_000_000,
        ;
        lemma_civil_parts_bounds(z as int, era as int);
    }
    let doe = z - era * 146_097;
    let yoe = (doe - doe / 1_460 + doe / 36_524 - doe / 146_096) / 365;
    let y = yoe + era * 400;
    let doy = doe - (365 * yoe + yoe / 4 - yoe / 100);
    proof {
        lemma_civil_parts(z as int, era as int, doe as int, yoe as int, doy as int,
            ((5 * doy + 2) / 153) as int, (doy - (153 * ((5 * doy + 2) / 153) + 2) / 5 + 1) as int);
    }
    let mp = (5 * doy + 2) / 153;
    let d = doy - (153 * mp + 2) / 5 + 1;
    let m = mp + if mp < 10 {
        3
    } else {
        -9
    };
    let year = y + if m <= 2 {
        1
    } else {
        0
    };
    proof {
        lemma_civil_roundtrip(
            z as int,
            era as int,
            doe as int,
            yoe as int,
            doy as int,
            mp as int,
            d as int,
            m as int,
            year as int,
        );
    }
    (year as i32, m as u32, d as u32)
}

/// The calendar date and the time of day, to the minute, of a Unix timestamp in
/// milliseconds.
pub fn datetime_from_unix_ms(ms: u64) -> (r: (i32, u32, u32, u32, u32))
    ensures
        is_datetime_of(ms as int, r.0 as int, r.1 as int, r.2 as int, r.3 as int, r.4 as int),
        r.0 >= 1970,
{
    let total_secs = (ms / 1000) as i64;
    let days = total_secs / 86_400;
    let day_secs = total_secs % 86_400;
    let (year, month, day) = civil_from_days(days);
    let hours = (day_secs / 3600) as u32;
    let minutes = ((day_secs % 3600) / 60) as u32;
    (year, month, day, hours, minutes)
}

/// Unix milliseconds of minute `hour:minute` of date `year-month-day`, counting days as
/// `days_from_civil` does for any month and day.
pub fn datetime_to_unix_ms(year: i32, month: u32, day: u32, hour: u32, minute: u32) -> (ms: i64)
    requires
        i64::MIN <= civil_to_unix_ms(year as int, month as int, day as int, hour as int, minute as int)
            <= i64::MAX,
    ensures
        ms == civil_to_unix_ms(year as int, month as int, day as int, hour as int, minute as int),
{
    let y = year as i64;
    let m = month as i64;
    let d = day as i64;
    let adjusted_m = if m <= 2 {
        m + 12
    } else {
        m
    };
    let adjusted_y = if m <= 2 {
        y - 1
    } else {
        y
    };
    let era = (if adjusted_y >= 0 {
        adjusted_y
    } else {
        adjusted_y - 399
    }) / 400;
    let yoe = adjusted_y - era * 400;
    let doy = (153 * (adjusted_m - 3) + 2) / 5 + d - 1;
    let doe = yoe * 365 + yoe / 4 - yoe / 100 + doy;
    proof {
        assert(era == (adjusted_y as int) / 400);
        assert(0 <= yoe < 400);
    }
    let days = era * 146097 + doe - 719468;
    proof {
        assert(days == days_from_civil(year as int, month as int, day as int));
        lemma_unix_ms_parts(days as int, hour as int, minute as int);
    }
    let total_secs = days * 86400 + hour as i64 * 3600 + minute as i64 * 60;
    total_secs * 1000
}

proof fn lemma_unix_ms_parts(days: int, hour: int, minute: int)
    requires
        0 <= hour <= u32::MAX,
        0 <= minute <= u32::MAX,
        i64::MIN <= (days * 86400 + hour * 3600 + minute * 60) * 1000 <= i64::MAX,
    ensures
        i64::MIN <= days * 86400 <= i64::MAX,
        i64::MIN <= days * 86400 + hour * 3600 <= i64::MAX,
        i64::MIN <= days * 86400 + hour * 3600 + minute * 60 <= i64::MAX,
{
    assert(i64::MIN <= days * 86400 + hour * 3600 + minute * 60 <= i64::MAX) by (nonlinear_arith)
        requires
            i64::MIN <= (days * 86400 + hour * 3600 + minute * 60) * 1000 <= i64::MAX,
    ;
}

/// Converting a timestamp to its date and time and back gives the timestamp rounded
/// down to the minute.
pub proof fn law_datetime_round_trip(ms: u64, y: int, m: int, d: int, hour: int, minute: int)
    requires
        days_from_civil(y, m, d) == ms / 1000 / 86400,
        hour == (ms / 1000) % 86400 / 3600,
        minute == (ms / 1000) % 86400 % 3600 / 60,
    ensures
        civil_to_unix_ms(y, m, d, hour, minute) == ms - ms % 60000,
{
    let s = ms / 1000;
    assert(s * 1000 == ms - ms % 1000);
    assert((s / 60) * 60 == s - s % 60);
    assert(ms - ms % 60000 == (s - s % 60) * 1000) by {
        assert(ms / 60000 == s / 60) by {
            vstd::arithmetic::div_mod::lemma_div_denominator(ms as int, 1000, 60);
        }
    }
}

/// `(y, m, d, hour, minute)` is the date and time, to the minute, of Unix timestamp `ms`,
/// as `datetime_from_unix_ms` gives it.
pub open spec fn is_datetime_of(ms: int, y: int, m: int, d: int, hour: int, minute: int) -> bool {
    &&& days_from_civil(y, m, d) == ms / 1000 / 86400
    &&& is_valid_date(y, m, d)
    &&& hour == (ms / 1000) % 86400 / 3600
    &&& minute == (ms / 1000) % 86400 % 3600 / 60
}

proof fn lemma_days_from_epoch_nonnegative(y: int, m: int, d: int)
    requires
        y >= 1970,
        is_valid_date(y, m, d),
    ensures
        days_from_civil(y, m, d) >= 0,
{
    lemma_day_in_month(y, m, d);
    lemma_day_in_month(1970, 1, 1);
    if month_index(1970, 1) < month_index(y, m) {
        lemma_later_month_starts_later(1970, 1, y, m);
    }
}

/// Turning a date and a time of day from 1970 on into Unix milliseconds and back gives
/// the same date and time: the milliseconds are a whole, non-negative number of minutes,
/// and the only date and time they read as is the one they came from.
pub proof fn law_date_round_trip(y: int, m: int, d: int, hour: int, minute: int)
    requires
        y >= 1970,
        is_valid_date(y, m, d),
        0 <= hour <= 23,
        0 <= minute <= 59,
    ensures
        civil_to_unix_ms(y, m, d, hour, minute) >= 0,
        civil_to_unix_ms(y, m, d, hour, minute) % 60000 == 0,
        is_datetime_of(civil_to_unix_ms(y, m, d, hour, minute), y, m, d, hour, minute),
        forall|y2: int, m2: int, d2: int, h2: int, mi2: int|
            #[trigger] is_datetime_of(civil_to_unix_ms(y, m, d, hour, minute), y2, m2, d2, h2, mi2)
                ==> y2 == y && m2 == m && d2 == d && h2 == hour && mi2 == minute,
{
    let days = days_from_civil(y, m, d);
    lemma_days_from_epoch_nonnegative(y, m, d);
    let tod = hour * 3600 + minute * 60;
    let secs = days * 86400 + tod;
    let ms = civil_to_unix_ms(y, m, d, hour, minute);
    assert(ms == secs * 1000);
    assert(0 <= tod < 86400);
    assert(secs >= 0) by (nonlinear_arith)
        requires
            days >= 0,
            tod >= 0,
            secs == days * 86400 + tod,
    ;
    assert(ms / 1000 == secs) by {
        vstd::arithmetic::div_mod::lemma_fundamental_div_mod_converse(ms, 1000, secs, 0);
    }
    assert(secs / 86400 == days && secs % 86400 == tod) by {
        vstd::arithmetic::div_mod::lemma_fundamental_div_mod_converse(secs, 86400, days, tod);
    }
    assert(tod / 3600 == hour && tod % 3600 == minute * 60) by {
        vstd::arithmetic::div_mod::lemma_fundamental_div_mod_converse(tod, 3600, hour, minute * 60);
    }
    assert((minute * 60) / 60 == minute) by {
        vstd::arithmetic::div_mod::lemma_fundamental_div_mod_converse(minute * 60, 60, minute, 0);
    }
    assert(ms % 60000 == 0) by {
        assert(ms == (days * 1440 + hour * 60 + minute) * 60000) by (nonlinear_arith)
            requires
                ms == secs * 1000,
                secs == days * 86400 + hour * 3600 + minute * 60,
        ;
        vstd::arithmetic::div_mod::lemma_mod_multiples_basic(days * 1440 + hour * 60 + minute, 60000);
    }
    assert forall|y2: int, m2: int, d2: int, h2: int, mi2: int|
        #[trigger] is_datetime_of(ms, y2, m2, d2, h2, mi2) implies y2 == y && m2 == m && d2 == d
            && h2 == hour && mi2 == minute by {
        law_real_dates_have_distinct_day_numbers(y2, m2, d2, y, m, d);
    }
}

/// `hours:minutes:seconds` of a duration in milliseconds, each at least two digits.
pub open spec fn hms(ms: nat) -> Seq<char> {
    let total = ms / 1000;
    zero_padded(total / 3600, 2) + ":"@ + zero_padded(total % 3600 / 60, 2) + ":"@ + zero_padded(
        total % 60,
        2,
    )
}

/// Milliseconds since the Unix epoch from a clock reading: the reading's milliseconds,
/// kept to their low 64 bits, or 0 for a clock set before the epoch (`None`).
pub fn unix_ms_from_clock(since_epoch_ms: Option<u128>) -> (ms: u64)
    ensures
        ms == match since_epoch_ms {
            Some(m) => m as u64,
            None => 0u64,
        },
{
    match since_epoch_ms {
        Some(m) => m as u64,
        None => 0,
    }
}

/// A duration in milliseconds as `HH:MM:SS` (hours may take more digits).
pub fn format_hms_from_ms(ms: u64) -> (s: String)
    ensures
        s@ == hms(ms as nat),
{
    let total_secs = ms / 1000;
    let hours = total_secs / 3600;
    let minutes = (total_secs % 3600) / 60;
    let seconds = total_secs % 60;
    let mut s = String::new();
    push_zero_padded(&mut s, hours, 2);
    push_char(&mut s, ':');
    push_zero_padded(&mut s, minutes, 2);
    push_char(&mut s, ':');
    push_zero_padded(&mut s, seconds, 2);
    proof {
        reveal_strlit(":");
        assert(s@ =~= hms(ms as nat));
    }
    s
}

/// `YYYY-MM-DD HH:MM:SS` for a date and a time of day.
pub open spec fn datetime_text(y: nat, mo: nat, d: nat, h: nat, mi: nat, sec: nat) -> Seq<char> {
    zero_padded(y, 4) + "-"@ + zero_padded(mo, 2) + "-"@ + zero_padded(d, 2) + " "@ + zero_padded(
        h,
        2,
    ) + ":"@ + zero_padded(mi, 2) + ":"@ + zero_padded(sec, 2)
}

/// A Unix timestamp in milliseconds as `YYYY-MM-DD HH:MM:SS` (UTC): the text of the one
/// real date whose day number is the timestamp's day, and the time of day.
pub fn format_datetime_from_unix_ms(ms: u64) -> (s: String)
    ensures
        exists|y: int, mo: int, d: int|
            #![trigger days_from_civil(y, mo, d)]
            y >= 1970 && is_valid_date(y, mo, d) && days_from_civil(y, mo, d) == ms / 1000 / 86400
                && s@ == datetime_text(
                y as nat,
                mo as nat,
                d as nat,
                ((ms / 1000) % 86400 / 3600) as nat,
                ((ms / 1000) % 86400 % 3600 / 60) as nat,
                ((ms / 1000) % 60) as nat,
            ),
{
    let (year, month, day, hours, minutes) = datetime_from_unix_ms(ms);
    let seconds = (ms / 1000) % 60;
    let mut s = String::new();
    push_zero_padded(&mut s, year as u64, 4);
    push_char(&mut s, '-');
    push_zero_padded(&mut s, month as u64, 2);
    push_char(&mut s, '-');
    push_zero_padded(&mut s, day as u64, 2);
    push_char(&mut s, ' ');
    push_zero_padded(&mut s, hours as u64, 2);
    push_char(&mut s, ':');
    push_zero_padded(&mut s, minutes as u64, 2);
    push_char(&mut s, ':');
    push_zero_padded(&mut s, seconds, 2);
    proof {
        reveal_strlit(":");
        reveal_strlit("-");
        reveal_strlit(" ");
        assert((ms / 1000) % 86400 % 60 == (ms / 1000) % 60);
        assert(s@ =~= datetime_text(
            year as nat,
            month as nat,
            day as nat,
            hours as nat,
            minutes as nat,
            seconds as nat,
        ));
        assert(days_from_civil(year as int, month as int, day as int) == ms / 1000 / 86400);
    }
    s
}

/// `a + b`, clamped to the range of `i64`.
pub open spec fn saturating_add_i64(a: int, b: int) -> int {
    if a + b > i64::MAX {
        i64::MAX as int
    } else if a + b < i64::MIN {
        i64::MIN as int
    } else {
        a + b
    }
}

fn saturating_add(a: i64, b: i64) -> (r: i64)
    ensures
        r == saturating_add_i64(a as int, b as int),
{
    match a.checked_add(b) {
        Some(v) => v,
        None => if b > 0 {
            i64::MAX
        } else {
            i64::MIN
        },
    }
}

/// The Unix milliseconds of simulation time `sim_ms` of a simulation that starts at
/// `sim_epoch_ms`: their sum, with `sim_ms` taken as a signed 64-bit number (wrapping
/// as a cast does), saturated to `i64` and raised to 0 if negative.
pub open spec fn sim_real_ms(sim_epoch_ms: i64, sim_ms: u64) -> nat {
    let sum = saturating_add_i64(sim_epoch_ms as int, (sim_ms as i64) as int);
    if sum < 0 {
        0
    } else {
        sum as nat
    }
}

/// The calendar date and time at simulation time `sim_ms`.
pub fn format_sim_datetime_from_ms(sim_epoch_ms: i64, sim_ms: u64) -> (s: String)
    ensures
        exists|y: int, mo: int, d: int|
            #![trigger days_from_civil(y, mo, d)]
            y >= 1970 && is_valid_date(y, mo, d) && days_from_civil(y, mo, d) == sim_real_ms(sim_epoch_ms, sim_ms) / 1000 / 86400
                && s@ == datetime_text(
                y as nat,
                mo as nat,
                d as nat,
                (sim_real_ms(sim_epoch_ms, sim_ms) / 1000) % 86400 / 3600,
                (sim_real_ms(sim_epoch_ms, sim_ms) / 1000) % 86400 % 3600 / 60,
                (sim_real_ms(sim_epoch_ms, sim_ms) / 1000) % 60,
            ),
{
    let sum = saturating_add(sim_epoch_ms, sim_ms as i64);
    let real_ms: u64 = if sum < 0 {
        0
    } else {
        sum as u64
    };
    format_datetime_from_unix_ms(real_ms)
}

/// The date and time of an optional simulation time, or `-` when there is none.
pub fn format_optional_sim_datetime(sim_epoch_ms: i64, sim_ms: Option<u64>) -> (s: String)
    ensures
        sim_ms is None ==> s@ == "-"@,
        sim_ms matches Some(v) ==> exists|y: int, mo: int, d: int|
            #![trigger days_from_civil(y, mo, d)]
            y >= 1970 && is_valid_date(y, mo, d) && days_from_civil(y, mo, d) == sim_real_ms(sim_epoch_ms, v) / 1000 / 86400
                && s@ == datetime_text(
                y as nat,
                mo as nat,
                d as nat,
                (sim_real_ms(sim_epoch_ms, v) / 1000) % 86400 / 3600,
                (sim_real_ms(sim_epoch_ms, v) / 1000) % 86400 % 3600 / 60,
                (sim_real_ms(sim_epoch_ms, v) / 1000) % 60,
            ),
{
    match sim_ms {
        Some(v) => format_sim_datetime_from_ms(sim_epoch_ms, v),
        None => owned("-"),
    }
}

} // verus!
