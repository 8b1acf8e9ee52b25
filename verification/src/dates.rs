//! Points in time as they are shown: how long ago, or a date.
use crate::text;
use vstd::prelude::*;

verus! {

/// Whether a year has a 29th of February.
pub open spec fn is_leap(y: int) -> bool {
    y % 4 == 0 && (y % 100 != 0 || y % 400 == 0)
}

/// How many days a month has.
pub open spec fn month_days(y: int, m: int) -> int {
    if m == 2 {
        if is_leap(y) {
            29
        } else {
            28
        }
    } else if m == 4 || m == 6 || m == 9 || m == 11 {
        30
    } else {
        31
    }
}

/// How many days of a year, counted from the 1st of March, lie in front of the
/// month with the number `mp` (March is 0).
pub open spec fn days_before(mp: int) -> int {
    (153 * mp + 2) / 5
}

/// The days from the 1st of January 1970 to a date of the Gregorian calendar. The
/// years are counted from March, so that a leap day is the last of its year.
pub open spec fn days_of(y: int, m: int, d: int) -> int {
    let y2 = if m <= 2 {
        y - 1
    } else {
        y
    };
    let mp = if m > 2 {
        m - 3
    } else {
        m + 9
    };
    365 * y2 + y2 / 4 - y2 / 100 + y2 / 400 + days_before(mp) + d - 1 - 719_468
}

/// The year of an era of 400 years that holds the given day of it.
pub open spec fn era_year(doe: int) -> int {
    (doe - doe / 1460 + doe / 36_524 - doe / 146_096) / 365
}

/// The date of the day that is `z` days from the 1st of January 1970.
pub open spec fn date_of(z: int) -> (int, int, int) {
    let n = z + 719_468;
    let era = n / 146_097;
    let doe = n % 146_097;
    let yoe = era_year(doe);
    let doy = doe - (365 * yoe + yoe / 4 - yoe / 100);
    let mp = (5 * doy + 2) / 153;
    let d = doy - days_before(mp) + 1;
    let m = if mp < 10 {
        mp + 3
    } else {
        mp - 9
    };
    let y = yoe + era * 400;
    (
        if m <= 2 {
            y + 1
        } else {
            y
        },
        m,
        d,
    )
}

/// The days of an era in front of its year `yoe`.
pub open spec fn era_days(yoe: int) -> int {
    365 * yoe + yoe / 4 - yoe / 100
}

proof fn lemma_era_year(doe: int)
    requires
        0 <= doe < 146_097,
    ensures
        0 <= era_year(doe) < 400,
        era_days(era_year(doe)) <= doe,
        doe < era_days(era_year(doe) + 1) || (era_year(doe) == 399 && doe < 146_097),
        doe - era_days(era_year(doe)) <= 365,
        doe - era_days(era_year(doe)) == 365 ==> is_leap(era_year(doe) + 1),
{
    let c = if doe / 36_524 < 3 {
        doe / 36_524
    } else {
        3
    };
    let r = doe - 36_524 * c;
    assert(0 <= r <= 36_524);
}

proof fn lemma_month(doy: int)
    requires
        0 <= doy <= 365,
    ensures
        ({
            let mp = (5 * doy + 2) / 153;
            &&& 0 <= mp <= 11
            &&& days_before(mp) <= doy
            &&& doy < days_before(mp + 1) || mp == 11
            &&& doy - days_before(mp) <= 30
        }),
{
}

proof fn lemma_era_shift(era: int, yoe: int)
    requires
        0 <= yoe < 400,
    ensures
        ({
            let y = yoe + era * 400;
            365 * y + y / 4 - y / 100 + y / 400 == era_days(yoe) + era * 146_097
        }),
{
    let y = yoe + era * 400;
    assert(y / 4 == yoe / 4 + 100 * era);
    assert(y / 100 == yoe / 100 + 4 * era);
    assert(y / 400 == era);
}

proof fn lemma_leap_shift(era: int, yoe: int)
    ensures
        is_leap(yoe + era * 400) == is_leap(yoe),
{
    let y = yoe + era * 400;
    assert(y % 4 == yoe % 4);
    assert(y % 100 == yoe % 100);
    assert(y % 400 == yoe % 400);
}

proof fn lemma_day_in_month(doy: int, y: int)
    requires
        0 <= doy <= 365,
        doy == 365 ==> is_leap(y + 1),
    ensures
        ({
            let mp = (5 * doy + 2) / 153;
            let m = if mp < 10 {
                mp + 3
            } else {
                mp - 9
            };
            let year = if m <= 2 {
                y + 1
            } else {
                y
            };
            1 <= m <= 12 && 1 <= doy - days_before(mp) + 1 <= month_days(year, m)
        }),
{
    lemma_month(doy);
}

/// The date of a day is a date of the calendar, and the day of that date is the day
/// again.
pub proof fn law_date_is_right(z: int)
    ensures
        ({
            let (y, m, d) = date_of(z);
            1 <= m <= 12 && 1 <= d <= month_days(y, m) && days_of(y, m, d) == z
        }),
{
    let n = z + 719_468;
    let era = n / 146_097;
    let doe = n % 146_097;
    let yoe = era_year(doe);
    let doy = doe - era_days(yoe);
    lemma_era_year(doe);
    lemma_leap_shift(era, yoe + 1);
    lemma_day_in_month(doy, yoe + era * 400);
    lemma_month(doy);
    lemma_era_shift(era, yoe);
    let (y, m, d) = date_of(z);
    let mp = (5 * doy + 2) / 153;
    assert(d == doy - days_before(mp) + 1);
    assert(days_of(y, m, d) == era_days(yoe) + era * 146_097 + days_before(mp) + d - 1 - 719_468);
}

/// The date of the day that is `z` days from the 1st of January 1970.
pub fn civil_from_days(z: i64) -> (r: (i64, u32, u32))
    requires
        z <= i64::MAX - 719_468,
        i64::MIN + 719_468 <= z,
    ensures
        (r.0 as int, r.1 as int, r.2 as int) == date_of(z as int),
        z >= 0 ==> r.0 >= 0,
{
    let n: i64 = z + 719_468;
    let era: i64 = if n >= 0 {
        n / 146_097
    } else {
        -((-(n + 1)) / 146_097) - 1
    };
    proof {
        assert(era == (n as int) / 146_097);
        lemma_era_year((n as int) % 146_097);
    }
    let doe: i64 = n - era * 146_097;
    let yoe: i64 = (doe - doe / 1460 + doe / 36_524 - doe / 146_096) / 365;
    let y: i64 = yoe + era * 400;
    let doy: i64 = doe - (365 * yoe + yoe / 4 - yoe / 100);
    proof {
        lemma_month(doy as int);
    }
    let mp: i64 = (5 * doy + 2) / 153;
    let d: u32 = (doy - (153 * mp + 2) / 5 + 1) as u32;
    let m: u32 = if mp < 10 {
        (mp + 3) as u32
    } else {
        (mp - 9) as u32
    };
    let year: i64 = if m <= 2 {
        y + 1
    } else {
        y
    };
    (year, m, d)
}

/// How long ago a point in time was: just now, minutes, hours or days ago, and from
/// thirty days on its date.
pub open spec fn ago(secs: u64, now: u64) -> Seq<char> {
    let diff = if now >= secs {
        (now - secs) as nat
    } else {
        0
    };
    if diff < 60 {
        "刚刚"@
    } else if diff < 3600 {
        text::decimal(diff / 60) + " 分钟前"@
    } else if diff < 86_400 {
        text::decimal(diff / 3600) + " 小时前"@
    } else if diff < 30 * 86_400 {
        text::decimal(diff / 86_400) + " 天前"@
    } else {
        let (y, m, d) = date_of((secs / 86_400) as int);
        text::padded(y as nat, 4) + "-"@ + text::padded(m as nat, 2) + "-"@ + text::padded(
            d as nat,
            2,
        )
    }
}

/// How long ago a point in time was.
pub fn fmt_ago(secs: u64, now: u64) -> (r: String)
    ensures
        r@ == ago(secs, now),
{
    let diff: u64 = if now >= secs {
        now - secs
    } else {
        0
    };
    if diff < 60 {
        return text::copy("刚刚");
    }
    if diff < 3600 {
        return text::cat2(text::dec64(diff / 60).as_str(), " 分钟前");
    }
    if diff < 86_400 {
        return text::cat2(text::dec64(diff / 3600).as_str(), " 小时前");
    }
    if diff < 30 * 86_400 {
        return text::cat2(text::dec64(diff / 86_400).as_str(), " 天前");
    }
    let (y, m, d) = civil_from_days((secs / 86_400) as i64);
    let year = text::pad(y as u64, 4);
    let month = text::pad(m as u64, 2);
    let day = text::pad(d as u64, 2);
    text::cat5(year.as_str(), "-", month.as_str(), "-", day.as_str())
}

} // verus!
