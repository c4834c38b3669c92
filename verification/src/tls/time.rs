//! Calendar dates and the times that certificates carry.

use vstd::prelude::*;
use vstd::slice::slice_subrange;

verus! {

/// Tag of an ASN.1 `UTCTime`.
pub const UTC_TIME: u8 = 0x17;

/// Tag of an ASN.1 `GeneralizedTime`.
pub const GENERALIZED_TIME: u8 = 0x18;

/// Whether `year` has a 29th of February.
pub open spec fn is_leap(year: int) -> bool {
    year % 4 == 0 && (year % 100 != 0 || year % 400 == 0)
}

/// How many days a month has.
pub open spec fn month_len(year: int, month: int) -> int {
    if month == 2 {
        if is_leap(year) {
            29
        } else {
            28
        }
    } else if month == 4 || month == 6 || month == 9 || month == 11 {
        30
    } else {
        31
    }
}

/// Whether the three numbers name a day of the Gregorian calendar.
pub open spec fn is_date(year: int, month: int, day: int) -> bool {
    1 <= month <= 12 && 1 <= day <= month_len(year, month)
}

/// The days of `year` that come before `month`.
pub open spec fn days_before_month(year: int, month: int) -> int
    decreases month,
{
    if month <= 1 {
        0
    } else {
        days_before_month(year, month - 1) + month_len(year, month - 1)
    }
}

/// The days from the first day of year 1 to the first day of `year`.
pub open spec fn days_before_year(year: int) -> int {
    365 * (year - 1) + (year - 1) / 4 - (year - 1) / 100 + (year - 1) / 400
}

/// The days from 1 January 1970 to the given day.
pub open spec fn civil_days(year: int, month: int, day: int) -> int {
    days_before_year(year) - days_before_year(1970) + days_before_month(year, month) + day - 1
}

/// The seconds from the start of 1970 to the given moment.
pub open spec fn civil_seconds(
    year: int,
    month: int,
    day: int,
    hour: int,
    minute: int,
    second: int,
) -> int {
    civil_days(year, month, day) * 86_400 + hour * 3_600 + minute * 60 + second
}

/// Whether every byte is an ASCII digit.
pub open spec fn all_digits(s: Seq<u8>) -> bool {
    forall|i: int| 0 <= i < s.len() ==> 0x30 <= #[trigger] s[i] <= 0x39
}

/// The number that a string of ASCII digits writes.
pub open spec fn decimal_value(s: Seq<u8>) -> int
    decreases s.len(),
{
    if s.len() == 0 {
        0
    } else {
        decimal_value(s.drop_last()) * 10 + (s.last() - 0x30)
    }
}

/// The two-digit number at `i`.
pub open spec fn two_digits(s: Seq<u8>, i: int) -> int {
    decimal_value(s.subrange(i, i + 2))
}

/// The time of day and date in `rest`, which is `MMDDhhmmssZ`, in `year`.
pub open spec fn time_in_year(year: int, rest: Seq<u8>) -> Option<u64> {
    let month = two_digits(rest, 0);
    let day = two_digits(rest, 2);
    let hour = two_digits(rest, 4);
    let minute = two_digits(rest, 6);
    let second = two_digits(rest, 8);
    let seconds = civil_seconds(year, month, day, hour, minute, second);
    if rest.last() == 0x5a && all_digits(rest.drop_last()) && is_date(year, month, day) && hour
        <= 23 && minute <= 59 && second <= 59 && seconds >= 0 {
        Some(seconds as u64)
    } else {
        None
    }
}

/// The moment that an ASN.1 time element names, in seconds since the start of
/// 1970, if it is well formed and not earlier than that.
///
/// A `UTCTime` writes two digits of the year, which lies between 1950 and 2049. A
/// `GeneralizedTime` writes all four. Both end in `Z`.
pub open spec fn time_value(tag: u8, value: Seq<u8>) -> Option<u64> {
    if tag == UTC_TIME && value.len() == 13 {
        let short = two_digits(value, 0);
        let year = if short >= 50 {
            1900 + short
        } else {
            2000 + short
        };
        if all_digits(value.take(2)) {
            time_in_year(year, value.skip(2))
        } else {
            None
        }
    } else if tag == GENERALIZED_TIME && value.len() == 15 {
        if all_digits(value.take(4)) {
            time_in_year(decimal_value(value.take(4)), value.skip(4))
        } else {
            None
        }
    } else {
        None
    }
}

/// Whether `year` has a 29th of February.
pub fn leap_year(year: i64) -> (r: bool)
    ensures
        r == is_leap(year as int),
{
    year % 4 == 0 && (year % 100 != 0 || year % 400 == 0)
}

/// How many days the month has, if there is such a month.
pub fn days_in_month(year: i64, month: u32) -> (r: Option<u32>)
    ensures
        r == if 1 <= month <= 12 {
            Some(month_len(year as int, month as int) as u32)
        } else {
            None::<u32>
        },
{
    match month {
        1 | 3 | 5 | 7 | 8 | 10 | 12 => Some(31),
        4 | 6 | 9 | 11 => Some(30),
        2 => if leap_year(year) {
            Some(29)
        } else {
            Some(28)
        },
        _ => None,
    }
}

/// Whether no run of leading digits writes a number too large for `u32`.
pub open spec fn digits_fit(s: Seq<u8>) -> bool {
    forall|n: int|
        0 <= n <= s.len() && all_digits(s.take(n)) ==> decimal_value(#[trigger] s.take(n))
            <= u32::MAX
}

/// The number that `input` writes, if it is all digits.
pub fn decimal(input: &[u8]) -> (r: Option<u32>)
    requires
        digits_fit(input@),
    ensures
        r == if all_digits(input@) {
            Some(decimal_value(input@) as u32)
        } else {
            None::<u32>
        },
        all_digits(input@) ==> 0 <= decimal_value(input@) <= u32::MAX,
{
    let mut value: u32 = 0;
    let mut i: usize = 0;
    proof {
        assert(input@.take(0) =~= Seq::<u8>::empty());
    }
    while i < input.len()
        invariant
            i <= input@.len(),
            digits_fit(input@),
            all_digits(input@.take(i as int)),
            value == decimal_value(input@.take(i as int)),
        decreases input@.len() - i,
    {
        let b: u8 = input[i];
        if b < 0x30 || b > 0x39 {
            return None;
        }
        proof {
            let next = input@.take(i + 1);
            assert(next.drop_last() =~= input@.take(i as int));
            assert(next.last() == b);
            assert forall|j: int| 0 <= j < next.len() implies 0x30 <= #[trigger] next[j] <= 0x39 by {
                if j < i {
                    assert(next[j] == input@.take(i as int)[j]);
                }
            }
            assert(decimal_value(next) <= u32::MAX);
        }
        value = value * 10 + (b - 0x30) as u32;
        i = i + 1;
    }
    proof {
        assert(input@.take(i as int) =~= input@);
    }
    Some(value)
}

/// Up to four digits write a number below ten thousand.
proof fn lemma_short_decimal(s: Seq<u8>)
    requires
        s.len() <= 4,
    ensures
        digits_fit(s),
        all_digits(s) ==> 0 <= decimal_value(s) <= 9_999,
        all_digits(s) && s.len() == 2 ==> decimal_value(s) <= 99,
{
    reveal_with_fuel(decimal_value, 5);
    assert(s.take(s.len() as int) =~= s);
}

/// The days from 1 January 1970 to a day, counted in years that start in March.
///
/// With the leap day at the end of such a year, its months start at days that a
/// straight line through them gives.
pub open spec fn march_days(year: int, month: int, day: int) -> int {
    let y = if month <= 2 {
        year - 1
    } else {
        year
    };
    let m = if month > 2 {
        month - 3
    } else {
        month + 9
    };
    365 * y + y / 4 - y / 100 + y / 400 + (153 * m + 2) / 5 + day - 1 - 719_468
}

/// The days from 1 January 1970 to the given day, unless `i64` cannot hold them
/// or one of the numbers on the way.
pub fn days_from_civil(year: i64, month: u32, day: u32) -> (r: Option<i64>)
    requires
        i64::MIN + 400 <= year,
    ensures
        ({
            let y = if month <= 2 {
                year - 1
            } else {
                year as int
            };
            let days = march_days(year as int, month as int, day as int);
            r == if i64::MIN <= (y / 400) * 146_097 <= i64::MAX && i64::MIN <= days + 719_468
                <= i64::MAX && i64::MIN <= days <= i64::MAX {
                Some(days as i64)
            } else {
                None::<i64>
            }
        }),
        1 <= month <= 12 ==> march_days(year as int, month as int, day as int) == civil_days(
            year as int,
            month as int,
            day as int,
        ),
{
    let y: i64 = if month <= 2 {
        year - 1
    } else {
        year
    };
    let era: i64 = if y >= 0 {
        y / 400
    } else {
        (y - 399) / 400
    };
    proof {
        assert(era == y as int / 400);
    }
    let year_of_era: i64 = y - era * 400;
    let month_index: i64 = if month > 2 {
        month as i64 - 3
    } else {
        month as i64 + 9
    };
    let day_of_year: i64 = (153 * month_index + 2) / 5 + day as i64 - 1;
    let day_of_era: i64 = year_of_era * 365 + year_of_era / 4 - year_of_era / 100 + day_of_year;
    proof {
        assert(y as int / 4 == era * 100 + year_of_era as int / 4);
        assert(y as int / 100 == era * 4 + year_of_era as int / 100);
        assert(era * 146_097 + day_of_era - 719_468 == march_days(
            year as int,
            month as int,
            day as int,
        ));
        if 1 <= month <= 12 {
            lemma_march_days(year as int, month as int, day as int);
        }
    }
    match era.checked_mul(146_097) {
        None => None,
        Some(start) => match start.checked_add(day_of_era) {
            None => None,
            Some(days) => days.checked_sub(719_468),
        },
    }
}

/// Counting from March gives the same days as counting from January.
proof fn lemma_march_days(year: int, month: int, day: int)
    requires
        1 <= month <= 12,
    ensures
        march_days(year, month, day) == civil_days(year, month, day),
{
    reveal_with_fuel(days_before_month, 13);
    law_year_length(year);
}

/// Seconds since the start of 1970 of a moment, if it is one, not earlier than
/// that, and small enough for `i64`.
pub fn unix_time(
    year: i64,
    month: u32,
    day: u32,
    hour: u32,
    minute: u32,
    second: u32,
) -> (r: Option<u64>)
    requires
        i64::MIN + 400 <= year,
    ensures
        ({
            let seconds = civil_seconds(
                year as int,
                month as int,
                day as int,
                hour as int,
                minute as int,
                second as int,
            );
            r == if is_date(year as int, month as int, day as int) && hour <= 23 && minute <= 59
                && second <= 59 && 0 <= seconds <= i64::MAX {
                Some(seconds as u64)
            } else {
                None::<u64>
            }
        }),
{
    let month_days: u32 = match days_in_month(year, month) {
        None => {
            return None;
        },
        Some(days) => days,
    };
    if day == 0 || day > month_days || hour > 23 || minute > 59 || second > 59 {
        return None;
    }
    let days: i64 = match days_from_civil(year, month, day) {
        None => {
            return None;
        },
        Some(days) => days,
    };
    let midnight: i64 = match days.checked_mul(86_400) {
        None => {
            return None;
        },
        Some(s) => s,
    };
    let time_of_day: i64 = hour as i64 * 3_600 + minute as i64 * 60 + second as i64;
    match midnight.checked_add(time_of_day) {
        None => None,
        Some(seconds) => if seconds < 0 {
            None
        } else {
            Some(seconds as u64)
        },
    }
}

/// The moment that an ASN.1 time element names.
pub fn der_time(tag: u8, value: &[u8]) -> (r: Option<u64>)
    ensures
        r == time_value(tag, value@),
{
    if tag == UTC_TIME && value.len() == 13 {
        let digits: &[u8] = slice_subrange(value, 0, 2);
        proof {
            lemma_short_decimal(digits@);
            assert(digits@ =~= value@.take(2));
            assert(value@.subrange(2, 13) =~= value@.skip(2));
        }
        match decimal(digits) {
            None => None,
            Some(short) => {
                let year: i64 = if short >= 50 {
                    1900 + short as i64
                } else {
                    2000 + short as i64
                };
                moment(year, slice_subrange(value, 2, 13))
            },
        }
    } else if tag == GENERALIZED_TIME && value.len() == 15 {
        let digits: &[u8] = slice_subrange(value, 0, 4);
        proof {
            lemma_short_decimal(digits@);
            assert(digits@ =~= value@.take(4));
            assert(value@.subrange(4, 15) =~= value@.skip(4));
        }
        match decimal(digits) {
            None => None,
            Some(year) => moment(year as i64, slice_subrange(value, 4, 15)),
        }
    } else {
        None
    }
}

/// The two-digit number at `i`, if two digits are there.
fn pair(s: &[u8], i: usize) -> (r: Option<u32>)
    requires
        i + 2 <= s@.len(),
    ensures
        r == if all_digits(s@.subrange(i as int, i + 2)) {
            Some(two_digits(s@, i as int) as u32)
        } else {
            None::<u32>
        },
        r is Some ==> 0 <= two_digits(s@, i as int) <= 99,
{
    let n: usize = s.len();
    assert(i + 2 <= n);
    let digits: &[u8] = slice_subrange(s, i, i + 2);
    proof {
        lemma_short_decimal(digits@);
    }
    decimal(digits)
}

/// The moment that `rest`, which is `MMDDhhmmssZ`, names in `year`.
fn moment(year: i64, rest: &[u8]) -> (r: Option<u64>)
    requires
        rest@.len() == 11,
        0 <= year <= 9_999,
    ensures
        r == time_in_year(year as int, rest@),
{
    if rest[10] != 0x5a {
        return None;
    }
    proof {
        lemma_pairs(rest@.drop_last());
        assert(rest@.drop_last().subrange(0, 2) =~= rest@.subrange(0, 2));
        assert(rest@.drop_last().subrange(2, 4) =~= rest@.subrange(2, 4));
        assert(rest@.drop_last().subrange(4, 6) =~= rest@.subrange(4, 6));
        assert(rest@.drop_last().subrange(6, 8) =~= rest@.subrange(6, 8));
        assert(rest@.drop_last().subrange(8, 10) =~= rest@.subrange(8, 10));
    }
    match (pair(rest, 0), pair(rest, 2), pair(rest, 4), pair(rest, 6), pair(rest, 8)) {
        (Some(month), Some(day), Some(hour), Some(minute), Some(second)) => {
            proof {
                if 1 <= month <= 12 {
                    reveal_with_fuel(days_before_month, 13);
                }
            }
            unix_time(year, month, day, hour, minute, second)
        },
        _ => None,
    }
}

/// Ten bytes are digits when each of the five pairs is.
proof fn lemma_pairs(s: Seq<u8>)
    requires
        s.len() == 10,
    ensures
        all_digits(s) <==> all_digits(s.subrange(0, 2)) && all_digits(s.subrange(2, 4))
            && all_digits(s.subrange(4, 6)) && all_digits(s.subrange(6, 8)) && all_digits(
            s.subrange(8, 10),
        ),
{
    let p0 = s.subrange(0, 2);
    let p1 = s.subrange(2, 4);
    let p2 = s.subrange(4, 6);
    let p3 = s.subrange(6, 8);
    let p4 = s.subrange(8, 10);
    if all_digits(p0) && all_digits(p1) && all_digits(p2) && all_digits(p3) && all_digits(p4) {
        assert(p0[0] == s[0] && p0[1] == s[1] && p1[0] == s[2] && p1[1] == s[3] && p2[0] == s[4]
            && p2[1] == s[5] && p3[0] == s[6] && p3[1] == s[7] && p4[0] == s[8] && p4[1] == s[9]);
        assert forall|i: int| 0 <= i < s.len() implies 0x30 <= #[trigger] s[i] <= 0x39 by {
            assert(i == 0 || i == 1 || i == 2 || i == 3 || i == 4 || i == 5 || i == 6 || i == 7
                || i == 8 || i == 9);
        }
    }
}

/// A year takes 365 days, and 366 in a leap year.
pub proof fn law_year_length(year: int)
    ensures
        days_before_year(year + 1) == days_before_year(year) + if is_leap(year) {
            366int
        } else {
            365int
        },
{
    assert(year / 4 - (year - 1) / 4 == if year % 4 == 0 {
        1int
    } else {
        0int
    });
    assert(year / 100 - (year - 1) / 100 == if year % 100 == 0 {
        1int
    } else {
        0int
    });
    assert(year / 400 - (year - 1) / 400 == if year % 400 == 0 {
        1int
    } else {
        0int
    });
    assert(year % 100 == 0 ==> year % 4 == 0);
    assert(year % 400 == 0 ==> year % 100 == 0);
}

/// The day count starts at zero on 1 January 1970 and grows by one from each day
/// to the next, over the ends of months and years too.
pub proof fn law_days_are_consecutive(year: int, month: int, day: int)
    requires
        is_date(year, month, day),
    ensures
        civil_days(1970, 1, 1) == 0,
        day < month_len(year, month) ==> civil_days(year, month, day + 1) == civil_days(
            year,
            month,
            day,
        ) + 1,
        day == month_len(year, month) && month < 12 ==> civil_days(year, month + 1, 1)
            == civil_days(year, month, day) + 1,
        day == month_len(year, month) && month == 12 ==> civil_days(year + 1, 1, 1) == civil_days(
            year,
            month,
            day,
        ) + 1,
{
    reveal_with_fuel(days_before_month, 13);
    law_year_length(year);
}

/// The first two digits of the year of a time that gives the last two only: the
/// years from 1950 to 2049 are meant.
pub open spec fn century(value: Seq<u8>) -> Seq<u8> {
    if two_digits(value, 0) >= 50 {
        seq![0x31u8, 0x39]
    } else {
        seq![0x32u8, 0x30]
    }
}

/// A time means the same whether two digits of the year are written or four.
pub proof fn law_time_forms_agree(value: Seq<u8>)
    requires
        value.len() == 13,
    ensures
        time_value(UTC_TIME, value) == time_value(GENERALIZED_TIME, century(value) + value),
{
    let full = century(value) + value;
    let four = full.take(4);
    let short = value.take(2);
    assert(full.skip(4) =~= value.skip(2));
    assert(value.subrange(0, 2) =~= short);
    assert(four[2] == short[0] && four[3] == short[1]);
    assert(all_digits(four) == all_digits(short)) by {
        if all_digits(four) {
            assert forall|i: int| 0 <= i < short.len() implies 0x30 <= #[trigger] short[i]
                <= 0x39 by {
                assert(short[i] == four[i + 2]);
            }
        }
        if all_digits(short) {
            assert forall|i: int| 0 <= i < four.len() implies 0x30 <= #[trigger] four[i]
                <= 0x39 by {
                if i >= 2 {
                    assert(four[i] == short[i - 2]);
                }
            }
        }
    }
    reveal_with_fuel(decimal_value, 5);
    assert(four.drop_last().drop_last().drop_last().drop_last() =~= Seq::<u8>::empty());
    assert(short.drop_last().drop_last() =~= Seq::<u8>::empty());
    assert(four.drop_last().drop_last().drop_last().last() == century(value)[0]);
    assert(four.drop_last().drop_last().last() == century(value)[1]);
    assert(four.drop_last().last() == short.drop_last().last());
}

/// The calendar repeats after 400 years, which have 146097 days. Of four years one is a
/// leap year, but of four that end a century one only.
pub proof fn law_calendar_repeats(year: int, month: int)
    ensures
        is_leap(year) <==> year % 400 == 0 || (year % 4 == 0 && year % 100 != 0),
        is_leap(year + 400) == is_leap(year),
        days_before_year(year + 400) == days_before_year(year) + 146_097,
        month_len(year, month) == if month == 2 {
            if is_leap(year) {
                29int
            } else {
                28
            }
        } else if month == 4 || month == 6 || month == 9 || month == 11 {
            30
        } else {
            31
        },
        days_before_month(year, 1) == 0,
        days_before_month(year, 13) == 365 + if is_leap(year) {
            1int
        } else {
            0
        },
{
    assert((year - 1 + 400) / 4 == (year - 1) / 4 + 100);
    assert((year - 1 + 400) / 100 == (year - 1) / 100 + 4);
    assert((year - 1 + 400) / 400 == (year - 1) / 400 + 1);
    reveal_with_fuel(days_before_month, 14);
}

/// A later moment of a day has more seconds, by one for each second between them, and a
/// day later there are 86400 more.
pub proof fn law_seconds_of_a_day(
    year: int,
    month: int,
    day: int,
    hour: int,
    minute: int,
    second: int,
)
    ensures
        civil_seconds(year, month, day, hour, minute, second + 1) == civil_seconds(
            year,
            month,
            day,
            hour,
            minute,
            second,
        ) + 1,
        civil_seconds(year, month, day, hour, minute + 1, second) == civil_seconds(
            year,
            month,
            day,
            hour,
            minute,
            second,
        ) + 60,
        civil_seconds(year, month, day, hour + 1, minute, second) == civil_seconds(
            year,
            month,
            day,
            hour,
            minute,
            second,
        ) + 3_600,
        civil_seconds(year, month, day + 1, hour, minute, second) == civil_seconds(
            year,
            month,
            day,
            hour,
            minute,
            second,
        ) + 86_400,
        civil_seconds(1970, 1, 1, 0, 0, 0) == 0,
{
    reveal_with_fuel(days_before_month, 2);
}

/// A decimal number is read digit by digit, and each digit counts ten times what the same
/// digit behind it would.
pub proof fn law_decimal_digits(s: Seq<u8>, digit: u8, i: int)
    ensures
        decimal_value(Seq::empty()) == 0,
        decimal_value(s.push(digit)) == 10 * decimal_value(s) + digit - '0' as int,
        0 <= i && i + 2 <= s.len() ==> two_digits(s, i) == 10 * (s[i] - '0' as int) + s[i + 1]
            - '0' as int,
        all_digits(s) && 0 <= i < s.len() ==> '0' as int <= s[i] && s[i] <= '9' as int,
        all_digits(s.push(digit)) <==> all_digits(s) && '0' as int <= digit && digit
            <= '9' as int,
{
    assert(s.push(digit).drop_last() =~= s);
    if 0 <= i && i + 2 <= s.len() {
        let two = s.subrange(i, i + 2);
        reveal_with_fuel(decimal_value, 3);
        assert(two.drop_last().drop_last() =~= Seq::<u8>::empty());
    }
    if all_digits(s.push(digit)) {
        assert(s.push(digit)[s.len() as int] == digit);
        assert forall|j: int| 0 <= j < s.len() implies 0x30 <= #[trigger] s[j] <= 0x39 by {
            assert(s.push(digit)[j] == s[j]);
        }
    }
}

/// The time of day and date in `MMDDhhmmssZ`: it is one when all but the last byte are
/// digits, the last is `Z`, the day exists, and hour, minute and second are below 24, 60
/// and 60. A moment before 1970 is none.
pub proof fn law_time_in_a_year(year: int, rest: Seq<u8>)
    requires
        rest.len() == 11,
    ensures
        ({
            let month = two_digits(rest, 0);
            let day = two_digits(rest, 2);
            let hour = two_digits(rest, 4);
            let minute = two_digits(rest, 6);
            let second = two_digits(rest, 8);
            let seconds = civil_seconds(year, month, day, hour, minute, second);
            &&& time_in_year(year, rest) is Some <==> {
                &&& rest[10] == 'Z' as int
                &&& all_digits(rest.take(10))
                &&& 1 <= month && month <= 12
                &&& 1 <= day && day <= month_len(year, month)
                &&& hour < 24
                &&& minute < 60
                &&& second < 60
                &&& 0 <= seconds
            }
            &&& time_in_year(year, rest) is Some && seconds <= u64::MAX ==> time_in_year(
                year,
                rest,
            )->0 == seconds
        }),
{
    assert(rest.drop_last() =~= rest.take(10));
}

/// A time is a `UTCTime` of 13 bytes, whose year has two digits and lies from 1950 to
/// 2049, or a `GeneralizedTime` of 15 bytes, whose year has four. Nothing else is a time.
pub proof fn law_two_forms_of_time(tag: u8, value: Seq<u8>)
    ensures
        tag == 0x17 && value.len() == 13 && all_digits(value.take(2)) && two_digits(value, 0) < 50
            ==> time_value(tag, value) == time_in_year(2000 + two_digits(value, 0), value.skip(2)),
        tag == 0x17 && value.len() == 13 && all_digits(value.take(2)) && two_digits(value, 0)
            >= 50 ==> time_value(tag, value) == time_in_year(
            1900 + two_digits(value, 0),
            value.skip(2),
        ),
        tag == 0x18 && value.len() == 15 && all_digits(value.take(4)) ==> time_value(tag, value)
            == time_in_year(decimal_value(value.take(4)), value.skip(4)),
        time_value(tag, value) is Some ==> (tag == 0x17 && value.len() == 13 && all_digits(
            value.take(2),
        )) || (tag == 0x18 && value.len() == 15 && all_digits(value.take(4))),
{
}

/// Counting from March: a day later is one day more, 400 years have 146097 days, five
/// months from March on have 153, and the month before January is December of the year
/// before.
pub proof fn law_counting_from_march(year: int, month: int, day: int)
    ensures
        march_days(year, month, day + 1) == march_days(year, month, day) + 1,
        march_days(year + 400, month, day) == march_days(year, month, day) + 146_097,
        month > 2 ==> march_days(year, month + 5, day) == march_days(year, month, day) + 153,
        march_days(year, 0, day) == march_days(year - 1, 12, day),
        1 <= month <= 12 ==> march_days(year, month, day) == civil_days(year, month, day),
{
    let y = if month <= 2 {
        year - 1
    } else {
        year
    };
    assert((y + 400) / 4 == y / 4 + 100);
    assert((y + 400) / 100 == y / 100 + 4);
    assert((y + 400) / 400 == y / 400 + 1);
    if month > 2 {
        let m = month - 3;
        assert((153 * (m + 5) + 2) / 5 == (153 * m + 2) / 5 + 153);
    }
    if 1 <= month <= 12 {
        lemma_march_days(year, month, day);
    }
}

} // verus!
