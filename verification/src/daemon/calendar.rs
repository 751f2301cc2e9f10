//! The civil calendar.
use crate::text::{dec, u64_to_string};
use vstd::prelude::*;

verus! {

pub open spec fn is_leap(y: int) -> bool {
    y % 4 == 0 && (y % 100 != 0 || y % 400 == 0)
}

pub open spec fn days_in_month(y: int, m: int) -> int {
    if m == 2 {
        if is_leap(y) {
            29
        } else {
            28
        }
    } else if m == 4 || m == 6 || m == 9 || m == 11 {
        30
    } else {
        31
    }
}

pub open spec fn is_date(y: int, m: int, d: int) -> bool {
    1 <= m <= 12 && 1 <= d <= days_in_month(y, m)
}

/// The days of a year before one of its months.
pub open spec fn days_before_month(y: int, m: int) -> int
    decreases m,
{
    if m <= 1 {
        0
    } else {
        days_before_month(y, m - 1) + days_in_month(y, m - 1)
    }
}

/// The days from the first of January of the year zero to that of the year `y`.
pub open spec fn days_before_year(y: int) -> int {
    365 * y + (y + 3) / 4 - (y + 99) / 100 + (y + 399) / 400
}

/// The days from the first of January of 1970 to a date.
pub open spec fn day_number(y: int, m: int, d: int) -> int {
    days_before_year(y) - days_before_year(1970) + days_before_month(y, m) + d - 1
}

/// A year has one day more than three hundred and sixty-five exactly when it is a leap year.
pub proof fn year_length(y: int)
    ensures
        days_before_year(y + 1) - days_before_year(y) == if is_leap(y) {
            366int
        } else {
            365int
        },
{
    assert((y + 4) / 4 == (y + 3) / 4 + if y % 4 == 0 {
        1int
    } else {
        0int
    });
    assert((y + 100) / 100 == (y + 99) / 100 + if y % 100 == 0 {
        1int
    } else {
        0int
    });
    assert((y + 400) / 400 == (y + 399) / 400 + if y % 400 == 0 {
        1int
    } else {
        0int
    });
    assert(y % 400 == 0 ==> y % 100 == 0);
    assert(y % 100 == 0 ==> y % 4 == 0);
}

/// The January that follows the March of a year of a cycle.
proof fn lemma_next_january(era: int, yoe: int)
    requires
        0 <= yoe <= 399,
    ensures
        days_before_year(yoe + 400 * era + 1) == 146097 * era + 365 * yoe + yoe / 4 - yoe / 100
            + 366,
{
    let y = yoe + 400 * era;
    assert((y + 4) / 4 == era * 100 + yoe / 4 + 1);
    assert((y + 100) / 100 == era * 4 + yoe / 100 + 1);
    assert((y + 400) / 400 == era + 1);
}

proof fn lemma_leap_in_cycle(era: int, n: int)
    ensures
        is_leap(n + 400 * era) == is_leap(n),
{
    assert((n + 400 * era) % 4 == n % 4);
    assert((n + 400 * era) % 100 == n % 100);
    assert((n + 400 * era) % 400 == n % 400);
}

/// The month and the day of a day of a year that starts in March.
proof fn lemma_month_of_march_year(doy: int, mp: int)
    requires
        0 <= doy <= 365,
        mp == (5 * doy + 2) / 153,
    ensures
        0 <= mp <= 11,
        (153 * mp + 2) / 5 <= doy,
        doy < 365 ==> doy < (153 * (mp + 1) + 2) / 5,
        mp == 11 || doy < (153 * (mp + 1) + 2) / 5,
{
}

/// Days before a month of a year that starts in March.
proof fn lemma_days_before_month(y: int)
    ensures
        days_before_month(y, 1) == 0,
        days_before_month(y, 2) == 31,
        days_before_month(y, 3) == 31 + days_in_month(y, 2),
        days_before_month(y, 4) == 62 + days_in_month(y, 2),
        days_before_month(y, 5) == 92 + days_in_month(y, 2),
        days_before_month(y, 6) == 123 + days_in_month(y, 2),
        days_before_month(y, 7) == 153 + days_in_month(y, 2),
        days_before_month(y, 8) == 184 + days_in_month(y, 2),
        days_before_month(y, 9) == 215 + days_in_month(y, 2),
        days_before_month(y, 10) == 245 + days_in_month(y, 2),
        days_before_month(y, 11) == 276 + days_in_month(y, 2),
        days_before_month(y, 12) == 306 + days_in_month(y, 2),
{
    reveal_with_fuel(days_before_month, 12);
}

/// Two dates with the same number are the same date.
pub proof fn day_number_is_injective(y: int, m: int, d: int, y2: int, m2: int, d2: int)
    requires
        is_date(y, m, d),
        is_date(y2, m2, d2),
        day_number(y, m, d) == day_number(y2, m2, d2),
    ensures
        y == y2 && m == m2 && d == d2,
{
    lemma_day_in_year(y, m, d);
    lemma_day_in_year(y2, m2, d2);
    if y < y2 {
        lemma_years_grow(y + 1, y2);
        year_length(y);
    } else if y2 < y {
        lemma_years_grow(y2 + 1, y);
        year_length(y2);
    } else {
        lemma_days_before_month(y);
    }
}

proof fn lemma_day_in_year(y: int, m: int, d: int)
    requires
        is_date(y, m, d),
    ensures
        0 <= days_before_month(y, m) + d - 1 < (if is_leap(y) {
            366int
        } else {
            365int
        }),
{
    lemma_days_before_month(y);
}

proof fn lemma_years_grow(a: int, b: int)
    requires
        a <= b,
    ensures
        days_before_year(a) <= days_before_year(b),
{
}

/// The position of a day in a cycle of four hundred years that starts in March: the year of the
/// cycle, and the day of that year.
fn year_of_era(doe: u64) -> (r: (u64, u64))
    requires
        doe <= 146096,
    ensures
        r.0 <= 399,
        r.1 <= 365,
        doe == 365 * r.0 + r.0 / 4 - r.0 / 100 + r.1,
        r.1 == 365 ==> is_leap(r.0 + 1),
{
    let century: u64 = if doe / 36524 > 3 {
        3
    } else {
        doe / 36524
    };
    let in_century: u64 = doe - century * 36524;
    let four: u64 = in_century / 1461;
    let in_four: u64 = in_century % 1461;
    let year: u64 = if in_four / 365 > 3 {
        3
    } else {
        in_four / 365
    };
    let doy: u64 = in_four - year * 365;
    let yoe: u64 = century * 100 + four * 4 + year;
    assert(four <= 24);
    assert(yoe / 4 == century * 25 + four);
    assert(yoe / 100 == century);
    (yoe, doy)
}

/// The date of a day, counted from the first of January of 1970.
pub fn civil_from_days(z: i64) -> (r: (i64, u32, u32))
    requires
        z <= i64::MAX - 719468,
    ensures
        is_date(r.0 as int, r.1 as int, r.2 as int),
        day_number(r.0 as int, r.1 as int, r.2 as int) == z,
{
    let shifted: i64 = z + 719468;
    let doe: u64 = if shifted >= 0 {
        (shifted % 146097) as u64
    } else {
        (146096 - ((-(shifted + 1)) % 146097)) as u64
    };
    let era: i64 = if shifted >= 0 {
        shifted / 146097
    } else {
        -((-(shifted + 1)) / 146097) - 1
    };
    assert(shifted == era * 146097 + doe && doe <= 146096);
    let (yoe, doy) = year_of_era(doe);
    let mp: u64 = (5 * doy + 2) / 153;
    proof {
        lemma_month_of_march_year(doy as int, mp as int);
    }
    let y: i64 = yoe as i64 + era * 400;
    let d: u32 = (doy - (153 * mp + 2) / 5 + 1) as u32;
    let m: u32 = if mp < 10 {
        (mp + 3) as u32
    } else {
        (mp - 9) as u32
    };
    let year: i64 = if m <= 2 {
        y + 1
    } else {
        y
    };
    proof {
        lemma_civil(z as int, era as int, yoe as int, doy as int, mp as int);
    }
    (year, m, d)
}

proof fn lemma_civil(z: int, era: int, yoe: int, doy: int, mp: int)
    requires
        0 <= yoe <= 399,
        0 <= doy <= 365,
        doy == 365 ==> is_leap(yoe + 1),
        z + 719468 == era * 146097 + 365 * yoe + yoe / 4 - yoe / 100 + doy,
        mp == (5 * doy + 2) / 153,
    ensures
        ({
            let m = if mp < 10 {
                mp + 3
            } else {
                mp - 9
            };
            let y = yoe + 400 * era + if m <= 2 {
                1int
            } else {
                0int
            };
            let d = doy - (153 * mp + 2) / 5 + 1;
            is_date(y, m, d) && day_number(y, m, d) == z
        }),
{
    let y = yoe + 400 * era;
    lemma_next_january(era, yoe);
    lemma_leap_in_cycle(era, yoe + 1);
    assert(yoe + 1 + 400 * era == y + 1);
    year_length(y);
    lemma_month_of_march_year(doy, mp);
    lemma_days_before_month(y);
    lemma_days_before_month(y + 1);
    assert(days_before_year(1970) == 719528);
    let january = days_before_year(y + 1);
    assert(z == january - 366 + doy - 719468);
    if mp < 10 {
        assert(days_before_year(y) == january - 337 - days_in_month(y, 2));
    }
}

/// A number in decimal notation, filled with zeros on the left to at least `width` characters.
pub open spec fn padded(n: nat, width: nat) -> Seq<char> {
    if dec(n).len() < width {
        Seq::new((width - dec(n).len()) as nat, |i: int| '0') + dec(n)
    } else {
        dec(n)
    }
}

fn push_padded(out: &mut String, n: u64, width: usize)
    ensures
        final(out)@ == old(out)@ + padded(n as nat, width as nat),
{
    let digits = u64_to_string(n);
    let len: usize = crate::text::chars_of(digits.as_str()).len();
    if len < width {
        let fill: usize = width - len;
        let ghost zeros = Seq::new(fill as nat, |i: int| '0');
        for i in 0..fill
            invariant
                zeros == Seq::new(fill as nat, |i: int| '0'),
                out@ == old(out)@ + zeros.take(i as int),
        {
            out.push('0');
            assert(out@ =~= old(out)@ + zeros.take(i + 1));
        }
        assert(zeros.take(fill as int) =~= zeros);
        out.append(digits.as_str());
        assert(out@ =~= old(out)@ + padded(n as nat, width as nat));
    } else {
        out.append(digits.as_str());
    }
}

/// A moment, given in seconds since 1970, in the notation of RFC 3339.
pub open spec fn is_timestamp(s: Seq<char>, secs: nat) -> bool {
    exists|y: int, m: int, d: int|
        {
            &&& is_date(y, m, d)
            &&& day_number(y, m, d) == secs / 86400
            &&& s == #[trigger] timestamp(y, m, d, secs % 86400)
        }
}

pub open spec fn timestamp(y: int, m: int, d: int, rem: nat) -> Seq<char> {
    padded(y as nat, 4) + "-"@ + padded(m as nat, 2) + "-"@ + padded(d as nat, 2) + "T"@ + padded(
        rem / 3600,
        2,
    ) + ":"@ + padded(rem % 3600 / 60, 2) + ":"@ + padded(rem % 60, 2) + "Z"@
}

proof fn lemma_year_after_epoch(y: int, m: int, d: int)
    requires
        is_date(y, m, d),
        day_number(y, m, d) >= 0,
    ensures
        y >= 1970,
{
    lemma_day_in_year(y, m, d);
    if y < 1970 {
        lemma_years_grow(y + 1, 1970);
        year_length(y);
    }
}

pub fn rfc3339_from_epoch(secs: u64) -> (r: String)
    ensures
        is_timestamp(r@, secs as nat),
{
    let days: i64 = (secs / 86400) as i64;
    let rem: u64 = secs % 86400;
    let (y, m, d) = civil_from_days(days);
    proof {
        lemma_year_after_epoch(y as int, m as int, d as int);
    }
    let mut out = String::new();
    push_padded(&mut out, y as u64, 4);
    out.append("-");
    push_padded(&mut out, m as u64, 2);
    out.append("-");
    push_padded(&mut out, d as u64, 2);
    out.append("T");
    push_padded(&mut out, rem / 3600, 2);
    out.append(":");
    push_padded(&mut out, (rem % 3600) / 60, 2);
    out.append(":");
    push_padded(&mut out, rem % 60, 2);
    out.append("Z");
    assert(out@ =~= timestamp(y as int, m as int, d as int, rem as nat));
    out
}

} // verus!
