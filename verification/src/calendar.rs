//! Dates of the Gregorian calendar and UTC timestamps.
use crate::text::{push_padded, zero_padded};
use vstd::arithmetic::div_mod::{
    lemma_fundamental_div_mod, lemma_fundamental_div_mod_converse, lemma_mod_bound,
    lemma_mod_multiples_vanish,
};
use vstd::prelude::*;

verus! {

/// Seconds in a day.
pub const DAY_SECONDS: u64 = 86_400;

/// The year `y` has a leap day.
pub open spec fn leap(y: int) -> bool {
    y % 4 == 0 && (y % 100 != 0 || y % 400 == 0)
}

/// The days of the year `y`.
pub open spec fn year_length(y: int) -> int {
    if leap(y) {
        366
    } else {
        365
    }
}

/// The days of the month `m` of the year `y`.
pub open spec fn month_length(y: int, m: int) -> int {
    if m == 2 {
        if leap(y) {
            29
        } else {
            28
        }
    } else if m == 4 || m == 6 || m == 9 || m == 11 {
        30
    } else {
        31
    }
}

/// The day of 1 January of the year `y`, counted from 1 January 1970.
pub open spec fn year_start(y: int) -> int
    decreases
            (if y >= 1970 {
                y - 1970
            } else {
                1970 - y
            }),
{
    if y == 1970 {
        0
    } else if y > 1970 {
        year_start(y - 1) + year_length(y - 1)
    } else {
        year_start(y + 1) - year_length(y)
    }
}

/// The days of the year `y` before the month `m`.
pub open spec fn month_start(y: int, m: int) -> int
    decreases m,
{
    if m <= 1 {
        0
    } else {
        month_start(y, m - 1) + month_length(y, m - 1)
    }
}

/// There is such a date.
pub open spec fn valid_date(y: int, m: int, d: int) -> bool {
    1 <= m <= 12 && 1 <= d <= month_length(y, m)
}

/// The day of a date, counted from 1 January 1970.
pub open spec fn day_number(y: int, m: int, d: int) -> int {
    year_start(y) + month_start(y, m) + d - 1
}

/// The date is that of the day.
pub open spec fn is_date_of(y: int, m: int, d: int, day: int) -> bool {
    valid_date(y, m, d) && day_number(y, m, d) == day
}

/// The date of a day.
pub open spec fn date_of(day: int) -> (int, int, int) {
    choose|y: int, m: int, d: int| is_date_of(y, m, d, day)
}

/// The UTC time `secs` seconds after 1 January 1970, as in RFC 3339.
pub open spec fn timestamp(secs: nat) -> Seq<char> {
    let date = date_of((secs / 86_400) as int);
    let rest = secs % 86_400;
    zero_padded(date.0 as nat, 4) + "-"@ + zero_padded(date.1 as nat, 2) + "-"@ + zero_padded(
        date.2 as nat,
        2,
    ) + "T"@ + zero_padded(rest / 3_600, 2) + ":"@ + zero_padded(rest % 3_600 / 60, 2) + ":"@
        + zero_padded(rest % 60, 2) + "Z"@
}

/// The leap years before the year `y`, counted from the year 1.
pub open spec fn leaps_before(y: int) -> int {
    (y - 1) / 4 - (y - 1) / 100 + (y - 1) / 400
}

/// From one number to the next, the quotient grows by one exactly at the multiples.
proof fn lemma_quotient_step(y: int, k: int)
    requires
        k > 1,
    ensures
        y / k == (y - 1) / k + (if y % k == 0 {
            1int
        } else {
            0
        }),
{
    lemma_fundamental_div_mod(y, k);
    let q = y / k;
    if y % k == 0 {
        assert((q - 1) * k + (k - 1) == k * q - 1) by (nonlinear_arith);
        lemma_fundamental_div_mod_converse(y - 1, k, q - 1, k - 1);
    } else {
        lemma_mod_bound(y, k);
        assert(q * k == k * q) by (nonlinear_arith);
        lemma_fundamental_div_mod_converse(y - 1, k, q, y % k - 1);
    }
}

/// From one year to the next, the count of leap years grows by one exactly after a leap year.
proof fn lemma_leaps_step(y: int)
    ensures
        leaps_before(y + 1) == leaps_before(y) + (if leap(y) {
            1int
        } else {
            0
        }),
{
    lemma_quotient_step(y, 4);
    lemma_quotient_step(y, 100);
    lemma_quotient_step(y, 400);
    assert(y % 400 == 0 ==> y % 100 == 0) by {
        lemma_fundamental_div_mod(y, 400);
    }
    assert(y % 100 == 0 ==> y % 4 == 0) by {
        lemma_fundamental_div_mod(y, 100);
    }
}

/// The start of a year in closed form.
pub proof fn lemma_year_start(y: int)
    ensures
        year_start(y) == 365 * (y - 1970) + leaps_before(y) - 477,
    decreases
            (if y >= 1970 {
                y - 1970
            } else {
                1970 - y
            }),
{
    if y > 1970 {
        lemma_year_start(y - 1);
        lemma_leaps_step(y - 1);
    } else if y < 1970 {
        lemma_year_start(y + 1);
        lemma_leaps_step(y);
    }
}

/// The days before each month, month by month.
pub proof fn lemma_month_start(y: int)
    ensures
        month_start(y, 1) == 0,
        month_start(y, 2) == 31,
        month_start(y, 3) == 59 + (if leap(y) {
            1int
        } else {
            0
        }),
        forall|m: int|
            3 <= m <= 12 ==> #[trigger] month_start(y, m) == month_start(y, 3) + (153 * (m - 3) + 2)
                / 5,
        month_start(y, 12) + 31 == year_length(y),
{
    reveal_with_fuel(month_start, 13);
    assert forall|m: int| 3 <= m <= 12 implies #[trigger] month_start(y, m) == month_start(y, 3) + (
    153 * (m - 3) + 2) / 5 by {
        assert(m == 3 || m == 4 || m == 5 || m == 6 || m == 7 || m == 8 || m == 9 || m == 10 || m
            == 11 || m == 12);
    }
}

/// The day of 1 March of a year, in years of a cycle of 400 years.
proof fn lemma_march(era: int, year_of_era: int)
    requires
        0 <= year_of_era < 400,
    ensures
        day_number(400 * era + year_of_era, 3, 1) + 719_468 == 146_097 * era + 365 * year_of_era
            + year_of_era / 4 - year_of_era / 100,
{
    let y = 400 * era + year_of_era;
    lemma_year_start(y);
    lemma_month_start(y);
    assert(y / 4 == 100 * era + year_of_era / 4);
    assert(y / 100 == 4 * era + year_of_era / 100);
    assert(y / 400 == era);
    lemma_leaps_step(y);
}

/// Where a day of a cycle of 400 years that starts in March falls: in the year of the cycle that
/// the formula gives.
proof fn lemma_year_of_era(doe: int)
    requires
        0 <= doe < 146_097,
    ensures
        ({
            let y = (doe - doe / 1_460 + doe / 36_524 - doe / 146_096) / 365;
            let start = 365 * y + y / 4 - y / 100;
            &&& 0 <= y < 400
            &&& start <= doe
            &&& doe - start <= 365
            &&& doe - start == 365 ==> leap(y + 1)
        }),
{
    let y = (doe - doe / 1_460 + doe / 36_524 - doe / 146_096) / 365;
    if doe == 146_096 {
        assert(y == 399);
        assert(leap(400));
    } else {
        // A day is in the century `c`, in the four years `q` of it, and is the day `s` of those.
        let c = doe / 36_524;
        let r = doe % 36_524;
        let q = r / 1_461;
        let s = r % 1_461;
        let carry = if 24 * c + q + s >= 1_460 {
            1int
        } else {
            0
        };
        assert(doe / 1_460 == 25 * c + q + carry) by {
            lemma_fundamental_div_mod_converse(
                doe,
                1_460,
                25 * c + q + carry,
                24 * c + q + s - 1_460 * carry,
            );
        }
        assert(doe / 146_096 == 0);
        let n = (s - carry) / 365;
        assert(0 <= n <= 3);
        assert(y == 100 * c + 4 * q + n) by {
            assert(doe - doe / 1_460 + doe / 36_524 == 365 * (100 * c + 4 * q) + (s - carry));
            lemma_fundamental_div_mod_converse(
                doe - doe / 1_460 + doe / 36_524,
                365,
                100 * c + 4 * q + n,
                (s - carry) % 365,
            );
        }
        assert(y / 4 == 25 * c + q);
        assert(y / 100 == c);
        if doe - (365 * y + y / 4 - y / 100) == 365 {
            assert(n == 3 && s == 1_460);
            assert(q < 24);
            assert((y + 1) % 4 == 0);
            assert((y + 1) % 100 == 4 * (q + 1));
        }
    }
}

/// A year starts where the year before it ends.
pub proof fn lemma_next_year(y: int)
    ensures
        year_start(y + 1) == year_start(y) + year_length(y),
{
    lemma_year_start(y);
    lemma_year_start(y + 1);
    lemma_leaps_step(y);
}

/// A later year starts no earlier.
pub proof fn lemma_years_in_order(a: int, b: int)
    requires
        a <= b,
    ensures
        year_start(a) <= year_start(b),
    decreases b - a,
{
    if a < b {
        lemma_years_in_order(a, b - 1);
        lemma_next_year(b - 1);
    }
}

/// A later month starts after the last day of an earlier one.
pub proof fn lemma_months_in_order(y: int, a: int, b: int)
    requires
        1 <= a < b,
    ensures
        month_start(y, a) + month_length(y, a) <= month_start(y, b),
    decreases b - a,
{
    if a < b - 1 {
        lemma_months_in_order(y, a, b - 1);
    }
}

/// A date falls into its year.
pub proof fn lemma_date_in_year(y: int, m: int, d: int)
    requires
        valid_date(y, m, d),
    ensures
        year_start(y) <= day_number(y, m, d) < year_start(y + 1),
{
    lemma_next_year(y);
    lemma_month_start(y);
    if m < 12 {
        lemma_months_in_order(y, m, 12);
    }
    if m > 1 {
        lemma_months_in_order(y, 1, m);
    }
}

/// Two dates of the same day are the same date.
pub proof fn dates_are_unique(
    y: int,
    m: int,
    d: int,
    other_y: int,
    other_m: int,
    other_d: int,
)
    requires
        valid_date(y, m, d),
        valid_date(other_y, other_m, other_d),
        day_number(y, m, d) == day_number(other_y, other_m, other_d),
    ensures
        y == other_y,
        m == other_m,
        d == other_d,
{
    lemma_date_in_year(y, m, d);
    lemma_date_in_year(other_y, other_m, other_d);
    if y < other_y {
        lemma_years_in_order(y + 1, other_y);
    } else if other_y < y {
        lemma_years_in_order(other_y + 1, y);
    } else if m < other_m {
        lemma_months_in_order(y, m, other_m);
    } else if other_m < m {
        lemma_months_in_order(y, other_m, m);
    }
}

/// The date of the day of a date is that date.
pub proof fn date_of_day_number(y: int, m: int, d: int)
    requires
        valid_date(y, m, d),
    ensures
        date_of(day_number(y, m, d)) == (y, m, d),
{
    let day = day_number(y, m, d);
    assert(is_date_of(y, m, d, day));
    let found = date_of(day);
    assert(is_date_of(found.0, found.1, found.2, day));
    dates_are_unique(y, m, d, found.0, found.1, found.2);
}

/// A year has a leap day exactly if the same year of another cycle of 400 years has one.
proof fn lemma_leap_cycle(era: int, y: int)
    ensures
        leap(400 * era + y) == leap(y),
{
    let x = 400 * era + y;
    assert(x % 4 == y % 4 && x % 100 == y % 100 && x % 400 == y % 400) by {
        lemma_mod_multiples_vanish(100 * era, y, 4);
        lemma_mod_multiples_vanish(4 * era, y, 100);
        lemma_mod_multiples_vanish(era, y, 400);
        assert(4 * (100 * era) + y == x);
        assert(100 * (4 * era) + y == x);
    }
}

/// The date of the day `z`, counted from 1 January 1970, as year, month and day of the month.
pub fn civil_from_days(z: i64) -> (r: (i64, u32, u32))
    requires
        z + 719_468 <= i64::MAX,
    ensures
        valid_date(r.0 as int, r.1 as int, r.2 as int),
        day_number(r.0 as int, r.1 as int, r.2 as int) == z,
{
    let shifted: i64 = z + 719_468;
    let era: i64 = if shifted >= 0 {
        shifted / 146_097
    } else {
        -((-(shifted + 1)) / 146_097) - 1
    };
    assert(0 <= shifted - era * 146_097 < 146_097);
    let doe: u64 = (shifted - era * 146_097) as u64;
    proof {
        lemma_year_of_era(doe as int);
    }
    let yoe: u64 = (doe - doe / 1_460 + doe / 36_524 - doe / 146_096) / 365;
    let y: i64 = yoe as i64 + era * 400;
    let doy: u64 = doe - (365 * yoe + yoe / 4 - yoe / 100);
    let mp: u64 = (5 * doy + 2) / 153;
    let d: u32 = (doy - (153 * mp + 2) / 5 + 1) as u32;
    let m: u32 = if mp < 10 {
        (mp + 3) as u32
    } else {
        (mp - 9) as u32
    };
    proof {
        lemma_march(era as int, yoe as int);
        lemma_month_start(y as int);
        lemma_month_start(y + 1);
        lemma_next_year(y as int);
        lemma_leap_cycle(era as int, yoe + 1);
        assert(y == 400 * era + yoe);
        assert(mp == 0 || mp == 1 || mp == 2 || mp == 3 || mp == 4 || mp == 5 || mp == 6 || mp == 7
            || mp == 8 || mp == 9 || mp == 10 || mp == 11);
    }
    if m <= 2 {
        (y + 1, m, d)
    } else {
        (y, m, d)
    }
}

/// The UTC time `secs` seconds after 1 January 1970, as in RFC 3339.
pub fn format_unix(secs: u64) -> (r: String)
    ensures
        r@ == timestamp(secs as nat),
{
    let days: i64 = (secs / DAY_SECONDS) as i64;
    let sod: u64 = secs % DAY_SECONDS;
    let (y, m, d) = civil_from_days(days);
    proof {
        date_of_day_number(y as int, m as int, d as int);
        if y < 1970 {
            lemma_date_in_year(y as int, m as int, d as int);
            lemma_years_in_order(y + 1, 1970);
        }
    }
    let mut out = String::new();
    push_padded(&mut out, y as u128, 4);
    out.append("-");
    push_padded(&mut out, m as u128, 2);
    out.append("-");
    push_padded(&mut out, d as u128, 2);
    out.append("T");
    push_padded(&mut out, (sod / 3_600) as u128, 2);
    out.append(":");
    push_padded(&mut out, (sod % 3_600 / 60) as u128, 2);
    out.append(":");
    push_padded(&mut out, (sod % 60) as u128, 2);
    out.append("Z");
    assert(out@ =~= timestamp(secs as nat));
    out
}

/// `SystemTime::now`, in whole seconds after 1 January 1970: nothing, where the clock stands
/// before that time. Nothing is claimed of what the clock shows.
#[verifier::external_body]
fn clock_seconds() -> Option<u64> {
    std::time::SystemTime::now().duration_since(std::time::UNIX_EPOCH).ok().map(|d| d.as_secs())
}

/// The timestamp of a reading of the clock. A clock that stands before 1 January 1970 counts as
/// showing that time.
pub fn format_reading(reading: Option<u64>) -> (r: String)
    ensures
        r@ == timestamp(
            (match reading {
                Some(secs) => secs,
                None => 0,
            }) as nat,
        ),
{
    match reading {
        Some(secs) => format_unix(secs),
        None => format_unix(0),
    }
}

/// The current UTC time, as in RFC 3339.
pub fn now_rfc3339() -> (r: String)
    ensures
        exists|secs: u64| r@ == #[trigger] timestamp(secs as nat),
{
    format_reading(clock_seconds())
}

} // verus!
