//! What a timestamp says: its form, the time that it names, and the order of timestamps.
use crate::calendar::{
    date_of, day_number, is_date_of, lemma_date_in_year, lemma_month_start, lemma_months_in_order,
    lemma_next_year, lemma_year_start, lemma_years_in_order, month_length, month_start, timestamp,
    valid_date, year_length, year_start,
};
use crate::sorting::{lemma_precedes_at, precedes};
use crate::text::{decimal, digit, digits_value, is_digit, zero_padded};
use vstd::prelude::*;

verus! {

/// The first second of the year 10000, counted from 1 January 1970.
pub const FIVE_DIGIT_YEARS: u64 = 253_402_300_800;

/// The text is of the form `YYYY-MM-DDTHH:MM:SSZ`.
pub open spec fn has_form(s: Seq<char>) -> bool {
    &&& s.len() == 20
    &&& s[4] == '-' && s[7] == '-' && s[10] == 'T' && s[13] == ':' && s[16] == ':' && s[19] == 'Z'
    &&& forall|i: int|
        0 <= i < 20 && i != 4 && i != 7 && i != 10 && i != 13 && i != 16 && i != 19 ==> is_digit(
            #[trigger] s[i],
        )
}

/// The number that the digits from `a` up to `b` stand for.
pub open spec fn number_at(s: Seq<char>, a: int, b: int) -> int {
    digits_value(s.subrange(a, b)) as int
}

/// The text names a time of a day that there is.
pub open spec fn names_time(s: Seq<char>) -> bool {
    &&& valid_date(number_at(s, 0, 4), number_at(s, 5, 7), number_at(s, 8, 10))
    &&& number_at(s, 11, 13) < 24
    &&& number_at(s, 14, 16) < 60
    &&& number_at(s, 17, 19) < 60
}

/// The seconds from 1 January 1970 to the time that the text names.
pub open spec fn seconds_named(s: Seq<char>) -> int {
    day_number(number_at(s, 0, 4), number_at(s, 5, 7), number_at(s, 8, 10)) * 86_400 + number_at(
        s,
        11,
        13,
    ) * 3_600 + number_at(s, 14, 16) * 60 + number_at(s, 17, 19)
}

/// The two digits of a number below a hundred.
spec fn two_digits(n: int) -> Seq<char> {
    seq![digit((n / 10) as nat), digit((n % 10) as nat)]
}

/// The four digits of a number below ten thousand.
spec fn four_digits(n: int) -> Seq<char> {
    two_digits(n / 100) + two_digits(n % 100)
}

/// A number below a hundred, in two digits.
proof fn lemma_two_digits(n: int)
    requires
        0 <= n < 100,
    ensures
        zero_padded(n as nat, 2) == two_digits(n),
        digits_value(two_digits(n)) == n,
        is_digit(two_digits(n)[0]),
        is_digit(two_digits(n)[1]),
{
    reveal_with_fuel(decimal, 2);
    reveal_with_fuel(digits_value, 3);
    let s = two_digits(n);
    assert(zero_padded(n as nat, 2) =~= s);
    assert(s.drop_last() =~= seq![s[0]]);
    assert(s.drop_last().drop_last() =~= Seq::empty());
}

/// A number below ten thousand, in four digits.
proof fn lemma_four_digits(n: int)
    requires
        0 <= n < 10_000,
    ensures
        zero_padded(n as nat, 4) == four_digits(n),
        digits_value(four_digits(n)) == n,
        forall|i: int| 0 <= i < 4 ==> is_digit(#[trigger] four_digits(n)[i]),
{
    reveal_with_fuel(decimal, 4);
    reveal_with_fuel(digits_value, 5);
    let s = four_digits(n);
    assert(n / 10 / 10 == n / 100);
    assert(n / 10 / 10 / 10 == n / 1_000);
    assert(n / 100 / 10 == n / 1_000);
    assert(n % 100 / 10 == n / 10 % 10);
    assert(n % 100 % 10 == n % 10);
    assert(zero_padded(n as nat, 4) =~= s);
    assert(s.drop_last() =~= seq![s[0], s[1], s[2]]);
    assert(s.drop_last().drop_last() =~= seq![s[0], s[1]]);
    assert(s.drop_last().drop_last().drop_last() =~= seq![s[0]]);
    assert(s.drop_last().drop_last().drop_last().drop_last() =~= Seq::empty());
}

/// Each day from 1 January of the year `y` on has a date, in that year or a later one.
proof fn lemma_date_exists_from(y: int, day: int) -> (r: (int, int, int))
    requires
        y >= 1970,
        year_start(y) <= day,
    ensures
        is_date_of(r.0, r.1, r.2, day),
        r.0 >= y,
    decreases day - year_start(y),
{
    lemma_next_year(y);
    if day >= year_start(y + 1) {
        lemma_date_exists_from(y + 1, day)
    } else {
        let left = day - year_start(y);
        lemma_month_start(y);
        let m = lemma_month_of(y, left, 1);
        (y, m, left - month_start(y, m) + 1)
    }
}

/// Each day of a year falls into a month.
proof fn lemma_month_of(y: int, left: int, m: int) -> (r: int)
    requires
        1 <= m <= 12,
        month_start(y, m) <= left < year_length(y),
        month_start(y, 12) + 31 == year_length(y),
    ensures
        1 <= r <= 12,
        month_start(y, r) <= left < month_start(y, r) + month_length(y, r),
    decreases 12 - m,
{
    if left < month_start(y, m) + month_length(y, m) || m == 12 {
        m
    } else {
        assert(month_start(y, m + 1) == month_start(y, m) + month_length(y, m));
        lemma_month_of(y, left, m + 1)
    }
}

/// The date of a day before the year 10000 is a date, in a year of four digits.
proof fn lemma_date_of(day: int)
    requires
        0 <= day < 2_932_897,
    ensures
        ({
            let date = date_of(day);
            &&& is_date_of(date.0, date.1, date.2, day)
            &&& 1970 <= date.0 <= 9_999
        }),
{
    let found = lemma_date_exists_from(1970, day);
    assert(is_date_of(found.0, found.1, found.2, day));
    let date = date_of(day);
    assert(is_date_of(date.0, date.1, date.2, day));
    lemma_date_in_year(date.0, date.1, date.2);
    if date.0 < 1970 {
        lemma_years_in_order(date.0 + 1, 1970);
    }
    if date.0 > 9_999 {
        lemma_years_in_order(10_000, date.0);
        lemma_year_start(10_000);
    }
}

/// A timestamp in the digits of its parts.
#[verifier::opaque]
spec fn laid_out(y: int, m: int, d: int, h: int, n: int, s: int) -> Seq<char> {
    four_digits(y) + seq!['-'] + two_digits(m) + seq!['-'] + two_digits(d) + seq!['T'] + two_digits(
        h,
    ) + seq![':'] + two_digits(n) + seq![':'] + two_digits(s) + seq!['Z']
}

/// The parts have the digits that a timestamp gives them.
spec fn parts_fit(y: int, m: int, d: int, h: int, n: int, s: int) -> bool {
    0 <= y < 10_000 && 0 <= m < 100 && 0 <= d < 100 && 0 <= h < 100 && 0 <= n < 100 && 0 <= s < 100
}

/// A timestamp, character by character.
proof fn lemma_places(y: int, m: int, d: int, h: int, n: int, s: int)
    ensures
        ({
            let t = laid_out(y, m, d, h, n, s);
            &&& t.len() == 20
            &&& t[0] == two_digits(y / 100)[0] && t[1] == two_digits(y / 100)[1]
            &&& t[2] == two_digits(y % 100)[0] && t[3] == two_digits(y % 100)[1]
            &&& t[5] == two_digits(m)[0] && t[6] == two_digits(m)[1]
            &&& t[8] == two_digits(d)[0] && t[9] == two_digits(d)[1]
            &&& t[11] == two_digits(h)[0] && t[12] == two_digits(h)[1]
            &&& t[14] == two_digits(n)[0] && t[15] == two_digits(n)[1]
            &&& t[17] == two_digits(s)[0] && t[18] == two_digits(s)[1]
            &&& t[4] == '-' && t[7] == '-' && t[10] == 'T'
            &&& t[13] == ':' && t[16] == ':' && t[19] == 'Z'
        }),
{
    reveal(laid_out);
    let left = four_digits(y) + seq!['-'] + two_digits(m) + seq!['-'] + two_digits(d) + seq!['T'];
    let right = two_digits(h) + seq![':'] + two_digits(n) + seq![':'] + two_digits(s) + seq!['Z'];
    assert(laid_out(y, m, d, h, n, s) =~= left + right);
}

/// A timestamp of parts that fit has its form, and its digits stand for its parts.
proof fn lemma_form(y: int, m: int, d: int, h: int, n: int, s: int)
    requires
        parts_fit(y, m, d, h, n, s),
    ensures
        ({
            let t = laid_out(y, m, d, h, n, s);
            &&& has_form(t)
            &&& number_at(t, 0, 4) == y
            &&& number_at(t, 5, 7) == m
            &&& number_at(t, 8, 10) == d
            &&& number_at(t, 11, 13) == h
            &&& number_at(t, 14, 16) == n
            &&& number_at(t, 17, 19) == s
        }),
{
    let t = laid_out(y, m, d, h, n, s);
    lemma_places(y, m, d, h, n, s);
    lemma_four_digits(y);
    lemma_two_digits(y / 100);
    lemma_two_digits(y % 100);
    lemma_two_digits(m);
    lemma_two_digits(d);
    lemma_two_digits(h);
    lemma_two_digits(n);
    lemma_two_digits(s);
    assert(t.subrange(0, 4) =~= four_digits(y));
    assert(t.subrange(5, 7) =~= two_digits(m));
    assert(t.subrange(8, 10) =~= two_digits(d));
    assert(t.subrange(11, 13) =~= two_digits(h));
    assert(t.subrange(14, 16) =~= two_digits(n));
    assert(t.subrange(17, 19) =~= two_digits(s));
}

/// A timestamp of the parts of a time names that time.
proof fn lemma_named(y: int, m: int, d: int, h: int, n: int, s: int, day: int)
    requires
        parts_fit(y, m, d, h, n, s),
        is_date_of(y, m, d, day),
        h < 24,
        n < 60,
        s < 60,
    ensures
        has_form(laid_out(y, m, d, h, n, s)),
        names_time(laid_out(y, m, d, h, n, s)),
        seconds_named(laid_out(y, m, d, h, n, s)) == day * 86_400 + h * 3_600 + n * 60 + s,
{
    lemma_form(y, m, d, h, n, s);
}

/// The hours, minutes and seconds of a second of the day.
proof fn lemma_parts_of_day(secs: int)
    requires
        secs >= 0,
    ensures
        ({
            let rest = secs % 86_400;
            &&& rest / 3_600 < 24
            &&& rest % 3_600 / 60 < 60
            &&& rest % 60 < 60
            &&& secs == secs / 86_400 * 86_400 + rest / 3_600 * 3_600 + rest % 3_600 / 60 * 60
                + rest % 60
        }),
{
    let rest = secs % 86_400;
    assert(rest % 3_600 % 60 == rest % 60);
}

/// A timestamp before the year 10000 is laid out in four and two digits.
proof fn lemma_laid_out(secs: nat)
    requires
        secs < FIVE_DIGIT_YEARS,
    ensures
        ({
            let date = date_of((secs / 86_400) as int);
            let rest = (secs % 86_400) as int;
            &&& is_date_of(date.0, date.1, date.2, (secs / 86_400) as int)
            &&& parts_fit(date.0, date.1, date.2, rest / 3_600, rest % 3_600 / 60, rest % 60)
            &&& timestamp(secs) == laid_out(
                date.0,
                date.1,
                date.2,
                rest / 3_600,
                rest % 3_600 / 60,
                rest % 60,
            )
        }),
{
    let date = date_of((secs / 86_400) as int);
    let rest = (secs % 86_400) as int;
    lemma_date_of((secs / 86_400) as int);
    assert(month_length(date.0, date.1) <= 31);
    lemma_four_digits(date.0);
    lemma_two_digits(date.1);
    lemma_two_digits(date.2);
    lemma_two_digits(rest / 3_600);
    lemma_two_digits(rest % 3_600 / 60);
    lemma_two_digits(rest % 60);
    reveal_strlit("-");
    reveal_strlit("T");
    reveal_strlit(":");
    reveal_strlit("Z");
    reveal(laid_out);
    assert("-"@ =~= seq!['-']);
    assert("T"@ =~= seq!['T']);
    assert(":"@ =~= seq![':']);
    assert("Z"@ =~= seq!['Z']);
}

/// The timestamp of a second before the year 10000 has twenty characters, in the form
/// `YYYY-MM-DDTHH:MM:SSZ`, and names a valid time: the one that is that many seconds after
/// 1 January 1970.
pub proof fn timestamp_names_its_second(secs: nat)
    requires
        secs < FIVE_DIGIT_YEARS,
    ensures
        has_form(timestamp(secs)),
        names_time(timestamp(secs)),
        seconds_named(timestamp(secs)) == secs,
{
    let date = date_of((secs / 86_400) as int);
    let rest = (secs % 86_400) as int;
    lemma_laid_out(secs);
    lemma_parts_of_day(secs as int);
    let (h, n, s) = (rest / 3_600, rest % 3_600 / 60, rest % 60);
    lemma_named(date.0, date.1, date.2, h, n, s, (secs / 86_400) as int);
}

/// Of two dates, the earlier one has the lower year, or the lower month in the same year, or the
/// lower day in the same month.
proof fn lemma_dates_in_order(y: int, m: int, d: int, y2: int, m2: int, d2: int)
    requires
        valid_date(y, m, d),
        valid_date(y2, m2, d2),
        day_number(y, m, d) < day_number(y2, m2, d2),
    ensures
        y < y2 || (y == y2 && (m < m2 || (m == m2 && d < d2))),
{
    lemma_date_in_year(y, m, d);
    lemma_date_in_year(y2, m2, d2);
    if y2 < y {
        lemma_years_in_order(y2 + 1, y);
    } else if y == y2 && m2 < m {
        lemma_months_in_order(y, m2, m);
    }
}

/// The digits of a lower number are lower at the first place where they differ.
proof fn lemma_two_digits_differ(a: int, b: int) -> (k: int)
    requires
        0 <= a < b < 100,
    ensures
        0 <= k < 2,
        k == 1 ==> two_digits(a)[0] == two_digits(b)[0],
        two_digits(a)[k] < two_digits(b)[k],
{
    if a / 10 < b / 10 {
        0
    } else {
        1
    }
}

/// A year of four digits that is lower has a lower digit at the first place where they differ.
proof fn lemma_years_precede(
    x: (int, int, int, int, int, int),
    z: (int, int, int, int, int, int),
)
    requires
        0 <= x.0 < z.0 < 10_000,
    ensures
        precedes(
            laid_out(x.0, x.1, x.2, x.3, x.4, x.5),
            laid_out(z.0, z.1, z.2, z.3, z.4, z.5),
        ),
{
    let a = laid_out(x.0, x.1, x.2, x.3, x.4, x.5);
    let b = laid_out(z.0, z.1, z.2, z.3, z.4, z.5);
    lemma_places(x.0, x.1, x.2, x.3, x.4, x.5);
    lemma_places(z.0, z.1, z.2, z.3, z.4, z.5);
    if x.0 / 100 < z.0 / 100 {
        let k = lemma_two_digits_differ(x.0 / 100, z.0 / 100);
        lemma_precedes_at(a, b, k);
    } else {
        assert(x.0 / 100 == z.0 / 100);
        let k = lemma_two_digits_differ(x.0 % 100, z.0 % 100);
        lemma_precedes_at(a, b, 2 + k);
    }
}

/// Timestamps stand in the order of their parts, the first part that differs deciding.
proof fn lemma_parts_precede(
    x: (int, int, int, int, int, int),
    z: (int, int, int, int, int, int),
)
    requires
        parts_fit(x.0, x.1, x.2, x.3, x.4, x.5),
        parts_fit(z.0, z.1, z.2, z.3, z.4, z.5),
        x.0 == z.0,
        x.1 < z.1 || (x.1 == z.1 && (x.2 < z.2 || (x.2 == z.2 && (x.3 < z.3 || (x.3 == z.3 && (x.4
            < z.4 || (x.4 == z.4 && x.5 < z.5))))))),
    ensures
        precedes(
            laid_out(x.0, x.1, x.2, x.3, x.4, x.5),
            laid_out(z.0, z.1, z.2, z.3, z.4, z.5),
        ),
{
    let a = laid_out(x.0, x.1, x.2, x.3, x.4, x.5);
    let b = laid_out(z.0, z.1, z.2, z.3, z.4, z.5);
    lemma_places(x.0, x.1, x.2, x.3, x.4, x.5);
    lemma_places(z.0, z.1, z.2, z.3, z.4, z.5);
    if x.1 < z.1 {
        let k = lemma_two_digits_differ(x.1, z.1);
        lemma_precedes_at(a, b, 5 + k);
    } else if x.2 < z.2 {
        let k = lemma_two_digits_differ(x.2, z.2);
        lemma_precedes_at(a, b, 8 + k);
    } else if x.3 < z.3 {
        let k = lemma_two_digits_differ(x.3, z.3);
        lemma_precedes_at(a, b, 11 + k);
    } else if x.4 < z.4 {
        let k = lemma_two_digits_differ(x.4, z.4);
        lemma_precedes_at(a, b, 14 + k);
    } else {
        let k = lemma_two_digits_differ(x.5, z.5);
        lemma_precedes_at(a, b, 17 + k);
    }
}

/// The timestamps of seconds before the year 10000 stand in the order of the seconds, so no two
/// seconds share one.
pub proof fn timestamps_keep_order(earlier: nat, later: nat)
    requires
        earlier < later < FIVE_DIGIT_YEARS,
    ensures
        precedes(timestamp(earlier), timestamp(later)),
{
    let a = date_of((earlier / 86_400) as int);
    let b = date_of((later / 86_400) as int);
    let r = (earlier % 86_400) as int;
    let t = (later % 86_400) as int;
    lemma_laid_out(earlier);
    lemma_laid_out(later);
    if earlier / 86_400 < later / 86_400 {
        lemma_dates_in_order(a.0, a.1, a.2, b.0, b.1, b.2);
    } else {
        assert(a == b && r < t);
    }
    let x = (a.0, a.1, a.2, r / 3_600, r % 3_600 / 60, r % 60);
    let z = (b.0, b.1, b.2, t / 3_600, t % 3_600 / 60, t % 60);
    if a.0 < b.0 {
        lemma_years_precede(x, z);
    } else {
        lemma_parts_precede(x, z);
    }
}

} // verus!
