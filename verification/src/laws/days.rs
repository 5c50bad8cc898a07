//! How days, dates and timestamps follow each other.
use crate::calendar::{
    date_of, date_of_day_number, day_number, leap, lemma_month_start, lemma_next_year, month_length,
    month_start, timestamp, valid_date, year_length,
};
use crate::text::zero_padded;
use vstd::arithmetic::div_mod::lemma_fundamental_div_mod_converse;
use vstd::prelude::*;

verus! {

/// Every fourth year is a leap year, but of the years that end a century only every fourth.
pub proof fn leap_years_are_gregorian(y: int)
    ensures
        y % 4 != 0 ==> !leap(y),
        y % 4 == 0 && y % 100 != 0 ==> leap(y),
        leap(100 * y) <==> y % 4 == 0,
        year_length(y) == 365 || year_length(y) == 366,
        year_length(y) == 366 <==> leap(y),
{
    assert((100 * y) % 400 == 0 <==> y % 4 == 0);
    assert((100 * y) % 100 == 0 && (100 * y) % 4 == 0);
}

/// Counting starts on the first of January 1970, and the day behind a date is the next of its
/// month, or the first of the next month, or the first of the next year.
pub proof fn days_follow_each_other(y: int, m: int, d: int)
    requires
        valid_date(y, m, d),
    ensures
        day_number(1970, 1, 1) == 0,
        ({
            let last = if m == 2 {
                if leap(y) {
                    29int
                } else {
                    28
                }
            } else if m == 4 || m == 6 || m == 9 || m == 11 {
                30
            } else {
                31
            };
            let next = date_of(day_number(y, m, d) + 1);
            &&& 1 <= d <= last
            &&& d < last ==> next == (y, m, d + 1)
            &&& d == last && m < 12 ==> next == (y, m + 1, 1int)
            &&& d == last && m == 12 ==> next == (y + 1, 1int, 1int)
        }),
{
    lemma_month_start(1970);
    if d < month_length(y, m) {
        date_of_day_number(y, m, d + 1);
    } else if m < 12 {
        assert(month_start(y, m + 1) == month_start(y, m) + month_length(y, m));
        date_of_day_number(y, m + 1, 1);
    } else {
        lemma_next_year(y);
        lemma_month_start(y);
        lemma_month_start(y + 1);
        date_of_day_number(y + 1, 1, 1);
    }
}

/// The timestamp of a time is its year in four digits or more, and its month, day, hour, minute and
/// second in two.
pub proof fn timestamps_show_date_and_time(y: int, m: int, d: int, h: int, n: int, s: int)
    requires
        valid_date(y, m, d),
        day_number(y, m, d) >= 0,
        0 <= h < 24,
        0 <= n < 60,
        0 <= s < 60,
    ensures
        timestamp((86_400 * day_number(y, m, d) + 3_600 * h + 60 * n + s) as nat) == zero_padded(
            y as nat,
            4,
        ) + seq!['-'] + zero_padded(m as nat, 2) + seq!['-'] + zero_padded(d as nat, 2) + seq!['T']
            + zero_padded(h as nat, 2) + seq![':'] + zero_padded(n as nat, 2) + seq![':']
            + zero_padded(s as nat, 2) + seq!['Z'],
{
    let day = day_number(y, m, d);
    let rest = 3_600 * h + 60 * n + s;
    let secs = 86_400 * day + rest;
    lemma_fundamental_div_mod_converse(secs, 86_400, day, rest);
    lemma_fundamental_div_mod_converse(rest, 3_600, h, 60 * n + s);
    lemma_fundamental_div_mod_converse(60 * n + s, 60, n, s);
    lemma_fundamental_div_mod_converse(rest, 60, 60 * h + n, s);
    date_of_day_number(y, m, d);
    reveal_strlit("-");
    reveal_strlit("T");
    reveal_strlit(":");
    reveal_strlit("Z");
    assert("-"@ =~= seq!['-']);
    assert("T"@ =~= seq!['T']);
    assert(":"@ =~= seq![':']);
    assert("Z"@ =~= seq!['Z']);
}

} // verus!
