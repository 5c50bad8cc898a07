//! Texts: taking them apart and putting them together are each other's reverse.
use crate::text::{
    after_prefix, decimal, digits_value, first_at, holds_text, is_digit, joined,
    lemma_decimal_value, lemma_until_is, line_list, part_before, parsed_u64, parts_around,
    signed_decimal, stands_at, trimmed, trimmed_end, trimmed_start, white_space, zero_padded,
};
use vstd::prelude::*;

verus! {

/// All characters are white space.
pub open spec fn all_white(s: Seq<char>) -> bool {
    forall|i: int| 0 <= i < s.len() ==> white_space(#[trigger] s[i])
}

/// The text neither starts nor ends with white space.
pub open spec fn tight(s: Seq<char>) -> bool {
    s.len() > 0 ==> !white_space(s[0]) && !white_space(s[s.len() - 1])
}

/// The text does not hold the character.
pub open spec fn free_of(s: Seq<char>, c: char) -> bool {
    forall|i: int| 0 <= i < s.len() ==> #[trigger] s[i] != c
}

/// All characters are decimal digits.
pub open spec fn all_digits(s: Seq<char>) -> bool {
    forall|i: int| 0 <= i < s.len() ==> '0' <= #[trigger] s[i] <= '9'
}

/// White space is what Unicode says it is, code point by code point.
pub proof fn white_space_is_unicodes(c: char)
    ensures
        white_space(c) <==> (seq![
            0x9u32, 0xa, 0xb, 0xc, 0xd, 0x20, 0x85, 0xa0, 0x1680, 0x2000, 0x2001, 0x2002, 0x2003,
            0x2004, 0x2005, 0x2006, 0x2007, 0x2008, 0x2009, 0x200a, 0x2028, 0x2029, 0x202f, 0x205f,
            0x3000,
        ]).contains(c as u32),
{
    let points = seq![
        0x9u32, 0xa, 0xb, 0xc, 0xd, 0x20, 0x85, 0xa0, 0x1680, 0x2000, 0x2001, 0x2002, 0x2003,
        0x2004, 0x2005, 0x2006, 0x2007, 0x2008, 0x2009, 0x200a, 0x2028, 0x2029, 0x202f, 0x205f,
        0x3000,
    ];
    let n = c as u32;
    if white_space(c) {
        let at: int = if n <= 0xd {
            n - 9
        } else if n == 0x20 {
            5
        } else if n == 0x85 {
            6
        } else if n == 0xa0 {
            7
        } else if n == 0x1680 {
            8
        } else if n <= 0x200a {
            n - 0x2000 + 9
        } else if n == 0x2028 {
            20
        } else if n == 0x2029 {
            21
        } else if n == 0x202f {
            22
        } else if n == 0x205f {
            23
        } else {
            24
        };
        assert(points[at] == n);
    }
}

/// White space in front of a text is dropped.
proof fn lemma_front_dropped(lead: Seq<char>, s: Seq<char>)
    requires
        all_white(lead),
        s.len() > 0 ==> !white_space(s[0]),
    ensures
        trimmed_start(lead + s) == s,
    decreases lead.len(),
{
    if lead.len() == 0 {
        assert(lead + s =~= s);
    } else {
        assert(white_space(lead[0]));
        assert((lead + s)[0] == lead[0]);
        assert((lead + s).skip(1) =~= lead.skip(1) + s);
        lemma_front_dropped(lead.skip(1), s);
    }
}

/// White space behind a text is dropped.
proof fn lemma_back_dropped(s: Seq<char>, tail: Seq<char>)
    requires
        all_white(tail),
        s.len() > 0 ==> !white_space(s[s.len() - 1]),
    ensures
        trimmed_end(s + tail) == s,
    decreases tail.len(),
{
    if tail.len() == 0 {
        assert(s + tail =~= s);
    } else {
        assert(white_space(tail[tail.len() - 1]));
        assert((s + tail).last() == tail.last());
        assert((s + tail).drop_last() =~= s + tail.drop_last());
        lemma_back_dropped(s, tail.drop_last());
    }
}

/// Trimming takes away the white space around a text and keeps every character of the text.
pub proof fn trimming_keeps_the_text(lead: Seq<char>, s: Seq<char>, tail: Seq<char>)
    requires
        all_white(lead),
        all_white(tail),
        tight(s),
    ensures
        trimmed(lead + s + tail) == s,
{
    if s.len() == 0 {
        assert(lead + s + tail =~= (lead + tail) + s);
        assert(all_white(lead + tail));
        lemma_front_dropped(lead + tail, s);
    } else {
        assert(lead + s + tail =~= lead + (s + tail));
        lemma_front_dropped(lead, s + tail);
        lemma_back_dropped(s, tail);
    }
}

/// Every text is white space, what trimming leaves, and white space again.
pub proof fn trimming_takes_white_space_only(s: Seq<char>) -> (parts: (Seq<char>, Seq<char>))
    ensures
        s == parts.0 + trimmed(s) + parts.1,
        all_white(parts.0),
        all_white(parts.1),
        tight(trimmed(s)),
{
    let a = lemma_split_front(s);
    let b = lemma_split_back(trimmed_start(s));
    let t = trimmed(s);
    assert(s =~= a + t + b);
    if t.len() > 0 {
        assert(t[0] == trimmed_start(s)[0]);
    }
    (a, b)
}

/// The white space in front of a text, and what is left.
proof fn lemma_split_front(s: Seq<char>) -> (lead: Seq<char>)
    ensures
        all_white(lead),
        s == lead + trimmed_start(s),
        trimmed_start(s).len() > 0 ==> !white_space(trimmed_start(s)[0]),
    decreases s.len(),
{
    if s.len() > 0 && white_space(s[0]) {
        let more = lemma_split_front(s.skip(1));
        let lead = seq![s[0]] + more;
        assert(s =~= seq![s[0]] + s.skip(1));
        assert(s =~= lead + trimmed_start(s));
        lead
    } else {
        assert(s =~= Seq::<char>::empty() + s);
        Seq::empty()
    }
}

/// The white space behind a text, and what is left.
proof fn lemma_split_back(s: Seq<char>) -> (tail: Seq<char>)
    ensures
        all_white(tail),
        s == trimmed_end(s) + tail,
        trimmed_end(s).len() > 0 ==> !white_space(trimmed_end(s)[trimmed_end(s).len() - 1]),
    decreases s.len(),
{
    if s.len() > 0 && white_space(s.last()) {
        let more = lemma_split_back(s.drop_last());
        let tail = more.push(s.last());
        assert(s =~= s.drop_last().push(s.last()));
        assert(s =~= trimmed_end(s) + tail);
        tail
    } else {
        assert(s =~= s + Seq::<char>::empty());
        Seq::empty()
    }
}

/// A line that a line feed ends, with or without a carriage return before it, is the first line,
/// and the lines of what follows come after it. What no line feed ends is one line, and an empty
/// text has none.
pub proof fn lines_are_what_line_feeds_end(line: Seq<char>, rest: Seq<char>)
    requires
        free_of(line, '\n'),
    ensures
        line.len() == 0 || line[line.len() - 1] != '\r' ==> line_list(line + seq!['\n'] + rest)
            == seq![line] + line_list(rest),
        line_list(line + seq!['\r', '\n'] + rest) == seq![line] + line_list(rest),
        line.len() > 0 ==> line_list(line) == seq![line],
        line_list(Seq::empty()) == Seq::<Seq<char>>::empty(),
{
    let n = line.len() as int;
    let a = line + seq!['\n'] + rest;
    assert forall|i: int| 0 <= i < n implies a[i] != '\n' by {
        assert(a[i] == line[i]);
    }
    lemma_until_is(a, '\n', n);
    assert(a.take(n) =~= line);
    assert(a.skip(n + 1) =~= rest);
    let b = line + seq!['\r', '\n'] + rest;
    assert forall|i: int| 0 <= i < n + 1 implies b[i] != '\n' by {
        if i < n {
            assert(b[i] == line[i]);
        }
    }
    lemma_until_is(b, '\n', n + 1);
    assert(b.take(n + 1) =~= line.push('\r'));
    assert(line.push('\r').drop_last() =~= line);
    assert(b.skip(n + 2) =~= rest);
    if n > 0 {
        lemma_until_is(line, '\n', n);
    }
}

/// A text is taken apart at the first of a character: what stood before it and what stood after it
/// come out as they went in.
pub proof fn parting_is_at_the_first(before: Seq<char>, c: char, after: Seq<char>)
    requires
        free_of(before, c),
    ensures
        part_before(before + seq![c] + after, c) == before,
        parts_around(before + seq![c] + after, c) == Some((before, after)),
        part_before(before, c) == before,
        parts_around(before, c) is None,
{
    let n = before.len() as int;
    let s = before + seq![c] + after;
    assert forall|i: int| 0 <= i < n implies s[i] != c by {
        assert(s[i] == before[i]);
    }
    lemma_until_is(s, c, n);
    assert(s.take(n) =~= before);
    assert(s.skip(n + 1) =~= after);
    lemma_until_is(before, c, n);
    assert(before.take(n) =~= before);
}

/// What follows a prefix comes out whole, and nothing comes out where the text does not start with
/// the prefix.
pub proof fn prefix_is_taken_off_whole(prefix: Seq<char>, rest: Seq<char>, s: Seq<char>)
    ensures
        after_prefix(prefix + rest, prefix) == Some(rest),
        after_prefix(s, prefix) matches Some(tail) ==> s == prefix + tail,
{
    let whole = prefix + rest;
    assert(whole.take(prefix.len() as int) =~= prefix);
    assert(whole.skip(prefix.len() as int) =~= rest);
    if after_prefix(s, prefix) is Some {
        assert(s =~= prefix + s.skip(prefix.len() as int));
    }
}

/// A part stands in a text exactly where the text is something, the part, and something.
pub proof fn standing_is_being_around(s: Seq<char>, part: Seq<char>, i: int)
    ensures
        stands_at(s, part, i) <==> exists|a: Seq<char>, b: Seq<char>|
            #![trigger a + part + b]
            a.len() == i && s == a + part + b,
        stands_at(s, part, i) ==> holds_text(s, part),
{
    if stands_at(s, part, i) {
        let a = s.take(i);
        let b = s.skip(i + part.len());
        assert(s =~= a + part + b) by {
            assert forall|k: int| i <= k < i + part.len() implies s[k] == part[k - i] by {
                assert(s.subrange(i, i + part.len())[k - i] == s[k]);
            }
        }
    }
    if exists|a: Seq<char>, b: Seq<char>| #![trigger a + part + b] a.len() == i && s == a + part + b {
        let (a, b) = choose|a: Seq<char>, b: Seq<char>|
            #![trigger a + part + b]
            a.len() == i && s == a + part + b;
        assert(s.subrange(i, i + part.len()) =~= part);
    }
}

/// The first place of a part is a place of it, and no place of it comes before.
pub proof fn first_place_is_least(s: Seq<char>, part: Seq<char>, i: int, j: int)
    requires
        first_at(s, part, i),
    ensures
        stands_at(s, part, i),
        stands_at(s, part, j) ==> i <= j,
        holds_text(s, part),
{
}

/// A number is written in digits that stand for it, without a zero in front unless it is zero, and
/// no other digits do.
pub proof fn decimals_are_canonical(n: nat, s: Seq<char>)
    ensures
        decimal(n).len() > 0,
        all_digits(decimal(n)),
        digits_value(decimal(n)) == n,
        n > 0 ==> decimal(n)[0] != '0',
        s.len() > 0 && all_digits(s) && digits_value(s) == n && (s[0] != '0' || s.len() == 1) ==> s
            == decimal(n),
    decreases n,
{
    lemma_decimal_value(n);
    assert forall|i: int| 0 <= i < decimal(n).len() implies '0' <= #[trigger] decimal(
        n,
    )[i] <= '9' by {
        assert(is_digit(decimal(n)[i]));
    }
    if n >= 10 {
        decimals_are_canonical(n / 10, Seq::empty());
        assert(decimal(n)[0] == decimal(n / 10)[0]);
    }
    if s.len() > 0 && all_digits(s) && digits_value(s) == n && (s[0] != '0' || s.len() == 1) {
        let front = s.drop_last();
        let last = (s.last() as nat - 48) as nat;
        assert('0' <= s[s.len() - 1] <= '9');
        assert(n == digits_value(front) * 10 + last);
        assert(n / 10 == digits_value(front) && n % 10 == last);
        if s.len() == 1 {
            assert(front =~= Seq::empty());
            assert(s =~= decimal(n));
        } else {
            assert(front[0] == s[0]);
            assert(all_digits(front)) by {
                assert forall|i: int| 0 <= i < front.len() implies '0' <= #[trigger] front[i] <= '9' by {
                    assert(front[i] == s[i]);
                }
            }
            lemma_positive(front);
            decimals_are_canonical(n / 10, front);
            assert(s =~= front.push(s.last()));
        }
    }
}

/// Digits that do not start with a zero stand for a number above zero.
proof fn lemma_positive(s: Seq<char>)
    requires
        s.len() > 0,
        all_digits(s),
        s[0] != '0',
    ensures
        digits_value(s) > 0,
    decreases s.len(),
{
    let front = s.drop_last();
    assert('0' <= s[s.len() - 1] <= '9');
    if s.len() > 1 {
        assert(front[0] == s[0]);
        assert forall|i: int| 0 <= i < front.len() implies '0' <= #[trigger] front[i] <= '9'
            by {
            assert(front[i] == s[i]);
        }
        lemma_positive(front);
    } else {
        assert(front =~= Seq::empty());
    }
}

/// The number that digits stand for grows tenfold with each digit, and by the digit.
pub proof fn digits_count_in_tens(s: Seq<char>, d: nat)
    requires
        d < 10,
    ensures
        digits_value(Seq::empty()) == 0,
        digits_value(s.push((48 + d) as char)) == 10 * digits_value(s) + d,
{
    let t = s.push((48 + d) as char);
    assert(t.drop_last() =~= s);
    assert(t.last() as nat == 48 + d);
}

/// A negative number is written with a minus sign before its magnitude, any other without.
pub proof fn sign_is_written(n: int)
    ensures
        n >= 0 ==> all_digits(signed_decimal(n)) && digits_value(signed_decimal(n)) == n,
        n < 0 ==> signed_decimal(n).len() > 1 && signed_decimal(n)[0] == '-' && all_digits(
            signed_decimal(n).skip(1),
        ) && digits_value(signed_decimal(n).skip(1)) == -n,
{
    if n >= 0 {
        decimals_are_canonical(n as nat, Seq::empty());
    } else {
        decimals_are_canonical((-n) as nat, Seq::empty());
        assert(signed_decimal(n).skip(1) =~= decimal((-n) as nat));
    }
}

/// Zeros are filled in up to the width and no further: the digits behind them are the number's.
pub proof fn padding_is_zeros(n: nat, width: nat)
    ensures
        zero_padded(n, width).len() >= width,
        zero_padded(n, width).len() > width ==> zero_padded(n, width) == decimal(n),
        zero_padded(n, width).skip(zero_padded(n, width).len() - decimal(n).len()) == decimal(n),
        forall|i: int|
            0 <= i < zero_padded(n, width).len() - decimal(n).len() ==> #[trigger] zero_padded(
                n,
                width,
            )[i] == '0',
{
    let d = decimal(n);
    let s = zero_padded(n, width);
    assert(s.skip(s.len() - d.len()) =~= d);
}

/// A number is read from digits, with or without a plus sign in front, exactly where there is at
/// least one digit, nothing else, and the number fits.
pub proof fn numbers_are_read_from_digits(s: Seq<char>)
    ensures
        s.len() > 0 && all_digits(s) && digits_value(s) <= u64::MAX ==> parsed_u64(s) == Some(
            digits_value(s) as u64,
        ) && parsed_u64(seq!['+'] + s) == Some(digits_value(s) as u64),
        all_digits(s) && (s.len() == 0 || digits_value(s) > u64::MAX) ==> parsed_u64(s) is None
            && parsed_u64(seq!['+'] + s) is None,
        !all_digits(s) ==> parsed_u64(seq!['+'] + s) is None,
        !all_digits(s) && s[0] != '+' ==> parsed_u64(s) is None,
{
    let signed = seq!['+'] + s;
    assert(signed.skip(1) =~= s);
    if all_digits(s) {
        assert forall|i: int| 0 <= i < s.len() implies is_digit(#[trigger] s[i]) by {
            assert('0' <= s[i] <= '9');
        }
        if s.len() > 0 {
            assert(s[0] != '+');
        } else {
            assert(!is_digit(signed[0]));
        }
    } else {
        let i = choose|i: int| 0 <= i < s.len() && !('0' <= #[trigger] s[i] <= '9');
        assert(!is_digit(s[i]));
    }
}

/// Joining puts the separator between each two parts and nowhere else.
pub proof fn joining_separates(first: Seq<char>, rest: Seq<Seq<char>>, sep: Seq<char>)
    ensures
        joined(Seq::empty(), sep) == Seq::<char>::empty(),
        joined(seq![first], sep) == first,
        rest.len() > 0 ==> joined(seq![first] + rest, sep) == first + sep + joined(rest, sep),
    decreases rest.len(),
{
    if rest.len() > 0 {
        let all = seq![first] + rest;
        let front = rest.drop_last();
        assert(all.drop_last() =~= seq![first] + front);
        assert(all.last() == rest.last());
        assert(joined(all, sep) == joined(seq![first] + front, sep) + sep + rest.last());
        if rest.len() == 1 {
            assert(seq![first] + front =~= seq![first]);
            assert(joined(seq![first], sep) == first);
            assert(joined(rest, sep) == rest[0]);
        } else {
            joining_separates(first, front, sep);
            assert(joined(all, sep) =~= first + sep + (joined(front, sep) + sep + rest.last()));
        }
    }
}

} // verus!
