//! Text as sequences of characters: building, comparing, trimming and splitting.
use vstd::prelude::*;

verus! {

/// `String::push` appends one character to the end of the string.
pub assume_specification[ String::push ](s: &mut String, c: char)
    ensures
        final(s)@ == old(s)@.push(c),
;

/// The characters of `s`, in order.
pub fn chars_of(s: &str) -> (r: Vec<char>)
    ensures
        r@ == s@,
{
    let mut r: Vec<char> = Vec::new();
    for c in it: s.chars()
        invariant
            r@ == it.seq().take(it.index() as int),
            it.seq() == s@,
    {
        r.push(c);
    }
    r
}

/// How many characters `s` has.
pub fn char_count(s: &str) -> (r: usize)
    ensures
        r == s@.len(),
{
    chars_of(s).len()
}

/// The string that holds `chars`, in order.
pub fn string_of(chars: &[char]) -> (r: String)
    ensures
        r@ == chars@,
{
    let mut r = String::new();
    for i in 0..chars.len()
        invariant
            r@ == chars@.take(i as int),
    {
        r.push(chars[i]);
    }
    r
}

/// Whether two texts are the same.
pub fn same_text(a: &str, b: &str) -> (r: bool)
    ensures
        r == (a@ == b@),
{
    let x = chars_of(a);
    let y = chars_of(b);
    if x.len() != y.len() {
        return false;
    }
    for i in 0..x.len()
        invariant
            x@ == a@,
            y@ == b@,
            x.len() == y.len(),
            x@.take(i as int) == y@.take(i as int),
    {
        if x[i] != y[i] {
            assert(x@[i as int] != y@[i as int]);
            return false;
        }
        assert(x@.take(i + 1) == x@.take(i as int).push(x@[i as int]));
        assert(y@.take(i + 1) == y@.take(i as int).push(y@[i as int]));
    }
    assert(x@.take(x.len() as int) == x@);
    assert(y@.take(y.len() as int) == y@);
    true
}


/// One text after another.
pub fn two(a: &str, b: &str) -> (r: String)
    ensures
        r@ == a@ + b@,
{
    let mut r = String::new();
    r.append(a);
    r.append(b);
    assert(r@ =~= a@ + b@);
    r
}

/// The texts that a list of strings holds.
pub open spec fn texts(list: Seq<String>) -> Seq<Seq<char>> {
    list.map_values(|s: String| s@)
}

/// How many characters stand before the first `c` in `s`: all of them where there is none.
pub open spec fn until(s: Seq<char>, c: char) -> int
    decreases s.len(),
{
    if s.len() == 0 || s[0] == c {
        0
    } else {
        1 + until(s.skip(1), c)
    }
}

/// `until` is the position of the first `c`, or the length.
pub proof fn lemma_until(s: Seq<char>, c: char)
    ensures
        0 <= until(s, c) <= s.len(),
        until(s, c) < s.len() ==> s[until(s, c)] == c,
        forall|i: int| 0 <= i < until(s, c) ==> s[i] != c,
    decreases s.len(),
{
    if s.len() != 0 && s[0] != c {
        lemma_until(s.skip(1), c);
        assert forall|i: int| 0 <= i < until(s, c) implies s[i] != c by {
            if i > 0 {
                assert(s.skip(1)[i - 1] == s[i]);
            }
        }
    }
}

/// A position of `c` with no `c` before it is what `until` gives.
pub proof fn lemma_until_is(s: Seq<char>, c: char, n: int)
    requires
        0 <= n <= s.len(),
        n < s.len() ==> s[n] == c,
        forall|i: int| 0 <= i < n ==> s[i] != c,
    ensures
        until(s, c) == n,
{
    lemma_until(s, c);
}

/// How many characters stand before the first `c` in `chars[from..]`.
pub fn count_until(chars: &[char], from: usize, c: char) -> (r: usize)
    requires
        from <= chars@.len(),
    ensures
        r == until(chars@.skip(from as int), c),
        from + r <= chars@.len(),
{
    let mut n: usize = 0;
    let len: usize = chars.len();
    while n < len - from && chars[from + n] != c
        invariant
            len == chars@.len(),
            from + n <= len,
            forall|i: int| 0 <= i < n ==> chars@.skip(from as int)[i] != c,
        decreases chars@.len() - n,
    {
        n += 1;
    }
    proof {
        lemma_until_is(chars@.skip(from as int), c, n as int);
    }
    n
}

/// The characters with the Unicode property White_Space.
pub open spec fn white_space(c: char) -> bool {
    ||| '\u{9}' <= c <= '\u{d}'
    ||| c == '\u{20}'
    ||| c == '\u{85}'
    ||| c == '\u{a0}'
    ||| c == '\u{1680}'
    ||| '\u{2000}' <= c <= '\u{200a}'
    ||| c == '\u{2028}'
    ||| c == '\u{2029}'
    ||| c == '\u{202f}'
    ||| c == '\u{205f}'
    ||| c == '\u{3000}'
}

/// Whether `c` is white space.
pub fn is_white_space(c: char) -> (r: bool)
    ensures
        r == white_space(c),
{
    ('\u{9}' <= c && c <= '\u{d}') || c == '\u{20}' || c == '\u{85}' || c == '\u{a0}' || c
        == '\u{1680}' || ('\u{2000}' <= c && c <= '\u{200a}') || c == '\u{2028}' || c == '\u{2029}'
        || c == '\u{202f}' || c == '\u{205f}' || c == '\u{3000}'
}

/// `s` without the white space at its start.
pub open spec fn trimmed_start(s: Seq<char>) -> Seq<char>
    decreases s.len(),
{
    if s.len() > 0 && white_space(s[0]) {
        trimmed_start(s.skip(1))
    } else {
        s
    }
}

/// `s` without the white space at its end.
pub open spec fn trimmed_end(s: Seq<char>) -> Seq<char>
    decreases s.len(),
{
    if s.len() > 0 && white_space(s.last()) {
        trimmed_end(s.drop_last())
    } else {
        s
    }
}

/// `s` without the white space at both ends.
pub open spec fn trimmed(s: Seq<char>) -> Seq<char> {
    trimmed_end(trimmed_start(s))
}

/// The text without the white space at both ends.
pub fn trim(s: &str) -> (r: String)
    ensures
        r@ == trimmed(s@),
{
    let chars = chars_of(s);
    let mut start: usize = 0;
    assert(chars@.skip(0) == chars@);
    while start < chars.len() && is_white_space(chars[start])
        invariant
            chars@ == s@,
            start <= chars@.len(),
            trimmed_start(s@) == trimmed_start(chars@.skip(start as int)),
        decreases chars@.len() - start,
    {
        assert(chars@.skip(start as int).skip(1) == chars@.skip(start + 1));
        start += 1;
    }
    let mut end: usize = chars.len();
    assert(chars@.subrange(start as int, end as int) == chars@.skip(start as int));
    while end > start && is_white_space(chars[end - 1])
        invariant
            chars@ == s@,
            start <= end <= chars@.len(),
            trimmed(s@) == trimmed_end(chars@.subrange(start as int, end as int)),
        decreases end,
    {
        assert(chars@.subrange(start as int, end as int).drop_last() == chars@.subrange(
            start as int,
            end - 1,
        ));
        end -= 1;
    }
    string_of(&chars[start..end])
}

/// A line that a line feed ended, without the carriage return that may stand before it.
pub open spec fn without_return(line: Seq<char>) -> Seq<char> {
    if line.len() > 0 && line.last() == '\r' {
        line.drop_last()
    } else {
        line
    }
}

/// The lines of `s`: a line feed ends each, together with the carriage return right before it.
/// What stands after the last line feed is a line where it is not empty.
pub open spec fn line_list(s: Seq<char>) -> Seq<Seq<char>>
    decreases s.len(),
{
    proof {
        lemma_until(s, '\n');
    }
    if s.len() == 0 {
        Seq::empty()
    } else if until(s, '\n') == s.len() {
        seq![s]
    } else {
        seq![without_return(s.take(until(s, '\n')))] + line_list(s.skip(until(s, '\n') + 1))
    }
}

/// The lines of the text.
pub fn lines(s: &str) -> (r: Vec<String>)
    ensures
        texts(r@) == line_list(s@),
{
    let chars = chars_of(s);
    let mut r: Vec<String> = Vec::new();
    let mut at: usize = 0;
    assert(chars@.skip(0) == chars@);
    while at < chars.len()
        invariant
            chars@ == s@,
            at <= chars@.len(),
            line_list(s@) == texts(r@) + line_list(chars@.skip(at as int)),
        decreases chars@.len() - at,
    {
        let ghost rest = chars@.skip(at as int);
        let ghost before = texts(r@);
        let n: usize = count_until(&chars, at, '\n');
        let end: usize = at + n;
        if end == chars.len() {
            r.push(string_of(&chars[at..end]));
            assert(chars@.subrange(at as int, end as int) == rest);
            assert(texts(r@) == before + seq![rest]);
            assert(chars@.skip(end as int).len() == 0);
            at = end;
        } else {
            let stop: usize = if n > 0 && chars[end - 1] == '\r' {
                end - 1
            } else {
                end
            };
            r.push(string_of(&chars[at..stop]));
            assert(chars@.subrange(at as int, stop as int) == without_return(rest.take(n as int)));
            assert(texts(r@) == before + seq![without_return(rest.take(n as int))]);
            assert(rest.skip(n + 1) == chars@.skip(end + 1));
            at = end + 1;
        }
    }
    assert(chars@.skip(at as int).len() == 0);
    r
}

/// `part` stands in `s` at position `i`.
pub open spec fn stands_at(s: Seq<char>, part: Seq<char>, i: int) -> bool {
    0 <= i && i + part.len() <= s.len() && s.subrange(i, i + part.len()) == part
}

/// `part` stands somewhere in `s`.
pub open spec fn holds_text(s: Seq<char>, part: Seq<char>) -> bool {
    exists|i: int| stands_at(s, part, i)
}

/// `part` stands in `s` at position `i` and nowhere before it.
pub open spec fn first_at(s: Seq<char>, part: Seq<char>, i: int) -> bool {
    stands_at(s, part, i) && forall|j: int| 0 <= j < i ==> !stands_at(s, part, j)
}

/// Whether `part` stands in `chars` at position `i`.
fn is_at(chars: &[char], part: &[char], i: usize) -> (r: bool)
    requires
        i <= chars@.len(),
    ensures
        r == stands_at(chars@, part@, i as int),
{
    let len: usize = chars.len();
    if part.len() > len - i {
        return false;
    }
    for k in 0..part.len()
        invariant
            len == chars@.len(),
            i + part@.len() <= len,
            forall|j: int| 0 <= j < k ==> chars@[i + j] == part@[j],
    {
        if chars[i + k] != part[k] {
            assert(chars@.subrange(i as int, i + part@.len())[k as int] != part@[k as int]);
            return false;
        }
    }
    assert(chars@.subrange(i as int, i + part@.len()) == part@);
    true
}

/// The first position at or after `from` where `part` stands in `chars[from..]`, counted from `from`.
pub fn find(chars: &[char], from: usize, part: &[char]) -> (r: Option<usize>)
    requires
        from <= chars@.len(),
    ensures
        match r {
            Some(i) => from + i <= chars@.len() && first_at(
                chars@.skip(from as int),
                part@,
                i as int,
            ),
            None => !holds_text(chars@.skip(from as int), part@),
        },
{
    let ghost rest = chars@.skip(from as int);
    let mut i: usize = from;
    loop
        invariant
            from <= i <= chars@.len(),
            rest == chars@.skip(from as int),
            forall|j: int| 0 <= j < i - from ==> !stands_at(rest, part@, j),
        decreases chars@.len() - i,
    {
        let hit = is_at(chars, part, i);
        proof {
            if i + part@.len() <= chars@.len() {
                assert(rest.subrange(i - from, i - from + part@.len()) == chars@.subrange(
                    i as int,
                    i + part@.len(),
                ));
            }
        }
        if hit {
            return Some(i - from);
        }
        if i == chars.len() {
            return None;
        }
        i += 1;
    }
}

/// Whether `part` stands somewhere in `s`.
pub fn contains_text(s: &str, part: &str) -> (r: bool)
    ensures
        r == holds_text(s@, part@),
{
    let chars = chars_of(s);
    assert(chars@.skip(0) == chars@);
    find(&chars, 0, &chars_of(part)).is_some()
}

/// What stands in `s` before the first `c`: all of it where there is none.
pub open spec fn part_before(s: Seq<char>, c: char) -> Seq<char> {
    s.take(until(s, c))
}

/// What stands in `s` before the first `c` and what stands after it, where there is one.
pub open spec fn parts_around(s: Seq<char>, c: char) -> Option<(Seq<char>, Seq<char>)> {
    if until(s, c) < s.len() {
        Some((s.take(until(s, c)), s.skip(until(s, c) + 1)))
    } else {
        None
    }
}

/// What stands in `s` before the first `c`: all of it where there is none.
pub fn up_to(s: &str, c: char) -> (r: String)
    ensures
        r@ == part_before(s@, c),
{
    let chars = chars_of(s);
    assert(chars@.skip(0) == chars@);
    let n = count_until(&chars, 0, c);
    string_of(vstd::slice::slice_subrange(&chars, 0, n))
}

/// What stands in `s` before the first `c` and what stands after it, where there is one.
pub fn split_once(s: &str, c: char) -> (r: Option<(String, String)>)
    ensures
        match r {
            Some((a, b)) => parts_around(s@, c) == Some((a@, b@)),
            None => parts_around(s@, c) is None,
        },
{
    let chars = chars_of(s);
    assert(chars@.skip(0) == chars@);
    let n = count_until(&chars, 0, c);
    if n == chars.len() {
        return None;
    }
    let a = string_of(vstd::slice::slice_subrange(&chars, 0, n));
    let b = string_of(vstd::slice::slice_subrange(&chars, n + 1, chars.len()));
    assert(a@ =~= s@.take(n as int));
    assert(b@ =~= s@.skip(n + 1));
    Some((a, b))
}

/// What follows `prefix` in `s`, where `s` starts with it.
pub open spec fn after_prefix(s: Seq<char>, prefix: Seq<char>) -> Option<Seq<char>> {
    if prefix.len() <= s.len() && s.take(prefix.len() as int) == prefix {
        Some(s.skip(prefix.len() as int))
    } else {
        None
    }
}

/// What follows `prefix` in `s`, where `s` starts with it.
pub fn strip_prefix(s: &str, prefix: &str) -> (r: Option<String>)
    ensures
        match r {
            Some(rest) => after_prefix(s@, prefix@) == Some(rest@),
            None => after_prefix(s@, prefix@) is None,
        },
{
    let chars = chars_of(s);
    let part = chars_of(prefix);
    let hit = is_at(&chars, &part, 0);
    proof {
        if part@.len() <= chars@.len() {
            assert(chars@.subrange(0, part@.len() as int) == chars@.take(part@.len() as int));
        }
    }
    if hit {
        let n: usize = part.len();
        assert(chars@.subrange(n as int, chars@.len() as int) == chars@.skip(n as int));
        Some(string_of(&chars[n..chars.len()]))
    } else {
        None
    }
}

/// The decimal digit `d`.
pub open spec fn digit(d: nat) -> char {
    ('0' as nat + d) as char
}

/// `n` in decimal digits, without leading zeros.
pub open spec fn decimal(n: nat) -> Seq<char>
    decreases n,
{
    if n < 10 {
        seq![digit(n)]
    } else {
        decimal(n / 10).push(digit(n % 10))
    }
}

/// An integer in decimal digits, with a minus sign where it is negative.
pub open spec fn signed_decimal(n: int) -> Seq<char> {
    if n < 0 {
        seq!['-'] + decimal((-n) as nat)
    } else {
        decimal(n as nat)
    }
}

/// `n` in at least `width` decimal digits, filled with zeros at the front.
pub open spec fn zero_padded(n: nat, width: nat) -> Seq<char> {
    let digits = decimal(n);
    if digits.len() < width {
        Seq::new((width - digits.len()) as nat, |i: int| '0') + digits
    } else {
        digits
    }
}

/// The decimal digit `d`.
fn digit_char(d: u8) -> (r: char)
    requires
        d < 10,
    ensures
        r == digit(d as nat),
{
    (48 + d) as char
}

/// Appends `n` in decimal digits.
pub fn push_decimal(out: &mut String, n: u128)
    ensures
        final(out)@ == old(out)@ + decimal(n as nat),
    decreases n,
{
    let ghost before = out@;
    if n >= 10 {
        push_decimal(out, n / 10);
    }
    out.push(digit_char((n % 10) as u8));
    assert(out@ == before + decimal(n as nat));
}

/// `n` in decimal digits.
pub fn decimal_text(n: u128) -> (r: String)
    ensures
        r@ == decimal(n as nat),
{
    let mut r = String::new();
    push_decimal(&mut r, n);
    assert(Seq::<char>::empty() + decimal(n as nat) == decimal(n as nat));
    r
}

/// `n` in decimal digits, with a minus sign where it is negative.
pub fn signed_decimal_text(n: i128) -> (r: String)
    ensures
        r@ == signed_decimal(n as int),
{
    if n >= 0 {
        decimal_text(n as u128)
    } else {
        let mut r = String::new();
        r.push('-');
        let magnitude: u128 = (-(n + 1)) as u128 + 1;
        push_decimal(&mut r, magnitude);
        assert(seq!['-'] == Seq::<char>::empty().push('-'));
        r
    }
}

/// Appends `n` in at least `width` decimal digits.
pub fn push_padded(out: &mut String, n: u128, width: usize)
    ensures
        final(out)@ == old(out)@ + zero_padded(n as nat, width as nat),
{
    let ghost before = out@;
    let digits = chars_of(&decimal_text(n));
    let mut filled: usize = digits.len();
    while filled < width
        invariant
            digits@ == decimal(n as nat),
            digits@.len() <= filled,
            filled <= width || filled == digits@.len(),
            out@ == before + Seq::new((filled - digits@.len()) as nat, |i: int| '0'),
        decreases width - filled,
    {
        out.push('0');
        filled += 1;
        assert(out@ == before + Seq::new((filled - digits@.len()) as nat, |i: int| '0'));
    }
    let rest = string_of(&digits);
    out.append(&rest);
    assert(out@ == before + zero_padded(n as nat, width as nat));
}

/// The character is a decimal digit.
pub open spec fn is_digit(c: char) -> bool {
    '0' <= c <= '9'
}

/// The number that decimal digits stand for.
pub open spec fn digits_value(s: Seq<char>) -> nat
    decreases s.len(),
{
    if s.len() == 0 {
        0
    } else {
        digits_value(s.drop_last()) * 10 + (s.last() as nat - '0' as nat) as nat
    }
}

/// The digits of a number that is written with or without a plus sign.
pub open spec fn unsigned_part(s: Seq<char>) -> Seq<char> {
    if s.len() > 1 && s[0] == '+' {
        s.skip(1)
    } else {
        s
    }
}

/// The number that a text stands for: decimal digits, perhaps behind a plus sign, for a number
/// below 2 to the power of 64.
pub open spec fn parsed_u64(s: Seq<char>) -> Option<u64> {
    let digits = unsigned_part(s);
    if digits.len() > 0 && (forall|i: int| 0 <= i < digits.len() ==> is_digit(#[trigger] digits[i]))
        && digits_value(digits) <= u64::MAX {
        Some(digits_value(digits) as u64)
    } else {
        None
    }
}

/// More digits never stand for a smaller number.
proof fn lemma_value_grows(s: Seq<char>, n: int)
    requires
        0 <= n <= s.len(),
        forall|i: int| 0 <= i < s.len() ==> is_digit(#[trigger] s[i]),
    ensures
        digits_value(s.take(n)) <= digits_value(s),
    decreases s.len(),
{
    if n < s.len() {
        assert(s.drop_last().take(n) =~= s.take(n));
        assert forall|i: int| 0 <= i < s.len() - 1 implies is_digit(#[trigger] s.drop_last()[i]) by {
            assert(s.drop_last()[i] == s[i]);
        }
        lemma_value_grows(s.drop_last(), n);
        assert(is_digit(s[s.len() - 1]));
    } else {
        assert(s.take(n) =~= s);
    }
}

/// The number that a text stands for.
pub fn parse_u64(s: &str) -> (r: Option<u64>)
    ensures
        r == parsed_u64(s@),
{
    let chars = chars_of(s);
    let len: usize = chars.len();
    let from: usize = if len > 1 && chars[0] == '+' {
        1
    } else {
        0
    };
    let ghost digits = unsigned_part(s@);
    assert(digits =~= chars@.skip(from as int));
    if len == 0 {
        return None;
    }
    let mut value: u128 = 0;
    let mut i: usize = from;
    assert(digits.take(0) =~= Seq::empty());
    while i < len
        invariant
            chars@ == s@,
            len == chars@.len(),
            from <= i <= len,
            from == 0 || from == 1,
            digits == unsigned_part(s@),
            digits == chars@.skip(from as int),
            value == digits_value(digits.take(i - from)),
            value <= u64::MAX,
            forall|j: int| 0 <= j < i - from ==> is_digit(#[trigger] digits[j]),
        decreases len - i,
    {
        let c = chars[i];
        let ghost k = i - from;
        assert(digits[k] == c);
        if c < '0' || c > '9' {
            assert(!is_digit(digits[k]));
            return None;
        }
        assert(digits.take(k + 1).drop_last() =~= digits.take(k));
        value = value * 10 + (c as u32 - '0' as u32) as u128;
        assert(value == digits_value(digits.take(k + 1)));
        if value > u64::MAX as u128 {
            proof {
                if forall|j: int| 0 <= j < digits.len() ==> is_digit(#[trigger] digits[j]) {
                    lemma_value_grows(digits, k + 1);
                }
            }
            return None;
        }
        i = i + 1;
    }
    assert(digits.take(digits.len() as int) =~= digits);
    Some(value as u64)
}

/// A number that is written in decimal digits is read as that number.
pub proof fn parsing_reads_decimal(n: u64)
    ensures
        parsed_u64(decimal(n as nat)) == Some(n),
{
    lemma_decimal_value(n as nat);
    let s = decimal(n as nat);
    assert(is_digit(s[0]));
    assert(unsigned_part(s) == s);
}

/// The decimal digits of a number are digits and stand for the number.
pub proof fn lemma_decimal_value(n: nat)
    ensures
        decimal(n).len() > 0,
        forall|i: int| 0 <= i < decimal(n).len() ==> is_digit(#[trigger] decimal(n)[i]),
        digits_value(decimal(n)) == n,
    decreases n,
{
    if n < 10 {
        assert(decimal(n).drop_last() =~= Seq::empty());
        reveal_with_fuel(digits_value, 2);
    } else {
        lemma_decimal_value(n / 10);
        assert(decimal(n).drop_last() =~= decimal(n / 10));
    }
}

/// The parts one after the other, with `sep` between each two.
pub open spec fn joined(parts: Seq<Seq<char>>, sep: Seq<char>) -> Seq<char>
    decreases parts.len(),
{
    if parts.len() == 0 {
        Seq::empty()
    } else if parts.len() == 1 {
        parts[0]
    } else {
        joined(parts.drop_last(), sep) + sep + parts.last()
    }
}

/// The parts one after the other, with `sep` between each two.
pub fn join(parts: &[String], sep: &str) -> (r: String)
    ensures
        r@ == joined(texts(parts@), sep@),
{
    let mut r = String::new();
    for i in 0..parts.len()
        invariant
            r@ == joined(texts(parts@).take(i as int), sep@),
    {
        if i > 0 {
            r.append(sep);
        }
        r.append(&parts[i]);
        assert(texts(parts@).take(i + 1).drop_last() == texts(parts@).take(i as int));
    }
    assert(texts(parts@).take(parts@.len() as int) == texts(parts@));
    r
}

} // verus!
