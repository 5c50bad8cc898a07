//! Values as JSON text, and JSON text read as values.
use crate::digest::hex_digit;
use crate::text::{digits_value, is_digit};
use vstd::prelude::*;

verus! {

/// How a character stands in a JSON string.
pub open spec fn json_escape(c: char) -> Seq<char> {
    if c == '"' || c == '\\' {
        seq!['\\', c]
    } else if c == '\u{8}' {
        seq!['\\', 'b']
    } else if c == '\t' {
        seq!['\\', 't']
    } else if c == '\n' {
        seq!['\\', 'n']
    } else if c == '\u{c}' {
        seq!['\\', 'f']
    } else if c == '\r' {
        seq!['\\', 'r']
    } else if c as u32 <= 0x1f {
        seq!['\\', 'u', '0', '0', hex_digit(c as u8 / 16), hex_digit(c as u8 % 16)]
    } else {
        seq![c]
    }
}

/// A text as a JSON string.
pub open spec fn json_quoted(s: Seq<char>) -> Seq<char> {
    seq!['"'] + s.map_values(|c: char| json_escape(c)).flatten() + seq!['"']
}

/// A value that a JSON text stands for, as far as texts, natural numbers, lists and objects.
#[verifier::ext_equal]
pub enum JsonTerm {
    Text(Seq<char>),
    Number(nat),
    List(Seq<JsonTerm>),
    Object(Seq<(Seq<char>, JsonTerm)>),
}

/// The character may stand between the parts of a JSON text.
pub open spec fn blank(c: char) -> bool {
    c == ' ' || c == '\n' || c == '\t' || c == '\r'
}

/// All characters may stand between the parts of a JSON text.
pub open spec fn all_blank(s: Seq<char>) -> bool {
    forall|i: int| 0 <= i < s.len() ==> blank(#[trigger] s[i])
}

/// The text from its first character on that is not blank.
pub open spec fn skip_blank(s: Seq<char>) -> Seq<char>
    decreases s.len(),
{
    if s.len() > 0 && blank(s[0]) {
        skip_blank(s.skip(1))
    } else {
        s
    }
}

/// The character that stands for `c` behind a backslash.
pub open spec fn escaped_char(c: char) -> Option<char> {
    if c == '"' || c == '\\' || c == '/' {
        Some(c)
    } else if c == 'b' {
        Some('\u{8}')
    } else if c == 'f' {
        Some('\u{c}')
    } else if c == 'n' {
        Some('\n')
    } else if c == 'r' {
        Some('\r')
    } else if c == 't' {
        Some('\t')
    } else {
        None
    }
}

/// The characters of a string, up to its closing quote, and what follows that.
pub open spec fn read_text(s: Seq<char>) -> Option<(Seq<char>, Seq<char>)>
    decreases s.len(),
{
    if s.len() == 0 || s[0] as u32 <= 0x1f {
        None
    } else if s[0] == '"' {
        Some((Seq::empty(), s.skip(1)))
    } else if s[0] == '\\' {
        if s.len() == 1 {
            None
        } else {
            match (escaped_char(s[1]), read_text(s.skip(2))) {
                (Some(c), Some((more, rest))) => Some((seq![c] + more, rest)),
                _ => None,
            }
        }
    } else {
        match read_text(s.skip(1)) {
            Some((more, rest)) => Some((seq![s[0]] + more, rest)),
            None => None,
        }
    }
}

/// How many digits the text starts with.
pub open spec fn digit_run(s: Seq<char>) -> int
    decreases s.len(),
{
    if s.len() > 0 && is_digit(s[0]) {
        1 + digit_run(s.skip(1))
    } else {
        0
    }
}

/// A number without leading zeros, and what follows it.
pub open spec fn read_number(s: Seq<char>) -> Option<(nat, Seq<char>)> {
    let n = digit_run(s);
    if n == 0 || (n > 1 && s[0] == '0') {
        None
    } else {
        Some((digits_value(s.take(n)), s.skip(n)))
    }
}

/// The key of a member with the colon behind it, and what follows that.
pub open spec fn member_head(s: Seq<char>) -> Option<(Seq<char>, Seq<char>)> {
    let start = skip_blank(s);
    if start.len() == 0 || start[0] != '"' {
        None
    } else {
        match read_text(start.skip(1)) {
            None => None,
            Some((key, rest)) => {
                let colon = skip_blank(rest);
                if colon.len() > 0 && colon[0] == ':' {
                    Some((key, colon.skip(1)))
                } else {
                    None
                }
            },
        }
    }
}

/// The value that the text starts with, and what follows it. Nothing, where the text does not
/// start with a JSON value of the kinds that a `JsonTerm` holds. What follows a part is always
/// shorter than what the part started: the reader stops otherwise.
pub open spec fn read_value(s: Seq<char>) -> Option<(JsonTerm, Seq<char>)>
    decreases s.len(), 0nat,
{
    let start = skip_blank(s);
    if start.len() == 0 || start.len() > s.len() {
        None
    } else {
        let inner = start.skip(1);
        let first = skip_blank(inner);
        if start[0] == '"' {
            match read_text(inner) {
                Some((text, rest)) => Some((JsonTerm::Text(text), rest)),
                None => None,
            }
        } else if start[0] == '[' {
            if first.len() > 0 && first[0] == ']' {
                Some((JsonTerm::List(Seq::empty()), first.skip(1)))
            } else {
                match read_items(inner) {
                    Some((items, rest)) => Some((JsonTerm::List(items), rest)),
                    None => None,
                }
            }
        } else if start[0] == '{' {
            if first.len() > 0 && first[0] == '}' {
                Some((JsonTerm::Object(Seq::empty()), first.skip(1)))
            } else {
                match read_members(inner) {
                    Some((members, rest)) => Some((JsonTerm::Object(members), rest)),
                    None => None,
                }
            }
        } else {
            match read_number(start) {
                Some((n, rest)) => Some((JsonTerm::Number(n), rest)),
                None => None,
            }
        }
    }
}

/// The items of a list, up to its closing bracket, and what follows that.
pub open spec fn read_items(s: Seq<char>) -> Option<(Seq<JsonTerm>, Seq<char>)>
    decreases s.len(), 1nat,
{
    match read_value(s) {
        None => None,
        Some((item, rest)) => {
            let next = skip_blank(rest);
            if next.len() == 0 || next.len() > s.len() {
                None
            } else if next[0] == ']' {
                Some((seq![item], next.skip(1)))
            } else if next[0] == ',' {
                match read_items(next.skip(1)) {
                    Some((more, end)) => Some((seq![item] + more, end)),
                    None => None,
                }
            } else {
                None
            }
        },
    }
}

/// The members of an object, up to its closing brace, and what follows that.
pub open spec fn read_members(s: Seq<char>) -> Option<(Seq<(Seq<char>, JsonTerm)>, Seq<char>)>
    decreases s.len(), 1nat,
{
    match member_head(s) {
        None => None,
        Some((key, after_colon)) => if after_colon.len() > s.len() {
            None
        } else {
            match read_value(after_colon) {
                None => None,
                Some((value, rest)) => {
                    let next = skip_blank(rest);
                    if next.len() == 0 || next.len() > s.len() {
                        None
                    } else if next[0] == '}' {
                        Some((seq![(key, value)], next.skip(1)))
                    } else if next[0] == ',' {
                        match read_members(next.skip(1)) {
                            Some((more, end)) => Some((seq![(key, value)] + more, end)),
                            None => None,
                        }
                    } else {
                        None
                    }
                },
            }
        },
    }
}

/// The value that a whole text stands for.
pub open spec fn read_document(s: Seq<char>) -> Option<JsonTerm> {
    match read_value(s) {
        Some((value, rest)) => if skip_blank(rest).len() == 0 {
            Some(value)
        } else {
            None
        },
        None => None,
    }
}

/// Blanks in front of a text are skipped.
pub proof fn lemma_skip_blank(lead: Seq<char>, s: Seq<char>)
    requires
        all_blank(lead),
    ensures
        skip_blank(lead + s) == skip_blank(s),
    decreases lead.len(),
{
    if lead.len() == 0 {
        assert(lead + s =~= s);
    } else {
        assert(blank(lead[0]));
        assert((lead + s)[0] == lead[0]);
        assert((lead + s).skip(1) =~= lead.skip(1) + s);
        lemma_skip_blank(lead.skip(1), s);
    }
}

/// What is left after blanks is no longer than the text.
pub proof fn lemma_skip_blank_len(s: Seq<char>)
    ensures
        skip_blank(s).len() <= s.len(),
    decreases s.len(),
{
    if s.len() > 0 && blank(s[0]) {
        lemma_skip_blank_len(s.skip(1));
    }
}

/// Blanks in front of a value are skipped.
pub proof fn lemma_value_after(lead: Seq<char>, s: Seq<char>)
    requires
        all_blank(lead),
        read_value(s) is Some,
    ensures
        read_value(lead + s) == read_value(s),
{
    lemma_skip_blank(lead, s);
    lemma_skip_blank_len(s);
}

} // verus!
