//! Settings in the text of a TOML file, as they stand in it.
use crate::text::{
    chars_of, find, first_at, holds_text, line_list, lines, same_text, string_of, texts, trim,
    trimmed, two,
};
use vstd::prelude::*;

verus! {

/// The text is a section of `contents`: what follows the first `header`, up to the next line that
/// starts with an opening bracket.
pub open spec fn is_section(contents: Seq<char>, header: Seq<char>, text: Seq<char>) -> bool {
    exists|start: int| #[trigger]
        first_at(contents, header, start) && {
            let tail = contents.skip(start + header.len());
            if holds_text(tail, "\n["@) {
                first_at(tail, "\n["@, text.len() as int) && text == tail.take(text.len() as int)
            } else {
                text == tail
            }
        }
}

/// The section of `contents` under a header, where there is one.
pub fn section(contents: &str, header: &str) -> (r: Option<String>)
    ensures
        match r {
            Some(text) => is_section(contents@, header@, text@),
            None => !holds_text(contents@, header@),
        },
{
    let chars = chars_of(contents);
    let len: usize = chars.len();
    let mark = chars_of(header);
    assert(chars@.skip(0) == chars@);
    match find(&chars, 0, &mark) {
        None => None,
        Some(start) => {
            proof {
                assert(first_at(contents@, header@, start as int));
                assert(start + mark@.len() <= len);
            }
            let from: usize = start + mark.len();
            let ghost tail = contents@.skip(from as int);
            let text = match find(&chars, from, &chars_of("\n[")) {
                Some(end) => {
                    assert(from + end <= len);
                    string_of(vstd::slice::slice_subrange(&chars, from, from + end))
                },
                None => string_of(vstd::slice::slice_subrange(&chars, from, len)),
            };
            proof {
                assert(tail == contents@.skip(start + header@.len()));
                if holds_text(tail, "\n["@) {
                    assert(text@ =~= tail.take(text@.len() as int));
                } else {
                    assert(text@ =~= tail);
                }
            }
            Some(text)
        },
    }
}

/// A setting as it is written on a line.
pub open spec fn setting_line(key: Seq<char>, value: Seq<char>) -> Seq<char> {
    key + " = "@ + value
}

/// One of the lines, without the white space around it, is the text.
pub open spec fn has_line(section: Seq<char>, text: Seq<char>) -> bool {
    exists|i: int|
        0 <= i < line_list(section).len() && trimmed(#[trigger] line_list(section)[i]) == text
}

/// What is said of a section that lacks a setting.
pub open spec fn setting_problem(section: Seq<char>, key: Seq<char>, value: Seq<char>) -> Seq<
    char,
> {
    "missing release invariant `"@ + setting_line(key, value) + "` in:\n"@ + section
}

/// Checks that a section has a setting on a line of its own.
pub fn check_setting(section: &str, key: &str, value: &str) -> (r: Result<(), String>)
    ensures
        match r {
            Ok(()) => has_line(section@, setting_line(key@, value@)),
            Err(text) => !has_line(section@, setting_line(key@, value@)) && text@
                == setting_problem(section@, key@, value@),
        },
{
    let mut expected = two(key, " = ");
    expected.append(value);
    let list = lines(section);
    let ghost all = line_list(section@);
    for i in 0..list.len()
        invariant
            texts(list@) == all,
            all == line_list(section@),
            expected@ == setting_line(key@, value@),
            forall|j: int| 0 <= j < i ==> trimmed(#[trigger] all[j]) != expected@,
    {
        assert(list@[i as int]@ == all[i as int]);
        if same_text(&trim(&list[i]), &expected) {
            return Ok(());
        }
    }
    let mut text = two("missing release invariant `", &expected);
    text.append("` in:\n");
    text.append(section);
    Err(text)
}

/// One section has a header's settings, and no other text is taken for it: two sections under the
/// same header of the same file are the same.
pub proof fn section_is_unique(
    contents: Seq<char>,
    header: Seq<char>,
    a: Seq<char>,
    b: Seq<char>,
)
    requires
        is_section(contents, header, a),
        is_section(contents, header, b),
    ensures
        a == b,
{
    let i = choose|i: int| #[trigger]
        first_at(contents, header, i) && {
            let tail = contents.skip(i + header.len());
            if holds_text(tail, "\n["@) {
                first_at(tail, "\n["@, a.len() as int) && a == tail.take(a.len() as int)
            } else {
                a == tail
            }
        };
    let j = choose|j: int| #[trigger]
        first_at(contents, header, j) && {
            let tail = contents.skip(j + header.len());
            if holds_text(tail, "\n["@) {
                first_at(tail, "\n["@, b.len() as int) && b == tail.take(b.len() as int)
            } else {
                b == tail
            }
        };
    lemma_first_is_one(contents, header, i, j);
    let tail = contents.skip(i + header.len());
    if holds_text(tail, "\n["@) {
        lemma_first_is_one(tail, "\n["@, a.len() as int, b.len() as int);
    }
}

/// A text has one first place in another.
proof fn lemma_first_is_one(s: Seq<char>, part: Seq<char>, i: int, j: int)
    requires
        first_at(s, part, i),
        first_at(s, part, j),
    ensures
        i == j,
{
}

} // verus!
