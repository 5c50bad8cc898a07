//! Which methods a contract's source declares.
use crate::abi::source::{declared_name, declared_names};
use crate::laws::lettering::{
    all_white, free_of, parting_is_at_the_first, prefix_is_taken_off_whole, tight,
    trimming_keeps_the_text,
};
use crate::text::{after_prefix, trimmed};
use vstd::prelude::*;

verus! {

/// The line, without the white space around it, starts as the declaration of a public function.
pub open spec fn declares(line: Seq<char>) -> bool {
    "pub fn "@.is_prefix_of(trimmed(line))
}

/// A line that declares a public function gives the name of the function, which is all that stands
/// before the first parenthesis, whatever stands behind that: parameters, a whole signature, or
/// nothing.
pub proof fn declarations_give_their_name(
    lead: Seq<char>,
    name: Seq<char>,
    rest: Seq<char>,
    tail: Seq<char>,
)
    requires
        all_white(lead),
        all_white(tail),
        free_of(name, '('),
        tight(name),
        tight("pub fn "@ + name + seq!['('] + rest),
    ensures
        declared_name(lead + ("pub fn "@ + name + seq!['('] + rest) + tail) == Some(name),
{
    let body = "pub fn "@ + name + seq!['('] + rest;
    let none = Seq::<char>::empty();
    let behind = name + seq!['('] + rest;
    trimming_keeps_the_text(lead, body, tail);
    assert(body =~= "pub fn "@ + behind);
    prefix_is_taken_off_whole("pub fn "@, behind, none);
    parting_is_at_the_first(name, '(', rest);
    trimming_keeps_the_text(none, name, none);
    assert(none + name + none =~= name);
}

/// A line declares something exactly if it starts as a declaration does.
pub proof fn other_lines_declare_nothing(line: Seq<char>)
    ensures
        declared_name(line) is Some <==> declares(line),
{
    let t = trimmed(line);
    let mark = "pub fn "@;
    if declares(line) {
        assert(t.take(mark.len() as int) =~= mark);
    }
    if after_prefix(t, mark) is Some {
        prefix_is_taken_off_whole(mark, Seq::empty(), t);
        assert(mark.is_prefix_of(t));
    }
}

/// The names come in the order of the lines, each declaring line gives one, and no other line gives
/// any.
pub proof fn names_come_line_by_line(before: Seq<Seq<char>>, line: Seq<char>, after: Seq<Seq<char>>)
    ensures
        declared_names(Seq::empty()) == Seq::<Seq<char>>::empty(),
        declared_names(before + seq![line] + after) == declared_names(before) + (
        match declared_name(line) {
            Some(name) => seq![name],
            None => Seq::empty(),
        }) + declared_names(after),
    decreases after.len(),
{
    let all = before + seq![line] + after;
    if after.len() == 0 {
        assert(all =~= before.push(line));
        assert(before.push(line).drop_last() =~= before);
        assert(declared_names(after) =~= Seq::empty());
        if declared_name(line) is Some {
            assert(declared_names(all) =~= declared_names(before) + seq![
                declared_name(line).unwrap(),
            ]);
        }
    } else {
        names_come_line_by_line(before, line, after.drop_last());
        assert(all.drop_last() =~= before + seq![line] + after.drop_last());
        assert(all.last() == after.last());
        assert(declared_names(all) =~= declared_names(before) + (match declared_name(line) {
            Some(name) => seq![name],
            None => Seq::empty(),
        }) + declared_names(after));
    }
}

/// There are as many names as lines that start as a declaration does.
pub proof fn every_declaration_counts(lines: Seq<Seq<char>>)
    ensures
        declared_names(lines).len() == lines.filter(|line: Seq<char>| declares(line)).len(),
    decreases lines.len(),
{
    reveal(Seq::filter);
    if lines.len() > 0 {
        every_declaration_counts(lines.drop_last());
        other_lines_declare_nothing(lines.last());
    }
}

} // verus!
