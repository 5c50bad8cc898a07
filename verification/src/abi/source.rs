//! The methods that a contract's source text declares.
use crate::text::{
    after_prefix, line_list, lines, part_before, strip_prefix, texts, trim, trimmed, up_to,
};
use vstd::prelude::*;

verus! {

/// The name that a line declares: what stands between `pub fn ` and the opening parenthesis.
pub open spec fn declared_name(line: Seq<char>) -> Option<Seq<char>> {
    match after_prefix(trimmed(line), "pub fn "@) {
        Some(rest) => Some(trimmed(part_before(rest, '('))),
        None => None,
    }
}

/// The names that the lines declare, in their order.
pub open spec fn declared_names(list: Seq<Seq<char>>) -> Seq<Seq<char>>
    decreases list.len(),
{
    if list.len() == 0 {
        Seq::empty()
    } else {
        match declared_name(list.last()) {
            Some(name) => declared_names(list.drop_last()).push(name),
            None => declared_names(list.drop_last()),
        }
    }
}

/// The names of the public functions that `source` declares at the start of a line, in order.
pub fn pub_fn_names_from_lib(source: &str) -> (r: Vec<String>)
    ensures
        texts(r@) == declared_names(line_list(source@)),
{
    let list = lines(source);
    let ghost all = line_list(source@);
    let mut r: Vec<String> = Vec::new();
    for i in 0..list.len()
        invariant
            texts(list@) == all,
            texts(r@) == declared_names(all.take(i as int)),
    {
        let ghost so_far = texts(r@);
        assert(list@[i as int]@ == all[i as int]);
        assert(all.take(i + 1).drop_last() == all.take(i as int));
        if let Some(rest) = strip_prefix(&trim(&list[i]), "pub fn ") {
            r.push(trim(&up_to(&rest, '(')));
            assert(texts(r@) =~= so_far.push(trimmed(part_before(rest@, '('))));
        }
    }
    assert(all.take(list@.len() as int) == all);
    r
}

} // verus!
