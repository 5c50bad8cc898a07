//! Tokens that refuse transfers, and what may be seen of a call that they made fail.
//!
//! A call is atomic: where the transfer inside it fails, its events are gone with its writes. So
//! there is no event of failure, and the absence of the event of success is the sign.
use crate::text::same_text;
use vstd::prelude::*;

verus! {

/// Whether the token that refuses every real transfer lets this one through: only one of nothing.
pub fn always_refusing_accepts(amount: i128) -> (r: bool)
    ensures
        r == (amount == 0),
{
    amount == 0
}

/// What the token that allows one real transfer does: whether its one transfer is used afterwards,
/// or nothing where it refuses.
pub open spec fn once_allowed(used: bool, amount: i128) -> Option<bool> {
    if amount == 0 {
        Some(used)
    } else if used {
        None
    } else {
        Some(true)
    }
}

/// What the token that allows one real transfer does.
pub fn once_transfer(used: bool, amount: i128) -> (r: Option<bool>)
    ensures
        r == once_allowed(used, amount),
{
    if amount == 0 {
        return Some(used);
    }
    if used {
        return None;
    }
    Some(true)
}

/// After one real transfer, every other is refused, however many transfers of nothing come
/// between.
pub proof fn one_real_transfer_is_allowed(first: i128, second: i128)
    requires
        first != 0,
        second != 0,
    ensures
        once_allowed(false, first) == Some(true),
        once_allowed(true, 0) == Some(true),
        once_allowed(true, second) is None,
{
}

/// How many events have the topic first.
pub open spec fn topic_count(events: Seq<Option<Seq<char>>>, topic: Seq<char>) -> nat
    decreases events.len(),
{
    if events.len() == 0 {
        0
    } else {
        topic_count(events.drop_last(), topic) + (if events.last() == Some(topic) {
            1nat
        } else {
            0
        })
    }
}

/// The first topics of a list of events: none, where an event has no topic or one that is no
/// symbol.
pub open spec fn first_topics(events: Seq<Option<String>>) -> Seq<Option<Seq<char>>> {
    events.map_values(
        |e: Option<String>|
            match e {
                Some(s) => Some(s@),
                None => None,
            },
    )
}

/// How many events have the topic first.
pub fn count_topic(events: &[Option<String>], topic: &str) -> (r: usize)
    ensures
        r == topic_count(first_topics(events@), topic@),
{
    let ghost all = first_topics(events@);
    let mut n: usize = 0;
    for i in 0..events.len()
        invariant
            all == first_topics(events@),
            n <= i,
            n == topic_count(all.take(i as int), topic@),
    {
        assert(all.take(i + 1).drop_last() == all.take(i as int));
        assert(all.take(i + 1).last() == all[i as int]);
        if let Some(first) = &events[i] {
            if same_text(first, topic) {
                n = n + 1;
            }
        }
    }
    assert(all.take(all.len() as int) == all);
    n
}

} // verus!
