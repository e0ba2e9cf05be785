//! What was sent of the parts of a reply.
use vstd::prelude::*;
use crate::types::Event;

verus! {

/// The sort of block that a part belongs to.
pub enum Sort {
    Text,
    Thinking,
    Call,
}

/// The part that an event carries, where it carries one of a sort.
pub open spec fn part_of(event: Event, sort: Sort) -> Option<Seq<char>> {
    match (sort, event) {
        (Sort::Text, Event::TextDelta { delta, .. }) => Some(delta),
        (Sort::Thinking, Event::ThinkingDelta { delta, .. }) => Some(delta),
        (Sort::Call, Event::ToolCallDelta { delta, .. }) => Some(delta),
        _ => None,
    }
}

/// All parts of a sort that were sent, in order.
pub open spec fn parts_sent(sent: Seq<Event>, sort: Sort) -> Seq<Seq<char>>
    decreases sent.len(),
{
    if sent.len() == 0 {
        Seq::empty()
    } else {
        let before = parts_sent(sent.drop_last(), sort);
        match part_of(sent.last(), sort) {
            Some(delta) => before.push(delta),
            None => before,
        }
    }
}

pub proof fn lemma_parts_sent_push(sent: Seq<Event>, event: Event, sort: Sort)
    ensures
        parts_sent(sent.push(event), sort) == match part_of(event, sort) {
            Some(delta) => parts_sent(sent, sort).push(delta),
            None => parts_sent(sent, sort),
        },
{
    assert(sent.push(event).drop_last() =~= sent);
}

} // verus!
