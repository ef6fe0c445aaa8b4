//! Whether the slots of a router are at work.

use vstd::prelude::*;
use vstd::string::*;

use crate::json::{bool_of, items_of, member, trees, Json, Tree};

verus! {

/// The slot is at work. One that does not say so is not.
pub open spec fn is_processing(slot: Tree) -> bool {
    bool_of(member(slot, "is_processing"@)) == Some(true)
}

/// Some slot of the reply is at work. A reply that is not an array lists none.
pub open spec fn some_slot_processing(reply: Tree) -> bool {
    match items_of(Some(reply)) {
        Some(slots) => exists|i: int| 0 <= i < slots.len() && is_processing(#[trigger] slots[i]),
        None => false,
    }
}

/// Whether the slot is at work.
fn processing(slot: &Json) -> (r: bool)
    ensures
        r == is_processing(slot@),
{
    match slot.get("is_processing") {
        Some(flag) => match flag.as_bool() {
            Some(b) => b,
            None => false,
        },
        None => false,
    }
}

/// Whether some slot of the reply is at work.
pub fn slots_busy(reply: &Json) -> (r: bool)
    ensures
        r == some_slot_processing(reply@),
{
    if let Some(slots) = reply.as_array() {
        let mut i: usize = 0;
        while i < slots.len()
            invariant
                i <= slots.len(),
                items_of(Some(reply@)) == Some(trees(slots@)),
                forall|j: int| 0 <= j < i ==> !is_processing(#[trigger] trees(slots@)[j]),
            decreases slots.len() - i,
        {
            if processing(&slots[i]) {
                let ghost all = trees(slots@);
                assert(is_processing(all[i as int]));
                assert(items_of(Some(reply@))->0 == all);
                return true;
            }
            i += 1;
        }
    }
    false
}

/// How a question for the slots was answered.
pub enum SlotsAnswer {
    /// No answer came, for the reason given.
    Unreachable(String),
    /// The router answered with a status that is not a success.
    Rejected,
    /// What came is not JSON, for the reason given.
    Invalid(String),
    /// The reply.
    Slots(Json),
}

/// Some slot is known to be at work.
pub open spec fn known_busy(answer: SlotsAnswer) -> bool {
    match answer {
        SlotsAnswer::Slots(reply) => some_slot_processing(reply@),
        _ => false,
    }
}

/// Whether no slot is known to be at work. Without a reply the slots count as
/// idle, so that nobody waits for a router that does not answer.
pub fn slots_idle(answer: &SlotsAnswer) -> (r: bool)
    ensures
        r == !known_busy(*answer),
{
    match answer {
        SlotsAnswer::Slots(reply) => !slots_busy(reply),
        _ => true,
    }
}

/// Whether no slot is known to be at work, where there may be no router to ask.
pub fn idle_where_known(answer: Option<&SlotsAnswer>) -> (r: bool)
    ensures
        r == !(answer matches Some(a) && known_busy(*a)),
{
    match answer {
        Some(a) => slots_idle(a),
        None => true,
    }
}

/// Whether a model is to be unloaded by force: only where one of its slots is at
/// work. A router that refuses the question is left alone; a question that
/// failed is an error.
pub fn must_force_unload(answer: &SlotsAnswer) -> (r: Result<bool, String>)
    ensures
        match r {
            Ok(unload) => {
                &&& answer is Rejected || answer is Slots
                &&& unload == known_busy(*answer)
            },
            Err(e) => match *answer {
                SlotsAnswer::Unreachable(reason) => e@ == reason@,
                SlotsAnswer::Invalid(reason) => e@ == reason@,
                _ => false,
            },
        },
{
    match answer {
        SlotsAnswer::Unreachable(reason) => Err(reason.as_str().to_owned()),
        SlotsAnswer::Rejected => Ok(false),
        SlotsAnswer::Invalid(reason) => Err(reason.as_str().to_owned()),
        SlotsAnswer::Slots(reply) => Ok(slots_busy(reply)),
    }
}

} // verus!
