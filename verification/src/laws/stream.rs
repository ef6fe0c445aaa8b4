//! What holds of a whole stream.

use vstd::prelude::*;

use crate::json::{member, parsed, string_of};
use crate::sse::EventText;
use crate::stream::{
    blank, ends_stream, kind_of, lemma_step_payloads, stream_step, stream_step_fits, Memory,
    PayloadTree,
};

verus! {

/// The memory that a series of events leaves, and the payloads that they become.
pub open spec fn run(memory: Memory, events: Seq<EventText>) -> (Memory, Seq<PayloadTree>)
    decreases events.len(),
{
    if events.len() == 0 {
        (memory, Seq::empty())
    } else {
        let (before, payloads) = run(memory, events.drop_last());
        let (after, more) = stream_step(before, events.last());
        (after, payloads + more)
    }
}

/// The arithmetic of every event of the series stays in range.
pub open spec fn run_fits(memory: Memory, events: Seq<EventText>) -> bool
    decreases events.len(),
{
    events.len() == 0 || (run_fits(memory, events.drop_last()) && stream_step_fits(
        run(memory, events.drop_last()).0,
        events.last(),
    ))
}

/// A memory that a stream can come to: the calls that it knows have places of
/// their own, below the next free one; it has seen a call exactly where a place
/// has been given away; and a stream that has seen a call has sent the role.
pub open spec fn consistent(memory: Memory) -> bool {
    &&& forall|key: Seq<char>| #[trigger]
        memory.tool_index.dom().contains(key) ==> memory.tool_index[key] < memory.next_tool_index
    &&& forall|a: Seq<char>, b: Seq<char>|
        #![trigger memory.tool_index.dom().contains(a), memory.tool_index.dom().contains(b)]
        memory.tool_index.dom().contains(a) && memory.tool_index.dom().contains(b) && a != b
            ==> memory.tool_index[a] != memory.tool_index[b]
    &&& memory.saw_tool_call == (memory.next_tool_index > 0)
    &&& memory.saw_tool_call ==> memory.role_sent
}

/// No event breaks what holds of the memory.
pub proof fn law_step_keeps_memory_consistent(memory: Memory, event: EventText)
    requires
        consistent(memory),
        stream_step_fits(memory, event),
    ensures
        consistent(stream_step(memory, event).0),
{
}

/// Whatever comes in, a stream that starts blank has a consistent memory: no two
/// calls ever share a place.
pub proof fn law_run_keeps_memory_consistent(events: Seq<EventText>)
    requires
        run_fits(blank(), events),
    ensures
        consistent(run(blank(), events).0),
    decreases events.len(),
{
    if events.len() > 0 {
        law_run_keeps_memory_consistent(events.drop_last());
        law_step_keeps_memory_consistent(run(blank(), events.drop_last()).0, events.last());
    }
}

/// Nothing comes out of a stream that has finished, and its memory stays as it
/// is.
pub proof fn law_nothing_follows_the_end(memory: Memory, events: Seq<EventText>)
    requires
        memory.finished,
    ensures
        run(memory, events) == (memory, Seq::<PayloadTree>::empty()),
    decreases events.len(),
{
    if events.len() > 0 {
        law_nothing_follows_the_end(memory, events.drop_last());
        assert(run(memory, events).1 =~= Seq::<PayloadTree>::empty());
    }
}

/// No sentinel is among the payloads.
pub open spec fn without_sentinel(payloads: Seq<PayloadTree>) -> bool {
    forall|i: int| 0 <= i < payloads.len() ==> #[trigger] payloads[i] != PayloadTree::Done
}

/// The last of the payloads is the sentinel, and no other one is.
pub open spec fn ends_with_sentinel(payloads: Seq<PayloadTree>) -> bool {
    &&& payloads.len() > 0
    &&& payloads.last() == PayloadTree::Done
    &&& without_sentinel(payloads.drop_last())
}

/// A stream that had not finished has finished exactly where one of the events
/// ended it.
pub proof fn law_stream_finishes_where_an_event_ends_it(memory: Memory, events: Seq<EventText>)
    requires
        !memory.finished,
    ensures
        run(memory, events).0.finished <==> (exists|i: int|
            0 <= i < events.len() && ends_stream(#[trigger] events[i])),
    decreases events.len(),
{
    if events.len() > 0 {
        let before = events.drop_last();
        law_stream_finishes_where_an_event_ends_it(memory, before);
        assert(forall|i: int| 0 <= i < before.len() ==> #[trigger] before[i] == events[i]);
        let held = run(memory, before).0;
        let event = events.last();
        if let Some(data) = parsed(event.data) {
            if !held.finished {
                lemma_step_payloads(held, kind_of(event.event, data), data);
            }
        }
        if ends_stream(event) {
            assert(ends_stream(events[events.len() - 1]));
        }
        if held.finished {
            let i = choose|i: int| 0 <= i < before.len() && ends_stream(#[trigger] before[i]);
            assert(ends_stream(events[i]));
        }
        if !held.finished && !ends_stream(event) {
            assert forall|i: int| 0 <= i < events.len() implies !ends_stream(#[trigger] events[i]) by {
                if i < before.len() {
                    assert(!ends_stream(before[i]));
                }
            }
        }
    }
}

/// The sentinel comes out exactly once, as the last payload, of a stream that
/// finishes, and never of one that does not.
pub proof fn law_sentinel_marks_the_end(memory: Memory, events: Seq<EventText>)
    requires
        !memory.finished,
    ensures
        run(memory, events).0.finished ==> ends_with_sentinel(run(memory, events).1),
        !run(memory, events).0.finished ==> without_sentinel(run(memory, events).1),
    decreases events.len(),
{
    if events.len() > 0 {
        let (before, payloads) = run(memory, events.drop_last());
        let (after, more) = stream_step(before, events.last());
        law_sentinel_marks_the_end(memory, events.drop_last());
        let all = payloads + more;
        if before.finished {
            assert(all =~= payloads);
        } else if after.finished {
            assert(more.len() == 2);
            assert(all.drop_last() =~= payloads.push(more[0]));
            assert(all.last() == more[1]);
        } else {
            assert(without_sentinel(more));
        }
    }
}

/// An event without a name is taken for what the `type` of its data says, as if
/// that had been its name.
pub proof fn law_type_stands_in_for_the_name(memory: Memory, data: Seq<char>, kind: Seq<char>)
    requires
        kind.len() > 0,
        parsed(data) matches Some(tree) && string_of(member(tree, "type"@)) == Some(kind),
    ensures
        stream_step(memory, EventText { event: Seq::empty(), data }) == stream_step(
            memory,
            EventText { event: kind, data },
        ),
{
}

/// The sentinel and data that is not JSON change nothing and bring nothing out.
pub proof fn law_noise_is_ignored(memory: Memory, event: EventText)
    requires
        event.data == "[DONE]"@ || parsed(event.data) is None,
    ensures
        stream_step(memory, event) == (memory, Seq::<PayloadTree>::empty()),
{
}

} // verus!
