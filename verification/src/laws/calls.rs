//! How a stream gives the tool calls their places.

use vstd::prelude::*;

use crate::json::{items_of, member, parsed, string_of, Tree};
use crate::laws::stream::{run, run_fits};
use crate::response::finish_reason;
use crate::sse::EventText;
use crate::stream::{
    announces_call, arguments_delta, arguments_key, blank, call_key, chunk, closing_chunk,
    closing_usage_tree, header_delta, index_of_call, is_closing, kind_of, lemma_choice_of_chunk,
    lemma_kinds_differ, stream_step, Memory, PayloadTree,
};

verus! {

/// The key of the call that the event announces, where it announces one.
pub open spec fn announced_key(event: EventText) -> Option<Seq<char>> {
    match parsed(event.data) {
        Some(data) => if event.data != "[DONE]"@ && kind_of(event.event, data)
            == "response.output_item.added"@ && announces_call(data) {
            Some(call_key(member(data, "item"@)->0))
        } else {
            None
        },
        None => None,
    }
}

/// The keys of the calls that the events announce, in order.
pub open spec fn announced_keys(events: Seq<EventText>) -> Seq<Seq<char>>
    decreases events.len(),
{
    if events.len() == 0 {
        Seq::empty()
    } else {
        match announced_key(events.last()) {
            Some(key) => announced_keys(events.drop_last()).push(key),
            None => announced_keys(events.drop_last()),
        }
    }
}

/// The last call under its key is the one at place `k`.
pub open spec fn last_of_its_key(keys: Seq<Seq<char>>, k: int) -> bool {
    forall|m: int| k < m < keys.len() ==> #[trigger] keys[m] != keys[k]
}

/// As long as a stream that starts blank has not finished, its next free place is
/// the number of the calls announced so far, it has seen a call exactly where
/// there was one, and each call has the place of its number, unless a later one
/// took its key.
pub proof fn law_calls_are_counted(events: Seq<EventText>)
    requires
        run_fits(blank(), events),
        !run(blank(), events).0.finished,
    ensures
        ({
            let memory = run(blank(), events).0;
            let keys = announced_keys(events);
            &&& memory.next_tool_index == keys.len()
            &&& memory.saw_tool_call == (keys.len() > 0)
            &&& forall|k: int|
                0 <= k < keys.len() && last_of_its_key(keys, k) ==> memory.tool_index.dom().contains(
                    #[trigger] keys[k],
                ) && memory.tool_index[keys[k]] == k
        }),
    decreases events.len(),
{
    if events.len() > 0 {
        let before = events.drop_last();
        let event = events.last();
        let memory = run(blank(), before).0;
        lemma_kinds_differ();
        if memory.finished {
            assert(stream_step(memory, event).0 == memory);
        }
        law_calls_are_counted(before);
        let old_keys = announced_keys(before);
        let keys = announced_keys(events);
        let after = run(blank(), events).0;
        assert(after == stream_step(memory, event).0);
        assert forall|k: int| 0 <= k < keys.len() && last_of_its_key(keys, k) implies
            after.tool_index.dom().contains(#[trigger] keys[k]) && after.tool_index[keys[k]] == k by {
            if k < old_keys.len() {
                assert(keys[k] == old_keys[k]);
                assert forall|m: int| k < m < old_keys.len() implies #[trigger] old_keys[m]
                    != old_keys[k] by {
                    assert(keys[m] == old_keys[m]);
                }
                assert(last_of_its_key(old_keys, k));
                if keys.len() > old_keys.len() {
                    assert(keys[keys.len() - 1] != keys[k]);
                }
            }
        }
    }
}

/// The call that comes next, after those that `events` announced, gets a header
/// with their number as its place.
pub proof fn law_header_carries_its_number(events: Seq<EventText>, event: EventText)
    requires
        run_fits(blank(), events.push(event)),
        !run(blank(), events).0.finished,
        announced_key(event) is Some,
    ensures
        ({
            let memory = run(blank(), events).0;
            let item = member(parsed(event.data)->0, "item"@)->0;
            let number = announced_keys(events).len();
            let payloads = stream_step(memory, event).1;
            &&& number <= usize::MAX
            &&& payloads.len() > 0
            &&& payloads.last() == chunk(memory, header_delta(number as usize, item))
        }),
{
    assert(events.push(event).drop_last() =~= events);
    law_calls_are_counted(events);
    lemma_kinds_differ();
}

/// A piece of arguments under the key of a call carries the number of that call,
/// the last one under the key.
pub proof fn law_arguments_carry_their_number(events: Seq<EventText>, event: EventText, k: int)
    requires
        run_fits(blank(), events),
        !run(blank(), events).0.finished,
        0 <= k < announced_keys(events).len(),
        last_of_its_key(announced_keys(events), k),
        event.data != "[DONE]"@,
        parsed(event.data) matches Some(data) && {
            &&& kind_of(event.event, data) == "response.function_call_arguments.delta"@
            &&& arguments_key(data) == announced_keys(events)[k]
            &&& string_of(member(data, "delta"@)) is Some
        },
    ensures
        ({
            let memory = run(blank(), events).0;
            let text = string_of(member(parsed(event.data)->0, "delta"@))->0;
            stream_step(memory, event) == (
                memory,
                seq![chunk(memory, arguments_delta(k as usize, text))],
            )
        }),
{
    law_calls_are_counted(events);
    lemma_kinds_differ();
    assert(announced_keys(events).contains(announced_keys(events)[k]));
}

/// An added item that is no call changes nothing and brings nothing out.
pub proof fn law_other_items_do_nothing(memory: Memory, event: EventText)
    requires
        parsed(event.data) matches Some(data) && kind_of(event.event, data)
            == "response.output_item.added"@ && !announces_call(data),
    ensures
        stream_step(memory, event) == (memory, Seq::<PayloadTree>::empty()),
{
    lemma_kinds_differ();
}

/// Why the stream ended, as its last chunk says.
pub open spec fn reason_of(payload: PayloadTree) -> Option<Tree> {
    match payload {
        PayloadTree::Object(tree) => match items_of(member(tree, "choices"@)) {
            Some(choices) => if choices.len() > 0 {
                member(choices[0], "finish_reason"@)
            } else {
                None
            },
            None => None,
        },
        PayloadTree::Done => None,
    }
}

/// A stream that comes to its regular end gives tool calls as the reason exactly
/// where it announced one.
pub proof fn law_reason_tells_of_calls(events: Seq<EventText>, event: EventText)
    requires
        run_fits(blank(), events),
        !run(blank(), events).0.finished,
        event.data != "[DONE]"@,
        parsed(event.data) matches Some(data) && is_closing(kind_of(event.event, data)),
    ensures
        ({
            let payloads = stream_step(run(blank(), events).0, event).1;
            &&& payloads.len() == 2
            &&& reason_of(payloads[0]) == Some(
                Tree::String(finish_reason(announced_keys(events).len() > 0)),
            )
        }),
{
    law_calls_are_counted(events);
    lemma_kinds_differ();
    let memory = run(blank(), events).0;
    let data = parsed(event.data)->0;
    assert(stream_step(memory, event).1[0] == closing_chunk(memory, data));
    lemma_choice_of_chunk(
        memory,
        Tree::Object(Map::empty()),
        Some(finish_reason(memory.saw_tool_call)),
        closing_usage_tree(data),
    );
}

/// A call keeps its place for the rest of the stream, unless another one is
/// announced under the same key.
pub proof fn law_call_keeps_its_place(memory: Memory, events: Seq<EventText>, key: Seq<char>)
    requires
        memory.tool_index.dom().contains(key),
        forall|i: int| 0 <= i < events.len() ==> announced_key(#[trigger] events[i]) != Some(key),
    ensures
        run(memory, events).0.tool_index.dom().contains(key),
        index_of_call(run(memory, events).0, key) == index_of_call(memory, key),
    decreases events.len(),
{
    if events.len() > 0 {
        let before = events.drop_last();
        assert forall|i: int| 0 <= i < before.len() implies announced_key(#[trigger] before[i])
            != Some(key) by {
            assert(events[i] == before[i]);
        }
        law_call_keeps_its_place(memory, before, key);
        assert(announced_key(events[events.len() - 1]) != Some(key));
    }
}

} // verus!
