//! How a stream opens the assistant message.

use vstd::prelude::*;

use crate::json::{index_num, items_of, member, parsed, string_of, Tree};
use crate::laws::stream::run;
use crate::request::{nested, or_null};
use crate::response::finish_reason;
use crate::sse::EventText;
use crate::stream::{
    announces_call, arguments_delta, arguments_key, chunk, closing_chunk, closing_usage_tree,
    failure_payload, header_delta, index_of_call, lemma_choice_of_chunk, stream_step, text_delta,
    tool_delta, Memory, PayloadTree,
};

verus! {

/// The delta of the only choice of a chunk.
pub open spec fn delta_of(payload: PayloadTree) -> Option<Tree> {
    match payload {
        PayloadTree::Object(tree) => match items_of(member(tree, "choices"@)) {
            Some(choices) => if choices.len() > 0 {
                member(choices[0], "delta"@)
            } else {
                None
            },
            None => None,
        },
        PayloadTree::Done => None,
    }
}

/// The payload opens the assistant message.
pub open spec fn is_role(payload: PayloadTree) -> bool {
    nested(delta_of(payload), "role"@) is Some
}

/// The payload carries a piece of the answer or of the reasoning.
pub open spec fn is_text(payload: PayloadTree) -> bool {
    nested(delta_of(payload), "content"@) is Some || nested(
        delta_of(payload),
        "reasoning_content"@,
    ) is Some
}

/// The payload announces a tool call: its entry names the function.
pub open spec fn is_header(payload: PayloadTree) -> bool {
    match items_of(nested(delta_of(payload), "tool_calls"@)) {
        Some(entries) => entries.len() > 0 && nested(
            member(entries[0], "function"@),
            "name"@,
        ) is Some,
        None => false,
    }
}

/// The payload needs the assistant message to be open.
pub open spec fn needs_role(payload: PayloadTree) -> bool {
    is_text(payload) || is_header(payload)
}

proof fn lemma_delta_of_chunk(memory: Memory, delta: Tree)
    ensures
        delta_of(chunk(memory, delta)) == Some(delta),
{
    lemma_choice_of_chunk(memory, delta, None, None);
}

proof fn lemma_text_delta_kind(memory: Memory, name: Seq<char>, text: Seq<char>)
    ensures
        is_role(chunk(memory, text_delta(name, text))) == (name == "role"@),
        is_text(chunk(memory, text_delta(name, text))) == (name == "content"@ || name
            == "reasoning_content"@),
        is_header(chunk(memory, text_delta(name, text))) == false,
{
    lemma_delta_of_chunk(memory, text_delta(name, text));
}

proof fn lemma_tool_delta_kind(memory: Memory, entry: Map<Seq<char>, Tree>)
    ensures
        !is_role(chunk(memory, tool_delta(entry))),
        !is_text(chunk(memory, tool_delta(entry))),
        is_header(chunk(memory, tool_delta(entry))) == (nested(
            member(Tree::Object(entry), "function"@),
            "name"@,
        ) is Some),
{
    let delta = tool_delta(entry);
    lemma_delta_of_chunk(memory, delta);
    reveal_strlit("tool_calls");
    reveal_strlit("role");
    reveal_strlit("content");
    reveal_strlit("reasoning_content");
    assert("tool_calls"@.len() != "role"@.len());
    assert("tool_calls"@.len() != "content"@.len());
    assert("tool_calls"@.len() != "reasoning_content"@.len());
    assert(member(delta, "tool_calls"@) == Some(Tree::Array(seq![Tree::Object(entry)])));
}

proof fn lemma_header_kind(memory: Memory, index: usize, item: Tree)
    ensures
        !is_role(chunk(memory, header_delta(index, item))),
        !is_text(chunk(memory, header_delta(index, item))),
        is_header(chunk(memory, header_delta(index, item))),
{
    reveal_strlit("index");
    reveal_strlit("id");
    reveal_strlit("type");
    reveal_strlit("function");
    reveal_strlit("name");
    reveal_strlit("arguments");
    assert("index"@.len() == 5 && "id"@.len() == 2 && "type"@.len() == 4 && "function"@.len() == 8
        && "name"@.len() == 4 && "arguments"@.len() == 9);
    let function = map![
        "name"@ => or_null(member(item, "name"@)),
        "arguments"@ => Tree::String(Seq::empty()),
    ];
    let entry = map![
        "index"@ => Tree::Number(index_num(index)),
        "id"@ => or_null(member(item, "call_id"@)),
        "type"@ => Tree::String("function"@),
        "function"@ => Tree::Object(function),
    ];
    assert(header_delta(index, item) == tool_delta(entry));
    assert(function.dom().contains("name"@));
    assert(member(Tree::Object(entry), "function"@) == Some(Tree::Object(function)));
    lemma_tool_delta_kind(memory, entry);
}

proof fn lemma_arguments_kind(memory: Memory, index: usize, text: Seq<char>)
    ensures
        !is_role(chunk(memory, arguments_delta(index, text))),
        !is_text(chunk(memory, arguments_delta(index, text))),
        !is_header(chunk(memory, arguments_delta(index, text))),
{
    reveal_strlit("index");
    reveal_strlit("function");
    reveal_strlit("name");
    reveal_strlit("arguments");
    assert("index"@.len() == 5 && "function"@.len() == 8 && "name"@.len() == 4
        && "arguments"@.len() == 9);
    let entry = map![
        "index"@ => Tree::Number(index_num(index)),
        "function"@ => text_delta("arguments"@, text),
    ];
    assert(arguments_delta(index, text) == tool_delta(entry));
    assert(member(Tree::Object(entry), "function"@) == Some(text_delta("arguments"@, text)));
    lemma_tool_delta_kind(memory, entry);
}

proof fn lemma_closing_kind(memory: Memory, data: Tree)
    ensures
        !is_role(closing_chunk(memory, data)),
        !needs_role(closing_chunk(memory, data)),
{
    lemma_choice_of_chunk(
        memory,
        Tree::Object(Map::empty()),
        Some(finish_reason(memory.saw_tool_call)),
        closing_usage_tree(data),
    );
    assert(delta_of(closing_chunk(memory, data)) == Some(Tree::Object(Map::empty())));
}

proof fn lemma_failure_kind(data: Tree)
    ensures
        !is_role(failure_payload(data)),
        !needs_role(failure_payload(data)),
{
    reveal_strlit("error");
    reveal_strlit("choices");
    assert("error"@.len() != "choices"@.len());
}

/// How one event treats the role. Where it sets the mark for it, the payload with
/// the role comes out, and then one that needs it; else no payload has the role.
/// Without the mark no payload needs it.
proof fn lemma_step_role(memory: Memory, event: EventText)
    ensures
        ({
            let (after, payloads) = stream_step(memory, event);
            &&& memory.role_sent ==> after.role_sent
            &&& !memory.role_sent && after.role_sent ==> {
                &&& payloads.len() == 2
                &&& is_role(payloads[0]) && !needs_role(payloads[0])
                &&& !is_role(payloads[1]) && needs_role(payloads[1])
            }
            &&& memory.role_sent == after.role_sent ==> forall|i: int|
                0 <= i < payloads.len() ==> !is_role(#[trigger] payloads[i])
            &&& !after.role_sent ==> forall|i: int|
                0 <= i < payloads.len() ==> !needs_role(#[trigger] payloads[i])
        }),
{
    reveal_strlit("role");
    reveal_strlit("content");
    reveal_strlit("reasoning_content");
    assert("role"@.len() != "content"@.len());
    assert("role"@.len() != "reasoning_content"@.len());
    if let Some(data) = parsed(event.data) {
        if let Some(text) = string_of(member(data, "delta"@)) {
            lemma_text_delta_kind(memory, "content"@, text);
            lemma_text_delta_kind(memory, "reasoning_content"@, text);
            lemma_arguments_kind(memory, index_of_call(memory, arguments_key(data)), text);
        }
        lemma_text_delta_kind(memory, "role"@, "assistant"@);
        if announces_call(data) {
            lemma_header_kind(memory, memory.next_tool_index, member(data, "item"@)->0);
        }
        lemma_closing_kind(memory, data);
        lemma_failure_kind(data);
    }
}

/// The role is not sent again: no payload carries it where it had been sent.
pub proof fn law_role_is_not_repeated(memory: Memory, events: Seq<EventText>)
    requires
        memory.role_sent,
    ensures
        run(memory, events).0.role_sent,
        forall|i: int|
            0 <= i < run(memory, events).1.len() ==> !is_role(#[trigger] run(memory, events).1[i]),
    decreases events.len(),
{
    if events.len() > 0 {
        let (before, payloads) = run(memory, events.drop_last());
        let more = stream_step(before, events.last()).1;
        law_role_is_not_repeated(memory, events.drop_last());
        lemma_step_role(before, events.last());
        let all = run(memory, events).1;
        assert(all == payloads + more);
        assert forall|i: int| 0 <= i < all.len() implies !is_role(#[trigger] all[i]) by {
            if i < payloads.len() {
                assert(all[i] == payloads[i]);
            } else {
                assert(all[i] == more[i - payloads.len()]);
            }
        }
    }
}

/// The place `j` is the only one with the role, the next payload needs it, and
/// none up to there does.
pub open spec fn role_opens(payloads: Seq<PayloadTree>, j: int) -> bool {
    &&& 0 <= j < payloads.len() - 1
    &&& is_role(payloads[j])
    &&& needs_role(payloads[j + 1])
    &&& forall|i: int| 0 <= i <= j ==> !needs_role(#[trigger] payloads[i])
    &&& forall|i: int| 0 <= i < payloads.len() && i != j ==> !is_role(#[trigger] payloads[i])
}

/// The place of the role among the payloads of a stream that has sent it.
proof fn lemma_run_role(memory: Memory, events: Seq<EventText>) -> (j: int)
    requires
        !memory.role_sent,
    ensures
        run(memory, events).0.role_sent ==> role_opens(run(memory, events).1, j),
        !run(memory, events).0.role_sent ==> forall|i: int|
            0 <= i < run(memory, events).1.len() ==> !is_role(
                #[trigger] run(memory, events).1[i],
            ) && !needs_role(run(memory, events).1[i]),
    decreases events.len(),
{
    if events.len() == 0 {
        0
    } else {
        let (before, payloads) = run(memory, events.drop_last());
        let (after, more) = stream_step(before, events.last());
        let k = lemma_run_role(memory, events.drop_last());
        lemma_step_role(before, events.last());
        let all = run(memory, events).1;
        let n = payloads.len() as int;
        assert(all == payloads + more);
        assert(forall|i: int| 0 <= i < n ==> #[trigger] all[i] == payloads[i]);
        assert(forall|i: int| n <= i < all.len() ==> #[trigger] all[i] == more[i - n]);
        if before.role_sent {
            assert(all[k + 1] == payloads[k + 1]);
            k
        } else if after.role_sent {
            assert(all[n] == more[0] && all[n + 1] == more[1]);
            assert(role_opens(all, n));
            n
        } else {
            0
        }
    }
}

/// The message is opened where it has to be, and only there. Of the payloads of a
/// stream that had not sent the role one carries it exactly where some payload is
/// a piece of text or announces a tool call; it is the only one, and it comes
/// directly before the first of those.
pub proof fn law_role_opens_the_message(memory: Memory, events: Seq<EventText>)
    requires
        !memory.role_sent,
    ensures
        ({
            let payloads = run(memory, events).1;
            &&& (exists|j: int| 0 <= j < payloads.len() && is_role(#[trigger] payloads[j])) <==> (
            exists|i: int| 0 <= i < payloads.len() && needs_role(#[trigger] payloads[i]))
            &&& forall|j: int|
                0 <= j < payloads.len() && is_role(#[trigger] payloads[j]) ==> role_opens(
                    payloads,
                    j,
                )
        }),
{
    let payloads = run(memory, events).1;
    let j = lemma_run_role(memory, events);
    if run(memory, events).0.role_sent {
        assert(is_role(payloads[j]));
        assert(needs_role(payloads[j + 1]));
    }
}

} // verus!
