//! What the chunks of a stream hold of the events they were made from, read
//! member by member.

use vstd::prelude::*;
use vstd::seq_lib::lemma_flatten_concat;

use crate::converter::{
    has_converter, same_converter, OpenAIResponsesConverter, UpstreamConverter,
};
use crate::json::{
    index_num, integer_of, items_of, member, parsed, rendered, string_of, Num, Tree,
};
use crate::laws::requests::{holds, holds_or, only};
use crate::laws::responses::{law_usage, reports_usage};
use crate::laws::stream::{run, run_fits};
use crate::request::{nested, request_members};
use crate::response::{completion_members, usage_fits};
use crate::sse::EventText;
use crate::stream::{
    announces_call, arguments_delta, arguments_key, blank, chunk, closing_usage, header_delta,
    index_of_call, is_failure, kind_of, lemma_kinds_differ, stream_step, stream_step_fits,
    stream_texts, text_delta, Memory, PayloadTree,
};

verus! {

/// The event is of that kind: by its name, or by the `type` of its data where it
/// has no name. Its data is JSON, and not the sentinel.
pub open spec fn is_event(event: EventText, kind: Seq<char>, data: Tree) -> bool {
    &&& event.data != "[DONE]"@
    &&& parsed(event.data) == Some(data)
    &&& event.event == kind || (event.event.len() == 0 && string_of(member(data, "type"@)) == Some(
        kind,
    ))
}

/// The payload is a chunk of the stream with the delta, the reason and the usage.
pub open spec fn is_chunk(
    payload: PayloadTree,
    memory: Memory,
    delta: Tree,
    reason: Tree,
    usage: Option<Tree>,
) -> bool {
    payload matches PayloadTree::Object(tree) && {
        &&& holds(
            tree,
            "id"@,
            Tree::String(
                if memory.id.len() == 0 {
                    "chatcmpl-proxy"@
                } else {
                    memory.id
                },
            ),
        )
        &&& holds(tree, "object"@, Tree::String("chat.completion.chunk"@))
        &&& holds(tree, "created"@, Tree::Number(Num::Int(memory.created)))
        &&& holds(tree, "model"@, Tree::String(memory.model))
        &&& items_of(member(tree, "choices"@)) matches Some(choices) && {
            &&& choices.len() == 1
            &&& holds(choices[0], "index"@, Tree::Number(Num::Int(0)))
            &&& holds(choices[0], "delta"@, delta)
            &&& holds(choices[0], "finish_reason"@, reason)
            &&& only(choices[0], set!["index"@, "delta"@, "finish_reason"@])
        }
        &&& match usage {
            Some(u) => member(tree, "usage"@) matches Some(report) && reports_usage(report, u),
            None => member(tree, "usage"@) is None,
        }
        &&& only(tree, set!["id"@, "object"@, "created"@, "model"@, "choices"@, "usage"@])
    }
}

/// The value is an object with this one member.
pub open spec fn is_single(tree: Tree, name: Seq<char>, content: Tree) -> bool {
    holds(tree, name, content) && only(tree, set![name])
}

/// The payload is a chunk that goes on with the stream and whose delta has this
/// one member.
pub open spec fn is_piece(
    payload: PayloadTree,
    memory: Memory,
    name: Seq<char>,
    content: Tree,
) -> bool {
    exists|delta: Tree| #[trigger]
        is_chunk(payload, memory, delta, Tree::Null, None) && is_single(delta, name, content)
}

proof fn lemma_names_differ()
    ensures
        "id"@ != "object"@,
        "id"@ != "created"@,
        "id"@ != "model"@,
        "id"@ != "choices"@,
        "id"@ != "usage"@,
        "object"@ != "created"@,
        "object"@ != "model"@,
        "object"@ != "choices"@,
        "object"@ != "usage"@,
        "created"@ != "model"@,
        "created"@ != "choices"@,
        "created"@ != "usage"@,
        "model"@ != "choices"@,
        "model"@ != "usage"@,
        "choices"@ != "usage"@,
        "index"@ != "delta"@,
        "index"@ != "finish_reason"@,
        "delta"@ != "finish_reason"@,
        "index"@ != "id"@,
        "index"@ != "type"@,
        "index"@ != "function"@,
        "id"@ != "type"@,
        "id"@ != "function"@,
        "type"@ != "function"@,
        "name"@ != "arguments"@,
{
    reveal_strlit("id");
    reveal_strlit("object");
    reveal_strlit("created");
    reveal_strlit("model");
    reveal_strlit("choices");
    reveal_strlit("usage");
    reveal_strlit("index");
    reveal_strlit("delta");
    reveal_strlit("finish_reason");
    reveal_strlit("type");
    reveal_strlit("function");
    reveal_strlit("name");
    reveal_strlit("arguments");
    assert("id"@.len() == 2 && "object"@.len() == 6 && "created"@.len() == 7 && "model"@.len() == 5
        && "choices"@.len() == 7 && "usage"@.len() == 5 && "index"@.len() == 5 && "delta"@.len() == 5
        && "finish_reason"@.len() == 13 && "type"@.len() == 4 && "function"@.len() == 8
        && "name"@.len() == 4 && "arguments"@.len() == 9);
    assert("created"@[1] == 'r' && "choices"@[1] == 'h' && "model"@[0] == 'm' && "usage"@[0] == 'u'
        && "index"@[0] == 'i' && "delta"@[0] == 'd');
}

proof fn lemma_chunk(memory: Memory, delta: Tree)
    ensures
        is_chunk(chunk(memory, delta), memory, delta, Tree::Null, None),
{
    lemma_names_differ();
}

proof fn lemma_piece(memory: Memory, name: Seq<char>, text: Seq<char>)
    ensures
        is_piece(
            chunk(memory, text_delta(name, text)),
            memory,
            name,
            Tree::String(text),
        ),
{
    let delta = text_delta(name, text);
    lemma_chunk(memory, delta);
    assert(is_single(delta, name, Tree::String(text)));
}

/// The memory with the role sent.
pub open spec fn with_role(memory: Memory) -> Memory {
    Memory { role_sent: true, ..memory }
}

/// The payloads are what a piece of text becomes: the chunk with the role, where
/// it had not been sent, and the chunk with exactly that text.
pub open spec fn passes_text(
    memory: Memory,
    payloads: Seq<PayloadTree>,
    name: Seq<char>,
    text: Seq<char>,
) -> bool {
    &&& payloads.len() == (if memory.role_sent {
        1int
    } else {
        2int
    })
    &&& !memory.role_sent ==> is_piece(
        payloads[0],
        memory,
        "role"@,
        Tree::String("assistant"@),
    )
    &&& is_piece(payloads.last(), memory, name, Tree::String(text))
}

/// A piece of text comes out as the content of a chunk, and a piece of reasoning
/// as its reasoning content, character for character; without a string nothing
/// comes out and nothing changes.
pub proof fn law_text_is_passed_on(memory: Memory, event: EventText, data: Tree)
    requires
        !memory.finished,
    ensures
        is_event(event, "response.output_text.delta"@, data) ==> match string_of(
            member(data, "delta"@),
        ) {
            Some(text) => {
                &&& stream_step(memory, event).0 == with_role(memory)
                &&& passes_text(memory, stream_step(memory, event).1, "content"@, text)
            },
            None => stream_step(memory, event) == (memory, Seq::<PayloadTree>::empty()),
        },
        is_event(event, "response.reasoning_summary_text.delta"@, data) ==> match string_of(
            member(data, "delta"@),
        ) {
            Some(text) => {
                &&& stream_step(memory, event).0 == with_role(memory)
                &&& passes_text(memory, stream_step(memory, event).1, "reasoning_content"@, text)
            },
            None => stream_step(memory, event) == (memory, Seq::<PayloadTree>::empty()),
        },
{
    lemma_kinds_differ();
    lemma_kind_texts();
    lemma_piece(memory, "role"@, "assistant"@);
    if let Some(text) = string_of(member(data, "delta"@)) {
        lemma_piece(memory, "content"@, text);
        lemma_piece(memory, "reasoning_content"@, text);
    }
}

/// No kind is the empty text.
proof fn lemma_kind_texts()
    ensures
        "response.created"@.len() > 0,
        "response.in_progress"@.len() > 0,
        "response.output_text.delta"@.len() > 0,
        "response.reasoning_summary_text.delta"@.len() > 0,
        "response.output_item.added"@.len() > 0,
        "response.function_call_arguments.delta"@.len() > 0,
        "response.completed"@.len() > 0,
        "response.incomplete"@.len() > 0,
        "response.failed"@.len() > 0,
        "error"@.len() > 0,
{
    reveal_strlit("response.created");
    reveal_strlit("response.in_progress");
    reveal_strlit("response.output_text.delta");
    reveal_strlit("response.reasoning_summary_text.delta");
    reveal_strlit("response.output_item.added");
    reveal_strlit("response.function_call_arguments.delta");
    reveal_strlit("response.completed");
    reveal_strlit("response.incomplete");
    reveal_strlit("response.failed");
    reveal_strlit("error");
}

/// The entry has the place among the tool calls.
pub open spec fn has_place(entry: Tree, index: usize) -> bool {
    if index <= i64::MAX {
        holds(entry, "index"@, Tree::Number(Num::Int(index as i64)))
    } else {
        holds(entry, "index"@, Tree::Number(index_num(index)))
    }
}

/// The delta announces the call of the item.
pub open spec fn announces_item(delta: Tree, index: usize, item: Tree) -> bool {
    &&& only(delta, set!["tool_calls"@])
    &&& items_of(member(delta, "tool_calls"@)) matches Some(entries) && {
        &&& entries.len() == 1
        &&& has_place(entries[0], index)
        &&& holds_or(entries[0], "id"@, member(item, "call_id"@), Tree::Null)
        &&& holds(entries[0], "type"@, Tree::String("function"@))
        &&& only(entries[0], set!["index"@, "id"@, "type"@, "function"@])
        &&& member(entries[0], "function"@) matches Some(function) && {
            &&& holds_or(function, "name"@, member(item, "name"@), Tree::Null)
            &&& holds(function, "arguments"@, Tree::String(Seq::empty()))
            &&& only(function, set!["name"@, "arguments"@])
        }
    }
}

/// The delta carries a piece of the arguments of the call at that place.
pub open spec fn carries_arguments(delta: Tree, index: usize, text: Seq<char>) -> bool {
    &&& only(delta, set!["tool_calls"@])
    &&& items_of(member(delta, "tool_calls"@)) matches Some(entries) && {
        &&& entries.len() == 1
        &&& has_place(entries[0], index)
        &&& only(entries[0], set!["index"@, "function"@])
        &&& member(entries[0], "function"@) matches Some(function) && is_single(
            function,
            "arguments"@,
            Tree::String(text),
        )
    }
}

/// The key of an item: its id, else its call id, else nothing.
pub open spec fn item_key(item: Tree) -> Seq<char> {
    match (string_of(member(item, "id"@)), string_of(member(item, "call_id"@))) {
        (Some(id), _) => id,
        (None, Some(id)) => id,
        (None, None) => Seq::empty(),
    }
}

/// A function call that is added comes out as a header with the next free place,
/// behind the role where that had not been sent, and is remembered under its key;
/// any other item does nothing.
pub proof fn law_added_item(memory: Memory, event: EventText, data: Tree)
    requires
        !memory.finished,
        string_of(nested(member(data, "item"@), "type"@)) == Some("function_call"@)
            ==> memory.next_tool_index < usize::MAX,
        is_event(event, "response.output_item.added"@, data),
    ensures
        match member(data, "item"@) {
            Some(item) => if string_of(member(item, "type"@)) == Some("function_call"@) {
                let (after, payloads) = stream_step(memory, event);
                &&& after == (Memory {
                    role_sent: true,
                    saw_tool_call: true,
                    tool_index: memory.tool_index.insert(item_key(item), memory.next_tool_index),
                    next_tool_index: (memory.next_tool_index + 1) as usize,
                    ..memory
                })
                &&& payloads.len() == (if memory.role_sent {
                    1int
                } else {
                    2int
                })
                &&& !memory.role_sent ==> is_piece(
                    payloads[0],
                    memory,
                    "role"@,
                    Tree::String("assistant"@),
                )
                &&& exists|delta: Tree| #[trigger]
                    is_chunk(payloads.last(), memory, delta, Tree::Null, None) && announces_item(
                        delta,
                        memory.next_tool_index,
                        item,
                    )
            } else {
                stream_step(memory, event) == (memory, Seq::<PayloadTree>::empty())
            },
            None => stream_step(memory, event) == (memory, Seq::<PayloadTree>::empty()),
        },
{
    lemma_kinds_differ();
    lemma_kind_texts();
    lemma_names_differ();
    lemma_piece(memory, "role"@, "assistant"@);
    if let Some(item) = member(data, "item"@) {
        let delta = header_delta(memory.next_tool_index, item);
        lemma_chunk(memory, delta);
        assert(announces_item(delta, memory.next_tool_index, item)) by {
            let entries = items_of(member(delta, "tool_calls"@))->0;
            assert(entries.len() == 1);
        }
        if string_of(member(item, "type"@)) == Some("function_call"@) {
            assert(announces_call(data));
            let payloads = stream_step(memory, event).1;
            assert(payloads.last() == chunk(memory, delta));
            assert(is_chunk(payloads.last(), memory, delta, Tree::Null, None));
        }
    }
}

/// A piece of arguments comes out with the place that is remembered for its item,
/// the first place where none is, character for character; nothing changes.
pub proof fn law_arguments_are_passed_on(memory: Memory, event: EventText, data: Tree)
    requires
        !memory.finished,
        is_event(event, "response.function_call_arguments.delta"@, data),
    ensures
        stream_step(memory, event).0 == memory,
        match string_of(member(data, "delta"@)) {
            Some(text) => {
                let key = match string_of(member(data, "item_id"@)) {
                    Some(id) => id,
                    None => Seq::empty(),
                };
                let index = if memory.tool_index.dom().contains(key) {
                    memory.tool_index[key]
                } else {
                    0
                };
                let payloads = stream_step(memory, event).1;
                &&& payloads.len() == 1
                &&& exists|delta: Tree| #[trigger]
                    is_chunk(payloads[0], memory, delta, Tree::Null, None) && carries_arguments(
                        delta,
                        index,
                        text,
                    )
            },
            None => stream_step(memory, event).1.len() == 0,
        },
{
    lemma_kinds_differ();
    lemma_kind_texts();
    lemma_names_differ();
    if let Some(text) = string_of(member(data, "delta"@)) {
        let index = index_of_call(memory, arguments_key(data));
        let delta = arguments_delta(index, text);
        lemma_chunk(memory, delta);
        assert(carries_arguments(delta, index, text)) by {
            let entries = items_of(member(delta, "tool_calls"@))->0;
            assert(entries.len() == 1);
        }
        let payloads = stream_step(memory, event).1;
        assert(payloads[0] == chunk(memory, delta));
        assert(is_chunk(payloads[0], memory, delta, Tree::Null, None));
    }
}

/// An event that ends a stream regularly comes out as one chunk with an empty
/// delta, the reason and the usage of the response, where it states one, and the
/// sentinel.
pub proof fn law_regular_end(memory: Memory, event: EventText, data: Tree)
    requires
        !memory.finished,
        is_event(event, "response.completed"@, data) || is_event(
            event,
            "response.incomplete"@,
            data,
        ),
        usage_fits(nested(member(data, "response"@), "usage"@)),
    ensures
        stream_step(memory, event).0 == (Memory { finished: true, ..memory }),
        stream_step(memory, event).1.len() == 2,
        stream_step(memory, event).1[1] == PayloadTree::Done,
        is_chunk(
            stream_step(memory, event).1[0],
            memory,
            Tree::Object(Map::empty()),
            Tree::String(
                if memory.saw_tool_call {
                    "tool_calls"@
                } else {
                    "stop"@
                },
            ),
            nested(member(data, "response"@), "usage"@),
        ),
{
    lemma_kinds_differ();
    lemma_kind_texts();
    lemma_names_differ();
    if let Some(usage) = closing_usage(data) {
        law_usage(usage);
    }
}

/// An event that breaks a stream off comes out as the message of the error of the
/// response, else of the event, else a general one, and the sentinel.
pub proof fn law_failed_end(memory: Memory, event: EventText, data: Tree)
    requires
        !memory.finished,
        is_event(event, "response.failed"@, data) || is_event(event, "error"@, data),
    ensures
        stream_step(memory, event).0 == (Memory { finished: true, ..memory }),
        stream_step(memory, event).1.len() == 2,
        stream_step(memory, event).1[1] == PayloadTree::Done,
        ({
            let error = match nested(member(data, "response"@), "error"@) {
                Some(e) => Some(e),
                None => member(data, "error"@),
            };
            let message = match string_of(nested(error, "message"@)) {
                Some(m) => m,
                None => "upstream error"@,
            };
            stream_step(memory, event).1[0] matches PayloadTree::Object(tree) && {
                &&& only(tree, set!["error"@])
                &&& member(tree, "error"@) matches Some(e) && is_single(
                    e,
                    "message"@,
                    Tree::String(message),
                )
            }
        }),
{
    lemma_kinds_differ();
    lemma_kind_texts();
    assert(is_failure(kind_of(event.event, data)));
}

/// An event that opens a stream sets what its response states of the id, the model
/// and the time, and brings nothing out.
pub proof fn law_opening(memory: Memory, event: EventText, data: Tree)
    requires
        !memory.finished,
        is_event(event, "response.created"@, data) || is_event(event, "response.in_progress"@, data),
    ensures
        ({
            let response = member(data, "response"@);
            let (after, payloads) = stream_step(memory, event);
            &&& payloads.len() == 0
            &&& after.id == (match string_of(nested(response, "id"@)) {
                Some(id) => id,
                None => memory.id,
            })
            &&& after.model == (match string_of(nested(response, "model"@)) {
                Some(model) => model,
                None => memory.model,
            })
            &&& after.created == (match integer_of(nested(response, "created_at"@)) {
                Some(created) => created,
                None => memory.created,
            })
            &&& after == (Memory {
                id: after.id,
                model: after.model,
                created: after.created,
                ..memory
            })
        }),
{
    lemma_kinds_differ();
    lemma_kind_texts();
}

/// Events of other kinds do nothing. Nor does one whose data is not JSON or is the
/// sentinel, nor any after the end.
pub proof fn law_other_events_do_nothing(memory: Memory, event: EventText)
    requires
        memory.finished || event.data == "[DONE]"@ || match parsed(event.data) {
            Some(data) => {
                let kind = if event.event.len() > 0 {
                    event.event
                } else {
                    match string_of(member(data, "type"@)) {
                        Some(k) => k,
                        None => Seq::empty(),
                    }
                };
                &&& kind != "response.created"@ && kind != "response.in_progress"@
                &&& kind != "response.output_text.delta"@
                &&& kind != "response.reasoning_summary_text.delta"@
                &&& kind != "response.output_item.added"@
                &&& kind != "response.function_call_arguments.delta"@
                &&& kind != "response.completed"@ && kind != "response.incomplete"@
                &&& kind != "response.failed"@ && kind != "error"@
            },
            None => true,
        },
    ensures
        stream_step(memory, event) == (memory, Seq::<PayloadTree>::empty()),
{
}

/// An event is refused exactly where a tool call could not be counted any more, or
/// where the two counts of a closing usage cannot be added up.
pub proof fn law_event_is_refused_on_overflow(memory: Memory, event: EventText)
    ensures
        !stream_step_fits(memory, event) <==> !memory.finished && (exists|data: Tree|
            {
                ||| #[trigger] is_event(event, "response.output_item.added"@, data)
                    && memory.next_tool_index == usize::MAX && string_of(
                    nested(member(data, "item"@), "type"@),
                ) == Some("function_call"@)
                ||| (is_event(event, "response.completed"@, data) || is_event(
                    event,
                    "response.incomplete"@,
                    data,
                )) && !usage_fits(nested(member(data, "response"@), "usage"@))
            }),
{
    lemma_kinds_differ();
    lemma_kind_texts();
    if let Some(data) = parsed(event.data) {
        let added = is_event(event, "response.output_item.added"@, data);
        assert(added <==> event.data != "[DONE]"@ && kind_of(event.event, data)
            == "response.output_item.added"@);
    }
}

/// The string that a payload carries under that name in its delta.
pub open spec fn string_in(payload: PayloadTree, name: Seq<char>) -> Seq<char> {
    match payload {
        PayloadTree::Object(tree) => match items_of(member(tree, "choices"@)) {
            Some(choices) => match string_of(nested(member(choices[0], "delta"@), name)) {
                Some(s) => s,
                None => Seq::empty(),
            },
            None => Seq::empty(),
        },
        PayloadTree::Done => Seq::empty(),
    }
}

/// The string that an event brings, where it is of that kind.
pub open spec fn string_brought(event: EventText, kind: Seq<char>) -> Seq<char> {
    match parsed(event.data) {
        Some(data) => match string_of(member(data, "delta"@)) {
            Some(s) => if is_event(event, kind, data) {
                s
            } else {
                Seq::empty()
            },
            None => Seq::empty(),
        },
        None => Seq::empty(),
    }
}

/// All the strings under that name in the deltas of the payloads.
pub open spec fn strings_out(payloads: Seq<PayloadTree>, name: Seq<char>) -> Seq<char> {
    payloads.map_values(|p: PayloadTree| string_in(p, name)).flatten()
}

/// All the strings that the events of that kind bring.
pub open spec fn strings_brought(events: Seq<EventText>, kind: Seq<char>) -> Seq<char> {
    events.map_values(|e: EventText| string_brought(e, kind)).flatten()
}

proof fn lemma_string_in_chunk(
    payload: PayloadTree,
    memory: Memory,
    delta: Tree,
    only_name: Seq<char>,
    name: Seq<char>,
)
    requires
        is_chunk(payload, memory, delta, Tree::Null, None),
        only(delta, set![only_name]),
    ensures
        string_in(payload, name) == (match string_of(member(delta, name)) {
            Some(s) => s,
            None => Seq::empty(),
        }),
        name != only_name ==> string_in(payload, name) == Seq::<char>::empty(),
{
}

proof fn lemma_string_in_piece(
    payload: PayloadTree,
    memory: Memory,
    own: Seq<char>,
    text: Seq<char>,
    name: Seq<char>,
)
    requires
        is_piece(payload, memory, own, Tree::String(text)),
    ensures
        string_in(payload, name) == (if name == own {
            text
        } else {
            Seq::empty()
        }),
{
    let delta = choose|delta: Tree| #[trigger]
        is_chunk(payload, memory, delta, Tree::Null, None) && is_single(
            delta,
            own,
            Tree::String(text),
        );
    lemma_string_in_chunk(payload, memory, delta, own, name);
}

proof fn lemma_strings_of_two(a: PayloadTree, b: PayloadTree, name: Seq<char>)
    ensures
        strings_out(seq![a, b], name) == string_in(a, name) + string_in(b, name),
        strings_out(seq![b], name) == string_in(b, name),
        strings_out(Seq::empty(), name) == Seq::<char>::empty(),
{
    let f = |p: PayloadTree| string_in(p, name);
    let none = Seq::<Seq<char>>::empty();
    assert(Seq::<PayloadTree>::empty().map_values(f) =~= none);
    assert(none.flatten() =~= Seq::<char>::empty());
    assert(seq![b].map_values(f) =~= none.push(f(b)));
    none.lemma_flatten_push(f(b));
    assert(none.flatten() + f(b) =~= f(b));
    assert(seq![a].map_values(f) =~= none.push(f(a)));
    none.lemma_flatten_push(f(a));
    assert(none.flatten() + f(a) =~= f(a));
    assert(seq![a, b].map_values(f) =~= none.push(f(a)).push(f(b)));
    none.push(f(a)).lemma_flatten_push(f(b));
}

/// One event brings out the string that it brings in, under the name of its kind.
proof fn lemma_step_strings(memory: Memory, event: EventText)
    requires
        !memory.finished,
        !stream_step(memory, event).0.finished,
        stream_step_fits(memory, event),
    ensures
        strings_out(stream_step(memory, event).1, "content"@) == string_brought(
            event,
            "response.output_text.delta"@,
        ),
        strings_out(stream_step(memory, event).1, "reasoning_content"@) == string_brought(
            event,
            "response.reasoning_summary_text.delta"@,
        ),
{
    reveal_strlit("content");
    reveal_strlit("reasoning_content");
    reveal_strlit("role");
    reveal_strlit("tool_calls");
    assert("content"@.len() == 7 && "reasoning_content"@.len() == 17 && "role"@.len() == 4
        && "tool_calls"@.len() == 10);
    lemma_kinds_differ();
    lemma_kind_texts();
    let payloads = stream_step(memory, event).1;
    let names = seq!["content"@, "reasoning_content"@];
    lemma_strings_of_two(PayloadTree::Done, PayloadTree::Done, names[0]);
    lemma_strings_of_two(PayloadTree::Done, PayloadTree::Done, names[1]);
    if payloads.len() == 1 {
        assert(payloads =~= seq![payloads[0]]);
        lemma_strings_of_two(payloads[0], payloads[0], names[0]);
        lemma_strings_of_two(payloads[0], payloads[0], names[1]);
    } else if payloads.len() == 2 {
        assert(payloads =~= seq![payloads[0], payloads[1]]);
        lemma_strings_of_two(payloads[0], payloads[1], names[0]);
        lemma_strings_of_two(payloads[0], payloads[1], names[1]);
    } else if payloads.len() == 0 {
        assert(payloads =~= Seq::<PayloadTree>::empty());
    }
    if let Some(data) = parsed(event.data) {
        if event.data != "[DONE]"@ {
            law_text_is_passed_on(memory, event, data);
            if is_event(event, "response.output_item.added"@, data) {
                law_added_item(memory, event, data);
            }
            if is_event(event, "response.function_call_arguments.delta"@, data) {
                law_arguments_are_passed_on(memory, event, data);
            }
            let kind = kind_of(event.event, data);
            if !memory.role_sent && payloads.len() == 2 {
                assert(is_piece(payloads[0], memory, "role"@, Tree::String("assistant"@)));
                lemma_string_in_piece(payloads[0], memory, "role"@, "assistant"@, names[0]);
                lemma_string_in_piece(payloads[0], memory, "role"@, "assistant"@, names[1]);
            }
            if payloads.len() > 0 {
                let last = payloads.last();
                if kind == "response.output_text.delta"@ {
                    let text = string_of(member(data, "delta"@))->0;
                    lemma_string_in_piece(last, memory, "content"@, text, names[0]);
                    lemma_string_in_piece(last, memory, "content"@, text, names[1]);
                } else if kind == "response.reasoning_summary_text.delta"@ {
                    let text = string_of(member(data, "delta"@))->0;
                    lemma_string_in_piece(last, memory, "reasoning_content"@, text, names[0]);
                    lemma_string_in_piece(last, memory, "reasoning_content"@, text, names[1]);
                } else {
                    let delta = choose|delta: Tree| #[trigger]
                        is_chunk(last, memory, delta, Tree::Null, None) && only(
                            delta,
                            set!["tool_calls"@],
                        );
                    lemma_string_in_chunk(last, memory, delta, "tool_calls"@, names[0]);
                    lemma_string_in_chunk(last, memory, delta, "tool_calls"@, names[1]);
                }
            }
        }
    }
}

/// A client that joins the pieces reads what was sent: as long as a stream has not
/// finished, all the content that came out is all the text that came in, and all
/// the reasoning that came out is all the reasoning that came in, in order and
/// character for character.
pub proof fn law_no_text_is_lost(memory: Memory, events: Seq<EventText>)
    requires
        run_fits(memory, events),
        !run(memory, events).0.finished,
    ensures
        strings_out(run(memory, events).1, "content"@) == strings_brought(
            events,
            "response.output_text.delta"@,
        ),
        strings_out(run(memory, events).1, "reasoning_content"@) == strings_brought(
            events,
            "response.reasoning_summary_text.delta"@,
        ),
    decreases events.len(),
{
    if events.len() == 0 {
        let none = Seq::<Seq<char>>::empty();
        assert(none.flatten() =~= Seq::<char>::empty());
        assert(run(memory, events).1.map_values(|p: PayloadTree| string_in(p, "content"@))
            =~= none);
        assert(run(memory, events).1.map_values(
            |p: PayloadTree| string_in(p, "reasoning_content"@),
        ) =~= none);
        assert(events.map_values(
            |e: EventText| string_brought(e, "response.output_text.delta"@),
        ) =~= none);
        assert(events.map_values(
            |e: EventText| string_brought(e, "response.reasoning_summary_text.delta"@),
        ) =~= none);
    } else {
        let before = events.drop_last();
        let (held, payloads) = run(memory, before);
        let more = stream_step(held, events.last()).1;
        law_no_text_is_lost(memory, before);
        lemma_step_strings(held, events.last());
        lemma_strings_joined(payloads, more, "content"@);
        lemma_strings_joined(payloads, more, "reasoning_content"@);
        lemma_strings_brought_last(events, "response.output_text.delta"@);
        lemma_strings_brought_last(events, "response.reasoning_summary_text.delta"@);
    }
}

proof fn lemma_strings_joined(a: Seq<PayloadTree>, b: Seq<PayloadTree>, name: Seq<char>)
    ensures
        strings_out(a + b, name) == strings_out(a, name) + strings_out(b, name),
{
    let f = |p: PayloadTree| string_in(p, name);
    assert((a + b).map_values(f) =~= a.map_values(f) + b.map_values(f));
    lemma_flatten_concat(a.map_values(f), b.map_values(f));
}

proof fn lemma_strings_brought_last(events: Seq<EventText>, kind: Seq<char>)
    requires
        events.len() > 0,
    ensures
        strings_brought(events, kind) == strings_brought(events.drop_last(), kind)
            + string_brought(events.last(), kind),
{
    let f = |e: EventText| string_brought(e, kind);
    let before = events.drop_last().map_values(f);
    assert(events.map_values(f) =~= before.push(f(events.last())));
    before.lemma_flatten_push(f(events.last()));
}

/// The texts of an event are those of its payloads, in order: what `serde_json`
/// writes for the object, or the sentinel.
pub proof fn law_texts_of_payloads(memory: Memory, event: EventText)
    ensures
        stream_texts(memory, event).len() == stream_step(memory, event).1.len(),
        forall|i: int|
            0 <= i < stream_texts(memory, event).len() ==> #[trigger] stream_texts(memory, event)[i]
                == (match stream_step(memory, event).1[i] {
                PayloadTree::Object(tree) => rendered(tree),
                PayloadTree::Done => "[DONE]"@,
            }),
{
}

/// A stream starts without anything remembered.
pub proof fn law_blank_memory()
    ensures
        blank().id.len() == 0,
        blank().model.len() == 0,
        blank().created == 0,
        !blank().role_sent,
        !blank().saw_tool_call,
        blank().tool_index == Map::<Seq<char>, usize>::empty(),
        blank().next_tool_index == 0,
        !blank().finished,
{
}

/// The converter speaks to the Responses endpoint, and it is chosen for that API
/// and no other.
pub proof fn law_converter_is_chosen_by_name(api_type: Option<&str>, body: Tree, upstream: Tree)
    ensures
        OpenAIResponsesConverter.path() == "/responses"@,
        OpenAIResponsesConverter.request(body) == Tree::Object(request_members(body)),
        OpenAIResponsesConverter.response(upstream) == Tree::Object(completion_members(upstream)),
        OpenAIResponsesConverter.accepts_response(upstream) == usage_fits(
            member(upstream, "usage"@),
        ),
        has_converter(api_type) <==> (api_type matches Some(name) && name@ == "openai-responses"@),
{
}

/// The converter does to a stream what the laws of streams speak of.
pub proof fn law_converter_steps(memory: Memory, event: EventText)
    ensures
        OpenAIResponsesConverter.accepts_event(memory, event) == stream_step_fits(memory, event),
        OpenAIResponsesConverter.remembered(memory, event) == stream_step(memory, event).0,
        OpenAIResponsesConverter.payloads(memory, event) == stream_texts(memory, event),
{
}

/// Two converters that do the same agree on every request, reply and event.
pub proof fn law_same_converter<A: UpstreamConverter + ?Sized, B: UpstreamConverter>(
    a: &A,
    b: &B,
    tree: Tree,
    memory: Memory,
    event: EventText,
)
    requires
        same_converter(a, b),
    ensures
        a.path() == b.path(),
        a.request(tree) == b.request(tree),
        a.accepts_response(tree) == b.accepts_response(tree),
        a.response(tree) == b.response(tree),
        a.accepts_event(memory, event) == b.accepts_event(memory, event),
        a.remembered(memory, event) == b.remembered(memory, event),
        a.payloads(memory, event) == b.payloads(memory, event),
{
}

} // verus!
