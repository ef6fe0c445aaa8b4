//! From the events of a Responses stream to the `data:` payloads of a
//! chat/completions stream.

use vstd::hash_map::StringHashMap;
use vstd::prelude::*;
use vstd::string::*;

use crate::json::{
    index_num, integer_of, items_of, member, parsed, rendered, string_of, trees, Json, JsonObject, Num, Tree,
};
use crate::request::{member_or_null, nested, or_null, with};
use crate::response::{
    can_add_usage, convert_usage, fallback_id, finish_reason, has_type, is_of_type, optional_tree,
    usage_fits, usage_tree,
};
use crate::sse::{EventText, SseEvent};
use crate::text::{same_text, texts};

verus! {

/// What one stream remembers from event to event.
pub struct StreamState {
    pub id: String,
    pub model: String,
    pub created: i64,
    pub role_sent: bool,
    pub saw_tool_call: bool,
    /// From the upstream id of an item to its place among the chat tool calls.
    pub tool_index: StringHashMap<usize>,
    pub next_tool_index: usize,
    pub finished: bool,
}

/// What a stream remembers, as mathematical values.
#[verifier::ext_equal]
pub ghost struct Memory {
    pub id: Seq<char>,
    pub model: Seq<char>,
    pub created: i64,
    pub role_sent: bool,
    pub saw_tool_call: bool,
    pub tool_index: Map<Seq<char>, usize>,
    pub next_tool_index: usize,
    pub finished: bool,
}

impl View for StreamState {
    type V = Memory;

    open spec fn view(&self) -> Memory {
        Memory {
            id: self.id@,
            model: self.model@,
            created: self.created,
            role_sent: self.role_sent,
            saw_tool_call: self.saw_tool_call,
            tool_index: self.tool_index@,
            next_tool_index: self.next_tool_index,
            finished: self.finished,
        }
    }
}

/// What a stream remembers before its first event.
pub open spec fn blank() -> Memory {
    Memory {
        id: Seq::empty(),
        model: Seq::empty(),
        created: 0,
        role_sent: false,
        saw_tool_call: false,
        tool_index: Map::empty(),
        next_tool_index: 0,
        finished: false,
    }
}

impl Default for StreamState {
    fn default() -> (r: Self)
        ensures
            r@ == blank(),
    {
        StreamState {
            id: String::new(),
            model: String::new(),
            created: 0,
            role_sent: false,
            saw_tool_call: false,
            tool_index: StringHashMap::new(),
            next_tool_index: 0,
            finished: false,
        }
    }
}

/// One `data:` payload: a JSON object, or the sentinel that ends the stream.
pub enum Payload {
    Object(Json),
    Done,
}

/// One `data:` payload, as a mathematical value.
#[verifier::ext_equal]
pub ghost enum PayloadTree {
    Object(Tree),
    Done,
}

impl View for Payload {
    type V = PayloadTree;

    open spec fn view(&self) -> PayloadTree {
        match *self {
            Payload::Object(json) => PayloadTree::Object(json@),
            Payload::Done => PayloadTree::Done,
        }
    }
}

/// The payloads as mathematical values.
pub open spec fn payload_trees(payloads: Seq<Payload>) -> Seq<PayloadTree> {
    payloads.map_values(|p: Payload| p@)
}

/// The text of a payload.
pub open spec fn payload_text(payload: PayloadTree) -> Seq<char> {
    match payload {
        PayloadTree::Object(tree) => rendered(tree),
        PayloadTree::Done => "[DONE]"@,
    }
}

/// The id that the chunks of a stream carry.
pub open spec fn chunk_id(memory: Memory) -> Seq<char> {
    if memory.id.len() == 0 {
        fallback_id()
    } else {
        memory.id
    }
}

/// The members of a chat.completion.chunk.
pub open spec fn chunk_members(memory: Memory, delta: Tree, finish: Option<Seq<char>>) -> Map<
    Seq<char>,
    Tree,
> {
    map![
        "id"@ => Tree::String(chunk_id(memory)),
        "object"@ => Tree::String("chat.completion.chunk"@),
        "created"@ => Tree::Number(Num::Int(memory.created)),
        "model"@ => Tree::String(memory.model),
        "choices"@ => Tree::Array(
            seq![
                Tree::Object(
                    map![
                        "index"@ => Tree::Number(Num::Int(0)),
                        "delta"@ => delta,
                        "finish_reason"@ => match finish {
                            Some(reason) => Tree::String(reason),
                            None => Tree::Null,
                        },
                    ],
                ),
            ],
        ),
    ]
}

/// A chunk that goes on with the stream.
pub open spec fn chunk(memory: Memory, delta: Tree) -> PayloadTree {
    PayloadTree::Object(Tree::Object(chunk_members(memory, delta, None)))
}

/// A delta with one string member.
pub open spec fn text_delta(name: Seq<char>, text: Seq<char>) -> Tree {
    Tree::Object(map![name => Tree::String(text)])
}

/// The chunk that opens the assistant message, where it has not been sent.
pub open spec fn role_chunks(memory: Memory) -> Seq<PayloadTree> {
    if memory.role_sent {
        Seq::empty()
    } else {
        seq![chunk(memory, text_delta("role"@, "assistant"@))]
    }
}

/// The memory after the stream has opened.
pub open spec fn opened(memory: Memory, response: Option<Tree>) -> Memory {
    Memory {
        id: match string_of(nested(response, "id"@)) {
            Some(id) => id,
            None => memory.id,
        },
        model: match string_of(nested(response, "model"@)) {
            Some(model) => model,
            None => memory.model,
        },
        created: match integer_of(nested(response, "created_at"@)) {
            Some(created) => created,
            None => memory.created,
        },
        ..memory
    }
}

/// A piece of text arrives for the delta member `name`.
pub open spec fn text_step(memory: Memory, name: Seq<char>, data: Tree) -> (
    Memory,
    Seq<PayloadTree>,
) {
    match string_of(member(data, "delta"@)) {
        Some(text) => (
            Memory { role_sent: true, ..memory },
            role_chunks(memory).push(chunk(memory, text_delta(name, text))),
        ),
        None => (memory, Seq::empty()),
    }
}

/// The event announces a function call.
pub open spec fn announces_call(data: Tree) -> bool {
    match member(data, "item"@) {
        Some(item) => has_type(item, "function_call"@),
        None => false,
    }
}

/// The upstream id under which a function call is remembered.
pub open spec fn call_key(item: Tree) -> Seq<char> {
    match string_of(member(item, "id"@)) {
        Some(id) => id,
        None => match string_of(member(item, "call_id"@)) {
            Some(id) => id,
            None => Seq::empty(),
        },
    }
}

/// A delta with one entry of `tool_calls`.
pub open spec fn tool_delta(entry: Map<Seq<char>, Tree>) -> Tree {
    Tree::Object(map!["tool_calls"@ => Tree::Array(seq![Tree::Object(entry)])])
}

/// The delta that announces a tool call.
pub open spec fn header_delta(index: usize, item: Tree) -> Tree {
    tool_delta(
        map![
            "index"@ => Tree::Number(index_num(index)),
            "id"@ => or_null(member(item, "call_id"@)),
            "type"@ => Tree::String("function"@),
            "function"@ => Tree::Object(
                map![
                    "name"@ => or_null(member(item, "name"@)),
                    "arguments"@ => Tree::String(Seq::empty()),
                ],
            ),
        ],
    )
}

/// The delta that carries a piece of the arguments of a tool call.
pub open spec fn arguments_delta(index: usize, text: Seq<char>) -> Tree {
    tool_delta(
        map![
            "index"@ => Tree::Number(index_num(index)),
            "function"@ => text_delta("arguments"@, text),
        ],
    )
}

/// An output item is added. A function call gets the next place among the tool
/// calls; nothing else matters.
pub open spec fn added_step(memory: Memory, data: Tree) -> (Memory, Seq<PayloadTree>) {
    if announces_call(data) {
        let item = member(data, "item"@)->0;
        let index = memory.next_tool_index;
        (
            Memory {
                role_sent: true,
                saw_tool_call: true,
                tool_index: memory.tool_index.insert(call_key(item), index),
                next_tool_index: (index + 1) as usize,
                ..memory
            },
            role_chunks(memory).push(chunk(memory, header_delta(index, item))),
        )
    } else {
        (memory, Seq::empty())
    }
}

/// The item that a piece of arguments belongs to.
pub open spec fn arguments_key(data: Tree) -> Seq<char> {
    match string_of(member(data, "item_id"@)) {
        Some(id) => id,
        None => Seq::empty(),
    }
}

/// The place of a tool call among the tool calls, the first one where the call
/// is not known.
pub open spec fn index_of_call(memory: Memory, key: Seq<char>) -> usize {
    if memory.tool_index.dom().contains(key) {
        memory.tool_index[key]
    } else {
        0
    }
}

/// A piece of the arguments of a tool call arrives.
pub open spec fn arguments_step(memory: Memory, data: Tree) -> Seq<PayloadTree> {
    match string_of(member(data, "delta"@)) {
        Some(text) => seq![
            chunk(memory, arguments_delta(index_of_call(memory, arguments_key(data)), text)),
        ],
        None => Seq::empty(),
    }
}

/// The usage that a closing event reports.
pub open spec fn closing_usage(data: Tree) -> Option<Tree> {
    nested(member(data, "response"@), "usage"@)
}

/// The chat/completions usage for the usage that a closing event reports.
pub open spec fn closing_usage_tree(data: Tree) -> Option<Tree> {
    match closing_usage(data) {
        Some(usage) => Some(usage_tree(Some(usage))),
        None => None,
    }
}

/// The last chunk of a stream.
pub open spec fn closing_chunk(memory: Memory, data: Tree) -> PayloadTree {
    let members = chunk_members(
        memory,
        Tree::Object(Map::empty()),
        Some(finish_reason(memory.saw_tool_call)),
    );
    PayloadTree::Object(
        Tree::Object(
            with(members, "usage"@, closing_usage_tree(data)),
        ),
    )
}

/// The message of an upstream failure.
pub open spec fn failure_message(data: Tree) -> Seq<char> {
    let error = match nested(member(data, "response"@), "error"@) {
        Some(e) => Some(e),
        None => member(data, "error"@),
    };
    match string_of(nested(error, "message"@)) {
        Some(message) => message,
        None => "upstream error"@,
    }
}

/// The payload that reports an upstream failure.
pub open spec fn failure_payload(data: Tree) -> PayloadTree {
    PayloadTree::Object(
        Tree::Object(map!["error"@ => text_delta("message"@, failure_message(data))]),
    )
}

/// What kind of event it is: by the `event:` field, or by the `type` of the data
/// where there is no such field.
pub open spec fn kind_of(event: Seq<char>, data: Tree) -> Seq<char> {
    if event.len() > 0 {
        event
    } else {
        match string_of(member(data, "type"@)) {
            Some(kind) => kind,
            None => Seq::empty(),
        }
    }
}

/// The stream opens.
pub open spec fn is_opening(kind: Seq<char>) -> bool {
    kind == "response.created"@ || kind == "response.in_progress"@
}

/// The stream comes to its regular end.
pub open spec fn is_closing(kind: Seq<char>) -> bool {
    kind == "response.completed"@ || kind == "response.incomplete"@
}

/// The stream breaks off.
pub open spec fn is_failure(kind: Seq<char>) -> bool {
    kind == "response.failed"@ || kind == "error"@
}

/// What an event does to the memory of a stream that has not finished, and the
/// payloads that it becomes.
pub open spec fn step(memory: Memory, kind: Seq<char>, data: Tree) -> (Memory, Seq<PayloadTree>) {
    if is_opening(kind) {
        (opened(memory, member(data, "response"@)), Seq::empty())
    } else if kind == "response.output_text.delta"@ {
        text_step(memory, "content"@, data)
    } else if kind == "response.reasoning_summary_text.delta"@ {
        text_step(memory, "reasoning_content"@, data)
    } else if kind == "response.output_item.added"@ {
        added_step(memory, data)
    } else if kind == "response.function_call_arguments.delta"@ {
        (memory, arguments_step(memory, data))
    } else if is_closing(kind) {
        (
            Memory { finished: true, ..memory },
            seq![closing_chunk(memory, data), PayloadTree::Done],
        )
    } else if is_failure(kind) {
        (Memory { finished: true, ..memory }, seq![failure_payload(data), PayloadTree::Done])
    } else {
        (memory, Seq::empty())
    }
}

/// The arithmetic of the event stays in range: a tool call can still be counted,
/// and the token counts of a closing event can be added up.
pub open spec fn step_fits(memory: Memory, kind: Seq<char>, data: Tree) -> bool {
    &&& kind == "response.output_item.added"@ && announces_call(data) ==> memory.next_tool_index
        < usize::MAX
    &&& is_closing(kind) ==> usage_fits(closing_usage(data))
}

/// What an event does, as it comes off the wire. The sentinel, data that is not
/// JSON, and whatever follows the end of the stream do nothing.
pub open spec fn stream_step(memory: Memory, event: EventText) -> (Memory, Seq<PayloadTree>) {
    if event.data == "[DONE]"@ || memory.finished {
        (memory, Seq::empty())
    } else {
        match parsed(event.data) {
            Some(data) => step(memory, kind_of(event.event, data), data),
            None => (memory, Seq::empty()),
        }
    }
}

/// The arithmetic of the event, as it comes off the wire, stays in range.
pub open spec fn stream_step_fits(memory: Memory, event: EventText) -> bool {
    event.data == "[DONE]"@ || memory.finished || match parsed(event.data) {
        Some(data) => step_fits(memory, kind_of(event.event, data), data),
        None => true,
    }
}

/// The payload texts of an event.
pub open spec fn stream_texts(memory: Memory, event: EventText) -> Seq<Seq<char>> {
    stream_step(memory, event).1.map_values(|p: PayloadTree| payload_text(p))
}

/// The text is that of a JSON object.
pub open spec fn object_text(text: Seq<char>) -> bool {
    text.len() > 0 && text[0] == '{'
}

/// The text is the sentinel or that of a JSON object.
pub open spec fn is_payload(text: Seq<char>) -> bool {
    text == "[DONE]"@ || object_text(text)
}

/// The event brings a stream to its end, regular or not.
pub open spec fn ends_stream(event: EventText) -> bool {
    event.data != "[DONE]"@ && match parsed(event.data) {
        Some(data) => is_closing(kind_of(event.event, data)) || is_failure(
            kind_of(event.event, data),
        ),
        None => false,
    }
}

/// How an event and the texts that it becomes bring a stream to its end: a stream
/// that had not finished finishes exactly where the event ends it; then two texts
/// come out, of which the second is the sentinel, and else none is. Every other
/// text is that of a JSON object.
pub open spec fn sentinel_ends_stream(
    before: Memory,
    event: EventText,
    after: Memory,
    texts: Seq<Seq<char>>,
) -> bool {
    &&& !before.finished ==> after.finished == ends_stream(event)
    &&& !before.finished ==> after.finished == (texts.len() > 0 && texts.last() == "[DONE]"@)
    &&& !before.finished && after.finished ==> texts.len() == 2
    &&& before.finished ==> after.finished && texts.len() == 0
    &&& forall|i: int|
        0 <= i < texts.len() ==> object_text(#[trigger] texts[i]) || (texts[i] == "[DONE]"@ && i
            == texts.len() - 1)
}

/// The string, or the fallback where it is empty.
pub fn non_empty(s: &str, fallback: &str) -> (r: String)
    ensures
        r@ == (if s@.len() == 0 { fallback@ } else { s@ }),
{
    if s.is_empty() {
        fallback.to_owned()
    } else {
        s.to_owned()
    }
}

/// An object with one string member.
fn make_text_delta(name: &str, text: &str) -> (r: Json)
    ensures
        r@ == text_delta(name@, text@),
{
    let mut delta = JsonObject::new();
    delta.insert(name, Json::string(text));
    Json::Object(delta)
}

/// A delta with one entry of `tool_calls`.
fn make_tool_delta(entry: JsonObject) -> (r: Json)
    ensures
        r@ == tool_delta(entry@),
{
    let mut entries: Vec<Json> = Vec::new();
    entries.push(Json::Object(entry));
    assert(trees(entries@) =~= seq![Tree::Object(entry@)]);
    let mut delta = JsonObject::new();
    delta.insert("tool_calls", Json::array(entries));
    Json::Object(delta)
}

/// The text of an optional string.
pub open spec fn optional_text(s: Option<&str>) -> Option<Seq<char>> {
    match s {
        Some(t) => Some(t@),
        None => None,
    }
}

/// A chat.completion.chunk.
fn make_chunk(state: &StreamState, delta: Json, finish: Option<&str>) -> (r: JsonObject)
    ensures
        r@ == chunk_members(state@, delta@, optional_text(finish)),
{
    let mut choice = JsonObject::new();
    choice.insert("index", Json::integer(0));
    choice.insert("delta", delta);
    match finish {
        Some(reason) => choice.insert("finish_reason", Json::string(reason)),
        None => choice.insert("finish_reason", Json::Null),
    }
    let ghost choice_tree = Tree::Object(choice@);
    let mut choices: Vec<Json> = Vec::new();
    choices.push(Json::Object(choice));
    assert(trees(choices@) =~= seq![choice_tree]);

    let mut r = JsonObject::new();
    r.insert("id", Json::String(non_empty(state.id.as_str(), "chatcmpl-proxy")));
    r.insert("object", Json::string("chat.completion.chunk"));
    r.insert("created", Json::integer(state.created));
    r.insert("model", Json::string(state.model.as_str()));
    r.insert("choices", Json::array(choices));
    r
}

/// Adds a chunk that goes on with the stream.
fn push_chunk(state: &StreamState, delta: Json, out: &mut Vec<Payload>)
    ensures
        payload_trees(final(out)@) == payload_trees(old(out)@).push(chunk(state@, delta@)),
{
    let ghost before = out@;
    out.push(Payload::Object(Json::Object(make_chunk(state, delta, None))));
    assert(payload_trees(out@) =~= payload_trees(before).push(chunk(state@, delta@)));
}

/// Adds the chunk that opens the assistant message, where it has not been sent.
fn push_role_chunk(state: &mut StreamState, out: &mut Vec<Payload>)
    ensures
        final(state)@ == (Memory { role_sent: true, ..old(state)@ }),
        payload_trees(final(out)@) == payload_trees(old(out)@) + role_chunks(old(state)@),
{
    let ghost before = out@;
    if !state.role_sent {
        push_chunk(state, make_text_delta("role", "assistant"), out);
        state.role_sent = true;
    }
    assert(payload_trees(out@) =~= payload_trees(before) + role_chunks(old(state)@));
}

/// A string member.
fn string_member<'a>(json: &'a Json, name: &str) -> (r: Option<&'a str>)
    ensures
        optional_text(r) == string_of(member(json@, name@)),
{
    match json.get(name) {
        Some(m) => m.as_str(),
        None => None,
    }
}

/// Takes over what an opening event states.
fn open_stream(state: &mut StreamState, data: &Json)
    ensures
        final(state)@ == opened(old(state)@, member(data@, "response"@)),
{
    if let Some(response) = data.get("response") {
        if let Some(id) = string_member(response, "id") {
            state.id = id.to_owned();
        }
        if let Some(model) = string_member(response, "model") {
            state.model = model.to_owned();
        }
        if let Some(created) = response.get("created_at") {
            if let Some(created) = created.as_i64() {
                state.created = created;
            }
        }
    }
}

/// A piece of text for the delta member `name`.
fn pass_text(state: &mut StreamState, name: &str, data: &Json) -> (out: Vec<Payload>)
    ensures
        (final(state)@, payload_trees(out@)) == text_step(old(state)@, name@, data@),
{
    let mut out: Vec<Payload> = Vec::new();
    assert(payload_trees(out@) =~= Seq::empty());
    if let Some(text) = string_member(data, "delta") {
        push_role_chunk(state, &mut out);
        let ghost opening = payload_trees(out@);
        assert(opening =~= role_chunks(old(state)@));
        push_chunk(state, make_text_delta(name, text), &mut out);
    }
    out
}

/// A new output item: a function call gets the next place among the tool calls.
fn announce_call(state: &mut StreamState, data: &Json) -> (out: Vec<Payload>)
    requires
        announces_call(data@) ==> old(state)@.next_tool_index < usize::MAX,
    ensures
        (final(state)@, payload_trees(out@)) == added_step(old(state)@, data@),
{
    let mut out: Vec<Payload> = Vec::new();
    assert(payload_trees(out@) =~= Seq::empty());
    if let Some(item) = data.get("item") {
        if is_of_type(item, "function_call") {
            let key: String = match string_member(item, "id") {
                Some(id) => id.to_owned(),
                None => match string_member(item, "call_id") {
                    Some(id) => id.to_owned(),
                    None => String::new(),
                },
            };
            let index = state.next_tool_index;
            state.next_tool_index = index + 1;
            state.tool_index.insert(key, index);
            state.saw_tool_call = true;
            push_role_chunk(state, &mut out);
            assert(payload_trees(out@) =~= role_chunks(old(state)@));

            let mut function = JsonObject::new();
            function.insert("name", member_or_null(item, "name"));
            function.insert("arguments", Json::String(String::new()));
            let mut entry = JsonObject::new();
            entry.insert("index", Json::index(index));
            entry.insert("id", member_or_null(item, "call_id"));
            entry.insert("type", Json::string("function"));
            entry.insert("function", Json::Object(function));
            push_chunk(state, make_tool_delta(entry), &mut out);
        }
    }
    out
}

/// A piece of the arguments of a tool call.
fn pass_arguments(state: &StreamState, data: &Json) -> (out: Vec<Payload>)
    ensures
        payload_trees(out@) == arguments_step(state@, data@),
{
    let mut out: Vec<Payload> = Vec::new();
    assert(payload_trees(out@) =~= Seq::empty());
    if let Some(text) = string_member(data, "delta") {
        let key: &str = match string_member(data, "item_id") {
            Some(id) => id,
            None => "",
        };
        proof {
            reveal_strlit("");
            assert(key@ =~= arguments_key(data@));
        }
        let index: usize = match state.tool_index.get(key) {
            Some(i) => *i,
            None => 0,
        };
        let mut entry = JsonObject::new();
        entry.insert("index", Json::index(index));
        entry.insert("function", make_text_delta("arguments", text));
        push_chunk(state, make_tool_delta(entry), &mut out);
        assert(payload_trees(out@) =~= arguments_step(state@, data@));
    }
    out
}

/// A member of a member.
fn inner_member<'a>(json: &'a Json, outer: &str, inner: &str) -> (r: Option<&'a Json>)
    ensures
        optional_tree(r) == nested(member(json@, outer@), inner@),
{
    match json.get(outer) {
        Some(m) => m.get(inner),
        None => None,
    }
}

/// The last chunk of a stream and its sentinel.
fn close_stream(state: &mut StreamState, data: &Json) -> (out: Vec<Payload>)
    requires
        usage_fits(closing_usage(data@)),
    ensures
        final(state)@ == (Memory { finished: true, ..old(state)@ }),
        payload_trees(out@) == seq![closing_chunk(old(state)@, data@), PayloadTree::Done],
{
    let reason = if state.saw_tool_call {
        "tool_calls"
    } else {
        "stop"
    };
    let mut last = make_chunk(state, Json::Object(JsonObject::new()), Some(reason));
    if let Some(usage) = inner_member(data, "response", "usage") {
        last.insert("usage", convert_usage(Some(usage)));
    }
    let mut out: Vec<Payload> = Vec::new();
    out.push(Payload::Object(Json::Object(last)));
    out.push(Payload::Done);
    state.finished = true;
    assert(payload_trees(out@) =~= seq![closing_chunk(old(state)@, data@), PayloadTree::Done]);
    out
}

/// The report of an upstream failure and the sentinel.
fn fail_stream(state: &mut StreamState, data: &Json) -> (out: Vec<Payload>)
    ensures
        final(state)@ == (Memory { finished: true, ..old(state)@ }),
        payload_trees(out@) == seq![failure_payload(data@), PayloadTree::Done],
{
    let error = match inner_member(data, "response", "error") {
        Some(e) => Some(e),
        None => data.get("error"),
    };
    let stated = match error {
        Some(e) => string_member(e, "message"),
        None => None,
    };
    let message: &str = match stated {
        Some(m) => m,
        None => "upstream error",
    };
    let mut report = JsonObject::new();
    report.insert("error", make_text_delta("message", message));
    let mut out: Vec<Payload> = Vec::new();
    out.push(Payload::Object(Json::Object(report)));
    out.push(Payload::Done);
    state.finished = true;
    assert(payload_trees(out@) =~= seq![failure_payload(data@), PayloadTree::Done]);
    out
}

/// Translates the data of one event of a stream that has not finished.
pub fn convert_stream_data(kind: &str, data: &Json, state: &mut StreamState) -> (out: Vec<Payload>)
    requires
        step_fits(old(state)@, kind@, data@),
    ensures
        (final(state)@, payload_trees(out@)) == step(old(state)@, kind@, data@),
{
    if same_text(kind, "response.created") || same_text(kind, "response.in_progress") {
        open_stream(state, data);
    } else if same_text(kind, "response.output_text.delta") {
        return pass_text(state, "content", data);
    } else if same_text(kind, "response.reasoning_summary_text.delta") {
        return pass_text(state, "reasoning_content", data);
    } else if same_text(kind, "response.output_item.added") {
        return announce_call(state, data);
    } else if same_text(kind, "response.function_call_arguments.delta") {
        return pass_arguments(state, data);
    } else if same_text(kind, "response.completed") || same_text(kind, "response.incomplete") {
        return close_stream(state, data);
    } else if same_text(kind, "response.failed") || same_text(kind, "error") {
        return fail_stream(state, data);
    }
    let out: Vec<Payload> = Vec::new();
    assert(payload_trees(out@) =~= Seq::empty());
    out
}

/// Whether the arithmetic of the event stays in range.
pub fn can_convert_stream_data(kind: &str, data: &Json, state: &StreamState) -> (r: bool)
    ensures
        r == step_fits(state@, kind@, data@),
{
    if same_text(kind, "response.output_item.added") {
        if let Some(item) = data.get("item") {
            if is_of_type(item, "function_call") && state.next_tool_index == usize::MAX {
                return false;
            }
        }
    }
    if same_text(kind, "response.completed") || same_text(kind, "response.incomplete") {
        return can_add_usage(inner_member(data, "response", "usage"));
    }
    true
}

/// What kind of event it is.
fn event_kind<'a>(event: &'a SseEvent, data: &'a Json) -> (r: &'a str)
    ensures
        r@ == kind_of(event.event@, data@),
{
    if !event.event.as_str().is_empty() {
        return event.event.as_str();
    }
    match string_member(data, "type") {
        Some(kind) => kind,
        None => {
            proof {
                reveal_strlit("");
                assert(""@ =~= Seq::empty());
            }
            ""
        },
    }
}

/// The texts of the payloads.
pub fn render_payloads(payloads: &Vec<Payload>) -> (r: Vec<String>)
    ensures
        texts(r@) == payload_trees(payloads@).map_values(|p: PayloadTree| payload_text(p)),
        forall|i: int|
            0 <= i < payloads@.len() && payloads@[i]@ is Object && payloads@[i]@->Object_0 is Object
                ==> object_text(#[trigger] texts(r@)[i]),
{
    let mut r: Vec<String> = Vec::new();
    let mut i: usize = 0;
    while i < payloads.len()
        invariant
            i <= payloads.len(),
            r@.len() == i,
            forall|j: int| 0 <= j < i ==> (#[trigger] r@[j])@ == payload_text(payloads@[j]@),
            forall|j: int|
                0 <= j < i && payloads@[j]@ is Object && payloads@[j]@->Object_0 is Object
                    ==> object_text((#[trigger] r@[j])@),
        decreases payloads.len() - i,
    {
        match &payloads[i] {
            Payload::Object(json) => r.push(json.to_text()),
            Payload::Done => r.push("[DONE]".to_owned()),
        }
        i += 1;
    }
    assert(texts(r@) =~= payload_trees(payloads@).map_values(|p: PayloadTree| payload_text(p)));
    r
}

/// No event is of two kinds.
pub proof fn lemma_kinds_differ()
    ensures
        ({
            let text = "response.output_text.delta"@;
            let reasoning = "response.reasoning_summary_text.delta"@;
            let added = "response.output_item.added"@;
            let arguments = "response.function_call_arguments.delta"@;
            &&& !is_opening(text) && !is_opening(reasoning) && text != reasoning
            &&& !is_opening(added) && added != text && added != reasoning
            &&& !is_opening(arguments) && arguments != text && arguments != reasoning && arguments
                != added
            &&& forall|kind: Seq<char>| #[trigger]
                is_closing(kind) ==> !is_opening(kind) && kind != text && kind != reasoning && kind
                    != added && kind != arguments
            &&& forall|kind: Seq<char>| #[trigger]
                is_failure(kind) ==> !is_opening(kind) && kind != text && kind != reasoning && kind
                    != added && kind != arguments && !is_closing(kind)
        }),
{
    reveal_strlit("response.created");
    reveal_strlit("response.in_progress");
    reveal_strlit("response.output_text.delta");
    reveal_strlit("response.reasoning_summary_text.delta");
    reveal_strlit("response.output_item.added");
    reveal_strlit("response.function_call_arguments.delta");
    reveal_strlit("response.completed");
    reveal_strlit("response.incomplete");
    reveal_strlit("response.failed");
    reveal_strlit("error");
    assert("response.created"@.len() == 16 && "response.in_progress"@.len() == 20
        && "response.output_text.delta"@.len() == 26
        && "response.reasoning_summary_text.delta"@.len() == 37
        && "response.output_item.added"@.len() == 26
        && "response.function_call_arguments.delta"@.len() == 38 && "response.completed"@.len()
        == 18 && "response.incomplete"@.len() == 19 && "response.failed"@.len() == 15
        && "error"@.len() == 5);
    assert("response.output_text.delta"@[16] == 't' && "response.output_item.added"@[16] == 'i');
}

/// The only choice of a chunk, with or without a usage beside it, holds the delta
/// and the reason of its end.
pub proof fn lemma_choice_of_chunk(
    memory: Memory,
    delta: Tree,
    finish: Option<Seq<char>>,
    usage: Option<Tree>,
)
    ensures
        ({
            let chunk = Tree::Object(with(chunk_members(memory, delta, finish), "usage"@, usage));
            let choices = items_of(member(chunk, "choices"@));
            &&& choices is Some
            &&& choices->0.len() == 1
            &&& member(choices->0[0], "delta"@) == Some(delta)
            &&& member(choices->0[0], "finish_reason"@) == Some(
                match finish {
                    Some(reason) => Tree::String(reason),
                    None => Tree::Null,
                },
            )
        }),
{
    reveal_strlit("choices");
    reveal_strlit("usage");
    reveal_strlit("delta");
    reveal_strlit("finish_reason");
    assert("choices"@.len() == 7 && "usage"@.len() == 5 && "delta"@.len() == 5
        && "finish_reason"@.len() == 13);
    let members = chunk_members(memory, delta, finish);
    assert(members.dom().contains("choices"@));
    assert(with(members, "usage"@, usage)["choices"@] == members["choices"@]);
}

/// What the payloads of an event are: objects, and the sentinel behind one other
/// where the event ends the stream.
pub proof fn lemma_step_payloads(memory: Memory, kind: Seq<char>, data: Tree)
    requires
        !memory.finished,
    ensures
        ({
            let (after, payloads) = step(memory, kind, data);
            &&& after.finished == (is_closing(kind) || is_failure(kind))
            &&& after.finished ==> payloads.len() == 2 && payloads[1] == PayloadTree::Done
            &&& forall|i: int|
                0 <= i < payloads.len() && !(after.finished && i == 1) ==> (
                #[trigger] payloads[i]) is Object && payloads[i]->Object_0 is Object
        }),
{
    lemma_kinds_differ();
}

/// Translates one event as it comes off the wire.
pub(crate) fn convert_event(event: &SseEvent, state: &mut StreamState) -> (r: Vec<String>)
    requires
        stream_step_fits(old(state)@, event@),
    ensures
        final(state)@ == stream_step(old(state)@, event@).0,
        texts(r@) == stream_texts(old(state)@, event@),
        sentinel_ends_stream(old(state)@, event@, final(state)@, texts(r@)),
{
    if !same_text(event.data.as_str(), "[DONE]") && !state.finished {
        if let Some(data) = Json::parse(event.data.as_str()) {
            let payloads = convert_stream_data(event_kind(event, &data), &data, state);
            let r = render_payloads(&payloads);
            proof {
                lemma_step_payloads(old(state)@, kind_of(event.event@, data@), data@);
                reveal_strlit("[DONE]");
                assert(texts(r@).len() == r@.len());
                assert(payload_trees(payloads@).len() == r@.len());
                assert forall|i: int| 0 <= i < r@.len() implies object_text(
                    #[trigger] texts(r@)[i],
                ) || (texts(r@)[i] == "[DONE]"@ && i == r@.len() - 1) by {
                    assert(payload_trees(payloads@)[i] == payloads@[i]@);
                    assert(texts(r@)[i] == payload_text(payload_trees(payloads@)[i]));
                }
                if r@.len() > 0 {
                    assert(texts(r@)[r@.len() - 1] == payload_text(
                        payload_trees(payloads@)[r@.len() - 1],
                    ));
                }
            }
            return r;
        }
    }
    let r: Vec<String> = Vec::new();
    assert(texts(r@) =~= stream_texts(old(state)@, event@));
    r
}

/// Whether the arithmetic of the event, as it comes off the wire, stays in
/// range.
pub fn can_convert_event(event: &SseEvent, state: &StreamState) -> (r: bool)
    ensures
        r == stream_step_fits(state@, event@),
{
    if same_text(event.data.as_str(), "[DONE]") || state.finished {
        return true;
    }
    match Json::parse(event.data.as_str()) {
        Some(data) => can_convert_stream_data(event_kind(event, &data), &data, state),
        None => true,
    }
}

} // verus!
