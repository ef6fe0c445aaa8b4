//! From a chat/completions request to a Responses request.

use vstd::prelude::*;
use vstd::string::*;

use crate::json::{items_of, member, string_of, trees, Json, JsonObject, Tree};
use crate::text::{join, joined, same_text, texts};

verus! {

/// The member of that name of a value that may be absent.
pub open spec fn nested(tree: Option<Tree>, name: Seq<char>) -> Option<Tree> {
    match tree {
        Some(t) => member(t, name),
        None => None,
    }
}

/// The value, or null where it is absent.
pub open spec fn or_null(tree: Option<Tree>) -> Tree {
    match tree {
        Some(t) => t,
        None => Tree::Null,
    }
}

/// The value, or the empty string where it is absent.
pub open spec fn or_empty_string(tree: Option<Tree>) -> Tree {
    match tree {
        Some(t) => t,
        None => Tree::String(Seq::empty()),
    }
}

/// `members` with `name` set to the value, where there is one.
pub open spec fn with(
    members: Map<Seq<char>, Tree>,
    name: Seq<char>,
    value: Option<Tree>,
) -> Map<Seq<char>, Tree> {
    match value {
        Some(t) => members.insert(name, t),
        None => members,
    }
}

/// The `text` strings of the parts, one after the other.
pub open spec fn parts_text(parts: Seq<Tree>) -> Seq<char>
    decreases parts.len(),
{
    if parts.len() == 0 {
        Seq::empty()
    } else {
        match string_of(member(parts.last(), "text"@)) {
            Some(s) => parts_text(parts.drop_last()) + s,
            None => parts_text(parts.drop_last()),
        }
    }
}

/// The plain text of a message content: a string, or an array of content parts.
pub open spec fn content_text(content: Tree) -> Seq<char> {
    match content {
        Tree::String(s) => s,
        Tree::Array(parts) => parts_text(parts),
        _ => Seq::empty(),
    }
}

/// The role of a message, `user` where it states none.
pub open spec fn role_of(message: Tree) -> Seq<char> {
    match string_of(member(message, "role"@)) {
        Some(role) => role,
        None => "user"@,
    }
}

/// The plain text of a message.
pub open spec fn message_text_of(message: Tree) -> Seq<char> {
    content_text(or_null(member(message, "content"@)))
}

/// A message with this role belongs to the instructions.
pub open spec fn is_instruction(role: Seq<char>) -> bool {
    role == "system"@ || role == "developer"@
}

/// An input item with a role and a text.
pub open spec fn plain_item(role: Seq<char>, content: Seq<char>) -> Tree {
    Tree::Object(map!["role"@ => Tree::String(role), "content"@ => Tree::String(content)])
}

/// The input item for the result of a tool.
pub open spec fn tool_output_item(message: Tree) -> Tree {
    Tree::Object(
        map![
            "type"@ => Tree::String("function_call_output"@),
            "call_id"@ => or_null(member(message, "tool_call_id"@)),
            "output"@ => Tree::String(message_text_of(message)),
        ],
    )
}

/// The input item for a tool call that the assistant made.
pub open spec fn tool_call_item(call: Tree) -> Tree {
    let function = member(call, "function"@);
    Tree::Object(
        map![
            "type"@ => Tree::String("function_call"@),
            "call_id"@ => or_null(member(call, "id"@)),
            "name"@ => or_null(nested(function, "name"@)),
            "arguments"@ => or_empty_string(nested(function, "arguments"@)),
        ],
    )
}

/// The input items for the tool calls of a message, in order; none where
/// `tool_calls` is not an array.
pub open spec fn tool_call_items(calls: Option<Seq<Tree>>) -> Seq<Tree> {
    match calls {
        Some(cs) => cs.map_values(|call: Tree| tool_call_item(call)),
        None => Seq::empty(),
    }
}

/// The input items that a message becomes.
pub open spec fn message_items(message: Tree) -> Seq<Tree> {
    let role = role_of(message);
    let text = message_text_of(message);
    if is_instruction(role) {
        Seq::empty()
    } else if role == "tool"@ {
        seq![tool_output_item(message)]
    } else if role == "assistant"@ && member(message, "tool_calls"@) is Some {
        let calls = tool_call_items(items_of(member(message, "tool_calls"@)));
        if text.len() == 0 {
            calls
        } else {
            calls.push(plain_item("assistant"@, text))
        }
    } else {
        seq![plain_item(role, text)]
    }
}

/// The input items of all the messages, in order.
pub open spec fn input_items(messages: Seq<Tree>) -> Seq<Tree>
    decreases messages.len(),
{
    if messages.len() == 0 {
        Seq::empty()
    } else {
        input_items(messages.drop_last()) + message_items(messages.last())
    }
}

/// The texts of the system and developer messages, in order.
pub open spec fn instructions(messages: Seq<Tree>) -> Seq<Seq<char>>
    decreases messages.len(),
{
    if messages.len() == 0 {
        Seq::empty()
    } else if is_instruction(role_of(messages.last())) {
        instructions(messages.drop_last()).push(message_text_of(messages.last()))
    } else {
        instructions(messages.drop_last())
    }
}

/// A tool without the `function` wrapper.
pub open spec fn flat_tool(function: Tree) -> Tree {
    Tree::Object(
        map![
            "type"@ => Tree::String("function"@),
            "name"@ => or_null(member(function, "name"@)),
            "description"@ => or_null(member(function, "description"@)),
            "parameters"@ => match member(function, "parameters"@) {
                Some(p) => p,
                None => Tree::Object(Map::empty()),
            },
        ],
    )
}

/// The tools that carry a `function`, without the wrapper, in order.
pub open spec fn flat_tools(tools: Seq<Tree>) -> Seq<Tree>
    decreases tools.len(),
{
    if tools.len() == 0 {
        Seq::empty()
    } else {
        match member(tools.last(), "function"@) {
            Some(f) => flat_tools(tools.drop_last()).push(flat_tool(f)),
            None => flat_tools(tools.drop_last()),
        }
    }
}

/// The messages of a request; none where `messages` is not an array.
pub open spec fn messages_of(body: Tree) -> Seq<Tree> {
    match items_of(member(body, "messages"@)) {
        Some(messages) => messages,
        None => Seq::empty(),
    }
}

/// The `instructions` of a request, where it has any.
pub open spec fn instructions_tree(body: Tree) -> Option<Tree> {
    let texts = instructions(messages_of(body));
    if texts.len() == 0 {
        None
    } else {
        Some(Tree::String(joined(texts, "\n\n"@)))
    }
}

/// The `reasoning` of a request, where it states an effort.
pub open spec fn reasoning_tree(body: Tree) -> Option<Tree> {
    match string_of(member(body, "reasoning_effort"@)) {
        Some(effort) => Some(
            Tree::Object(
                map!["effort"@ => Tree::String(effort), "summary"@ => Tree::String("auto"@)],
            ),
        ),
        None => None,
    }
}

/// The `tools` of a request, where it lists any.
pub open spec fn tools_tree(body: Tree) -> Option<Tree> {
    match items_of(member(body, "tools"@)) {
        Some(tools) => Some(Tree::Array(flat_tools(tools))),
        None => None,
    }
}

/// The members of the Responses request for a chat/completions request. Of two
/// token limits `max_completion_tokens` counts.
pub open spec fn request_members(body: Tree) -> Map<Seq<char>, Tree> {
    let m = with(Map::empty(), "model"@, member(body, "model"@));
    let m = with(m, "instructions"@, instructions_tree(body));
    let m = m.insert("input"@, Tree::Array(input_items(messages_of(body))));
    let m = with(m, "max_output_tokens"@, member(body, "max_tokens"@));
    let m = with(m, "max_output_tokens"@, member(body, "max_completion_tokens"@));
    let m = with(m, "temperature"@, member(body, "temperature"@));
    let m = with(m, "top_p"@, member(body, "top_p"@));
    let m = with(m, "stream"@, member(body, "stream"@));
    let m = with(m, "reasoning"@, reasoning_tree(body));
    let m = with(m, "tools"@, tools_tree(body));
    with(m, "tool_choice"@, member(body, "tool_choice"@))
}

/// The text of the parts that carry one.
pub fn text_of_parts(parts: &Vec<Json>) -> (r: String)
    ensures
        r@ == parts_text(trees(parts@)),
{
    let ghost all = trees(parts@);
    let mut r = String::new();
    let mut i: usize = 0;
    while i < parts.len()
        invariant
            i <= parts.len(),
            all == trees(parts@),
            r@ == parts_text(all.take(i as int)),
        decreases parts.len() - i,
    {
        proof {
            assert(all.take(i + 1).drop_last() =~= all.take(i as int));
            assert(all.take(i + 1).last() == parts@[i as int]@);
        }
        if let Some(text) = parts[i].get("text") {
            if let Some(s) = text.as_str() {
                r.append(s);
            }
        }
        i += 1;
    }
    assert(all.take(i as int) =~= all);
    r
}

/// The plain text of a message content.
pub fn message_text(content: &Json) -> (r: String)
    ensures
        r@ == content_text(content@),
{
    match content {
        Json::String(s) => s.clone(),
        Json::Array(parts) => {
            assert(content@->Array_0 =~= trees(parts@));
            text_of_parts(parts)
        },
        _ => String::new(),
    }
}

/// The member of that name, or null.
pub fn member_or_null(json: &Json, name: &str) -> (r: Json)
    ensures
        r@ == or_null(member(json@, name@)),
{
    match json.get(name) {
        Some(m) => m.clone(),
        None => Json::Null,
    }
}

/// The member of that name, or the empty string.
pub fn member_or_empty_string(json: &Json, name: &str) -> (r: Json)
    ensures
        r@ == or_empty_string(member(json@, name@)),
{
    match json.get(name) {
        Some(m) => m.clone(),
        None => Json::String(String::new()),
    }
}

/// Copies a member of `from` into `to`, under a name of its own, where it is
/// there.
fn copy_member(to: &mut JsonObject, to_name: &str, from: &Json, from_name: &str)
    ensures
        final(to)@ == with(old(to)@, to_name@, member(from@, from_name@)),
{
    if let Some(value) = from.get(from_name) {
        to.insert(to_name, value.clone());
    }
}

/// An input item with a role and a text.
fn make_plain_item(role: &str, content: String) -> (r: Json)
    ensures
        r@ == plain_item(role@, content@),
{
    let mut item = JsonObject::new();
    item.insert("role", Json::string(role));
    item.insert("content", Json::String(content));
    Json::Object(item)
}

/// The input item for a tool call that the assistant made.
fn make_tool_call_item(call: &Json) -> (r: Json)
    ensures
        r@ == tool_call_item(call@),
{
    let mut item = JsonObject::new();
    item.insert("type", Json::string("function_call"));
    item.insert("call_id", member_or_null(call, "id"));
    match call.get("function") {
        Some(function) => {
            item.insert("name", member_or_null(function, "name"));
            item.insert("arguments", member_or_empty_string(function, "arguments"));
        },
        None => {
            item.insert("name", Json::Null);
            item.insert("arguments", Json::String(String::new()));
        },
    }
    Json::Object(item)
}

/// The role of a message.
fn message_role(message: &Json) -> (r: &str)
    ensures
        r@ == role_of(message@),
{
    match message.get("role") {
        Some(role) => match role.as_str() {
            Some(s) => s,
            None => "user",
        },
        None => "user",
    }
}

/// The plain text of a message.
fn text_of_message(message: &Json) -> (r: String)
    ensures
        r@ == message_text_of(message@),
{
    match message.get("content") {
        Some(content) => message_text(content),
        None => String::new(),
    }
}

/// Adds the input items of a message to `items`.
fn push_message_items(message: &Json, items: &mut Vec<Json>)
    ensures
        trees(final(items)@) == trees(old(items)@) + message_items(message@),
{
    let ghost before = items@;
    let role = message_role(message);
    let text = text_of_message(message);
    if same_text(role, "system") || same_text(role, "developer") {
        assert(trees(items@) =~= trees(before) + message_items(message@));
        return;
    }
    if same_text(role, "tool") {
        let mut item = JsonObject::new();
        item.insert("type", Json::string("function_call_output"));
        item.insert("call_id", member_or_null(message, "tool_call_id"));
        item.insert("output", Json::String(text));
        items.push(Json::Object(item));
        assert(trees(items@) =~= trees(before) + message_items(message@));
        return;
    }
    if same_text(role, "assistant") {
        if let Some(calls) = message.get("tool_calls") {
            if let Some(calls) = calls.as_array() {
                let mut i: usize = 0;
                while i < calls.len()
                    invariant
                        i <= calls.len(),
                        trees(items@) =~= trees(before) + tool_call_items(Some(trees(calls@).take(i as int))),
                    decreases calls.len() - i,
                {
                    let ghost earlier = items@;
                    items.push(make_tool_call_item(&calls[i]));
                    proof {
                        assert(trees(items@) =~= trees(earlier).push(tool_call_item(calls@[i as int]@)));
                        assert(tool_call_items(Some(trees(calls@).take(i + 1)))
                            =~= tool_call_items(Some(trees(calls@).take(i as int))).push(
                            tool_call_item(calls@[i as int]@),
                        ));
                    }
                    i += 1;
                }
                assert(trees(calls@).take(i as int) =~= trees(calls@));
            }
            let ghost calls_only = items@;
            if !text.as_str().is_empty() {
                items.push(make_plain_item("assistant", text));
                assert(trees(items@) =~= trees(calls_only).push(plain_item("assistant"@, text@)));
            }
            assert(trees(items@) =~= trees(before) + message_items(message@));
            return;
        }
    }
    items.push(make_plain_item(role, text));
    assert(trees(items@) =~= trees(before) + message_items(message@));
}

/// The tools that carry a `function`, without the wrapper.
fn flatten_tools(tools: &Vec<Json>) -> (r: Vec<Json>)
    ensures
        trees(r@) == flat_tools(trees(tools@)),
{
    let ghost all = trees(tools@);
    let mut r: Vec<Json> = Vec::new();
    let mut i: usize = 0;
    while i < tools.len()
        invariant
            i <= tools.len(),
            all == trees(tools@),
            trees(r@) == flat_tools(all.take(i as int)),
        decreases tools.len() - i,
    {
        let ghost before = r@;
        proof {
            assert(all.take(i + 1).drop_last() =~= all.take(i as int));
            assert(all.take(i + 1).last() == tools@[i as int]@);
        }
        if let Some(function) = tools[i].get("function") {
            let mut tool = JsonObject::new();
            tool.insert("type", Json::string("function"));
            tool.insert("name", member_or_null(function, "name"));
            tool.insert("description", member_or_null(function, "description"));
            match function.get("parameters") {
                Some(parameters) => tool.insert("parameters", parameters.clone()),
                None => tool.insert("parameters", Json::Object(JsonObject::new())),
            }
            r.push(Json::Object(tool));
            assert(trees(r@) =~= trees(before).push(flat_tool(function@)));
        }
        i += 1;
    }
    assert(all.take(i as int) =~= all);
    r
}

/// The Responses request for a chat/completions request.
pub fn responses_request(body: &Json) -> (r: Json)
    ensures
        r@ == Tree::Object(request_members(body@)),
{
    let mut out = JsonObject::new();
    copy_member(&mut out, "model", body, "model");

    let mut instruction_texts: Vec<String> = Vec::new();
    let mut items: Vec<Json> = Vec::new();
    assert(trees(items@) =~= Seq::empty());
    assert(texts(instruction_texts@) =~= Seq::empty());
    if let Some(messages) = body.get("messages") {
        if let Some(messages) = messages.as_array() {
            let ghost all = trees(messages@);
            let mut i: usize = 0;
            while i < messages.len()
                invariant
                    i <= messages.len(),
                    all == trees(messages@),
                    trees(items@) == input_items(all.take(i as int)),
                    texts(instruction_texts@) == instructions(all.take(i as int)),
                decreases messages.len() - i,
            {
                let ghost before = instruction_texts@;
                let message = &messages[i];
                proof {
                    assert(all.take(i + 1).drop_last() =~= all.take(i as int));
                    assert(all.take(i + 1).last() == message@);
                }
                let role = message_role(message);
                if same_text(role, "system") || same_text(role, "developer") {
                    instruction_texts.push(text_of_message(message));
                    assert(texts(instruction_texts@) =~= texts(before).push(
                        message_text_of(message@),
                    ));
                }
                push_message_items(message, &mut items);
                i += 1;
            }
            assert(all.take(i as int) =~= all);
        }
    }
    if !instruction_texts.is_empty() {
        out.insert("instructions", Json::String(join(&instruction_texts, "\n\n")));
    }
    out.insert("input", Json::array(items));

    copy_member(&mut out, "max_output_tokens", body, "max_tokens");
    copy_member(&mut out, "max_output_tokens", body, "max_completion_tokens");
    copy_member(&mut out, "temperature", body, "temperature");
    copy_member(&mut out, "top_p", body, "top_p");
    copy_member(&mut out, "stream", body, "stream");

    if let Some(effort) = body.get("reasoning_effort") {
        if let Some(effort) = effort.as_str() {
            let mut reasoning = JsonObject::new();
            reasoning.insert("effort", Json::string(effort));
            reasoning.insert("summary", Json::string("auto"));
            out.insert("reasoning", Json::Object(reasoning));
        }
    }
    if let Some(tools) = body.get("tools") {
        if let Some(tools) = tools.as_array() {
            out.insert("tools", Json::array(flatten_tools(tools)));
        }
    }
    copy_member(&mut out, "tool_choice", body, "tool_choice");
    Json::Object(out)
}

} // verus!
