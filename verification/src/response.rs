//! From a Responses reply to a chat.completion object.

use vstd::prelude::*;
use vstd::string::*;

use crate::json::{integer_of, items_of, member, string_of, trees, Json, JsonObject, Num, Tree};
use crate::request::{
    member_or_empty_string, member_or_null, or_empty_string, or_null, parts_text, text_of_parts,
    with,
};
use crate::text::same_text;

verus! {

/// The id of a completion whose upstream states none.
pub open spec fn fallback_id() -> Seq<char> {
    "chatcmpl-proxy"@
}

/// An integer member, zero where there is none.
pub open spec fn count_of(usage: Tree, name: Seq<char>) -> i64 {
    match integer_of(member(usage, name)) {
        Some(i) => i,
        None => 0,
    }
}

/// The two token counts can be added up.
pub open spec fn usage_fits(usage: Option<Tree>) -> bool {
    match usage {
        Some(u) => i64::MIN <= count_of(u, "input_tokens"@) + count_of(u, "output_tokens"@)
            <= i64::MAX,
        None => true,
    }
}

/// The total of a usage report: as stated, or the sum of the two counts.
pub open spec fn total_of(usage: Tree) -> i64 {
    match integer_of(member(usage, "total_tokens"@)) {
        Some(i) => i,
        None => (count_of(usage, "input_tokens"@) + count_of(usage, "output_tokens"@)) as i64,
    }
}

/// The chat/completions usage for a Responses usage; null where there is none.
pub open spec fn usage_tree(usage: Option<Tree>) -> Tree {
    match usage {
        Some(u) => Tree::Object(
            map![
                "prompt_tokens"@ => Tree::Number(Num::Int(count_of(u, "input_tokens"@))),
                "completion_tokens"@ => Tree::Number(Num::Int(count_of(u, "output_tokens"@))),
                "total_tokens"@ => Tree::Number(Num::Int(total_of(u))),
            ],
        ),
        None => Tree::Null,
    }
}

/// The output item is of that type.
pub open spec fn has_type(item: Tree, name: Seq<char>) -> bool {
    string_of(member(item, "type"@)) == Some(name)
}

/// The text of the parts that an item lists under `name`.
pub open spec fn item_text(item: Tree, name: Seq<char>) -> Seq<char> {
    match items_of(member(item, name)) {
        Some(parts) => parts_text(parts),
        None => Seq::empty(),
    }
}

/// The text of the items of type `kind`, which each list it under `name`.
pub open spec fn output_text(output: Seq<Tree>, kind: Seq<char>, name: Seq<char>) -> Seq<char>
    decreases output.len(),
{
    if output.len() == 0 {
        Seq::empty()
    } else if has_type(output.last(), kind) {
        output_text(output.drop_last(), kind, name) + item_text(output.last(), name)
    } else {
        output_text(output.drop_last(), kind, name)
    }
}

/// The chat tool call for a function call item.
pub open spec fn tool_call_tree(item: Tree) -> Tree {
    Tree::Object(
        map![
            "id"@ => or_null(member(item, "call_id"@)),
            "type"@ => Tree::String("function"@),
            "function"@ => Tree::Object(
                map![
                    "name"@ => or_null(member(item, "name"@)),
                    "arguments"@ => or_empty_string(member(item, "arguments"@)),
                ],
            ),
        ],
    )
}

/// The chat tool calls among the output items, in order.
pub open spec fn tool_calls_of(output: Seq<Tree>) -> Seq<Tree>
    decreases output.len(),
{
    if output.len() == 0 {
        Seq::empty()
    } else if has_type(output.last(), "function_call"@) {
        tool_calls_of(output.drop_last()).push(tool_call_tree(output.last()))
    } else {
        tool_calls_of(output.drop_last())
    }
}

/// The output items of a reply; none where `output` is not an array.
pub open spec fn output_of(upstream: Tree) -> Seq<Tree> {
    match items_of(member(upstream, "output"@)) {
        Some(output) => output,
        None => Seq::empty(),
    }
}

/// Why the completion ended.
pub open spec fn finish_reason(has_tool_calls: bool) -> Seq<char> {
    if has_tool_calls {
        "tool_calls"@
    } else {
        "stop"@
    }
}

/// The assistant message for the output items. Its content is null where there
/// are tool calls and no text.
pub open spec fn message_members(output: Seq<Tree>) -> Map<Seq<char>, Tree> {
    let content = output_text(output, "message"@, "content"@);
    let reasoning = output_text(output, "reasoning"@, "summary"@);
    let calls = tool_calls_of(output);
    let m = map![
        "role"@ => Tree::String("assistant"@),
        "content"@ => if content.len() == 0 && calls.len() > 0 {
            Tree::Null
        } else {
            Tree::String(content)
        },
    ];
    let m = with(
        m,
        "reasoning_content"@,
        if reasoning.len() > 0 {
            Some(Tree::String(reasoning))
        } else {
            None
        },
    );
    with(
        m,
        "tool_calls"@,
        if calls.len() > 0 {
            Some(Tree::Array(calls))
        } else {
            None
        },
    )
}

/// The only choice of a completion.
pub open spec fn choice_tree(output: Seq<Tree>) -> Tree {
    Tree::Object(
        map![
            "index"@ => Tree::Number(Num::Int(0)),
            "message"@ => Tree::Object(message_members(output)),
            "finish_reason"@ => Tree::String(finish_reason(tool_calls_of(output).len() > 0)),
        ],
    )
}

/// The members of the chat.completion object for a Responses reply.
pub open spec fn completion_members(upstream: Tree) -> Map<Seq<char>, Tree> {
    map![
        "id"@ => match member(upstream, "id"@) {
            Some(id) => id,
            None => Tree::String(fallback_id()),
        },
        "object"@ => Tree::String("chat.completion"@),
        "created"@ => match member(upstream, "created_at"@) {
            Some(created) => created,
            None => Tree::Number(Num::Int(0)),
        },
        "model"@ => or_null(member(upstream, "model"@)),
        "choices"@ => Tree::Array(seq![choice_tree(output_of(upstream))]),
        "usage"@ => usage_tree(member(upstream, "usage"@)),
    ]
}

/// An integer member, zero where there is none.
fn count(usage: &Json, name: &str) -> (r: i64)
    ensures
        r == count_of(usage@, name@),
{
    match usage.get(name) {
        Some(n) => match n.as_i64() {
            Some(i) => i,
            None => 0,
        },
        None => 0,
    }
}

/// The tree of a value that may be absent.
pub open spec fn optional_tree(json: Option<&Json>) -> Option<Tree> {
    match json {
        Some(j) => Some(j@),
        None => None,
    }
}

/// The chat/completions usage for a Responses usage.
pub fn convert_usage(usage: Option<&Json>) -> (r: Json)
    requires
        usage_fits(optional_tree(usage)),
    ensures
        r@ == usage_tree(optional_tree(usage)),
{
    let u = match usage {
        Some(u) => u,
        None => return Json::Null,
    };
    let prompt = count(u, "input_tokens");
    let completion = count(u, "output_tokens");
    let sum = prompt + completion;
    let total = match u.get("total_tokens") {
        Some(n) => match n.as_i64() {
            Some(i) => i,
            None => sum,
        },
        None => sum,
    };
    let mut r = JsonObject::new();
    r.insert("prompt_tokens", Json::integer(prompt));
    r.insert("completion_tokens", Json::integer(completion));
    r.insert("total_tokens", Json::integer(total));
    Json::Object(r)
}

/// Whether the two token counts can be added up.
pub fn can_add_usage(usage: Option<&Json>) -> (r: bool)
    ensures
        r == usage_fits(optional_tree(usage)),
{
    match usage {
        Some(u) => count(u, "input_tokens").checked_add(count(u, "output_tokens")).is_some(),
        None => true,
    }
}

/// Whether the item is of that type.
pub fn is_of_type(item: &Json, name: &str) -> (r: bool)
    ensures
        r == has_type(item@, name@),
{
    match item.get("type") {
        Some(t) => match t.as_str() {
            Some(s) => same_text(s, name),
            None => false,
        },
        None => false,
    }
}

/// The text of the parts that an item lists under `name`.
fn text_of_item(item: &Json, name: &str) -> (r: String)
    ensures
        r@ == item_text(item@, name@),
{
    match item.get(name) {
        Some(parts) => match parts.as_array() {
            Some(parts) => text_of_parts(parts),
            None => String::new(),
        },
        None => String::new(),
    }
}

/// The chat tool call for a function call item.
fn make_tool_call(item: &Json) -> (r: Json)
    ensures
        r@ == tool_call_tree(item@),
{
    let mut function = JsonObject::new();
    function.insert("name", member_or_null(item, "name"));
    function.insert("arguments", member_or_empty_string(item, "arguments"));
    let mut call = JsonObject::new();
    call.insert("id", member_or_null(item, "call_id"));
    call.insert("type", Json::string("function"));
    call.insert("function", Json::Object(function));
    Json::Object(call)
}

/// What the output items of a reply hold.
struct Collected {
    content: String,
    reasoning: String,
    tool_calls: Vec<Json>,
}

/// Collects the texts and the tool calls of the output items.
fn collect_output(output: &Vec<Json>) -> (r: Collected)
    ensures
        r.content@ == output_text(trees(output@), "message"@, "content"@),
        r.reasoning@ == output_text(trees(output@), "reasoning"@, "summary"@),
        trees(r.tool_calls@) == tool_calls_of(trees(output@)),
{
    let ghost all = trees(output@);
    let mut content = String::new();
    let mut reasoning = String::new();
    let mut tool_calls: Vec<Json> = Vec::new();
    assert(trees(tool_calls@) =~= Seq::empty());
    let mut i: usize = 0;
    while i < output.len()
        invariant
            i <= output.len(),
            all == trees(output@),
            content@ == output_text(all.take(i as int), "message"@, "content"@),
            reasoning@ == output_text(all.take(i as int), "reasoning"@, "summary"@),
            trees(tool_calls@) == tool_calls_of(all.take(i as int)),
        decreases output.len() - i,
    {
        let item = &output[i];
        let ghost before = tool_calls@;
        proof {
            assert(all.take(i + 1).drop_last() =~= all.take(i as int));
            assert(all.take(i + 1).last() == item@);
            lemma_types_differ();
        }
        if is_of_type(item, "message") {
            content.append(text_of_item(item, "content").as_str());
        } else if is_of_type(item, "reasoning") {
            reasoning.append(text_of_item(item, "summary").as_str());
        } else if is_of_type(item, "function_call") {
            tool_calls.push(make_tool_call(item));
            assert(trees(tool_calls@) =~= trees(before).push(tool_call_tree(item@)));
        }
        i += 1;
    }
    assert(all.take(i as int) =~= all);
    Collected { content, reasoning, tool_calls }
}

proof fn lemma_types_differ()
    ensures
        "message"@ != "reasoning"@,
        "message"@ != "function_call"@,
        "reasoning"@ != "function_call"@,
{
    reveal_strlit("message");
    reveal_strlit("reasoning");
    reveal_strlit("function_call");
    assert("message"@.len() == 7);
    assert("reasoning"@.len() == 9);
    assert("function_call"@.len() == 13);
}

/// The chat.completion object for a Responses reply.
pub fn chat_completion(upstream: &Json) -> (r: Json)
    requires
        usage_fits(member(upstream@, "usage"@)),
    ensures
        r@ == Tree::Object(completion_members(upstream@)),
{
    let none: Vec<Json> = Vec::new();
    assert(trees(none@) =~= Seq::empty());
    let output: &Vec<Json> = match upstream.get("output") {
        Some(output) => match output.as_array() {
            Some(items) => items,
            None => &none,
        },
        None => &none,
    };
    let found = collect_output(output);
    let has_tool_calls = !found.tool_calls.is_empty();

    let mut message = JsonObject::new();
    message.insert("role", Json::string("assistant"));
    if found.content.as_str().is_empty() && has_tool_calls {
        message.insert("content", Json::Null);
    } else {
        message.insert("content", Json::String(found.content));
    }
    if !found.reasoning.as_str().is_empty() {
        message.insert("reasoning_content", Json::String(found.reasoning));
    }
    if has_tool_calls {
        message.insert("tool_calls", Json::array(found.tool_calls));
    }

    let mut choice = JsonObject::new();
    choice.insert("index", Json::integer(0));
    choice.insert("message", Json::Object(message));
    choice.insert("finish_reason", Json::string(if has_tool_calls { "tool_calls" } else { "stop" }));
    let mut choices: Vec<Json> = Vec::new();
    choices.push(Json::Object(choice));
    assert(trees(choices@) =~= seq![choice_tree(output_of(upstream@))]);

    let mut r = JsonObject::new();
    match upstream.get("id") {
        Some(id) => r.insert("id", id.clone()),
        None => r.insert("id", Json::string("chatcmpl-proxy")),
    }
    r.insert("object", Json::string("chat.completion"));
    match upstream.get("created_at") {
        Some(created) => r.insert("created", created.clone()),
        None => r.insert("created", Json::integer(0)),
    }
    r.insert("model", member_or_null(upstream, "model"));
    r.insert("choices", Json::array(choices));
    r.insert("usage", convert_usage(upstream.get("usage")));
    Json::Object(r)
}

} // verus!
