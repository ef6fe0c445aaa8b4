//! What a chat.completion object holds of the Responses reply it was made from,
//! read member by member.

use vstd::prelude::*;

use crate::json::{integer_of, items_of, member, string_of, Json, Num, Tree};
use crate::laws::requests::{holds, holds_or, law_text_of_parts, only, strings_in};
use crate::request::nested;
use crate::response::{
    completion_members, message_members, optional_tree, output_of, output_text, tool_call_tree,
    tool_calls_of, usage_fits, usage_tree,
};

verus! {

/// The completion that a reply becomes.
pub open spec fn completion_of(upstream: Tree) -> Tree {
    Tree::Object(completion_members(upstream))
}

/// The item is of that type.
pub open spec fn typed(item: Tree, kind: Seq<char>) -> bool {
    string_of(member(item, "type"@)) == Some(kind)
}

/// The strings in the parts that items of one type list under a name.
pub open spec fn strings_of_items(output: Seq<Tree>, kind: Seq<char>, name: Seq<char>) -> Seq<char> {
    output.map_values(
        |item: Tree|
            match items_of(member(item, name)) {
                Some(parts) => if typed(item, kind) {
                    strings_in(parts)
                } else {
                    Seq::<char>::empty()
                },
                None => Seq::<char>::empty(),
            },
    ).flatten()
}

/// The call is that of the item.
pub open spec fn is_chat_call(call: Tree, item: Tree) -> bool {
    &&& holds_or(call, "id"@, member(item, "call_id"@), Tree::Null)
    &&& holds(call, "type"@, Tree::String("function"@))
    &&& only(call, set!["id"@, "type"@, "function"@])
    &&& member(call, "function"@) matches Some(function) && {
        &&& holds_or(function, "name"@, member(item, "name"@), Tree::Null)
        &&& holds_or(
            function,
            "arguments"@,
            member(item, "arguments"@),
            Tree::String(Seq::empty()),
        )
        &&& only(function, set!["name"@, "arguments"@])
    }
}

/// The usage reports the counts: those that the usage states as integers, else
/// zero, and the total that it states, else their sum.
pub open spec fn reports_usage(report: Tree, usage: Tree) -> bool {
    let prompt = match integer_of(member(usage, "input_tokens"@)) {
        Some(i) => i as int,
        None => 0,
    };
    let completion = match integer_of(member(usage, "output_tokens"@)) {
        Some(i) => i as int,
        None => 0,
    };
    let total = match integer_of(member(usage, "total_tokens"@)) {
        Some(i) => i as int,
        None => prompt + completion,
    };
    &&& member(report, "prompt_tokens"@) matches Some(Tree::Number(Num::Int(i))) && i == prompt
    &&& member(report, "completion_tokens"@) matches Some(Tree::Number(Num::Int(i))) && i
        == completion
    &&& member(report, "total_tokens"@) matches Some(Tree::Number(Num::Int(i))) && i == total
    &&& only(report, set!["prompt_tokens"@, "completion_tokens"@, "total_tokens"@])
}

/// A converted usage reports the counts of the usage.
pub proof fn law_usage(usage: Tree)
    requires
        usage_fits(Some(usage)),
    ensures
        reports_usage(usage_tree(Some(usage)), usage),
{
    reveal_strlit("prompt_tokens");
    reveal_strlit("completion_tokens");
    reveal_strlit("total_tokens");
    assert("prompt_tokens"@.len() == 13 && "completion_tokens"@.len() == 17
        && "total_tokens"@.len() == 12);
}

/// A usage is refused exactly where its two counts cannot be added up.
pub proof fn law_usage_is_refused_on_overflow(usage: Option<Tree>)
    ensures
        !usage_fits(usage) <==> match (
            integer_of(nested(usage, "input_tokens"@)),
            integer_of(nested(usage, "output_tokens"@)),
        ) {
            (Some(a), Some(b)) => a + b < i64::MIN || i64::MAX < a + b,
            _ => false,
        },
{
}

/// The completion has these members and no others: the id, the time and the model
/// of the reply as they are, and what its output and its usage become.
pub proof fn law_completion_member_by_member(upstream: Tree)
    requires
        usage_fits(member(upstream, "usage"@)),
    ensures
        ({
            let completion = completion_of(upstream);
            &&& holds_or(
                completion,
                "id"@,
                member(upstream, "id"@),
                Tree::String("chatcmpl-proxy"@),
            )
            &&& holds(completion, "object"@, Tree::String("chat.completion"@))
            &&& holds_or(
                completion,
                "created"@,
                member(upstream, "created_at"@),
                Tree::Number(Num::Int(0)),
            )
            &&& holds_or(completion, "model"@, member(upstream, "model"@), Tree::Null)
            &&& match member(upstream, "usage"@) {
                Some(usage) => member(completion, "usage"@) matches Some(report) && reports_usage(
                    report,
                    usage,
                ),
                None => holds(completion, "usage"@, Tree::Null),
            }
            &&& items_of(member(completion, "choices"@)) matches Some(choices) && choices.len() == 1
            &&& only(
                completion,
                set!["id"@, "object"@, "created"@, "model"@, "choices"@, "usage"@],
            )
        }),
{
    lemma_completion_names_differ();
    if let Some(usage) = member(upstream, "usage"@) {
        law_usage(usage);
    }
}

proof fn lemma_completion_names_differ()
    ensures
        "id"@ != "object"@,
        "id"@ != "created"@,
        "id"@ != "model"@,
        "id"@ != "choices"@,
        "id"@ != "usage"@,
        "object"@ != "created"@,
        "object"@ != "model"@,
        "object"@ != "choices"@,
        "object"@ != "usage"@,
        "created"@ != "model"@,
        "created"@ != "choices"@,
        "created"@ != "usage"@,
        "model"@ != "choices"@,
        "model"@ != "usage"@,
        "choices"@ != "usage"@,
{
    reveal_strlit("id");
    reveal_strlit("object");
    reveal_strlit("created");
    reveal_strlit("model");
    reveal_strlit("choices");
    reveal_strlit("usage");
    assert("id"@.len() == 2 && "object"@.len() == 6 && "created"@.len() == 7 && "model"@.len() == 5
        && "choices"@.len() == 7 && "usage"@.len() == 5);
    assert("created"@[1] == 'r' && "choices"@[1] == 'h' && "model"@[0] == 'm' && "usage"@[0] == 'u');
}

proof fn lemma_output_text(output: Seq<Tree>, kind: Seq<char>, name: Seq<char>)
    ensures
        output_text(output, kind, name) == strings_of_items(output, kind, name),
    decreases output.len(),
{
    let piece = |item: Tree|
        match items_of(member(item, name)) {
            Some(parts) => if typed(item, kind) {
                strings_in(parts)
            } else {
                Seq::<char>::empty()
            },
            None => Seq::<char>::empty(),
        };
    let pieces = output.map_values(piece);
    if output.len() == 0 {
        assert(pieces =~= Seq::<Seq<char>>::empty());
        assert(pieces.flatten() =~= Seq::<char>::empty());
    } else {
        let before = output.drop_last();
        let last = output.last();
        lemma_output_text(before, kind, name);
        assert(pieces =~= before.map_values(piece).push(piece(last)));
        before.map_values(piece).lemma_flatten_push(piece(last));
        if let Some(parts) = items_of(member(last, name)) {
            law_text_of_parts(parts);
        }
        assert(output_text(output, kind, name) =~= strings_of_items(output, kind, name));
    }
}

proof fn lemma_tool_call(item: Tree)
    ensures
        is_chat_call(tool_call_tree(item), item),
{
    reveal_strlit("id");
    reveal_strlit("type");
    reveal_strlit("function");
    reveal_strlit("name");
    reveal_strlit("arguments");
    assert("id"@.len() == 2 && "type"@.len() == 4 && "function"@.len() == 8 && "name"@.len() == 4
        && "arguments"@.len() == 9);
}

proof fn lemma_tool_calls(output: Seq<Tree>)
    ensures
        ({
            let items = output.filter(|item: Tree| typed(item, "function_call"@));
            &&& tool_calls_of(output).len() == items.len()
            &&& forall|i: int|
                0 <= i < items.len() ==> is_chat_call(#[trigger] tool_calls_of(output)[i], items[i])
        }),
    decreases output.len(),
{
    reveal(Seq::filter);
    if output.len() > 0 {
        lemma_tool_calls(output.drop_last());
        lemma_tool_call(output.last());
    }
}

/// The only choice of a completion has the index zero and the message of the
/// assistant. The content is all the strings of the messages in the output, in
/// order; where there are none it is null beside tool calls. The reasoning is all
/// the strings of the summaries, where there are any. The tool calls are the
/// function calls in the output, all of them and in order, and the finish reason
/// tells whether there are any.
pub proof fn law_completion_choice(upstream: Tree, output: Seq<Tree>)
    requires
        match items_of(member(upstream, "output"@)) {
            Some(items) => output == items,
            None => output.len() == 0,
        },
    ensures
        ({
            let choices = items_of(member(completion_of(upstream), "choices"@));
            let choice = choices->0[0];
            let message = member(choice, "message"@)->0;
            let text = strings_of_items(output, "message"@, "content"@);
            let reasoning = strings_of_items(output, "reasoning"@, "summary"@);
            let items = output.filter(|item: Tree| typed(item, "function_call"@));
            &&& choices is Some && choices->0.len() == 1
            &&& holds(choice, "index"@, Tree::Number(Num::Int(0)))
            &&& member(choice, "message"@) is Some
            &&& only(choice, set!["index"@, "message"@, "finish_reason"@])
            &&& holds(message, "role"@, Tree::String("assistant"@))
            &&& holds(
                message,
                "content"@,
                if text.len() == 0 && items.len() > 0 {
                    Tree::Null
                } else {
                    Tree::String(text)
                },
            )
            &&& if reasoning.len() > 0 {
                holds(message, "reasoning_content"@, Tree::String(reasoning))
            } else {
                member(message, "reasoning_content"@) is None
            }
            &&& if items.len() > 0 {
                &&& holds(choice, "finish_reason"@, Tree::String("tool_calls"@))
                &&& items_of(member(message, "tool_calls"@)) matches Some(calls) && {
                    &&& calls.len() == items.len()
                    &&& forall|i: int|
                        0 <= i < items.len() ==> is_chat_call(#[trigger] calls[i], items[i])
                }
            } else {
                &&& holds(choice, "finish_reason"@, Tree::String("stop"@))
                &&& member(message, "tool_calls"@) is None
            }
            &&& only(message, set!["role"@, "content"@, "reasoning_content"@, "tool_calls"@])
        }),
{
    lemma_completion_names_differ();
    reveal_strlit("index");
    reveal_strlit("message");
    reveal_strlit("finish_reason");
    reveal_strlit("role");
    reveal_strlit("content");
    reveal_strlit("reasoning_content");
    reveal_strlit("tool_calls");
    assert("index"@.len() == 5 && "message"@.len() == 7 && "finish_reason"@.len() == 13
        && "role"@.len() == 4 && "content"@.len() == 7 && "reasoning_content"@.len() == 17
        && "tool_calls"@.len() == 10);
    assert(output_of(upstream) =~= output);
    lemma_output_text(output, "message"@, "content"@);
    lemma_output_text(output, "reasoning"@, "summary"@);
    lemma_tool_calls(output);
    let members = message_members(output);
    let choice = items_of(member(completion_of(upstream), "choices"@))->0[0];
    assert(member(choice, "message"@) == Some(Tree::Object(members)));
}

/// A usage that is absent converts to null, and one that is there is itself.
pub proof fn law_absent_usage(json: Json)
    ensures
        usage_tree(optional_tree(None)) == Tree::Null,
        optional_tree(Some(&json)) == Some(json@),
{
}

} // verus!
