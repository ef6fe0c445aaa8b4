//! What holds of the conversion of requests and of replies.

use vstd::prelude::*;

use crate::json::{integer_of, member, Tree};
use crate::request::{
    input_items, instructions, instructions_tree, is_instruction, message_items, message_text_of,
    messages_of, nested, reasoning_tree, request_members, role_of, tool_call_item, tools_tree,
};
use crate::response::{
    choice_tree, count_of, finish_reason, message_members, output_text, tool_call_tree,
    tool_calls_of, usage_fits, usage_tree,
};

verus! {

/// The names of the members that a Responses request can have.
pub open spec fn request_names() -> Set<Seq<char>> {
    set![
        "model"@,
        "instructions"@,
        "input"@,
        "max_output_tokens"@,
        "temperature"@,
        "top_p"@,
        "stream"@,
        "reasoning"@,
        "tools"@,
        "tool_choice"@,
    ]
}

/// The token limit of a request: `max_completion_tokens` where it is stated,
/// else `max_tokens`.
pub open spec fn token_limit(body: Tree) -> Option<Tree> {
    match member(body, "max_completion_tokens"@) {
        Some(limit) => Some(limit),
        None => member(body, "max_tokens"@),
    }
}

proof fn lemma_request_names_differ()
    ensures
        "model"@ != "instructions"@,
        "model"@ != "input"@,
        "model"@ != "max_output_tokens"@,
        "model"@ != "temperature"@,
        "model"@ != "top_p"@,
        "model"@ != "stream"@,
        "model"@ != "reasoning"@,
        "model"@ != "tools"@,
        "model"@ != "tool_choice"@,
        "instructions"@ != "input"@,
        "instructions"@ != "max_output_tokens"@,
        "instructions"@ != "temperature"@,
        "instructions"@ != "top_p"@,
        "instructions"@ != "stream"@,
        "instructions"@ != "reasoning"@,
        "instructions"@ != "tools"@,
        "instructions"@ != "tool_choice"@,
        "input"@ != "max_output_tokens"@,
        "input"@ != "temperature"@,
        "input"@ != "top_p"@,
        "input"@ != "stream"@,
        "input"@ != "reasoning"@,
        "input"@ != "tools"@,
        "input"@ != "tool_choice"@,
        "max_output_tokens"@ != "temperature"@,
        "max_output_tokens"@ != "top_p"@,
        "max_output_tokens"@ != "stream"@,
        "max_output_tokens"@ != "reasoning"@,
        "max_output_tokens"@ != "tools"@,
        "max_output_tokens"@ != "tool_choice"@,
        "temperature"@ != "top_p"@,
        "temperature"@ != "stream"@,
        "temperature"@ != "reasoning"@,
        "temperature"@ != "tools"@,
        "temperature"@ != "tool_choice"@,
        "top_p"@ != "stream"@,
        "top_p"@ != "reasoning"@,
        "top_p"@ != "tools"@,
        "top_p"@ != "tool_choice"@,
        "stream"@ != "reasoning"@,
        "stream"@ != "tools"@,
        "stream"@ != "tool_choice"@,
        "reasoning"@ != "tools"@,
        "reasoning"@ != "tool_choice"@,
        "tools"@ != "tool_choice"@,
{
    reveal_strlit("model");
    reveal_strlit("instructions");
    reveal_strlit("input");
    reveal_strlit("max_output_tokens");
    reveal_strlit("temperature");
    reveal_strlit("top_p");
    reveal_strlit("stream");
    reveal_strlit("reasoning");
    reveal_strlit("tools");
    reveal_strlit("tool_choice");
    assert("model"@.len() == 5 && "instructions"@.len() == 12 && "input"@.len() == 5
        && "max_output_tokens"@.len() == 17 && "temperature"@.len() == 11 && "top_p"@.len() == 5
        && "stream"@.len() == 6 && "reasoning"@.len() == 9 && "tools"@.len() == 5
        && "tool_choice"@.len() == 11);
    assert("model"@[0] == 'm' && "input"@[0] == 'i' && "top_p"@[0] == 't' && "top_p"@[2] == 'p'
        && "tools"@[0] == 't' && "tools"@[2] == 'o' && "temperature"@[1] == 'e'
        && "tool_choice"@[1] == 'o');
}

/// The request has these members and no others: what the chat request states of
/// `model`, `temperature`, `top_p`, `stream` and `tool_choice` as it is, its
/// token limit under the new name, and what its messages, its effort and its
/// tools become.
pub proof fn law_request_member_by_member(body: Tree)
    ensures
        ({
            let request = Tree::Object(request_members(body));
            &&& member(request, "model"@) == member(body, "model"@)
            &&& member(request, "temperature"@) == member(body, "temperature"@)
            &&& member(request, "top_p"@) == member(body, "top_p"@)
            &&& member(request, "stream"@) == member(body, "stream"@)
            &&& member(request, "tool_choice"@) == member(body, "tool_choice"@)
            &&& member(request, "max_output_tokens"@) == token_limit(body)
            &&& member(request, "instructions"@) == instructions_tree(body)
            &&& member(request, "input"@) == Some(Tree::Array(input_items(messages_of(body))))
            &&& member(request, "reasoning"@) == reasoning_tree(body)
            &&& member(request, "tools"@) == tools_tree(body)
            &&& forall|name: Seq<char>| #[trigger]
                member(request, name) is Some ==> request_names().contains(name)
        }),
{
    lemma_request_names_differ();
}

/// The input keeps the order of the messages, and so do the instructions: those
/// of a joined conversation are those of its parts, one after the other.
pub proof fn law_messages_convert_in_order(a: Seq<Tree>, b: Seq<Tree>)
    ensures
        input_items(a + b) == input_items(a) + input_items(b),
        instructions(a + b) == instructions(a) + instructions(b),
    decreases b.len(),
{
    if b.len() == 0 {
        assert(a + b =~= a);
        assert(input_items(a) + input_items(b) =~= input_items(a));
        assert(instructions(a) + instructions(b) =~= instructions(a));
    } else {
        assert((a + b).drop_last() =~= a + b.drop_last());
        law_messages_convert_in_order(a, b.drop_last());
        assert(input_items(a + b) =~= input_items(a) + input_items(b));
        assert(instructions(a + b) =~= instructions(a) + instructions(b));
    }
}

/// Every message goes to one side only: a system or developer message to the
/// instructions, and any other to the input.
pub proof fn law_message_goes_to_one_side(message: Tree)
    ensures
        is_instruction(role_of(message)) ==> {
            &&& instructions(seq![message]) == seq![message_text_of(message)]
            &&& input_items(seq![message]) == Seq::<Tree>::empty()
        },
        !is_instruction(role_of(message)) ==> {
            &&& instructions(seq![message]) == Seq::<Seq<char>>::empty()
            &&& input_items(seq![message]) == message_items(message)
        },
{
    let one = seq![message];
    assert(one.drop_last() =~= Seq::<Tree>::empty());
    assert(one.last() == message);
    assert(input_items(one.drop_last()) =~= Seq::<Tree>::empty());
    assert(input_items(one) =~= message_items(message));
    assert(instructions(one.drop_last()) =~= Seq::<Seq<char>>::empty());
}

/// There are instructions exactly where a message gives some.
pub proof fn law_instructions_where_given(messages: Seq<Tree>)
    ensures
        instructions(messages).len() == 0 <==> (forall|i: int|
            0 <= i < messages.len() ==> !is_instruction(role_of(#[trigger] messages[i]))),
    decreases messages.len(),
{
    if messages.len() > 0 {
        let before = messages.drop_last();
        law_instructions_where_given(before);
        assert(forall|i: int| 0 <= i < before.len() ==> messages[i] == #[trigger] before[i]);
        if is_instruction(role_of(messages.last())) {
            assert(is_instruction(role_of(messages[messages.len() - 1])));
        } else if instructions(before).len() == 0 {
            assert forall|i: int| 0 <= i < messages.len() implies !is_instruction(
                role_of(#[trigger] messages[i]),
            ) by {
                if i < before.len() {
                    assert(!is_instruction(role_of(before[i])));
                }
            }
        } else {
            let i = choose|i: int|
                0 <= i < before.len() && is_instruction(role_of(#[trigger] before[i]));
            assert(is_instruction(role_of(messages[i])));
        }
    }
}

/// A function call that came back as a chat tool call goes out again as the same
/// function call.
pub proof fn law_tool_call_round_trip(call_id: Tree, name: Tree, arguments: Tree)
    ensures
        ({
            let item = Tree::Object(
                map![
                    "type"@ => Tree::String("function_call"@),
                    "call_id"@ => call_id,
                    "name"@ => name,
                    "arguments"@ => arguments,
                ],
            );
            tool_call_item(tool_call_tree(item)) == item
        }),
{
    reveal_strlit("type");
    reveal_strlit("call_id");
    reveal_strlit("name");
    reveal_strlit("arguments");
    reveal_strlit("id");
    reveal_strlit("function");
    assert("type"@.len() == 4 && "call_id"@.len() == 7 && "name"@.len() == 4 && "arguments"@.len()
        == 9 && "id"@.len() == 2 && "function"@.len() == 8);
    assert("type"@[0] == 't' && "name"@[0] == 'n');
    let item = map![
        "type"@ => Tree::String("function_call"@),
        "call_id"@ => call_id,
        "name"@ => name,
        "arguments"@ => arguments,
    ];
    let call = tool_call_tree(Tree::Object(item));
    assert(member(call, "id"@) == Some(call_id));
    assert(nested(member(call, "function"@), "name"@) == Some(name));
    assert(nested(member(call, "function"@), "arguments"@) == Some(arguments));
    assert(tool_call_item(call)->Object_0 =~= item);
}

/// The finish reason tells whether there are tool calls: they are listed in the
/// message exactly where it says so, and the content is null only beside them.
pub proof fn law_finish_reason_tells_of_tool_calls(output: Seq<Tree>)
    ensures
        ({
            let choice = choice_tree(output);
            let message = member(choice, "message"@);
            let reason = member(choice, "finish_reason"@);
            &&& reason == Some(Tree::String("tool_calls"@)) <==> nested(message, "tool_calls"@)
                == Some(Tree::Array(tool_calls_of(output)))
            &&& reason == Some(Tree::String("stop"@)) <==> nested(message, "tool_calls"@) is None
            &&& reason == Some(Tree::String("tool_calls"@)) || reason == Some(
                Tree::String("stop"@),
            )
            &&& nested(message, "content"@) == Some(Tree::Null) ==> reason == Some(
                Tree::String("tool_calls"@),
            )
        }),
{
    reveal_strlit("index");
    reveal_strlit("message");
    reveal_strlit("finish_reason");
    reveal_strlit("tool_calls");
    reveal_strlit("stop");
    reveal_strlit("role");
    reveal_strlit("content");
    reveal_strlit("reasoning_content");
    assert("index"@.len() == 5 && "message"@.len() == 7 && "finish_reason"@.len() == 13);
    assert("tool_calls"@.len() == 10 && "stop"@.len() == 4 && "reasoning_content"@.len() == 17
        && "content"@.len() == 7 && "role"@.len() == 4);
    let members = message_members(output);
    let choice = choice_tree(output);
    assert(member(choice, "message"@) == Some(Tree::Object(members)));
    assert(member(choice, "finish_reason"@) == Some(
        Tree::String(finish_reason(tool_calls_of(output).len() > 0)),
    ));
}

/// The texts and the tool calls of a reply come out in the order of its items.
pub proof fn law_output_converts_in_order(
    a: Seq<Tree>,
    b: Seq<Tree>,
    kind: Seq<char>,
    name: Seq<char>,
)
    ensures
        output_text(a + b, kind, name) == output_text(a, kind, name) + output_text(b, kind, name),
        tool_calls_of(a + b) == tool_calls_of(a) + tool_calls_of(b),
    decreases b.len(),
{
    if b.len() == 0 {
        assert(a + b =~= a);
        assert(output_text(a, kind, name) + output_text(b, kind, name) =~= output_text(
            a,
            kind,
            name,
        ));
        assert(tool_calls_of(a) + tool_calls_of(b) =~= tool_calls_of(a));
    } else {
        assert((a + b).drop_last() =~= a + b.drop_last());
        law_output_converts_in_order(a, b.drop_last(), kind, name);
        assert(output_text(a + b, kind, name) =~= output_text(a, kind, name) + output_text(
            b,
            kind,
            name,
        ));
        assert(tool_calls_of(a + b) =~= tool_calls_of(a) + tool_calls_of(b));
    }
}

/// A usage without a total of its own reports the sum of its two counts.
pub proof fn law_total_is_the_sum(usage: Tree)
    requires
        usage_fits(Some(usage)),
        integer_of(member(usage, "total_tokens"@)) is None,
    ensures
        ({
            let converted = usage_tree(Some(usage));
            let prompt = integer_of(member(converted, "prompt_tokens"@));
            let completion = integer_of(member(converted, "completion_tokens"@));
            let total = integer_of(member(converted, "total_tokens"@));
            &&& prompt == Some(count_of(usage, "input_tokens"@))
            &&& completion == Some(count_of(usage, "output_tokens"@))
            &&& total is Some
            &&& total->0 == prompt->0 + completion->0
        }),
{
    reveal_strlit("prompt_tokens");
    reveal_strlit("completion_tokens");
    reveal_strlit("total_tokens");
    assert("prompt_tokens"@.len() == 13 && "completion_tokens"@.len() == 17
        && "total_tokens"@.len() == 12);
}

} // verus!
