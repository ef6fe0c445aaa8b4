//! What a Responses request holds of the chat/completions request it was made
//! from, read member by member.

use vstd::prelude::*;

use crate::json::{items_of, member, string_of, Tree};
use crate::laws::conversion::{
    law_message_goes_to_one_side, law_messages_convert_in_order, law_request_member_by_member,
};
use crate::laws::texts::law_joined_parts;
use crate::request::{
    flat_tool, flat_tools, input_items, instructions, is_instruction, message_items,
    message_text_of, messages_of, nested, parts_text, request_members, role_of, tool_call_item,
};

verus! {

/// The request that a body becomes.
pub open spec fn request_of(body: Tree) -> Tree {
    Tree::Object(request_members(body))
}

/// The input items of the request that a body becomes.
pub open spec fn input_of(body: Tree) -> Seq<Tree> {
    items_of(member(request_of(body), "input"@))->0
}

/// The instructions of the request that a body becomes.
pub open spec fn instructions_of(body: Tree) -> Option<Seq<char>> {
    string_of(member(request_of(body), "instructions"@))
}

/// The value has the member with that content.
pub open spec fn holds(tree: Tree, name: Seq<char>, content: Tree) -> bool {
    member(tree, name) == Some(content)
}

/// The value has the member with the given content, or with the default where
/// there is none.
pub open spec fn holds_or(tree: Tree, name: Seq<char>, content: Option<Tree>, default: Tree) -> bool {
    match content {
        Some(c) => member(tree, name) == Some(c),
        None => member(tree, name) == Some(default),
    }
}

/// The value has no members but those.
pub open spec fn only(tree: Tree, names: Set<Seq<char>>) -> bool {
    tree is Object && forall|name: Seq<char>| #[trigger]
        member(tree, name) is Some ==> names.contains(name)
}

/// The strings under `text` of content parts, one after the other.
pub open spec fn strings_in(parts: Seq<Tree>) -> Seq<char> {
    parts.map_values(
        |part: Tree|
            match string_of(member(part, "text"@)) {
                Some(s) => s,
                None => Seq::<char>::empty(),
            },
    ).flatten()
}

/// The text of a content: the string that it is, or the strings in its parts.
pub open spec fn text_in(content: Option<Tree>) -> Seq<char> {
    match content {
        Some(Tree::String(s)) => s,
        Some(Tree::Array(parts)) => strings_in(parts),
        _ => Seq::empty(),
    }
}

/// The text of parts is all their strings, in order and character for character.
pub proof fn law_text_of_parts(parts: Seq<Tree>)
    ensures
        parts_text(parts) == strings_in(parts),
    decreases parts.len(),
{
    let piece = |part: Tree|
        match string_of(member(part, "text"@)) {
            Some(s) => s,
            None => Seq::<char>::empty(),
        };
    let pieces = parts.map_values(piece);
    if parts.len() == 0 {
        assert(pieces =~= Seq::<Seq<char>>::empty());
        assert(pieces.flatten() =~= Seq::<char>::empty());
    } else {
        let before = parts.drop_last();
        law_text_of_parts(before);
        assert(pieces =~= before.map_values(piece).push(piece(parts.last())));
        before.map_values(piece).lemma_flatten_push(piece(parts.last()));
        assert(parts_text(parts) =~= strings_in(parts));
    }
}

proof fn lemma_text_of_message(message: Tree)
    ensures
        message_text_of(message) == text_in(member(message, "content"@)),
{
    if let Some(Tree::Array(parts)) = member(message, "content"@) {
        law_text_of_parts(parts);
    }
}

/// The reasoning of a request is the effort of the body and asks for summaries;
/// without an effort that is a string there is none.
pub proof fn law_request_reasoning(body: Tree)
    ensures
        match string_of(member(body, "reasoning_effort"@)) {
            Some(effort) => match member(request_of(body), "reasoning"@) {
                Some(reasoning) => {
                    &&& holds(reasoning, "effort"@, Tree::String(effort))
                    &&& holds(reasoning, "summary"@, Tree::String("auto"@))
                    &&& only(reasoning, set!["effort"@, "summary"@])
                },
                None => false,
            },
            None => member(request_of(body), "reasoning"@) is None,
        },
{
    law_request_member_by_member(body);
    reveal_strlit("effort");
    reveal_strlit("summary");
    assert("effort"@.len() == 6 && "summary"@.len() == 7);
}

/// The tool that carries a function.
pub open spec fn carries_function(tool: Tree) -> bool {
    member(tool, "function"@) is Some
}

/// The entry is the function without its wrapper.
pub open spec fn is_flat(entry: Tree, function: Tree) -> bool {
    &&& holds(entry, "type"@, Tree::String("function"@))
    &&& holds_or(entry, "name"@, member(function, "name"@), Tree::Null)
    &&& holds_or(entry, "description"@, member(function, "description"@), Tree::Null)
    &&& holds_or(
        entry,
        "parameters"@,
        member(function, "parameters"@),
        Tree::Object(Map::empty()),
    )
    &&& only(entry, set!["type"@, "name"@, "description"@, "parameters"@])
}

proof fn lemma_flat_tool(function: Tree)
    ensures
        is_flat(flat_tool(function), function),
{
    reveal_strlit("type");
    reveal_strlit("name");
    reveal_strlit("description");
    reveal_strlit("parameters");
    assert("type"@.len() == 4 && "name"@.len() == 4 && "description"@.len() == 11
        && "parameters"@.len() == 10);
    assert("type"@[0] == 't' && "name"@[0] == 'n');
}

proof fn lemma_flat_tools(tools: Seq<Tree>)
    ensures
        ({
            let kept = tools.filter(|tool: Tree| carries_function(tool));
            &&& flat_tools(tools).len() == kept.len()
            &&& forall|i: int|
                0 <= i < kept.len() ==> is_flat(
                    #[trigger] flat_tools(tools)[i],
                    member(kept[i], "function"@)->0,
                )
        }),
    decreases tools.len(),
{
    reveal(Seq::filter);
    if tools.len() > 0 {
        lemma_flat_tools(tools.drop_last());
        if let Some(f) = member(tools.last(), "function"@) {
            lemma_flat_tool(f);
        }
    }
}

/// The tools of a request are those of the body that carry a function, all of
/// them, in order, each without its wrapper. There are tools exactly where the
/// body lists some.
pub proof fn law_request_tools(body: Tree)
    ensures
        match items_of(member(body, "tools"@)) {
            Some(tools) => match items_of(member(request_of(body), "tools"@)) {
                Some(entries) => {
                    let kept = tools.filter(|tool: Tree| carries_function(tool));
                    &&& entries.len() == kept.len()
                    &&& forall|i: int|
                        0 <= i < kept.len() ==> is_flat(
                            #[trigger] entries[i],
                            member(kept[i], "function"@)->0,
                        )
                },
                None => false,
            },
            None => member(request_of(body), "tools"@) is None,
        },
{
    law_request_member_by_member(body);
    if let Some(tools) = items_of(member(body, "tools"@)) {
        lemma_flat_tools(tools);
    }
}

/// Where every tool carries a function, the request has as many tools as the body,
/// and each has the name of the function in its place.
pub proof fn law_every_tool_is_kept(body: Tree, tools: Seq<Tree>)
    requires
        items_of(member(body, "tools"@)) == Some(tools),
        forall|i: int| 0 <= i < tools.len() ==> carries_function(#[trigger] tools[i]),
    ensures
        items_of(member(request_of(body), "tools"@)) is Some,
        items_of(member(request_of(body), "tools"@))->0.len() == tools.len(),
        forall|i: int|
            0 <= i < tools.len() ==> is_flat(
                #[trigger] items_of(member(request_of(body), "tools"@))->0[i],
                member(tools[i], "function"@)->0,
            ),
{
    law_request_tools(body);
    lemma_filter_keeps_all(tools);
}

proof fn lemma_filter_keeps_all(tools: Seq<Tree>)
    requires
        forall|i: int| 0 <= i < tools.len() ==> carries_function(#[trigger] tools[i]),
    ensures
        tools.filter(|tool: Tree| carries_function(tool)) == tools,
    decreases tools.len(),
{
    reveal(Seq::filter);
    if tools.len() > 0 {
        let before = tools.drop_last();
        assert(forall|i: int| 0 <= i < before.len() ==> #[trigger] before[i] == tools[i]);
        lemma_filter_keeps_all(before);
        assert(carries_function(tools[tools.len() - 1]));
        assert(before.push(tools.last()) =~= tools);
    }
}

/// The tools of a joined list are those of its parts, one after the other.
pub proof fn law_joined_tools(first: Tree, second: Tree, both: Tree, a: Seq<Tree>, b: Seq<Tree>)
    requires
        items_of(member(first, "tools"@)) == Some(a),
        items_of(member(second, "tools"@)) == Some(b),
        items_of(member(both, "tools"@)) == Some(a + b),
    ensures
        items_of(member(request_of(both), "tools"@)) == Some(
            items_of(member(request_of(first), "tools"@))->0 + items_of(
                member(request_of(second), "tools"@),
            )->0,
        ),
{
    law_request_member_by_member(first);
    law_request_member_by_member(second);
    law_request_member_by_member(both);
    lemma_joined_tools(a, b);
}

proof fn lemma_joined_tools(a: Seq<Tree>, b: Seq<Tree>)
    ensures
        flat_tools(a + b) == flat_tools(a) + flat_tools(b),
    decreases b.len(),
{
    if b.len() == 0 {
        assert(a + b =~= a);
        assert(flat_tools(a) + flat_tools(b) =~= flat_tools(a));
    } else {
        assert((a + b).drop_last() =~= a + b.drop_last());
        lemma_joined_tools(a, b.drop_last());
        assert(flat_tools(a + b) =~= flat_tools(a) + flat_tools(b));
    }
}

/// A request without messages has an empty input and no instructions.
pub proof fn law_no_messages(body: Tree)
    requires
        items_of(member(body, "messages"@)) matches Some(messages) ==> messages.len() == 0,
    ensures
        member(request_of(body), "input"@) == Some(Tree::Array(Seq::empty())),
        member(request_of(body), "instructions"@) is None,
{
    law_request_member_by_member(body);
    assert(input_items(messages_of(body)) =~= Seq::<Tree>::empty());
}

/// The input of a joined conversation is that of its parts, one after the other,
/// and its instructions are those of its parts with a blank line between.
pub proof fn law_joined_messages(first: Tree, second: Tree, both: Tree, a: Seq<Tree>, b: Seq<Tree>)
    requires
        items_of(member(first, "messages"@)) == Some(a),
        items_of(member(second, "messages"@)) == Some(b),
        items_of(member(both, "messages"@)) == Some(a + b),
    ensures
        input_of(both) == input_of(first) + input_of(second),
        instructions_of(both) == (match (instructions_of(first), instructions_of(second)) {
            (Some(x), Some(y)) => Some(x + "\n\n"@ + y),
            (Some(x), None) => Some(x),
            (None, y) => y,
        }),
{
    law_request_member_by_member(first);
    law_request_member_by_member(second);
    law_request_member_by_member(both);
    law_messages_convert_in_order(a, b);
    let x = instructions(a);
    let y = instructions(b);
    if x.len() == 0 {
        assert(x + y =~= y);
    } else if y.len() == 0 {
        assert(x + y =~= x);
    } else {
        law_joined_parts(x, y, "\n\n"@);
    }
}

/// The item is the result of a tool.
pub open spec fn is_tool_output(item: Tree, message: Tree) -> bool {
    &&& holds(item, "type"@, Tree::String("function_call_output"@))
    &&& holds_or(item, "call_id"@, member(message, "tool_call_id"@), Tree::Null)
    &&& holds(item, "output"@, Tree::String(text_in(member(message, "content"@))))
    &&& only(item, set!["type"@, "call_id"@, "output"@])
}

/// The item is the call of a tool.
pub open spec fn is_tool_call(item: Tree, call: Tree) -> bool {
    let function = member(call, "function"@);
    &&& holds(item, "type"@, Tree::String("function_call"@))
    &&& holds_or(item, "call_id"@, member(call, "id"@), Tree::Null)
    &&& holds_or(item, "name"@, nested(function, "name"@), Tree::Null)
    &&& holds_or(item, "arguments"@, nested(function, "arguments"@), Tree::String(Seq::empty()))
    &&& only(item, set!["type"@, "call_id"@, "name"@, "arguments"@])
}

/// The item is a text with a role.
pub open spec fn is_plain(item: Tree, role: Seq<char>, text: Seq<char>) -> bool {
    &&& holds(item, "role"@, Tree::String(role))
    &&& holds(item, "content"@, Tree::String(text))
    &&& only(item, set!["role"@, "content"@])
}

proof fn lemma_item_names_differ()
    ensures
        "type"@ != "call_id"@,
        "type"@ != "output"@,
        "type"@ != "name"@,
        "type"@ != "arguments"@,
        "call_id"@ != "output"@,
        "call_id"@ != "name"@,
        "call_id"@ != "arguments"@,
        "name"@ != "arguments"@,
        "role"@ != "content"@,
        "system"@ != "tool"@,
        "developer"@ != "tool"@,
        "system"@ != "assistant"@,
        "developer"@ != "assistant"@,
        "tool"@ != "assistant"@,
        "user"@ != "system"@,
        "user"@ != "developer"@,
        "user"@ != "tool"@,
        "user"@ != "assistant"@,
{
    reveal_strlit("type");
    reveal_strlit("call_id");
    reveal_strlit("output");
    reveal_strlit("name");
    reveal_strlit("arguments");
    reveal_strlit("role");
    reveal_strlit("content");
    reveal_strlit("system");
    reveal_strlit("developer");
    reveal_strlit("tool");
    reveal_strlit("assistant");
    reveal_strlit("user");
    assert("type"@.len() == 4 && "call_id"@.len() == 7 && "output"@.len() == 6 && "name"@.len()
        == 4 && "arguments"@.len() == 9 && "role"@.len() == 4 && "content"@.len() == 7
        && "system"@.len() == 6 && "developer"@.len() == 9 && "tool"@.len() == 4
        && "assistant"@.len() == 9 && "user"@.len() == 4);
    assert("type"@[0] == 't' && "name"@[0] == 'n' && "developer"@[0] == 'd' && "assistant"@[0]
        == 'a' && "tool"@[0] == 't' && "user"@[0] == 'u');
}

/// A system or developer message is all instructions and no input.
pub proof fn law_instruction_message(body: Tree, message: Tree)
    requires
        items_of(member(body, "messages"@)) == Some(seq![message]),
        string_of(member(message, "role"@)) == Some("system"@) || string_of(
            member(message, "role"@),
        ) == Some("developer"@),
    ensures
        instructions_of(body) == Some(text_in(member(message, "content"@))),
        input_of(body) == Seq::<Tree>::empty(),
{
    lemma_one_message(body, message);
    lemma_text_of_message(message);
}

proof fn lemma_one_message(body: Tree, message: Tree)
    requires
        items_of(member(body, "messages"@)) == Some(seq![message]),
    ensures
        input_of(body) == message_items(message),
        is_instruction(role_of(message)) ==> instructions_of(body)
            == Some(message_text_of(message)),
        !is_instruction(role_of(message)) ==> member(
            request_of(body),
            "instructions"@,
        ) is None,
{
    law_request_member_by_member(body);
    law_message_goes_to_one_side(message);
}

/// The result of a tool is one item with the id of the call and the text.
pub proof fn law_tool_message(body: Tree, message: Tree)
    requires
        items_of(member(body, "messages"@)) == Some(seq![message]),
        string_of(member(message, "role"@)) == Some("tool"@),
    ensures
        member(request_of(body), "instructions"@) is None,
        input_of(body).len() == 1,
        is_tool_output(input_of(body)[0], message),
{
    lemma_one_message(body, message);
    lemma_text_of_message(message);
    lemma_item_names_differ();
}

/// A message of the assistant with tool calls is its calls, in order, and then its
/// text, where it has any.
pub proof fn law_calling_message(body: Tree, message: Tree)
    requires
        items_of(member(body, "messages"@)) == Some(seq![message]),
        string_of(member(message, "role"@)) == Some("assistant"@),
        member(message, "tool_calls"@) is Some,
    ensures
        member(request_of(body), "instructions"@) is None,
        ({
            let calls = match items_of(member(message, "tool_calls"@)) {
                Some(cs) => cs,
                None => Seq::empty(),
            };
            let text = text_in(member(message, "content"@));
            let input = input_of(body);
            &&& input.len() == calls.len() + (if text.len() == 0 {
                0int
            } else {
                1int
            })
            &&& forall|i: int|
                0 <= i < calls.len() ==> is_tool_call(#[trigger] input[i], calls[i])
            &&& text.len() > 0 ==> is_plain(input.last(), "assistant"@, text)
        }),
{
    lemma_one_message(body, message);
    lemma_text_of_message(message);
    lemma_item_names_differ();
    if let Some(calls) = items_of(member(message, "tool_calls"@)) {
        assert forall|i: int| 0 <= i < calls.len() implies is_tool_call(
            #[trigger] input_of(body)[i],
            calls[i],
        ) by {
            assert(input_of(body)[i] == tool_call_item(calls[i]));
        }
    }
}

/// Any other message is one item with its role, which is that of the user where it
/// states none, and its text.
pub proof fn law_plain_message(body: Tree, message: Tree)
    requires
        items_of(member(body, "messages"@)) == Some(seq![message]),
        string_of(member(message, "role"@)) matches Some(role) ==> role != "system"@ && role
            != "developer"@ && role != "tool"@ && (role == "assistant"@ ==> member(
            message,
            "tool_calls"@,
        ) is None),
    ensures
        member(request_of(body), "instructions"@) is None,
        input_of(body).len() == 1,
        is_plain(
            input_of(body)[0],
            match string_of(member(message, "role"@)) {
                Some(role) => role,
                None => "user"@,
            },
            text_in(member(message, "content"@)),
        ),
{
    lemma_one_message(body, message);
    lemma_text_of_message(message);
    lemma_item_names_differ();
}

} // verus!
