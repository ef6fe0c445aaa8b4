//! What values stand for, and what the readers of JSON values answer.

use vstd::prelude::*;

use crate::json::{
    bool_of, index_num, integer_of, items_of, member, number_tree, string_of, trees, Json, Num,
    Tree,
};
use crate::llamacpp::error::{Failure, ServerError};
use crate::llamacpp::models::{
    listed_texts, ListedModel, ListingAnswer, ListingView, Poll, PollView, LOAD_TIMEOUT_SECS,
    POLL_INTERVAL_MILLIS, UNLOAD_TIMEOUT_SECS,
};
use crate::llamacpp::progress::{payload_views, LoadProgressPayload};
use crate::llamacpp::replies::{PostAnswer, PostView};
use crate::llamacpp::session::RouterInfo;
use crate::request::nested;
use crate::sse::{event_texts, SseEvent};
use crate::stream::{payload_trees, Payload, PayloadTree, StreamState};
use crate::text::texts;

verus! {

/// A member is found exactly where an object has it, and is the one that was put
/// there.
pub proof fn law_member(members: Map<Seq<char>, Tree>, tree: Tree, name: Seq<char>, value: Tree)
    ensures
        member(Tree::Object(members.insert(name, value)), name) == Some(value),
        member(Tree::Object(members.remove(name)), name) is None,
        member(tree, name) is Some <==> (tree matches Tree::Object(all) && all.dom().contains(name)),
        tree matches Tree::Object(all) ==> (all.dom().contains(name) ==> member(tree, name) == Some(
            all[name],
        )),
        nested(Some(tree), name) == member(tree, name),
        nested(None, name) is None,
{
}

/// The readers give back what a value of their kind holds, whatever it is, and
/// nothing of any other value.
pub proof fn law_readers(tree: Tree)
    ensures
        match tree {
            Tree::String(s) => string_of(Some(tree)) == Some(s),
            _ => string_of(Some(tree)) is None,
        },
        match tree {
            Tree::Array(items) => items_of(Some(tree)) == Some(items),
            _ => items_of(Some(tree)) is None,
        },
        match tree {
            Tree::Bool(b) => bool_of(Some(tree)) == Some(b),
            _ => bool_of(Some(tree)) is None,
        },
        match tree {
            Tree::Number(Num::Int(i)) => integer_of(Some(tree)) == Some(i),
            _ => integer_of(Some(tree)) is None,
        },
        string_of(None) is None,
        items_of(None) is None,
        bool_of(None) is None,
        integer_of(None) is None,
{
}

/// A value means what it holds.
pub proof fn law_views(json: Json, items: Seq<Json>, i: int)
    ensures
        match json {
            Json::Null => json@ == Tree::Null,
            Json::Bool(b) => json@ == Tree::Bool(b),
            Json::Number(n) => json@ == Tree::Number(number_tree(n)),
            Json::String(s) => json@ == Tree::String(s@),
            Json::Array(values) => json@ matches Tree::Array(all) && all.len() == values@.len()
                && forall|k: int| 0 <= k < values@.len() ==> #[trigger] all[k] == values@[k]@,
            Json::Object(object) => json@ == Tree::Object(object@),
        },
        trees(items).len() == items.len(),
        0 <= i < items.len() ==> trees(items)[i] == items[i]@,
{
}

/// A place that an `i64` can hold is that integer.
pub proof fn law_small_place(i: usize)
    requires
        i <= i64::MAX,
    ensures
        index_num(i) == Num::Int(i as i64),
{
}

/// The lists of results stand for their items, each in its place.
pub proof fn law_lists(
    strings: Seq<String>,
    events: Seq<SseEvent>,
    payloads: Seq<Payload>,
    reports: Seq<LoadProgressPayload>,
    models: Seq<ListedModel>,
    i: int,
)
    ensures
        texts(strings).len() == strings.len(),
        0 <= i < strings.len() ==> texts(strings)[i] == strings[i]@,
        event_texts(events).len() == events.len(),
        0 <= i < events.len() ==> event_texts(events)[i].event == events[i].event@
            && event_texts(events)[i].data == events[i].data@,
        payload_trees(payloads).len() == payloads.len(),
        0 <= i < payloads.len() ==> payload_trees(payloads)[i] == (match payloads[i] {
            Payload::Object(json) => PayloadTree::Object(json@),
            Payload::Done => PayloadTree::Done,
        }),
        payload_views(reports).len() == reports.len(),
        0 <= i < reports.len() ==> {
            let report = payload_views(reports)[i];
            &&& report.model == reports[i].model@
            &&& report.stage is Some <==> reports[i].stage is Some
            &&& reports[i].stage matches Some(stage) ==> report.stage == Some(stage@)
            &&& report.value == number_tree(reports[i].value)
        },
        listed_texts(models).len() == models.len(),
        0 <= i < models.len() ==> listed_texts(models)[i] == (models[i].id@, models[i].status@),
{
}

/// What a stream remembers is what its state holds.
pub proof fn law_memory_is_the_state(state: StreamState)
    ensures
        state@.id == state.id@,
        state@.model == state.model@,
        state@.created == state.created,
        state@.role_sent == state.role_sent,
        state@.saw_tool_call == state.saw_tool_call,
        state@.tool_index == state.tool_index@,
        state@.next_tool_index == state.next_tool_index,
        state@.finished == state.finished,
{
}

/// The errors and the answers stand for what they hold.
pub proof fn law_errors_and_answers(
    error: ServerError,
    poll: Poll,
    listing: ListingAnswer,
    post: PostAnswer,
    info: RouterInfo,
)
    ensures
        match error {
            ServerError::Llamacpp(e) => error@ matches Failure::Router { code, message, details } && {
                &&& code == e.code
                &&& message == e.message@
                &&& details is Some <==> e.details is Some
                &&& e.details matches Some(d) ==> details == Some(d@)
            },
            ServerError::InvalidArgument(m) => error@ == Failure::InvalidArgument(m@),
        },
        match poll {
            Poll::Done => poll@ == PollView::Done,
            Poll::Fail(e) => poll@ == PollView::Fail(e@),
            Poll::Wait => poll@ == PollView::Wait,
        },
        match listing {
            ListingAnswer::Unreachable(s) => listing@ == ListingView::Unreachable(s@),
            ListingAnswer::Invalid(s) => listing@ == ListingView::Invalid(s@),
            ListingAnswer::Models(json) => listing@ == ListingView::Models(json@),
        },
        match post {
            PostAnswer::Unreachable(s) => post@ == PostView::Unreachable(s@),
            PostAnswer::Rejected { status, body } => post@ == (PostView::Rejected {
                status: status@,
                body: body@,
            }),
            PostAnswer::Accepted => post@ == PostView::Accepted,
        },
        info@.port == info.port,
        info@.api_key == info.api_key@,
        info@.pid == info.pid,
{
}

/// A load may take ten minutes and an unload half a minute, and four looks at the
/// listing fall into a second.
pub proof fn law_times()
    ensures
        LOAD_TIMEOUT_SECS == 10 * 60,
        2 * UNLOAD_TIMEOUT_SECS == 60,
        4 * POLL_INTERVAL_MILLIS == 1000,
{
}

} // verus!
