//! What the answers of a router come to, and what becomes of its process.

use vstd::prelude::*;

use crate::json::{bool_of, integer_of, items_of, member, string_of, Tree};
use crate::llamacpp::api_key::{api_key_of, base64_of, hmac_sha256_of};
use crate::llamacpp::error::{ErrorCode, Failure};
use crate::llamacpp::models::{
    entry_of, first_with_id, held_models, load_step, loaded_ids, models_of, unload_step,
    ListingView, PollView,
};
use crate::llamacpp::replies::{
    body_of, error_event_of, load_request_failure, query_failure, unload_request_failure, url_of,
    PostView,
};
use crate::llamacpp::router::{
    after_graceful_stop, after_start, after_stop, during_stop, handle_view, kill_target,
    optional_handle, vacant, KillTarget, KillView, RouterHandle, SlotView,
};
use crate::llamacpp::session::{as_signed, is_session, Endpoint, SessionInfo};
use crate::llamacpp::slots::{is_processing, known_busy, some_slot_processing, SlotsAnswer};
use crate::request::nested;
use crate::text::{decimal_of, integer_text, occurs_in, same_ignoring_ascii_case};

verus! {

/// The failure of the router with that message and those details.
pub open spec fn router_failure(code: ErrorCode, message: Seq<char>, details: Seq<char>) -> Failure {
    Failure::Router { code, message, details: Some(details) }
}

/// The first of the models with that id stands at place `i`.
pub open spec fn is_first(models: Seq<Tree>, i: int, id: Seq<char>) -> bool {
    &&& 0 <= i < models.len()
    &&& string_of(member(models[i], "id"@)) == Some(id)
    &&& forall|j: int|
        0 <= j < i ==> string_of(member(#[trigger] models[j], "id"@)) != Some(id)
}

/// No model has the id.
pub open spec fn is_absent(models: Seq<Tree>, id: Seq<char>) -> bool {
    forall|j: int| 0 <= j < models.len() ==> string_of(member(#[trigger] models[j], "id"@)) != Some(id)
}

/// The models that a listing has under `data`.
pub open spec fn listed(listing: Tree) -> Seq<Tree> {
    match items_of(member(listing, "data"@)) {
        Some(models) => models,
        None => Seq::empty(),
    }
}

proof fn lemma_first(models: Seq<Tree>, i: int, id: Seq<char>)
    requires
        is_first(models, i, id),
    ensures
        first_with_id(models, id) == Some(models[i]),
    decreases models.len(),
{
    if i > 0 {
        assert(string_of(member(models[0], "id"@)) != Some(id));
        let rest = models.skip(1);
        assert forall|j: int| 0 <= j < i - 1 implies string_of(member(#[trigger] rest[j], "id"@))
            != Some(id) by {
            assert(rest[j] == models[j + 1]);
        }
        assert(rest[i - 1] == models[i]);
        lemma_first(rest, i - 1, id);
    }
}

proof fn lemma_absent(models: Seq<Tree>, id: Seq<char>)
    requires
        is_absent(models, id),
    ensures
        first_with_id(models, id) is None,
    decreases models.len(),
{
    if models.len() > 0 {
        assert(string_of(member(models[0], "id"@)) != Some(id));
        let rest = models.skip(1);
        assert forall|j: int| 0 <= j < rest.len() implies string_of(member(#[trigger] rest[j], "id"@))
            != Some(id) by {
            assert(rest[j] == models[j + 1]);
        }
        lemma_absent(rest, id);
    }
}

/// Time of whole seconds as it is shown.
pub open spec fn shown_seconds(seconds: u64) -> Seq<char> {
    if seconds == 0 {
        "0ns"@
    } else {
        decimal_of(seconds as nat) + "s"@
    }
}

/// What a wait comes to that nothing has decided: it goes on until its time is up.
pub open spec fn undecided(
    code: ErrorCode,
    id: Seq<char>,
    goal: Seq<char>,
    elapsed: u64,
    timeout: u64,
) -> PollView {
    if elapsed >= timeout {
        PollView::Fail(
            router_failure(
                code,
                "Timed out waiting for model "@ + id + goal,
                "waited "@ + shown_seconds(timeout),
            ),
        )
    } else {
        PollView::Wait
    }
}

/// How the first entry of a model decides the wait for its load: `loaded` ends it,
/// a rest after a failure fails it with the exit code, and anything else leaves it
/// to the time.
pub proof fn law_load_of_listed_model(
    listing: Tree,
    id: Seq<char>,
    i: int,
    elapsed: u64,
    timeout: u64,
)
    requires
        is_first(listed(listing), i, id),
    ensures
        ({
            let status = member(listed(listing)[i], "status"@);
            let value = string_of(nested(status, "value"@));
            let resting = value == Some("unloaded"@) || value == Some("sleeping"@);
            load_step(ListingView::Models(listing), id, elapsed, timeout) == (if value == Some(
                "loaded"@,
            ) {
                PollView::Done
            } else if resting && bool_of(nested(status, "failed"@)) == Some(true) {
                PollView::Fail(
                    router_failure(
                        ErrorCode::InternalError,
                        "Model "@ + id + " failed to load"@,
                        "exit_code="@ + (match integer_of(nested(status, "exit_code"@)) {
                            Some(code) => "Some("@ + integer_text(code as int) + ")"@,
                            None => "None"@,
                        }),
                    ),
                )
            } else {
                undecided(ErrorCode::ModelLoadTimedOut, id, " to load"@, elapsed, timeout)
            })
        }),
{
    lemma_first(models_of(listing), i, id);
}

/// How the first entry of a model decides the wait for its unload: as long as it is
/// `loaded` or `loading` the time decides, and else the wait is over.
pub proof fn law_unload_of_listed_model(
    listing: Tree,
    id: Seq<char>,
    i: int,
    elapsed: u64,
    timeout: u64,
)
    requires
        is_first(listed(listing), i, id),
    ensures
        ({
            let value = string_of(nested(member(listed(listing)[i], "status"@), "value"@));
            unload_step(ListingView::Models(listing), id, elapsed, timeout) == (if value == Some(
                "loaded"@,
            ) || value == Some("loading"@) {
                undecided(ErrorCode::InternalError, id, " to unload"@, elapsed, timeout)
            } else {
                PollView::Done
            })
        }),
{
    lemma_first(models_of(listing), i, id);
}

/// A model that is not listed is not loaded: the wait for its load is left to the
/// time, and the wait for its unload is over.
pub proof fn law_model_that_is_not_listed(
    listing: Tree,
    id: Seq<char>,
    elapsed: u64,
    timeout: u64,
)
    requires
        is_absent(listed(listing), id),
    ensures
        load_step(ListingView::Models(listing), id, elapsed, timeout) == undecided(
            ErrorCode::ModelLoadTimedOut,
            id,
            " to load"@,
            elapsed,
            timeout,
        ),
        unload_step(ListingView::Models(listing), id, elapsed, timeout) == PollView::Done,
{
    lemma_absent(models_of(listing), id);
    assert(entry_of(listing, id) is None);
}

/// A question for the listing that failed ends either wait with its reason.
pub proof fn law_failed_question(reason: Seq<char>, id: Seq<char>, elapsed: u64, timeout: u64)
    ensures
        load_step(ListingView::Unreachable(reason), id, elapsed, timeout) == PollView::Fail(
            router_failure(ErrorCode::InternalError, "Failed to poll router /models"@, reason),
        ),
        unload_step(ListingView::Unreachable(reason), id, elapsed, timeout) == PollView::Fail(
            router_failure(ErrorCode::InternalError, "Failed to poll router /models"@, reason),
        ),
        load_step(ListingView::Invalid(reason), id, elapsed, timeout) == PollView::Fail(
            router_failure(ErrorCode::InternalError, "Invalid JSON from /models"@, reason),
        ),
        unload_step(ListingView::Invalid(reason), id, elapsed, timeout) == PollView::Fail(
            router_failure(ErrorCode::InternalError, "Invalid JSON from /models"@, reason),
        ),
{
}

/// The loaded models of a joined listing are those of its parts, one after the
/// other, and so are the models that take up memory. One entry is loaded where its
/// status is `loaded` in any case, and takes up memory where its status is known
/// and not `unloaded` in any case; without an id it counts for nothing.
pub proof fn law_models_in_order(a: Seq<Tree>, b: Seq<Tree>, model: Tree)
    ensures
        loaded_ids(a + b) == loaded_ids(a) + loaded_ids(b),
        held_models(a + b) == held_models(a) + held_models(b),
        loaded_ids(Seq::empty()) == Seq::<Seq<char>>::empty(),
        held_models(Seq::empty()) == Seq::<(Seq<char>, Seq<char>)>::empty(),
        ({
            let id = string_of(member(model, "id"@));
            let status = string_of(nested(member(model, "status"@), "value"@));
            &&& loaded_ids(seq![model]) == (if id is Some && status is Some
                && same_ignoring_ascii_case(status->0, "loaded"@) {
                seq![id->0]
            } else {
                Seq::<Seq<char>>::empty()
            })
            &&& held_models(seq![model]) == (if id is Some && status is Some
                && !same_ignoring_ascii_case(status->0, "unloaded"@) {
                seq![(id->0, status->0)]
            } else {
                Seq::<(Seq<char>, Seq<char>)>::empty()
            })
        }),
    decreases b.len(),
{
    let one = seq![model];
    assert(one.drop_last() =~= Seq::<Tree>::empty());
    assert(one.last() == model);
    assert(loaded_ids(one.drop_last()) =~= Seq::<Seq<char>>::empty());
    assert(held_models(one.drop_last()) =~= Seq::<(Seq<char>, Seq<char>)>::empty());
    if b.len() == 0 {
        assert(a + b =~= a);
        assert(loaded_ids(a) + loaded_ids(b) =~= loaded_ids(a));
        assert(held_models(a) + held_models(b) =~= held_models(a));
    } else {
        assert((a + b).drop_last() =~= a + b.drop_last());
        law_models_in_order(a, b.drop_last(), model);
        assert(loaded_ids(a + b) =~= loaded_ids(a) + loaded_ids(b));
        assert(held_models(a + b) =~= held_models(a) + held_models(b));
    }
}

/// The models of a listing are the items under `data`; without an array there are
/// none.
pub proof fn law_models_of_listing(listing: Tree)
    ensures
        models_of(listing) == listed(listing),
{
}

/// What the answers to requests come to.
pub proof fn law_answers_to_requests(
    reason: Seq<char>,
    status: Seq<char>,
    body: Seq<char>,
    lowered: Seq<char>,
)
    ensures
        load_request_failure(PostView::Accepted, lowered) is None,
        load_request_failure(PostView::Unreachable(reason), lowered) == Some(
            router_failure(
                ErrorCode::InternalError,
                "Failed to call router /models/load"@,
                reason,
            ),
        ),
        load_request_failure(PostView::Rejected { status, body }, lowered) == (if occurs_in(
            "already"@,
            lowered,
        ) {
            None
        } else {
            Some(
                router_failure(
                    ErrorCode::InternalError,
                    "Router rejected model load (status "@ + status + ")"@,
                    body,
                ),
            )
        }),
        body_of(PostView::Rejected { status, body }) == body,
        unload_request_failure(PostView::Accepted) is None,
        unload_request_failure(PostView::Unreachable(reason)) == Some(
            "Failed to call /models/unload: "@ + reason,
        ),
        unload_request_failure(PostView::Rejected { status, body }) == Some(
            "Router rejected unload (status "@ + status + "): "@ + body,
        ),
        query_failure(ListingView::Unreachable(reason)) == Some(
            "Failed to query /models: "@ + reason,
        ),
        query_failure(ListingView::Invalid(reason)) == Some("Invalid JSON from /models: "@ + reason),
{
}

/// A listing is no failure of a question.
pub proof fn law_listing_is_no_failure(listing: Tree)
    ensures
        query_failure(ListingView::Models(listing)) is None,
{
}

/// A text occurs in another exactly where that is something, the text, and
/// something.
pub proof fn law_occurrence(part: Seq<char>, text: Seq<char>, before: Seq<char>, after: Seq<char>)
    ensures
        occurs_in(part, before + part + after),
        occurs_in(part, text) ==> exists|a: Seq<char>, b: Seq<char>|
            #![trigger a + part + b]
            text == a + part + b,
{
    let whole = before + part + after;
    let n = before.len() as int;
    assert(whole.subrange(n, n + part.len()) =~= part);
    if occurs_in(part, text) {
        let i = choose|i: int|
            0 <= i <= text.len() - part.len() && #[trigger] text.subrange(i, i + part.len()) == part;
        let a = text.take(i);
        let b = text.skip(i + part.len());
        assert(text =~= a + text.subrange(i, i + part.len()) + b);
        assert(text == a + part + b);
    }
}

/// Requests go to the port on this machine, and errors are told under the name of
/// their kind.
pub proof fn law_addresses(port: u16, path: Seq<char>, kind: Seq<char>)
    ensures
        url_of(port, path) == "http://127.0.0.1:"@ + decimal_of(port as nat) + path,
        kind == "oom"@ ==> error_event_of(kind) == "llamacpp-router-oom"@,
        kind != "oom"@ ==> error_event_of(kind) == "llamacpp-router-backend-error"@,
{
}

/// Slots are busy exactly where one of a listed array says `true`.
pub proof fn law_busy_slots(answer: SlotsAnswer, reply: Tree)
    ensures
        some_slot_processing(reply) <==> (items_of(Some(reply)) is Some && exists|i: int|
            0 <= i < items_of(Some(reply))->0.len() && bool_of(
                member(#[trigger] items_of(Some(reply))->0[i], "is_processing"@),
            ) == Some(true)),
        known_busy(answer) <==> (answer is Slots && some_slot_processing(answer->Slots_0@)),
{
    if some_slot_processing(reply) {
        let slots = items_of(Some(reply))->0;
        let i = choose|i: int|
            0 <= i < slots.len() && is_processing(#[trigger] slots[i]);
        assert(bool_of(member(items_of(Some(reply))->0[i], "is_processing"@)) == Some(true));
    }
    if items_of(Some(reply)) is Some && exists|i: int|
        0 <= i < items_of(Some(reply))->0.len() && bool_of(
            member(#[trigger] items_of(Some(reply))->0[i], "is_processing"@),
        ) == Some(true) {
        let slots = items_of(Some(reply))->0;
        let i = choose|i: int|
            0 <= i < slots.len() && bool_of(member(#[trigger] slots[i], "is_processing"@)) == Some(
                true,
            );
        assert(is_processing(slots[i]));
    }
}

/// A session has the process, the port and the key of the router, and the model
/// that was asked for; a process id beyond the signed range wraps round.
pub proof fn law_session_fields(
    session: SessionInfo,
    router: Endpoint,
    model_id: Seq<char>,
    is_embedding: bool,
)
    ensures
        is_session(session, router, model_id, is_embedding) <==> {
            &&& session.pid == as_signed(router.pid)
            &&& session.port == router.port
            &&& session.model_id@ == model_id
            &&& session.is_embedding == is_embedding
            &&& session.api_key@ == router.api_key
        },
        router.pid <= i32::MAX ==> as_signed(router.pid) == router.pid,
        router.pid > i32::MAX ==> as_signed(router.pid) == router.pid - 0x1_0000_0000,
{
}

/// The key of a model is the base64 of the HMAC-SHA256 of its id under the secret,
/// both in UTF-8.
pub proof fn law_api_key(model_id: Seq<char>, secret: Seq<char>)
    ensures
        api_key_of(model_id, secret) == base64_of(
            hmac_sha256_of(vstd::utf8::encode_utf8(secret), vstd::utf8::encode_utf8(model_id)),
        ),
{
}

/// What each step of the life cycle leaves known of the router.
pub proof fn law_steps_of_life_cycle<P>(slot: SlotView<P>, handle: (Endpoint, P))
    ensures
        vacant::<P>().router is None && vacant::<P>().pid == 0,
        after_start(handle).router == Some(handle) && after_start(handle).pid == handle.0.pid,
        slot.router is Some ==> after_stop(slot).router is None && after_stop(slot).pid == 0,
        slot.router is None ==> after_stop(slot) == slot,
        during_stop(slot).router is None && during_stop(slot).pid == slot.pid,
        after_graceful_stop(slot, None).router == slot.router && after_graceful_stop(slot, None).pid
            == 0,
        after_graceful_stop(slot, Some(handle)).router == Some(handle) && after_graceful_stop(
            slot,
            Some(handle),
        ).pid == slot.pid,
        slot.router matches Some(h) ==> kill_target(slot) == KillView::Tree(h.0, h.1),
        slot.router is None && slot.pid != 0 ==> kill_target(slot) == KillView::<P>::Pid(slot.pid),
        slot.router is None && slot.pid == 0 ==> kill_target(slot) == KillView::<P>::Nothing,
{
}

/// Handles and targets stand for the endpoint and the process that they hold.
pub proof fn law_handles<P>(handle: RouterHandle<P>, target: KillTarget<P>)
    ensures
        handle_view(handle) == (handle.info@, handle.process),
        optional_handle(Some(handle)) == Some((handle.info@, handle.process)),
        optional_handle(None::<RouterHandle<P>>) is None,
        match target {
            KillTarget::Tree(h) => target@ == KillView::Tree(h.info@, h.process),
            KillTarget::Pid(pid) => target@ == KillView::<P>::Pid(pid),
            KillTarget::Nothing => target@ == KillView::<P>::Nothing,
        },
{
}

} // verus!
