//! What the model listing of a router says, and what follows from it while a
//! model is being loaded or unloaded.

use vstd::prelude::*;
use vstd::string::*;

use crate::json::{bool_of, integer_of, items_of, member, string_of, trees, Json, Tree};
use crate::llamacpp::error::{ErrorCode, Failure, LlamacppError, ServerError};
use crate::request::nested;
use crate::text::{
    ascii_lower, append2, append3, decimal, decimal_of, eq_ignore_ascii_case, integer_string, integer_text,
    same_ignoring_ascii_case, same_text, texts,
};

verus! {

/// What to do after a look at the listing.
pub enum Poll {
    /// The model is where it should be.
    Done,
    /// Waiting is of no use any more.
    Fail(ServerError),
    /// Look again later.
    Wait,
}

/// What to do after a look at the listing, as a mathematical value.
pub ghost enum PollView {
    Done,
    Fail(Failure),
    Wait,
}

impl View for Poll {
    type V = PollView;

    open spec fn view(&self) -> PollView {
        match *self {
            Poll::Done => PollView::Done,
            Poll::Fail(e) => PollView::Fail(e@),
            Poll::Wait => PollView::Wait,
        }
    }
}

/// How a question for the listing was answered.
pub enum ListingAnswer {
    /// No answer came, for the reason given.
    Unreachable(String),
    /// What came is not JSON, for the reason given.
    Invalid(String),
    /// The listing.
    Models(Json),
}

/// How a question for the listing was answered, as mathematical values.
pub ghost enum ListingView {
    Unreachable(Seq<char>),
    Invalid(Seq<char>),
    Models(Tree),
}

impl View for ListingAnswer {
    type V = ListingView;

    open spec fn view(&self) -> ListingView {
        match *self {
            ListingAnswer::Unreachable(reason) => ListingView::Unreachable(reason@),
            ListingAnswer::Invalid(reason) => ListingView::Invalid(reason@),
            ListingAnswer::Models(listing) => ListingView::Models(listing@),
        }
    }
}

/// How long a load may take.
pub const LOAD_TIMEOUT_SECS: u64 = 600;

/// How long an unload may take. A router gives its models ten seconds to stop,
/// so this leaves room.
pub const UNLOAD_TIMEOUT_SECS: u64 = 30;

/// How long to wait between two looks at the listing.
pub const POLL_INTERVAL_MILLIS: u64 = 250;

/// A model that the router holds, with its status.
pub struct ListedModel {
    pub id: String,
    pub status: String,
}

/// The models of a listing; none where `data` is not an array.
pub open spec fn models_of(listing: Tree) -> Seq<Tree> {
    match items_of(member(listing, "data"@)) {
        Some(models) => models,
        None => Seq::empty(),
    }
}

/// The id of a listed model, where it has one.
pub open spec fn id_of(model: Tree) -> Option<Seq<char>> {
    string_of(member(model, "id"@))
}

/// The status of a listed model, where it states one.
pub open spec fn status_of(model: Tree) -> Option<Seq<char>> {
    string_of(nested(member(model, "status"@), "value"@))
}

/// The first of the models that has the id.
pub open spec fn first_with_id(models: Seq<Tree>, id: Seq<char>) -> Option<Tree>
    decreases models.len(),
{
    if models.len() == 0 {
        None
    } else if id_of(models[0]) == Some(id) {
        Some(models[0])
    } else {
        first_with_id(models.skip(1), id)
    }
}

/// The entry of a model in a listing.
pub open spec fn entry_of(listing: Tree, id: Seq<char>) -> Option<Tree> {
    first_with_id(models_of(listing), id)
}

/// The status that a listing states of a model.
pub open spec fn listed_status(listing: Tree, id: Seq<char>) -> Option<Seq<char>> {
    match entry_of(listing, id) {
        Some(model) => status_of(model),
        None => None,
    }
}

/// The model is loaded.
pub open spec fn is_loaded(listing: Tree, id: Seq<char>) -> bool {
    listed_status(listing, id) == Some("loaded"@)
}

/// The model is on its way to be loaded.
pub open spec fn is_loading(listing: Tree, id: Seq<char>) -> bool {
    listed_status(listing, id) == Some("loading"@)
}

/// The model went back to rest because its load failed.
pub open spec fn load_failed(listing: Tree, id: Seq<char>) -> bool {
    &&& listed_status(listing, id) == Some("unloaded"@) || listed_status(listing, id) == Some(
        "sleeping"@,
    )
    &&& bool_of(nested(member(entry_of(listing, id)->0, "status"@), "failed"@)) == Some(true)
}

/// The exit code that a listing states of a model whose load failed.
pub open spec fn exit_code_of(listing: Tree, id: Seq<char>) -> Option<i64> {
    integer_of(nested(member(entry_of(listing, id)->0, "status"@), "exit_code"@))
}

/// An optional integer in the notation of debug output.
pub open spec fn optional_integer_text(i: Option<i64>) -> Seq<char> {
    match i {
        Some(n) => "Some("@ + integer_text(n as int) + ")"@,
        None => "None"@,
    }
}

/// A time of whole seconds in the notation of debug output.
pub open spec fn seconds_text(seconds: u64) -> Seq<char> {
    if seconds == 0 {
        "0ns"@
    } else {
        decimal_of(seconds as nat) + "s"@
    }
}

/// The failure of a load.
pub open spec fn load_failure(id: Seq<char>, exit_code: Option<i64>) -> Failure {
    Failure::Router {
        code: ErrorCode::InternalError,
        message: "Model "@ + id + " failed to load"@,
        details: Some("exit_code="@ + optional_integer_text(exit_code)),
    }
}

/// The failure of a wait that took too long.
pub open spec fn timeout_failure(
    code: ErrorCode,
    id: Seq<char>,
    goal: Seq<char>,
    seconds: u64,
) -> Failure {
    Failure::Router {
        code,
        message: "Timed out waiting for model "@ + id + goal,
        details: Some("waited "@ + seconds_text(seconds)),
    }
}

/// What to do while a model is being loaded: a listing decides before the time
/// does.
pub open spec fn load_verdict(
    listing: Tree,
    id: Seq<char>,
    elapsed_secs: u64,
    timeout_secs: u64,
) -> PollView {
    if is_loaded(listing, id) {
        PollView::Done
    } else if load_failed(listing, id) {
        PollView::Fail(load_failure(id, exit_code_of(listing, id)))
    } else if elapsed_secs >= timeout_secs {
        PollView::Fail(
            timeout_failure(ErrorCode::ModelLoadTimedOut, id, " to load"@, timeout_secs),
        )
    } else {
        PollView::Wait
    }
}

/// What to do while a model is being unloaded. A model that is not listed, or
/// whose status is not known, counts as unloaded.
pub open spec fn unload_verdict(
    listing: Tree,
    id: Seq<char>,
    elapsed_secs: u64,
    timeout_secs: u64,
) -> PollView {
    if !is_loaded(listing, id) && !is_loading(listing, id) {
        PollView::Done
    } else if elapsed_secs >= timeout_secs {
        PollView::Fail(timeout_failure(ErrorCode::InternalError, id, " to unload"@, timeout_secs))
    } else {
        PollView::Wait
    }
}

/// The failure of a question for the listing.
pub open spec fn listing_failure(answer: ListingView) -> Option<Failure> {
    match answer {
        ListingView::Unreachable(reason) => Some(
            Failure::Router {
                code: ErrorCode::InternalError,
                message: "Failed to poll router /models"@,
                details: Some(reason),
            },
        ),
        ListingView::Invalid(reason) => Some(
            Failure::Router {
                code: ErrorCode::InternalError,
                message: "Invalid JSON from /models"@,
                details: Some(reason),
            },
        ),
        ListingView::Models(_) => None,
    }
}

/// What to do after an answer while a model is being loaded.
pub open spec fn load_step(
    answer: ListingView,
    id: Seq<char>,
    elapsed_secs: u64,
    timeout_secs: u64,
) -> PollView {
    match answer {
        ListingView::Models(listing) => load_verdict(listing, id, elapsed_secs, timeout_secs),
        _ => PollView::Fail(listing_failure(answer)->0),
    }
}

/// What to do after an answer while a model is being unloaded.
pub open spec fn unload_step(
    answer: ListingView,
    id: Seq<char>,
    elapsed_secs: u64,
    timeout_secs: u64,
) -> PollView {
    match answer {
        ListingView::Models(listing) => unload_verdict(listing, id, elapsed_secs, timeout_secs),
        _ => PollView::Fail(listing_failure(answer)->0),
    }
}

/// The ids of the models whose status is `loaded`, in any case, in order.
pub open spec fn loaded_ids(models: Seq<Tree>) -> Seq<Seq<char>>
    decreases models.len(),
{
    if models.len() == 0 {
        Seq::empty()
    } else {
        let before = loaded_ids(models.drop_last());
        match (id_of(models.last()), status_of(models.last())) {
            (Some(id), Some(status)) => if same_ignoring_ascii_case(status, "loaded"@) {
                before.push(id)
            } else {
                before
            },
            _ => before,
        }
    }
}

/// The models that take up memory, in order, each as its id and its status: all
/// but those whose status is `unloaded`, in any case, or not stated.
pub open spec fn held_models(models: Seq<Tree>) -> Seq<(Seq<char>, Seq<char>)>
    decreases models.len(),
{
    if models.len() == 0 {
        Seq::empty()
    } else {
        let before = held_models(models.drop_last());
        match (id_of(models.last()), status_of(models.last())) {
            (Some(id), Some(status)) => if same_ignoring_ascii_case(status, "unloaded"@) {
                before
            } else {
                before.push((id, status))
            },
            _ => before,
        }
    }
}

/// Listed models as pairs of texts.
pub open spec fn listed_texts(models: Seq<ListedModel>) -> Seq<(Seq<char>, Seq<char>)> {
    models.map_values(|m: ListedModel| (m.id@, m.status@))
}

/// The models of a listing.
fn listed_models(listing: &Json) -> (r: Option<&Vec<Json>>)
    ensures
        match r {
            Some(models) => trees(models@) == models_of(listing@),
            None => models_of(listing@) == Seq::<Tree>::empty(),
        },
{
    match listing.get("data") {
        Some(data) => data.as_array(),
        None => None,
    }
}

/// The id of a listed model.
fn model_id_of(model: &Json) -> (r: Option<&str>)
    ensures
        match r {
            Some(id) => id_of(model@) == Some(id@),
            None => id_of(model@) is None,
        },
{
    match model.get("id") {
        Some(id) => id.as_str(),
        None => None,
    }
}

/// The status of a listed model.
fn model_status_of(model: &Json) -> (r: Option<&str>)
    ensures
        match r {
            Some(status) => status_of(model@) == Some(status@),
            None => status_of(model@) is None,
        },
{
    match model.get("status") {
        Some(status) => match status.get("value") {
            Some(value) => value.as_str(),
            None => None,
        },
        None => None,
    }
}

/// The entry of a model in a listing.
fn find_entry<'a>(listing: &'a Json, model_id: &str) -> (r: Option<&'a Json>)
    ensures
        match r {
            Some(entry) => entry_of(listing@, model_id@) == Some(entry@),
            None => entry_of(listing@, model_id@) is None,
        },
{
    if let Some(models) = listed_models(listing) {
        let ghost all = trees(models@);
        let mut i: usize = 0;
        assert(all.skip(0) =~= all);
        while i < models.len()
            invariant
                i <= models.len(),
                all == trees(models@),
                first_with_id(all.skip(i as int), model_id@) == first_with_id(all, model_id@),
                all == models_of(listing@),
            decreases models.len() - i,
        {
            proof {
                assert(all.skip(i as int)[0] == models@[i as int]@);
                assert(all.skip(i as int).skip(1) =~= all.skip(i + 1));
            }
            if let Some(id) = model_id_of(&models[i]) {
                if same_text(id, model_id) {
                    return Some(&models[i]);
                }
            }
            i += 1;
        }
    }
    None
}

/// An optional integer in the notation of debug output.
fn optional_integer_string(i: Option<i64>) -> (r: String)
    ensures
        r@ == optional_integer_text(i),
{
    match i {
        Some(n) => append3("Some(", integer_string(n).as_str(), ")"),
        None => "None".to_owned(),
    }
}

/// A time of whole seconds in the notation of debug output.
fn seconds_string(seconds: u64) -> (r: String)
    ensures
        r@ == seconds_text(seconds),
{
    if seconds == 0 {
        "0ns".to_owned()
    } else {
        append2(decimal(seconds).as_str(), "s")
    }
}

/// The failure of a wait that took too long.
fn timeout_error(code: ErrorCode, model_id: &str, goal: &str, seconds: u64) -> (r: ServerError)
    ensures
        r@ == timeout_failure(code, model_id@, goal@, seconds),
{
    ServerError::Llamacpp(
        LlamacppError::new(
            code,
            append3("Timed out waiting for model ", model_id, goal),
            Some(append2("waited ", seconds_string(seconds).as_str())),
        ),
    )
}

/// A truth value under the status of an entry.
fn status_flag(entry: &Json, name: &str) -> (r: Option<bool>)
    ensures
        r == bool_of(nested(member(entry@, "status"@), name@)),
{
    match entry.get("status") {
        Some(status) => match status.get(name) {
            Some(flag) => flag.as_bool(),
            None => None,
        },
        None => None,
    }
}

/// An integer under the status of an entry.
fn status_integer(entry: &Json, name: &str) -> (r: Option<i64>)
    ensures
        r == integer_of(nested(member(entry@, "status"@), name@)),
{
    match entry.get("status") {
        Some(status) => match status.get(name) {
            Some(n) => n.as_i64(),
            None => None,
        },
        None => None,
    }
}

/// A failure of a question for the listing.
fn listing_error(message: &str, reason: &str) -> (r: ServerError)
    ensures
        r@ == (Failure::Router {
            code: ErrorCode::InternalError,
            message: message@,
            details: Some(reason@),
        }),
{
    ServerError::Llamacpp(
        LlamacppError::new(ErrorCode::InternalError, message.to_owned(), Some(reason.to_owned())),
    )
}

/// What to do while a model is being loaded.
pub fn poll_load(
    answer: &ListingAnswer,
    model_id: &str,
    elapsed_secs: u64,
    timeout_secs: u64,
) -> (r: Poll)
    ensures
        r@ == load_step(answer@, model_id@, elapsed_secs, timeout_secs),
{
    match answer {
        ListingAnswer::Unreachable(reason) => Poll::Fail(
            listing_error("Failed to poll router /models", reason.as_str()),
        ),
        ListingAnswer::Invalid(reason) => Poll::Fail(
            listing_error("Invalid JSON from /models", reason.as_str()),
        ),
        ListingAnswer::Models(listing) => judge_load(listing, model_id, elapsed_secs, timeout_secs),
    }
}

/// What to do while a model is being unloaded.
pub fn poll_unload(
    answer: &ListingAnswer,
    model_id: &str,
    elapsed_secs: u64,
    timeout_secs: u64,
) -> (r: Poll)
    ensures
        r@ == unload_step(answer@, model_id@, elapsed_secs, timeout_secs),
{
    match answer {
        ListingAnswer::Unreachable(reason) => Poll::Fail(
            listing_error("Failed to poll router /models", reason.as_str()),
        ),
        ListingAnswer::Invalid(reason) => Poll::Fail(
            listing_error("Invalid JSON from /models", reason.as_str()),
        ),
        ListingAnswer::Models(listing) => judge_unload(
            listing,
            model_id,
            elapsed_secs,
            timeout_secs,
        ),
    }
}

/// What a listing says while a model is being loaded.
fn judge_load(listing: &Json, model_id: &str, elapsed_secs: u64, timeout_secs: u64) -> (r: Poll)
    ensures
        r@ == load_verdict(listing@, model_id@, elapsed_secs, timeout_secs),
{
    proof {
        reveal_strlit("loaded");
        reveal_strlit("unloaded");
        reveal_strlit("sleeping");
        assert("loaded"@.len() != "unloaded"@.len());
        assert("loaded"@.len() != "sleeping"@.len());
    }
    if let Some(entry) = find_entry(listing, model_id) {
        if let Some(status) = model_status_of(entry) {
            if same_text(status, "loaded") {
                return Poll::Done;
            }
            if same_text(status, "unloaded") || same_text(status, "sleeping") {
                if let Some(true) = status_flag(entry, "failed") {
                    let exit_code = status_integer(entry, "exit_code");
                    return Poll::Fail(
                        ServerError::Llamacpp(
                            LlamacppError::new(
                                ErrorCode::InternalError,
                                append3("Model ", model_id, " failed to load"),
                                Some(
                                    append2(
                                        "exit_code=",
                                        optional_integer_string(exit_code).as_str(),
                                    ),
                                ),
                            ),
                        ),
                    );
                }
            }
        }
    }
    if elapsed_secs >= timeout_secs {
        return Poll::Fail(
            timeout_error(ErrorCode::ModelLoadTimedOut, model_id, " to load", timeout_secs),
        );
    }
    Poll::Wait
}

/// What a listing says while a model is being unloaded.
fn judge_unload(listing: &Json, model_id: &str, elapsed_secs: u64, timeout_secs: u64) -> (r: Poll)
    ensures
        r@ == unload_verdict(listing@, model_id@, elapsed_secs, timeout_secs),
{
    let still_loaded = match find_entry(listing, model_id) {
        Some(entry) => match model_status_of(entry) {
            Some(status) => same_text(status, "loaded") || same_text(status, "loading"),
            None => false,
        },
        None => false,
    };
    if !still_loaded {
        return Poll::Done;
    }
    if elapsed_secs >= timeout_secs {
        return Poll::Fail(
            timeout_error(ErrorCode::InternalError, model_id, " to unload", timeout_secs),
        );
    }
    Poll::Wait
}

/// The ids of the models that the router has loaded.
pub fn loaded_model_ids(listing: &Json) -> (r: Vec<String>)
    ensures
        texts(r@) == loaded_ids(models_of(listing@)),
{
    let mut r: Vec<String> = Vec::new();
    assert(texts(r@) =~= Seq::empty());
    if let Some(models) = listed_models(listing) {
        let ghost all = trees(models@);
        let mut i: usize = 0;
        while i < models.len()
            invariant
                i <= models.len(),
                all == trees(models@),
                texts(r@) == loaded_ids(all.take(i as int)),
            decreases models.len() - i,
        {
            let ghost before = r@;
            proof {
                assert(all.take(i + 1).drop_last() =~= all.take(i as int));
                assert(all.take(i + 1).last() == models@[i as int]@);
            }
            if let Some(id) = model_id_of(&models[i]) {
                if let Some(status) = model_status_of(&models[i]) {
                    if eq_ignore_ascii_case(status, "loaded") {
                        r.push(id.to_owned());
                        assert(texts(r@) =~= texts(before).push(id@));
                    }
                }
            }
            i += 1;
        }
        assert(all.take(i as int) =~= all);
    }
    r
}

/// The models that take up memory, to be unloaded when the router runs short of
/// it.
pub fn busy_models(listing: &Json) -> (r: Vec<ListedModel>)
    ensures
        listed_texts(r@) == held_models(models_of(listing@)),
{
    let mut r: Vec<ListedModel> = Vec::new();
    assert(listed_texts(r@) =~= Seq::empty());
    if let Some(models) = listed_models(listing) {
        let ghost all = trees(models@);
        let mut i: usize = 0;
        while i < models.len()
            invariant
                i <= models.len(),
                all == trees(models@),
                listed_texts(r@) == held_models(all.take(i as int)),
            decreases models.len() - i,
        {
            let ghost before = r@;
            proof {
                assert(all.take(i + 1).drop_last() =~= all.take(i as int));
                assert(all.take(i + 1).last() == models@[i as int]@);
            }
            if let Some(id) = model_id_of(&models[i]) {
                if let Some(status) = model_status_of(&models[i]) {
                    if !eq_ignore_ascii_case(status, "unloaded") {
                        r.push(ListedModel { id: id.to_owned(), status: status.to_owned() });
                        assert(listed_texts(r@) =~= listed_texts(before).push((id@, status@)));
                    }
                }
            }
            i += 1;
        }
        assert(all.take(i as int) =~= all);
    }
    r
}

/// The time never overrides the listing: a model that is listed as loaded ends
/// the wait for its load, and one that is not listed as loaded or loading ends
/// the wait for its unload, however late it is.
pub proof fn law_listing_decides_before_time(
    listing: Tree,
    id: Seq<char>,
    elapsed_secs: u64,
    timeout_secs: u64,
)
    ensures
        is_loaded(listing, id) ==> load_step(
            ListingView::Models(listing),
            id,
            elapsed_secs,
            timeout_secs,
        ) == PollView::Done,
        !is_loaded(listing, id) && !is_loading(listing, id) ==> unload_step(
            ListingView::Models(listing),
            id,
            elapsed_secs,
            timeout_secs,
        ) == PollView::Done,
{
}

/// No wait outlives its time: once it is up, every answer ends the wait.
pub proof fn law_no_wait_after_the_timeout(
    answer: ListingView,
    id: Seq<char>,
    elapsed_secs: u64,
    timeout_secs: u64,
)
    requires
        elapsed_secs >= timeout_secs,
    ensures
        load_step(answer, id, elapsed_secs, timeout_secs) != PollView::Wait,
        unload_step(answer, id, elapsed_secs, timeout_secs) != PollView::Wait,
{
}

/// No listing ends both the wait for a load and the wait for an unload of the
/// same model with success.
pub proof fn law_not_loaded_and_unloaded_at_once(
    answer: ListingView,
    id: Seq<char>,
    elapsed_secs: u64,
    timeout_secs: u64,
)
    ensures
        !(load_step(answer, id, elapsed_secs, timeout_secs) == PollView::Done && unload_step(
            answer,
            id,
            elapsed_secs,
            timeout_secs,
        ) == PollView::Done),
{
}

proof fn lemma_loaded_ids_contains(models: Seq<Tree>, i: int, id: Seq<char>)
    requires
        0 <= i < models.len(),
        id_of(models[i]) == Some(id),
        status_of(models[i]) matches Some(status) && same_ignoring_ascii_case(status, "loaded"@),
    ensures
        loaded_ids(models).contains(id),
    decreases models.len(),
{
    let before = loaded_ids(models.drop_last());
    if i == models.len() - 1 {
        assert(loaded_ids(models) == before.push(id));
        assert(before.push(id)[before.len() as int] == id);
    } else {
        lemma_loaded_ids_contains(models.drop_last(), i, id);
        let k = choose|k: int| 0 <= k < before.len() && before[k] == id;
        assert(loaded_ids(models)[k] == id);
    }
}

proof fn lemma_first_with_id(models: Seq<Tree>, id: Seq<char>) -> (i: int)
    requires
        first_with_id(models, id) is Some,
    ensures
        0 <= i < models.len(),
        first_with_id(models, id) == Some(models[i]),
        id_of(models[i]) == Some(id),
    decreases models.len(),
{
    if id_of(models[0]) == Some(id) {
        0
    } else {
        let i = lemma_first_with_id(models.skip(1), id);
        assert(models.skip(1)[i] == models[i + 1]);
        i + 1
    }
}

/// A model whose load is done is among the loaded models of the same listing.
pub proof fn law_loaded_model_is_listed(
    listing: Tree,
    id: Seq<char>,
    elapsed_secs: u64,
    timeout_secs: u64,
)
    requires
        load_step(ListingView::Models(listing), id, elapsed_secs, timeout_secs) == PollView::Done,
    ensures
        loaded_ids(models_of(listing)).contains(id),
{
    let models = models_of(listing);
    let i = lemma_first_with_id(models, id);
    lemma_loaded_ids_contains(models, i, id);
}

/// Every loaded model is among those that take up memory.
pub proof fn law_loaded_models_are_held(models: Seq<Tree>, id: Seq<char>)
    requires
        loaded_ids(models).contains(id),
    ensures
        exists|i: int| 0 <= i < held_models(models).len() && (#[trigger] held_models(models)[i]).0 == id,
    decreases models.len(),
{
    let loaded = loaded_ids(models);
    let loaded_before = loaded_ids(models.drop_last());
    let held_before = held_models(models.drop_last());
    let k = choose|k: int| 0 <= k < loaded.len() && loaded[k] == id;
    if k < loaded_before.len() {
        assert(loaded_before[k] == id);
        law_loaded_models_are_held(models.drop_last(), id);
        let i = choose|i: int| 0 <= i < held_before.len() && (#[trigger] held_before[i]).0 == id;
        assert(held_models(models)[i].0 == id);
    } else {
        let status = status_of(models.last())->0;
        reveal_strlit("loaded");
        reveal_strlit("unloaded");
        assert(status.map_values(|c: char| ascii_lower(c)).len() == "loaded"@.map_values(
            |c: char| ascii_lower(c),
        ).len());
        assert("unloaded"@.map_values(|c: char| ascii_lower(c)).len() == 8);
        assert(held_models(models)[held_before.len() as int].0 == id);
    }
}

} // verus!
