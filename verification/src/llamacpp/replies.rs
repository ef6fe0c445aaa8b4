//! How the answers of a router to a request are read, and where requests go.

use vstd::prelude::*;
use vstd::string::*;
use vstd::utf8::is_ascii_chars;

use crate::llamacpp::error::{ErrorCode, Failure, LlamacppError, ServerError, ServerResult};
use crate::llamacpp::models::{
    busy_models, held_models, listed_texts, loaded_ids, loaded_model_ids, models_of, ListedModel,
    ListingAnswer, ListingView,
};
use crate::text::{
    append2, append3, ascii_lower, contains, decimal, decimal_of, occurs_in, same_text, texts,
};

verus! {

/// The text that `str::to_lowercase` gives for a text.
pub uninterp spec fn lowercase_of(text: Seq<char>) -> Seq<char>;

/// `str::to_lowercase`: the text in lower case, by the rules of Unicode. Of a text
/// in ASCII it is the text with each letter in lower case. What the rules make of
/// other text is left unsaid.
#[verifier::external_body]
fn to_lowercase(text: &str) -> (r: String)
    ensures
        r@ == lowercase_of(text@),
        is_ascii_chars(text@) ==> r@ == lowered_ascii(text@),
{
    text.to_lowercase()
}

/// A text with its ASCII letters in lower case.
pub open spec fn lowered_ascii(text: Seq<char>) -> Seq<char> {
    text.map_values(|c: char| ascii_lower(c))
}

/// How a request to do something was answered.
pub enum PostAnswer {
    /// No answer came, for the reason given.
    Unreachable(String),
    /// The router answered with a status that is not a success, and a body.
    Rejected { status: String, body: String },
    /// The router answered with a success.
    Accepted,
}

/// How a request to do something was answered, as mathematical values.
pub ghost enum PostView {
    Unreachable(Seq<char>),
    Rejected { status: Seq<char>, body: Seq<char> },
    Accepted,
}

impl View for PostAnswer {
    type V = PostView;

    open spec fn view(&self) -> PostView {
        match *self {
            PostAnswer::Unreachable(reason) => PostView::Unreachable(reason@),
            PostAnswer::Rejected { status, body } => PostView::Rejected {
                status: status@,
                body: body@,
            },
            PostAnswer::Accepted => PostView::Accepted,
        }
    }
}

/// The address of a path on the router that listens on a port of this machine.
pub open spec fn url_of(port: u16, path: Seq<char>) -> Seq<char> {
    "http://127.0.0.1:"@ + decimal_of(port as nat) + path
}

/// The body of a rejection says that the model is loaded already, or being
/// loaded: its text in lower case has the word.
pub open spec fn says_already(lowered: Seq<char>) -> bool {
    occurs_in("already"@, lowered)
}

/// The failure of a request to load a model, where it failed. `lowered` is the
/// body of the answer in lower case. A rejection that says that the model is
/// loaded already is no failure.
pub open spec fn load_request_failure(answer: PostView, lowered: Seq<char>) -> Option<Failure> {
    match answer {
        PostView::Accepted => None,
        PostView::Unreachable(reason) => Some(
            Failure::Router {
                code: ErrorCode::InternalError,
                message: "Failed to call router /models/load"@,
                details: Some(reason),
            },
        ),
        PostView::Rejected { status, body } => if says_already(lowered) {
            None
        } else {
            Some(
                Failure::Router {
                    code: ErrorCode::InternalError,
                    message: "Router rejected model load (status "@ + status + ")"@,
                    details: Some(body),
                },
            )
        },
    }
}

/// The body of an answer; nothing where it has none.
pub open spec fn body_of(answer: PostView) -> Seq<char> {
    match answer {
        PostView::Rejected { status: _, body } => body,
        _ => Seq::empty(),
    }
}

/// What is wrong with the answer to a request to unload a model.
pub open spec fn unload_request_failure(answer: PostView) -> Option<Seq<char>> {
    match answer {
        PostView::Accepted => None,
        PostView::Unreachable(reason) => Some("Failed to call /models/unload: "@ + reason),
        PostView::Rejected { status, body } => Some(
            "Router rejected unload (status "@ + status + "): "@ + body,
        ),
    }
}

/// What is wrong with the answer to a question for the loaded models.
pub open spec fn query_failure(answer: ListingView) -> Option<Seq<char>> {
    match answer {
        ListingView::Unreachable(reason) => Some("Failed to query /models: "@ + reason),
        ListingView::Invalid(reason) => Some("Invalid JSON from /models: "@ + reason),
        ListingView::Models(_) => None,
    }
}

/// The name of the event that tells of an error of the router.
pub open spec fn error_event_of(kind: Seq<char>) -> Seq<char> {
    if kind == "oom"@ {
        "llamacpp-router-oom"@
    } else {
        "llamacpp-router-backend-error"@
    }
}

/// The address of a path on the router.
pub fn endpoint_url(port: u16, path: &str) -> (r: String)
    ensures
        r@ == url_of(port, path@),
{
    append3("http://127.0.0.1:", decimal(port as u64).as_str(), path)
}

/// Whether a request to load a model was taken, given the body of the answer in
/// lower case.
pub fn judge_load_answer(answer: &PostAnswer, lowered: &str) -> (r: ServerResult<()>)
    ensures
        match r {
            Ok(_) => load_request_failure(answer@, lowered@) is None,
            Err(e) => load_request_failure(answer@, lowered@) == Some(e@),
        },
{
    match answer {
        PostAnswer::Accepted => Ok(()),
        PostAnswer::Unreachable(reason) => Err(
            ServerError::Llamacpp(
                LlamacppError::new(
                    ErrorCode::InternalError,
                    "Failed to call router /models/load".to_owned(),
                    Some(reason.as_str().to_owned()),
                ),
            ),
        ),
        PostAnswer::Rejected { status, body } => {
            if contains(lowered, "already") {
                return Ok(());
            }
            Err(
                ServerError::Llamacpp(
                    LlamacppError::new(
                        ErrorCode::InternalError,
                        append3("Router rejected model load (status ", status.as_str(), ")"),
                        Some(body.as_str().to_owned()),
                    ),
                ),
            )
        },
    }
}

/// Whether a request to load a model was taken.
pub fn load_answer(answer: &PostAnswer) -> (r: ServerResult<()>)
    ensures
        match r {
            Ok(_) => load_request_failure(answer@, lowercase_of(body_of(answer@))) is None,
            Err(e) => load_request_failure(answer@, lowercase_of(body_of(answer@))) == Some(e@),
        },
        is_ascii_chars(body_of(answer@)) ==> match r {
            Ok(_) => load_request_failure(answer@, lowered_ascii(body_of(answer@))) is None,
            Err(e) => load_request_failure(answer@, lowered_ascii(body_of(answer@))) == Some(e@),
        },
{
    let lowered = match answer {
        PostAnswer::Rejected { status: _, body } => to_lowercase(body.as_str()),
        _ => String::new(),
    };
    judge_load_answer(answer, lowered.as_str())
}

/// Whether a request to unload a model was taken.
pub fn unload_answer(answer: &PostAnswer) -> (r: Result<(), String>)
    ensures
        match r {
            Ok(_) => unload_request_failure(answer@) is None,
            Err(e) => unload_request_failure(answer@) == Some(e@),
        },
{
    match answer {
        PostAnswer::Accepted => Ok(()),
        PostAnswer::Unreachable(reason) => Err(
            append2("Failed to call /models/unload: ", reason.as_str()),
        ),
        PostAnswer::Rejected { status, body } => {
            let front = append3("Router rejected unload (status ", status.as_str(), "): ");
            Err(append2(front.as_str(), body.as_str()))
        },
    }
}

/// Whether the status of an answer to a question for the loaded models allows
/// to read on.
pub fn check_listing_status(success: bool, status: &str) -> (r: Result<(), String>)
    ensures
        match r {
            Ok(_) => success,
            Err(e) => !success && e@ == "/models returned "@ + status@,
        },
{
    if success {
        Ok(())
    } else {
        Err(append2("/models returned ", status))
    }
}

/// The loaded models that an answer lists.
pub fn loaded_models(answer: &ListingAnswer) -> (r: Result<Vec<String>, String>)
    ensures
        match r {
            Ok(ids) => {
                &&& query_failure(answer@) is None
                &&& texts(ids@) == loaded_ids(models_of(answer@->Models_0))
            },
            Err(e) => query_failure(answer@) == Some(e@),
        },
{
    match answer {
        ListingAnswer::Unreachable(reason) => Err(
            append2("Failed to query /models: ", reason.as_str()),
        ),
        ListingAnswer::Invalid(reason) => Err(
            append2("Invalid JSON from /models: ", reason.as_str()),
        ),
        ListingAnswer::Models(listing) => Ok(loaded_model_ids(listing)),
    }
}

/// Whether a model was unloaded by force. Any answer will do: a router that answers
/// has been told.
pub fn force_unload_result(answer: &PostAnswer) -> (r: Result<bool, String>)
    ensures
        match r {
            Ok(told) => told && !(answer@ is Unreachable),
            Err(e) => answer@ == PostView::Unreachable(e@),
        },
{
    match answer {
        PostAnswer::Unreachable(reason) => Err(reason.as_str().to_owned()),
        _ => Ok(true),
    }
}

/// The models that are to be unloaded when the router runs short of memory.
pub fn models_to_unload(answer: &ListingAnswer) -> (r: Result<Vec<ListedModel>, String>)
    ensures
        match r {
            Ok(models) => answer@ matches ListingView::Models(listing) && listed_texts(models@)
                == held_models(models_of(listing)),
            Err(e) => answer@ == ListingView::Unreachable(e@) || answer@ == ListingView::Invalid(e@),
        },
{
    match answer {
        ListingAnswer::Unreachable(reason) => Err(reason.as_str().to_owned()),
        ListingAnswer::Invalid(reason) => Err(reason.as_str().to_owned()),
        ListingAnswer::Models(listing) => Ok(busy_models(listing)),
    }
}

/// Whether the router took in its changed models.
pub fn check_reload_status(success: bool, code: u16) -> (r: Result<(), String>)
    ensures
        match r {
            Ok(_) => success,
            Err(e) => !success && e@ == "router reload returned HTTP "@ + decimal_of(code as nat),
        },
{
    if success {
        Ok(())
    } else {
        Err(append2("router reload returned HTTP ", decimal(code as u64).as_str()))
    }
}

/// The name of the event that tells of an error of the router.
pub fn router_error_event(kind: &str) -> (r: &'static str)
    ensures
        r@ == error_event_of(kind@),
{
    if same_text(kind, "oom") {
        "llamacpp-router-oom"
    } else {
        "llamacpp-router-backend-error"
    }
}

/// A rejection never counts as taken for its status: only a body that says
/// "already" lets a load go on, and nothing lets an unload go on.
pub proof fn law_rejections_stop_requests(status: Seq<char>, body: Seq<char>, lowered: Seq<char>)
    ensures
        load_request_failure(PostView::Rejected { status, body }, lowered) is None
            <==> says_already(lowered),
        unload_request_failure(PostView::Rejected { status, body }) is Some,
{
}

} // verus!
