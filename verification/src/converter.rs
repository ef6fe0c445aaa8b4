//! Translating converters: each fronts a provider whose native wire API is not
//! chat/completions, and the gateway picks one by the `api_type` of the
//! provider.

use vstd::prelude::*;

use crate::json::{member, Json, Tree};
use crate::request::{request_members, responses_request};
use crate::response::{can_add_usage, chat_completion, completion_members, usage_fits};
use crate::sse::{EventText, SseEvent};
use crate::stream::{
    can_convert_event, convert_event, is_payload, sentinel_ends_stream, stream_step,
    stream_step_fits, stream_texts, Memory, StreamState,
};
use crate::text::{same_text, texts};

verus! {

/// Translates a chat/completions request to the native wire API of a provider,
/// and its response back.
pub trait UpstreamConverter: Send + Sync {
    /// The path suffix of the native endpoint.
    spec fn path(&self) -> Seq<char>;

    /// The native request for a chat/completions request.
    spec fn request(&self, body: Tree) -> Tree;

    /// The native responses that can be translated.
    spec fn accepts_response(&self, upstream: Tree) -> bool;

    /// The chat.completion object for a native response.
    spec fn response(&self, upstream: Tree) -> Tree;

    /// The events that can be translated.
    spec fn accepts_event(&self, memory: Memory, event: EventText) -> bool;

    /// What a native event leaves in the memory of the stream.
    spec fn remembered(&self, memory: Memory, event: EventText) -> Memory;

    /// The `data:` payloads for a native event.
    spec fn payloads(&self, memory: Memory, event: EventText) -> Seq<Seq<char>>;

    /// The path suffix that is appended to the `base_url` of the provider.
    fn upstream_path(&self) -> (r: &'static str)
        ensures
            r@ == self.path(),
    ;

    /// Rewrites a chat/completions body into the native request body.
    fn convert_request(&self, body: &Json) -> (r: Json)
        ensures
            r@ == self.request(body@),
    ;

    /// Translates a native response that is not streamed into a chat.completion
    /// object.
    fn convert_response(&self, upstream: &Json) -> (r: Json)
        requires
            self.accepts_response(upstream@),
        ensures
            r@ == self.response(upstream@),
    ;

    /// Translates one native event into the `data:` payloads of a
    /// chat/completions stream: each a JSON text, or the literal `[DONE]`.
    fn convert_stream_event(&self, event: &SseEvent, state: &mut StreamState) -> (r: Vec<String>)
        requires
            self.accepts_event(old(state)@, event@),
        ensures
            final(state)@ == self.remembered(old(state)@, event@),
            texts(r@) == self.payloads(old(state)@, event@),
            forall|i: int| 0 <= i < r@.len() ==> is_payload((#[trigger] r@[i])@),
    ;
}

/// Fronts the `/v1/responses` API of OpenAI as chat/completions, reasoning
/// summaries included.
#[derive(Debug, Clone, Copy)]
pub struct OpenAIResponsesConverter;

impl OpenAIResponsesConverter {
    /// The converter.
    pub fn new() -> (r: Self)
        ensures
            r == OpenAIResponsesConverter,
    {
        Self
    }

    /// Translates one native event where its arithmetic stays in range; else
    /// leaves the stream as it is and returns `None`.
    pub fn try_convert_stream_event(&self, event: &SseEvent, state: &mut StreamState) -> (r: Option<
        Vec<String>,
    >)
        ensures
            match r {
                Some(payloads) => {
                    &&& stream_step_fits(old(state)@, event@)
                    &&& final(state)@ == stream_step(old(state)@, event@).0
                    &&& texts(payloads@) == stream_texts(old(state)@, event@)
                    &&& sentinel_ends_stream(old(state)@, event@, final(state)@, texts(payloads@))
                },
                None => !stream_step_fits(old(state)@, event@) && final(state)@ == old(state)@,
            },
    {
        if can_convert_event(event, state) {
            Some(self.convert_stream_event(event, state))
        } else {
            None
        }
    }

    /// Translates a native response where its token counts can be added up; else
    /// returns `None`.
    pub fn try_convert_response(&self, upstream: &Json) -> (r: Option<Json>)
        ensures
            match r {
                Some(json) => {
                    &&& usage_fits(member(upstream@, "usage"@))
                    &&& json@ == Tree::Object(completion_members(upstream@))
                },
                None => !usage_fits(member(upstream@, "usage"@)),
            },
    {
        if can_add_usage(upstream.get("usage")) {
            Some(self.convert_response(upstream))
        } else {
            None
        }
    }
}

impl Default for OpenAIResponsesConverter {
    fn default() -> (r: Self)
        ensures
            r == OpenAIResponsesConverter,
    {
        OpenAIResponsesConverter::new()
    }
}

impl UpstreamConverter for OpenAIResponsesConverter {
    open spec fn path(&self) -> Seq<char> {
        "/responses"@
    }

    open spec fn request(&self, body: Tree) -> Tree {
        Tree::Object(request_members(body))
    }

    open spec fn accepts_response(&self, upstream: Tree) -> bool {
        usage_fits(member(upstream, "usage"@))
    }

    open spec fn response(&self, upstream: Tree) -> Tree {
        Tree::Object(completion_members(upstream))
    }

    open spec fn accepts_event(&self, memory: Memory, event: EventText) -> bool {
        stream_step_fits(memory, event)
    }

    open spec fn remembered(&self, memory: Memory, event: EventText) -> Memory {
        stream_step(memory, event).0
    }

    open spec fn payloads(&self, memory: Memory, event: EventText) -> Seq<Seq<char>> {
        stream_texts(memory, event)
    }

    fn upstream_path(&self) -> (r: &'static str) {
        "/responses"
    }

    fn convert_request(&self, body: &Json) -> (r: Json) {
        responses_request(body)
    }

    fn convert_response(&self, upstream: &Json) -> (r: Json) {
        chat_completion(upstream)
    }

    fn convert_stream_event(&self, event: &SseEvent, state: &mut StreamState) -> (r: Vec<String>)
        ensures
            sentinel_ends_stream(old(state)@, event@, final(state)@, texts(r@)),
    {
        let r = convert_event(event, state);
        assert forall|i: int| 0 <= i < r@.len() implies is_payload((#[trigger] r@[i])@) by {
            assert(texts(r@)[i] == r@[i]@);
        }
        r
    }
}

/// The two converters do the same.
pub open spec fn same_converter<A: UpstreamConverter + ?Sized, B: UpstreamConverter>(a: &A, b: &B) -> bool {
    &&& a.path() == b.path()
    &&& forall|body: Tree| #[trigger] a.request(body) == b.request(body)
    &&& forall|up: Tree| #[trigger] a.accepts_response(up) == b.accepts_response(up)
    &&& forall|up: Tree| #[trigger] a.response(up) == b.response(up)
    &&& forall|m: Memory, e: EventText| #[trigger] a.accepts_event(m, e) == b.accepts_event(m, e)
    &&& forall|m: Memory, e: EventText| #[trigger] a.remembered(m, e) == b.remembered(m, e)
    &&& forall|m: Memory, e: EventText| #[trigger] a.payloads(m, e) == b.payloads(m, e)
}

/// The `api_type` names a provider that has a converter.
pub open spec fn has_converter(api_type: Option<&str>) -> bool {
    match api_type {
        Some(name) => name@ == "openai-responses"@,
        None => false,
    }
}

/// Selects the converter for the `api_type` of a provider. Without one, with
/// `"openai"` and with any other value, requests pass through as they are.
pub fn converter_for(api_type: Option<&str>) -> (r: Option<Box<dyn UpstreamConverter>>)
    ensures
        r is Some == has_converter(api_type),
        r matches Some(converter) ==> same_converter(&*converter, &OpenAIResponsesConverter),
{
    match api_type {
        Some(name) => if same_text(name, "openai-responses") {
            Some(Box::new(OpenAIResponsesConverter::new()))
        } else {
            None
        },
        None => None,
    }
}

} // verus!
