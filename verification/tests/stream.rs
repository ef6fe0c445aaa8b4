use llm_gateway::converter::{converter_for, OpenAIResponsesConverter, UpstreamConverter};
use llm_gateway::json::Json;
use llm_gateway::sse::SseEvent;
use llm_gateway::stream::{
    can_convert_event, can_convert_stream_data, convert_stream_data, non_empty, render_payloads,
    Payload, StreamState,
};
use serde_json::Value;

fn value(text: &str) -> Value {
    serde_json::from_str(text).unwrap()
}

fn feed(state: &mut StreamState, event: &str, data: &str) -> Vec<String> {
    let event = SseEvent { event: event.to_string(), data: data.to_string() };
    OpenAIResponsesConverter::new().try_convert_stream_event(&event, state).unwrap()
}

fn delta(payload: &str) -> Value {
    value(payload)["choices"][0]["delta"].clone()
}

#[test]
fn a_stream_comes_out_whole() {
    let mut state = StreamState::default();
    let mut out: Vec<String> = Vec::new();
    out.extend(feed(
        &mut state,
        "response.created",
        r#"{"response": {"id": "r", "model": "m", "created_at": 5}}"#,
    ));
    out.extend(feed(&mut state, "response.reasoning_summary_text.delta", r#"{"delta": "th"}"#));
    out.extend(feed(&mut state, "response.output_text.delta", r#"{"delta": "hi"}"#));
    out.extend(feed(&mut state, "response.other", r#"{"delta": "no"}"#));
    out.extend(feed(&mut state, "response.incomplete", "{}"));
    out.extend(feed(&mut state, "response.completed", "{}"));
    assert_eq!(out.len(), 5);
    assert_eq!(delta(&out[0]), value(r#"{"role": "assistant"}"#));
    assert_eq!(delta(&out[1]), value(r#"{"reasoning_content": "th"}"#));
    assert_eq!(delta(&out[2]), value(r#"{"content": "hi"}"#));
    assert_eq!(
        value(&out[3]),
        value(
            r#"{"id": "r", "object": "chat.completion.chunk", "created": 5, "model": "m",
                "choices": [{"index": 0, "delta": {}, "finish_reason": "stop"}]}"#
        )
    );
    assert_eq!(out[4], "[DONE]");
}

#[test]
fn chunks_are_compact_text() {
    let mut state = StreamState { role_sent: true, ..Default::default() };
    let out = feed(&mut state, "response.output_text.delta", r#"{"delta": "\"é\n"}"#);
    assert_eq!(
        out,
        vec![format!(
            "{}{}",
            r#"{"choices":[{"delta":{"content":"\"é\n"},"finish_reason":null,"index":0}],"#,
            r#""created":0,"id":"chatcmpl-proxy","model":"","object":"chat.completion.chunk"}"#
        )]
    );
}

#[test]
fn calls_get_places_of_their_own_and_keep_them() {
    let mut state = StreamState::default();
    let first = feed(
        &mut state,
        "response.output_item.added",
        r#"{"item": {"type": "function_call", "id": "a", "call_id": "ca", "name": "f"}}"#,
    );
    assert_eq!(first.len(), 2);
    let second = feed(
        &mut state,
        "response.output_item.added",
        r#"{"item": {"type": "function_call", "call_id": "cb"}}"#,
    );
    assert_eq!(
        second.iter().map(|p| delta(p)).collect::<Vec<Value>>(),
        vec![value(
            r#"{"tool_calls": [{"index": 1, "id": "cb", "type": "function",
                "function": {"name": null, "arguments": ""}}]}"#
        )]
    );
    let b = feed(
        &mut state,
        "response.function_call_arguments.delta",
        r#"{"item_id": "cb", "delta": "x"}"#,
    );
    assert_eq!(
        delta(&b[0]),
        value(r#"{"tool_calls": [{"index": 1, "function": {"arguments": "x"}}]}"#)
    );
    let a = feed(
        &mut state,
        "response.function_call_arguments.delta",
        r#"{"item_id": "a", "delta": "y"}"#,
    );
    assert_eq!(delta(&a[0])["tool_calls"][0]["index"], value("0"));
    let unknown = feed(
        &mut state,
        "response.function_call_arguments.delta",
        r#"{"delta": "z"}"#,
    );
    assert_eq!(delta(&unknown[0])["tool_calls"][0]["index"], value("0"));
    let end = feed(&mut state, "response.completed", "{}");
    assert_eq!(value(&end[0])["choices"][0]["finish_reason"], value(r#""tool_calls""#));
    assert_eq!(state.next_tool_index, 2);
    assert!(state.saw_tool_call && state.role_sent && state.finished);
}

#[test]
fn items_that_are_no_calls_do_nothing() {
    let mut state = StreamState::default();
    assert!(feed(&mut state, "response.output_item.added", r#"{"item": {"type": "message"}}"#)
        .is_empty());
    assert!(feed(&mut state, "response.output_item.added", "{}").is_empty());
    assert!(feed(&mut state, "response.output_text.delta", r#"{"delta": 1}"#).is_empty());
    assert!(feed(&mut state, "response.function_call_arguments.delta", "{}").is_empty());
    assert!(!state.role_sent && !state.saw_tool_call && !state.finished);
}

#[test]
fn failures_end_the_stream() {
    for (event, data, message) in [
        ("response.failed", r#"{"response": {"error": {"message": "m1"}}}"#, "m1"),
        ("error", r#"{"error": {"message": "m2"}}"#, "m2"),
        ("error", r#"{"response": {"error": null}, "error": {"message": "m3"}}"#, "upstream error"),
        ("error", "{}", "upstream error"),
    ] {
        let mut state = StreamState::default();
        let out = feed(&mut state, event, data);
        assert_eq!(out.len(), 2);
        assert_eq!(value(&out[0])["error"]["message"], Value::from(message));
        assert_eq!(out[1], "[DONE]");
        assert!(state.finished);
        assert!(feed(&mut state, event, data).is_empty());
    }
}

#[test]
fn the_name_of_an_event_outweighs_its_type() {
    let mut state = StreamState::default();
    let out = feed(
        &mut state,
        "response.completed",
        r#"{"type": "response.output_text.delta", "delta": "x"}"#,
    );
    assert_eq!(out.len(), 2);
    assert!(state.finished);
    let mut unnamed = StreamState::default();
    assert_eq!(feed(&mut unnamed, "", r#"{"type": "response.completed"}"#).len(), 2);
    let mut nothing = StreamState::default();
    assert!(feed(&mut nothing, "", "{}").is_empty());
}

#[test]
fn opening_events_keep_what_they_do_not_state() {
    let mut state = StreamState::default();
    feed(&mut state, "response.created", r#"{"response": {"id": "r", "created_at": 7}}"#);
    feed(&mut state, "response.in_progress", r#"{"response": {"model": "m", "created_at": 1.5}}"#);
    feed(&mut state, "response.in_progress", "{}");
    assert_eq!(state.id, "r");
    assert_eq!(state.model, "m");
    assert_eq!(state.created, 7);
}

#[test]
fn closing_usage_is_reported_where_it_is_stated() {
    let mut state = StreamState::default();
    let out = feed(
        &mut state,
        "response.completed",
        r#"{"response": {"usage": {"input_tokens": 1, "output_tokens": 2}}}"#,
    );
    assert_eq!(
        value(&out[0])["usage"],
        value(r#"{"prompt_tokens": 1, "completion_tokens": 2, "total_tokens": 3}"#)
    );
    let mut plain = StreamState::default();
    let without = feed(&mut plain, "response.completed", r#"{"response": {}}"#);
    assert!(value(&without[0]).get("usage").is_none());
    let mut null = StreamState::default();
    let zeros = feed(&mut null, "response.completed", r#"{"response": {"usage": null}}"#);
    assert_eq!(value(&zeros[0])["usage"]["total_tokens"], value("0"));
}

#[test]
fn counts_that_do_not_fit_are_refused() {
    let mut state = StreamState::default();
    let event = SseEvent {
        event: "response.completed".to_string(),
        data: r#"{"response": {"usage": {"input_tokens": 9223372036854775807, "output_tokens": 1}}}"#
            .to_string(),
    };
    let converter = OpenAIResponsesConverter::default();
    assert!(converter.try_convert_stream_event(&event, &mut state).is_none());
    assert!(!state.finished);
    state.next_tool_index = usize::MAX;
    let added = SseEvent {
        event: "response.output_item.added".to_string(),
        data: r#"{"item": {"type": "function_call"}}"#.to_string(),
    };
    assert!(converter.try_convert_stream_event(&added, &mut state).is_none());
    assert_eq!(state.next_tool_index, usize::MAX);
}

#[test]
fn the_arithmetic_of_an_event_can_be_asked_for() {
    let mut state = StreamState { next_tool_index: usize::MAX, ..Default::default() };
    let added = SseEvent {
        event: "response.output_item.added".to_string(),
        data: r#"{"item": {"type": "function_call"}}"#.to_string(),
    };
    assert!(!can_convert_event(&added, &state));
    state.finished = true;
    assert!(can_convert_event(&added, &state));
    let converter = converter_for(Some("openai-responses")).unwrap();
    assert!(converter.convert_stream_event(&added, &mut state).is_empty());
}

#[test]
fn the_role_comes_directly_before_the_first_text_or_call() {
    let mut state = StreamState::default();
    let early = feed(
        &mut state,
        "response.function_call_arguments.delta",
        r#"{"item_id": "a", "delta": "x"}"#,
    );
    assert_eq!(early.len(), 1);
    assert!(delta(&early[0]).get("role").is_none());
    let call = feed(
        &mut state,
        "response.output_item.added",
        r#"{"item": {"type": "function_call", "id": "a"}}"#,
    );
    assert_eq!(delta(&call[0]), value(r#"{"role": "assistant"}"#));
    assert!(delta(&call[1])["tool_calls"][0]["function"].get("name").is_some());
    let text = feed(&mut state, "response.output_text.delta", r#"{"delta": "t"}"#);
    assert_eq!(text.len(), 1);
}

#[test]
fn parsed_data_converts_on_its_own() {
    let data = Json::parse(r#"{"delta": "x"}"#).unwrap();
    let mut state = StreamState::default();
    assert!(can_convert_stream_data("response.output_text.delta", &data, &state));
    let out = convert_stream_data("response.output_text.delta", &data, &mut state);
    assert_eq!(out.len(), 2);
    assert!(matches!(&out[1], Payload::Object(json)
        if json.to_serde()["choices"][0]["delta"]["content"] == Value::from("x")));
    let end = convert_stream_data("response.completed", &Json::Null, &mut state);
    assert!(matches!(end[1], Payload::Done));
    let texts = render_payloads(&end);
    assert_eq!(texts[1], "[DONE]");
    assert_eq!(value(&texts[0])["choices"][0]["finish_reason"], Value::from("stop"));
}

#[test]
fn empty_strings_fall_back() {
    assert_eq!(non_empty("", "f"), "f");
    assert_eq!(non_empty("s", "f"), "s");
}

#[test]
fn an_index_beyond_i64_is_written_in_full() {
    let mut state = StreamState { next_tool_index: usize::MAX - 1, ..Default::default() };
    let out = feed(
        &mut state,
        "response.output_item.added",
        r#"{"item": {"type": "function_call", "id": "k"}}"#,
    );
    assert_eq!(
        delta(&out[1])["tool_calls"][0]["index"].as_u64(),
        Some((usize::MAX - 1) as u64)
    );
}

#[test]
fn a_trait_object_converts_like_the_converter() {
    let converter: Box<dyn UpstreamConverter> = Box::new(OpenAIResponsesConverter::new());
    let mut state = StreamState::default();
    let event = SseEvent {
        event: "error".to_string(),
        data: "{}".to_string(),
    };
    assert_eq!(
        converter.convert_stream_event(&event, &mut state),
        vec![r#"{"error":{"message":"upstream error"}}"#, "[DONE]"]
    );
}
