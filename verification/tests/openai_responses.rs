use llm_gateway::converter::{converter_for, OpenAIResponsesConverter, UpstreamConverter};
use llm_gateway::json::Json;
use llm_gateway::sse::SseEvent;
use llm_gateway::stream::StreamState;
use serde_json::Value;

fn conv() -> OpenAIResponsesConverter {
    OpenAIResponsesConverter::new()
}

fn value(text: &str) -> Value {
    serde_json::from_str(text).unwrap()
}

fn request(body: &str) -> Value {
    conv().convert_request(&Json::from_serde(value(body))).to_serde()
}

fn response(upstream: &str) -> Value {
    conv().convert_response(&Json::from_serde(value(upstream))).to_serde()
}

#[test]
fn request_splits_system_into_instructions_and_maps_input() {
    let out = request(
        r#"{
            "model": "gpt-5",
            "messages": [
                {"role": "system", "content": "be brief"},
                {"role": "user", "content": "hi"}
            ],
            "max_tokens": 128,
            "temperature": 0.4,
            "stream": true,
            "reasoning_effort": "high"
        }"#,
    );
    assert_eq!(out["model"], value(r#""gpt-5""#));
    assert_eq!(out["instructions"], value(r#""be brief""#));
    assert_eq!(out["input"], value(r#"[{"role": "user", "content": "hi"}]"#));
    assert_eq!(out["max_output_tokens"], value("128"));
    assert_eq!(out["temperature"], value("0.4"));
    assert_eq!(out["stream"], value("true"));
    assert_eq!(out["reasoning"], value(r#"{"effort": "high", "summary": "auto"}"#));
}

#[test]
fn request_flattens_tools_and_maps_tool_messages() {
    let out = request(
        r#"{
            "model": "gpt-5",
            "messages": [
                {"role": "user", "content": "weather?"},
                {"role": "assistant", "content": "", "tool_calls": [
                    {"id": "call_1", "type": "function", "function": {"name": "getw", "arguments": "{}"}}
                ]},
                {"role": "tool", "tool_call_id": "call_1", "content": "sunny"}
            ],
            "tools": [
                {"type": "function", "function": {"name": "getw", "description": "d", "parameters": {"type": "object"}}}
            ]
        }"#,
    );
    assert_eq!(
        out["tools"],
        value(r#"[{"type": "function", "name": "getw", "description": "d", "parameters": {"type": "object"}}]"#)
    );
    let input = out["input"].as_array().unwrap();
    assert_eq!(input[0], value(r#"{"role": "user", "content": "weather?"}"#));
    assert_eq!(
        input[1],
        value(r#"{"type": "function_call", "call_id": "call_1", "name": "getw", "arguments": "{}"}"#)
    );
    assert_eq!(
        input[2],
        value(r#"{"type": "function_call_output", "call_id": "call_1", "output": "sunny"}"#)
    );
}

#[test]
fn response_maps_text_reasoning_and_usage() {
    let out = response(
        r#"{
            "id": "resp_1",
            "model": "gpt-5",
            "created_at": 123,
            "output": [
                {"type": "reasoning", "summary": [{"type": "summary_text", "text": "thinking"}]},
                {"type": "message", "role": "assistant", "content": [{"type": "output_text", "text": "hello"}]}
            ],
            "usage": {"input_tokens": 10, "output_tokens": 5, "total_tokens": 15}
        }"#,
    );
    assert_eq!(out["object"], value(r#""chat.completion""#));
    assert_eq!(out["id"], value(r#""resp_1""#));
    assert_eq!(out["created"], value("123"));
    let choice = &out["choices"][0];
    assert_eq!(choice["message"]["content"], value(r#""hello""#));
    assert_eq!(choice["message"]["reasoning_content"], value(r#""thinking""#));
    assert_eq!(choice["finish_reason"], value(r#""stop""#));
    assert_eq!(
        out["usage"],
        value(r#"{"prompt_tokens": 10, "completion_tokens": 5, "total_tokens": 15}"#)
    );
}

#[test]
fn response_maps_function_call_to_tool_calls() {
    let out = response(
        r#"{
            "id": "resp_2",
            "model": "gpt-5",
            "output": [
                {"type": "function_call", "call_id": "c1", "name": "getw", "arguments": "{\"x\":1}"}
            ]
        }"#,
    );
    let choice = &out["choices"][0];
    assert_eq!(choice["finish_reason"], value(r#""tool_calls""#));
    assert_eq!(choice["message"]["content"], Value::Null);
    assert_eq!(
        choice["message"]["tool_calls"],
        value(r#"[{"id": "c1", "type": "function", "function": {"name": "getw", "arguments": "{\"x\":1}"}}]"#)
    );
}

fn ev(event: &str, data: &str) -> SseEvent {
    SseEvent {
        event: event.to_string(),
        data: value(data).to_string(),
    }
}

#[test]
fn stream_text_deltas_emit_role_then_content() {
    let c = conv();
    let mut state = StreamState::default();
    assert!(c
        .convert_stream_event(
            &ev(
                "response.created",
                r#"{"response": {"id": "r1", "model": "gpt-5", "created_at": 9}}"#
            ),
            &mut state
        )
        .is_empty());
    let first = c.convert_stream_event(
        &ev("response.output_text.delta", r#"{"delta": "he"}"#),
        &mut state,
    );
    assert_eq!(first.len(), 2);
    let role = value(&first[0]);
    assert_eq!(role["choices"][0]["delta"]["role"], value(r#""assistant""#));
    assert_eq!(role["id"], value(r#""r1""#));
    assert_eq!(role["model"], value(r#""gpt-5""#));
    let content = value(&first[1]);
    assert_eq!(content["choices"][0]["delta"]["content"], value(r#""he""#));

    let second = c.convert_stream_event(
        &ev("response.output_text.delta", r#"{"delta": "llo"}"#),
        &mut state,
    );
    assert_eq!(second.len(), 1);
    let content2 = value(&second[0]);
    assert_eq!(content2["choices"][0]["delta"]["content"], value(r#""llo""#));
}

#[test]
fn stream_reasoning_delta_maps_to_reasoning_content() {
    let c = conv();
    let mut state = StreamState::default();
    let out = c.convert_stream_event(
        &ev("response.reasoning_summary_text.delta", r#"{"delta": "hmm"}"#),
        &mut state,
    );
    // role chunk + reasoning chunk
    assert_eq!(out.len(), 2);
    let reasoning = value(&out[1]);
    assert_eq!(reasoning["choices"][0]["delta"]["reasoning_content"], value(r#""hmm""#));
}

#[test]
fn stream_function_call_emits_header_and_argument_deltas() {
    let c = conv();
    let mut state = StreamState::default();
    let added = c.convert_stream_event(
        &ev(
            "response.output_item.added",
            r#"{"item": {"id": "fc_1", "type": "function_call", "call_id": "c1", "name": "getw"}}"#,
        ),
        &mut state,
    );
    // role chunk + tool header
    assert_eq!(added.len(), 2);
    let header = value(&added[1]);
    let tc = &header["choices"][0]["delta"]["tool_calls"][0];
    assert_eq!(tc["index"], value("0"));
    assert_eq!(tc["id"], value(r#""c1""#));
    assert_eq!(tc["function"]["name"], value(r#""getw""#));

    let arg = c.convert_stream_event(
        &ev(
            "response.function_call_arguments.delta",
            r#"{"item_id": "fc_1", "delta": "{\"x\""}"#,
        ),
        &mut state,
    );
    assert_eq!(arg.len(), 1);
    let arg_chunk = value(&arg[0]);
    let atc = &arg_chunk["choices"][0]["delta"]["tool_calls"][0];
    assert_eq!(atc["index"], value("0"));
    assert_eq!(atc["function"]["arguments"], Value::from("{\"x\""));
}

#[test]
fn stream_completed_emits_finish_usage_and_done() {
    let c = conv();
    let mut state = StreamState {
        saw_tool_call: true,
        ..Default::default()
    };
    let out = c.convert_stream_event(
        &ev(
            "response.completed",
            r#"{"response": {"usage": {"input_tokens": 3, "output_tokens": 4, "total_tokens": 7}}}"#,
        ),
        &mut state,
    );
    assert_eq!(out.len(), 2);
    let finish = value(&out[0]);
    assert_eq!(finish["choices"][0]["finish_reason"], value(r#""tool_calls""#));
    assert_eq!(finish["usage"]["prompt_tokens"], value("3"));
    assert_eq!(out[1], "[DONE]");
    assert!(state.finished);
    // Events after completion are ignored.
    assert!(c
        .convert_stream_event(
            &ev("response.output_text.delta", r#"{"delta": "x"}"#),
            &mut state
        )
        .is_empty());
}

#[test]
fn stream_dispatches_on_data_type_when_event_field_absent() {
    let c = conv();
    let mut state = StreamState::default();
    let out = c.convert_stream_event(
        &ev("", r#"{"type": "response.output_text.delta", "delta": "hi"}"#),
        &mut state,
    );
    assert_eq!(out.len(), 2);
}

#[test]
fn stream_ignores_done_sentinel_and_bad_json() {
    let c = conv();
    let mut state = StreamState::default();
    assert!(c
        .convert_stream_event(
            &SseEvent { event: String::new(), data: "[DONE]".into() },
            &mut state
        )
        .is_empty());
    assert!(c
        .convert_stream_event(
            &SseEvent { event: String::new(), data: "not json".into() },
            &mut state
        )
        .is_empty());
}

#[test]
fn converter_is_chosen_by_api_type() {
    assert!(converter_for(None).is_none());
    assert!(converter_for(Some("openai")).is_none());
    assert!(converter_for(Some("OpenAI-Responses")).is_none());
    let converter = converter_for(Some("openai-responses")).unwrap();
    assert_eq!(converter.upstream_path(), "/responses");
    let body = Json::from_serde(value(r#"{"model": "m"}"#));
    assert_eq!(
        converter.convert_request(&body).to_serde(),
        value(r#"{"model": "m", "input": []}"#)
    );
}

#[test]
fn request_passes_on_what_it_knows_and_drops_the_rest() {
    let out = request(
        r#"{
            "top_p": 0.5, "tool_choice": {"type": "auto"}, "user": "u", "seed": 3,
            "max_tokens": 1, "max_completion_tokens": 2, "reasoning_effort": 4,
            "tools": [{"type": "web"}, {"function": {}}]
        }"#,
    );
    assert_eq!(
        out,
        value(
            r#"{
                "top_p": 0.5, "tool_choice": {"type": "auto"}, "max_output_tokens": 2, "input": [],
                "tools": [{"type": "function", "name": null, "description": null, "parameters": {}}]
            }"#
        )
    );
}

#[test]
fn request_of_something_else_than_an_object_has_no_input() {
    assert_eq!(request("[1]"), value(r#"{"input": []}"#));
    assert_eq!(request(r#"{"messages": "x"}"#), value(r#"{"input": []}"#));
}

#[test]
fn request_maps_every_kind_of_message() {
    let out = request(
        r#"{"messages": [
            {"role": "developer", "content": [{"text": "a"}, {"image": 1}, {"text": "b"}]},
            {"content": "no role"},
            {"role": "system"},
            {"role": "assistant", "content": "plain"},
            {"role": "assistant", "content": "with", "tool_calls": [{"id": "i"}, 5]},
            {"role": "assistant", "content": null, "tool_calls": null},
            {"role": "tool", "content": 7},
            {"role": "critic", "content": {"text": "x"}}
        ]}"#,
    );
    assert_eq!(out["instructions"], value(r#""ab\n\n""#));
    assert_eq!(
        out["input"],
        value(
            r#"[
                {"role": "user", "content": "no role"},
                {"role": "assistant", "content": "plain"},
                {"type": "function_call", "call_id": "i", "name": null, "arguments": ""},
                {"type": "function_call", "call_id": null, "name": null, "arguments": ""},
                {"role": "assistant", "content": "with"},
                {"type": "function_call_output", "call_id": null, "output": ""},
                {"role": "critic", "content": ""}
            ]"#
        )
    );
}

#[test]
fn joined_conversations_convert_in_order() {
    let a = request(r#"{"messages": [{"role": "system", "content": "1"}, {"content": "2"}]}"#);
    let b = request(r#"{"messages": [{"content": "3"}, {"role": "system", "content": "4"}]}"#);
    let ab = request(
        r#"{"messages": [{"role": "system", "content": "1"}, {"content": "2"},
            {"content": "3"}, {"role": "system", "content": "4"}]}"#,
    );
    let mut input = a["input"].as_array().unwrap().clone();
    input.extend(b["input"].as_array().unwrap().clone());
    assert_eq!(ab["input"], Value::Array(input));
    assert_eq!(ab["instructions"], value(r#""1\n\n4""#));
}

#[test]
fn empty_instructions_are_still_instructions() {
    let out = request(r#"{"messages": [{"role": "system", "content": ""}]}"#);
    assert_eq!(out, value(r#"{"instructions": "", "input": []}"#));
}

#[test]
fn response_without_anything_gets_defaults() {
    assert_eq!(
        response("{}"),
        value(
            r#"{
                "id": "chatcmpl-proxy", "object": "chat.completion", "created": 0, "model": null,
                "choices": [{"index": 0, "message": {"role": "assistant", "content": ""},
                    "finish_reason": "stop"}],
                "usage": null
            }"#
        )
    );
}

#[test]
fn response_joins_parts_and_keeps_order() {
    let out = response(
        r#"{"output": [
            {"type": "message", "content": [{"text": "a"}, {"text": 1}, {"text": "b"}]},
            {"type": "function_call", "call_id": "1"},
            {"type": "other", "content": [{"text": "x"}]},
            {"type": "reasoning", "summary": [{"text": "r"}, {"text": "s"}]},
            {"type": "message", "content": [{"text": "c"}]},
            {"type": "function_call", "call_id": "2"}
        ]}"#,
    );
    let message = &out["choices"][0]["message"];
    assert_eq!(message["content"], value(r#""abc""#));
    assert_eq!(message["reasoning_content"], value(r#""rs""#));
    assert_eq!(message["tool_calls"][0]["id"], value(r#""1""#));
    assert_eq!(message["tool_calls"][1]["id"], value(r#""2""#));
    assert_eq!(message["tool_calls"][1]["function"], value(r#"{"name": null, "arguments": ""}"#));
    assert_eq!(out["choices"][0]["finish_reason"], value(r#""tool_calls""#));
}

#[test]
fn usage_without_a_total_reports_the_sum() {
    let out = response(r#"{"usage": {"input_tokens": 11, "output_tokens": 31}}"#);
    assert_eq!(
        out["usage"],
        value(r#"{"prompt_tokens": 11, "completion_tokens": 31, "total_tokens": 42}"#)
    );
    let stated = response(r#"{"usage": {"total_tokens": 5, "input_tokens": 2.5}}"#);
    assert_eq!(
        stated["usage"],
        value(r#"{"prompt_tokens": 0, "completion_tokens": 0, "total_tokens": 5}"#)
    );
}

#[test]
fn a_tool_call_goes_out_as_it_came_in() {
    let item = r#"{"type": "function_call", "call_id": "c", "name": "n", "arguments": "{}"}"#;
    let reply = response(&format!(r#"{{"output": [{}]}}"#, item));
    let message = reply["choices"][0]["message"].to_string();
    let again = request(&format!(r#"{{"messages": [{}]}}"#, message));
    assert_eq!(again["input"], Value::Array(vec![value(item)]));
}

#[test]
fn a_response_whose_counts_do_not_fit_is_refused() {
    let fits = Json::from_serde(value(r#"{"id": "r", "usage": {"input_tokens": 1}}"#));
    let converted = conv().try_convert_response(&fits).unwrap().to_serde();
    assert_eq!(converted["id"], Value::from("r"));
    assert_eq!(converted["usage"]["total_tokens"], value("1"));
    let large = Json::from_serde(value(
        r#"{"usage": {"input_tokens": 9223372036854775807, "output_tokens": 1}}"#,
    ));
    assert!(conv().try_convert_response(&large).is_none());
}
