use llm_gateway::json::Json;
use llm_gateway::llamacpp::progress::{
    judge_data, parse_load_progress_event, LineVerdict, LoadProgressListener,
};
use serde_json::Value;

fn value(text: &str) -> Value {
    serde_json::from_str(text).unwrap()
}

fn sse_block(model: &str, event: &str, data: Value) -> String {
    let mut payload = serde_json::Map::new();
    payload.insert("model".to_string(), Value::from(model));
    payload.insert("event".to_string(), Value::from(event));
    payload.insert("data".to_string(), data);
    format!("data: {}\n\n", Value::Object(payload))
}

#[test]
fn parses_a_matching_progress_event() {
    let block = sse_block(
        "model-1",
        "status_change",
        value(
            r#"{
                "status": "loading",
                "progress": { "stages": ["text_model"], "current": "text_model", "value": 0.42 }
            }"#,
        ),
    );
    let payload = parse_load_progress_event(&block, "model-1").expect("should parse");
    assert_eq!(payload.model, "model-1");
    assert_eq!(payload.stage.as_deref(), Some("text_model"));
    assert!((payload.value.as_f64().unwrap() - 0.42).abs() < f64::EPSILON);
}

#[test]
fn ignores_events_for_a_different_model() {
    let block = sse_block(
        "other-model",
        "status_change",
        value(r#"{ "progress": { "current": "text_model", "value": 0.5 } }"#),
    );
    assert!(parse_load_progress_event(&block, "model-1").is_none());
}

#[test]
fn ignores_non_status_change_events() {
    let block = sse_block(
        "model-1",
        "download_progress",
        value(r#"{ "done": 10, "total": 100 }"#),
    );
    assert!(parse_load_progress_event(&block, "model-1").is_none());
}

#[test]
fn ignores_status_change_without_progress() {
    let block = sse_block("model-1", "status_change", value(r#"{ "status": "loaded" }"#));
    assert!(parse_load_progress_event(&block, "model-1").is_none());
}

#[test]
fn ignores_null_progress() {
    let block = sse_block(
        "model-1",
        "status_change",
        value(r#"{ "status": "loaded", "progress": null }"#),
    );
    assert!(parse_load_progress_event(&block, "model-1").is_none());
}

#[test]
fn ignores_malformed_json() {
    let block = "data: not json at all\n\n".to_string();
    assert!(parse_load_progress_event(&block, "model-1").is_none());
}

#[test]
fn ignores_blocks_with_no_data_line() {
    let block = "event: ping\n\n".to_string();
    assert!(parse_load_progress_event(&block, "model-1").is_none());
}

#[test]
fn defaults_missing_value_to_zero() {
    let block = sse_block(
        "model-1",
        "status_change",
        value(r#"{ "progress": { "current": "text_model" } }"#),
    );
    let payload = parse_load_progress_event(&block, "model-1").expect("should parse");
    assert_eq!(payload.value.as_f64(), Some(0.0));
    assert_eq!(payload.stage.as_deref(), Some("text_model"));
}

#[test]
fn defaults_missing_stage_to_none() {
    let block = sse_block(
        "model-1",
        "status_change",
        value(r#"{ "progress": { "value": 0.9 } }"#),
    );
    let payload = parse_load_progress_event(&block, "model-1").expect("should parse");
    assert!(payload.stage.is_none());
}

const STEP: &str =
    r#"data: {"model":"m","event":"status_change","data":{"progress":{"current":"s","value":0.5}}}"#;

#[test]
fn skipped_lines_let_later_lines_report() {
    let other = STEP.replace("\"m\"", "\"n\"");
    let null = r#"data: {"model":"m","event":"status_change","data":{"progress":null}}"#;
    let block = format!("{}\n{}\r\n{}\n\n", other, null, STEP);
    let payload = parse_load_progress_event(&block, "m").unwrap();
    assert_eq!(payload.value.as_f64(), Some(0.5));
}

#[test]
fn lines_without_data_are_passed_over() {
    let payload = parse_load_progress_event(
        &sse_block(
            "model-1",
            "status_change",
            value(r#"{"progress":{"current":"text_model","value":0.5}}"#),
        )
        .replace("data: ", "id: 1\ndata: "),
        "model-1",
    )
    .unwrap();
    assert_eq!(payload.model, "model-1");
    assert_eq!(payload.stage.as_deref(), Some("text_model"));
    assert_eq!(payload.value.as_f64(), Some(0.5));
    let block = format!("event: x\n: note\n\n{}\n\n", STEP);
    assert_eq!(parse_load_progress_event(&block, "m").unwrap().model, "m");
}

#[test]
fn malformed_data_ends_the_block() {
    assert!(parse_load_progress_event(&format!("data: {{\n{}\n\n", STEP), "m").is_none());
    let bare = r#"data: {"model":"m","event":"status_change","data":{}}"#;
    assert!(parse_load_progress_event(&format!("{}\n{}\n\n", bare, STEP), "m").is_none());
}

#[test]
fn the_space_after_the_colon_is_optional() {
    let block = format!("{}\n\n", STEP.replace("data: ", "data:"));
    assert_eq!(parse_load_progress_event(&block, "m").unwrap().model, "m");
}

#[test]
fn a_value_that_is_no_number_counts_as_zero() {
    let block = format!("{}\n\n", STEP.replace("0.5", "\"x\"").replace("\"s\"", "7"));
    let payload = parse_load_progress_event(&block, "m").unwrap();
    assert_eq!(payload.value.as_f64(), Some(0.0));
    assert!(payload.stage.is_none());
}

#[test]
fn data_is_judged_on_its_own() {
    let json = Json::parse(&STEP["data: ".len()..]).unwrap();
    assert!(matches!(judge_data(&json, "m"), LineVerdict::Report(p) if p.stage.as_deref() == Some("s")));
    assert!(matches!(judge_data(&json, "n"), LineVerdict::Skip));
    let bare = Json::parse(r#"{"model":"m","event":"status_change"}"#).unwrap();
    assert!(matches!(judge_data(&bare, "m"), LineVerdict::Stop));
}

#[test]
fn a_listener_collects_reports_over_chunks() {
    let text = format!("{}\n\n: ping\n\n{}\n\ntail", STEP, STEP.replace("0.5", "1"));
    let mut whole = LoadProgressListener::new("m".to_string());
    let all: Vec<Option<f64>> =
        whole.push(text.as_bytes()).iter().map(|p| p.value.as_f64()).collect();
    assert_eq!(all, vec![Some(0.5), Some(1.0)]);
    for cut in 0..text.len() {
        let mut listener = LoadProgressListener::new("m".to_string());
        let mut got: Vec<Option<f64>> = Vec::new();
        for piece in [&text[..cut], &text[cut..]] {
            got.extend(listener.push_text(piece).iter().map(|p| p.value.as_f64()));
        }
        assert_eq!(got, all);
    }
}

#[test]
fn a_listener_survives_bytes_that_are_no_text() {
    let mut listener = LoadProgressListener::new("m".to_string());
    assert!(listener.push(&[0xff, 0xfe]).is_empty());
    assert!(listener.push(b"\n\n").is_empty());
    assert_eq!(listener.push(format!("{}\n\n", STEP).as_bytes()).len(), 1);
}

#[test]
fn bytes_are_read_as_utf8() {
    let mut listener = LoadProgressListener::new("m\u{e9}".to_string());
    let text = format!("{}\n\n", STEP.replace("\"m\"", "\"m\u{e9}\""));
    let payloads = listener.push(text.as_bytes());
    assert_eq!(payloads[0].model, "m\u{e9}");
}

#[test]
fn payloads_can_be_cloned() {
    let payload = parse_load_progress_event(&format!("{}\n\n", STEP), "m").unwrap();
    let copy = payload.clone();
    assert_eq!(copy.model, payload.model);
    assert_eq!(copy.stage, payload.stage);
    assert_eq!(copy.value, payload.value);
}
