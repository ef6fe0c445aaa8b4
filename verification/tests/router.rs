use llm_gateway::json::Json;
use llm_gateway::llamacpp::api_key::generate_api_key;
use llm_gateway::llamacpp::error::{ErrorCode, ServerError};
use llm_gateway::llamacpp::models::{
    busy_models, loaded_model_ids, poll_load, poll_unload, ListingAnswer, Poll, LOAD_TIMEOUT_SECS,
    UNLOAD_TIMEOUT_SECS,
};
use llm_gateway::llamacpp::replies::{
    check_listing_status, check_reload_status, endpoint_url, force_unload_result,
    judge_load_answer, load_answer, loaded_models, models_to_unload, router_error_event,
    unload_answer, PostAnswer,
};
use llm_gateway::llamacpp::router::{KillTarget, RouterHandle, RouterSlot, StopOutcome};
use llm_gateway::llamacpp::session::{
    find_session, find_session_where_running, models_where_running, session_info, unload_result,
    RouterInfo,
};
use llm_gateway::llamacpp::slots::{
    idle_where_known, must_force_unload, slots_busy, slots_idle, SlotsAnswer,
};

fn json(text: &str) -> Json {
    Json::parse(text).unwrap()
}

fn listing(text: &str) -> ListingAnswer {
    ListingAnswer::Models(json(text))
}

fn failure(poll: Poll) -> (ErrorCode, String, Option<String>) {
    match poll {
        Poll::Fail(ServerError::Llamacpp(e)) => (e.code, e.message, e.details),
        _ => panic!("no failure of the router"),
    }
}

#[test]
fn api_keys_are_hmac_codes_in_base64() {
    assert_eq!(
        generate_api_key(
            "The quick brown fox jumps over the lazy dog".to_string(),
            "key".to_string()
        ),
        Ok("97yD9DBThCSxMpjmqm+xQ+9NWaFJRhdZl0edvC0aPNg=".to_string())
    );
    assert_eq!(
        generate_api_key(String::new(), String::new()),
        Ok("thNnmggU2ex3L5XXeMNfxf8Wl8STcVZTxscSFEKSxa0=".to_string())
    );
    assert_eq!(
        generate_api_key("mod\u{e8}le".to_string(), "\u{e9}".repeat(100)),
        Ok("8NTMQitdQjLm846XYUQVtVdQ/fYgfdb9mv0XIgIqY5k=".to_string())
    );
}

#[test]
fn a_loaded_model_ends_the_wait_for_it() {
    let answer = listing(r#"{"data": [{"id": "x"}, {"id": "m", "status": {"value": "loaded"}}]}"#);
    assert!(matches!(poll_load(&answer, "m", 0, LOAD_TIMEOUT_SECS), Poll::Done));
    assert!(matches!(poll_load(&answer, "m", 700, LOAD_TIMEOUT_SECS), Poll::Done));
    assert!(matches!(poll_load(&answer, "x", 0, LOAD_TIMEOUT_SECS), Poll::Wait));
}

#[test]
fn a_failed_load_is_reported_with_its_exit_code() {
    let failed = listing(
        r#"{"data": [{"id": "m", "status": {"value": "unloaded", "failed": true, "exit_code": -9}}]}"#,
    );
    assert_eq!(
        failure(poll_load(&failed, "m", 0, 600)),
        (
            ErrorCode::InternalError,
            "Model m failed to load".to_string(),
            Some("exit_code=Some(-9)".to_string())
        )
    );
    let sleeping = listing(r#"{"data": [{"id": "m", "status": {"value": "sleeping", "failed": true}}]}"#);
    assert_eq!(
        failure(poll_load(&sleeping, "m", 0, 600)).2,
        Some("exit_code=None".to_string())
    );
    for pending in [
        r#"{"data": [{"id": "m", "status": {"value": "unloaded", "failed": false}}]}"#,
        r#"{"data": [{"id": "m", "status": {"value": "loading", "failed": true}}]}"#,
        r#"{"data": [{"id": "m", "status": {"value": "LOADED"}}]}"#,
        r#"{"data": [{"id": "m"}]}"#,
        r#"{"data": []}"#,
        r#"[]"#,
    ] {
        assert!(matches!(poll_load(&listing(pending), "m", 599, 600), Poll::Wait));
        assert_eq!(
            failure(poll_load(&listing(pending), "m", 600, 600)),
            (
                ErrorCode::ModelLoadTimedOut,
                "Timed out waiting for model m to load".to_string(),
                Some("waited 600s".to_string())
            )
        );
    }
}

#[test]
fn the_first_entry_of_an_id_counts() {
    let answer = listing(
        r#"{"data": [{"id": "m", "status": {"value": "loading"}}, {"id": "m", "status": {"value": "loaded"}}]}"#,
    );
    assert!(matches!(poll_load(&answer, "m", 0, 1), Poll::Wait));
}

#[test]
fn polls_that_fail_end_the_wait() {
    let unreachable = ListingAnswer::Unreachable("refused".to_string());
    let invalid = ListingAnswer::Invalid("eof".to_string());
    assert_eq!(
        failure(poll_load(&unreachable, "m", 0, 600)),
        (
            ErrorCode::InternalError,
            "Failed to poll router /models".to_string(),
            Some("refused".to_string())
        )
    );
    assert_eq!(
        failure(poll_unload(&invalid, "m", 0, 30)),
        (
            ErrorCode::InternalError,
            "Invalid JSON from /models".to_string(),
            Some("eof".to_string())
        )
    );
    assert!(matches!(poll_load(&invalid, "m", 0, 600), Poll::Fail(_)));
    assert!(matches!(poll_unload(&unreachable, "m", 0, 600), Poll::Fail(_)));
}

#[test]
fn an_unload_waits_for_the_model_to_leave() {
    for held in ["loaded", "loading"] {
        let answer = listing(&format!(r#"{{"data": [{{"id": "m", "status": {{"value": "{}"}}}}]}}"#, held));
        assert!(matches!(poll_unload(&answer, "m", 29, UNLOAD_TIMEOUT_SECS), Poll::Wait));
        assert_eq!(
            failure(poll_unload(&answer, "m", 30, UNLOAD_TIMEOUT_SECS)),
            (
                ErrorCode::InternalError,
                "Timed out waiting for model m to unload".to_string(),
                Some("waited 30s".to_string())
            )
        );
        assert_eq!(
            failure(poll_unload(&answer, "m", 0, 0)).2,
            Some("waited 0ns".to_string())
        );
    }
    for gone in [
        r#"{"data": [{"id": "m", "status": {"value": "sleeping"}}]}"#,
        r#"{"data": [{"id": "m"}]}"#,
        r#"{}"#,
    ] {
        assert!(matches!(poll_unload(&listing(gone), "m", 99, 30), Poll::Done));
    }
}

const MODELS: &str = r#"{"data": [
    {"id": "a", "status": {"value": "Loaded"}},
    {"id": "b", "status": {"value": "UNLOADED"}},
    {"id": "c", "status": {"value": "sleeping"}},
    {"id": "d"},
    {"status": {"value": "loaded"}},
    {"id": "e", "status": {"value": "loaded"}}
]}"#;

#[test]
fn listings_name_loaded_and_held_models() {
    assert_eq!(loaded_model_ids(&json(MODELS)), vec!["a", "e"]);
    assert!(loaded_model_ids(&json("{}")).is_empty());
    let held: Vec<(String, String)> =
        busy_models(&json(MODELS)).into_iter().map(|m| (m.id, m.status)).collect();
    assert_eq!(
        held,
        vec![
            ("a".to_string(), "Loaded".to_string()),
            ("c".to_string(), "sleeping".to_string()),
            ("e".to_string(), "loaded".to_string())
        ]
    );
    assert!(busy_models(&json("[]")).is_empty());
}

#[test]
fn queries_for_loaded_models_name_their_failure() {
    assert_eq!(loaded_models(&listing(MODELS)), Ok(vec!["a".to_string(), "e".to_string()]));
    assert_eq!(
        loaded_models(&ListingAnswer::Unreachable("r".to_string())),
        Err("Failed to query /models: r".to_string())
    );
    assert_eq!(
        loaded_models(&ListingAnswer::Invalid("r".to_string())),
        Err("Invalid JSON from /models: r".to_string())
    );
    assert_eq!(check_listing_status(true, "200 OK"), Ok(()));
    assert_eq!(
        check_listing_status(false, "404 Not Found"),
        Err("/models returned 404 Not Found".to_string())
    );
    assert_eq!(check_reload_status(true, 200), Ok(()));
    assert_eq!(
        check_reload_status(false, 503),
        Err("router reload returned HTTP 503".to_string())
    );
}

fn rejected(status: &str, body: &str) -> PostAnswer {
    PostAnswer::Rejected { status: status.to_string(), body: body.to_string() }
}

#[test]
fn a_rejected_load_goes_on_only_where_the_model_is_there_already() {
    assert!(load_answer(&PostAnswer::Accepted).is_ok());
    assert!(load_answer(&rejected("400 Bad Request", "model is ALREADY loaded")).is_ok());
    assert!(load_answer(&rejected("400 Bad Request", "\u{c9}t\u{e9}: Already loaded")).is_ok());
    match load_answer(&rejected("400 Bad Request", "No such model")) {
        Err(ServerError::Llamacpp(e)) => {
            assert_eq!(e.code, ErrorCode::InternalError);
            assert_eq!(e.message, "Router rejected model load (status 400 Bad Request)");
            assert_eq!(e.details, Some("No such model".to_string()));
        }
        _ => panic!("the rejection was lost"),
    }
    match load_answer(&PostAnswer::Unreachable("refused".to_string())) {
        Err(ServerError::Llamacpp(e)) => {
            assert_eq!(e.message, "Failed to call router /models/load");
            assert_eq!(e.details, Some("refused".to_string()));
        }
        _ => panic!("the failure was lost"),
    }
    assert!(judge_load_answer(&rejected("s", "b"), "it is already there").is_ok());
    assert!(judge_load_answer(&rejected("s", "already"), "").is_err());
}

#[test]
fn a_rejected_unload_names_status_and_body() {
    assert_eq!(unload_answer(&PostAnswer::Accepted), Ok(()));
    assert_eq!(
        unload_answer(&rejected("500 Internal Server Error", "already gone")),
        Err("Router rejected unload (status 500 Internal Server Error): already gone".to_string())
    );
    assert_eq!(
        unload_answer(&PostAnswer::Unreachable("refused".to_string())),
        Err("Failed to call /models/unload: refused".to_string())
    );
}

#[test]
fn a_forced_unload_fails_only_without_an_answer() {
    assert_eq!(force_unload_result(&PostAnswer::Accepted), Ok(true));
    assert_eq!(force_unload_result(&rejected("500", "b")), Ok(true));
    assert_eq!(
        force_unload_result(&PostAnswer::Unreachable("refused".to_string())),
        Err("refused".to_string())
    );
}

#[test]
fn a_sweep_unloads_what_is_held() {
    let ids: Vec<String> =
        models_to_unload(&listing(MODELS)).unwrap_or_default().into_iter().map(|m| m.id).collect();
    assert_eq!(ids, vec!["a", "c", "e"]);
    for answer in [
        ListingAnswer::Unreachable("r".to_string()),
        ListingAnswer::Invalid("r".to_string()),
    ] {
        assert_eq!(models_to_unload(&answer).err(), Some("r".to_string()));
    }
}

#[test]
fn addresses_and_events_are_named() {
    assert_eq!(endpoint_url(8080, "/models/sse"), "http://127.0.0.1:8080/models/sse");
    assert_eq!(endpoint_url(0, ""), "http://127.0.0.1:0");
    assert_eq!(router_error_event("oom"), "llamacpp-router-oom");
    assert_eq!(router_error_event("crash"), "llamacpp-router-backend-error");
}

#[test]
fn slots_are_busy_or_idle() {
    let busy = r#"[{"id": 0}, {"is_processing": true}]"#;
    let idle = r#"[{"is_processing": false}, {"is_processing": "true"}, 3]"#;
    assert!(slots_busy(&json(busy)));
    assert!(!slots_idle(&SlotsAnswer::Slots(json(busy))));
    assert!(!slots_busy(&json(idle)));
    assert!(slots_idle(&SlotsAnswer::Slots(json(idle))));
    assert!(!slots_busy(&json(r#"{"is_processing": true}"#)));
    for answer in [
        SlotsAnswer::Unreachable("r".to_string()),
        SlotsAnswer::Rejected,
        SlotsAnswer::Invalid("r".to_string()),
    ] {
        assert!(slots_idle(&answer));
    }
}

#[test]
fn only_busy_models_are_unloaded_by_force() {
    let busy = SlotsAnswer::Slots(json(r#"[{"is_processing": true}]"#));
    assert_eq!(must_force_unload(&busy), Ok(true));
    assert_eq!(must_force_unload(&SlotsAnswer::Slots(json("[]"))), Ok(false));
    assert_eq!(must_force_unload(&SlotsAnswer::Rejected), Ok(false));
    assert_eq!(
        must_force_unload(&SlotsAnswer::Unreachable("r".to_string())),
        Err("r".to_string())
    );
    assert_eq!(
        must_force_unload(&SlotsAnswer::Invalid("s".to_string())),
        Err("s".to_string())
    );
}

fn info(pid: u32) -> RouterInfo {
    RouterInfo { port: 65535, api_key: "k".to_string(), pid }
}

#[test]
fn sessions_carry_the_router_they_run_on() {
    let session = session_info(info(u32::MAX), "m".to_string(), true);
    assert_eq!((session.pid, session.port), (-1, 65535));
    assert_eq!((session.model_id.as_str(), session.api_key.as_str()), ("m", "k"));
    assert!(session.is_embedding);
    let loaded = vec!["a".to_string(), "m".to_string()];
    let found = find_session(info(4), &loaded, "m".to_string()).unwrap();
    assert_eq!((found.pid, found.is_embedding), (4, false));
    assert!(find_session(info(4), &loaded, "n".to_string()).is_none());
}

#[test]
fn without_a_router_there_is_nothing() {
    assert!(find_session_where_running(None, "m".to_string()).is_none());
    let running = Some((info(4), vec!["m".to_string()]));
    assert_eq!(find_session_where_running(running, "m".to_string()).unwrap().pid, 4);
    let other = Some((info(4), vec!["n".to_string()]));
    assert!(find_session_where_running(other, "m".to_string()).is_none());
    assert!(models_where_running(None).is_empty());
    assert_eq!(models_where_running(Some(vec!["m".to_string()])), vec!["m"]);
    assert!(idle_where_known(None));
    let busy = SlotsAnswer::Slots(json(r#"[{"is_processing": true}]"#));
    assert!(!idle_where_known(Some(&busy)));
    assert!(idle_where_known(Some(&SlotsAnswer::Rejected)));
}

#[test]
fn unload_results_carry_the_error() {
    let good = unload_result(Ok(()));
    assert!(good.success && good.error.is_none());
    let bad = unload_result(Err("e".to_string()));
    assert!(!bad.success);
    assert_eq!(bad.error, Some("e".to_string()));
}

fn handle(pid: u32) -> RouterHandle<&'static str> {
    RouterHandle { info: info(pid), process: "p" }
}

#[test]
fn one_router_runs_at_a_time() {
    let mut slot: RouterSlot<&'static str> = RouterSlot::new();
    assert_eq!(slot.router_endpoint().unwrap_err(), "router not started");
    assert!(slot.get_router_info().is_none());
    assert_eq!(slot.check_start(), Ok(()));
    assert_eq!(slot.start(handle(7)).pid, 7);
    assert_eq!(slot.check_start(), Err("Router is already running.".to_string()));
    assert_eq!(slot.router_endpoint().unwrap().port, 65535);
    assert_eq!(slot.get_router_info().unwrap().api_key, "k");
    assert_eq!(slot.stop().unwrap().process, "p");
    assert!(slot.stop().is_none());
    assert_eq!(slot.check_start(), Ok(()));
    assert!(matches!(slot.force_kill(), KillTarget::Nothing));
}

#[test]
fn a_busy_router_comes_back() {
    let mut slot: RouterSlot<&'static str> = RouterSlot::new();
    assert!(slot.begin_graceful_stop().is_none());
    slot.start(handle(7));
    let taken = slot.begin_graceful_stop().unwrap();
    assert!(slot.get_router_info().is_none());
    let busy = slot.finish_graceful_stop(StopOutcome::Busy(taken, vec!["m".to_string()]));
    assert_eq!(busy, Some(vec!["m".to_string()]));
    assert_eq!(slot.get_router_info().unwrap().pid, 7);
    assert!(matches!(slot.force_kill(), KillTarget::Tree(h) if h.info.pid == 7));
    assert!(slot.get_router_info().is_none());
}

#[test]
fn a_router_can_be_killed_while_it_stops() {
    let mut slot: RouterSlot<&'static str> = RouterSlot::new();
    slot.start(handle(7));
    slot.begin_graceful_stop();
    assert!(matches!(slot.force_kill(), KillTarget::Pid(7)));
    assert!(matches!(slot.force_kill(), KillTarget::Nothing));
    slot.start(handle(8));
    slot.begin_graceful_stop();
    assert_eq!(slot.finish_graceful_stop(StopOutcome::Stopped), None);
    assert!(matches!(slot.force_kill(), KillTarget::Nothing));
}
