use llm_gateway::sse::{parse_event, split_blocks, SseAccumulator, SseEvent};

#[test]
fn parses_a_single_event_in_one_chunk() {
    let mut acc = SseAccumulator::new();
    let events = acc.push("data: {\"a\":1}\n\n");
    assert_eq!(
        events,
        vec![SseEvent {
            event: String::new(),
            data: "{\"a\":1}".to_string()
        }]
    );
}

#[test]
fn buffers_an_event_split_across_chunks() {
    let mut acc = SseAccumulator::new();
    assert!(acc.push("data: {\"a\":").is_empty());
    assert!(acc.push("1}").is_empty());
    let events = acc.push("\n\n");
    assert_eq!(events.len(), 1);
    assert_eq!(events[0].data, "{\"a\":1}");
}

#[test]
fn yields_multiple_events_from_one_chunk() {
    let mut acc = SseAccumulator::new();
    let events = acc.push("data: 1\n\ndata: 2\n\n");
    assert_eq!(events.len(), 2);
    assert_eq!(events[0].data, "1");
    assert_eq!(events[1].data, "2");
}

#[test]
fn joins_multiline_data_and_reads_event_field() {
    let mut acc = SseAccumulator::new();
    let events = acc.push("event: response.delta\ndata: line1\ndata: line2\n\n");
    assert_eq!(events.len(), 1);
    assert_eq!(events[0].event, "response.delta");
    assert_eq!(events[0].data, "line1\nline2");
}

#[test]
fn normalizes_crlf_boundaries() {
    let mut acc = SseAccumulator::new();
    let events = acc.push("data: x\r\n\r\n");
    assert_eq!(events.len(), 1);
    assert_eq!(events[0].data, "x");
}

#[test]
fn ignores_comment_lines_and_preserves_done_sentinel() {
    let mut acc = SseAccumulator::new();
    let events = acc.push(": keep-alive\n\ndata: [DONE]\n\n");
    // The comment-only block yields no event; [DONE] is preserved verbatim.
    assert_eq!(events.len(), 1);
    assert_eq!(events[0].data, "[DONE]");
}

#[test]
fn finish_flushes_a_trailing_event_without_blank_line() {
    let mut acc = SseAccumulator::new();
    assert!(acc.push("data: tail").is_empty());
    let last = acc.finish();
    assert_eq!(last.map(|e| e.data), Some("tail".to_string()));
}

#[test]
fn finish_is_empty_when_buffer_has_no_fields() {
    let mut acc = SseAccumulator::new();
    acc.push("data: done\n\n");
    assert_eq!(acc.finish(), None);
}

fn all_events(chunks: &[&str]) -> (Vec<SseEvent>, Option<SseEvent>) {
    let mut acc = SseAccumulator::default();
    let mut events: Vec<SseEvent> = Vec::new();
    for chunk in chunks {
        events.extend(acc.push(chunk));
    }
    (events, acc.finish())
}

#[test]
fn every_cut_of_a_body_gives_the_same_events() {
    let body = "event: a\ndata: 1\n\n: note\n\ndata: \u{e9}\u{1f600}\ndata:2\n\ndata: rest";
    let whole = all_events(&[body]);
    assert_eq!(whole.0.len(), 2);
    for (i, _) in body.char_indices() {
        for (j, _) in body.char_indices() {
            if i <= j {
                assert_eq!(all_events(&[&body[..i], &body[i..j], &body[j..]]), whole);
            }
        }
    }
}

#[test]
fn every_cut_of_a_crlf_body_gives_the_same_events() {
    let body = "event: a\r\ndata: 1\r\n\r\ndata: 2\r\r\n\r\n\r\ndata: rest\r\n";
    let whole = all_events(&[body]);
    assert_eq!(whole.0.len(), 2);
    assert_eq!(whole.1.as_ref().map(|e| e.data.as_str()), Some("rest"));
    for i in 0..body.len() {
        for j in i..body.len() {
            assert_eq!(all_events(&[&body[..i], &body[i..j], &body[j..]]), whole);
        }
    }
}

#[test]
fn an_event_whose_last_crlf_is_cut_is_given_out() {
    let mut acc = SseAccumulator::new();
    assert!(acc.push("data: x\r\n\r").is_empty());
    assert!(acc.push("").is_empty());
    let events = acc.push("\n");
    assert_eq!(
        events,
        vec![SseEvent { event: String::new(), data: "x".to_string() }]
    );
    assert!(acc.push("data: x\r\n\r").is_empty());
    let both: Vec<String> =
        acc.push("\ndata: y\r\n\r\n").into_iter().map(|e| e.data).collect();
    assert_eq!(both, vec!["x", "y"]);
}

#[test]
fn a_carriage_return_on_its_own_stays() {
    let mut acc = SseAccumulator::new();
    assert!(acc.push("data: x\r").is_empty());
    assert_eq!(acc.push("y\n\n")[0].data, "x\ry");
    acc.push("data: z\r");
    assert_eq!(acc.finish().map(|e| e.data), Some("z\r".to_string()));
}

#[test]
fn one_leading_space_is_dropped_and_no_more() {
    let event = parse_event("event:  e\ndata:  d\ndata:d2").unwrap();
    assert_eq!(event.event, " e");
    assert_eq!(event.data, " d\nd2");
}

#[test]
fn the_last_event_field_counts() {
    let event = parse_event("event: a\nid: 7\nretry: 3\nevent: b\n").unwrap();
    assert_eq!(event.event, "b");
    assert_eq!(event.data, "");
}

#[test]
fn a_block_without_fields_is_no_event() {
    assert_eq!(parse_event(""), None);
    assert_eq!(parse_event(":x\n\nid: 1\ndat: 2"), None);
}

#[test]
fn an_event_is_read_back_as_it_was_written() {
    let (events, rest) = all_events(&["event: n\ndata: [DONE]\n\n"]);
    assert_eq!(
        events,
        vec![SseEvent { event: "n".to_string(), data: "[DONE]".to_string() }]
    );
    assert_eq!(rest, None);
}

#[test]
fn an_event_of_many_lines_is_read_back_as_it_was_written() {
    let (events, rest) = all_events(&["event: n\ndata: 1\ndata: \ndata: 3\n\n"]);
    assert_eq!(
        events,
        vec![SseEvent { event: "n".to_string(), data: "1\n\n3".to_string() }]
    );
    assert_eq!(rest, None);
    let (named, _) = all_events(&["event: only\n\n"]);
    assert_eq!(named[0], SseEvent { event: "only".to_string(), data: String::new() });
}

#[test]
fn the_end_stands_in_for_the_blank_line() {
    for waiting in [
        "event: e\ndata: 1\ndata: 2\n",
        "event: e\ndata: 1",
        "data: 1\r\n\r",
        ": note\r",
        "id: 7",
        "\n",
        "",
    ] {
        let (none, rest) = all_events(&[waiting]);
        assert!(none.is_empty());
        let (complete, after) = all_events(&[waiting, "\n\n"]);
        assert_eq!(complete, rest.into_iter().collect::<Vec<SseEvent>>());
        assert_eq!(after, None);
    }
}

#[test]
fn blocks_keep_all_text() {
    let (blocks, rest) = split_blocks("a\n\n\n\nb\n\n\nc");
    assert_eq!(blocks, vec!["a\n\n", "\n\n", "b\n\n"]);
    assert_eq!(rest, "\nc");
}

#[test]
fn finish_empties_the_accumulator() {
    let mut acc = SseAccumulator::new();
    acc.push("data: one");
    assert!(acc.finish().is_some());
    assert_eq!(acc.finish(), None);
    assert_eq!(SseEvent::default(), SseEvent { event: String::new(), data: String::new() });
}
