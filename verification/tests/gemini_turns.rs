use codex_gemini::gemini::map_history_to_contents;
use codex_gemini::gemini_models::{
    Candidate, Content, ErrorEnvelope, FunctionCall, GeminiStreamEnvelope, GeminiStreamResult,
    GenerateContentResponse, GoogleApiError, Part, UsageMetadata,
};
use codex_gemini::gemini_session::{
    can_count_response, chunk_of, process_json_response, process_json_response_as, GeminiSession,
    SseChunk, SseInput, SseStep,
};
use codex_gemini::gemini_stream::{
    process_parts, usage_from_metadata, GeminiCallTracker, GeminiTextState,
};
use codex_gemini::protocol::{
    CodexErr, ContentItem, ResponseEvent, ResponseItem, TokenUsage, UnexpectedResponseError,
};
use serde_json::Value;

fn json(text: &str) -> Value {
    serde_json::from_str(text).unwrap()
}

fn empty_part() -> Part {
    Part {
        text: None,
        inline_data: None,
        media_resolution: None,
        function_call: None,
        function_response: None,
        thought_signature: None,
        thought: None,
    }
}

fn text_part(text: &str) -> Part {
    Part { text: Some(text.to_string()), ..empty_part() }
}

fn call_part(name: &str, args: &str) -> Part {
    Part {
        function_call: Some(FunctionCall { name: name.to_string(), args: json(args) }),
        ..empty_part()
    }
}

fn candidate(parts: Vec<Part>) -> Candidate {
    Candidate {
        content: Some(Content { role: "model".to_string(), parts }),
        finish_reason: None,
        index: None,
        safety_ratings: None,
    }
}

fn counts(prompt: i64, candidates: i64, total: i64) -> UsageMetadata {
    UsageMetadata {
        prompt_token_count: Some(prompt),
        candidates_token_count: Some(candidates),
        total_token_count: Some(total),
        thoughts_token_count: None,
    }
}

fn said(parts: Vec<Part>) -> GeminiStreamResult {
    GeminiStreamResult { candidates: Some(vec![candidate(parts)]), usage_metadata: None }
}

fn answer(parts: Vec<Part>, usage: Option<UsageMetadata>) -> GenerateContentResponse {
    GenerateContentResponse {
        candidates: Some(vec![candidate(parts)]),
        prompt_feedback: None,
        usage_metadata: usage,
    }
}

fn run_stream(results: Vec<GeminiStreamResult>) -> Vec<ResponseEvent> {
    let mut out = Vec::new();
    let mut session = GeminiSession::begin(&mut out);
    for result in results {
        assert!(session.can_count(&result));
        let envelope = GeminiStreamEnvelope::Wrapped { result };
        session.take_chunk(SseChunk::Message(envelope), &mut out).unwrap();
    }
    assert!(matches!(session.step(SseInput::Data("[DONE]")), SseStep::Finish));
    session.finish_as("r1".to_string(), &mut out).unwrap();
    out
}

fn run_json(response: GenerateContentResponse) -> Vec<ResponseEvent> {
    let mut out = Vec::new();
    assert!(can_count_response(&response));
    process_json_response(&response, &mut out);
    out
}

fn assistant_text(events: &[ResponseEvent]) -> String {
    let mut buf = String::new();
    for event in events {
        match event {
            ResponseEvent::OutputItemDone(ResponseItem::Message { role, content, .. })
                if role == "assistant" =>
            {
                for item in content {
                    if let ContentItem::OutputText { text } = item {
                        buf.push_str(text);
                    }
                }
            }
            ResponseEvent::OutputTextDelta(text) => buf.push_str(text),
            _ => {}
        }
    }
    buf
}

fn deltas(events: &[ResponseEvent]) -> String {
    events
        .iter()
        .filter_map(|event| match event {
            ResponseEvent::OutputTextDelta(text) => Some(text.as_str()),
            _ => None,
        })
        .collect()
}

fn calls(events: &[ResponseEvent]) -> Vec<(String, Value, String)> {
    events
        .iter()
        .filter_map(|event| match event {
            ResponseEvent::OutputItemDone(ResponseItem::FunctionCall {
                name,
                arguments,
                call_id,
                ..
            }) => Some((name.clone(), json(arguments), call_id.clone())),
            _ => None,
        })
        .collect()
}

fn order(events: &[ResponseEvent]) -> Vec<&'static str> {
    events
        .iter()
        .filter_map(|event| match event {
            ResponseEvent::OutputItemDone(ResponseItem::Message { .. }) => Some("assistant_done"),
            ResponseEvent::OutputItemDone(ResponseItem::FunctionCall { .. }) => {
                Some("function_call")
            }
            ResponseEvent::Completed { .. } => Some("completed"),
            _ => None,
        })
        .collect()
}

fn usage(events: &[ResponseEvent]) -> Option<TokenUsage> {
    events.iter().find_map(|event| match event {
        ResponseEvent::Completed { token_usage, .. } => *token_usage,
        _ => None,
    })
}

fn message(text: &str, signature: Option<&str>) -> ResponseItem {
    ResponseItem::Message {
        id: None,
        role: "assistant".to_string(),
        content: vec![ContentItem::OutputText { text: text.to_string() }],
        thought_signature: signature.map(str::to_string),
    }
}

#[test]
fn an_answer_is_given_out_with_its_tokens() {
    let events = run_json(answer(vec![text_part("Hello from Gemini")], Some(counts(3, 2, 5))));
    assert!(assistant_text(&events).contains("Hello from Gemini"));
    let usage = usage(&events).expect("token usage should be present");
    assert_eq!(usage.input_tokens, 3);
    assert_eq!(usage.output_tokens, 2);
    assert_eq!(usage.total_tokens, 5);
}

#[test]
fn gemini_streaming_sse_round_trip() {
    let events = run_stream(vec![
        said(vec![text_part("Hello")]),
        said(vec![text_part(" world")]),
        GeminiStreamResult { candidates: None, usage_metadata: Some(counts(4, 3, 7)) },
    ]);
    assert!(assistant_text(&events).contains("Hello world"));
    let usage = usage(&events).expect("token usage should be present");
    assert_eq!(usage.input_tokens, 4);
    assert_eq!(usage.output_tokens, 3);
    assert_eq!(usage.total_tokens, 7);
    assert_eq!(
        events,
        vec![
            ResponseEvent::Created,
            ResponseEvent::OutputItemAdded(message("", None)),
            ResponseEvent::OutputTextDelta("Hello".to_string()),
            ResponseEvent::OutputTextDelta(" world".to_string()),
            ResponseEvent::OutputItemDone(message("Hello world", None)),
            ResponseEvent::Completed { response_id: "r1".to_string(), token_usage: Some(usage) },
        ]
    );
}

#[test]
fn gemini_non_streaming_emits_function_call() {
    let events = run_json(answer(
        vec![call_part("write_file", r#"{"path":"/tmp/demo.txt","contents":"hello"}"#)],
        None,
    ));
    let made = calls(&events);
    assert_eq!(made.len(), 1);
    let (name, args, call_id) = &made[0];
    assert_eq!(name, "write_file");
    assert_eq!(call_id, "gemini_call_1");
    assert_eq!(args["path"], Value::from("/tmp/demo.txt"));
    assert_eq!(args["contents"], Value::from("hello"));
    assert!(events.iter().any(|event| matches!(event, ResponseEvent::Completed { .. })));
}

#[test]
fn gemini_streaming_flushes_text_before_tool_call() {
    let events = run_stream(vec![
        said(vec![text_part("Write ")]),
        said(vec![call_part("append_file", r#"{"path":"/tmp/log.txt","content":"details"}"#)]),
    ]);
    assert_eq!(deltas(&events), "Write ");
    assert_eq!(order(&events), vec!["assistant_done", "function_call", "completed"]);
    let made = calls(&events);
    let (name, args, call_id) = &made[0];
    assert_eq!(name, "append_file");
    assert_eq!(call_id, "gemini_call_1");
    assert_eq!(args["path"], Value::from("/tmp/log.txt"));
    assert_eq!(args["content"], Value::from("details"));
}

#[test]
fn gemini_streaming_handles_text_and_function_call_in_same_chunk() {
    let events = run_stream(vec![said(vec![
        text_part("Plan and call tool"),
        call_part("append_file", r#"{"path":"/tmp/log.txt","content":"details"}"#),
    ])]);
    assert!(assistant_text(&events).contains("Plan and call tool"));
    assert_eq!(order(&events), vec!["assistant_done", "function_call", "completed"]);
    let made = calls(&events);
    let (name, args, call_id) = &made[0];
    assert_eq!(name, "append_file");
    assert_eq!(call_id, "gemini_call_1");
    assert_eq!(args["path"], Value::from("/tmp/log.txt"));
    assert_eq!(args["content"], Value::from("details"));
}

#[test]
fn gemini_non_streaming_emits_multiple_function_calls_with_rich_arguments() {
    let events = run_json(answer(
        vec![
            call_part(
                "append_file",
                r#"{"path":"/tmp/activity.log","content":"first line","mode":"append","permissions":"0644"}"#,
            ),
            call_part(
                "shell",
                r#"{"command":"ls /tmp","timeout_ms":5000,"env":{"DEBUG":"1"}}"#,
            ),
        ],
        None,
    ));
    let made = calls(&events);
    assert_eq!(made.len(), 2, "expected two function calls from Gemini payload");
    assert_eq!(made[0].0, "append_file");
    assert_eq!(made[0].2, "gemini_call_1");
    assert_eq!(made[0].1["path"], Value::from("/tmp/activity.log"));
    assert_eq!(made[0].1["mode"], Value::from("append"));
    assert_eq!(made[0].1["permissions"], Value::from("0644"));
    assert_eq!(made[0].1["content"], Value::from("first line"));
    assert_eq!(made[1].0, "shell");
    assert_eq!(made[1].2, "gemini_call_2");
    assert_eq!(made[1].1["command"], Value::from("ls /tmp"));
    assert_eq!(made[1].1["timeout_ms"], Value::from(5000));
    assert_eq!(made[1].1["env"]["DEBUG"], Value::from("1"));
    assert!(events.iter().any(|event| matches!(event, ResponseEvent::Completed { .. })));
}

#[test]
fn gemini_streaming_emits_exec_function_call_with_error_details() {
    let events = run_stream(vec![
        said(vec![text_part("Running command")]),
        said(vec![call_part(
            "shell",
            r#"{"command":"cat restricted.txt","exit_code":1,"stderr":"permission denied"}"#,
        )]),
    ]);
    assert!(deltas(&events).contains("Running command"));
    let made = calls(&events);
    let (name, args, call_id) = &made[0];
    assert_eq!(name, "shell");
    assert_eq!(call_id, "gemini_call_1");
    assert_eq!(args["command"], Value::from("cat restricted.txt"));
    assert_eq!(args["exit_code"], Value::from(1));
    assert_eq!(args["stderr"], Value::from("permission denied"));
    assert!(events.iter().any(|event| matches!(event, ResponseEvent::Completed { .. })));
}

#[test]
fn text_that_comes_with_a_signature_keeps_it() {
    let mut part = text_part("thought about it");
    part.thought_signature = Some("sig".to_string());
    let events = run_stream(vec![said(vec![part])]);
    assert!(events.contains(&ResponseEvent::OutputItemDone(message(
        "thought about it",
        Some("sig")
    ))));
}

#[test]
fn a_signature_alone_announces_a_message() {
    let mut part = call_part("f", "{}");
    part.thought_signature = Some("sig".to_string());
    let mut out = Vec::new();
    let mut text = GeminiTextState::default();
    let mut tracker = GeminiCallTracker::default();
    process_parts(&vec![part], &mut out, &mut text, &mut tracker);
    assert_eq!(
        out,
        vec![
            ResponseEvent::OutputItemAdded(message("", None)),
            ResponseEvent::OutputItemDone(message("", Some("sig"))),
            ResponseEvent::OutputItemDone(ResponseItem::FunctionCall {
                id: None,
                name: "f".to_string(),
                arguments: "{}".to_string(),
                call_id: "gemini_call_1".to_string(),
                thought_signature: Some("sig".to_string()),
            }),
        ]
    );
    assert!(!text.active);
    assert_eq!(tracker.next, 2);
}

#[test]
fn empty_text_is_not_given_out() {
    let events = run_stream(vec![said(vec![text_part("")])]);
    assert_eq!(order(&events), vec!["completed"]);
    assert_eq!(events.len(), 2);
}

#[test]
fn a_later_signature_replaces_an_earlier_one_and_none_changes_nothing() {
    let mut state = GeminiTextState::default();
    state.note_thought_signature(Some("a".to_string()));
    state.note_thought_signature(None);
    assert_eq!(state.thought_signature.as_deref(), Some("a"));
    state.note_thought_signature(Some("b".to_string()));
    assert_eq!(state.thought_signature.as_deref(), Some("b"));
}

#[test]
fn call_ids_count_up() {
    let mut tracker = GeminiCallTracker { next: 9 };
    assert_eq!(tracker.next_call_id(), "gemini_call_9");
    assert_eq!(tracker.next_call_id(), "gemini_call_10");
    assert_eq!(tracker.next, 11);
}

#[test]
fn only_the_first_candidate_of_a_json_answer_is_given_out() {
    let response = GenerateContentResponse {
        candidates: Some(vec![
            candidate(vec![text_part("first")]),
            candidate(vec![text_part("second")]),
        ]),
        prompt_feedback: None,
        usage_metadata: None,
    };
    let mut out = Vec::new();
    process_json_response_as(&response, "id".to_string(), &mut out);
    assert_eq!(deltas(&out), "first");
    assert_eq!(
        out.last(),
        Some(&ResponseEvent::Completed { response_id: "id".to_string(), token_usage: None })
    );
}

#[test]
fn all_candidates_of_a_stream_are_given_out() {
    let events = run_stream(vec![GeminiStreamResult {
        candidates: Some(vec![
            candidate(vec![text_part("first")]),
            candidate(vec![text_part(" second")]),
        ]),
        usage_metadata: None,
    }]);
    assert_eq!(deltas(&events), "first second");
}

#[test]
fn an_answer_without_candidates_completes() {
    let response =
        GenerateContentResponse { candidates: None, prompt_feedback: None, usage_metadata: None };
    assert_eq!(order(&run_json(response)), vec!["completed"]);
}

#[test]
fn the_id_of_a_response_is_a_random_uuid() {
    let mut ids = Vec::new();
    for _ in 0..2 {
        let events = run_json(answer(vec![], None));
        match &events[0] {
            ResponseEvent::Completed { response_id, .. } => ids.push(response_id.clone()),
            other => panic!("unexpected event {other:?}"),
        }
    }
    assert_ne!(ids[0], ids[1]);
    for id in ids {
        assert_eq!(id.len(), 36);
        let bytes = id.as_bytes();
        for at in [8, 13, 18, 23] {
            assert_eq!(bytes[at], b'-');
        }
        assert_eq!(bytes[14], b'4');
        assert!(matches!(bytes[19], b'8' | b'9' | b'a' | b'b'));
    }
}

#[test]
fn a_stream_that_is_done_gets_a_random_id() {
    let mut out = Vec::new();
    let mut session = GeminiSession::begin(&mut out);
    assert!(matches!(session.step(SseInput::Data(" [DONE] ")), SseStep::Finish));
    session.finish(&mut out).unwrap();
    match out.last() {
        Some(ResponseEvent::Completed { response_id, token_usage: None }) => {
            assert_eq!(response_id.len(), 36)
        }
        other => panic!("unexpected event {other:?}"),
    }
}

#[test]
fn a_stream_that_closes_before_anything_came_fails() {
    let mut out = Vec::new();
    let mut session = GeminiSession::begin(&mut out);
    assert!(matches!(session.step(SseInput::Data("  \n")), SseStep::ReadOn));
    session.take_chunk(SseChunk::Unreadable, &mut out).unwrap();
    assert!(matches!(session.step(SseInput::End), SseStep::Finish));
    assert_eq!(
        session.finish_as("r".to_string(), &mut out),
        Err(CodexErr::Stream("Gemini stream closed before completion".to_string(), None))
    );
    assert_eq!(out, vec![ResponseEvent::Created]);
}

#[test]
fn a_message_without_content_is_enough_to_complete() {
    let mut out = Vec::new();
    let mut session = GeminiSession::begin(&mut out);
    let envelope = GeminiStreamEnvelope::Unwrapped(GeminiStreamResult {
        candidates: None,
        usage_metadata: None,
    });
    session.take_chunk(SseChunk::Message(envelope), &mut out).unwrap();
    assert_eq!(session.finish_as("r".to_string(), &mut out), Ok(()));
    assert_eq!(order(&out), vec!["completed"]);
}

#[test]
fn a_payload_is_handed_out_without_the_space_around_it() {
    let mut out = Vec::new();
    let mut session = GeminiSession::begin(&mut out);
    match session.step(SseInput::Data(" {\"a\":1}\n")) {
        SseStep::Take(text) => assert_eq!(text, "{\"a\":1}"),
        _ => panic!("expected a payload"),
    }
    assert!(!session.saw_done);
}

#[test]
fn a_broken_stream_is_reported() {
    let mut out = Vec::new();
    let mut session = GeminiSession::begin(&mut out);
    match session.step(SseInput::Broken("reset")) {
        SseStep::Fail(err) => {
            assert_eq!(err, CodexErr::Stream("Gemini SSE error: reset".to_string(), None))
        }
        _ => panic!("expected a failure"),
    }
}

#[test]
fn a_refusal_ends_the_stream_with_its_status() {
    for (code, status) in [(429, 429), (503, 503), (0, 400), (1000, 400), (65536 + 404, 404)] {
        let mut out = Vec::new();
        let mut session = GeminiSession::begin(&mut out);
        let refusal = ErrorEnvelope {
            error: Some(GoogleApiError {
                code,
                message: "quota".to_string(),
                status: Some("RESOURCE_EXHAUSTED".to_string()),
            }),
        };
        assert_eq!(
            session.take_chunk(chunk_of(None, Some(refusal)), &mut out),
            Err(CodexErr::UnexpectedStatus(UnexpectedResponseError {
                status,
                body: "quota".to_string(),
                request_id: None,
            }))
        );
        assert_eq!(out, vec![ResponseEvent::Created]);
    }
}

#[test]
fn a_message_that_can_be_read_is_no_refusal() {
    let envelope = GeminiStreamEnvelope::Unwrapped(said(vec![text_part("x")]));
    let refusal = ErrorEnvelope {
        error: Some(GoogleApiError { code: 500, message: String::new(), status: None }),
    };
    assert!(matches!(chunk_of(Some(envelope), Some(refusal)), SseChunk::Message(_)));
    assert!(matches!(chunk_of(None, Some(ErrorEnvelope { error: None })), SseChunk::Unreadable));
    assert!(matches!(chunk_of(None, None), SseChunk::Unreadable));
}

#[test]
fn tokens_are_counted_from_what_is_given() {
    let meta = UsageMetadata {
        prompt_token_count: Some(10),
        candidates_token_count: Some(4),
        total_token_count: None,
        thoughts_token_count: Some(3),
    };
    assert_eq!(
        usage_from_metadata(&meta),
        Some(TokenUsage {
            input_tokens: 10,
            cached_input_tokens: 0,
            output_tokens: 4,
            reasoning_output_tokens: 3,
            total_tokens: 14,
        })
    );
    assert_eq!(usage_from_metadata(&UsageMetadata::default()), None);
    let only_input = UsageMetadata { prompt_token_count: Some(5), ..UsageMetadata::default() };
    assert_eq!(usage_from_metadata(&only_input).unwrap().total_tokens, 5);
}

#[test]
fn the_last_count_of_a_stream_stands() {
    let events = run_stream(vec![
        GeminiStreamResult { candidates: None, usage_metadata: Some(counts(1, 1, 2)) },
        GeminiStreamResult { candidates: None, usage_metadata: Some(counts(8, 9, 17)) },
        said(vec![text_part("x")]),
    ]);
    assert_eq!(usage(&events).unwrap().total_tokens, 17);
}

#[test]
fn counts_that_do_not_fit_are_seen() {
    let too_much = UsageMetadata {
        prompt_token_count: Some(i64::MAX),
        candidates_token_count: Some(1),
        total_token_count: Some(0),
        thoughts_token_count: None,
    };
    let mut out = Vec::new();
    let mut session = GeminiSession::begin(&mut out);
    let result =
        GeminiStreamResult { candidates: None, usage_metadata: Some(too_much) };
    assert!(!session.can_count(&result));
    session.call_tracker.next = usize::MAX;
    assert!(!session.can_count(&said(vec![call_part("f", "{}")])));
    assert!(session.can_count(&said(vec![text_part("t")])));
    assert!(!can_count_response(&answer(vec![], Some(too_much))));
}

#[test]
fn what_the_model_says_goes_back_as_it_came() {
    let args = r#"{"nested":{"list":[1,-2,18446744073709551615,null,true,"\u00e9\n\""]},"":"","$ref":"a","$schema":{"$":1}}"#;
    let mut call = call_part("deploy", args);
    call.thought_signature = Some("call-sig".to_string());
    let mut thought = text_part("thinking");
    thought.thought_signature = Some("text-sig".to_string());
    let events = run_stream(vec![said(vec![thought, text_part(" done"), call])]);
    let items: Vec<ResponseItem> = events
        .into_iter()
        .filter_map(|event| match event {
            ResponseEvent::OutputItemDone(item) => Some(item),
            _ => None,
        })
        .collect();
    let contents = map_history_to_contents(&items);
    assert_eq!(contents.len(), 1);
    assert_eq!(contents[0].role, "model");
    assert_eq!(contents[0].parts.len(), 2);
    assert_eq!(contents[0].parts[0].text.as_deref(), Some("thinking done"));
    assert_eq!(contents[0].parts[0].thought_signature.as_deref(), Some("call-sig"));
    let back = contents[0].parts[1].function_call.as_ref().unwrap();
    assert_eq!(back.name, "deploy");
    assert_eq!(back.args, json(args));
    assert_eq!(contents[0].parts[1].thought_signature.as_deref(), Some("call-sig"));
}

fn items_of(events: Vec<ResponseEvent>) -> Vec<ResponseItem> {
    events
        .into_iter()
        .filter_map(|event| match event {
            ResponseEvent::OutputItemDone(item) => Some(item),
            _ => None,
        })
        .collect()
}

#[test]
fn the_key_for_raw_values_goes_back_behind_a_smaller_one() {
    let args = r#"{"!":1,"$serde_json::private::RawValue":{"a":"b"}}"#;
    let contents =
        map_history_to_contents(&items_of(run_stream(vec![said(vec![call_part("deploy", args)])])));
    assert_eq!(contents[0].parts[0].function_call.as_ref().unwrap().args, json(args));
}

#[test]
fn a_call_keeps_its_name_and_signature_whatever_its_arguments() {
    let mut call = call_part("measure", "[0.1,1e300]");
    call.thought_signature = Some("sig".to_string());
    let contents = map_history_to_contents(&items_of(run_stream(vec![said(vec![call])])));
    assert_eq!(contents.len(), 1);
    let last = contents[0].parts.last().unwrap();
    assert_eq!(last.function_call.as_ref().unwrap().name, "measure");
    assert_eq!(last.thought_signature.as_deref(), Some("sig"));
}

fn read_stream(inputs: Vec<SseInput>, wrapped: bool) -> (Vec<ResponseEvent>, Result<(), CodexErr>) {
    let mut out = Vec::new();
    let mut session = GeminiSession::begin(&mut out);
    for input in inputs {
        match session.step(input) {
            SseStep::ReadOn => {}
            SseStep::Finish => break,
            SseStep::Fail(err) => return (out, Err(err)),
            SseStep::Take("unreadable") => {
                session.take_chunk(SseChunk::Unreadable, &mut out).unwrap();
            }
            SseStep::Take(text) => {
                let result = said(vec![text_part(text)]);
                let envelope = if wrapped {
                    GeminiStreamEnvelope::Wrapped { result }
                } else {
                    GeminiStreamEnvelope::Unwrapped(result)
                };
                session.take_chunk(SseChunk::Message(envelope), &mut out).unwrap();
            }
        }
    }
    let ended = session.finish_as("r1".to_string(), &mut out);
    (out, ended)
}

#[test]
fn a_stream_comes_to_what_its_messages_come_to() {
    let data = |list: &[&'static str]| -> Vec<SseInput<'static>> {
        list.iter().map(|text| SseInput::Data(text)).collect()
    };
    let plain = read_stream(data(&["a", "b", "[DONE]"]), true);
    assert_eq!(plain.1, Ok(()));
    assert_eq!(read_stream(data(&["a", "b", "[DONE]"]), false), plain);
    assert_eq!(read_stream(data(&[" ", "a", "unreadable", "\n", "b", "[DONE]", "c"]), true), plain);
    assert_eq!(read_stream(data(&["a", "b"]), true), plain);

    let mut broken = data(&["a"]);
    broken.push(SseInput::Broken("reset"));
    broken.push(SseInput::Data("b"));
    let (events, failure) = read_stream(broken, true);
    assert_eq!(failure, Err(CodexErr::Stream("Gemini SSE error: reset".to_string(), None)));
    assert_eq!(assistant_text(&events), "a");
}
