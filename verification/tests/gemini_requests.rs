use base64::engine::general_purpose::STANDARD_NO_PAD;
use base64::Engine;
use codex_gemini::gemini::{
    answer_mode, build_function_response_payload, build_gemini_request, build_generation_config,
    build_tool_declarations, content_item_to_parts, inline_data_from_image_url,
    map_history_to_contents, map_role, provider_requests_sse, reasoning_effort_to_thinking_level,
    stream_gemini, unexpected_status, AnswerMode,
};
use codex_gemini::gemini_models::{default_gemini_generate_url, Blob, Content, FunctionDeclaration, Tool};
use codex_gemini::headers::{authorize, extract_request_id, is_event_stream};
use codex_gemini::protocol::{
    CodexErr, ContentItem, FunctionCallOutputContentItem, FunctionCallOutputPayload,
    ModelProviderInfo, Prompt, ReasoningEffort, ResponseItem, UnexpectedResponseError, WireApi,
};
use http::{HeaderMap, HeaderValue};
use serde_json::Value;

const GEMINI_THOUGHT_SIGNATURE_PREFIX: &str = "codex_thought_sig_";

fn json(text: &str) -> Value {
    serde_json::from_str(text).unwrap()
}

fn thought_signature_for(call_id: &str) -> String {
    let raw = if call_id.starts_with(GEMINI_THOUGHT_SIGNATURE_PREFIX) {
        call_id.to_string()
    } else {
        format!("{GEMINI_THOUGHT_SIGNATURE_PREFIX}{call_id}")
    };
    STANDARD_NO_PAD.encode(raw.as_bytes())
}

fn message(role: &str, text: &str, signature: Option<&str>) -> ResponseItem {
    ResponseItem::Message {
        id: None,
        role: role.to_string(),
        content: vec![ContentItem::InputText { text: text.to_string() }],
        thought_signature: signature.map(str::to_string),
    }
}

fn call(name: &str, arguments: &str, call_id: &str, signature: Option<&str>) -> ResponseItem {
    ResponseItem::FunctionCall {
        id: None,
        name: name.to_string(),
        arguments: arguments.to_string(),
        call_id: call_id.to_string(),
        thought_signature: signature.map(str::to_string),
    }
}

fn output(call_id: &str, content: &str, signature: Option<&str>) -> ResponseItem {
    ResponseItem::FunctionCallOutput {
        call_id: call_id.to_string(),
        output: FunctionCallOutputPayload { content: content.to_string(), ..Default::default() },
        thought_signature: signature.map(str::to_string),
    }
}

fn prompt(input: Vec<ResponseItem>) -> Prompt {
    Prompt {
        instructions: "Be brief.".to_string(),
        input,
        parallel_tool_calls: false,
        output_schema: None,
    }
}

fn provider(base_url: Option<&str>, params: Option<Vec<(&str, &str)>>) -> ModelProviderInfo {
    ModelProviderInfo {
        name: "gemini-test".to_string(),
        base_url: base_url.map(str::to_string),
        query_params: params.map(|list| {
            list.into_iter().map(|(k, v)| (k.to_string(), v.to_string())).collect()
        }),
        wire_api: WireApi::Gemini,
    }
}

fn headers(pairs: &[(&'static str, &str)]) -> HeaderMap {
    let mut map = HeaderMap::new();
    for (name, value) in pairs {
        map.insert(*name, HeaderValue::from_str(value).unwrap());
    }
    map
}

fn tool(name: &str) -> Tool {
    Tool {
        function_declarations: Some(vec![FunctionDeclaration {
            name: name.to_string(),
            description: "d".to_string(),
            parameters: json("{}"),
        }]),
        google_search: None,
        code_execution: None,
    }
}

fn roles(contents: &[Content]) -> Vec<&str> {
    contents.iter().map(|c| c.role.as_str()).collect()
}

#[test]
fn test_history_mapping_parallel_calls_and_outputs() {
    let items = vec![
        call("fc1", "{}", "call_1", Some("sig1")),
        call("fc2", "{}", "call_2", None),
        output("call_1", "out1", Some("sig1")),
        output("call_2", "out2", None),
    ];

    let contents = map_history_to_contents(&items);

    let model_contents: Vec<_> = contents.iter().filter(|c| c.role == "model").collect();
    assert_eq!(model_contents.len(), 1, "Expected 1 merged model content");
    assert_eq!(model_contents[0].parts.len(), 2, "Expected 2 parts in merged content");

    let user_contents: Vec<_> = contents.iter().filter(|c| c.role == "user").collect();
    assert_eq!(user_contents.len(), 1, "Expected 1 merged user content");
    assert_eq!(user_contents[0].parts.len(), 2, "Expected 2 parts in merged content");

    let out1 = &user_contents[0].parts[0];
    assert_eq!(
        out1.thought_signature.as_deref(),
        None,
        "User output 1 should NOT have signature"
    );
    assert_eq!(model_contents[0].parts[0].thought_signature.as_deref(), Some("sig1"));
    assert_eq!(model_contents[0].parts[1].thought_signature.as_deref(), None);
}

#[test]
fn thought_signature_is_base64_encoded() {
    let sig = thought_signature_for("gemini_call_1");
    let decoded = STANDARD_NO_PAD.decode(sig.as_bytes()).expect("base64 decode");
    let decoded = String::from_utf8(decoded).expect("utf8");
    assert!(decoded.contains("gemini_call_1"), "{decoded}");
    assert!(decoded.starts_with(GEMINI_THOUGHT_SIGNATURE_PREFIX), "{decoded}");
}

#[test]
fn tool_outputs_are_sent_with_the_next_turn() {
    let signature = "Y29kZXhfdGhvdWdodF9zaWdfY2FsbC0x";
    let contents = map_history_to_contents(&vec![
        message("user", "run tools", None),
        call(
            "write_file",
            r#"{"path":"/tmp/demo.txt","contents":"hello"}"#,
            "call-1",
            Some(signature),
        ),
        output("call-1", "file saved", Some(signature)),
        ResponseItem::CustomToolCallOutput {
            call_id: "call-2".to_string(),
            output: "exec done".to_string(),
        },
    ]);
    assert_eq!(roles(&contents), vec!["user", "model", "user"]);

    let part = &contents[1].parts[0];
    let function_call = part.function_call.as_ref().expect("functionCall shape");
    assert_eq!(function_call.name, "write_file");
    assert_eq!(function_call.args["path"], Value::from("/tmp/demo.txt"));
    assert_eq!(part.thought_signature.as_deref(), Some(signature));

    let answer = &contents[2].parts[0];
    let function_response = answer.function_response.as_ref().expect("functionResponse shape");
    assert_eq!(function_response.name, "write_file");
    assert_eq!(
        function_response.response,
        json(r#"{"content":[{"text":"file saved"}]}"#)
    );
    assert_eq!(answer.thought_signature, None);
    assert_eq!(
        contents[2].parts[1].text.as_deref(),
        Some("Custom tool call-2 result:\nexec done")
    );
}

#[test]
fn the_signature_of_a_message_goes_to_its_last_part() {
    let items = vec![ResponseItem::Message {
        id: None,
        role: "assistant".to_string(),
        content: vec![
            ContentItem::OutputText { text: "a".to_string() },
            ContentItem::OutputText { text: "b".to_string() },
        ],
        thought_signature: Some("sig".to_string()),
    }];
    let contents = map_history_to_contents(&items);
    assert_eq!(roles(&contents), vec!["model"]);
    assert_eq!(contents[0].parts[0].thought_signature, None);
    assert_eq!(contents[0].parts[1].thought_signature.as_deref(), Some("sig"));
}

#[test]
fn items_that_say_nothing_are_passed_over() {
    let items = vec![
        message("user", "one", None),
        ResponseItem::Reasoning {
            id: "r".to_string(),
            summary: vec![],
            content: None,
            encrypted_content: None,
        },
        ResponseItem::Message {
            id: None,
            role: "assistant".to_string(),
            content: vec![],
            thought_signature: Some("sig".to_string()),
        },
        ResponseItem::Other(json("{}")),
        message("user", "two", None),
    ];
    let contents = map_history_to_contents(&items);
    assert_eq!(roles(&contents), vec!["user"]);
    assert_eq!(contents[0].parts.len(), 2);
    assert_eq!(contents[0].parts[1].text.as_deref(), Some("two"));
}

#[test]
fn an_output_is_named_by_the_latest_call_with_its_id() {
    let contents = map_history_to_contents(&vec![
        call("old", "{}", "c", None),
        call("new", "{}", "c", None),
        output("c", "x", None),
        output("unknown", "y", None),
    ]);
    let names: Vec<_> = contents[1]
        .parts
        .iter()
        .map(|p| p.function_response.as_ref().unwrap().name.as_str())
        .collect();
    assert_eq!(names, vec!["new", "unknown"]);
}

#[test]
fn arguments_that_are_no_json_are_sent_as_text() {
    let contents = map_history_to_contents(&vec![call("f", "not json", "c", None)]);
    let args = &contents[0].parts[0].function_call.as_ref().unwrap().args;
    assert_eq!(args, &Value::from("not json"));
}

#[test]
fn speakers_keep_their_order() {
    let contents = map_history_to_contents(&vec![
        message("user", "1", None),
        message("assistant", "2", None),
        message("user", "3", None),
        message("developer", "4", None),
    ]);
    assert_eq!(roles(&contents), vec!["user", "model", "user", "developer"]);
    let texts: Vec<_> =
        contents.iter().flat_map(|c| c.parts.iter()).map(|p| p.text.clone().unwrap()).collect();
    assert_eq!(texts, vec!["1", "2", "3", "4"]);
}

#[test]
fn images_are_sent_inline_where_they_are_data_urls() {
    assert_eq!(
        inline_data_from_image_url("data:image/png;base64,AAAA"),
        Some(Blob { mime_type: "image/png".to_string(), data: "AAAA".to_string() })
    );
    assert_eq!(
        inline_data_from_image_url("data:a;base64,b;base64,c"),
        Some(Blob { mime_type: "a".to_string(), data: "b;base64,c".to_string() })
    );
    assert_eq!(inline_data_from_image_url("data:image/png,AAAA"), None);
    assert_eq!(inline_data_from_image_url("https://example.com/a.png"), None);

    let inline = content_item_to_parts(&ContentItem::InputImage {
        image_url: "data:image/png;base64,AAAA".to_string(),
    });
    assert_eq!(inline.len(), 1);
    assert_eq!(inline[0].inline_data.as_ref().unwrap().data, "AAAA");
    assert_eq!(inline[0].text, None);
    let linked = content_item_to_parts(&ContentItem::InputImage {
        image_url: "https://example.com/a.png".to_string(),
    });
    assert_eq!(linked[0].text.as_deref(), Some("Image: https://example.com/a.png"));
}

#[test]
fn the_pieces_of_an_output_are_listed() {
    let payload = FunctionCallOutputPayload {
        content: "ignored".to_string(),
        content_items: Some(vec![
            FunctionCallOutputContentItem::InputText { text: "t".to_string() },
            FunctionCallOutputContentItem::InputImage {
                image_url: "data:image/png;base64,AA".to_string(),
            },
            FunctionCallOutputContentItem::InputImage { image_url: "https://x/y".to_string() },
        ]),
        success: None,
    };
    assert_eq!(
        build_function_response_payload(&payload),
        json(
            r#"{"content":[{"text":"t"},{"inlineData":{"mimeType":"image/png","data":"AA"}},{"text":"https://x/y"}]}"#
        )
    );
}

#[test]
fn roles_are_named_as_the_api_does() {
    assert_eq!(map_role("assistant"), "model");
    assert_eq!(map_role("user"), "user");
    assert_eq!(map_role("Assistant"), "Assistant");
}

#[test]
fn gemini_non_streaming_includes_output_schema_and_thinking_level() {
    let mut asked = prompt(vec![message("user", "hi", None)]);
    asked.output_schema = Some(json(
        r#"{"type":"object","properties":{"foo":{"type":"string"}},"required":["foo"]}"#,
    ));
    let request = build_gemini_request(&asked, vec![], Some(ReasoningEffort::Medium));
    let config = request.generation_config.expect("generationConfig");
    let thinking = config.thinking_config.expect("thinkingConfig");
    assert_eq!(thinking.thinking_level.as_deref(), Some("HIGH"));
    assert_eq!(thinking.thinking_budget, None);
    assert_eq!(config.response_mime_type.as_deref(), Some("application/json"));
    assert_eq!(config.response_json_schema, asked.output_schema);
    assert_eq!(request.cached_content, None);
    assert!(request.tool_config.is_none());
}

#[test]
fn efforts_become_levels() {
    for (effort, level) in [
        (ReasoningEffort::Off, None),
        (ReasoningEffort::Minimal, Some("LOW")),
        (ReasoningEffort::Low, Some("LOW")),
        (ReasoningEffort::Medium, Some("HIGH")),
        (ReasoningEffort::High, Some("HIGH")),
        (ReasoningEffort::XHigh, Some("HIGH")),
    ] {
        assert_eq!(reasoning_effort_to_thinking_level(effort).as_deref(), level);
    }
    assert_eq!(build_generation_config(None, &None), None);
    assert_eq!(build_generation_config(Some(ReasoningEffort::Off), &None), None);
    let only_level = build_generation_config(Some(ReasoningEffort::Low), &None).unwrap();
    assert_eq!(only_level.response_mime_type, None);
}

#[test]
fn tools_that_cannot_be_read_are_left_out() {
    let kept = build_tool_declarations(vec![Some(tool("a")), None, Some(tool("b"))]).unwrap();
    assert_eq!(kept, vec![tool("a"), tool("b")]);
    assert_eq!(build_tool_declarations(vec![None]), None);
    assert_eq!(build_tool_declarations(vec![]), None);
}

#[test]
fn instructions_are_sent_where_they_say_anything() {
    let mut asked = prompt(vec![]);
    let request = build_gemini_request(&asked, vec![], None);
    let system = request.system_instruction.unwrap();
    assert_eq!(system.role, "user");
    assert_eq!(system.parts[0].text.as_deref(), Some("Be brief."));
    asked.instructions = " \n\t".to_string();
    assert!(build_gemini_request(&asked, vec![], None).system_instruction.is_none());
}

#[test]
fn a_provider_asks_for_a_stream_by_its_url_or_its_parameter() {
    assert!(provider_requests_sse(&provider(
        Some("https://x/v1beta/models/m:streamGenerateContent"),
        None
    )));
    assert!(provider_requests_sse(&provider(None, Some(vec![("alt", "SSE")]))));
    assert!(!provider_requests_sse(&provider(None, Some(vec![("alt", "json")]))));
    assert!(!provider_requests_sse(&provider(None, Some(vec![("alt", "sse"), ("alt", "json")]))));
    assert!(!provider_requests_sse(&provider(Some("https://x/m:generateContent"), None)));

    let asked = prompt(vec![message("user", "hi", None)]);
    let streaming = provider(None, Some(vec![("alt", "sse")]));
    assert!(stream_gemini(&asked, vec![], None, &streaming).accept_event_stream);
    let plain = provider(None, None);
    let made = stream_gemini(&asked, vec![Some(tool("a"))], None, &plain);
    assert!(!made.accept_event_stream);
    assert_eq!(made.request.contents.len(), 1);
    assert_eq!(made.request.tools, Some(vec![tool("a")]));
}

#[test]
fn an_answer_is_read_by_its_status_and_type() {
    let plain = provider(None, None);
    let streaming = provider(None, Some(vec![("alt", "sse")]));
    let json_type = headers(&[("content-type", "application/json")]);
    let sse_type = headers(&[("content-type", "text/event-stream; charset=utf-8")]);
    assert!(matches!(answer_mode(&plain, 200, &json_type), AnswerMode::Json));
    assert!(matches!(answer_mode(&plain, 200, &sse_type), AnswerMode::EventStream));
    assert!(matches!(answer_mode(&streaming, 200, &json_type), AnswerMode::EventStream));
    assert!(matches!(answer_mode(&plain, 299, &json_type), AnswerMode::Json));
    let failed = headers(&[("cf-ray", "ray-1")]);
    match answer_mode(&streaming, 429, &failed) {
        AnswerMode::Failed { request_id } => assert_eq!(request_id.as_deref(), Some("ray-1")),
        _ => panic!("expected a failure"),
    }
    assert!(matches!(answer_mode(&plain, 300, &sse_type), AnswerMode::Failed { .. }));
    assert!(matches!(answer_mode(&plain, 199, &sse_type), AnswerMode::Failed { .. }));
}

#[test]
fn a_failed_answer_is_reported_with_its_body() {
    assert_eq!(
        unexpected_status(500, Some("oops".to_string()), Some("id".to_string())),
        CodexErr::UnexpectedStatus(UnexpectedResponseError {
            status: 500,
            body: "oops".to_string(),
            request_id: Some("id".to_string()),
        })
    );
    assert_eq!(
        unexpected_status(500, None, None),
        CodexErr::UnexpectedStatus(UnexpectedResponseError {
            status: 500,
            body: "failed to read response body".to_string(),
            request_id: None,
        })
    );
}

#[test]
fn the_request_id_is_the_first_header_that_is_text() {
    assert_eq!(extract_request_id(&HeaderMap::new()), None);
    let all = headers(&[("cf-ray", "c"), ("x-oai-request-id", "b"), ("x-request-id", "a")]);
    assert_eq!(extract_request_id(&all).as_deref(), Some("a"));
    let mut unreadable = headers(&[("x-oai-request-id", "b")]);
    unreadable.insert("x-request-id", HeaderValue::from_bytes(&[0xff]).unwrap());
    assert_eq!(extract_request_id(&unreadable).as_deref(), Some("b"));
}

#[test]
fn the_content_type_of_a_stream_is_seen() {
    assert!(is_event_stream(&headers(&[("content-type", "text/event-stream")])));
    assert!(!is_event_stream(&headers(&[("content-type", "text/plain")])));
    assert!(!is_event_stream(&HeaderMap::new()));
}

#[test]
fn auth_rejects_without_header() {
    let token = Some("secret".to_string());
    assert!(!authorize(&token, &HeaderMap::new()));
    assert!(!authorize(&token, &headers(&[("authorization", "Bearer other")])));
    assert!(!authorize(&token, &headers(&[("authorization", "secret")])));
    assert!(!authorize(&token, &headers(&[("authorization", "bearer secret")])));
    assert!(authorize(&token, &headers(&[("authorization", "Bearer secret")])));
    assert!(authorize(&None, &HeaderMap::new()));
}

#[test]
fn url_of_a_model_slug() {
    assert_eq!(
        default_gemini_generate_url("gemini-2.0-flash").as_deref(),
        Some("https://generativelanguage.googleapis.com/v1beta/models/gemini-2.0-flash:generateContent")
    );
    assert_eq!(
        default_gemini_generate_url("models/gemini-2.0-flash").as_deref(),
        Some("https://generativelanguage.googleapis.com/v1beta/models/gemini-2.0-flash:generateContent")
    );
    assert_eq!(default_gemini_generate_url("gpt-5"), None);
}

#[test]
fn only_the_first_call_of_a_turn_is_signed() {
    let contents = map_history_to_contents(&vec![
        message("user", "go", None),
        call("one", "{}", "c1", Some("s1")),
        call("two", "{}", "c2", Some("s2")),
        output("c1", "done", Some("s1")),
        output("c2", "done", Some("s2")),
        call("three", "{}", "c3", Some("s3")),
    ]);
    assert_eq!(contents.len(), 4);
    let signatures = |content: &Content| -> Vec<Option<String>> {
        content.parts.iter().map(|part| part.thought_signature.clone()).collect()
    };
    assert_eq!(contents[1].role, "model");
    assert_eq!(signatures(&contents[1]), vec![Some("s1".to_string()), None]);
    assert_eq!(contents[1].parts[1].function_call.as_ref().unwrap().name, "two");
    assert_eq!(signatures(&contents[2]), vec![None, None]);
    assert_eq!(signatures(&contents[3]), vec![Some("s3".to_string())]);
}

#[test]
fn a_call_behind_a_message_keeps_its_signature() {
    let contents = map_history_to_contents(&vec![
        message("assistant", "working", Some("m1")),
        call("one", "{}", "c1", Some("s1")),
        message("assistant", "still", Some("m2")),
        call("two", "{}", "c2", Some("s2")),
    ]);
    assert_eq!(contents.len(), 1);
    let signatures: Vec<Option<&str>> =
        contents[0].parts.iter().map(|part| part.thought_signature.as_deref()).collect();
    assert_eq!(signatures, vec![Some("m1"), Some("s1"), Some("m2"), None]);
}
