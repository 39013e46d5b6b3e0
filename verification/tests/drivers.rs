use codex_gemini::client::{Config, ModelClient, ModelFamily, ModelInfo};
use codex_gemini::driver::{DriverCall, PromptTools};
use codex_gemini::openai_driver::{
    build_api_prompt, AttemptOutcome, AttemptStep, AuthMode, AuthRetry, Reasoning, RefreshOutcome,
    RefreshStep, RelayNote, StreamRelay,
};
use codex_gemini::protocol::{
    CodexErr, ContentItem, ModelProviderInfo, Prompt, ReasoningEffort, ReasoningSummary,
    ResponseEvent, ResponseItem, SessionSource, TokenUsage, Verbosity, WireApi,
};
use serde_json::Value;

fn config() -> Config {
    Config {
        model: "gemini-2.0-flash".to_string(),
        model_family: ModelFamily {
            slug: "gemini".to_string(),
            default_reasoning_effort: Some(ReasoningEffort::Low),
            default_verbosity: Some(Verbosity::Medium),
            effective_context_window_percent: 95,
            info: Some(ModelInfo { context_window: 1000, auto_compact_token_limit: Some(800) }),
        },
        model_context_window: None,
        model_auto_compact_token_limit: None,
        show_raw_agent_reasoning: false,
        sse_fixture: None,
    }
}

fn client(
    config: Config,
    wire_api: WireApi,
    effort: Option<ReasoningEffort>,
) -> ModelClient<&'static str, u8> {
    let provider = ModelProviderInfo {
        name: "p".to_string(),
        base_url: None,
        query_params: None,
        wire_api,
    };
    ModelClient::new(
        config,
        Some("manager"),
        7,
        &provider,
        effort,
        ReasoningSummary::Auto,
        "conv-1".to_string(),
        SessionSource::Exec,
    )
}

fn prompt(schema: Option<Value>) -> Prompt {
    Prompt {
        instructions: "Be brief.".to_string(),
        input: vec![ResponseItem::Message {
            id: None,
            role: "user".to_string(),
            content: vec![ContentItem::InputText { text: "hi".to_string() }],
            thought_signature: None,
        }],
        parallel_tool_calls: true,
        output_schema: schema,
    }
}

fn tools() -> PromptTools {
    PromptTools {
        gemini: vec![],
        responses: vec![Value::from("responses")],
        chat: vec![Value::from("chat")],
    }
}

fn usage(total: i64) -> TokenUsage {
    TokenUsage {
        input_tokens: 1,
        cached_input_tokens: 0,
        output_tokens: 2,
        reasoning_output_tokens: 0,
        total_tokens: total,
    }
}

#[test]
fn the_driver_follows_the_protocol_of_the_provider() {
    assert_eq!(client(config(), WireApi::Gemini, None).driver_name(), "GeminiDriver");
    assert_eq!(client(config(), WireApi::Chat, None).driver_name(), "OpenAIDriver");
    assert_eq!(client(config(), WireApi::Responses, None).driver_name(), "OpenAIDriver");
}

#[test]
fn compaction_is_not_supported() {
    assert_eq!(
        client(config(), WireApi::Gemini, None).compact_conversation_history(&prompt(None)),
        Err(CodexErr::UnsupportedOperation("Compaction not supported for Gemini".to_string()))
    );
    assert_eq!(
        client(config(), WireApi::Chat, None).compact_conversation_history(&prompt(None)),
        Err(CodexErr::UnsupportedOperation("Compaction not supported for OpenAI yet".to_string()))
    );
}

#[test]
fn a_gemini_model_thinks_as_asked_or_as_its_family_does() {
    let level = |effort| match client(config(), WireApi::Gemini, effort)
        .stream(prompt(None), tools())
        .unwrap_or_else(|err| panic!("{err:?}"))
    {
        DriverCall::Gemini(made) => made
            .request
            .generation_config
            .and_then(|c| c.thinking_config)
            .and_then(|t| t.thinking_level),
        _ => panic!("expected a Gemini request"),
    };
    assert_eq!(level(None).as_deref(), Some("LOW"));
    assert_eq!(level(Some(ReasoningEffort::High)).as_deref(), Some("HIGH"));
    assert_eq!(level(Some(ReasoningEffort::Off)), None);
}

#[test]
fn a_prompt_for_the_responses_api_carries_the_settings() {
    let asked = client(config(), WireApi::Responses, Some(ReasoningEffort::High));
    match asked.stream(prompt(Some(Value::from("schema"))), tools()) {
        Ok(DriverCall::Responses { prompt: api, options }) => {
            assert_eq!(api.instructions, "Be brief.");
            assert_eq!(api.input, prompt(None).input);
            assert_eq!(api.tools, vec![Value::from("responses")]);
            assert!(api.parallel_tool_calls);
            assert_eq!(api.output_schema, Some(Value::from("schema")));
            assert_eq!(
                options.reasoning,
                Some(Reasoning {
                    effort: Some(ReasoningEffort::High),
                    summary: Some(ReasoningSummary::Auto),
                })
            );
            assert!(options.extra_fields.is_empty());
            assert_eq!(options.prompt_cache_key, None);
            assert_eq!(options.store_override, None);
            assert_eq!(options.conversation_id.as_deref(), Some("conv-1"));
            assert_eq!(options.session_source, Some(SessionSource::Exec));
            assert_eq!(options.verbosity, Some(Verbosity::Medium));
        }
        _ => panic!("expected a prompt for the Responses API"),
    }
    match client(config(), WireApi::Responses, None).stream(prompt(None), tools()) {
        Ok(DriverCall::Responses { options, .. }) => assert_eq!(options.reasoning, None),
        _ => panic!("expected a prompt for the Responses API"),
    }
}

#[test]
fn a_fixture_stands_in_for_the_responses_api() {
    let mut recorded = config();
    recorded.sse_fixture = Some("/tmp/events".to_string());
    match client(recorded, WireApi::Responses, None).stream(prompt(None), tools()) {
        Ok(DriverCall::Fixture { path }) => assert_eq!(path, "/tmp/events"),
        _ => panic!("expected the fixture"),
    }
}

#[test]
fn chat_takes_no_schema() {
    let chat = client(config(), WireApi::Chat, None);
    match chat.stream(prompt(Some(Value::Null)), tools()) {
        Err(err) => assert_eq!(
            err,
            CodexErr::UnsupportedOperation(
                "output_schema is not supported for Chat Completions API".to_string()
            )
        ),
        Ok(_) => panic!("expected a refusal"),
    }
    match chat.stream(prompt(None), tools()) {
        Ok(DriverCall::Chat { prompt: api, conversation_id, session_source, aggregate }) => {
            assert_eq!(api.tools, vec![Value::from("chat")]);
            assert_eq!(conversation_id, "conv-1");
            assert_eq!(session_source, SessionSource::Exec);
            assert!(aggregate);
        }
        _ => panic!("expected a prompt for the Chat Completions API"),
    }
    let mut raw = config();
    raw.show_raw_agent_reasoning = true;
    match client(raw, WireApi::Chat, None).stream(prompt(None), tools()) {
        Ok(DriverCall::Chat { aggregate, .. }) => assert!(!aggregate),
        _ => panic!("expected a prompt for the Chat Completions API"),
    }
}

#[test]
fn the_prompt_of_an_api_is_the_prompt() {
    let api = build_api_prompt(prompt(None), vec![Value::from(1)]);
    assert_eq!(api.instructions, "Be brief.");
    assert_eq!(api.input, prompt(None).input);
    assert_eq!(api.tools, vec![Value::from(1)]);
    assert!(api.parallel_tool_calls);
    assert_eq!(api.output_schema, None);
}

#[test]
fn the_window_is_cut_down_to_the_part_in_use() {
    let window = |set: Option<i64>, percent: i64| {
        let mut c = config();
        c.model_context_window = set;
        c.model_family.effective_context_window_percent = percent;
        client(c, WireApi::Gemini, None).get_model_context_window()
    };
    assert_eq!(window(None, 95), Some(950));
    assert_eq!(window(Some(2001), 95), Some(1900));
    assert_eq!(window(Some(-199), 1), Some(-1));
    assert_eq!(window(Some(i64::MAX), 100), Some(i64::MAX / 100));
    assert_eq!(window(Some(i64::MIN), 100), Some(i64::MIN / 100));
    let mut unknown = config();
    unknown.model_family.info = None;
    assert_eq!(client(unknown, WireApi::Gemini, None).get_model_context_window(), None);
}

#[test]
fn the_limit_for_compaction_is_set_or_known() {
    let limit = |set: Option<i64>, info: Option<ModelInfo>| {
        let mut c = config();
        c.model_auto_compact_token_limit = set;
        c.model_family.info = info;
        client(c, WireApi::Gemini, None).get_auto_compact_token_limit()
    };
    let known = ModelInfo { context_window: 1, auto_compact_token_limit: Some(800) };
    assert_eq!(limit(Some(5), Some(known)), Some(5));
    assert_eq!(limit(None, Some(known)), Some(800));
    assert_eq!(limit(None, None), None);
}

#[test]
fn a_client_keeps_what_it_was_made_with() {
    let c = client(config(), WireApi::Chat, Some(ReasoningEffort::Minimal));
    assert_eq!(c.get_model(), "gemini-2.0-flash");
    assert_eq!(c.get_model_family().slug, "gemini");
    assert_eq!(c.get_reasoning_effort(), Some(ReasoningEffort::Minimal));
    assert_eq!(c.get_reasoning_summary(), ReasoningSummary::Auto);
    assert_eq!(c.get_session_source(), SessionSource::Exec);
    assert_eq!(c.get_auth_manager(), &Some("manager"));
    assert_eq!(*c.get_otel_event_manager(), 7);
    assert_eq!(c.provider().name, "p");
    assert_eq!(c.get_provider().wire_api, WireApi::Chat);
    assert_eq!(c.config().model_family.effective_context_window_percent, 95);
}

#[test]
fn a_token_is_refreshed_once() {
    let chatgpt = Some(AuthMode::ChatGPT);
    let denied = AttemptOutcome::HttpStatus(401);
    let mut retry = AuthRetry::new();
    assert_eq!(retry.after_attempt(AttemptOutcome::Open, true, chatgpt), AttemptStep::Deliver);
    assert_eq!(retry.after_attempt(AttemptOutcome::Failed, true, chatgpt), AttemptStep::Fail);
    assert_eq!(
        retry.after_attempt(AttemptOutcome::HttpStatus(403), true, chatgpt),
        AttemptStep::Fail
    );
    assert_eq!(retry.after_attempt(denied, false, chatgpt), AttemptStep::FailUnauthorized);
    assert_eq!(retry.after_attempt(denied, true, None), AttemptStep::FailUnauthorized);
    assert_eq!(
        retry.after_attempt(denied, true, Some(AuthMode::ApiKey)),
        AttemptStep::FailUnauthorized
    );
    assert_eq!(retry.after_attempt(denied, true, chatgpt), AttemptStep::Refresh);
    assert_eq!(retry.after_refresh(RefreshOutcome::Permanent), RefreshStep::FailPermanent);
    assert_eq!(retry.after_refresh(RefreshOutcome::Transient), RefreshStep::FailTransient);
    assert!(!retry.refreshed);
    assert_eq!(retry.after_refresh(RefreshOutcome::Refreshed), RefreshStep::TryAgain);
    assert_eq!(retry.after_attempt(denied, true, chatgpt), AttemptStep::FailUnauthorized);
}

#[test]
fn events_are_passed_on_and_noted() {
    let mut relay = StreamRelay::new();
    let done = ResponseEvent::Completed {
        response_id: "r".to_string(),
        token_usage: Some(usage(3)),
    };
    let events: Vec<Result<ResponseEvent, &str>> = vec![
        Ok(ResponseEvent::Created),
        Err("first"),
        Err("second"),
        Ok(done.clone()),
        Ok(ResponseEvent::Completed { response_id: "s".to_string(), token_usage: None }),
    ];
    let mut notes = Vec::new();
    for event in events.clone() {
        let (note, passed) = relay.relay(event.clone());
        assert_eq!(passed, event);
        notes.push(note);
    }
    assert_eq!(
        notes,
        vec![
            RelayNote::Quiet,
            RelayNote::Failed,
            RelayNote::Quiet,
            RelayNote::Completed(usage(3)),
            RelayNote::Quiet,
        ]
    );
}

#[test]
fn a_client_can_be_copied() {
    let first = client(config(), WireApi::Gemini, None);
    let copy = first.clone();
    assert_eq!(copy.driver_name(), first.driver_name());
}
