//! Turns over the Responses and Chat Completions APIs: what is sent, when a new try is made
//! with a fresh token, and how the events are passed on.
use vstd::prelude::*;
use vstd::string::*;
use crate::driver::{DriverCall, ModelDriver, PromptTools};
use crate::protocol::{
    CodexErr, ErrView, ItemView, ModelProviderInfo, Prompt, ReasoningEffort, ReasoningSummary,
    ResponseEvent, ResponseItem, SessionSource, TokenUsage, Verbosity, WireApi,
};

verus! {

/// A prompt in the form in which both APIs take it.
#[derive(Debug, Clone)]
pub struct ApiPrompt {
    pub instructions: String,
    pub input: Vec<ResponseItem>,
    pub tools: Vec<serde_json::Value>,
    pub parallel_tool_calls: bool,
    pub output_schema: Option<serde_json::Value>,
}

/// How the model is to think, as the Responses API takes it.
#[derive(Debug, Clone, Copy, PartialEq, Eq, Structural)]
pub struct Reasoning {
    pub effort: Option<ReasoningEffort>,
    pub summary: Option<ReasoningSummary>,
}

/// What goes with a prompt to the Responses API. The text settings are made of the verbosity
/// and the prompt's schema.
#[derive(Debug, Clone)]
pub struct ResponsesOptions {
    pub reasoning: Option<Reasoning>,
    pub extra_fields: Vec<String>,
    pub prompt_cache_key: Option<String>,
    pub store_override: Option<bool>,
    pub conversation_id: Option<String>,
    pub session_source: Option<SessionSource>,
    pub verbosity: Option<Verbosity>,
}

/// Put a prompt into the form in which both APIs take it.
pub fn build_api_prompt(prompt: Prompt, tools_json: Vec<serde_json::Value>) -> (api: ApiPrompt)
    ensures
        api.instructions == prompt.instructions,
        api.input == prompt.input,
        api.tools == tools_json,
        api.parallel_tool_calls == prompt.parallel_tool_calls,
        api.output_schema == prompt.output_schema,
{
    ApiPrompt {
        instructions: prompt.instructions,
        input: prompt.input,
        tools: tools_json,
        parallel_tool_calls: prompt.parallel_tool_calls,
        output_schema: prompt.output_schema,
    }
}

/// A driver for the Responses and Chat Completions APIs.
#[derive(Debug, Clone)]
pub struct OpenAIDriver {
    pub model: String,
    pub show_raw_agent_reasoning: bool,
    pub default_verbosity: Option<Verbosity>,
    pub provider: ModelProviderInfo,
    pub conversation_id: String,
    pub session_source: SessionSource,
    pub effort: Option<ReasoningEffort>,
    pub summary: ReasoningSummary,
    /// A file of recorded events that stands in for the Responses API.
    pub fixture: Option<String>,
}

/// The prompt is what the API is given, with the tools in its own form.
pub open spec fn carries(api: ApiPrompt, prompt: Prompt, tools: Seq<serde_json::Value>) -> bool {
    &&& api.instructions == prompt.instructions
    &&& api.input == prompt.input
    &&& api.tools@ == tools
    &&& api.parallel_tool_calls == prompt.parallel_tool_calls
    &&& api.output_schema == prompt.output_schema
}

impl OpenAIDriver {
    /// What goes with a prompt to the Responses API.
    pub open spec fn has_options(&self, options: ResponsesOptions) -> bool {
        &&& options.reasoning == (match self.effort {
            Some(effort) => Some(
                Reasoning { effort: Some(effort), summary: Some(self.summary) },
            ),
            None => None,
        })
        &&& options.extra_fields@.len() == 0
        &&& options.prompt_cache_key is None
        &&& options.store_override is None
        &&& options.conversation_id.deep_view() == Some(self.conversation_id@)
        &&& options.session_source == Some(self.session_source)
        &&& options.verbosity == self.default_verbosity
    }

    /// What goes with a prompt to the Responses API.
    pub fn responses_options(&self) -> (options: ResponsesOptions)
        ensures
            self.has_options(options),
    {
        ResponsesOptions {
            reasoning: match self.effort {
                Some(effort) => Some(
                    Reasoning { effort: Some(effort), summary: Some(self.summary) },
                ),
                None => None,
            },
            extra_fields: Vec::new(),
            prompt_cache_key: None,
            store_override: None,
            conversation_id: Some(self.conversation_id.clone()),
            session_source: Some(self.session_source),
            verbosity: self.default_verbosity,
        }
    }

    /// Prepare a turn over the Chat Completions API, which takes no schema.
    pub fn stream_chat_completions(
        &self,
        prompt: Prompt,
        tools_json: Vec<serde_json::Value>,
    ) -> (call: Result<DriverCall, CodexErr>)
        ensures
            self.chat_call(prompt, tools_json@, call),
    {
        if prompt.output_schema.is_some() {
            return Err(
                CodexErr::UnsupportedOperation(
                    "output_schema is not supported for Chat Completions API".to_owned(),
                ),
            );
        }
        Ok(
            DriverCall::Chat {
                prompt: build_api_prompt(prompt, tools_json),
                conversation_id: self.conversation_id.clone(),
                session_source: self.session_source,
                aggregate: !self.show_raw_agent_reasoning,
            },
        )
    }

    /// A turn over the Chat Completions API: refused exactly where a schema is asked for.
    pub open spec fn chat_call(
        &self,
        prompt: Prompt,
        tools: Seq<serde_json::Value>,
        call: Result<DriverCall, CodexErr>,
    ) -> bool {
        match call {
            Err(err) => prompt.output_schema is Some && err.deep_view()
                == ErrView::UnsupportedOperation(
                "output_schema is not supported for Chat Completions API"@,
            ),
            Ok(DriverCall::Chat { prompt: api, conversation_id, session_source, aggregate }) => {
                &&& prompt.output_schema is None
                &&& carries(api, prompt, tools)
                &&& conversation_id@ == self.conversation_id@
                &&& session_source == self.session_source
                &&& aggregate == !self.show_raw_agent_reasoning
            },
            Ok(_) => false,
        }
    }

    /// Prepare a turn over the Responses API, or over a file of recorded events.
    pub fn stream_responses_api(
        &self,
        prompt: Prompt,
        tools_json: Vec<serde_json::Value>,
    ) -> (call: DriverCall)
        ensures
            self.responses_call(prompt, tools_json@, call),
    {
        if let Some(path) = &self.fixture {
            return DriverCall::Fixture { path: path.clone() };
        }
        DriverCall::Responses {
            prompt: build_api_prompt(prompt, tools_json),
            options: self.responses_options(),
        }
    }

    /// A turn over the Responses API.
    pub open spec fn responses_call(
        &self,
        prompt: Prompt,
        tools: Seq<serde_json::Value>,
        call: DriverCall,
    ) -> bool {
        match call {
            DriverCall::Fixture { path } => self.fixture.deep_view() == Some(path@),
            DriverCall::Responses { prompt: api, options } => {
                &&& self.fixture is None
                &&& carries(api, prompt, tools)
                &&& self.has_options(options)
            },
            _ => false,
        }
    }
}

impl ModelDriver for OpenAIDriver {
    open spec fn is_call(
        &self,
        prompt: Prompt,
        tools: PromptTools,
        call: Result<DriverCall, CodexErr>,
    ) -> bool {
        match self.provider.wire_api {
            WireApi::Responses => call matches Ok(c) && self.responses_call(
                prompt,
                tools.responses@,
                c,
            ),
            WireApi::Chat => self.chat_call(prompt, tools.chat@, call),
            WireApi::Gemini => call matches Err(err) && err.deep_view()
                == ErrView::UnsupportedOperation(
                "OpenAIDriver only supports Responses and Chat APIs"@,
            ),
        }
    }

    open spec fn compacted(&self, prompt: Prompt) -> Result<Seq<ItemView>, ErrView> {
        Err(ErrView::UnsupportedOperation("Compaction not supported for OpenAI yet"@))
    }

    open spec fn name(&self) -> Seq<char> {
        "OpenAIDriver"@
    }

    fn stream(&self, prompt: Prompt, tools: PromptTools) -> (call: Result<DriverCall, CodexErr>) {
        match self.provider.wire_api {
            WireApi::Responses => Ok(self.stream_responses_api(prompt, tools.responses)),
            WireApi::Chat => self.stream_chat_completions(prompt, tools.chat),
            WireApi::Gemini => Err(
                CodexErr::UnsupportedOperation(
                    "OpenAIDriver only supports Responses and Chat APIs".to_owned(),
                ),
            ),
        }
    }

    fn compact_conversation_history(&self, prompt: &Prompt) -> (items: Result<
        Vec<ResponseItem>,
        CodexErr,
    >) {
        Err(
            CodexErr::UnsupportedOperation(
                "Compaction not supported for OpenAI yet".to_owned(),
            ),
        )
    }

    fn driver_name(&self) -> (name: &'static str) {
        "OpenAIDriver"
    }
}

/// How a client is known to the service.
#[derive(Debug, Clone, Copy, PartialEq, Eq, Structural)]
pub enum AuthMode {
    ApiKey,
    ChatGPT,
}

/// How an attempt to open a stream ended.
#[derive(Debug, Clone, Copy, PartialEq, Eq, Structural)]
pub enum AttemptOutcome {
    /// The stream is open.
    Open,
    /// The service answered with this status.
    HttpStatus(u16),
    /// It failed in another way.
    Failed,
}

/// What follows an attempt.
#[derive(Debug, Clone, Copy, PartialEq, Eq, Structural)]
pub enum AttemptStep {
    /// Hand out the stream.
    Deliver,
    /// Refresh the token, and try again where that works.
    Refresh,
    /// Report that the client is not authorized.
    FailUnauthorized,
    /// Report the failure.
    Fail,
}

/// How a refresh of the token ended.
#[derive(Debug, Clone, Copy, PartialEq, Eq, Structural)]
pub enum RefreshOutcome {
    Refreshed,
    Permanent,
    Transient,
}

/// What follows a refresh.
#[derive(Debug, Clone, Copy, PartialEq, Eq, Structural)]
pub enum RefreshStep {
    /// Try to open the stream again.
    TryAgain,
    /// Report that the token cannot be refreshed.
    FailPermanent,
    /// Report that the refresh broke.
    FailTransient,
}

/// The status of a client that is not authorized.
pub const UNAUTHORIZED: u16 = 401;

/// What was done about authorization so far.
#[derive(Debug, Clone, Copy, PartialEq, Eq, Structural)]
pub struct AuthRetry {
    pub refreshed: bool,
}

/// What follows an attempt: a refresh, once, where the client is not authorized, has a
/// manager of tokens and is known by its ChatGPT account.
pub open spec fn attempt_step(
    retry: AuthRetry,
    outcome: AttemptOutcome,
    has_manager: bool,
    mode: Option<AuthMode>,
) -> AttemptStep {
    match outcome {
        AttemptOutcome::Open => AttemptStep::Deliver,
        AttemptOutcome::Failed => AttemptStep::Fail,
        AttemptOutcome::HttpStatus(status) => if status != UNAUTHORIZED {
            AttemptStep::Fail
        } else if !retry.refreshed && has_manager && mode == Some(AuthMode::ChatGPT) {
            AttemptStep::Refresh
        } else {
            AttemptStep::FailUnauthorized
        },
    }
}

/// Nothing was refreshed yet.
pub open spec fn not_refreshed() -> AuthRetry {
    AuthRetry { refreshed: false }
}

/// What follows a refresh.
pub open spec fn refresh_step(outcome: RefreshOutcome) -> RefreshStep {
    match outcome {
        RefreshOutcome::Refreshed => RefreshStep::TryAgain,
        RefreshOutcome::Permanent => RefreshStep::FailPermanent,
        RefreshOutcome::Transient => RefreshStep::FailTransient,
    }
}

/// What was done about authorization behind a refresh.
pub open spec fn after_refreshing(retry: AuthRetry, outcome: RefreshOutcome) -> AuthRetry {
    AuthRetry { refreshed: retry.refreshed || outcome is Refreshed }
}

impl AuthRetry {
    /// Nothing was refreshed yet.
    pub fn new() -> (retry: AuthRetry)
        ensures
            !retry.refreshed,
            retry == not_refreshed(),
    {
        AuthRetry { refreshed: false }
    }

    /// Decide what follows an attempt.
    pub fn after_attempt(
        &self,
        outcome: AttemptOutcome,
        has_manager: bool,
        mode: Option<AuthMode>,
    ) -> (step: AttemptStep)
        ensures
            step == attempt_step(*self, outcome, has_manager, mode),
    {
        match outcome {
            AttemptOutcome::Open => AttemptStep::Deliver,
            AttemptOutcome::Failed => AttemptStep::Fail,
            AttemptOutcome::HttpStatus(status) => {
                if status != UNAUTHORIZED {
                    AttemptStep::Fail
                } else {
                    self.handle_unauthorized(has_manager, mode)
                }
            },
        }
    }

    /// Decide what follows where the client is not authorized.
    pub fn handle_unauthorized(&self, has_manager: bool, mode: Option<AuthMode>) -> (step:
        AttemptStep)
        ensures
            step == attempt_step(*self, AttemptOutcome::HttpStatus(UNAUTHORIZED), has_manager, mode),
    {
        if self.refreshed {
            return AttemptStep::FailUnauthorized;
        }
        if has_manager {
            if let Some(AuthMode::ChatGPT) = mode {
                return AttemptStep::Refresh;
            }
        }
        AttemptStep::FailUnauthorized
    }

    /// Decide what follows a refresh.
    pub fn after_refresh(&mut self, outcome: RefreshOutcome) -> (step: RefreshStep)
        ensures
            step == (match outcome {
                RefreshOutcome::Refreshed => RefreshStep::TryAgain,
                RefreshOutcome::Permanent => RefreshStep::FailPermanent,
                RefreshOutcome::Transient => RefreshStep::FailTransient,
            }),
            final(self).refreshed == (old(self).refreshed || outcome is Refreshed),
            step == refresh_step(outcome),
            *final(self) == after_refreshing(*old(self), outcome),
    {
        match outcome {
            RefreshOutcome::Refreshed => {
                self.refreshed = true;
                RefreshStep::TryAgain
            },
            RefreshOutcome::Permanent => RefreshStep::FailPermanent,
            RefreshOutcome::Transient => RefreshStep::FailTransient,
        }
    }
}

/// How many attempts a turn makes, by how they and the refreshes between them end: each is
/// followed by another only where the token was refreshed.
pub open spec fn attempts_made(
    retry: AuthRetry,
    outcomes: Seq<(AttemptOutcome, RefreshOutcome)>,
    has_manager: bool,
    mode: Option<AuthMode>,
) -> nat
    decreases outcomes.len(),
{
    if outcomes.len() == 0 {
        0
    } else if attempt_step(retry, outcomes[0].0, has_manager, mode) is Refresh
        && outcomes[0].1 is Refreshed {
        1 + attempts_made(AuthRetry { refreshed: true }, outcomes.skip(1), has_manager, mode)
    } else {
        1
    }
}

/// A turn makes no more than two attempts.
pub proof fn law_one_new_attempt_at_most(
    outcomes: Seq<(AttemptOutcome, RefreshOutcome)>,
    has_manager: bool,
    mode: Option<AuthMode>,
)
    ensures
        attempts_made(AuthRetry { refreshed: false }, outcomes, has_manager, mode) <= 2,
{
    if outcomes.len() > 0 {
        let rest = outcomes.skip(1);
        assert(attempts_made(AuthRetry { refreshed: true }, rest, has_manager, mode) <= 1);
    }
}

/// What is recorded about an event that is passed on.
#[derive(Debug, Clone, Copy, PartialEq, Eq, Structural)]
pub enum RelayNote {
    /// Nothing.
    Quiet,
    /// The turn is complete and took these tokens.
    Completed(TokenUsage),
    /// The turn failed.
    Failed,
}

/// The events of a turn on their way to the client. Each is passed on as it is.
pub struct StreamRelay {
    pub logged_error: bool,
}

/// What is recorded about an event: the tokens of a turn that is complete, where they are
/// known, and the first failure.
pub open spec fn note_for<E>(logged: bool, event: Result<ResponseEvent, E>) -> RelayNote {
    match event {
        Ok(ResponseEvent::Completed { token_usage: Some(usage), .. }) => RelayNote::Completed(
            usage,
        ),
        Ok(_) => RelayNote::Quiet,
        Err(_) => if logged {
            RelayNote::Quiet
        } else {
            RelayNote::Failed
        },
    }
}

/// Was a failure recorded before this event or with it?
pub open spec fn logged_behind<E>(logged: bool, event: Result<ResponseEvent, E>) -> bool {
    logged || event is Err
}

/// Was a failure recorded before the first event?
pub open spec fn logged_at_first() -> bool {
    false
}

impl StreamRelay {
    /// No failure was recorded yet.
    pub fn new() -> (relay: StreamRelay)
        ensures
            !relay.logged_error,
            relay.logged_error == logged_at_first(),
    {
        StreamRelay { logged_error: false }
    }

    /// Decide what is recorded about an event, which is handed back as it is.
    pub fn relay<E>(&mut self, event: Result<ResponseEvent, E>) -> (passed: (
        RelayNote,
        Result<ResponseEvent, E>,
    ))
        ensures
            passed.0 == note_for(old(self).logged_error, event),
            passed.1 == event,
            final(self).logged_error == (old(self).logged_error || event is Err),
            final(self).logged_error == logged_behind(old(self).logged_error, event),
    {
        let note: RelayNote = match &event {
            Ok(ResponseEvent::Completed { token_usage, .. }) => match token_usage {
                Some(usage) => RelayNote::Completed(*usage),
                None => RelayNote::Quiet,
            },
            Ok(_) => RelayNote::Quiet,
            Err(_) => {
                if self.logged_error {
                    RelayNote::Quiet
                } else {
                    self.logged_error = true;
                    RelayNote::Failed
                }
            },
        };
        (note, event)
    }
}

/// How many failures are recorded over the events of a turn.
pub open spec fn failures_noted<E>(logged: bool, events: Seq<Result<ResponseEvent, E>>) -> nat
    decreases events.len(),
{
    if events.len() == 0 {
        0
    } else {
        let here: nat = if note_for(logged, events[0]) is Failed {
            1
        } else {
            0
        };
        here + failures_noted(logged || events[0] is Err, events.skip(1))
    }
}

/// A failure is recorded once where there is any, whatever follows it.
pub proof fn law_one_failure_is_noted<E>(logged: bool, events: Seq<Result<ResponseEvent, E>>)
    ensures
        failures_noted(logged, events) == (if !logged && exists|i: int|
            0 <= i < events.len() && #[trigger] events[i] is Err {
            1nat
        } else {
            0
        }),
    decreases events.len(),
{
    if events.len() > 0 {
        law_one_failure_is_noted(logged || events[0] is Err, events.skip(1));
        let rest = events.skip(1);
        assert forall|i: int| 0 <= i < rest.len() implies #[trigger] rest[i] == events[i + 1] by {}
        if exists|i: int| 0 <= i < events.len() && #[trigger] events[i] is Err {
            let i = choose|i: int| 0 <= i < events.len() && #[trigger] events[i] is Err;
            if i > 0 {
                assert(rest[i - 1] is Err);
            }
        }
        if exists|i: int| 0 <= i < rest.len() && #[trigger] rest[i] is Err {
            let i = choose|i: int| 0 <= i < rest.len() && #[trigger] rest[i] is Err;
            assert(events[i + 1] is Err);
        }
    }
}

} // verus!
