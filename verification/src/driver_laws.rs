//! What a driver is given and what it sends, when a turn is tried again, and what is recorded
//! of it.
use crate::client::{
    compact_limit_of, context_window_of, driver_for, gemini_effort, scaled_window, Config, Driver,
};
use crate::driver::{DriverCall, ModelDriver, PromptTools};
use crate::gemini::{
    answer_kind, contents_of, generation_config_of, readable_tools, requests_sse, status_error,
    system_instruction_of,
};
use crate::gemini_driver::GeminiDriver;
use crate::gemini_models::{ErrorEnvelope, GeminiStreamEnvelope, GoogleApiError};
use crate::gemini_session::{chunk_for, SseChunk};
use crate::json::json_option;
use crate::openai_driver::{
    after_refreshing, attempt_step, logged_at_first, logged_behind, not_refreshed, note_for,
    refresh_step, AttemptOutcome, AuthMode, AuthRetry, OpenAIDriver, RefreshOutcome, RelayNote,
};
use crate::protocol::{
    param_value, CodexErr, ErrView, ModelProviderInfo, Prompt, ReasoningEffort, ReasoningSummary,
    ResponseEvent, SessionSource, TokenUsage,
};
use vstd::prelude::*;

verus! {

/// The effort that a session asks for is the one that a Gemini model is asked for; only where
/// it asks for none does the family of the model decide.
pub proof fn law_effort_of_a_session(config: Config, effort: ReasoningEffort)
    ensures
        gemini_effort(config, Some(effort)) == Some(effort),
        gemini_effort(config, None) == config.model_family.default_reasoning_effort,
{
}

/// A driver has the settings of its session: the provider, the model, the effort and all that
/// goes with them.
pub proof fn law_driver_has_the_settings(
    driver: Driver,
    config: Config,
    provider: ModelProviderInfo,
    conversation_id: Seq<char>,
    effort: Option<ReasoningEffort>,
    summary: ReasoningSummary,
    session_source: SessionSource,
)
    requires
        driver_for(
            driver,
            config,
            provider,
            conversation_id,
            effort,
            summary,
            session_source,
        ),
    ensures
        driver is Gemini == provider.wire_api is Gemini,
        driver matches Driver::Gemini(d) ==> {
            &&& effort is Some ==> d.reasoning_effort == effort
            &&& effort is None ==> d.reasoning_effort
                == config.model_family.default_reasoning_effort
            &&& d.provider.deep_view() == provider.deep_view()
            &&& d.session_source == session_source
        },
        driver matches Driver::OpenAI(d) ==> {
            &&& d.model@ == config.model@
            &&& d.show_raw_agent_reasoning == config.show_raw_agent_reasoning
            &&& d.default_verbosity == config.model_family.default_verbosity
            &&& d.provider.deep_view() == provider.deep_view()
            &&& d.conversation_id@ == conversation_id
            &&& d.session_source == session_source
            &&& d.effort == effort
            &&& d.summary == summary
            &&& d.fixture == config.sse_fixture
        },
{
}

/// A turn over the Gemini API is a request with all of the prompt: its history, its tools, its
/// instructions, and the settings that the effort and the schema make. It is never refused.
pub proof fn law_gemini_sends_the_prompt(
    driver: GeminiDriver,
    prompt: Prompt,
    tools: PromptTools,
    call: Result<DriverCall, CodexErr>,
)
    requires
        driver.is_call(prompt, tools, call) || Driver::Gemini(driver).is_call(prompt, tools, call),
    ensures
        call matches Ok(DriverCall::Gemini(made)) && {
            &&& made.request.contents.deep_view() == contents_of(prompt.input.deep_view())
            &&& readable_tools(tools.gemini@).len() > 0 ==> (made.request.tools matches Some(list)
                && list@ == readable_tools(tools.gemini@))
            &&& readable_tools(tools.gemini@).len() == 0 ==> made.request.tools is None
            &&& made.request.system_instruction.deep_view() == system_instruction_of(
                prompt.instructions@,
            )
            &&& made.request.generation_config.deep_view() == generation_config_of(
                driver.reasoning_effort,
                json_option(prompt.output_schema),
            )
            &&& made.request.tool_config is None
            &&& made.request.cached_content is None
            &&& made.accept_event_stream == requests_sse(driver.provider)
        },
{
}

/// A turn over the Chat Completions API carries the prompt and the tools as they are, under the
/// session's name; one that asks for a schema is refused, and only such a one.
pub proof fn law_chat_sends_the_prompt(
    driver: OpenAIDriver,
    prompt: Prompt,
    tools: PromptTools,
    call: Result<DriverCall, CodexErr>,
)
    requires
        driver.provider.wire_api is Chat,
        driver.is_call(prompt, tools, call) || Driver::OpenAI(driver).is_call(prompt, tools, call),
    ensures
        prompt.output_schema is Some ==> (call matches Err(err) && err.deep_view()
            == ErrView::UnsupportedOperation(
            "output_schema is not supported for Chat Completions API"@,
        )),
        prompt.output_schema is None ==> (call matches Ok(
            DriverCall::Chat { prompt: api, conversation_id, session_source, aggregate },
        ) && {
            &&& api.instructions == prompt.instructions
            &&& api.input == prompt.input
            &&& api.tools@ == tools.chat@
            &&& api.parallel_tool_calls == prompt.parallel_tool_calls
            &&& api.output_schema == prompt.output_schema
            &&& conversation_id@ == driver.conversation_id@
            &&& session_source == driver.session_source
            &&& aggregate != driver.show_raw_agent_reasoning
        }),
{
}

/// A turn over the Responses API carries the prompt, the tools and the settings as they are;
/// where recorded events stand in for it, they are taken from their file.
pub proof fn law_responses_sends_the_prompt(
    driver: OpenAIDriver,
    prompt: Prompt,
    tools: PromptTools,
    call: Result<DriverCall, CodexErr>,
)
    requires
        driver.provider.wire_api is Responses,
        driver.is_call(prompt, tools, call) || Driver::OpenAI(driver).is_call(prompt, tools, call),
    ensures
        driver.fixture matches Some(file) ==> (call matches Ok(DriverCall::Fixture { path })
            && path@ == file@),
        driver.fixture is None ==> (call matches Ok(
            DriverCall::Responses { prompt: api, options },
        ) && {
            &&& api.instructions == prompt.instructions
            &&& api.input == prompt.input
            &&& api.tools@ == tools.responses@
            &&& api.parallel_tool_calls == prompt.parallel_tool_calls
            &&& api.output_schema == prompt.output_schema
            &&& driver.effort is None ==> options.reasoning is None
            &&& driver.effort matches Some(effort) ==> (options.reasoning matches Some(reasoning)
                && reasoning.effort == Some(effort) && reasoning.summary == Some(driver.summary))
            &&& options.conversation_id matches Some(id) && id@ == driver.conversation_id@
            &&& options.session_source == Some(driver.session_source)
            &&& options.verbosity == driver.default_verbosity
            &&& options.extra_fields@.len() == 0
            &&& options.prompt_cache_key is None
            &&& options.store_override is None
        }),
{
}

/// The driver for the other two protocols refuses turns over the Gemini API, and no driver
/// compacts a conversation.
pub proof fn law_what_drivers_refuse(
    openai: OpenAIDriver,
    gemini: GeminiDriver,
    prompt: Prompt,
    tools: PromptTools,
    call: Result<DriverCall, CodexErr>,
)
    ensures
        openai.provider.wire_api is Gemini && openai.is_call(prompt, tools, call) ==> (
        call matches Err(err) && err.deep_view() == ErrView::UnsupportedOperation(
            "OpenAIDriver only supports Responses and Chat APIs"@,
        )),
        Driver::OpenAI(openai).compacted(prompt) == Err::<
            Seq<crate::protocol::ItemView>,
            ErrView,
        >(ErrView::UnsupportedOperation("Compaction not supported for OpenAI yet"@)),
        Driver::Gemini(gemini).compacted(prompt) == Err::<
            Seq<crate::protocol::ItemView>,
            ErrView,
        >(ErrView::UnsupportedOperation("Compaction not supported for Gemini"@)),
        Driver::OpenAI(openai).name() == "OpenAIDriver"@,
        Driver::Gemini(gemini).name() == "GeminiDriver"@,
{
}

/// The part of a window that is used: so many hundredths of it, rounded toward zero.
pub proof fn law_window_in_hundredths(window: int, percent: int)
    requires
        0 <= window * percent <= i64::MAX,
    ensures
        100 * scaled_window(window, percent) <= window * percent < 100 * scaled_window(
            window,
            percent,
        ) + 100,
        scaled_window(-window, percent) == -scaled_window(window, percent),
{
    assert((-window) * percent == -(window * percent)) by (nonlinear_arith);
}

/// A window times its hundredths that is too large to be held counts as the largest number.
pub proof fn law_window_that_is_too_large(window: int, percent: int)
    ensures
        window * percent > i64::MAX ==> scaled_window(window, percent) == i64::MAX / 100,
        window * percent < i64::MIN ==> scaled_window(window, percent) == -((-(i64::MIN as int))
            / 100),
{
}

/// The window that the settings name is the one that counts; else it is what is known of the
/// model. The limit for compaction goes the same way.
pub proof fn law_settings_come_first(config: Config, window: i64, limit: i64)
    ensures
        ({
            let percent = config.model_family.effective_context_window_percent as int;
            &&& config.model_context_window == Some(window) ==> context_window_of(config) == Some(
                scaled_window(window as int, percent),
            )
            &&& config.model_context_window is None ==> match config.model_family.info {
                Some(info) => context_window_of(config) == Some(
                    scaled_window(info.context_window as int, percent),
                ),
                None => context_window_of(config) is None,
            }
        }),
        config.model_auto_compact_token_limit == Some(limit) ==> compact_limit_of(config) == Some(
            limit,
        ),
        config.model_auto_compact_token_limit is None ==> match config.model_family.info {
            Some(info) => compact_limit_of(config) == info.auto_compact_token_limit,
            None => compact_limit_of(config) is None,
        },
{
}

/// A stream that opened is handed out. A client that is not authorized gets its token
/// refreshed where that can be done and was not done before; any other failure is reported.
pub proof fn law_attempts(
    retry: AuthRetry,
    outcome: AttemptOutcome,
    has_manager: bool,
    mode: Option<AuthMode>,
    status: u16,
)
    ensures
        attempt_step(retry, outcome, has_manager, mode) is Deliver == outcome is Open,
        attempt_step(retry, AttemptOutcome::Failed, has_manager, mode) is Fail,
        status != 401 ==> attempt_step(
            retry,
            AttemptOutcome::HttpStatus(status),
            has_manager,
            mode,
        ) is Fail,
        attempt_step(retry, AttemptOutcome::HttpStatus(401), has_manager, mode) is Refresh == (
        !retry.refreshed && has_manager && mode == Some(AuthMode::ChatGPT)),
        attempt_step(retry, AttemptOutcome::HttpStatus(401), has_manager, mode) is Refresh
            || attempt_step(
            retry,
            AttemptOutcome::HttpStatus(401),
            has_manager,
            mode,
        ) is FailUnauthorized,
{
}

/// A turn is tried again behind a refresh that worked, and behind no other; a refresh that
/// worked is remembered.
pub proof fn law_refreshes(retry: AuthRetry, outcome: RefreshOutcome)
    ensures
        refresh_step(outcome) is TryAgain == outcome is Refreshed,
        refresh_step(RefreshOutcome::Permanent) is FailPermanent,
        refresh_step(RefreshOutcome::Transient) is FailTransient,
        after_refreshing(retry, RefreshOutcome::Refreshed).refreshed,
        outcome !is Refreshed ==> after_refreshing(retry, outcome) == retry,
        retry.refreshed ==> after_refreshing(retry, outcome).refreshed,
{
}

/// What is recorded of a turn: its tokens where it is complete and they are known, its first
/// failure, and nothing else.
pub proof fn law_what_is_recorded<E>(
    logged: bool,
    event: ResponseEvent,
    error: E,
    response_id: String,
    usage: TokenUsage,
)
    ensures
        note_for::<E>(
            logged,
            Ok(ResponseEvent::Completed { response_id, token_usage: Some(usage) }),
        ) == RelayNote::Completed(usage),
        note_for::<E>(logged, Ok(ResponseEvent::Completed { response_id, token_usage: None }))
            is Quiet,
        event !is Completed ==> note_for::<E>(logged, Ok(event)) is Quiet,
        note_for::<E>(false, Err(error)) is Failed,
        note_for::<E>(true, Err(error)) is Quiet,
{
}

/// A turn begins with nothing refreshed and nothing recorded. Then a first failure of
/// authorization leads to a refresh, the first failure is recorded, and what is passed on
/// without a failure records none.
pub proof fn law_beginning_of_a_turn<E>(error: E, event: ResponseEvent, logged: bool)
    ensures
        attempt_step(
            not_refreshed(),
            AttemptOutcome::HttpStatus(401),
            true,
            Some(AuthMode::ChatGPT),
        ) is Refresh,
        !not_refreshed().refreshed,
        note_for::<E>(logged_at_first(), Err(error)) is Failed,
        logged_behind::<E>(logged, Err(error)),
        logged_behind::<E>(logged, Ok(event)) == logged,
{
}

/// An answer is a failure exactly where its status is not in the two hundreds; else it is a
/// stream where it says so or one was asked for, and one JSON value otherwise.
pub proof fn law_answers_by_status(status: u16, announced: bool, requested: bool)
    ensures
        answer_kind(status, announced, requested) is Failed == (status / 100 != 2),
        status / 100 == 2 ==> (answer_kind(status, announced, requested) is EventStream == (
        announced || requested)),
        answer_kind(200, false, false) is Json,
{
}

/// A failed answer is reported with its status, its request id and its body, as they are; a
/// body that could not be read is replaced by words that say so.
pub proof fn law_failed_answers(
    status: u16,
    body: Seq<char>,
    request_id: Option<Seq<char>>,
)
    ensures
        status_error(status, Some(body), request_id) == (ErrView::UnexpectedStatus {
            status,
            body,
            request_id,
        }),
        status_error(status, None, request_id) == (ErrView::UnexpectedStatus {
            status,
            body: "failed to read response body"@,
            request_id,
        }),
{
}

/// A message that can be read as content is content, whatever else it could be read as; else
/// it is a refusal where it says why, and nothing otherwise.
pub proof fn law_reading_of_a_message(
    envelope: GeminiStreamEnvelope,
    refusal: Option<ErrorEnvelope>,
    error: GoogleApiError,
)
    ensures
        chunk_for(Some(envelope), refusal) == SseChunk::Message(envelope),
        chunk_for(None, Some(ErrorEnvelope { error: Some(error) })) == SseChunk::Refused(error),
        chunk_for(None, Some(ErrorEnvelope { error: None })) is Unreadable,
        chunk_for(None, None) is Unreadable,
{
}

/// Of the parameters with one name the last one counts, and others change nothing.
pub proof fn law_last_parameter_counts(
    params: Seq<(Seq<char>, Seq<char>)>,
    name: Seq<char>,
    value: Seq<char>,
    other: Seq<char>,
)
    requires
        other != name,
    ensures
        param_value(params.push((name, value)), name) == Some(value),
        param_value(params.push((other, value)), name) == param_value(params, name),
        param_value(Seq::empty(), name) is None,
{
    assert(params.push((other, value)).drop_last() =~= params);
}

/// The parameters of a provider are those of its list, and one without a list has none.
pub proof fn law_parameters_of_a_provider(provider: ModelProviderInfo, name: Seq<char>, i: int)
    ensures
        provider.query_params is None ==> provider.param(name) is None,
        provider.query_params matches Some(list) ==> 0 <= i < list@.len() && list@[i].0@ == name
            && (forall|j: int| i < j < list@.len() ==> (#[trigger] list@[j]).0@ != name)
            ==> provider.param(name) == Some(list@[i].1@),
{
    if let Some(list) = provider.query_params {
        if 0 <= i < list@.len() && list@[i].0@ == name && (forall|j: int|
            i < j < list@.len() ==> (#[trigger] list@[j]).0@ != name) {
            let views = list.deep_view();
            assert(views[i] == (list@[i].0@, list@[i].1@));
            assert forall|j: int| i < j < views.len() implies (#[trigger] views[j]).0 != name by {
                assert(list@[j].0@ != name);
            }
            lemma_last_param(views, name, i);
        }
    }
}

proof fn lemma_last_param(params: Seq<(Seq<char>, Seq<char>)>, name: Seq<char>, i: int)
    requires
        0 <= i < params.len(),
        params[i].0 == name,
        forall|j: int| i < j < params.len() ==> (#[trigger] params[j]).0 != name,
    ensures
        param_value(params, name) == Some(params[i].1),
    decreases params.len(),
{
    if i < params.len() - 1 {
        assert(params[params.len() - 1].0 != name);
        lemma_last_param(params.drop_last(), name, i);
    }
}

} // verus!
