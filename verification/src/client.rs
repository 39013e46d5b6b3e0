//! A client for one model: the settings of a session, and the driver that serves it.
use vstd::prelude::*;
use vstd::string::*;
use crate::driver::{items_view, DriverCall, ModelDriver, PromptTools};
use crate::gemini_driver::GeminiDriver;
use crate::openai_driver::OpenAIDriver;
use crate::protocol::{
    copy_text, CodexErr, ErrView, ItemView, ModelProviderInfo, Prompt, ReasoningEffort,
    ReasoningSummary, ResponseItem, SessionSource, Verbosity, WireApi,
};

verus! {

/// What is known of a model.
#[derive(Debug, Clone, Copy, PartialEq, Eq, Structural)]
pub struct ModelInfo {
    pub context_window: i64,
    pub auto_compact_token_limit: Option<i64>,
}

/// A family of models, with what is known of it.
#[derive(Debug)]
pub struct ModelFamily {
    pub slug: String,
    pub default_reasoning_effort: Option<ReasoningEffort>,
    pub default_verbosity: Option<Verbosity>,
    pub effective_context_window_percent: i64,
    pub info: Option<ModelInfo>,
}

impl Clone for ModelFamily {
    fn clone(&self) -> (copy: Self)
        ensures
            copy == *self,
    {
        ModelFamily {
            slug: self.slug.clone(),
            default_reasoning_effort: self.default_reasoning_effort,
            default_verbosity: self.default_verbosity,
            effective_context_window_percent: self.effective_context_window_percent,
            info: self.info,
        }
    }
}

/// The settings of a session.
#[derive(Debug, Clone)]
pub struct Config {
    pub model: String,
    pub model_family: ModelFamily,
    pub model_context_window: Option<i64>,
    pub model_auto_compact_token_limit: Option<i64>,
    pub show_raw_agent_reasoning: bool,
    /// A file of recorded events that stands in for the Responses API.
    pub sse_fixture: Option<String>,
}

/// The driver that serves a client.
#[derive(Debug, Clone)]
pub enum Driver {
    Gemini(GeminiDriver),
    OpenAI(OpenAIDriver),
}

impl ModelDriver for Driver {
    open spec fn is_call(
        &self,
        prompt: Prompt,
        tools: PromptTools,
        call: Result<DriverCall, CodexErr>,
    ) -> bool {
        match self {
            Driver::Gemini(driver) => driver.is_call(prompt, tools, call),
            Driver::OpenAI(driver) => driver.is_call(prompt, tools, call),
        }
    }

    open spec fn compacted(&self, prompt: Prompt) -> Result<Seq<ItemView>, ErrView> {
        match self {
            Driver::Gemini(driver) => driver.compacted(prompt),
            Driver::OpenAI(driver) => driver.compacted(prompt),
        }
    }

    open spec fn name(&self) -> Seq<char> {
        match self {
            Driver::Gemini(driver) => driver.name(),
            Driver::OpenAI(driver) => driver.name(),
        }
    }

    fn stream(&self, prompt: Prompt, tools: PromptTools) -> (call: Result<DriverCall, CodexErr>) {
        match self {
            Driver::Gemini(driver) => driver.stream(prompt, tools),
            Driver::OpenAI(driver) => driver.stream(prompt, tools),
        }
    }

    fn compact_conversation_history(&self, prompt: &Prompt) -> (items: Result<
        Vec<ResponseItem>,
        CodexErr,
    >) {
        match self {
            Driver::Gemini(driver) => driver.compact_conversation_history(prompt),
            Driver::OpenAI(driver) => driver.compact_conversation_history(prompt),
        }
    }

    fn driver_name(&self) -> (name: &'static str) {
        match self {
            Driver::Gemini(driver) => driver.driver_name(),
            Driver::OpenAI(driver) => driver.driver_name(),
        }
    }
}

/// A client for one model. It carries a manager of tokens and a recorder of events for its
/// user, and looks into neither.
#[derive(Debug, Clone)]
pub struct ModelClient<A, O> {
    config: Config,
    auth_manager: Option<A>,
    otel_event_manager: O,
    provider: ModelProviderInfo,
    conversation_id: String,
    effort: Option<ReasoningEffort>,
    summary: ReasoningSummary,
    session_source: SessionSource,
    driver: Driver,
}

/// A client, in mathematical form.
pub struct ClientView<A, O> {
    pub config: Config,
    pub auth_manager: Option<A>,
    pub otel_event_manager: O,
    pub provider: ModelProviderInfo,
    pub conversation_id: String,
    pub effort: Option<ReasoningEffort>,
    pub summary: ReasoningSummary,
    pub session_source: SessionSource,
    pub driver: Driver,
}

impl<A, O> View for ModelClient<A, O> {
    type V = ClientView<A, O>;

    closed spec fn view(&self) -> ClientView<A, O> {
        ClientView {
            config: self.config,
            auth_manager: self.auth_manager,
            otel_event_manager: self.otel_event_manager,
            provider: self.provider,
            conversation_id: self.conversation_id,
            effort: self.effort,
            summary: self.summary,
            session_source: self.session_source,
            driver: self.driver,
        }
    }
}

/// The effort that a Gemini model is asked for: what the session asks for, or what the family
/// of the model does by itself.
pub open spec fn gemini_effort(config: Config, effort: Option<ReasoningEffort>) -> Option<
    ReasoningEffort,
> {
    if effort is Some {
        effort
    } else {
        config.model_family.default_reasoning_effort
    }
}

/// The driver for a provider, by the protocol that it speaks.
pub open spec fn driver_for(
    driver: Driver,
    config: Config,
    provider: ModelProviderInfo,
    conversation_id: Seq<char>,
    effort: Option<ReasoningEffort>,
    summary: ReasoningSummary,
    session_source: SessionSource,
) -> bool {
    match driver {
        Driver::Gemini(d) => {
            &&& provider.wire_api is Gemini
            &&& d.reasoning_effort == gemini_effort(config, effort)
            &&& d.provider.deep_view() == provider.deep_view()
            &&& d.session_source == session_source
        },
        Driver::OpenAI(d) => {
            &&& provider.wire_api !is Gemini
            &&& d.model@ == config.model@
            &&& d.show_raw_agent_reasoning == config.show_raw_agent_reasoning
            &&& d.default_verbosity == config.model_family.default_verbosity
            &&& d.provider.deep_view() == provider.deep_view()
            &&& d.conversation_id@ == conversation_id
            &&& d.session_source == session_source
            &&& d.effort == effort
            &&& d.summary == summary
            &&& d.fixture == config.sse_fixture
        },
    }
}

/// A window, cut down to some hundredths of it and rounded toward zero; the product of the
/// two stays within the range of a 64-bit integer.
pub open spec fn scaled_window(window: int, percent: int) -> int {
    let product = if window * percent > i64::MAX {
        i64::MAX as int
    } else if window * percent < i64::MIN {
        i64::MIN as int
    } else {
        window * percent
    };
    if product >= 0 {
        product / 100
    } else {
        -((-product) / 100)
    }
}

fn scale_window(window: i64, percent: i64) -> (scaled: i64)
    ensures
        scaled == scaled_window(window as int, percent as int),
{
    proof {
        let w = window as int;
        let p = percent as int;
        let m = 0x8000_0000_0000_0000int;
        assert(-(m * m) <= w * p <= m * m) by (nonlinear_arith)
            requires
                -m <= w <= m,
                -m <= p <= m,
                m == 0x8000_0000_0000_0000int,
        ;
    }
    let product: i128 = (window as i128) * (percent as i128);
    let kept: i128 = if product > i64::MAX as i128 {
        i64::MAX as i128
    } else if product < i64::MIN as i128 {
        i64::MIN as i128
    } else {
        product
    };
    if kept >= 0 {
        (kept / 100) as i64
    } else {
        let magnitude: i128 = -kept;
        (-(magnitude / 100)) as i64
    }
}

/// How many tokens a turn may hold, by the settings.
pub open spec fn context_window_of(config: Config) -> Option<int> {
    let percent = config.model_family.effective_context_window_percent as int;
    match (config.model_context_window, config.model_family.info) {
        (Some(window), _) => Some(scaled_window(window as int, percent)),
        (None, Some(info)) => Some(scaled_window(info.context_window as int, percent)),
        (None, None) => None,
    }
}

/// How many tokens a conversation may hold before it is compacted, by the settings.
pub open spec fn compact_limit_of(config: Config) -> Option<i64> {
    match (config.model_auto_compact_token_limit, config.model_family.info) {
        (Some(n), _) => Some(n),
        (None, Some(info)) => info.auto_compact_token_limit,
        (None, None) => None,
    }
}

impl<A, O> ModelClient<A, O> {
    /// A client for the model of a session, with the driver that its provider calls for.
    pub fn new(
        config: Config,
        auth_manager: Option<A>,
        otel_event_manager: O,
        provider: &ModelProviderInfo,
        effort: Option<ReasoningEffort>,
        summary: ReasoningSummary,
        conversation_id: String,
        session_source: SessionSource,
    ) -> (client: Self)
        ensures
            client@.config == config,
            client@.auth_manager == auth_manager,
            client@.otel_event_manager == otel_event_manager,
            client@.provider.deep_view() == provider.deep_view(),
            client@.conversation_id == conversation_id,
            client@.effort == effort,
            client@.summary == summary,
            client@.session_source == session_source,
            driver_for(
                client@.driver,
                config,
                *provider,
                conversation_id@,
                effort,
                summary,
                session_source,
            ),
    {
        let driver: Driver = match provider.wire_api {
            WireApi::Gemini => Driver::Gemini(
                GeminiDriver {
                    reasoning_effort: match effort {
                        Some(e) => Some(e),
                        None => config.model_family.default_reasoning_effort,
                    },
                    provider: provider.clone(),
                    session_source,
                },
            ),
            WireApi::Chat | WireApi::Responses => Driver::OpenAI(
                OpenAIDriver {
                    model: config.model.clone(),
                    show_raw_agent_reasoning: config.show_raw_agent_reasoning,
                    default_verbosity: config.model_family.default_verbosity,
                    provider: provider.clone(),
                    conversation_id: conversation_id.clone(),
                    session_source,
                    effort,
                    summary,
                    fixture: copy_text(&config.sse_fixture),
                },
            ),
        };
        ModelClient {
            config,
            auth_manager,
            otel_event_manager,
            provider: provider.clone(),
            conversation_id,
            effort,
            summary,
            session_source,
            driver,
        }
    }

    /// How many tokens a turn may hold: what the settings say, or what is known of the model,
    /// cut down to the part of it that is used.
    pub fn get_model_context_window(&self) -> (window: Option<i64>)
        ensures
            window is Some == (self@.config.model_context_window is Some
                || self@.config.model_family.info is Some),
            window matches Some(n) ==> n == scaled_window(
                match self@.config.model_context_window {
                    Some(w) => w as int,
                    None => self@.config.model_family.info.unwrap().context_window as int,
                },
                self@.config.model_family.effective_context_window_percent as int,
            ),
            (match window {
                Some(n) => Some(n as int),
                None => None,
            }) == context_window_of(self@.config),
    {
        let percent: i64 = self.config.model_family.effective_context_window_percent;
        match self.config.model_context_window {
            Some(window) => Some(scale_window(window, percent)),
            None => match self.config.model_family.info {
                Some(info) => Some(scale_window(info.context_window, percent)),
                None => None,
            },
        }
    }

    /// How many tokens a conversation may hold before it is compacted.
    pub fn get_auto_compact_token_limit(&self) -> (limit: Option<i64>)
        ensures
            limit == (match (
                self@.config.model_auto_compact_token_limit,
                self@.config.model_family.info,
            ) {
                (Some(n), _) => Some(n),
                (None, Some(info)) => info.auto_compact_token_limit,
                (None, None) => None,
            }),
            limit == compact_limit_of(self@.config),
    {
        match self.config.model_auto_compact_token_limit {
            Some(limit) => Some(limit),
            None => match self.config.model_family.info {
                Some(info) => info.auto_compact_token_limit,
                None => None,
            },
        }
    }

    /// The settings of the session.
    pub fn config(&self) -> (config: &Config)
        ensures
            *config == self@.config,
    {
        &self.config
    }

    /// The provider of the model.
    pub fn provider(&self) -> (provider: &ModelProviderInfo)
        ensures
            *provider == self@.provider,
    {
        &self.provider
    }

    /// The provider of the model.
    pub fn get_provider(&self) -> (provider: &ModelProviderInfo)
        ensures
            *provider == self@.provider,
    {
        &self.provider
    }

    /// The name of the model.
    pub fn get_model(&self) -> (model: String)
        ensures
            model == self@.config.model,
    {
        self.config.model.clone()
    }

    /// The family of the model.
    pub fn get_model_family(&self) -> (family: ModelFamily)
        ensures
            family == self@.config.model_family,
    {
        self.config.model_family.clone()
    }

    /// How much the session asks the model to think.
    pub fn get_reasoning_effort(&self) -> (effort: Option<ReasoningEffort>)
        ensures
            effort == self@.effort,
    {
        self.effort
    }

    /// How the model is to sum up its thinking.
    pub fn get_reasoning_summary(&self) -> (summary: ReasoningSummary)
        ensures
            summary == self@.summary,
    {
        self.summary
    }

    /// The recorder of events.
    pub fn get_otel_event_manager(&self) -> (manager: &O)
        ensures
            *manager == self@.otel_event_manager,
    {
        &self.otel_event_manager
    }

    /// The manager of tokens, where there is one.
    pub fn get_auth_manager(&self) -> (manager: &Option<A>)
        ensures
            *manager == self@.auth_manager,
    {
        &self.auth_manager
    }

    /// Where the session was started from.
    pub fn get_session_source(&self) -> (source: SessionSource)
        ensures
            source == self@.session_source,
    {
        self.session_source
    }

    /// Prepares a single model turn using the configured driver.
    pub fn stream(&self, prompt: Prompt, tools: PromptTools) -> (call: Result<
        DriverCall,
        CodexErr,
    >)
        ensures
            self@.driver.is_call(prompt, tools, call),
    {
        self.driver.stream(prompt, tools)
    }

    /// Compacts a conversation using the configured driver.
    pub fn compact_conversation_history(&self, prompt: &Prompt) -> (items: Result<
        Vec<ResponseItem>,
        CodexErr,
    >)
        ensures
            items_view(items) == self@.driver.compacted(*prompt),
    {
        self.driver.compact_conversation_history(prompt)
    }

    /// Returns the name of the underlying driver.
    pub fn driver_name(&self) -> (name: &'static str)
        ensures
            name@ == self@.driver.name(),
    {
        self.driver.driver_name()
    }
}

/// A provider is served by the driver for its protocol, and by no other.
pub proof fn law_driver_fits_provider(
    driver: Driver,
    config: Config,
    provider: ModelProviderInfo,
    conversation_id: Seq<char>,
    effort: Option<ReasoningEffort>,
    summary: ReasoningSummary,
    session_source: SessionSource,
)
    requires
        driver_for(
            driver,
            config,
            provider,
            conversation_id,
            effort,
            summary,
            session_source,
        ),
    ensures
        driver.name() == (if provider.wire_api is Gemini {
            "GeminiDriver"@
        } else {
            "OpenAIDriver"@
        }),
        driver matches Driver::OpenAI(d) ==> d.provider.wire_api !is Gemini,
{
}

/// The part of a window that is used is no more than the window, where it is a part.
pub proof fn law_scaled_window_is_part(window: int, percent: int)
    requires
        0 <= window <= i64::MAX,
        0 <= percent <= 100,
    ensures
        0 <= scaled_window(window, percent) <= window,
        percent == 100 && window * 100 <= i64::MAX ==> scaled_window(window, percent) == window,
{
    assert(0 <= window * percent <= window * 100) by (nonlinear_arith)
        requires
            0 <= window,
            0 <= percent <= 100,
    ;
}

} // verus!
