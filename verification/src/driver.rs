//! The adapters that put a prompt into the form of a provider.
use vstd::prelude::*;
use crate::gemini::GeminiCall;
use crate::gemini_models::Tool;
use crate::openai_driver::{ApiPrompt, ResponsesOptions};
use crate::protocol::{CodexErr, ErrView, ItemView, Prompt, ResponseItem, SessionSource};

verus! {

/// What a driver has ready to send.
pub enum DriverCall {
    /// A request to the Gemini API.
    Gemini(GeminiCall),
    /// A prompt for the Responses API.
    Responses { prompt: ApiPrompt, options: ResponsesOptions },
    /// A prompt for the Chat Completions API; its events are put together where `aggregate`
    /// says so, and passed on as they come otherwise.
    Chat {
        prompt: ApiPrompt,
        conversation_id: String,
        session_source: SessionSource,
        aggregate: bool,
    },
    /// A file of recorded events.
    Fixture { path: String },
}

/// The tools of a prompt in the form of each API. For the Gemini API, none stands for a tool
/// that could not be read.
pub struct PromptTools {
    pub gemini: Vec<Option<Tool>>,
    pub responses: Vec<serde_json::Value>,
    pub chat: Vec<serde_json::Value>,
}

/// A list of items, in mathematical form.
pub open spec fn items_view(items: Result<Vec<ResponseItem>, CodexErr>) -> Result<
    Seq<ItemView>,
    ErrView,
> {
    match items {
        Ok(list) => Ok(list.deep_view()),
        Err(err) => Err(err.deep_view()),
    }
}

/// A pluggable adapter that knows how to translate Codex prompts into a
/// model-specific wire protocol.
pub trait ModelDriver {
    /// What the driver makes of a prompt.
    spec fn is_call(
        &self,
        prompt: Prompt,
        tools: PromptTools,
        call: Result<DriverCall, CodexErr>,
    ) -> bool;

    /// What the driver makes of a conversation that is to be compacted.
    spec fn compacted(&self, prompt: Prompt) -> Result<Seq<ItemView>, ErrView>;

    /// The driver's name.
    spec fn name(&self) -> Seq<char>;

    /// Prepare a single turn through the underlying provider.
    fn stream(&self, prompt: Prompt, tools: PromptTools) -> (call: Result<DriverCall, CodexErr>)
        ensures
            self.is_call(prompt, tools, call),
    ;

    /// Compact a conversation using the provider's native compaction endpoint.
    fn compact_conversation_history(&self, prompt: &Prompt) -> (items: Result<
        Vec<ResponseItem>,
        CodexErr,
    >)
        ensures
            items_view(items) == self.compacted(*prompt),
    ;

    /// Human-readable name used for diagnostics and metrics.
    fn driver_name(&self) -> (name: &'static str)
        ensures
            name@ == self.name(),
    ;
}

} // verus!
