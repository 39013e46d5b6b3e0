//! Turns over the Gemini API.
use vstd::prelude::*;
use vstd::string::*;
use crate::driver::{DriverCall, ModelDriver, PromptTools};
use crate::gemini::{
    contents_of, generation_config_of, readable_tools, requests_sse, stream_gemini,
    system_instruction_of, GeminiCall,
};
use crate::json::json_option;
use crate::protocol::{
    CodexErr, ErrView, ItemView, ModelProviderInfo, Prompt, ReasoningEffort, ResponseItem,
    SessionSource,
};

verus! {

/// A driver for the Gemini API.
#[derive(Debug, Clone)]
pub struct GeminiDriver {
    pub reasoning_effort: Option<ReasoningEffort>,
    pub provider: ModelProviderInfo,
    pub session_source: SessionSource,
}

impl ModelDriver for GeminiDriver {
    open spec fn is_call(
        &self,
        prompt: Prompt,
        tools: PromptTools,
        call: Result<DriverCall, CodexErr>,
    ) -> bool {
        &&& call matches Ok(DriverCall::Gemini(made))
        &&& made.request.contents.deep_view() == contents_of(prompt.input.deep_view())
        &&& made.request.tools is None == (readable_tools(tools.gemini@).len() == 0)
        &&& made.request.tools matches Some(list) ==> list@ == readable_tools(tools.gemini@)
        &&& made.request.tool_config is None
        &&& made.request.cached_content is None
        &&& made.request.generation_config.deep_view() == generation_config_of(
            self.reasoning_effort,
            json_option(prompt.output_schema),
        )
        &&& made.request.system_instruction.deep_view() == system_instruction_of(
            prompt.instructions@,
        )
        &&& made.accept_event_stream == requests_sse(self.provider)
    }

    open spec fn compacted(&self, prompt: Prompt) -> Result<Seq<ItemView>, ErrView> {
        Err(ErrView::UnsupportedOperation("Compaction not supported for Gemini"@))
    }

    open spec fn name(&self) -> Seq<char> {
        "GeminiDriver"@
    }

    fn stream(&self, prompt: Prompt, tools: PromptTools) -> (call: Result<DriverCall, CodexErr>) {
        let made: GeminiCall = stream_gemini(
            &prompt,
            tools.gemini,
            self.reasoning_effort,
            &self.provider,
        );
        Ok(DriverCall::Gemini(made))
    }

    fn compact_conversation_history(&self, prompt: &Prompt) -> (items: Result<
        Vec<ResponseItem>,
        CodexErr,
    >) {
        Err(CodexErr::UnsupportedOperation("Compaction not supported for Gemini".to_owned()))
    }

    fn driver_name(&self) -> (name: &'static str) {
        "GeminiDriver"
    }
}

} // verus!
