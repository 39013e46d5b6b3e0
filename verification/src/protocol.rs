//! The items of a conversation, the events of a model's turn, and what describes a provider.
use vstd::prelude::*;
use crate::json::{json_of, JsonModel};

verus! {

/// A copy of an optional text.
pub(crate) fn copy_text(text: &Option<String>) -> (copy: Option<String>)
    ensures
        copy == *text,
{
    match text {
        Some(t) => Some(t.clone()),
        None => None,
    }
}

/// One piece of a message.
#[derive(Debug, Clone, PartialEq)]
pub enum ContentItem {
    InputText { text: String },
    InputImage { image_url: String },
    OutputText { text: String },
}

/// A piece of a message, in mathematical form.
pub enum ContentItemView {
    InputText { text: Seq<char> },
    InputImage { image_url: Seq<char> },
    OutputText { text: Seq<char> },
}

impl DeepView for ContentItem {
    type V = ContentItemView;

    open spec fn deep_view(&self) -> ContentItemView {
        match self {
            ContentItem::InputText { text } => ContentItemView::InputText { text: text@ },
            ContentItem::InputImage { image_url } => ContentItemView::InputImage {
                image_url: image_url@,
            },
            ContentItem::OutputText { text } => ContentItemView::OutputText { text: text@ },
        }
    }
}

/// One piece of a tool's output.
#[derive(Debug, Clone, PartialEq)]
pub enum FunctionCallOutputContentItem {
    InputText { text: String },
    InputImage { image_url: String },
}

/// A piece of a tool's output, in mathematical form.
pub enum OutputItemView {
    InputText { text: Seq<char> },
    InputImage { image_url: Seq<char> },
}

impl DeepView for FunctionCallOutputContentItem {
    type V = OutputItemView;

    open spec fn deep_view(&self) -> OutputItemView {
        match self {
            FunctionCallOutputContentItem::InputText { text } => OutputItemView::InputText {
                text: text@,
            },
            FunctionCallOutputContentItem::InputImage { image_url } => OutputItemView::InputImage {
                image_url: image_url@,
            },
        }
    }
}

/// What a tool call gave: its text, and its pieces where it is structured.
#[derive(Debug, Clone, PartialEq)]
pub struct FunctionCallOutputPayload {
    pub content: String,
    pub content_items: Option<Vec<FunctionCallOutputContentItem>>,
    pub success: Option<bool>,
}

/// What a tool call gave, in mathematical form.
pub struct OutputPayloadView {
    pub content: Seq<char>,
    pub content_items: Option<Seq<OutputItemView>>,
    pub success: Option<bool>,
}

impl DeepView for FunctionCallOutputPayload {
    type V = OutputPayloadView;

    open spec fn deep_view(&self) -> OutputPayloadView {
        OutputPayloadView {
            content: self.content@,
            content_items: self.content_items.deep_view(),
            success: self.success,
        }
    }
}

impl Default for FunctionCallOutputPayload {
    fn default() -> (payload: Self)
        ensures
            payload.deep_view() == (OutputPayloadView {
                content: Seq::empty(),
                content_items: None,
                success: None,
            }),
    {
        FunctionCallOutputPayload { content: String::new(), content_items: None, success: None }
    }
}

/// One line of a reasoning summary.
#[derive(Debug, Clone, PartialEq)]
pub enum ReasoningItemReasoningSummary {
    SummaryText { text: String },
}

/// An item of a conversation's history. What is none of the kinds told apart here is held
/// as the JSON value that stands for it.
#[derive(Debug, Clone, PartialEq)]
#[allow(inconsistent_fields)]
pub enum ResponseItem {
    Message {
        id: Option<String>,
        role: String,
        content: Vec<ContentItem>,
        thought_signature: Option<String>,
    },
    Reasoning {
        id: String,
        summary: Vec<ReasoningItemReasoningSummary>,
        content: Option<Vec<String>>,
        encrypted_content: Option<String>,
    },
    FunctionCall {
        id: Option<String>,
        name: String,
        arguments: String,
        call_id: String,
        thought_signature: Option<String>,
    },
    FunctionCallOutput {
        call_id: String,
        output: FunctionCallOutputPayload,
        thought_signature: Option<String>,
    },
    CustomToolCallOutput { call_id: String, output: String },
    Other(serde_json::Value),
}

/// An item of a conversation's history, in mathematical form.
#[allow(inconsistent_fields)]
pub enum ItemView {
    Message {
        id: Option<Seq<char>>,
        role: Seq<char>,
        content: Seq<ContentItemView>,
        thought_signature: Option<Seq<char>>,
    },
    Reasoning {
        id: Seq<char>,
        summary: Seq<Seq<char>>,
        content: Option<Seq<Seq<char>>>,
        encrypted_content: Option<Seq<char>>,
    },
    FunctionCall {
        id: Option<Seq<char>>,
        name: Seq<char>,
        arguments: Seq<char>,
        call_id: Seq<char>,
        thought_signature: Option<Seq<char>>,
    },
    FunctionCallOutput {
        call_id: Seq<char>,
        output: OutputPayloadView,
        thought_signature: Option<Seq<char>>,
    },
    CustomToolCallOutput { call_id: Seq<char>, output: Seq<char> },
    Other(JsonModel),
}

impl DeepView for ReasoningItemReasoningSummary {
    type V = Seq<char>;

    open spec fn deep_view(&self) -> Seq<char> {
        match self {
            ReasoningItemReasoningSummary::SummaryText { text } => text@,
        }
    }
}

impl DeepView for ResponseItem {
    type V = ItemView;

    open spec fn deep_view(&self) -> ItemView {
        match self {
            ResponseItem::Message { id, role, content, thought_signature } => ItemView::Message {
                id: id.deep_view(),
                role: role@,
                content: content.deep_view(),
                thought_signature: thought_signature.deep_view(),
            },
            ResponseItem::Reasoning { id, summary, content, encrypted_content } =>
            ItemView::Reasoning {
                id: id@,
                summary: summary.deep_view(),
                content: content.deep_view(),
                encrypted_content: encrypted_content.deep_view(),
            },
            ResponseItem::FunctionCall { id, name, arguments, call_id, thought_signature } =>
            ItemView::FunctionCall {
                id: id.deep_view(),
                name: name@,
                arguments: arguments@,
                call_id: call_id@,
                thought_signature: thought_signature.deep_view(),
            },
            ResponseItem::FunctionCallOutput { call_id, output, thought_signature } =>
            ItemView::FunctionCallOutput {
                call_id: call_id@,
                output: output.deep_view(),
                thought_signature: thought_signature.deep_view(),
            },
            ResponseItem::CustomToolCallOutput { call_id, output } =>
            ItemView::CustomToolCallOutput { call_id: call_id@, output: output@ },
            ResponseItem::Other(value) => ItemView::Other(json_of(*value)),
        }
    }
}

/// The tokens that a turn took.
#[derive(Debug, Clone, Copy, PartialEq, Eq, Structural)]
pub struct TokenUsage {
    pub input_tokens: i64,
    pub cached_input_tokens: i64,
    pub output_tokens: i64,
    pub reasoning_output_tokens: i64,
    pub total_tokens: i64,
}

/// What a model's turn gives, step by step.
#[derive(Debug, Clone, PartialEq)]
pub enum ResponseEvent {
    Created,
    OutputItemAdded(ResponseItem),
    OutputItemDone(ResponseItem),
    OutputTextDelta(String),
    Completed { response_id: String, token_usage: Option<TokenUsage> },
}

/// A step of a turn, in mathematical form.
pub enum EventView {
    Created,
    OutputItemAdded(ItemView),
    OutputItemDone(ItemView),
    OutputTextDelta(Seq<char>),
    Completed { response_id: Seq<char>, token_usage: Option<TokenUsage> },
}

impl DeepView for ResponseEvent {
    type V = EventView;

    open spec fn deep_view(&self) -> EventView {
        match self {
            ResponseEvent::Created => EventView::Created,
            ResponseEvent::OutputItemAdded(item) => EventView::OutputItemAdded(item.deep_view()),
            ResponseEvent::OutputItemDone(item) => EventView::OutputItemDone(item.deep_view()),
            ResponseEvent::OutputTextDelta(text) => EventView::OutputTextDelta(text@),
            ResponseEvent::Completed { response_id, token_usage } => EventView::Completed {
                response_id: response_id@,
                token_usage: *token_usage,
            },
        }
    }
}

/// A response with a status that was not hoped for.
#[derive(Debug, Clone, PartialEq, Eq)]
pub struct UnexpectedResponseError {
    pub status: u16,
    pub body: String,
    pub request_id: Option<String>,
}

/// Why an operation failed.
#[derive(Debug, Clone, PartialEq, Eq)]
pub enum CodexErr {
    /// The server answered with a status that is not a success.
    UnexpectedStatus(UnexpectedResponseError),
    /// The stream broke off, with a delay in milliseconds before a new try, where one is known.
    Stream(String, Option<u64>),
    /// The driver does not offer the operation.
    UnsupportedOperation(String),
    /// The first event of a session was not its configuration.
    SessionConfiguredNotFirstEvent,
    /// No conversation has this id.
    ConversationNotFound(u128),
}

/// Why an operation failed, in mathematical form.
pub enum ErrView {
    UnexpectedStatus { status: u16, body: Seq<char>, request_id: Option<Seq<char>> },
    Stream(Seq<char>, Option<u64>),
    UnsupportedOperation(Seq<char>),
    SessionConfiguredNotFirstEvent,
    ConversationNotFound(u128),
}

impl DeepView for CodexErr {
    type V = ErrView;

    open spec fn deep_view(&self) -> ErrView {
        match self {
            CodexErr::UnexpectedStatus(e) => ErrView::UnexpectedStatus {
                status: e.status,
                body: e.body@,
                request_id: e.request_id.deep_view(),
            },
            CodexErr::Stream(message, delay) => ErrView::Stream(message@, *delay),
            CodexErr::UnsupportedOperation(message) => ErrView::UnsupportedOperation(message@),
            CodexErr::SessionConfiguredNotFirstEvent => ErrView::SessionConfiguredNotFirstEvent,
            CodexErr::ConversationNotFound(id) => ErrView::ConversationNotFound(*id),
        }
    }
}

/// How much a model is to think.
#[derive(Debug, Clone, Copy, PartialEq, Eq, Structural)]
pub enum ReasoningEffort {
    Off,
    Minimal,
    Low,
    Medium,
    High,
    XHigh,
}

/// How a model is to sum up its thinking.
#[derive(Debug, Clone, Copy, PartialEq, Eq, Structural)]
pub enum ReasoningSummary {
    Auto,
    Concise,
    Detailed,
    Off,
}

/// How much a model is to say.
#[derive(Debug, Clone, Copy, PartialEq, Eq, Structural)]
pub enum Verbosity {
    Low,
    Medium,
    High,
}

/// The protocol that a provider speaks.
#[derive(Debug, Clone, Copy, PartialEq, Eq, Structural)]
pub enum WireApi {
    Responses,
    Chat,
    Gemini,
}

/// A prompt that is ready to be sent: the full instructions, and the history in the form in
/// which the model reads it.
#[derive(Debug, Clone)]
pub struct Prompt {
    pub instructions: String,
    pub input: Vec<ResponseItem>,
    pub parallel_tool_calls: bool,
    pub output_schema: Option<serde_json::Value>,
}

/// Where a session was started from.
#[derive(Debug, Clone, Copy, PartialEq, Eq, Structural)]
pub enum SessionSource {
    Cli,
    VSCode,
    Exec,
    Mcp,
    Unknown,
}

/// A provider of models. Of two query parameters with one name the later one counts.
#[derive(Debug)]
pub struct ModelProviderInfo {
    pub name: String,
    pub base_url: Option<String>,
    pub query_params: Option<Vec<(String, String)>>,
    pub wire_api: WireApi,
}

/// A provider of models, in mathematical form.
pub struct ProviderView {
    pub name: Seq<char>,
    pub base_url: Option<Seq<char>>,
    pub query_params: Option<Seq<(Seq<char>, Seq<char>)>>,
    pub wire_api: WireApi,
}

impl DeepView for ModelProviderInfo {
    type V = ProviderView;

    open spec fn deep_view(&self) -> ProviderView {
        ProviderView {
            name: self.name@,
            base_url: self.base_url.deep_view(),
            query_params: self.query_params.deep_view(),
            wire_api: self.wire_api,
        }
    }
}

/// A copy of a list of pairs.
fn copy_pairs(pairs: &Vec<(String, String)>) -> (copy: Vec<(String, String)>)
    ensures
        copy.deep_view() == pairs.deep_view(),
{
    let mut copy: Vec<(String, String)> = Vec::new();
    let total: usize = pairs.len();
    for i in 0..total
        invariant
            total == pairs@.len(),
            copy@.len() == i,
            forall|k: int| 0 <= k < i ==> #[trigger] copy@[k] == pairs@[k],
    {
        copy.push((pairs[i].0.clone(), pairs[i].1.clone()));
    }
    proof {
        assert(copy@ =~= pairs@);
    }
    copy
}

impl Clone for ModelProviderInfo {
    fn clone(&self) -> (copy: Self)
        ensures
            copy.deep_view() == self.deep_view(),
    {
        ModelProviderInfo {
            name: self.name.clone(),
            base_url: copy_text(&self.base_url),
            query_params: match &self.query_params {
                Some(params) => Some(copy_pairs(params)),
                None => None,
            },
            wire_api: self.wire_api,
        }
    }
}

/// The value of the query parameter `name`.
pub open spec fn param_value(params: Seq<(Seq<char>, Seq<char>)>, name: Seq<char>) -> Option<
    Seq<char>,
>
    decreases params.len(),
{
    if params.len() == 0 {
        None
    } else if params.last().0 == name {
        Some(params.last().1)
    } else {
        param_value(params.drop_last(), name)
    }
}

impl ModelProviderInfo {
    /// The value of the query parameter `name`, where the provider has one.
    pub open spec fn param(&self, name: Seq<char>) -> Option<Seq<char>> {
        match self.deep_view().query_params {
            Some(params) => param_value(params, name),
            None => None,
        }
    }

    /// The value of the query parameter `name`.
    pub fn query_param(&self, name: &str) -> (value: Option<&String>)
        ensures
            value is Some == self.param(name@) is Some,
            value matches Some(v) ==> self.param(name@) == Some(v@),
    {
        match &self.query_params {
            Some(params) => {
                let mut i: usize = params.len();
                let ghost views = params.deep_view();
                proof {
                    assert(views.take(i as int) =~= views);
                }
                while i > 0
                    invariant
                        i <= params@.len(),
                        views == params.deep_view(),
                        param_value(views, name@) == param_value(views.take(i as int), name@),
                        self.param(name@) == param_value(views, name@),
                    decreases i,
                {
                    proof {
                        assert(views.take(i as int).drop_last() =~= views.take(i - 1));
                        assert(views[i - 1] == params@[i - 1].deep_view());
                    }
                    i = i - 1;
                    if crate::text::text_eq(params[i].0.as_str(), name) {
                        return Some(&params[i].1);
                    }
                }
                None
            },
            None => None,
        }
    }
}

} // verus!
