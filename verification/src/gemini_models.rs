//! The requests and responses of the Gemini API.
use vstd::prelude::*;
use vstd::string::*;
use crate::json::{json_of, json_option, JsonModel};
use crate::text::{has_prefix, starts_with};

verus! {

/// A request for content.
#[derive(Debug, Clone)]
pub struct GenerateContentRequest {
    pub contents: Vec<Content>,
    pub tools: Option<Vec<Tool>>,
    pub tool_config: Option<ToolConfig>,
    pub cached_content: Option<String>,
    pub generation_config: Option<GenerationConfig>,
    pub system_instruction: Option<Content>,
}

/// How the model is to use its tools.
#[derive(Debug, Clone, PartialEq, Eq)]
pub struct ToolConfig {
    pub function_calling_config: Option<FunctionCallingConfig>,
}

/// Which functions the model may call, and when.
#[derive(Debug, Clone, PartialEq, Eq)]
pub struct FunctionCallingConfig {
    pub mode: Option<FunctionCallingMode>,
    pub allowed_function_names: Option<Vec<String>>,
}

/// When the model calls functions. `Off` is the mode that the API writes as NONE.
#[derive(Debug, Clone, Copy, PartialEq, Eq, Structural)]
pub enum FunctionCallingMode {
    Auto,
    Any,
    Off,
    Validated,
}

/// One turn of a conversation: who speaks, and what.
#[derive(Debug, Clone, PartialEq)]
pub struct Content {
    pub role: String,
    pub parts: Vec<Part>,
}

/// A piece of a turn.
#[derive(Debug, Clone, PartialEq)]
pub struct Part {
    pub text: Option<String>,
    pub inline_data: Option<Blob>,
    pub media_resolution: Option<MediaResolution>,
    pub function_call: Option<FunctionCall>,
    pub function_response: Option<FunctionResponse>,
    /// An opaque token for the model's thoughts, encoded in base64.
    pub thought_signature: Option<String>,
    /// Is the part a summary of the model's thinking?
    pub thought: Option<bool>,
}

/// Bytes, encoded in base64, with their media type.
#[derive(Debug, Clone, PartialEq, Eq)]
pub struct Blob {
    pub mime_type: String,
    pub data: String,
}

/// How finely an image is looked at.
#[derive(Debug, Clone, PartialEq, Eq)]
pub struct MediaResolution {
    pub level: String,
}

/// A call that the model asks for.
#[derive(Debug, Clone, PartialEq)]
pub struct FunctionCall {
    pub name: String,
    pub args: serde_json::Value,
}

/// The answer to a call.
#[derive(Debug, Clone, PartialEq)]
pub struct FunctionResponse {
    pub name: String,
    pub response: serde_json::Value,
}

/// What the model may use.
#[derive(Debug, Clone, PartialEq)]
pub struct Tool {
    pub function_declarations: Option<Vec<FunctionDeclaration>>,
    pub google_search: Option<serde_json::Value>,
    pub code_execution: Option<serde_json::Value>,
}

/// A function that the model may call.
#[derive(Debug, Clone, PartialEq)]
pub struct FunctionDeclaration {
    pub name: String,
    pub description: String,
    pub parameters: serde_json::Value,
}

/// A number of single precision, by its bits.
#[derive(Debug, Clone, Copy, PartialEq, Eq, Structural)]
pub struct SingleFloat {
    pub bits: u32,
}

/// How content is to be generated.
#[derive(Debug, Clone, PartialEq)]
pub struct GenerationConfig {
    pub max_output_tokens: Option<i32>,
    pub temperature: Option<SingleFloat>,
    pub top_p: Option<SingleFloat>,
    pub top_k: Option<i32>,
    pub thinking_config: Option<ThinkingConfig>,
    pub response_mime_type: Option<String>,
    pub response_json_schema: Option<serde_json::Value>,
    pub image_config: Option<ImageConfig>,
}

/// How much the model is to think.
#[derive(Debug, Clone, PartialEq, Eq)]
pub struct ThinkingConfig {
    pub thinking_level: Option<String>,
    pub thinking_budget: Option<i32>,
    pub include_thoughts: Option<bool>,
}

/// What images are to look like.
#[derive(Debug, Clone, PartialEq, Eq)]
pub struct ImageConfig {
    pub aspect_ratio: Option<String>,
    pub image_size: Option<String>,
}

/// The answer to a request for content.
#[derive(Debug, Clone)]
pub struct GenerateContentResponse {
    pub candidates: Option<Vec<Candidate>>,
    pub prompt_feedback: Option<PromptFeedback>,
    pub usage_metadata: Option<UsageMetadata>,
}

/// A refusal.
#[derive(Debug, Clone)]
pub struct ErrorEnvelope {
    pub error: Option<GoogleApiError>,
}

/// Why a request was refused.
#[derive(Debug, Clone)]
pub struct GoogleApiError {
    pub code: i32,
    pub message: String,
    pub status: Option<String>,
}

/// One of the answers that the model gives.
#[derive(Debug, Clone)]
pub struct Candidate {
    pub content: Option<Content>,
    pub finish_reason: Option<String>,
    pub index: Option<i32>,
    pub safety_ratings: Option<Vec<SafetyRating>>,
}

/// What was wrong with a prompt.
#[derive(Debug, Clone)]
pub struct PromptFeedback {
    pub block_reason: Option<String>,
    pub safety_ratings: Option<Vec<SafetyRating>>,
}

/// How likely content is to do harm of some kind.
#[derive(Debug, Clone)]
pub struct SafetyRating {
    pub category: String,
    pub probability: String,
}

/// The tokens that a request took.
#[derive(Debug, Clone, Copy, PartialEq, Eq, Structural)]
pub struct UsageMetadata {
    pub prompt_token_count: Option<i64>,
    pub candidates_token_count: Option<i64>,
    pub total_token_count: Option<i64>,
    pub thoughts_token_count: Option<i64>,
}

impl Default for UsageMetadata {
    fn default() -> (meta: Self)
        ensures
            meta == (UsageMetadata {
                prompt_token_count: None,
                candidates_token_count: None,
                total_token_count: None,
                thoughts_token_count: None,
            }),
    {
        UsageMetadata {
            prompt_token_count: None,
            candidates_token_count: None,
            total_token_count: None,
            thoughts_token_count: None,
        }
    }
}

/// One message of a stream: what the model gives next, and the tokens it took.
#[derive(Debug, Clone)]
pub struct GeminiStreamResult {
    pub candidates: Option<Vec<Candidate>>,
    pub usage_metadata: Option<UsageMetadata>,
}

/// A message of a stream, bare or as the member `result` of an object.
#[derive(Debug, Clone)]
pub enum GeminiStreamEnvelope {
    Wrapped { result: GeminiStreamResult },
    Unwrapped(GeminiStreamResult),
}

/// Bytes with their media type, in mathematical form.
pub struct BlobView {
    pub mime_type: Seq<char>,
    pub data: Seq<char>,
}

impl DeepView for Blob {
    type V = BlobView;

    open spec fn deep_view(&self) -> BlobView {
        BlobView { mime_type: self.mime_type@, data: self.data@ }
    }
}

impl DeepView for MediaResolution {
    type V = Seq<char>;

    open spec fn deep_view(&self) -> Seq<char> {
        self.level@
    }
}

/// A call, in mathematical form.
pub struct CallView {
    pub name: Seq<char>,
    pub args: JsonModel,
}

impl DeepView for FunctionCall {
    type V = CallView;

    open spec fn deep_view(&self) -> CallView {
        CallView { name: self.name@, args: json_of(self.args) }
    }
}

/// The answer to a call, in mathematical form.
pub struct AnswerView {
    pub name: Seq<char>,
    pub response: JsonModel,
}

impl DeepView for FunctionResponse {
    type V = AnswerView;

    open spec fn deep_view(&self) -> AnswerView {
        AnswerView { name: self.name@, response: json_of(self.response) }
    }
}

/// A piece of a turn, in mathematical form.
pub struct PartView {
    pub text: Option<Seq<char>>,
    pub inline_data: Option<BlobView>,
    pub media_resolution: Option<Seq<char>>,
    pub function_call: Option<CallView>,
    pub function_response: Option<AnswerView>,
    pub thought_signature: Option<Seq<char>>,
    pub thought: Option<bool>,
}

impl DeepView for Part {
    type V = PartView;

    open spec fn deep_view(&self) -> PartView {
        PartView {
            text: self.text.deep_view(),
            inline_data: self.inline_data.deep_view(),
            media_resolution: self.media_resolution.deep_view(),
            function_call: self.function_call.deep_view(),
            function_response: self.function_response.deep_view(),
            thought_signature: self.thought_signature.deep_view(),
            thought: self.thought,
        }
    }
}

/// A turn, in mathematical form.
pub struct ContentView {
    pub role: Seq<char>,
    pub parts: Seq<PartView>,
}

impl DeepView for Content {
    type V = ContentView;

    open spec fn deep_view(&self) -> ContentView {
        ContentView { role: self.role@, parts: self.parts.deep_view() }
    }
}

/// What a candidate says, where it says anything.
impl DeepView for Candidate {
    type V = Option<ContentView>;

    open spec fn deep_view(&self) -> Option<ContentView> {
        self.content.deep_view()
    }
}

/// What a list of candidates says; nothing where there is no list.
pub open spec fn contents_said(candidates: Option<Vec<Candidate>>) -> Seq<Option<ContentView>> {
    match candidates.deep_view() {
        Some(list) => list,
        None => Seq::empty(),
    }
}

/// How content is to be generated, in mathematical form.
pub struct GenerationConfigView {
    pub max_output_tokens: Option<i32>,
    pub temperature: Option<SingleFloat>,
    pub top_p: Option<SingleFloat>,
    pub top_k: Option<i32>,
    pub thinking_config: Option<ThinkingView>,
    pub response_mime_type: Option<Seq<char>>,
    pub response_json_schema: Option<JsonModel>,
    pub image_config: Option<(Option<Seq<char>>, Option<Seq<char>>)>,
}

/// How much the model is to think, in mathematical form.
pub struct ThinkingView {
    pub thinking_level: Option<Seq<char>>,
    pub thinking_budget: Option<i32>,
    pub include_thoughts: Option<bool>,
}

impl DeepView for ThinkingConfig {
    type V = ThinkingView;

    open spec fn deep_view(&self) -> ThinkingView {
        ThinkingView {
            thinking_level: self.thinking_level.deep_view(),
            thinking_budget: self.thinking_budget,
            include_thoughts: self.include_thoughts,
        }
    }
}

impl DeepView for ImageConfig {
    type V = (Option<Seq<char>>, Option<Seq<char>>);

    open spec fn deep_view(&self) -> (Option<Seq<char>>, Option<Seq<char>>) {
        (self.aspect_ratio.deep_view(), self.image_size.deep_view())
    }
}

impl DeepView for GenerationConfig {
    type V = GenerationConfigView;

    open spec fn deep_view(&self) -> GenerationConfigView {
        GenerationConfigView {
            max_output_tokens: self.max_output_tokens,
            temperature: self.temperature,
            top_p: self.top_p,
            top_k: self.top_k,
            thinking_config: self.thinking_config.deep_view(),
            response_mime_type: self.response_mime_type.deep_view(),
            response_json_schema: json_option(self.response_json_schema),
            image_config: self.image_config.deep_view(),
        }
    }
}

/// The resource name of a model: as it stands where it says that it is one, with `models/`
/// before it where it names a model of the family, and none otherwise.
pub open spec fn model_resource(model: Seq<char>) -> Option<Seq<char>> {
    if has_prefix(model, "models/"@) {
        Some(model)
    } else if has_prefix(model, "gemini"@) {
        Some("models/"@ + model)
    } else {
        None
    }
}

/// The address at which a model generates content.
pub open spec fn generate_url(model: Seq<char>) -> Option<Seq<char>> {
    match model_resource(model) {
        Some(resource) => Some(
            "https://generativelanguage.googleapis.com/v1beta/"@ + resource + ":generateContent"@,
        ),
        None => None,
    }
}

/// Derive the canonical Gemini generateContent REST URL for a model slug.
pub fn default_gemini_generate_url(model: &str) -> (url: Option<String>)
    ensures
        url.deep_view() == generate_url(model@),
{
    let mut url: String = "https://generativelanguage.googleapis.com/v1beta/".to_owned();
    if starts_with(model, "models/") {
        url.append(model);
    } else if starts_with(model, "gemini") {
        url.append("models/");
        url.append(model);
        proof {
            assert(url@ =~= "https://generativelanguage.googleapis.com/v1beta/"@ + (
            "models/"@ + model@));
        }
    } else {
        return None;
    }
    url.append(":generateContent");
    Some(url)
}

} // verus!
