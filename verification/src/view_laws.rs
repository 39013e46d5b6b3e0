//! The values that the library works on and their mathematical forms: nothing that counts is
//! left out of a form, and nothing in it is changed.
use crate::gemini::AnswerMode;
use crate::gemini_models::{Content, FunctionCall, GenerationConfig, Part};
use crate::gemini_session::{GeminiSession, InputView, SseInput, SseStep, StepView};
use crate::gemini_stream::GeminiTextState;
use crate::json::json_of;
use crate::plan::FunctionCallError;
use crate::protocol::{
    CodexErr, ContentItem, ContentItemView, ErrView, EventView, FunctionCallOutputContentItem,
    FunctionCallOutputPayload, ItemView, ModelProviderInfo, OutputItemView, ResponseEvent,
    ResponseItem, TokenUsage, UnexpectedResponseError,
};
use crate::session_scan::{LocalHit, SummaryScan};
use crate::session_search::{
    ActionView, SearchAction, SearchNode, SearchStart, SessionSearch, StartView,
};
use vstd::prelude::*;

verus! {

/// The characters of an optional text.
pub open spec fn chars_in(text: Option<String>) -> Option<Seq<char>> {
    match text {
        Some(t) => Some(t@),
        None => None,
    }
}

/// A part of a turn holds its text, its bytes, its call, its answer and its signature.
pub proof fn law_form_of_a_part(part: Part)
    ensures
        part.deep_view().text == chars_in(part.text),
        part.deep_view().thought_signature == chars_in(part.thought_signature),
        part.deep_view().thought == part.thought,
        part.deep_view().inline_data is Some == part.inline_data is Some,
        part.inline_data matches Some(blob) ==> {
            &&& part.deep_view().inline_data->0.mime_type == blob.mime_type@
            &&& part.deep_view().inline_data->0.data == blob.data@
        },
        part.deep_view().media_resolution is Some == part.media_resolution is Some,
        part.media_resolution matches Some(resolution) ==> part.deep_view().media_resolution->0
            == resolution.level@,
        part.deep_view().function_call is Some == part.function_call is Some,
        part.function_call matches Some(call) ==> {
            &&& part.deep_view().function_call->0.name == call.name@
            &&& part.deep_view().function_call->0.args == json_of(call.args)
        },
        part.deep_view().function_response is Some == part.function_response is Some,
        part.function_response matches Some(answer) ==> {
            &&& part.deep_view().function_response->0.name == answer.name@
            &&& part.deep_view().function_response->0.response == json_of(answer.response)
        },
{
}

/// A turn holds its speaker and all its parts.
pub proof fn law_form_of_a_turn(content: Content, i: int)
    requires
        0 <= i < content.parts@.len(),
    ensures
        content.deep_view().role == content.role@,
        content.deep_view().parts.len() == content.parts@.len(),
        content.deep_view().parts[i] == content.parts@[i].deep_view(),
{
}

/// The settings of a request hold what is set.
pub proof fn law_form_of_settings(config: GenerationConfig)
    ensures
        config.deep_view().response_mime_type == chars_in(config.response_mime_type),
        config.deep_view().response_json_schema is Some == config.response_json_schema is Some,
        config.response_json_schema matches Some(schema)
            ==> config.deep_view().response_json_schema == Some(json_of(schema)),
        config.deep_view().thinking_config is Some == config.thinking_config is Some,
        config.thinking_config matches Some(thinking) ==> {
            &&& config.deep_view().thinking_config->0.thinking_level == chars_in(
                thinking.thinking_level,
            )
            &&& config.deep_view().thinking_config->0.thinking_budget == thinking.thinking_budget
            &&& config.deep_view().thinking_config->0.include_thoughts
                == thinking.include_thoughts
        },
        config.deep_view().max_output_tokens == config.max_output_tokens,
        config.deep_view().temperature == config.temperature,
        config.deep_view().top_p == config.top_p,
        config.deep_view().top_k == config.top_k,
        config.deep_view().image_config is Some == config.image_config is Some,
{
}

/// A piece of a message or of a tool's output holds its text or its address.
pub proof fn law_form_of_pieces(text: String)
    ensures
        (ContentItem::InputText { text }).deep_view() == (ContentItemView::InputText { text: text@ }),
        (ContentItem::OutputText { text }).deep_view() == (ContentItemView::OutputText {
            text: text@,
        }),
        (ContentItem::InputImage { image_url: text }).deep_view() == (ContentItemView::InputImage {
            image_url: text@,
        }),
        (FunctionCallOutputContentItem::InputText { text }).deep_view() == (
        OutputItemView::InputText { text: text@ }),
        (FunctionCallOutputContentItem::InputImage { image_url: text }).deep_view() == (
        OutputItemView::InputImage { image_url: text@ }),
{
}

/// What a tool gave holds its text, and its pieces where it has them.
pub proof fn law_form_of_outputs(payload: FunctionCallOutputPayload)
    ensures
        payload.deep_view().content == payload.content@,
        payload.deep_view().success == payload.success,
        payload.deep_view().content_items is Some == payload.content_items is Some,
        payload.content_items matches Some(items) ==> payload.deep_view().content_items->0
            == items.deep_view(),
{
}

/// A message of a conversation holds its speaker, all its pieces and its signature.
pub proof fn law_form_of_a_message(
    id: Option<String>,
    role: String,
    content: Vec<ContentItem>,
    thought_signature: Option<String>,
)
    ensures
        (ResponseItem::Message { id, role, content, thought_signature }).deep_view() == (
        ItemView::Message {
            id: chars_in(id),
            role: role@,
            content: content.deep_view(),
            thought_signature: chars_in(thought_signature),
        }),
{
}

/// A call of a conversation holds its name, its arguments, its id and its signature.
pub proof fn law_form_of_a_call(
    id: Option<String>,
    name: String,
    arguments: String,
    call_id: String,
    thought_signature: Option<String>,
)
    ensures
        (ResponseItem::FunctionCall { id, name, arguments, call_id, thought_signature }).deep_view()
            == (ItemView::FunctionCall {
            id: chars_in(id),
            name: name@,
            arguments: arguments@,
            call_id: call_id@,
            thought_signature: chars_in(thought_signature),
        }),
{
}

/// What tools gave holds the id of the call, what was given, and the signature.
pub proof fn law_form_of_what_tools_gave(
    call_id: String,
    output: FunctionCallOutputPayload,
    thought_signature: Option<String>,
    words: String,
)
    ensures
        (ResponseItem::FunctionCallOutput { call_id, output, thought_signature }).deep_view() == (
        ItemView::FunctionCallOutput {
            call_id: call_id@,
            output: output.deep_view(),
            thought_signature: chars_in(thought_signature),
        }),
        (ResponseItem::CustomToolCallOutput { call_id, output: words }).deep_view() == (
        ItemView::CustomToolCallOutput { call_id: call_id@, output: words@ }),
{
}

/// Thoughts and what else stands in a conversation are none of these.
pub proof fn law_form_of_the_rest(item: ResponseItem)
    ensures
        item is Reasoning == item.deep_view() is Reasoning,
        item is Other == item.deep_view() is Other,
        item matches ResponseItem::Other(value) ==> item.deep_view() == ItemView::Other(
            json_of(value),
        ),
{
}

/// The events of a turn hold their items, their text, their id and their tokens.
pub proof fn law_form_of_events(
    item: ResponseItem,
    text: String,
    token_usage: Option<TokenUsage>,
)
    ensures
        ResponseEvent::Created.deep_view() is Created,
        ResponseEvent::OutputItemAdded(item).deep_view() == EventView::OutputItemAdded(
            item.deep_view(),
        ),
        ResponseEvent::OutputItemDone(item).deep_view() == EventView::OutputItemDone(
            item.deep_view(),
        ),
        ResponseEvent::OutputTextDelta(text).deep_view() == EventView::OutputTextDelta(text@),
        (ResponseEvent::Completed { response_id: text, token_usage }).deep_view() == (
        EventView::Completed { response_id: text@, token_usage }),
{
}

/// Errors hold their words, their status and their ids.
pub proof fn law_form_of_errors(
    error: UnexpectedResponseError,
    message: String,
    delay: Option<u64>,
    id: u128,
)
    ensures
        CodexErr::UnexpectedStatus(error).deep_view() == (ErrView::UnexpectedStatus {
            status: error.status,
            body: error.body@,
            request_id: chars_in(error.request_id),
        }),
        CodexErr::Stream(message, delay).deep_view() == ErrView::Stream(message@, delay),
        CodexErr::UnsupportedOperation(message).deep_view() == ErrView::UnsupportedOperation(
            message@,
        ),
        CodexErr::ConversationNotFound(id).deep_view() == ErrView::ConversationNotFound(id),
        CodexErr::SessionConfiguredNotFirstEvent.deep_view() is SessionConfiguredNotFirstEvent,
{
}

/// A provider holds its name, its address, its parameters and its protocol.
pub proof fn law_form_of_a_provider(provider: ModelProviderInfo)
    ensures
        provider.deep_view().name == provider.name@,
        provider.deep_view().base_url == chars_in(provider.base_url),
        provider.deep_view().wire_api == provider.wire_api,
        provider.deep_view().query_params is Some == provider.query_params is Some,
        provider.query_params matches Some(list) ==> provider.deep_view().query_params
            == Some(list.deep_view()),
{
}

/// A message that is being told holds its words, whether it was announced, and its signature.
pub proof fn law_form_of_a_message_being_told(
    state: GeminiTextState,
    session: GeminiSession,
    out: Seq<EventView>,
)
    ensures
        state.deep_view().buffer == state.buffer@,
        state.deep_view().active == state.active,
        state.deep_view().thought_signature == chars_in(state.thought_signature),
        session.with(out).turn.said.events == out,
        session.with(out).turn.said.text == session.text_state.deep_view(),
        session.with(out).turn.next == session.call_tracker.next,
        session.with(out).token_usage == session.token_usage,
        session.with(out).saw_done == session.saw_done,
        session.with(out).received_payload == session.received_payload,
        session.with(out).saw_event == session.saw_event,
{
}

/// What a stream brings and what is done about it hold their words.
pub proof fn law_form_of_a_stream(data: &str, err: CodexErr)
    ensures
        SseInput::Data(data).deep_view() == InputView::Data(data@),
        SseInput::Broken(data).deep_view() == InputView::Broken(data@),
        SseInput::End.deep_view() is End,
        SseStep::ReadOn.deep_view() is ReadOn,
        SseStep::Take(data).deep_view() == StepView::Take(data@),
        SseStep::Finish.deep_view() is Finish,
        SseStep::Fail(err).deep_view() == StepView::Fail(err.deep_view()),
{
}

/// What was read of a session, and what is shown of it, hold all of their texts and marks.
pub proof fn law_form_of_a_session(scan: SummaryScan, hit: LocalHit)
    ensures
        scan.deep_view().id == chars_in(scan.id),
        scan.deep_view().timestamp == chars_in(scan.timestamp),
        scan.deep_view().cwd == chars_in(scan.cwd),
        scan.deep_view().preview == chars_in(scan.preview),
        scan.deep_view().has_exec == scan.has_exec,
        scan.deep_view().has_writes == scan.has_writes,
        scan.deep_view().commands == scan.commands.deep_view(),
        scan.deep_view().files_touched == scan.files_touched.deep_view(),
        hit.deep_view().id == hit.id@,
        hit.deep_view().file == hit.file,
        hit.deep_view().preview == hit.preview@,
        hit.deep_view().cwd == chars_in(hit.cwd),
        hit.deep_view().timestamp == hit.timestamp@,
{
}

/// How a search begins and how an answer is read hold what they say.
pub proof fn law_form_of_decisions(
    args: Vec<String>,
    request_id: Option<String>,
    words: String,
)
    ensures
        SearchStart::Nothing.deep_view() is Nothing,
        SearchStart::Prefilter(args).deep_view() == StartView::Prefilter(args.deep_view()),
        SearchStart::Walk.deep_view() is Walk,
        (AnswerMode::Failed { request_id }).kind() is Failed,
        AnswerMode::EventStream.kind() is EventStream,
        AnswerMode::Json.kind() is Json,
        FunctionCallError::RespondToModel(words).deep_view() == words@,
{
}

/// A search holds its places and its hits, and an action the place that it is about.
pub proof fn law_form_of_a_search(search: SessionSearch, node: SearchNode)
    ensures
        search.state().stack == search.stack.deep_view(),
        search.state().hits == search.hits@,
        node.deep_view().key == node.key.components.deep_view(),
        node.deep_view().depth == node.depth,
        node.deep_view().handle == node.handle,
        SearchAction::List(node).deep_view() == ActionView::List(node.deep_view()),
        SearchAction::Read(node).deep_view() == ActionView::Read(node.deep_view()),
        SearchAction::Finished.deep_view() is Finished,
{
}

} // verus!
