//! Requests to the Gemini API: how a conversation becomes a request, and how the answer is
//! to be read.
use vstd::prelude::*;
use vstd::string::*;
use vstd::hash_map::StringHashMap;
use crate::gemini_models::{
    AnswerView, Blob, BlobView, CallView, Content, ContentView, FunctionCall, FunctionResponse,
    GenerateContentRequest, GenerationConfig, GenerationConfigView, Part, PartView, ThinkingConfig,
    ThinkingView, Tool,
};
use crate::headers::{
    announces_event_stream, extract_request_id, is_event_stream, request_id_of,
};
use crate::json::{
    json_array, json_list, json_object_1, json_object_2, json_of, json_option, json_parse,
    json_parsed, json_string, object_1, object_2, JsonModel,
};
use crate::lists::{lemma_append_deep_view, lemma_push_deep_view};
use crate::protocol::{
    copy_text, CodexErr, ContentItem, ContentItemView, ErrView, FunctionCallOutputContentItem,
    FunctionCallOutputPayload, ItemView, ModelProviderInfo, OutputItemView, OutputPayloadView,
    Prompt, ReasoningEffort, ResponseItem, UnexpectedResponseError,
};
use crate::text::{
    contains, eq_ignore_ascii_case, has_prefix, has_substring, same_ignoring_ascii_case,
    split_at_first, split_once, strip_prefix, text_eq, trim, trimmed,
};

verus! {

/// A provider asks for a stream of events by its address or by its parameter `alt`.
pub open spec fn requests_sse(provider: ModelProviderInfo) -> bool {
    ||| match provider.base_url {
        Some(url) => has_substring(url@, "streamGenerateContent"@),
        None => false,
    }
    ||| match provider.param("alt"@) {
        Some(value) => same_ignoring_ascii_case(value, "sse"@),
        None => false,
    }
}

/// Does the provider ask for a stream of events?
pub fn provider_requests_sse(provider: &ModelProviderInfo) -> (yes: bool)
    ensures
        yes == requests_sse(*provider),
{
    if let Some(url) = &provider.base_url {
        if contains(url.as_str(), "streamGenerateContent") {
            return true;
        }
    }
    match provider.query_param("alt") {
        Some(value) => eq_ignore_ascii_case(value.as_str(), "sse"),
        None => false,
    }
}

/// A part that holds nothing.
pub open spec fn empty_part() -> PartView {
    PartView {
        text: None,
        inline_data: None,
        media_resolution: None,
        function_call: None,
        function_response: None,
        thought_signature: None,
        thought: None,
    }
}

/// A part that holds a text.
pub open spec fn text_part(text: Seq<char>) -> PartView {
    PartView { text: Some(text), ..empty_part() }
}

fn new_text_part(text: String) -> (part: Part)
    ensures
        part.deep_view() == text_part(text@),
{
    Part {
        text: Some(text),
        inline_data: None,
        media_resolution: None,
        function_call: None,
        function_response: None,
        thought_signature: None,
        thought: None,
    }
}

/// The bytes that a data URL holds in base64, with their media type.
pub open spec fn image_blob(url: Seq<char>) -> Option<BlobView> {
    if has_prefix(url, "data:"@) {
        match split_at_first(url.skip("data:"@.len() as int), ";base64,"@) {
            Some((mime, encoded)) => Some(BlobView { mime_type: mime, data: encoded }),
            None => None,
        }
    } else {
        None
    }
}

/// Read a data URL that holds bytes in base64.
pub fn inline_data_from_image_url(url: &str) -> (blob: Option<Blob>)
    ensures
        blob.deep_view() == image_blob(url@),
{
    match strip_prefix(url, "data:") {
        Some(stripped) => match split_once(stripped, ";base64,") {
            Some((mime, encoded)) => Some(
                Blob { mime_type: mime.to_owned(), data: encoded.to_owned() },
            ),
            None => None,
        },
        None => None,
    }
}

/// The part that a piece of a message becomes.
pub open spec fn part_of(item: ContentItemView) -> PartView {
    match item {
        ContentItemView::InputText { text } => text_part(text),
        ContentItemView::OutputText { text } => text_part(text),
        ContentItemView::InputImage { image_url } => match image_blob(image_url) {
            Some(blob) => PartView { inline_data: Some(blob), ..empty_part() },
            None => text_part("Image: "@ + image_url),
        },
    }
}

/// The parts that a piece of a message becomes: always one.
pub fn content_item_to_parts(item: &ContentItem) -> (parts: Vec<Part>)
    ensures
        parts.deep_view() == seq![part_of(item.deep_view())],
{
    let part: Part = match item {
        ContentItem::InputText { text } => new_text_part(text.clone()),
        ContentItem::OutputText { text } => new_text_part(text.clone()),
        ContentItem::InputImage { image_url } => {
            match inline_data_from_image_url(image_url.as_str()) {
                Some(blob) => Part {
                    text: None,
                    inline_data: Some(blob),
                    media_resolution: None,
                    function_call: None,
                    function_response: None,
                    thought_signature: None,
                    thought: None,
                },
                None => {
                    let mut text: String = "Image: ".to_owned();
                    text.append(image_url.as_str());
                    new_text_part(text)
                },
            }
        },
    };
    let mut parts: Vec<Part> = Vec::new();
    parts.push(part);
    proof {
        assert(parts.deep_view() =~= seq![part_of(item.deep_view())]);
    }
    parts
}

/// The JSON value that a piece of a tool's output becomes.
pub open spec fn output_item_json(item: OutputItemView) -> JsonModel {
    match item {
        OutputItemView::InputText { text } => object_1("text"@, JsonModel::Text(text)),
        OutputItemView::InputImage { image_url } => match image_blob(image_url) {
            Some(blob) => object_1(
                "inlineData"@,
                object_2(
                    "mimeType"@,
                    JsonModel::Text(blob.mime_type),
                    "data"@,
                    JsonModel::Text(blob.data),
                ),
            ),
            None => object_1("text"@, JsonModel::Text(image_url)),
        },
    }
}

/// The JSON value that a tool's output becomes: an object whose member `content` lists its
/// pieces, or its text alone where it has no pieces.
pub open spec fn payload_json(payload: OutputPayloadView) -> JsonModel {
    object_1(
        "content"@,
        JsonModel::Array(
            match payload.content_items {
                Some(items) => Seq::new(items.len(), |i: int| output_item_json(items[i])),
                None => seq![object_1("text"@, JsonModel::Text(payload.content))],
            },
        ),
    )
}

fn output_item_value(item: &FunctionCallOutputContentItem) -> (value: serde_json::Value)
    ensures
        json_of(value) == output_item_json(item.deep_view()),
{
    match item {
        FunctionCallOutputContentItem::InputText { text } => {
            json_object_1("text", json_string(text.clone()))
        },
        FunctionCallOutputContentItem::InputImage { image_url } => {
            match inline_data_from_image_url(image_url.as_str()) {
                Some(blob) => {
                    proof {
                        reveal_strlit("mimeType");
                        reveal_strlit("data");
                        assert("mimeType"@.len() != "data"@.len());
                    }
                    json_object_1(
                        "inlineData",
                        json_object_2(
                            "mimeType",
                            json_string(blob.mime_type),
                            "data",
                            json_string(blob.data),
                        ),
                    )
                },
                None => json_object_1("text", json_string(image_url.clone())),
            }
        },
    }
}

/// Write a tool's output as the JSON value that the API takes.
pub fn build_function_response_payload(payload: &FunctionCallOutputPayload) -> (value:
    serde_json::Value)
    ensures
        json_of(value) == payload_json(payload.deep_view()),
{
    let mut content: Vec<serde_json::Value> = Vec::new();
    match &payload.content_items {
        Some(items) => {
            let total: usize = items.len();
            for i in 0..total
                invariant
                    total == items@.len(),
                    content@.len() == i,
                    forall|k: int|
                        0 <= k < i ==> json_of(#[trigger] content@[k]) == output_item_json(
                            items@[k].deep_view(),
                        ),
            {
                content.push(output_item_value(&items[i]));
            }
            proof {
                let views = items.deep_view();
                assert(json_list(content@) =~= Seq::new(
                    views.len(),
                    |i: int| output_item_json(views[i]),
                ));
            }
        },
        None => {
            content.push(json_object_1("text", json_string(payload.content.clone())));
            proof {
                assert(json_list(content@) =~= seq![
                    object_1("text"@, JsonModel::Text(payload.content@)),
                ]);
            }
        },
    }
    json_object_1("content", json_array(content))
}

/// The role under which the API knows a speaker.
pub open spec fn role_of(role: Seq<char>) -> Seq<char> {
    if role == "assistant"@ {
        "model"@
    } else {
        role
    }
}

/// Name a speaker as the API does.
pub fn map_role(role: &str) -> (mapped: String)
    ensures
        mapped@ == role_of(role@),
{
    if text_eq(role, "assistant") {
        "model".to_owned()
    } else {
        role.to_owned()
    }
}

/// The name of the function that the latest call with this id called.
pub open spec fn called_name(items: Seq<ItemView>, call_id: Seq<char>) -> Option<Seq<char>>
    decreases items.len(),
{
    if items.len() == 0 {
        None
    } else {
        match items.last() {
            ItemView::FunctionCall { name, call_id: id, .. } if id == call_id => Some(name),
            _ => called_name(items.drop_last(), call_id),
        }
    }
}

/// The arguments of a call: what the text says in JSON, or the text itself.
pub open spec fn call_args(arguments: Seq<char>) -> JsonModel {
    match json_parsed(arguments) {
        Some(tree) => tree,
        None => JsonModel::Text(arguments),
    }
}

/// The parts of a message, the last of which carries the message's signature.
pub open spec fn message_parts(
    content: Seq<ContentItemView>,
    signature: Option<Seq<char>>,
) -> Seq<PartView> {
    let parts = Seq::new(content.len(), |i: int| part_of(content[i]));
    if signature is Some && parts.len() > 0 {
        parts.update(
            parts.len() - 1,
            PartView { thought_signature: signature, ..parts.last() },
        )
    } else {
        parts
    }
}

/// The turn that an item becomes, where it becomes one, behind the items before it.
pub open spec fn entry_of(before: Seq<ItemView>, item: ItemView) -> Option<ContentView> {
    match item {
        ItemView::Message { role, content, thought_signature, .. } => if content.len() == 0 {
            None
        } else {
            Some(
                ContentView {
                    role: role_of(role),
                    parts: message_parts(content, thought_signature),
                },
            )
        },
        ItemView::FunctionCall { name, arguments, thought_signature, .. } => Some(
            ContentView {
                role: "model"@,
                parts: seq![
                    PartView {
                        function_call: Some(CallView { name, args: call_args(arguments) }),
                        thought_signature,
                        ..empty_part()
                    },
                ],
            },
        ),
        ItemView::FunctionCallOutput { call_id, output, .. } => Some(
            ContentView {
                role: "user"@,
                parts: seq![
                    PartView {
                        function_response: Some(
                            AnswerView {
                                name: match called_name(before, call_id) {
                                    Some(name) => name,
                                    None => call_id,
                                },
                                response: payload_json(output),
                            },
                        ),
                        ..empty_part()
                    },
                ],
            },
        ),
        ItemView::CustomToolCallOutput { call_id, output } => Some(
            ContentView {
                role: "user"@,
                parts: seq![text_part("Custom tool "@ + call_id + " result:\n"@ + output)],
            },
        ),
        _ => None,
    }
}

/// One of the parts is a call.
pub open spec fn makes_call(parts: Seq<PartView>) -> bool {
    exists|i: int| 0 <= i < parts.len() && (#[trigger] parts[i]).function_call is Some
}

/// A part that is a call without its signature; any other part as it is.
pub open spec fn without_call_signature(part: PartView) -> PartView {
    if part.function_call is Some {
        PartView { thought_signature: None, ..part }
    } else {
        part
    }
}

/// More parts of a turn, as they stand behind its parts so far: of the calls of a turn only
/// the first carries its signature.
pub open spec fn continued(parts: Seq<PartView>, more: Seq<PartView>) -> Seq<PartView> {
    if makes_call(parts) {
        Seq::new(more.len(), |i: int| without_call_signature(more[i]))
    } else {
        more
    }
}

/// A list of turns and one more: it joins the last one where the same speaker speaks on.
pub open spec fn joined(contents: Seq<ContentView>, entry: ContentView) -> Seq<ContentView> {
    if contents.len() > 0 && contents.last().role == entry.role {
        contents.drop_last().push(
            ContentView {
                role: entry.role,
                parts: contents.last().parts + continued(contents.last().parts, entry.parts),
            },
        )
    } else {
        contents.push(entry)
    }
}

/// The turns that a history becomes.
pub open spec fn contents_of(items: Seq<ItemView>) -> Seq<ContentView>
    decreases items.len(),
{
    if items.len() == 0 {
        Seq::empty()
    } else {
        match entry_of(items.drop_last(), items.last()) {
            Some(entry) => joined(contents_of(items.drop_last()), entry),
            None => contents_of(items.drop_last()),
        }
    }
}

/// The turn that a message becomes.
fn message_entry(role: &String, content: &Vec<ContentItem>, signature: &Option<String>) -> (entry:
    Option<Content>)
    ensures
        entry.deep_view() == (if content@.len() == 0 {
            None
        } else {
            Some(
                ContentView {
                    role: role_of(role@),
                    parts: message_parts(content.deep_view(), signature.deep_view()),
                },
            )
        }),
{
    let ghost views = content.deep_view();
    let ghost wanted = Seq::new(views.len(), |i: int| part_of(views[i]));
    let mut parts: Vec<Part> = Vec::new();
    let total: usize = content.len();
    for i in 0..total
        invariant
            total == content@.len(),
            views == content.deep_view(),
            wanted == Seq::new(views.len(), |i: int| part_of(views[i])),
            parts.deep_view() == wanted.take(i as int),
    {
        let ghost old_parts = parts@;
        let mut more: Vec<Part> = content_item_to_parts(&content[i]);
        let ghost more_parts = more@;
        proof {
            assert(more.deep_view().len() == 1);
            assert(more.deep_view()[0] == more_parts[0].deep_view());
        }
        parts.append(&mut more);
        proof {
            assert(parts@ =~= old_parts + more_parts);
            assert(views[i as int] == content@[i as int].deep_view());
            assert(wanted.take(i + 1) =~= wanted.take(i as int).push(wanted[i as int]));
            assert(parts.deep_view() =~= wanted.take(i + 1)) by {
                assert forall|k: int| 0 <= k < i + 1 implies parts.deep_view()[k] == wanted.take(
                    i + 1,
                )[k] by {
                    if k < i {
                        assert(parts@[k] == old_parts[k]);
                        assert(wanted.take(i as int)[k] == old_parts[k].deep_view());
                    } else {
                        assert(parts@[k] == more_parts[0]);
                    }
                }
            }
        }
    }
    proof {
        assert(wanted.take(total as int) =~= wanted);
    }
    if parts.len() == 0 {
        return None;
    }
    if let Some(sig) = signature {
        let ghost whole = parts@;
        if let Some(mut last) = parts.pop() {
            last.thought_signature = Some(sig.clone());
            parts.push(last);
        }
        proof {
            assert(parts@.drop_last() =~= whole.drop_last());
            assert(parts.deep_view() =~= message_parts(views, signature.deep_view())) by {
                assert forall|k: int| 0 <= k < total implies parts.deep_view()[k]
                    == message_parts(views, signature.deep_view())[k] by {
                    assert(wanted[k] == whole[k].deep_view());
                    if k < total - 1 {
                        assert(parts@[k] == parts@.drop_last()[k]);
                        assert(whole.drop_last()[k] == whole[k]);
                    }
                }
            }
        }
    }
    Some(Content { role: map_role(role.as_str()), parts })
}

/// The name map holds the name of each call that the items before made.
spec fn names_cover(names: Map<Seq<char>, String>, before: Seq<ItemView>) -> bool {
    forall|id: Seq<char>| #[trigger]
        names.contains_key(id) == called_name(before, id) is Some && (names.contains_key(id)
            ==> called_name(before, id) == Some(names[id]@))
}

/// The turn that an item becomes, by the names of the calls before it.
fn item_entry(
    item: &ResponseItem,
    names: &StringHashMap<String>,
    Ghost(before): Ghost<Seq<ItemView>>,
) -> (entry: Option<Content>)
    requires
        names_cover(names@, before),
    ensures
        entry.deep_view() == entry_of(before, item.deep_view()),
{
    match item {
        ResponseItem::Message { role, content, thought_signature, .. } => {
            let entry: Option<Content> = message_entry(role, content, thought_signature);
            proof {
                assert(content.deep_view().len() == content@.len());
            }
            entry
        },
        ResponseItem::FunctionCall { name, arguments, thought_signature, .. } => {
            let args: serde_json::Value = match json_parse(arguments.as_str()) {
                Some(value) => value,
                None => json_string(arguments.clone()),
            };
            let part: Part = Part {
                text: None,
                inline_data: None,
                media_resolution: None,
                function_call: Some(FunctionCall { name: name.clone(), args }),
                function_response: None,
                thought_signature: copy_text(thought_signature),
                thought: None,
            };
            Some(single("model", part))
        },
        ResponseItem::FunctionCallOutput { call_id, output, .. } => {
            proof {
                assert(names@.contains_key(call_id@) == called_name(before, call_id@) is Some);
            }
            let name: String = match names.get(call_id.as_str()) {
                Some(name) => name.clone(),
                None => call_id.clone(),
            };
            let part: Part = Part {
                text: None,
                inline_data: None,
                media_resolution: None,
                function_call: None,
                function_response: Some(
                    FunctionResponse { name, response: build_function_response_payload(output) },
                ),
                thought_signature: None,
                thought: None,
            };
            Some(single("user", part))
        },
        ResponseItem::CustomToolCallOutput { call_id, output } => {
            let mut text: String = "Custom tool ".to_owned();
            text.append(call_id.as_str());
            text.append(" result:\n");
            text.append(output.as_str());
            Some(single("user", new_text_part(text)))
        },
        _ => None,
    }
}

/// A turn with one part.
fn single(role: &str, part: Part) -> (content: Content)
    ensures
        content.deep_view() == (ContentView { role: role@, parts: seq![part.deep_view()] }),
{
    let ghost view = part.deep_view();
    let mut parts: Vec<Part> = Vec::new();
    parts.push(part);
    proof {
        assert(parts.deep_view() =~= seq![view]);
    }
    Content { role: role.to_owned(), parts }
}

/// Is one of the parts a call?
fn has_call(parts: &Vec<Part>) -> (yes: bool)
    ensures
        yes == makes_call(parts.deep_view()),
{
    let ghost views = parts.deep_view();
    let total: usize = parts.len();
    for i in 0..total
        invariant
            total == parts@.len(),
            views == parts.deep_view(),
            forall|k: int| 0 <= k < i ==> (#[trigger] views[k]).function_call is None,
    {
        if parts[i].function_call.is_some() {
            proof {
                assert(views[i as int].function_call is Some);
            }
            return true;
        }
    }
    false
}

/// More parts of a turn, as they stand behind its parts so far.
fn continue_turn(parts: &Vec<Part>, more: Vec<Part>) -> (fitted: Vec<Part>)
    ensures
        fitted.deep_view() == continued(parts.deep_view(), more.deep_view()),
{
    if !has_call(parts) {
        return more;
    }
    let ghost all = more@;
    let ghost views = more.deep_view();
    let mut fitted: Vec<Part> = Vec::new();
    for part in it: more
        invariant
            it.seq() == all,
            views == Seq::new(all.len(), |i: int| all[i].deep_view()),
            fitted@.len() == it.index(),
            forall|k: int|
                0 <= k < it.index() ==> (#[trigger] fitted@[k]).deep_view()
                    == without_call_signature(views[k]),
    {
        let mut part: Part = part;
        if part.function_call.is_some() {
            part.thought_signature = None;
        }
        fitted.push(part);
    }
    proof {
        assert(fitted.deep_view() =~= continued(parts.deep_view(), views));
    }
    fitted
}

/// Add a turn to a list of turns.
fn join(contents: &mut Vec<Content>, entry: Content)
    ensures
        final(contents).deep_view() == joined(old(contents).deep_view(), entry.deep_view()),
{
    let ghost views = contents.deep_view();
    let ghost entry_view = entry.deep_view();
    if contents.len() > 0 && text_eq(
        contents[contents.len() - 1].role.as_str(),
        entry.role.as_str(),
    ) {
        if let Some(mut last) = contents.pop() {
            let ghost old_last = last;
            let mut more: Vec<Part> = continue_turn(&last.parts, entry.parts);
            let ghost fitted = more;
            last.parts.append(&mut more);
            let ghost rest = *contents;
            contents.push(last);
            proof {
                lemma_append_deep_view(old_last.parts, fitted, last.parts);
                lemma_push_deep_view(rest, last, *contents);
                assert(views.last() == old_last.deep_view());
                assert(rest.deep_view() =~= views.drop_last());
            }
        }
    } else {
        proof {
            if contents@.len() > 0 {
                assert(views.last() == contents@.last().deep_view());
            }
        }
        contents.push(entry);
        proof {
            lemma_push_deep_view(*old(contents), entry, *contents);
        }
    }
}

/// Write a conversation's history as the turns that the API takes.
pub fn map_history_to_contents(items: &Vec<ResponseItem>) -> (contents: Vec<Content>)
    ensures
        contents.deep_view() == contents_of(items.deep_view()),
{
    let ghost views = items.deep_view();
    let mut contents: Vec<Content> = Vec::new();
    let mut function_names: StringHashMap<String> = StringHashMap::new();
    let total: usize = items.len();
    proof {
        assert(contents.deep_view() =~= Seq::empty());
    }
    for i in 0..total
        invariant
            total == items@.len(),
            views == items.deep_view(),
            contents.deep_view() == contents_of(views.take(i as int)),
            names_cover(function_names@, views.take(i as int)),
    {
        let ghost before = views.take(i as int);
        proof {
            assert(views.take(i + 1).drop_last() =~= before);
            assert(views.take(i + 1).last() == items@[i as int].deep_view());
        }
        let entry: Option<Content> = item_entry(&items[i], &function_names, Ghost(before));
        if let Some(entry) = entry {
            join(&mut contents, entry);
        }
        if let ResponseItem::FunctionCall { name, call_id, .. } = &items[i] {
            let ghost old_names = function_names@;
            function_names.insert(call_id.clone(), name.clone());
            proof {
                assert forall|id: Seq<char>| #[trigger]
                    function_names@.contains_key(id) == called_name(
                        views.take(i + 1),
                        id,
                    ) is Some && (function_names@.contains_key(id) ==> called_name(
                        views.take(i + 1),
                        id,
                    ) == Some(function_names@[id]@)) by {
                    assert(old_names.contains_key(id) == called_name(before, id) is Some);
                }
            }
        } else {
            proof {
                assert forall|id: Seq<char>| #[trigger]
                    function_names@.contains_key(id) == called_name(
                        views.take(i + 1),
                        id,
                    ) is Some && (function_names@.contains_key(id) ==> called_name(
                        views.take(i + 1),
                        id,
                    ) == Some(function_names@[id]@)) by {
                    assert(called_name(views.take(i + 1), id) == called_name(before, id));
                }
            }
        }
    }
    proof {
        assert(views.take(total as int) =~= views);
    }
    contents
}

/// Who says what, part by part.
pub open spec fn spoken(contents: Seq<ContentView>) -> Seq<(Seq<char>, PartView)>
    decreases contents.len(),
{
    if contents.len() == 0 {
        Seq::empty()
    } else {
        spoken(contents.drop_last()) + spoken_by(contents.last())
    }
}

/// The parts of one turn, each with its speaker.
pub open spec fn spoken_by(content: ContentView) -> Seq<(Seq<char>, PartView)> {
    Seq::new(content.parts.len(), |i: int| (content.role, content.parts[i]))
}

/// Who says what in a history, item by item.
pub open spec fn spoken_items(items: Seq<ItemView>) -> Seq<(Seq<char>, PartView)>
    decreases items.len(),
{
    if items.len() == 0 {
        Seq::empty()
    } else {
        spoken_items(items.drop_last()) + match entry_of(items.drop_last(), items.last()) {
            Some(entry) => spoken_by(entry),
            None => Seq::empty(),
        }
    }
}

/// No two turns that follow each other have the same speaker, and no turn is empty.
pub proof fn law_speakers_take_turns(items: Seq<ItemView>)
    ensures
        forall|i: int, j: int|
            0 <= i && j == i + 1 && j < contents_of(items).len() ==> (#[trigger] contents_of(
                items,
            )[i]).role != (#[trigger] contents_of(items)[j]).role,
        forall|i: int|
            0 <= i < contents_of(items).len() ==> (#[trigger] contents_of(items)[i]).parts.len()
                > 0,
    decreases items.len(),
{
    if items.len() > 0 {
        law_speakers_take_turns(items.drop_last());
        let before = contents_of(items.drop_last());
        let after = contents_of(items);
        assert forall|i: int| 0 <= i < after.len() implies (#[trigger] after[i]).parts.len()
            > 0 by {
            if i < before.len() {
                assert(before[i].parts.len() > 0);
            }
        }
        assert forall|i: int, j: int| 0 <= i && j == i + 1 && j < after.len() implies (
        #[trigger] after[i]).role != (#[trigger] after[j]).role by {
            if j < before.len() {
                assert(before[i].role != before[j].role);
            } else if i < before.len() {
                assert(before[i] == before.last());
            }
        }
    }
}

/// The one who speaks last makes a call in the same breath: among the last parts, all of this
/// speaker, is a call.
pub open spec fn breath_has_call(said: Seq<(Seq<char>, PartView)>, role: Seq<char>) -> bool
    decreases said.len(),
{
    if said.len() == 0 || said.last().0 != role {
        false
    } else {
        said.last().1.function_call is Some || breath_has_call(said.drop_last(), role)
    }
}

/// What is said, with the signature of a call taken off where the same speaker made a call
/// before it and nobody else spoke in between.
pub open spec fn signed_once(said: Seq<(Seq<char>, PartView)>) -> Seq<(Seq<char>, PartView)>
    decreases said.len(),
{
    if said.len() == 0 {
        Seq::empty()
    } else {
        let role = said.last().0;
        signed_once(said.drop_last()).push(
            (
                role,
                if breath_has_call(said.drop_last(), role) {
                    without_call_signature(said.last().1)
                } else {
                    said.last().1
                },
            ),
        )
    }
}

proof fn lemma_signed_once_index(said: Seq<(Seq<char>, PartView)>, k: int)
    requires
        0 <= k < said.len(),
    ensures
        signed_once(said).len() == said.len(),
        signed_once(said)[k] == (
            said[k].0,
            if breath_has_call(said.take(k), said[k].0) {
                without_call_signature(said[k].1)
            } else {
                said[k].1
            },
        ),
        signed_once(said.take(k)) == signed_once(said).take(k),
    decreases said.len(),
{
    let before = said.drop_last();
    lemma_signed_once_len(before);
    if k == said.len() - 1 {
        assert(said.take(k) =~= before);
        assert(signed_once(said).take(k) =~= signed_once(before));
    } else {
        lemma_signed_once_index(before, k);
        assert(before.take(k) =~= said.take(k));
        assert(signed_once(said).take(k) =~= signed_once(before).take(k));
    }
}

proof fn lemma_signed_once_len(said: Seq<(Seq<char>, PartView)>)
    ensures
        signed_once(said).len() == said.len(),
    decreases said.len(),
{
    if said.len() > 0 {
        lemma_signed_once_len(said.drop_last());
    }
}

/// Taking off signatures takes off no calls.
proof fn lemma_signed_once_breath(said: Seq<(Seq<char>, PartView)>, role: Seq<char>)
    ensures
        breath_has_call(signed_once(said), role) == breath_has_call(said, role),
    decreases said.len(),
{
    if said.len() > 0 {
        lemma_signed_once_breath(said.drop_last(), role);
        assert(signed_once(said).drop_last() =~= signed_once(said.drop_last()));
    }
}

/// What is no call is said as it is.
proof fn lemma_signed_once_behind(
    said: Seq<(Seq<char>, PartView)>,
    more: Seq<(Seq<char>, PartView)>,
)
    requires
        forall|i: int| 0 <= i < more.len() ==> (#[trigger] more[i]).1.function_call is None,
    ensures
        signed_once(said + more) == signed_once(said) + more,
    decreases more.len(),
{
    if more.len() == 0 {
        assert(said + more =~= said);
        assert(signed_once(said) + more =~= signed_once(said));
    } else {
        let before = more.drop_last();
        assert forall|i: int| 0 <= i < before.len() implies (
        #[trigger] before[i]).1.function_call is None by {
            assert(before[i] == more[i]);
        }
        lemma_signed_once_behind(said, before);
        assert((said + more).drop_last() =~= said + before);
        assert((said + more).last() == more[more.len() - 1]);
        assert(signed_once(said + more) =~= signed_once(said) + more);
    }
}

proof fn lemma_breath_over(
    said: Seq<(Seq<char>, PartView)>,
    content: ContentView,
    role: Seq<char>,
)
    requires
        content.parts.len() > 0,
    ensures
        breath_has_call(said + spoken_by(content), role) == (content.role == role && (makes_call(
            content.parts,
        ) || breath_has_call(said, role))),
    decreases content.parts.len(),
{
    let all = said + spoken_by(content);
    let parts = content.parts;
    let last = parts[parts.len() - 1];
    assert(all.last() == (content.role, last));
    if content.role == role {
        if last.function_call is Some {
            assert(makes_call(parts));
        } else if parts.len() == 1 {
            assert(all.drop_last() =~= said);
            assert(!makes_call(parts));
        } else {
            let shorter = ContentView { role: content.role, parts: parts.drop_last() };
            lemma_breath_over(said, shorter, role);
            assert(all.drop_last() =~= said + spoken_by(shorter));
            assert(makes_call(parts) == makes_call(shorter.parts)) by {
                if makes_call(parts) {
                    let i = choose|i: int|
                        0 <= i < parts.len() && (#[trigger] parts[i]).function_call is Some;
                    assert(shorter.parts[i] == parts[i]);
                }
                if makes_call(shorter.parts) {
                    let i = choose|i: int|
                        0 <= i < shorter.parts.len() && (
                        #[trigger] shorter.parts[i]).function_call is Some;
                    assert(parts[i] == shorter.parts[i]);
                }
            }
        }
    }
}

/// Turns that take turns, and none of them empty.
pub open spec fn are_turns(contents: Seq<ContentView>) -> bool {
    &&& forall|i: int, j: int|
        0 <= i && j == i + 1 && j < contents.len() ==> (#[trigger] contents[i]).role != (
        #[trigger] contents[j]).role
    &&& forall|i: int| 0 <= i < contents.len() ==> (#[trigger] contents[i]).parts.len() > 0
}

proof fn lemma_breath_of_turns(contents: Seq<ContentView>, role: Seq<char>)
    requires
        are_turns(contents),
    ensures
        breath_has_call(spoken(contents), role) == (contents.len() > 0 && contents.last().role
            == role && makes_call(contents.last().parts)),
    decreases contents.len(),
{
    if contents.len() > 0 {
        let before = contents.drop_last();
        let n = contents.len() - 1;
        assert(are_turns(before)) by {
            assert forall|i: int, j: int| 0 <= i && j == i + 1 && j < before.len() implies (
            #[trigger] before[i]).role != (#[trigger] before[j]).role by {
                assert(before[i] == contents[i] && before[j] == contents[j]);
            }
            assert forall|i: int| 0 <= i < before.len() implies (
            #[trigger] before[i]).parts.len() > 0 by {
                assert(before[i] == contents[i]);
            }
        }
        lemma_breath_of_turns(before, role);
        assert(contents[n].parts.len() > 0);
        lemma_breath_over(spoken(before), contents.last(), role);
        if before.len() > 0 {
            assert(contents[n - 1].role != contents[n].role);
        }
    }
}

/// An entry is a call alone, or it makes no call.
proof fn lemma_entry_calls(before: Seq<ItemView>, item: ItemView)
    ensures
        entry_of(before, item) matches Some(entry) ==> (entry.parts.len() == 1 || !makes_call(
            entry.parts,
        )),
{
    if let Some(entry) = entry_of(before, item) {
        if item is Message && makes_call(entry.parts) {
            let i = choose|i: int|
                0 <= i < entry.parts.len() && (#[trigger] entry.parts[i]).function_call is Some;
            assert(false);
        }
    }
}

/// Nothing is lost, added or moved: the turns say, part by part, what the items say, up to
/// the signatures of calls that are not the first of their turn.
pub proof fn law_contents_say_what_items_say(items: Seq<ItemView>)
    ensures
        spoken(contents_of(items)) == signed_once(spoken_items(items)),
    decreases items.len(),
{
    if items.len() > 0 {
        let before = items.drop_last();
        law_contents_say_what_items_say(before);
        law_speakers_take_turns(before);
        lemma_entry_calls(before, items.last());
        let contents = contents_of(before);
        let said = spoken_items(before);
        match entry_of(before, items.last()) {
            Some(entry) => {
                let all = joined(contents, entry);
                let same = contents.len() > 0 && contents.last().role == entry.role;
                let fitted = ContentView {
                    role: entry.role,
                    parts: if same {
                        continued(contents.last().parts, entry.parts)
                    } else {
                        entry.parts
                    },
                };
                assert(spoken(all) =~= spoken(contents) + spoken_by(fitted)) by {
                    if same {
                        assert(all.drop_last() =~= contents.drop_last());
                        assert(spoken_by(all.last()) =~= spoken_by(contents.last()) + spoken_by(
                            fitted,
                        ));
                    } else {
                        assert(all.drop_last() =~= contents);
                    }
                }
                if !makes_call(entry.parts) {
                    assert(fitted.parts =~= entry.parts) by {
                        assert forall|i: int| 0 <= i < entry.parts.len() implies fitted.parts[i]
                            == entry.parts[i] by {
                            assert(entry.parts[i].function_call is None);
                        }
                    }
                    lemma_signed_once_behind(said, spoken_by(entry));
                } else {
                    let whole = said + spoken_by(entry);
                    assert(whole.drop_last() =~= said);
                    assert(whole.last() == (entry.role, entry.parts[0]));
                    lemma_signed_once_breath(said, entry.role);
                    lemma_breath_of_turns(contents, entry.role);
                    assert(spoken_by(fitted) =~= seq![(entry.role, fitted.parts[0])]);
                    assert(spoken(all) =~= signed_once(whole));
                }
            },
            None => {
                assert(spoken_items(items) =~= said);
            },
        }
    }
}

/// Of the calls of a turn only the first may carry a signature.
pub proof fn law_only_the_first_call_is_signed(items: Seq<ItemView>, t: int, i: int, j: int)
    requires
        0 <= t < contents_of(items).len(),
        0 <= i < j < contents_of(items)[t].parts.len(),
        contents_of(items)[t].parts[i].function_call is Some,
        contents_of(items)[t].parts[j].function_call is Some,
    ensures
        contents_of(items)[t].parts[j].thought_signature is None,
    decreases items.len(),
{
    let before = items.drop_last();
    let contents = contents_of(before);
    lemma_entry_calls(before, items.last());
    match entry_of(before, items.last()) {
        Some(entry) => {
            let same = contents.len() > 0 && contents.last().role == entry.role;
            if same && t == contents.len() - 1 {
                let parts = contents.last().parts;
                let all = contents_of(items)[t].parts;
                assert(all == parts + continued(parts, entry.parts));
                if j < parts.len() {
                    assert(all[i] == parts[i] && all[j] == parts[j]);
                    law_only_the_first_call_is_signed(before, t, i, j);
                } else if i < parts.len() {
                    assert(all[i] == parts[i]);
                    assert(makes_call(parts));
                } else {
                    if makes_call(parts) {
                    } else {
                        assert(all[i] == entry.parts[i - parts.len()]);
                        assert(makes_call(entry.parts));
                    }
                }
            } else if t < contents.len() {
                law_only_the_first_call_is_signed(before, t, i, j);
            } else {
                assert(makes_call(entry.parts));
            }
        },
        None => {
            law_only_the_first_call_is_signed(before, t, i, j);
        },
    }
}

/// The first call of a turn is said as the item says it, with its own signature.
pub proof fn law_the_first_call_keeps_its_signature(items: Seq<ItemView>, t: int, i: int)
    requires
        0 <= t < contents_of(items).len(),
        0 <= i < contents_of(items)[t].parts.len(),
        contents_of(items)[t].parts[i].function_call is Some,
        forall|k: int|
            0 <= k < i ==> (#[trigger] contents_of(items)[t].parts[k]).function_call is None,
    ensures
        spoken_items(items).len() > spoken(contents_of(items).take(t)).len() + i,
        spoken_items(items)[spoken(contents_of(items).take(t)).len() + i] == (
            contents_of(items)[t].role,
            contents_of(items)[t].parts[i],
        ),
{
    let contents = contents_of(items);
    let said = spoken_items(items);
    let before = contents.take(t);
    let k = spoken(before).len() + i;
    let turn = contents[t];
    law_contents_say_what_items_say(items);
    law_speakers_take_turns(items);
    lemma_spoken_position(contents, t, i);
    lemma_signed_once_len(said);
    lemma_signed_once_index(said, k);
    lemma_signed_once_breath(said.take(k), turn.role);
    assert(signed_once(said.take(k)) == spoken(contents).take(k));
    assert(are_turns(before)) by {
        assert forall|a: int, b: int| 0 <= a && b == a + 1 && b < before.len() implies (
        #[trigger] before[a]).role != (#[trigger] before[b]).role by {
            assert(before[a] == contents[a] && before[b] == contents[b]);
        }
        assert forall|a: int| 0 <= a < before.len() implies (
        #[trigger] before[a]).parts.len() > 0 by {
            assert(before[a] == contents[a]);
        }
    }
    lemma_breath_of_turns(before, turn.role);
    if t > 0 {
        assert(contents[t - 1].role != contents[t].role);
    }
    let head = ContentView { role: turn.role, parts: turn.parts.take(i) };
    if i > 0 {
        lemma_breath_over(spoken(before), head, turn.role);
        assert(!makes_call(head.parts)) by {
            assert forall|a: int| 0 <= a < head.parts.len() implies (
            #[trigger] head.parts[a]).function_call is None by {
                assert(head.parts[a] == turn.parts[a]);
            }
        }
    } else {
        assert(spoken(before) + spoken_by(head) =~= spoken(before));
    }
    assert(!breath_has_call(said.take(k), turn.role));
}

proof fn lemma_spoken_position(contents: Seq<ContentView>, t: int, i: int)
    requires
        0 <= t < contents.len(),
        0 <= i < contents[t].parts.len(),
    ensures
        spoken(contents).len() > spoken(contents.take(t)).len() + i,
        spoken(contents)[spoken(contents.take(t)).len() + i] == (
            contents[t].role,
            contents[t].parts[i],
        ),
        spoken(contents).take(spoken(contents.take(t)).len() + i) == spoken(contents.take(t))
            + spoken_by(ContentView { role: contents[t].role, parts: contents[t].parts.take(i) }),
    decreases contents.len(),
{
    let before = contents.drop_last();
    let head = spoken_by(ContentView { role: contents[t].role, parts: contents[t].parts.take(i) });
    if t == contents.len() - 1 {
        assert(contents.take(t) =~= before);
        assert(spoken(contents).take(spoken(before).len() + i) =~= spoken(before) + head);
    } else {
        lemma_spoken_position(before, t, i);
        assert(before.take(t) =~= contents.take(t));
        assert(before[t] == contents[t]);
        let k = spoken(contents.take(t)).len() + i;
        assert(spoken(contents).take(k) =~= spoken(before).take(k));
    }
}

/// The answer to a call never carries a thought signature.
pub proof fn law_answers_carry_no_signature(items: Seq<ItemView>, k: int)
    requires
        0 <= k < spoken(contents_of(items)).len(),
        spoken(contents_of(items))[k].1.function_response is Some,
    ensures
        spoken(contents_of(items))[k].1.thought_signature is None,
{
    law_contents_say_what_items_say(items);
    lemma_signed_once_len(spoken_items(items));
    lemma_signed_once_index(spoken_items(items), k);
    lemma_answers_in_items(items, k);
}

proof fn lemma_answers_in_items(items: Seq<ItemView>, k: int)
    requires
        0 <= k < spoken_items(items).len(),
    ensures
        spoken_items(items)[k].1.function_response is Some ==> spoken_items(
            items,
        )[k].1.thought_signature is None,
    decreases items.len(),
{
    let before = items.drop_last();
    if k < spoken_items(before).len() {
        assert(spoken_items(items)[k] == spoken_items(before)[k]);
        lemma_answers_in_items(before, k);
    }
}

/// What a tool gave is sent without a thought signature, whatever came with it.
pub proof fn law_tool_outputs_carry_no_signature(before: Seq<ItemView>, item: ItemView)
    requires
        item is FunctionCallOutput || item is CustomToolCallOutput,
    ensures
        entry_of(before, item) matches Some(entry) && entry.role == "user"@ && entry.parts.len()
            == 1 && entry.parts[0].thought_signature is None,
{
}

/// An output that follows its call is answered under the name of the function called.
pub proof fn law_output_is_named_by_its_call(
    items: Seq<ItemView>,
    call: ItemView,
    between: Seq<ItemView>,
    output: ItemView,
)
    requires
        call is FunctionCall,
        output is FunctionCallOutput,
        call->FunctionCall_call_id == output->FunctionCallOutput_call_id,
        forall|i: int|
            0 <= i < between.len() && (#[trigger] between[i]) is FunctionCall
                ==> between[i]->FunctionCall_call_id != call->FunctionCall_call_id,
    ensures
        entry_of(items.push(call) + between, output) == Some(
            ContentView {
                role: "user"@,
                parts: seq![
                    PartView {
                        function_response: Some(
                            AnswerView {
                                name: call->FunctionCall_name,
                                response: payload_json(output->FunctionCallOutput_output),
                            },
                        ),
                        ..empty_part()
                    },
                ],
            },
        ),
{
    lemma_called_name_behind(items.push(call), between, call->FunctionCall_call_id);
}

/// Calls with other ids change nothing about the name under which an id is known.
pub proof fn lemma_called_name_behind(before: Seq<ItemView>, between: Seq<ItemView>, id: Seq<char>)
    requires
        forall|i: int|
            0 <= i < between.len() && (#[trigger] between[i]) is FunctionCall
                ==> between[i]->FunctionCall_call_id != id,
    ensures
        called_name(before + between, id) == called_name(before, id),
    decreases between.len(),
{
    if between.len() == 0 {
        assert(before + between =~= before);
    } else {
        assert((before + between).drop_last() =~= before + between.drop_last());
        assert((before + between).last() == between[between.len() - 1]);
        lemma_called_name_behind(before, between.drop_last(), id);
    }
}

/// How much the model is to think, in the words of the API.
pub open spec fn thinking_level_of(effort: ReasoningEffort) -> Option<Seq<char>> {
    match effort {
        ReasoningEffort::Off => None,
        ReasoningEffort::Minimal | ReasoningEffort::Low => Some("LOW"@),
        ReasoningEffort::Medium | ReasoningEffort::High | ReasoningEffort::XHigh => Some("HIGH"@),
    }
}

/// Say how much the model is to think.
pub fn reasoning_effort_to_thinking_level(effort: ReasoningEffort) -> (level: Option<String>)
    ensures
        level.deep_view() == thinking_level_of(effort),
{
    match effort {
        ReasoningEffort::Off => None,
        ReasoningEffort::Minimal | ReasoningEffort::Low => Some("LOW".to_owned()),
        ReasoningEffort::Medium | ReasoningEffort::High | ReasoningEffort::XHigh => Some(
            "HIGH".to_owned(),
        ),
    }
}

/// The thinking level of an optional effort.
pub open spec fn wanted_level(effort: Option<ReasoningEffort>) -> Option<Seq<char>> {
    match effort {
        Some(e) => thinking_level_of(e),
        None => None,
    }
}

/// The settings of a request: none where neither thinking nor a schema is asked for.
pub open spec fn generation_config_of(
    effort: Option<ReasoningEffort>,
    schema: Option<JsonModel>,
) -> Option<GenerationConfigView> {
    if wanted_level(effort) is None && schema is None {
        None
    } else {
        Some(
            GenerationConfigView {
                max_output_tokens: None,
                temperature: None,
                top_p: None,
                top_k: None,
                thinking_config: match wanted_level(effort) {
                    Some(level) => Some(
                        ThinkingView {
                            thinking_level: Some(level),
                            thinking_budget: None,
                            include_thoughts: None,
                        },
                    ),
                    None => None,
                },
                response_mime_type: if schema is Some {
                    Some("application/json"@)
                } else {
                    None
                },
                response_json_schema: schema,
                image_config: None,
            },
        )
    }
}

/// The settings of a request, by the effort and the schema that are asked for.
pub fn build_generation_config(
    reasoning_effort: Option<ReasoningEffort>,
    output_schema: &Option<serde_json::Value>,
) -> (config: Option<GenerationConfig>)
    ensures
        config.deep_view() == generation_config_of(reasoning_effort, json_option(*output_schema)),
{
    let thinking_level: Option<String> = match reasoning_effort {
        Some(effort) => reasoning_effort_to_thinking_level(effort),
        None => None,
    };
    let thinking_config: Option<ThinkingConfig> = match thinking_level {
        Some(level) => Some(
            ThinkingConfig {
                thinking_level: Some(level),
                thinking_budget: None,
                include_thoughts: None,
            },
        ),
        None => None,
    };
    let (response_mime_type, response_json_schema): (Option<String>, Option<serde_json::Value>) =
        match output_schema {
        Some(schema) => (Some("application/json".to_owned()), Some(schema.clone())),
        None => (None, None),
    };
    if thinking_config.is_none() && response_mime_type.is_none() && response_json_schema.is_none() {
        return None;
    }
    Some(
        GenerationConfig {
            max_output_tokens: None,
            temperature: None,
            top_p: None,
            top_k: None,
            thinking_config,
            response_mime_type,
            response_json_schema,
            image_config: None,
        },
    )
}

/// The tools of a list that could be read.
pub open spec fn readable_tools(tools: Seq<Option<Tool>>) -> Seq<Tool>
    decreases tools.len(),
{
    if tools.len() == 0 {
        Seq::empty()
    } else {
        match tools.last() {
            Some(tool) => readable_tools(tools.drop_last()).push(tool),
            None => readable_tools(tools.drop_last()),
        }
    }
}

/// Keep the tools that could be read, in their order; no list at all where there are none.
pub fn build_tool_declarations(tools: Vec<Option<Tool>>) -> (declared: Option<Vec<Tool>>)
    ensures
        declared is None == (readable_tools(tools@).len() == 0),
        declared matches Some(list) ==> list@ == readable_tools(tools@),
{
    let ghost all = tools@;
    let mut converted: Vec<Tool> = Vec::new();
    for tool in it: tools
        invariant
            it.seq() == all,
            converted@ == readable_tools(all.take(it.index() as int)),
    {
        proof {
            let i = it.index() as int;
            assert(all.take(i + 1).drop_last() =~= all.take(i));
        }
        if let Some(tool) = tool {
            converted.push(tool);
        }
    }
    proof {
        assert(all.take(all.len() as int) =~= all);
    }
    if converted.len() == 0 {
        None
    } else {
        Some(converted)
    }
}

/// The turn that holds the instructions, where they say anything.
pub open spec fn system_instruction_of(instructions: Seq<char>) -> Option<ContentView> {
    if trimmed(instructions).len() == 0 {
        None
    } else {
        Some(ContentView { role: "user"@, parts: seq![text_part(instructions)] })
    }
}

/// The request for a prompt: the history, the tools, the settings and the instructions. The
/// tools come as they were read, none for one that could not be read.
pub fn build_gemini_request(
    prompt: &Prompt,
    tools: Vec<Option<Tool>>,
    reasoning_effort: Option<ReasoningEffort>,
) -> (request: GenerateContentRequest)
    ensures
        request.contents.deep_view() == contents_of(prompt.input.deep_view()),
        request.tools is None == (readable_tools(tools@).len() == 0),
        request.tools matches Some(list) ==> list@ == readable_tools(tools@),
        request.tool_config is None,
        request.cached_content is None,
        request.generation_config.deep_view() == generation_config_of(
            reasoning_effort,
            json_option(prompt.output_schema),
        ),
        request.system_instruction.deep_view() == system_instruction_of(prompt.instructions@),
{
    let contents: Vec<Content> = map_history_to_contents(&prompt.input);
    let tools: Option<Vec<Tool>> = build_tool_declarations(tools);
    let generation_config: Option<GenerationConfig> = build_generation_config(
        reasoning_effort,
        &prompt.output_schema,
    );
    let system_instruction: Option<Content> = if trim(
        prompt.instructions.as_str(),
    ).unicode_len() == 0 {
        None
    } else {
        Some(single("user", new_text_part(prompt.instructions.clone())))
    };
    GenerateContentRequest {
        contents,
        tools,
        tool_config: None,
        cached_content: None,
        generation_config,
        system_instruction,
    }
}

/// What is sent to the provider: the request, and whether a stream of events is accepted.
pub struct GeminiCall {
    pub request: GenerateContentRequest,
    pub accept_event_stream: bool,
}

/// Prepare one turn: build the request, and ask for a stream of events where the provider
/// wants one.
pub fn stream_gemini(
    prompt: &Prompt,
    tools: Vec<Option<Tool>>,
    reasoning_effort: Option<ReasoningEffort>,
    provider: &ModelProviderInfo,
) -> (call: GeminiCall)
    ensures
        call.request.contents.deep_view() == contents_of(prompt.input.deep_view()),
        call.request.tools is None == (readable_tools(tools@).len() == 0),
        call.request.tools matches Some(list) ==> list@ == readable_tools(tools@),
        call.request.tool_config is None,
        call.request.cached_content is None,
        call.request.generation_config.deep_view() == generation_config_of(
            reasoning_effort,
            json_option(prompt.output_schema),
        ),
        call.request.system_instruction.deep_view() == system_instruction_of(prompt.instructions@),
        call.accept_event_stream == requests_sse(*provider),
{
    GeminiCall {
        request: build_gemini_request(prompt, tools, reasoning_effort),
        accept_event_stream: provider_requests_sse(provider),
    }
}

/// How the answer to a request is to be read.
pub enum AnswerMode {
    /// The status is no success: the body says why.
    Failed { request_id: Option<String> },
    /// The body is a stream of events.
    EventStream,
    /// The body is one JSON value.
    Json,
}

/// A status from 200 up to 299.
pub open spec fn is_success(status: u16) -> bool {
    200 <= status && status <= 299
}

/// How the answer to a request is to be read, without the request id.
#[derive(Debug, Clone, Copy, PartialEq, Eq, Structural)]
pub enum AnswerKind {
    Failed,
    EventStream,
    Json,
}

impl AnswerMode {
    /// The mode without the request id.
    pub open spec fn kind(self) -> AnswerKind {
        match self {
            AnswerMode::Failed { .. } => AnswerKind::Failed,
            AnswerMode::EventStream => AnswerKind::EventStream,
            AnswerMode::Json => AnswerKind::Json,
        }
    }
}

/// How an answer is to be read, by its status, what it announces and what was asked for.
pub open spec fn answer_kind(status: u16, announced: bool, requested: bool) -> AnswerKind {
    if !is_success(status) {
        AnswerKind::Failed
    } else if announced || requested {
        AnswerKind::EventStream
    } else {
        AnswerKind::Json
    }
}

/// The error for an answer with a status that is no success.
pub open spec fn status_error(
    status: u16,
    body: Option<Seq<char>>,
    request_id: Option<Seq<char>>,
) -> ErrView {
    ErrView::UnexpectedStatus {
        status,
        body: match body {
            Some(text) => text,
            None => "failed to read response body"@,
        },
        request_id,
    }
}

/// Decide how the answer to a request is to be read: by its status, its headers and what
/// was asked of the provider.
pub fn answer_mode(
    provider: &ModelProviderInfo,
    status: u16,
    headers: &http::HeaderMap<http::HeaderValue>,
) -> (mode: AnswerMode)
    ensures
        (match mode {
            AnswerMode::Failed { request_id } => !is_success(status) && request_id.deep_view()
                == request_id_of(*headers),
            AnswerMode::EventStream => is_success(status) && (announces_event_stream(*headers)
                || requests_sse(*provider)),
            AnswerMode::Json => is_success(status) && !announces_event_stream(*headers)
                && !requests_sse(*provider),
        }),
        mode.kind() == answer_kind(
            status,
            announces_event_stream(*headers),
            requests_sse(*provider),
        ),
{
    let request_id: Option<String> = extract_request_id(headers);
    if status < 200 || status > 299 {
        return AnswerMode::Failed { request_id };
    }
    if is_event_stream(headers) || provider_requests_sse(provider) {
        AnswerMode::EventStream
    } else {
        AnswerMode::Json
    }
}

/// The error for an answer with a status that is no success, by its body where that could
/// be read.
pub fn unexpected_status(
    status: u16,
    body: Option<String>,
    request_id: Option<String>,
) -> (error: CodexErr)
    ensures
        error.deep_view() == (ErrView::UnexpectedStatus {
            status,
            body: match body {
                Some(text) => text@,
                None => "failed to read response body"@,
            },
            request_id: request_id.deep_view(),
        }),
        error.deep_view() == status_error(status, body.deep_view(), request_id.deep_view()),
{
    let body: String = match body {
        Some(text) => text,
        None => "failed to read response body".to_owned(),
    };
    CodexErr::UnexpectedStatus(UnexpectedResponseError { status, body, request_id })
}

} // verus!
