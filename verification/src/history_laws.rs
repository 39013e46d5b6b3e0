//! What becomes of a conversation's history: each item is sent to the model as it is, behind
//! what was said before it.
use crate::gemini::{
    called_name, contents_of, continued, entry_of, image_blob, joined, lemma_called_name_behind,
    makes_call, message_parts, output_item_json, part_of, payload_json,
};
use crate::gemini_models::{BlobView, ContentView, PartView};
use crate::json::{json_parsed, JsonModel};
use crate::protocol::{ContentItemView, ItemView, OutputItemView, OutputPayloadView};
use crate::text::{has_substring, law_split_at_first, occurs_at};
use crate::text_laws::{law_prefix, law_split};
use vstd::prelude::*;

verus! {

/// The speaker says so many parts more: what was said before stands as it was, and the new
/// parts are the last ones of the last turn.
pub open spec fn says_more(
    before: Seq<ContentView>,
    after: Seq<ContentView>,
    role: Seq<char>,
    more: nat,
) -> bool {
    &&& after.len() > 0
    &&& after.last().role == role
    &&& if before.len() > 0 && before.last().role == role {
        &&& after.drop_last() == before.drop_last()
        &&& after.len() == before.len()
        &&& after.last().parts.len() == before.last().parts.len() + more
        &&& after.last().parts.take(before.last().parts.len() as int) == before.last().parts
    } else {
        &&& after.drop_last() == before
        &&& after.last().parts.len() == more
    }
}

/// One of the new parts.
pub open spec fn new_part(after: Seq<ContentView>, more: nat, k: int) -> PartView {
    after.last().parts[after.last().parts.len() - more + k]
}

/// The URL holds these bytes in base64, with their media type.
pub open spec fn is_data_url(url: Seq<char>, blob: BlobView) -> bool {
    &&& url == "data:"@ + (blob.mime_type + ";base64,"@ + blob.data)
    &&& forall|at: int|
        0 <= at < blob.mime_type.len() ==> !#[trigger] occurs_at(
            blob.mime_type + ";base64,"@ + blob.data,
            ";base64,"@,
            at,
        )
}

/// The part holds no call, no answer, and nothing else beside its words or its image.
pub open spec fn is_plain_part(part: PartView) -> bool {
    &&& part.function_call is None
    &&& part.function_response is None
    &&& part.media_resolution is None
    &&& part.thought is None
}

/// The part is this piece of a message: its text as it is, its image, or the address of an
/// image that is not in the URL itself.
pub open spec fn is_piece(part: PartView, piece: ContentItemView) -> bool {
    &&& is_plain_part(part)
    &&& match piece {
        ContentItemView::InputText { text } => part.text == Some(text) && part.inline_data is None,
        ContentItemView::OutputText { text } => part.text == Some(text) && part.inline_data is None,
        ContentItemView::InputImage { image_url } => match part.inline_data {
            Some(blob) => part.text is None && is_data_url(image_url, blob),
            None => {
                &&& part.text == Some("Image: "@ + image_url)
                &&& forall|blob: BlobView| !#[trigger] is_data_url(image_url, blob)
            },
        },
    }
}

/// A URL that holds bytes is read, and what is read is what it holds.
pub proof fn law_data_url_is_read(url: Seq<char>, blob: BlobView)
    ensures
        is_data_url(url, blob) == (image_blob(url) == Some(blob)),
{
    reveal_strlit(";base64,");
    let inside = blob.mime_type + ";base64,"@ + blob.data;
    if is_data_url(url, blob) {
        law_prefix(url, "data:"@, inside);
        assert(url.skip("data:"@.len() as int) =~= inside);
        law_split(blob.mime_type, ";base64,"@, blob.data);
    }
    if image_blob(url) == Some(blob) {
        let rest = url.skip("data:"@.len() as int);
        law_prefix(url, "data:"@, Seq::empty());
        assert(has_substring(rest, ";base64,"@));
        law_split_at_first(rest, ";base64,"@);
        assert(rest == inside);
        assert forall|at: int| 0 <= at < blob.mime_type.len() implies !#[trigger] occurs_at(
            inside,
            ";base64,"@,
            at,
        ) by {
            crate::text_laws::lemma_split_is_first(rest, ";base64,"@);
        }
    }
}

proof fn lemma_piece(piece: ContentItemView)
    ensures
        is_piece(part_of(piece), piece),
        part_of(piece).thought_signature is None,
{
    if let ContentItemView::InputImage { image_url } = piece {
        if let Some(blob) = image_blob(image_url) {
            law_data_url_is_read(image_url, blob);
        }
        assert forall|blob: BlobView| image_blob(image_url) is None implies !#[trigger] is_data_url(
            image_url,
            blob,
        ) by {
            law_data_url_is_read(image_url, blob);
        }
    }
}

proof fn lemma_joined(before: Seq<ContentView>, entry: ContentView)
    ensures
        says_more(before, joined(before, entry), entry.role, entry.parts.len()),
        forall|k: int|
            0 <= k < entry.parts.len() ==> #[trigger] new_part(
                joined(before, entry),
                entry.parts.len(),
                k,
            ) == (if before.len() > 0 && before.last().role == entry.role {
                continued(before.last().parts, entry.parts)[k]
            } else {
                entry.parts[k]
            }),
{
    let after = joined(before, entry);
    if before.len() > 0 && before.last().role == entry.role {
        assert(after.drop_last() =~= before.drop_last());
        assert(after.last().parts.take(before.last().parts.len() as int)
            =~= before.last().parts);
    } else {
        assert(after.drop_last() =~= before);
    }
}

/// A message is said by its speaker, piece by piece: each text goes out character by
/// character as it is, and the last piece carries the signature of the message.
pub proof fn law_message_is_said(
    items: Seq<ItemView>,
    id: Option<Seq<char>>,
    role: Seq<char>,
    content: Seq<ContentItemView>,
    thought_signature: Option<Seq<char>>,
)
    requires
        content.len() > 0,
    ensures
        ({
            let item = ItemView::Message { id, role, content, thought_signature };
            let after = contents_of(items.push(item));
            let speaker = if role == "assistant"@ {
                "model"@
            } else {
                role
            };
            &&& says_more(contents_of(items), after, speaker, content.len())
            &&& forall|k: int|
                0 <= k < content.len() ==> is_piece(
                    #[trigger] new_part(after, content.len(), k),
                    content[k],
                ) && new_part(after, content.len(), k).thought_signature == (if k
                    == content.len() - 1 {
                    thought_signature
                } else {
                    None
                })
        }),
{
    let item = ItemView::Message { id, role, content, thought_signature };
    let before = contents_of(items);
    let entry = entry_of(items, item)->0;
    let after = contents_of(items.push(item));
    assert(items.push(item).drop_last() =~= items);
    assert(after == joined(before, entry));
    lemma_joined(before, entry);
    let parts = message_parts(content, thought_signature);
    assert(entry.parts == parts);
    assert forall|k: int| 0 <= k < content.len() implies is_piece(
        #[trigger] new_part(after, content.len(), k),
        content[k],
    ) && new_part(after, content.len(), k).thought_signature == (if k == content.len() - 1 {
        thought_signature
    } else {
        None
    }) by {
        lemma_piece(content[k]);
        assert(is_piece(parts[k], content[k]));
        assert(new_part(after, content.len(), k) == parts[k]);
    }
}

/// What says nothing to the model changes nothing: an empty message, a thought, and what is
/// neither a message nor a call nor its outcome.
pub proof fn law_the_rest_is_not_said(items: Seq<ItemView>, item: ItemView)
    requires
        item matches ItemView::Message { content, .. } ==> content.len() == 0,
        item !is FunctionCall,
        item !is FunctionCallOutput,
        item !is CustomToolCallOutput,
    ensures
        contents_of(items.push(item)) == contents_of(items),
        contents_of(Seq::empty()).len() == 0,
{
    assert(items.push(item).drop_last() =~= items);
}

/// A call is said by the model, under its name and with its arguments; it keeps its signature
/// unless its turn made a call before.
pub proof fn law_call_is_said(
    items: Seq<ItemView>,
    id: Option<Seq<char>>,
    name: Seq<char>,
    arguments: Seq<char>,
    call_id: Seq<char>,
    thought_signature: Option<Seq<char>>,
)
    ensures
        ({
            let item = ItemView::FunctionCall { id, name, arguments, call_id, thought_signature };
            let before = contents_of(items);
            let after = contents_of(items.push(item));
            let part = new_part(after, 1, 0);
            &&& says_more(before, after, "model"@, 1)
            &&& part.function_call matches Some(call) && call.name == name && call.args == (
            match json_parsed(arguments) {
                Some(tree) => tree,
                None => JsonModel::Text(arguments),
            })
            &&& part.text is None
            &&& part.inline_data is None
            &&& part.media_resolution is None
            &&& part.function_response is None
            &&& part.thought is None
            &&& part.thought_signature == (if before.len() > 0 && before.last().role == "model"@
                && exists|i: int|
                0 <= i < before.last().parts.len() && (#[trigger] before.last().parts[i])
                    .function_call is Some {
                None
            } else {
                thought_signature
            })
        }),
{
    let item = ItemView::FunctionCall { id, name, arguments, call_id, thought_signature };
    let before = contents_of(items);
    let entry = entry_of(items, item)->0;
    assert(items.push(item).drop_last() =~= items);
    lemma_joined(before, entry);
    let part = new_part(joined(before, entry), 1, 0);
    if before.len() > 0 && before.last().role == "model"@ {
        assert(makes_call(before.last().parts) == exists|i: int|
            0 <= i < before.last().parts.len() && (#[trigger] before.last().parts[i])
                .function_call is Some);
    }
}

/// The tree is an object with this one member.
pub open spec fn is_object_of(tree: JsonModel, key: Seq<char>, value: JsonModel) -> bool {
    tree matches JsonModel::Object(members) && members.contains_key(key) && members[key] == value
        && forall|other: Seq<char>| #[trigger] members.contains_key(other) ==> other == key
}

/// The tree stands for this piece of a tool's output.
pub open spec fn is_output_piece(tree: JsonModel, piece: OutputItemView) -> bool {
    match piece {
        OutputItemView::InputText { text } => is_object_of(tree, "text"@, JsonModel::Text(text)),
        OutputItemView::InputImage { image_url } => {
            ||| exists|blob: BlobView, inside: JsonModel| #[trigger]
                is_data_url(image_url, blob) && #[trigger] is_object_of(
                    tree,
                    "inlineData"@,
                    inside,
                ) && is_blob(inside, blob)
            ||| is_object_of(tree, "text"@, JsonModel::Text(image_url)) && forall|blob: BlobView|
                !#[trigger] is_data_url(image_url, blob)
        },
    }
}

/// The tree is an object that holds bytes with their media type, and nothing else.
pub open spec fn is_blob(tree: JsonModel, blob: BlobView) -> bool {
    tree matches JsonModel::Object(members) && members.contains_key("mimeType"@)
        && members["mimeType"@] == JsonModel::Text(blob.mime_type) && members.contains_key(
        "data"@,
    ) && members["data"@] == JsonModel::Text(blob.data) && forall|other: Seq<char>| #[trigger]
        members.contains_key(other) ==> other == "mimeType"@ || other == "data"@
}

/// The tree says what a tool gave: piece by piece where it has pieces, and else its text.
pub open spec fn is_tool_answer(tree: JsonModel, output: OutputPayloadView) -> bool {
    exists|list: Seq<JsonModel>| #[trigger]
        is_object_of(tree, "content"@, JsonModel::Array(list)) && match output.content_items {
            Some(pieces) => list.len() == pieces.len() && forall|i: int|
                0 <= i < pieces.len() ==> is_output_piece(#[trigger] list[i], pieces[i]),
            None => list.len() == 1 && is_object_of(
                list[0],
                "text"@,
                JsonModel::Text(output.content),
            ),
        }
}

proof fn lemma_output_piece(piece: OutputItemView)
    ensures
        is_output_piece(output_item_json(piece), piece),
{
    let tree = output_item_json(piece);
    if let OutputItemView::InputImage { image_url } = piece {
        match image_blob(image_url) {
            Some(blob) => {
                law_data_url_is_read(image_url, blob);
                reveal_strlit("mimeType");
                reveal_strlit("data");
                assert("mimeType"@.len() != "data"@.len());
                let inside = crate::json::object_2(
                    "mimeType"@,
                    JsonModel::Text(blob.mime_type),
                    "data"@,
                    JsonModel::Text(blob.data),
                );
                assert(is_blob(inside, blob));
                assert(is_object_of(tree, "inlineData"@, inside));
            },
            None => {
                assert forall|blob: BlobView| !#[trigger] is_data_url(image_url, blob) by {
                    law_data_url_is_read(image_url, blob);
                }
            },
        }
    }
}

/// All that a tool gave is said, in order.
pub proof fn law_tool_answer_says_it_all(output: OutputPayloadView)
    ensures
        is_tool_answer(payload_json(output), output),
{
    let tree = payload_json(output);
    let list = tree->Object_0["content"@]->Array_0;
    assert(is_object_of(tree, "content"@, JsonModel::Array(list)));
    if let Some(pieces) = output.content_items {
        assert forall|i: int| 0 <= i < pieces.len() implies is_output_piece(
            #[trigger] list[i],
            pieces[i],
        ) by {
            lemma_output_piece(pieces[i]);
        }
    }
}

/// The item makes a call with this id.
pub open spec fn makes_call_with(item: ItemView, call_id: Seq<char>) -> bool {
    item matches ItemView::FunctionCall { call_id: id, .. } && id == call_id
}

/// What a tool gave is said by the user, without a signature: all of it, under the name of the
/// latest call with its id, or under the id where there was no such call.
pub proof fn law_output_is_said(
    items: Seq<ItemView>,
    call_id: Seq<char>,
    output: OutputPayloadView,
    thought_signature: Option<Seq<char>>,
)
    ensures
        ({
            let item = ItemView::FunctionCallOutput { call_id, output, thought_signature };
            let after = contents_of(items.push(item));
            let part = new_part(after, 1, 0);
            &&& says_more(contents_of(items), after, "user"@, 1)
            &&& part.function_response matches Some(answer) && is_tool_answer(
                answer.response,
                output,
            )
            &&& forall|i: int|
                0 <= i < items.len() && makes_call_with(#[trigger] items[i], call_id) && (
                forall|j: int| i < j < items.len() ==> !makes_call_with(#[trigger] items[j], call_id))
                    ==> part.function_response->0.name == items[i]->FunctionCall_name
            &&& (forall|i: int|
                0 <= i < items.len() ==> !makes_call_with(#[trigger] items[i], call_id))
                ==> part.function_response->0.name == call_id
            &&& part.thought_signature is None
            &&& part.text is None
            &&& part.inline_data is None
            &&& part.media_resolution is None
            &&& part.function_call is None
            &&& part.thought is None
        }),
{
    let item = ItemView::FunctionCallOutput { call_id, output, thought_signature };
    let before = contents_of(items);
    let entry = entry_of(items, item)->0;
    let after = contents_of(items.push(item));
    assert(items.push(item).drop_last() =~= items);
    lemma_joined(before, entry);
    let part = new_part(after, 1, 0);
    law_tool_answer_says_it_all(output);
    assert forall|i: int|
        0 <= i < items.len() && makes_call_with(#[trigger] items[i], call_id) && (forall|j: int|
            i < j < items.len() ==> !makes_call_with(#[trigger] items[j], call_id)) implies
        part.function_response->0.name == items[i]->FunctionCall_name by {
        let upto = items.take(i + 1);
        let between = items.skip(i + 1);
        assert(items =~= upto + between);
        assert forall|k: int|
            0 <= k < between.len() && (#[trigger] between[k]) is FunctionCall implies
            between[k]->FunctionCall_call_id != call_id by {
            assert(between[k] == items[i + 1 + k]);
            assert(!makes_call_with(items[i + 1 + k], call_id));
        }
        lemma_called_name_behind(upto, between, call_id);
        assert(upto.last() == items[i]);
    }
    if forall|i: int| 0 <= i < items.len() ==> !makes_call_with(#[trigger] items[i], call_id) {
        assert(Seq::<ItemView>::empty() + items =~= items);
        assert forall|k: int|
            0 <= k < items.len() && (#[trigger] items[k]) is FunctionCall implies
            items[k]->FunctionCall_call_id != call_id by {
            assert(!makes_call_with(items[k], call_id));
        }
        lemma_called_name_behind(Seq::empty(), items, call_id);
        assert(called_name(Seq::empty(), call_id) is None);
    }
}

/// What a tool without a schema gave is said by the user in words: all of it, behind its id.
pub proof fn law_custom_output_is_said(
    items: Seq<ItemView>,
    call_id: Seq<char>,
    output: Seq<char>,
)
    ensures
        ({
            let item = ItemView::CustomToolCallOutput { call_id, output };
            let after = contents_of(items.push(item));
            let part = new_part(after, 1, 0);
            &&& says_more(contents_of(items), after, "user"@, 1)
            &&& part.text == Some("Custom tool "@ + call_id + " result:\n"@ + output)
            &&& part.inline_data is None
            &&& part.thought_signature is None
            &&& is_plain_part(part)
        }),
{
    let item = ItemView::CustomToolCallOutput { call_id, output };
    let entry = entry_of(items, item)->0;
    assert(items.push(item).drop_last() =~= items);
    lemma_joined(contents_of(items), entry);
}

} // verus!
