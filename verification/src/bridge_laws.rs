//! What the bridge answers, what it lets in, and what it makes of its command line.
use crate::headers::{
    announces_event_stream, header_text, header_values, is_authorized, request_id_of, visible_text,
};
use crate::json::{
    is_plain, is_plain_tree, json_member, json_member_string, json_members, json_of, json_option,
    json_text, text_before, JsonModel,
};
use crate::text::decimal;
use crate::text_laws::{is_made_of, law_substring};
use crate::ws::{
    action_for, error_answer, frame_of, lemma_answer_keys, list_answer, list_failure, list_reply,
    modes_for, page_size_for, present, search_answer, search_failure, search_reply, AskForApproval,
    IncomingFrame, RpcKind, SandboxMode,
};
use vstd::prelude::*;

verus! {

/// A member of an object is what stands under its key, and nothing else has members; a string
/// is read where there is one.
pub proof fn law_members(
    members: Map<Seq<char>, JsonModel>,
    key: Seq<char>,
    value: JsonModel,
    other: Seq<char>,
    text: Seq<char>,
    tree: JsonModel,
)
    requires
        other != key,
    ensures
        json_member(JsonModel::Object(members.insert(key, value)), key) == Some(value),
        json_member(JsonModel::Object(members.insert(key, value)), other) == json_member(
            JsonModel::Object(members),
            other,
        ),
        json_member(JsonModel::Object(Map::empty()), key) is None,
        tree !is Object ==> json_member(tree, key) is None,
        json_member_string(JsonModel::Object(members.insert(key, JsonModel::Text(text))), key)
            == Some(text),
        json_member_string(tree, key) is Some ==> json_member(tree, key) == Some(
            JsonModel::Text(json_member_string(tree, key)->0),
        ),
{
}

/// An optional value holds the tree that the value holds.
pub proof fn law_optional_values(value: serde_json::Value)
    ensures
        json_option(Some(value)) == Some(json_of(value)),
        json_option(None) is None,
{
}

/// What is plain: texts, truths and nothing; lists and objects of what is plain, nested less
/// deep; and all that is plain stays so where more depth is allowed.
pub proof fn law_plain_trees(text: Seq<char>, b: bool, elements: Seq<JsonModel>, depth: nat)
    requires
        forall|i: int| 0 <= i < elements.len() ==> is_plain_tree(#[trigger] elements[i], depth),
    ensures
        is_plain_tree(JsonModel::Null, depth),
        is_plain_tree(JsonModel::Bool(b), depth),
        is_plain_tree(JsonModel::Text(text), depth),
        is_plain_tree(JsonModel::Array(elements), depth + 1),
{
}

/// A number of 64 bits is plain.
pub proof fn law_plain_numbers(n: int, depth: nat)
    requires
        i64::MIN <= n <= u64::MAX,
    ensures
        is_plain_tree(
            JsonModel::Number(
                if n < 0 {
                    seq!['-'] + decimal((-n) as nat)
                } else {
                    decimal(n as nat)
                },
            ),
            depth,
        ),
{
    assert(crate::json::integer_text(n) == crate::json::integer_text(n));
}

/// An object of plain members is plain where it does not hold the key for raw values.
pub proof fn law_plain_objects(members: Map<Seq<char>, JsonModel>, depth: nat)
    requires
        !members.contains_key("$serde_json::private::RawValue"@),
        forall|key: Seq<char>| #[trigger]
            members.contains_key(key) ==> is_plain_tree(members[key], depth),
    ensures
        is_plain_tree(JsonModel::Object(members), depth + 1),
{
}

/// What is plain where so much depth is allowed is plain where more is.
pub proof fn law_plain_with_more_depth(tree: JsonModel, depth: nat, more: nat)
    requires
        is_plain_tree(tree, depth),
        depth <= more,
    ensures
        is_plain_tree(tree, more),
        more <= 127 ==> is_plain(tree),
        is_plain(tree) == is_plain_tree(tree, 127),
    decreases depth, 127 - more,
{
    match tree {
        JsonModel::Array(elements) => {
            assert forall|i: int| 0 <= i < elements.len() implies is_plain_tree(
                #[trigger] elements[i],
                (more - 1) as nat,
            ) by {
                law_plain_with_more_depth(elements[i], (depth - 1) as nat, (more - 1) as nat);
            }
        },
        JsonModel::Object(members) => {
            assert forall|key: Seq<char>| #[trigger] members.contains_key(key) implies
                is_plain_tree(members[key], (more - 1) as nat) by {
                law_plain_with_more_depth(members[key], (depth - 1) as nat, (more - 1) as nat);
            }
        },
        _ => {},
    }
    if more < 127 {
        law_plain_with_more_depth(tree, depth, 127);
    }
}

/// Of two texts the one with the smaller character comes first, at the first character in
/// which they differ, and the beginning of a text comes before the text.
pub proof fn law_order_of_texts(front: Seq<char>, x: char, a: Seq<char>, y: char, b: Seq<char>)
    ensures
        x != y ==> text_before(front.push(x) + a, front.push(y) + b) == (x < y),
        text_before(front, front.push(x) + a),
        !text_before(front.push(x) + a, front),
        !text_before(front, front),
    decreases front.len(),
{
    let p = front.push(x) + a;
    let q = front.push(y) + b;
    if front.len() > 0 {
        law_order_of_texts(front.skip(1), x, a, y, b);
        assert(p.skip(1) =~= front.skip(1).push(x) + a);
        assert(q.skip(1) =~= front.skip(1).push(y) + b);
        assert(p[0] == front[0] && q[0] == front[0]);
    }
}

/// An object that holds the key for raw values, and no key before it, starts with it and is
/// not plain.
pub proof fn law_raw_values_are_not_plain(members: Map<Seq<char>, JsonModel>, depth: nat)
    requires
        members.contains_key("$serde_json::private::RawValue"@),
        forall|key: Seq<char>| #[trigger]
            members.contains_key(key) ==> !text_before(key, "$serde_json::private::RawValue"@),
    ensures
        !is_plain_tree(JsonModel::Object(members), depth),
{
}

/// The members of an object are all that it is made of, each under its key.
pub proof fn law_members_of_a_list(
    members: Seq<(String, serde_json::Value)>,
    key: String,
    value: serde_json::Value,
)
    ensures
        json_members(members.push((key, value))) == json_members(members).insert(
            key@,
            json_of(value),
        ),
        json_members(Seq::empty()) == Map::<Seq<char>, JsonModel>::empty(),
{
    assert(members.push((key, value)).drop_last() =~= members);
}

/// The answer to a request for a list holds the sessions that were handed in, all of them and
/// in order, and says that there is no further page.
pub proof fn law_list_holds_the_sessions(id: JsonModel, items: Seq<JsonModel>, key: Seq<char>)
    ensures
        json_member(list_answer(id, items), "jsonrpc"@) == Some(JsonModel::Text("2.0"@)),
        json_member(list_answer(id, items), "result"@) matches Some(result) && {
            &&& json_member(result, "items"@) == Some(JsonModel::Array(items))
            &&& json_member(result, "nextCursor"@) == Some(JsonModel::Null)
            &&& json_member(result, key) is Some ==> key == "items"@ || key == "nextCursor"@
        },
        json_member(list_answer(id, items), key) is Some ==> key == "jsonrpc"@ || key == "id"@
            || key == "result"@,
{
    lemma_answer_keys();
}

/// The answer to a search holds the sessions that were handed in, all of them and in order. It
/// says that there is no further page, and of the search that nothing was cut short.
pub proof fn law_search_holds_the_sessions(id: JsonModel, items: Seq<JsonModel>, key: Seq<char>)
    ensures
        json_member(search_answer(id, items), "jsonrpc"@) == Some(JsonModel::Text("2.0"@)),
        json_member(search_answer(id, items), "result"@) matches Some(result) && {
            &&& json_member(result, "items"@) == Some(JsonModel::Array(items))
            &&& json_member(result, "nextCursor"@) == Some(JsonModel::Null)
            &&& json_member(result, "stats"@) matches Some(stats) && json_member(
                stats,
                "scannedFiles"@,
            ) == Some(JsonModel::Null) && json_member(stats, "reachedScanCap"@) == Some(
                JsonModel::Bool(false),
            )
            &&& json_member(result, key) is Some ==> key == "items"@ || key == "nextCursor"@
                || key == "stats"@
        },
        json_member(search_answer(id, items), key) is Some ==> key == "jsonrpc"@ || key == "id"@
            || key == "result"@,
{
    lemma_answer_keys();
}

proof fn lemma_internal_error()
    ensures
        crate::json::integer_text(-32603) == "-32603"@,
{
    reveal_strlit("-32603");
    reveal_with_fuel(decimal, 6);
    assert(decimal(32603) =~= seq!['3', '2', '6', '0', '3']);
    assert(crate::json::integer_text(-32603) =~= "-32603"@);
}

/// A request that failed is answered with an internal error, and the words say what was asked
/// for and why it failed.
pub proof fn law_failures_are_answered(id: JsonModel, cause: Seq<char>, message: Seq<char>)
    ensures
        json_member(search_failure(id, cause), "error"@) matches Some(error) && json_member(
            error,
            "message"@,
        ) == Some(JsonModel::Text("search error: "@ + cause)) && json_member(error, "code"@)
            == Some(JsonModel::Number("-32603"@)),
        json_member(list_failure(id, cause), "error"@) matches Some(error) && json_member(
            error,
            "message"@,
        ) == Some(JsonModel::Text("list error: "@ + cause)) && json_member(error, "code"@) == Some(
            JsonModel::Number("-32603"@),
        ),
        json_member(search_failure(id, cause), "id"@) == Some(id),
        json_member(list_failure(id, cause), "id"@) == Some(id),
        json_member(error_answer(id, message), "jsonrpc"@) == Some(JsonModel::Text("2.0"@)),
        json_member(error_answer(id, message), "error"@) matches Some(error) && json_member(
            error,
            "message"@,
        ) == Some(JsonModel::Text(message)),
{
    lemma_answer_keys();
    lemma_internal_error();
}

/// The sessions that could be summed up are kept, all of them and in their order.
pub proof fn law_present_values_are_kept(
    values: Seq<Option<serde_json::Value>>,
    more: Seq<Option<serde_json::Value>>,
    value: serde_json::Value,
)
    ensures
        present(values + more) == present(values) + present(more),
        present(seq![Some(value)]) == seq![json_of(value)],
        present(seq![None::<serde_json::Value>]).len() == 0,
        present(Seq::empty()).len() == 0,
    decreases more.len(),
{
    let one = seq![Some(value)];
    let none = seq![None::<serde_json::Value>];
    assert(one.drop_last() =~= Seq::empty());
    assert(none.drop_last() =~= Seq::empty());
    assert(present(one.drop_last()).len() == 0);
    assert(present(none.drop_last()).len() == 0);
    assert(present(one) =~= seq![json_of(value)]);
    if more.len() == 0 {
        assert(values + more =~= values);
        assert(present(values) + present(more) =~= present(values));
    } else {
        law_present_values_are_kept(values, more.drop_last(), value);
        assert((values + more).drop_last() =~= values + more.drop_last());
        assert(present(values + more) =~= present(values) + present(more));
    }
}

proof fn lemma_all_present(values: Seq<Option<serde_json::Value>>)
    requires
        forall|i: int| 0 <= i < values.len() ==> (#[trigger] values[i]) is Some,
    ensures
        present(values) == Seq::new(values.len(), |i: int| json_of(values[i]->0)),
    decreases values.len(),
{
    if values.len() > 0 {
        let before = values.drop_last();
        assert forall|i: int| 0 <= i < before.len() implies (#[trigger] before[i]) is Some by {
            assert(before[i] == values[i]);
        }
        lemma_all_present(before);
        assert(values[values.len() - 1] is Some);
    }
    assert(present(values) =~= Seq::new(values.len(), |i: int| json_of(values[i]->0)));
}

/// Sessions that could all be summed up are all answered, in order, to a search as to a
/// request for a list.
pub proof fn law_all_sessions_are_answered(
    id: JsonModel,
    values: Seq<Option<serde_json::Value>>,
)
    requires
        forall|i: int| 0 <= i < values.len() ==> (#[trigger] values[i]) is Some,
    ensures
        ({
            let all = JsonModel::Array(Seq::new(values.len(), |i: int| json_of(values[i]->0)));
            &&& json_member(list_reply(id, values), "result"@) matches Some(result) && json_member(
                result,
                "items"@,
            ) == Some(all)
            &&& json_member(search_reply(id, values), "result"@) matches Some(result)
                && json_member(result, "items"@) == Some(all)
        }),
        json_member(list_reply(id, values), "id"@) == Some(id),
        json_member(search_reply(id, values), "id"@) == Some(id),
{
    lemma_answer_keys();
    lemma_all_present(values);
}

/// Two methods are answered here. All other requests, the notifications and the responses go
/// to the engine; a frame that is no message is passed over, and one that ends the connection
/// ends it.
pub proof fn law_frames(method: String, frame: IncomingFrame)
    ensures
        ({
            let action = action_for(IncomingFrame::Text(RpcKind::Request { method }));
            &&& method@ == "searchConversations"@ ==> action is SearchConversations
            &&& method@ == "listConversations"@ ==> action is ListConversations
            &&& method@ != "searchConversations"@ && method@ != "listConversations"@
                ==> action is ForwardRequest
        }),
        action_for(IncomingFrame::Text(RpcKind::Notification)) is ForwardNotification,
        action_for(IncomingFrame::Text(RpcKind::Response)) is ForwardResponse,
        action_for(frame) is Stop == (frame is Close || frame is Broken),
        frame matches IncomingFrame::Text(kind) && (kind is Error || kind is Unreadable)
            ==> action_for(frame) is Ignore,
        frame is Binary || frame is Ping || frame is Pong ==> action_for(frame) is Ignore,
{
    reveal_strlit("searchConversations");
    reveal_strlit("listConversations");
    assert("searchConversations"@.len() != "listConversations"@.len());
}

/// A frame is the JSON text of its value and one line feed, and there is a frame wherever
/// there is a text.
pub proof fn law_frame_is_text_and_line_feed(tree: JsonModel)
    ensures
        frame_of(tree) is Some == json_text(tree) is Some,
        frame_of(tree) matches Some(frame) ==> frame.len() > 0 && frame.last() == '\n'
            && frame.drop_last() == json_text(tree)->0,
{
    reveal_strlit("\n");
    if let Some(text) = json_text(tree) {
        assert((text + "\n"@).drop_last() =~= text);
    }
}

/// The page is as long as is asked for, and twenty-five where nothing is asked.
pub proof fn law_page_size(asked: usize)
    ensures
        page_size_for(Some(asked)) == asked,
        page_size_for(None) == 25,
{
}

/// What the command line asks for stands, whatever else it says; the flag for working without
/// questions fills in only what is not asked for, and without it nothing is filled in.
pub proof fn law_modes(
    sandbox: SandboxMode,
    approval: AskForApproval,
    other_sandbox: Option<SandboxMode>,
    other_approval: Option<AskForApproval>,
    full_auto: bool,
)
    ensures
        modes_for(Some(sandbox), other_approval, full_auto).0 == Some(sandbox),
        modes_for(other_sandbox, Some(approval), full_auto).1 == Some(approval),
        modes_for(None, other_approval, true).0 == Some(SandboxMode::WorkspaceWrite),
        modes_for(other_sandbox, None, true).1 == Some(AskForApproval::OnFailure),
        modes_for(other_sandbox, other_approval, false) == (other_sandbox, other_approval),
{
}

/// The text of a header is its bytes, one character for each, where all of them are visible;
/// a header that is not there has none.
pub proof fn law_header_text(headers: http::HeaderMap<http::HeaderValue>, name: Seq<char>)
    ensures
        !header_values(headers).contains_key(name) ==> header_text(headers, name) is None,
        header_values(headers).contains_key(name) ==> header_text(headers, name) == visible_text(
            header_values(headers)[name],
        ),
        header_text(headers, name) matches Some(text) ==> {
            let bytes = header_values(headers)[name];
            &&& text.len() == bytes.len()
            &&& forall|i: int|
                0 <= i < bytes.len() ==> #[trigger] text[i] as u32 == bytes[i] && (bytes[i] == 9
                    || 32 <= bytes[i] <= 126)
        },
{
}

/// Bytes that are all visible are a text.
pub proof fn law_visible_bytes(bytes: Seq<u8>)
    requires
        forall|i: int|
            0 <= i < bytes.len() ==> (#[trigger] bytes[i]) == 9 || 32 <= bytes[i] <= 126,
    ensures
        visible_text(bytes) is Some,
{
    assert forall|i: int| 0 <= i < bytes.len() implies crate::headers::is_visible_ascii(
        #[trigger] bytes[i],
    ) by {}
}

/// The id of a request is the text of the first of three headers that has any.
pub proof fn law_request_id(headers: http::HeaderMap<http::HeaderValue>)
    ensures
        header_text(headers, "x-request-id"@) is Some ==> request_id_of(headers) == header_text(
            headers,
            "x-request-id"@,
        ),
        header_text(headers, "x-request-id"@) is None && header_text(
            headers,
            "x-oai-request-id"@,
        ) is Some ==> request_id_of(headers) == header_text(headers, "x-oai-request-id"@),
        header_text(headers, "x-request-id"@) is None && header_text(
            headers,
            "x-oai-request-id"@,
        ) is None ==> request_id_of(headers) == header_text(headers, "cf-ray"@),
{
}

/// A token lets in those who show it, and nobody else: the same handshake is let in by no
/// other token. Where there is no token, all are let in.
pub proof fn law_token_lets_in(
    token: Seq<char>,
    other: Seq<char>,
    headers: http::HeaderMap<http::HeaderValue>,
)
    ensures
        header_text(headers, "authorization"@) == Some("Bearer "@ + token) ==> is_authorized(
            Some(token),
            headers,
        ),
        is_authorized(Some(token), headers) ==> header_text(headers, "authorization"@) == Some(
            "Bearer "@ + token,
        ),
        is_authorized(Some(token), headers) && other != token ==> !is_authorized(
            Some(other),
            headers,
        ),
        is_authorized(None, headers),
{
    if is_authorized(Some(token), headers) && is_authorized(Some(other), headers) {
        let n = "Bearer "@.len() as int;
        assert(("Bearer "@ + token).skip(n) =~= token);
        assert(("Bearer "@ + other).skip(n) =~= other);
    }
}

/// A stream of events is announced by the content type, wherever in it the words stand.
pub proof fn law_announcement(
    headers: http::HeaderMap<http::HeaderValue>,
    front: Seq<char>,
    rest: Seq<char>,
)
    ensures
        header_text(headers, "content-type"@) == Some(front + "text/event-stream"@ + rest)
            ==> announces_event_stream(headers),
        announces_event_stream(headers) ==> (header_text(headers, "content-type"@) matches Some(
            kind,
        ) && exists|a: Seq<char>, b: Seq<char>| #[trigger]
            is_made_of(kind, a, "text/event-stream"@, b)),
{
    if let Some(kind) = header_text(headers, "content-type"@) {
        law_substring(kind, "text/event-stream"@, front, rest);
    }
}

} // verus!
