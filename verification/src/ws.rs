//! The WebSocket bridge: what an incoming frame asks for, and what is answered.
use vstd::prelude::*;
use vstd::string::*;
use crate::json::{
    integer_text, json_array, json_bool, json_integer, json_list, json_member, json_null,
    json_object_2, json_object_3, json_of, json_string, json_text, json_write, object_2, object_3,
    JsonModel,
};
use crate::session_scan::{asks_for_nothing, WsSearchParams};
use crate::text::text_eq;

verus! {

/// What a text frame could be read as: a JSON-RPC message, by its kind and method.
pub enum RpcKind {
    Request { method: String },
    Notification,
    Response,
    Error,
    Unreadable,
}

/// A frame that came from a client.
pub enum IncomingFrame {
    Text(RpcKind),
    Binary,
    Ping,
    Pong,
    Close,
    Broken,
}

/// What is done about a frame.
#[derive(Debug, Clone, Copy, PartialEq, Eq, Structural)]
pub enum SocketAction {
    /// Search the sessions and answer here.
    SearchConversations,
    /// List the sessions and answer here.
    ListConversations,
    /// Hand the request to the engine.
    ForwardRequest,
    /// Hand the notification to the engine.
    ForwardNotification,
    /// Hand the response to the engine.
    ForwardResponse,
    /// Pass over the frame.
    Ignore,
    /// Read no more frames.
    Stop,
}

/// What a frame asks for: two methods are answered here, what else is a message goes to the
/// engine, and the connection ends where it was closed or broke.
pub open spec fn action_for(frame: IncomingFrame) -> SocketAction {
    match frame {
        IncomingFrame::Text(RpcKind::Request { method }) => if method@ == "searchConversations"@ {
            SocketAction::SearchConversations
        } else if method@ == "listConversations"@ {
            SocketAction::ListConversations
        } else {
            SocketAction::ForwardRequest
        },
        IncomingFrame::Text(RpcKind::Notification) => SocketAction::ForwardNotification,
        IncomingFrame::Text(RpcKind::Response) => SocketAction::ForwardResponse,
        IncomingFrame::Text(RpcKind::Error) => SocketAction::Ignore,
        IncomingFrame::Text(RpcKind::Unreadable) => SocketAction::Ignore,
        IncomingFrame::Binary | IncomingFrame::Ping | IncomingFrame::Pong => SocketAction::Ignore,
        IncomingFrame::Close | IncomingFrame::Broken => SocketAction::Stop,
    }
}

/// Decide what is done about a frame.
pub fn handle_frame(frame: &IncomingFrame) -> (action: SocketAction)
    ensures
        action == action_for(*frame),
{
    match frame {
        IncomingFrame::Text(kind) => match kind {
            RpcKind::Request { method } => {
                if text_eq(method.as_str(), "searchConversations") {
                    SocketAction::SearchConversations
                } else if text_eq(method.as_str(), "listConversations") {
                    SocketAction::ListConversations
                } else {
                    SocketAction::ForwardRequest
                }
            },
            RpcKind::Notification => SocketAction::ForwardNotification,
            RpcKind::Response => SocketAction::ForwardResponse,
            RpcKind::Error => SocketAction::Ignore,
            RpcKind::Unreadable => SocketAction::Ignore,
        },
        IncomingFrame::Binary | IncomingFrame::Ping | IncomingFrame::Pong => SocketAction::Ignore,
        IncomingFrame::Close | IncomingFrame::Broken => SocketAction::Stop,
    }
}

/// The text of a frame: a JSON text and a line feed.
pub fn framed(text: String) -> (frame: String)
    ensures
        frame@ == text@ + "\n"@,
{
    let mut frame: String = text;
    frame.append("\n");
    frame
}

/// The text of a frame that is sent: the JSON text of the value and a line feed. Nothing is
/// sent where the value has no JSON text.
pub open spec fn frame_of(tree: JsonModel) -> Option<Seq<char>> {
    match json_text(tree) {
        Some(text) => Some(text + "\n"@),
        None => None,
    }
}

/// Write a value as the text of a frame.
pub fn frame_text(value: &serde_json::Value) -> (text: Option<String>)
    ensures
        text.deep_view() == frame_of(json_of(*value)),
{
    match json_write(value) {
        Some(text) => Some(framed(text)),
        None => None,
    }
}

/// The length of a page where none is asked for.
pub const DEFAULT_PAGE_SIZE: usize = 25;

/// The length of the page that is asked for.
pub open spec fn page_size_for(asked: Option<usize>) -> usize {
    match asked {
        Some(n) => n,
        None => DEFAULT_PAGE_SIZE,
    }
}

/// The length of the page that is asked for.
pub fn page_size_of(asked: Option<usize>) -> (page_size: usize)
    ensures
        page_size == (match asked {
            Some(n) => n,
            None => DEFAULT_PAGE_SIZE,
        }),
        page_size == page_size_for(asked),
{
    match asked {
        Some(n) => n,
        None => DEFAULT_PAGE_SIZE,
    }
}

/// A list of the sessions is a search that asks for nothing in particular.
pub fn list_params(asked: Option<usize>) -> (params: WsSearchParams)
    ensures
        asks_for_nothing(params),
        params.page_size == Some(
            match asked {
                Some(n) => n,
                None => DEFAULT_PAGE_SIZE,
            },
        ),
        params.page_size == Some(page_size_for(asked)),
        params.cursor is None,
        params.date_from is None,
        params.date_to is None,
        params.model is None,
        params.source is None,
{
    let mut params: WsSearchParams = WsSearchParams::default();
    params.page_size = Some(page_size_of(asked));
    params
}

/// The values of a list that are there.
pub open spec fn present(values: Seq<Option<serde_json::Value>>) -> Seq<JsonModel>
    decreases values.len(),
{
    if values.len() == 0 {
        Seq::empty()
    } else {
        match values.last() {
            Some(value) => present(values.drop_last()).push(json_of(value)),
            None => present(values.drop_last()),
        }
    }
}

/// A JSON-RPC answer.
pub open spec fn answer(id: JsonModel, key: Seq<char>, value: JsonModel) -> JsonModel {
    object_3("jsonrpc"@, JsonModel::Text("2.0"@), "id"@, id, key, value)
}

/// The answer to a search: the sessions found. There is no further page, and the files that
/// were read are not counted.
pub open spec fn search_answer(id: JsonModel, items: Seq<JsonModel>) -> JsonModel {
    answer(
        id,
        "result"@,
        object_3(
            "items"@,
            JsonModel::Array(items),
            "nextCursor"@,
            JsonModel::Null,
            "stats"@,
            object_2(
                "scannedFiles"@,
                JsonModel::Null,
                "reachedScanCap"@,
                JsonModel::Bool(false),
            ),
        ),
    )
}

/// The answer to a request for a list: the sessions. There is no further page.
pub open spec fn list_answer(id: JsonModel, items: Seq<JsonModel>) -> JsonModel {
    answer(
        id,
        "result"@,
        object_2("items"@, JsonModel::Array(items), "nextCursor"@, JsonModel::Null),
    )
}

/// What a search is answered with the sessions that could be summed up, none for one that
/// could not.
pub open spec fn search_reply(id: JsonModel, items: Seq<Option<serde_json::Value>>) -> JsonModel {
    search_answer(id, present(items))
}

/// What a request for a list is answered with them.
pub open spec fn list_reply(id: JsonModel, items: Seq<Option<serde_json::Value>>) -> JsonModel {
    list_answer(id, present(items))
}

/// The answer to a request that failed: an internal error, and what it was.
pub open spec fn error_answer(id: JsonModel, message: Seq<char>) -> JsonModel {
    answer(
        id,
        "error"@,
        object_2(
            "code"@,
            JsonModel::Number(integer_text(-32603)),
            "message"@,
            JsonModel::Text(message),
        ),
    )
}

/// The values that are there, in their order.
fn keep_present(values: Vec<Option<serde_json::Value>>) -> (kept: Vec<serde_json::Value>)
    ensures
        json_list(kept@) == present(values@),
{
    let ghost all = values@;
    let mut kept: Vec<serde_json::Value> = Vec::new();
    proof {
        assert(json_list(kept@) =~= present(all.take(0)));
    }
    for value in it: values
        invariant
            it.seq() == all,
            json_list(kept@) == present(all.take(it.index() as int)),
    {
        proof {
            let i = it.index() as int;
            assert(all.take(i + 1).drop_last() =~= all.take(i));
        }
        if let Some(value) = value {
            let ghost before = kept@;
            kept.push(value);
            proof {
                assert(json_list(kept@) =~= json_list(before).push(json_of(value)));
            }
        }
    }
    proof {
        assert(all.take(all.len() as int) =~= all);
    }
    kept
}

/// The keys of an answer are all different.
pub proof fn lemma_answer_keys()
    ensures
        "jsonrpc"@ != "id"@,
        "jsonrpc"@ != "result"@,
        "id"@ != "result"@,
        "jsonrpc"@ != "error"@,
        "id"@ != "error"@,
        "items"@ != "nextCursor"@,
        "items"@ != "stats"@,
        "nextCursor"@ != "stats"@,
        "scannedFiles"@ != "reachedScanCap"@,
        "code"@ != "message"@,
{
    reveal_strlit("jsonrpc");
    reveal_strlit("id");
    reveal_strlit("result");
    reveal_strlit("error");
    reveal_strlit("items");
    reveal_strlit("nextCursor");
    reveal_strlit("stats");
    reveal_strlit("scannedFiles");
    reveal_strlit("reachedScanCap");
    reveal_strlit("code");
    reveal_strlit("message");
    assert("jsonrpc"@.len() == 7);
    assert("id"@.len() == 2);
    assert("result"@.len() == 6);
    assert("error"@.len() == 5);
    assert("items"@.len() == 5);
    assert("nextCursor"@.len() == 10);
    assert("stats"@.len() == 5);
    assert("items"@[0] == 'i');
    assert("stats"@[0] == 's');
    assert("scannedFiles"@.len() == 12);
    assert("reachedScanCap"@.len() == 14);
    assert("code"@.len() == 4);
    assert("message"@.len() == 7);
}

fn new_answer(id: serde_json::Value, key: &str, value: serde_json::Value) -> (response:
    serde_json::Value)
    requires
        key@ == "result"@ || key@ == "error"@,
    ensures
        json_of(response) == answer(json_of(id), key@, json_of(value)),
{
    proof {
        lemma_answer_keys();
    }
    json_object_3("jsonrpc", json_string("2.0".to_owned()), "id", id, key, value)
}

/// Answer a search with the sessions that could be summed up.
pub fn search_response(id: serde_json::Value, items: Vec<Option<serde_json::Value>>) -> (response:
    serde_json::Value)
    ensures
        json_of(response) == search_answer(json_of(id), present(items@)),
        json_of(response) == search_reply(json_of(id), items@),
{
    proof {
        lemma_answer_keys();
    }
    let stats: serde_json::Value = json_object_2(
        "scannedFiles",
        json_null(),
        "reachedScanCap",
        json_bool(false),
    );
    let result: serde_json::Value = json_object_3(
        "items",
        json_array(keep_present(items)),
        "nextCursor",
        json_null(),
        "stats",
        stats,
    );
    new_answer(id, "result", result)
}

/// Answer a request for a list with the sessions that could be summed up.
pub fn list_response(id: serde_json::Value, items: Vec<Option<serde_json::Value>>) -> (response:
    serde_json::Value)
    ensures
        json_of(response) == list_answer(json_of(id), present(items@)),
        json_of(response) == list_reply(json_of(id), items@),
{
    proof {
        lemma_answer_keys();
    }
    let result: serde_json::Value = json_object_2(
        "items",
        json_array(keep_present(items)),
        "nextCursor",
        json_null(),
    );
    new_answer(id, "result", result)
}

/// Answer a request that failed.
fn error_response(id: serde_json::Value, prefix: &str, cause: &str) -> (response: serde_json::Value)
    ensures
        json_of(response) == error_answer(json_of(id), prefix@ + cause@),
{
    proof {
        lemma_answer_keys();
    }
    let mut message: String = prefix.to_owned();
    message.append(cause);
    let error: serde_json::Value = json_object_2(
        "code",
        json_integer(-32603),
        "message",
        json_string(message),
    );
    new_answer(id, "error", error)
}

/// The answer to a search that failed.
pub open spec fn search_failure(id: JsonModel, cause: Seq<char>) -> JsonModel {
    error_answer(id, "search error: "@ + cause)
}

/// The answer to a request for a list that failed.
pub open spec fn list_failure(id: JsonModel, cause: Seq<char>) -> JsonModel {
    error_answer(id, "list error: "@ + cause)
}

/// Answer a search that failed.
pub fn search_error_response(id: serde_json::Value, cause: &str) -> (response: serde_json::Value)
    ensures
        json_of(response) == error_answer(json_of(id), "search error: "@ + cause@),
        json_of(response) == search_failure(json_of(id), cause@),
{
    error_response(id, "search error: ", cause)
}

/// Answer a request for a list that failed.
pub fn list_error_response(id: serde_json::Value, cause: &str) -> (response: serde_json::Value)
    ensures
        json_of(response) == error_answer(json_of(id), "list error: "@ + cause@),
        json_of(response) == list_failure(json_of(id), cause@),
{
    error_response(id, "list error: ", cause)
}

/// What commands may do.
#[derive(Debug, Clone, Copy, PartialEq, Eq, Structural)]
pub enum SandboxMode {
    ReadOnly,
    WorkspaceWrite,
    DangerFullAccess,
}

/// When the user is asked before a command runs.
#[derive(Debug, Clone, Copy, PartialEq, Eq, Structural)]
pub enum AskForApproval {
    UnlessTrusted,
    OnFailure,
    OnRequest,
    Never,
}

/// The modes that the command line sets.
pub open spec fn modes_for(
    sandbox_mode: Option<SandboxMode>,
    approval_policy: Option<AskForApproval>,
    full_auto: bool,
) -> (Option<SandboxMode>, Option<AskForApproval>) {
    (
        if full_auto && sandbox_mode is None {
            Some(SandboxMode::WorkspaceWrite)
        } else {
            sandbox_mode
        },
        if full_auto && approval_policy is None {
            Some(AskForApproval::OnFailure)
        } else {
            approval_policy
        },
    )
}

/// The modes that the command line sets. What is asked for stands; the convenience flag fills
/// in what is not.
pub fn cli_modes(
    sandbox_mode: Option<SandboxMode>,
    approval_policy: Option<AskForApproval>,
    full_auto: bool,
) -> (modes: (Option<SandboxMode>, Option<AskForApproval>))
    ensures
        modes.0 == (if full_auto && sandbox_mode is None {
            Some(SandboxMode::WorkspaceWrite)
        } else {
            sandbox_mode
        }),
        modes.1 == (if full_auto && approval_policy is None {
            Some(AskForApproval::OnFailure)
        } else {
            approval_policy
        }),
        modes == modes_for(sandbox_mode, approval_policy, full_auto),
{
    let mut sandbox: Option<SandboxMode> = sandbox_mode;
    let mut approval: Option<AskForApproval> = approval_policy;
    if full_auto {
        if sandbox.is_none() {
            sandbox = Some(SandboxMode::WorkspaceWrite);
        }
        if approval.is_none() {
            approval = Some(AskForApproval::OnFailure);
        }
    }
    (sandbox, approval)
}

/// Every answer carries the id of the request that it answers.
pub proof fn law_answers_carry_the_request_id(
    id: JsonModel,
    items: Seq<JsonModel>,
    message: Seq<char>,
)
    ensures
        json_member(search_answer(id, items), "id"@) == Some(id),
        json_member(list_answer(id, items), "id"@) == Some(id),
        json_member(error_answer(id, message), "id"@) == Some(id),
{
    lemma_answer_keys();
}

/// An answer is either a result or an error, never both.
pub proof fn law_answers_are_result_or_error(
    id: JsonModel,
    items: Seq<JsonModel>,
    message: Seq<char>,
)
    ensures
        json_member(search_answer(id, items), "result"@) is Some,
        json_member(search_answer(id, items), "error"@) is None,
        json_member(list_answer(id, items), "result"@) is Some,
        json_member(list_answer(id, items), "error"@) is None,
        json_member(error_answer(id, message), "error"@) is Some,
        json_member(error_answer(id, message), "result"@) is None,
{
    lemma_answer_keys();
    assert("result"@.len() == 6 && "error"@.len() == 5) by {
        reveal_strlit("result");
        reveal_strlit("error");
    }
}

} // verus!
