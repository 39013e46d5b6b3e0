use codex_gemini::ws::{
    cli_modes, frame_text, framed, handle_frame, list_error_response, list_params, list_response,
    page_size_of, search_error_response, search_response, AskForApproval, IncomingFrame, RpcKind,
    SandboxMode, SocketAction,
};
use serde_json::Value;

fn json(text: &str) -> Value {
    serde_json::from_str(text).unwrap()
}

fn request(method: &str) -> IncomingFrame {
    IncomingFrame::Text(RpcKind::Request { method: method.to_string() })
}

#[test]
fn frames_go_where_they_belong() {
    assert_eq!(handle_frame(&request("searchConversations")), SocketAction::SearchConversations);
    assert_eq!(handle_frame(&request("listConversations")), SocketAction::ListConversations);
    assert_eq!(handle_frame(&request("newConversation")), SocketAction::ForwardRequest);
    let text = IncomingFrame::Text;
    assert_eq!(handle_frame(&text(RpcKind::Notification)), SocketAction::ForwardNotification);
    assert_eq!(handle_frame(&text(RpcKind::Response)), SocketAction::ForwardResponse);
    assert_eq!(handle_frame(&text(RpcKind::Error)), SocketAction::Ignore);
    assert_eq!(handle_frame(&text(RpcKind::Unreadable)), SocketAction::Ignore);
    assert_eq!(handle_frame(&IncomingFrame::Binary), SocketAction::Ignore);
    assert_eq!(handle_frame(&IncomingFrame::Ping), SocketAction::Ignore);
    assert_eq!(handle_frame(&IncomingFrame::Pong), SocketAction::Ignore);
    assert_eq!(handle_frame(&IncomingFrame::Close), SocketAction::Stop);
    assert_eq!(handle_frame(&IncomingFrame::Broken), SocketAction::Stop);
}

#[test]
fn a_frame_ends_in_a_line_feed() {
    assert_eq!(frame_text(&json(r#"{"b":[1,true],"a":null}"#)).as_deref(), Some("{\"a\":null,\"b\":[1,true]}\n"));
}

#[test]
fn a_search_is_answered_with_the_sessions_found() {
    let items = vec![Some(json(r#"{"path":"/a"}"#)), None, Some(json(r#"{"path":"/b"}"#))];
    assert_eq!(
        search_response(json("2"), items),
        json(
            r#"{"jsonrpc":"2.0","id":2,"result":{"items":[{"path":"/a"},{"path":"/b"}],"nextCursor":null,"stats":{"scannedFiles":null,"reachedScanCap":false}}}"#
        )
    );
}

#[test]
fn a_list_is_answered_with_the_sessions() {
    assert_eq!(
        list_response(json(r#""x""#), vec![]),
        json(r#"{"jsonrpc":"2.0","id":"x","result":{"items":[],"nextCursor":null}}"#)
    );
}

#[test]
fn failures_are_answered_as_internal_errors() {
    assert_eq!(
        search_error_response(json("3"), "no disk"),
        json(r#"{"jsonrpc":"2.0","id":3,"error":{"code":-32603,"message":"search error: no disk"}}"#)
    );
    assert_eq!(
        list_error_response(json("4"), "no disk"),
        json(r#"{"jsonrpc":"2.0","id":4,"error":{"code":-32603,"message":"list error: no disk"}}"#)
    );
}

#[test]
fn a_page_holds_twenty_five_unless_asked_otherwise() {
    assert_eq!(page_size_of(None), 25);
    assert_eq!(page_size_of(Some(0)), 0);
    assert_eq!(list_params(Some(20)).page_size, Some(20));
    assert_eq!(list_params(None).page_size, Some(25));
    let asked = list_params(None);
    assert_eq!(asked.query, None);
    assert_eq!(asked.cursor, None);
    assert_eq!(asked.date_from, None);
    assert_eq!(asked.date_to, None);
    assert_eq!(asked.model, None);
    assert_eq!(asked.source, None);
}

#[test]
fn full_auto_fills_in_what_is_not_asked_for() {
    assert_eq!(
        cli_modes(None, None, true),
        (Some(SandboxMode::WorkspaceWrite), Some(AskForApproval::OnFailure))
    );
    assert_eq!(
        cli_modes(Some(SandboxMode::ReadOnly), Some(AskForApproval::Never), true),
        (Some(SandboxMode::ReadOnly), Some(AskForApproval::Never))
    );
    assert_eq!(cli_modes(None, None, false), (None, None));
}

#[test]
fn a_text_becomes_a_frame_as_it_is() {
    assert_eq!(framed(r#"{"b":1,"a":2}"#.to_string()), "{\"b\":1,\"a\":2}\n");
}
