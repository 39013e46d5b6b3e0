use codex_gemini::conversation_manager::{
    dispatch, truncate_before_nth_user_message, ConversationManager, DispatcherAction,
    DispatcherInput, InitialHistory, RolloutItem, SessionEvent,
};
use codex_gemini::plan::{
    handle_update_plan, plan_tool, FunctionCallError, JsonSchema, PlanHandler, ToolKind,
    ToolPayload,
};
use codex_gemini::plan_tool::{PlanItemArg, StepStatus, UpdatePlanArgs};
use codex_gemini::protocol::{
    CodexErr, ContentItem, ReasoningItemReasoningSummary, ResponseItem, SessionSource,
};

fn message(role: &str, text: &str) -> ResponseItem {
    ResponseItem::Message {
        id: None,
        role: role.to_string(),
        content: vec![ContentItem::OutputText { text: text.to_string() }],
        thought_signature: None,
    }
}

fn user_msg(text: &str) -> ResponseItem {
    message("user", text)
}

fn assistant_msg(text: &str) -> ResponseItem {
    message("assistant", text)
}

fn rollout(items: &[ResponseItem]) -> Vec<RolloutItem> {
    items.iter().cloned().map(RolloutItem::ResponseItem).collect()
}

fn sent_by_user(items: &[ResponseItem]) -> Vec<bool> {
    items
        .iter()
        .map(|item| matches!(item, ResponseItem::Message { role, .. } if role == "user"))
        .collect()
}

fn event(id: &str, configured: Option<u8>) -> SessionEvent<u8> {
    SessionEvent { id: id.to_string(), configured }
}

fn plan() -> UpdatePlanArgs {
    UpdatePlanArgs {
        explanation: None,
        action_plan: vec![PlanItemArg {
            step: "look".to_string(),
            tool: Some("shell".to_string()),
            status: StepStatus::InProgress,
        }],
    }
}

#[test]
fn drops_from_last_user_only() {
    let items = [
        user_msg("u1"),
        assistant_msg("a1"),
        assistant_msg("a2"),
        user_msg("u2"),
        assistant_msg("a3"),
        ResponseItem::Reasoning {
            id: "r1".to_string(),
            summary: vec![ReasoningItemReasoningSummary::SummaryText { text: "s".to_string() }],
            content: None,
            encrypted_content: None,
        },
        ResponseItem::FunctionCall {
            id: None,
            name: "tool".to_string(),
            arguments: "{}".to_string(),
            call_id: "c1".to_string(),
            thought_signature: None,
        },
        assistant_msg("a4"),
    ];
    let marks = sent_by_user(&items);

    let truncated =
        truncate_before_nth_user_message(InitialHistory::Forked(rollout(&items)), &marks, 1);
    let got_items = truncated.get_rollout_items();
    let expected_items = vec![
        RolloutItem::ResponseItem(items[0].clone()),
        RolloutItem::ResponseItem(items[1].clone()),
        RolloutItem::ResponseItem(items[2].clone()),
    ];
    assert_eq!(got_items, expected_items);

    let truncated2 =
        truncate_before_nth_user_message(InitialHistory::Forked(rollout(&items)), &marks, 2);
    assert!(matches!(truncated2, InitialHistory::New));
}

#[test]
fn ignores_session_prefix_messages_when_truncating() {
    let mut items = vec![user_msg("<environment_context></environment_context>")];
    let mut marks = vec![false];
    items.push(user_msg("feature request"));
    items.push(assistant_msg("ack"));
    items.push(user_msg("second question"));
    items.push(assistant_msg("answer"));
    marks.extend([true, false, true, false]);

    let truncated =
        truncate_before_nth_user_message(InitialHistory::Forked(rollout(&items)), &marks, 1);
    let got_items = truncated.get_rollout_items();

    let expected = vec![
        RolloutItem::ResponseItem(items[0].clone()),
        RolloutItem::ResponseItem(items[1].clone()),
        RolloutItem::ResponseItem(items[2].clone()),
    ];
    assert_eq!(got_items, expected);
}

#[test]
fn a_cut_before_everything_is_a_new_history() {
    let items = [user_msg("u1"), assistant_msg("a1")];
    let marks = sent_by_user(&items);
    let cut =
        truncate_before_nth_user_message(InitialHistory::Resumed(rollout(&items)), &marks, 0);
    assert_eq!(cut, InitialHistory::New);
    assert_eq!(
        truncate_before_nth_user_message(InitialHistory::New, &vec![], 0),
        InitialHistory::New
    );
}

#[test]
fn only_messages_are_counted() {
    let items = vec![
        RolloutItem::Other(serde_json::Value::Null),
        RolloutItem::ResponseItem(user_msg("u1")),
        RolloutItem::ResponseItem(user_msg("u2")),
    ];
    let cut = truncate_before_nth_user_message(
        InitialHistory::Resumed(items.clone()),
        &vec![true, true, true],
        1,
    );
    assert_eq!(cut, InitialHistory::Forked(items[..2].to_vec()));
}

#[test]
fn a_conversation_is_held_until_it_is_removed() {
    let mut manager: ConversationManager<&str, u32> = ConversationManager::new(SessionSource::Cli);
    assert_eq!(manager.session_source(), SessionSource::Cli);
    assert_eq!(manager.get_conversation(5).err(), Some(CodexErr::ConversationNotFound(5)));
    assert_eq!(manager.subscribe_events(5).err(), Some(CodexErr::ConversationNotFound(5)));

    let made = manager
        .finalize_spawn(event("", Some(9)), "", 5, "conversation")
        .unwrap_or_else(|err| panic!("{err:?}"));
    assert_eq!(made.conversation_id, 5);
    assert_eq!(made.conversation, "conversation");
    assert_eq!(made.session_configured, 9);
    assert_eq!(manager.get_conversation(5), Ok(&"conversation"));
    assert_eq!(manager.subscribe_events(5), Ok((&"conversation", None)));

    manager.keep_dispatcher(5, 40);
    assert_eq!(manager.subscribe_events(5), Ok((&"conversation", Some(&40))));
    assert_eq!(manager.remove_conversation(6), (None, None));
    assert_eq!(manager.remove_conversation(5), (Some("conversation"), Some(40)));
    assert_eq!(manager.remove_conversation(5), (None, None));
    assert_eq!(manager.get_conversation(5).err(), Some(CodexErr::ConversationNotFound(5)));
}

#[test]
fn the_first_event_of_a_session_is_its_configuration() {
    let mut manager: ConversationManager<&str, u32> = ConversationManager::new(SessionSource::Cli);
    let wrong_id = manager.finalize_spawn(event("1", Some(9)), "", 5, "c");
    assert_eq!(wrong_id.err(), Some(CodexErr::SessionConfiguredNotFirstEvent));
    let other = manager.finalize_spawn(event("", None), "", 5, "c");
    assert_eq!(other.err(), Some(CodexErr::SessionConfiguredNotFirstEvent));
    assert!(manager.get_conversation(5).is_err());
}

#[test]
fn events_are_broadcast_until_the_end() {
    assert_eq!(dispatch(DispatcherInput::Event(7)), DispatcherAction::Broadcast(7));
    assert_eq!(dispatch(DispatcherInput::<u8>::Shutdown), DispatcherAction::Stop);
    assert_eq!(dispatch(DispatcherInput::<u8>::Failed), DispatcherAction::Stop);

    let inputs = vec![
        DispatcherInput::Event("a"),
        DispatcherInput::Event("b"),
        DispatcherInput::Failed,
        DispatcherInput::Event("c"),
    ];
    let mut passed_on = Vec::new();
    for input in inputs {
        match dispatch(input) {
            DispatcherAction::Broadcast(event) => passed_on.push(event),
            DispatcherAction::Stop => break,
        }
    }
    assert_eq!(passed_on, vec!["a", "b"]);
}

#[test]
fn subscribers_share_what_passes_on_the_events() {
    let mut manager: ConversationManager<&str, u32> = ConversationManager::new(SessionSource::Cli);
    manager.finalize_spawn(event("", Some(9)), "", 5, "five").unwrap_or_else(|err| panic!("{err:?}"));
    manager.keep_dispatcher(5, 40);
    assert_eq!(manager.subscribe_events(5), Ok((&"five", Some(&40))));

    manager.finalize_spawn(event("", Some(9)), "", 6, "six").unwrap_or_else(|err| panic!("{err:?}"));
    manager.keep_dispatcher(6, 60);
    assert_eq!(manager.remove_conversation(6), (Some("six"), Some(60)));
    manager.keep_dispatcher(5, 41);
    assert_eq!(manager.subscribe_events(5), Ok((&"five", Some(&40))));

    assert_eq!(manager.remove_conversation(5), (Some("five"), Some(40)));
    assert_eq!(manager.subscribe_events(5).err(), Some(CodexErr::ConversationNotFound(5)));
}

#[test]
fn a_plan_is_shown_as_it_is_given() {
    assert_eq!(PlanHandler.kind(), ToolKind::Function);
    let payload = ToolPayload::Function { arguments: "{}".to_string() };
    assert_eq!(PlanHandler.arguments_of(payload), Ok("{}".to_string()));
    let (shown, output) = PlanHandler.handle(Ok(plan())).unwrap_or_else(|err| panic!("{err:?}"));
    assert_eq!(shown, plan());
    assert_eq!(output.content, "Plan updated");
    assert_eq!(output.content_items, None);
    assert_eq!(output.success, Some(true));
    assert_eq!(handle_update_plan(Ok(plan())), Ok((plan(), "Plan updated".to_string())));
}

#[test]
fn a_plan_that_cannot_be_read_is_refused() {
    assert_eq!(
        PlanHandler.arguments_of(ToolPayload::Other),
        Err(FunctionCallError::RespondToModel(
            "update_plan handler received unsupported payload".to_string()
        ))
    );
    assert_eq!(
        PlanHandler.handle(Err("missing field".to_string())).err(),
        Some(FunctionCallError::RespondToModel(
            "failed to parse function arguments: missing field".to_string()
        ))
    );
}

#[test]
fn the_plan_tool_takes_steps() {
    let tool = plan_tool();
    assert_eq!(tool.name, "update_plan");
    assert!(!tool.strict);
    assert!(tool.description.ends_with("At most one step can be in_progress at a time."));
    match tool.parameters {
        JsonSchema::Object { properties, required, additional_properties } => {
            let names: Vec<_> = properties.iter().map(|(name, _)| name.as_str()).collect();
            assert_eq!(names, vec!["action_plan", "explanation", "plan"]);
            assert_eq!(properties[0].1, properties[2].1);
            assert_eq!(required, Some(vec!["action_plan".to_string()]));
            assert_eq!(additional_properties, Some(false));
        }
        other => panic!("unexpected schema {other:?}"),
    }
}
