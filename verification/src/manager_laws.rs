//! What a cut history keeps, what happens to the conversations in memory, and what the plan
//! tool says.
use crate::conversation_manager::{
    after_step, conversation_in, cut_before, dispatcher_in, is_nth_user_message, is_user_message, kept, starts_session,
    user_messages, InitialHistory, ManagerStep, ManagerView, RolloutItem,
};
use crate::plan::{
    arguments_in, is_plan_schema, is_plan_tool, plan_reply, refusal_words, JsonSchema,
    ResponsesApiTool, ToolPayload,
};
use crate::plan_tool::UpdatePlanArgs;
use vstd::prelude::*;

verus! {

/// The item is a message.
pub open spec fn is_message_item(item: RolloutItem) -> bool {
    item matches RolloutItem::ResponseItem(inner) && inner is Message
}

/// How many messages of a list a user sent.
pub open spec fn sent(items: Seq<RolloutItem>, marks: Seq<bool>) -> nat
    decreases items.len(),
{
    if items.len() == 0 {
        0
    } else {
        sent(items.drop_last(), marks) + if is_message_item(items.last()) && marks[items.len() - 1] {
            1nat
        } else {
            0
        }
    }
}

proof fn lemma_sent(items: Seq<RolloutItem>, marks: Seq<bool>, n: int)
    requires
        0 <= n <= items.len(),
    ensures
        user_messages(items, marks, n) == sent(items.take(n), marks),
    decreases n,
{
    if n > 0 {
        lemma_sent(items, marks, n - 1);
        assert(items.take(n).drop_last() =~= items.take(n - 1));
        assert(items.take(n).last() == items[n - 1]);
        assert(is_user_message(items, marks, n - 1) == (is_message_item(items[n - 1])
            && marks[n - 1]));
    }
}

proof fn lemma_sent_marks(items: Seq<RolloutItem>, a: Seq<bool>, b: Seq<bool>)
    requires
        forall|i: int| 0 <= i < items.len() ==> #[trigger] a[i] == b[i],
    ensures
        sent(items, a) == sent(items, b),
    decreases items.len(),
{
    if items.len() > 0 {
        lemma_sent_marks(items.drop_last(), a, b);
        assert(a[items.len() - 1] == b[items.len() - 1]);
    }
}

/// A history is cut strictly before the message of a user with a number, counted from zero:
/// all that stands before it is kept, and nothing from it on.
pub proof fn law_cut_is_before_the_message(
    before: Seq<RolloutItem>,
    message: RolloutItem,
    behind: Seq<RolloutItem>,
    marks: Seq<bool>,
)
    requires
        marks.len() == before.len() + 1 + behind.len(),
        is_message_item(message),
        marks[before.len() as int],
    ensures
        cut_before(before.push(message) + behind, marks, sent(before, marks)) == before,
{
    let items = before.push(message) + behind;
    let n = sent(before, marks);
    let at = before.len() as int;
    lemma_sent(items, marks, at);
    assert(items.take(at) =~= before);
    assert(items[at] == message);
    assert(is_nth_user_message(items, marks, n, at));
    let found = choose|p: int| is_nth_user_message(items, marks, n, p);
    assert(is_nth_user_message(items, marks, n, found));
    if found < at {
        lemma_count_grows(items, marks, found + 1, at);
    } else if found > at {
        lemma_count_grows(items, marks, at + 1, found);
    }
}

proof fn lemma_count_grows(items: Seq<RolloutItem>, marks: Seq<bool>, a: int, b: int)
    requires
        0 <= a <= b,
    ensures
        user_messages(items, marks, a) <= user_messages(items, marks, b),
    decreases b - a,
{
    if a < b {
        lemma_count_grows(items, marks, a, b - 1);
    }
}

/// Where a user sent no message with that number, nothing is kept.
pub proof fn law_nothing_is_kept_without_the_message(
    items: Seq<RolloutItem>,
    marks: Seq<bool>,
    n: nat,
)
    requires
        sent(items, marks) <= n,
    ensures
        cut_before(items, marks, n).len() == 0,
{
    if exists|at: int| is_nth_user_message(items, marks, n, at) {
        let at = choose|at: int| is_nth_user_message(items, marks, n, at);
        lemma_count_grows(items, marks, at + 1, items.len() as int);
        lemma_sent(items, marks, items.len() as int);
        assert(items.take(items.len() as int) =~= items);
    }
}

/// The items of a history are those it was made with; a new one has none.
pub proof fn law_items_of_a_history(items: Vec<RolloutItem>)
    ensures
        InitialHistory::Resumed(items).items() == items@,
        InitialHistory::Forked(items).items() == items@,
        InitialHistory::New.items().len() == 0,
{
}

/// A session is started by its configuration under the id of the first submission, and by
/// nothing else.
pub proof fn law_start_of_a_session(id: Seq<char>, other: Seq<char>)
    ensures
        starts_session(id, id, true),
        !starts_session(id, other, false),
        id != other ==> !starts_session(id, other, true),
{
}

/// Starting a session holds its conversation and touches no dispatcher. Subscribing keeps what
/// was started where nothing passed on the events before, and is no use without a conversation.
/// Removing a conversation removes what passes on its events too.
pub proof fn law_steps<C, D>(manager: ManagerView<C, D>, id: u128, conversation: C, started: D)
    ensures
        ({
            let after = after_step(manager, ManagerStep::Spawned { id, conversation });
            &&& after.held.contains_key(id)
            &&& after.held[id] == conversation
            &&& after.dispatchers == manager.dispatchers
        }),
        ({
            let after = after_step(manager, ManagerStep::Subscribed { id, started });
            &&& after.held == manager.held
            &&& manager.held.contains_key(id) ==> after.dispatchers.contains_key(id)
            &&& manager.held.contains_key(id) && !manager.dispatchers.contains_key(id)
                ==> after.dispatchers[id] == started
            &&& manager.dispatchers.contains_key(id) ==> after.dispatchers == manager.dispatchers
            &&& !manager.held.contains_key(id) ==> after.dispatchers == manager.dispatchers
        }),
        ({
            let after = after_step(manager, ManagerStep::<C, D>::Removed { id });
            &&& !after.held.contains_key(id)
            &&& manager.held.contains_key(id) ==> !after.dispatchers.contains_key(id)
            &&& !manager.held.contains_key(id) ==> after == manager
        }),
        kept(manager.dispatchers, id, started).contains_key(id),
        manager.dispatchers.contains_key(id) ==> kept(manager.dispatchers, id, started)
            == manager.dispatchers,
        !manager.dispatchers.contains_key(id) ==> kept(manager.dispatchers, id, started)[id]
            == started,
{
}

/// A conversation is found from when it is started until it is removed, and what passes on its
/// events from when somebody subscribed; one that is not held is not found.
pub proof fn law_what_is_found<C, D>(
    manager: ManagerView<C, D>,
    id: u128,
    conversation: C,
    started: D,
)
    ensures
        ({
            let spawned = after_step(manager, ManagerStep::Spawned { id, conversation });
            let subscribed = after_step(spawned, ManagerStep::Subscribed { id, started });
            let removed = after_step(subscribed, ManagerStep::Removed { id });
            &&& conversation_in(spawned, id) == Some(conversation)
            &&& conversation_in(subscribed, id) == Some(conversation)
            &&& dispatcher_in(subscribed, id) == Some(
                if manager.dispatchers.contains_key(id) {
                    manager.dispatchers[id]
                } else {
                    started
                },
            )
            &&& conversation_in(removed, id) is None
            &&& dispatcher_in(removed, id) is None
        }),
        conversation_in(manager, id) matches Some(c) ==> manager.held.contains_key(id)
            && manager.held[id] == c,
        conversation_in(manager, id) is None ==> !manager.held.contains_key(id) && dispatcher_in(
            manager,
            id,
        ) is None,
{
}

/// What happens to one conversation changes nothing about any other.
pub proof fn law_others_are_left_alone<C, D>(
    manager: ManagerView<C, D>,
    step: ManagerStep<C, D>,
    other: u128,
)
    requires
        step matches ManagerStep::Spawned { id, .. } ==> id != other,
        step matches ManagerStep::Subscribed { id, .. } ==> id != other,
        step matches ManagerStep::Removed { id } ==> id != other,
    ensures
        ({
            let after = after_step(manager, step);
            &&& after.held.contains_key(other) == manager.held.contains_key(other)
            &&& manager.held.contains_key(other) ==> after.held[other] == manager.held[other]
            &&& after.dispatchers.contains_key(other) == manager.dispatchers.contains_key(other)
            &&& manager.dispatchers.contains_key(other) ==> after.dispatchers[other]
                == manager.dispatchers[other]
        }),
{
}

/// A plan that was read is answered as it is, and one that was not with the reason.
pub proof fn law_plans_are_answered(plan: UpdatePlanArgs, reason: String)
    ensures
        plan_reply(Ok(plan)) == Ok::<UpdatePlanArgs, Seq<char>>(plan),
        plan_reply(Err(reason)) == Err::<UpdatePlanArgs, Seq<char>>(
            "failed to parse function arguments: "@ + reason@,
        ),
        refusal_words(reason@).skip("failed to parse function arguments: "@.len() as int)
            == reason@,
{
    assert(("failed to parse function arguments: "@ + reason@).skip(
        "failed to parse function arguments: "@.len() as int,
    ) =~= reason@);
}

/// A call of a function is answered by its own arguments, and any other call is refused.
pub proof fn law_arguments_of_a_call(arguments: String, input: String)
    ensures
        arguments_in(ToolPayload::Function { arguments }) == Ok::<Seq<char>, Seq<char>>(arguments@),
        arguments_in(ToolPayload::Custom { input }) == Err::<Seq<char>, Seq<char>>(
            "update_plan handler received unsupported payload"@,
        ),
        arguments_in(ToolPayload::Other) == arguments_in(ToolPayload::Custom { input }),
{
}

/// The model is told of the plan tool under its name, with what it is for and what it takes.
pub proof fn law_plan_tool(tool: ResponsesApiTool)
    requires
        is_plan_tool(tool),
    ensures
        tool.name@ == "update_plan"@,
        tool.description@
            == "Updates the task plan with structured thinking.\nRequires an action plan of steps with their tools and status.\nAt most one step can be in_progress at a time."@,
        !tool.strict,
        is_plan_schema(tool.parameters),
{
}

/// The schema asks for a string and says what it is for.
pub open spec fn asks_for_text(schema: JsonSchema, words: Seq<char>) -> bool {
    schema matches JsonSchema::String { description: Some(text) } && text@ == words
}

/// The schema asks for a list of steps: each with what to do, how far it has come, and the
/// tool for it where one is named; nothing else may stand in a step.
pub open spec fn asks_for_steps(schema: JsonSchema) -> bool {
    &&& schema matches JsonSchema::Array { items, description }
    &&& description matches Some(words) && words@
        == "Action steps with their intended tool and status"@
    &&& *items matches JsonSchema::Object { properties, required, additional_properties }
    &&& properties@.len() == 3
    &&& properties@[0].0@ == "status"@
    &&& asks_for_text(properties@[0].1, "One of: pending, in_progress, completed"@)
    &&& properties@[1].0@ == "step"@
    &&& asks_for_text(properties@[1].1, "The specific step to take."@)
    &&& properties@[2].0@ == "tool"@
    &&& asks_for_text(properties@[2].1, "Which tool to use for this step."@)
    &&& required matches Some(names) && names@.len() == 2 && names@[0]@ == "step"@ && names@[1]@
        == "status"@
    &&& additional_properties == Some(false)
}

/// The schema of a plan asks for its steps, under either of two names, of which the first is
/// owed, and takes a remark; nothing else may stand in a plan.
pub proof fn law_plan_schema(schema: JsonSchema)
    requires
        is_plan_schema(schema),
    ensures
        schema matches JsonSchema::Object { properties, required, additional_properties } && {
            &&& properties@.len() == 3
            &&& properties@[0].0@ == "action_plan"@
            &&& asks_for_steps(properties@[0].1)
            &&& properties@[1].0@ == "explanation"@
            &&& asks_for_text(properties@[1].1, "Optional context or notes."@)
            &&& properties@[2].0@ == "plan"@
            &&& asks_for_steps(properties@[2].1)
            &&& required matches Some(names) && names@.len() == 1 && names@[0]@ == "action_plan"@
            &&& additional_properties == Some(false)
        },
{
    if let JsonSchema::Object { properties, required, .. } = schema {
        lemma_steps(properties@[0].1);
        lemma_steps(properties@[2].1);
        let names = required->0;
        assert(names.deep_view() == seq!["action_plan"@]);
        assert(names@.len() == 1);
        assert(names.deep_view()[0] == names@[0]@);
    }
}

proof fn lemma_steps(schema: JsonSchema)
    requires
        crate::plan::is_action_plan_schema(schema),
    ensures
        asks_for_steps(schema),
{
    if let JsonSchema::Array { items, .. } = schema {
        if let JsonSchema::Object { required, .. } = *items {
            let names = required->0;
            assert(names.deep_view().len() == 2);
            assert(names.deep_view()[0] == names@[0]@ && names.deep_view()[1] == names@[1]@);
        }
    }
}

} // verus!
