//! The conversations that are held in memory, and cutting a history short.
use vstd::prelude::*;
use std::collections::HashMap;
use crate::protocol::{CodexErr, ErrView, ResponseItem, SessionSource};
use crate::text::text_eq;

verus! {

/// A line of a recorded session: an item of the conversation, or something else, held as the
/// JSON value that stands for it.
#[derive(Debug, Clone, PartialEq)]
pub enum RolloutItem {
    ResponseItem(ResponseItem),
    Other(serde_json::Value),
}

/// The history that a conversation starts with.
#[derive(Debug, Clone, PartialEq)]
pub enum InitialHistory {
    New,
    Resumed(Vec<RolloutItem>),
    Forked(Vec<RolloutItem>),
}

impl InitialHistory {
    /// The items of the history.
    pub open spec fn items(self) -> Seq<RolloutItem> {
        match self {
            InitialHistory::New => Seq::empty(),
            InitialHistory::Resumed(items) => items@,
            InitialHistory::Forked(items) => items@,
        }
    }

    /// The items of the history.
    pub fn get_rollout_items(self) -> (items: Vec<RolloutItem>)
        ensures
            items@ == self.items(),
    {
        match self {
            InitialHistory::New => Vec::new(),
            InitialHistory::Resumed(items) => items,
            InitialHistory::Forked(items) => items,
        }
    }
}

/// Item `at` is a message, and one that a user sent.
pub open spec fn is_user_message(
    items: Seq<RolloutItem>,
    sent_by_user: Seq<bool>,
    at: int,
) -> bool {
    items[at] matches RolloutItem::ResponseItem(item) && item is Message && sent_by_user[at]
}

/// How many of the first `n` items are messages of a user.
pub open spec fn user_messages(items: Seq<RolloutItem>, sent_by_user: Seq<bool>, n: int) -> nat
    decreases n,
{
    if n <= 0 {
        0
    } else {
        user_messages(items, sent_by_user, n - 1) + if is_user_message(
            items,
            sent_by_user,
            n - 1,
        ) {
            1nat
        } else {
            0
        }
    }
}

/// `at` is the position of the message of a user with number `n`, counted from zero.
pub open spec fn is_nth_user_message(
    items: Seq<RolloutItem>,
    sent_by_user: Seq<bool>,
    n: nat,
    at: int,
) -> bool {
    &&& 0 <= at < items.len()
    &&& is_user_message(items, sent_by_user, at)
    &&& user_messages(items, sent_by_user, at) == n
}

/// What is left of a history that is cut strictly before the message of a user with number
/// `n`: nothing where there is no such message.
pub open spec fn cut_before(
    items: Seq<RolloutItem>,
    sent_by_user: Seq<bool>,
    n: nat,
) -> Seq<RolloutItem> {
    if exists|at: int| is_nth_user_message(items, sent_by_user, n, at) {
        items.take(choose|at: int| is_nth_user_message(items, sent_by_user, n, at))
    } else {
        Seq::empty()
    }
}

proof fn lemma_user_messages_grow(
    items: Seq<RolloutItem>,
    sent_by_user: Seq<bool>,
    a: int,
    b: int,
)
    requires
        0 <= a <= b,
    ensures
        user_messages(items, sent_by_user, a) <= user_messages(items, sent_by_user, b),
    decreases b - a,
{
    if a < b {
        lemma_user_messages_grow(items, sent_by_user, a, b - 1);
    }
}

/// There is no more than one message with a number, and one with a higher number comes
/// behind it.
proof fn lemma_nth_is_ordered(
    items: Seq<RolloutItem>,
    sent_by_user: Seq<bool>,
    m: nat,
    n: nat,
    a: int,
    b: int,
)
    requires
        is_nth_user_message(items, sent_by_user, m, a),
        is_nth_user_message(items, sent_by_user, n, b),
    ensures
        m < n ==> a < b,
        m == n ==> a == b,
{
    if a < b {
        lemma_user_messages_grow(items, sent_by_user, a + 1, b);
    } else if b < a {
        lemma_user_messages_grow(items, sent_by_user, b + 1, a);
    }
}

/// Return a prefix of the history's items obtained by cutting strictly before the nth user
/// message (0-based) and all items that follow it. Which messages a user sent, the caller
/// knows: other messages carry the same role.
pub fn truncate_before_nth_user_message(
    history: InitialHistory,
    sent_by_user: &Vec<bool>,
    n: usize,
) -> (cut: InitialHistory)
    requires
        sent_by_user@.len() == history.items().len(),
    ensures
        cut.items() == cut_before(history.items(), sent_by_user@, n as nat),
        cut is New == (cut.items().len() == 0),
        cut is New || cut is Forked,
{
    let ghost all = history.items();
    let ghost marks = sent_by_user@;
    let mut items: Vec<RolloutItem> = history.get_rollout_items();
    let total: usize = items.len();
    let mut seen: usize = 0;
    for i in 0..total
        invariant
            items@ == all,
            all == history.items(),
            total == all.len(),
            marks == sent_by_user@,
            marks.len() == all.len(),
            seen == user_messages(all, marks, i as int),
            seen <= n,
            seen <= i,
            forall|at: int| 0 <= at < i ==> !is_nth_user_message(all, marks, n as nat, at),
    {
        let is_message: bool = match &items[i] {
            RolloutItem::ResponseItem(item) => match item {
                ResponseItem::Message { .. } => true,
                _ => false,
            },
            RolloutItem::Other(_) => false,
        };
        if is_message && sent_by_user[i] {
            proof {
                assert(is_user_message(all, marks, i as int));
            }
            if seen == n {
                proof {
                    assert(is_nth_user_message(all, marks, n as nat, i as int));
                    let at = choose|at: int| is_nth_user_message(all, marks, n as nat, at);
                    lemma_nth_is_ordered(all, marks, n as nat, n as nat, at, i as int);
                }
                items.truncate(i);
                proof {
                    assert(items@ =~= all.take(i as int));
                }
                if i == 0 {
                    return InitialHistory::New;
                }
                return InitialHistory::Forked(items);
            }
            seen = seen + 1;
        }
    }
    InitialHistory::New
}

/// A cut history is a beginning of the history, and it holds exactly as many messages of
/// users as were asked for, where it holds anything.
pub proof fn law_cut_keeps_the_beginning(
    items: Seq<RolloutItem>,
    sent_by_user: Seq<bool>,
    n: nat,
)
    ensures
        cut_before(items, sent_by_user, n).is_prefix_of(items),
        cut_before(items, sent_by_user, n).len() > 0 ==> user_messages(
            items,
            sent_by_user,
            cut_before(items, sent_by_user, n).len() as int,
        ) == n,
{
}

/// A history that is cut later keeps all that one that is cut earlier keeps.
pub proof fn law_later_cut_keeps_more(
    items: Seq<RolloutItem>,
    sent_by_user: Seq<bool>,
    m: nat,
    n: nat,
)
    requires
        m <= n,
        cut_before(items, sent_by_user, n).len() > 0,
    ensures
        cut_before(items, sent_by_user, m).is_prefix_of(cut_before(items, sent_by_user, n)),
{
    if exists|at: int| is_nth_user_message(items, sent_by_user, m, at) {
        let a = choose|at: int| is_nth_user_message(items, sent_by_user, m, at);
        let b = choose|at: int| is_nth_user_message(items, sent_by_user, n, at);
        lemma_nth_is_ordered(items, sent_by_user, m, n, a, b);
        assert(items.take(a) =~= items.take(b).take(a));
    }
}

/// The first event of a session.
pub struct SessionEvent<S> {
    pub id: String,
    /// The configuration of the session, where the event holds it.
    pub configured: Option<S>,
}

/// The first event of a session starts it where it is its configuration, under the id of the
/// first submission.
pub open spec fn starts_session(id: Seq<char>, initial: Seq<char>, configured: bool) -> bool {
    configured && id == initial
}

/// Represents a newly created Codex conversation, including the first event
/// (which holds the configuration of the session).
pub struct NewConversation<C, S> {
    pub conversation_id: u128,
    pub conversation: C,
    pub session_configured: S,
}

/// Is responsible for maintaining the conversations in memory, with what passes on the events
/// of each.
pub struct ConversationManager<C, D> {
    conversations: HashMap<u128, C>,
    event_dispatchers: HashMap<u128, D>,
    session_source: SessionSource,
}

/// The conversations that are held, and what passes on the events of those that have
/// subscribers.
#[verifier::ext_equal]
#[verifier::reject_recursive_types(C)]
#[verifier::reject_recursive_types(D)]
pub struct ManagerView<C, D> {
    pub held: Map<u128, C>,
    pub dispatchers: Map<u128, D>,
}

/// What happens to a manager.
pub enum ManagerStep<C, D> {
    /// A session was started.
    Spawned { id: u128, conversation: C },
    /// Somebody subscribed to a conversation; what would pass on its events is this, where
    /// nothing does so yet.
    Subscribed { id: u128, started: D },
    /// A conversation was removed.
    Removed { id: u128 },
}

/// What passes on the events of a conversation is kept where nothing did so before.
pub open spec fn kept<D>(dispatchers: Map<u128, D>, id: u128, started: D) -> Map<u128, D> {
    if dispatchers.contains_key(id) {
        dispatchers
    } else {
        dispatchers.insert(id, started)
    }
}

/// A manager once that happened.
pub open spec fn after_step<C, D>(
    manager: ManagerView<C, D>,
    step: ManagerStep<C, D>,
) -> ManagerView<C, D> {
    match step {
        ManagerStep::Spawned { id, conversation } => ManagerView {
            held: manager.held.insert(id, conversation),
            dispatchers: manager.dispatchers,
        },
        ManagerStep::Subscribed { id, started } => if manager.held.contains_key(id) {
            ManagerView {
                held: manager.held,
                dispatchers: kept(manager.dispatchers, id, started),
            }
        } else {
            manager
        },
        ManagerStep::Removed { id } => if manager.held.contains_key(id) {
            ManagerView {
                held: manager.held.remove(id),
                dispatchers: manager.dispatchers.remove(id),
            }
        } else {
            manager
        },
    }
}

/// A manager once all that happened, one after the other.
pub open spec fn after_steps<C, D>(
    manager: ManagerView<C, D>,
    steps: Seq<ManagerStep<C, D>>,
) -> ManagerView<C, D>
    decreases steps.len(),
{
    if steps.len() == 0 {
        manager
    } else {
        after_step(after_steps(manager, steps.drop_last()), steps.last())
    }
}

/// The step neither removes the conversation nor holds another one under its id.
pub open spec fn leaves_alone<C, D>(step: ManagerStep<C, D>, id: u128) -> bool {
    match step {
        ManagerStep::Spawned { id: other, .. } => other != id,
        ManagerStep::Subscribed { .. } => true,
        ManagerStep::Removed { id: other } => other != id,
    }
}

/// The conversation with an id, where it is held.
pub open spec fn conversation_in<C, D>(manager: ManagerView<C, D>, id: u128) -> Option<C> {
    if manager.held.contains_key(id) {
        Some(manager.held[id])
    } else {
        None
    }
}

/// What passes on the events of a conversation that is held, where anything does.
pub open spec fn dispatcher_in<C, D>(manager: ManagerView<C, D>, id: u128) -> Option<D> {
    if manager.held.contains_key(id) && manager.dispatchers.contains_key(id) {
        Some(manager.dispatchers[id])
    } else {
        None
    }
}

/// What a subscription is answered: the conversation and what passes on its events, and
/// nothing where there is no such conversation.
pub open spec fn subscription<C, D>(manager: ManagerView<C, D>, id: u128, started: D) -> Option<
    (C, D),
> {
    if manager.held.contains_key(id) {
        Some(
            (
                manager.held[id],
                after_step(manager, ManagerStep::Subscribed { id, started }).dispatchers[id],
            ),
        )
    } else {
        None
    }
}

impl<C, D> ConversationManager<C, D> {
    /// The conversations, by their ids.
    pub closed spec fn held(&self) -> Map<u128, C> {
        self.conversations@
    }

    /// What passes on the events of each conversation that has subscribers.
    pub closed spec fn dispatchers(&self) -> Map<u128, D> {
        self.event_dispatchers@
    }

    /// The conversations and what passes on their events.
    pub open spec fn contents(&self) -> ManagerView<C, D> {
        ManagerView { held: self.held(), dispatchers: self.dispatchers() }
    }

    /// Where the sessions are started from.
    pub closed spec fn source(&self) -> SessionSource {
        self.session_source
    }

    /// No conversations are held.
    pub fn new(session_source: SessionSource) -> (manager: Self)
        ensures
            manager.held() == Map::<u128, C>::empty(),
            manager.dispatchers() == Map::<u128, D>::empty(),
            manager.source() == session_source,
    {
        ConversationManager {
            conversations: HashMap::new(),
            event_dispatchers: HashMap::new(),
            session_source,
        }
    }

    /// Where the sessions are started from.
    pub fn session_source(&self) -> (source: SessionSource)
        ensures
            source == self.source(),
    {
        self.session_source
    }

    /// A session was started: its conversation is held, and a clone of it handed out, where its
    /// first event, under the id of the first submission, is its configuration.
    pub fn finalize_spawn<S>(
        &mut self,
        event: SessionEvent<S>,
        initial_submit_id: &str,
        conversation_id: u128,
        conversation: C,
    ) -> (spawned: Result<NewConversation<C, S>, CodexErr>) where C: Clone
        ensures
            final(self).source() == old(self).source(),
            spawned is Ok == (event.configured is Some && event.id@ == initial_submit_id@),
            spawned is Ok == starts_session(
                event.id@,
                initial_submit_id@,
                event.configured is Some,
            ),
            (match spawned {
                Ok(made) => {
                    &&& made.conversation_id == conversation_id
                    &&& cloned(conversation, made.conversation)
                    &&& Some(made.session_configured) == event.configured
                    &&& final(self).contents() == after_step(
                        old(self).contents(),
                        ManagerStep::Spawned { id: conversation_id, conversation },
                    )
                },
                Err(err) => {
                    &&& err.deep_view() == ErrView::SessionConfiguredNotFirstEvent
                    &&& final(self).contents() == old(self).contents()
                },
            }),
    {
        if !text_eq(event.id.as_str(), initial_submit_id) {
            return Err(CodexErr::SessionConfiguredNotFirstEvent);
        }
        match event.configured {
            Some(session_configured) => {
                let handle: C = conversation.clone();
                self.conversations.insert(conversation_id, conversation);
                Ok(
                    NewConversation { conversation_id, conversation: handle, session_configured },
                )
            },
            None => Err(CodexErr::SessionConfiguredNotFirstEvent),
        }
    }

    /// The conversation with an id.
    pub fn get_conversation(&self, conversation_id: u128) -> (found: Result<&C, CodexErr>)
        ensures
            (match found {
                Ok(conversation) => self.held().contains_key(conversation_id) && *conversation
                    == self.held()[conversation_id],
                Err(err) => !self.held().contains_key(conversation_id) && err.deep_view()
                    == ErrView::ConversationNotFound(conversation_id),
            }),
            conversation_in(self.contents(), conversation_id) == (match found {
                Ok(conversation) => Some(*conversation),
                Err(_) => None,
            }),
    {
        match self.conversations.get(&conversation_id) {
            Some(conversation) => Ok(conversation),
            None => Err(CodexErr::ConversationNotFound(conversation_id)),
        }
    }

    /// The conversation with an id, and what passes on its events, where that was started.
    pub fn subscribe_events(&self, conversation_id: u128) -> (found: Result<
        (&C, Option<&D>),
        CodexErr,
    >)
        ensures
            (match found {
                Ok((conversation, dispatcher)) => {
                    &&& self.held().contains_key(conversation_id)
                    &&& *conversation == self.held()[conversation_id]
                    &&& dispatcher is Some == self.dispatchers().contains_key(conversation_id)
                    &&& dispatcher matches Some(d) ==> *d == self.dispatchers()[conversation_id]
                },
                Err(err) => !self.held().contains_key(conversation_id) && err.deep_view()
                    == ErrView::ConversationNotFound(conversation_id),
            }),
            conversation_in(self.contents(), conversation_id) == (match found {
                Ok((conversation, _)) => Some(*conversation),
                Err(_) => None,
            }),
            dispatcher_in(self.contents(), conversation_id) == (match found {
                Ok((_, Some(dispatcher))) => Some(*dispatcher),
                _ => None,
            }),
    {
        match self.get_conversation(conversation_id) {
            Ok(conversation) => Ok((conversation, self.event_dispatchers.get(&conversation_id))),
            Err(err) => Err(err),
        }
    }

    /// Keep what passes on the events of a conversation, where nothing did so before.
    pub fn keep_dispatcher(&mut self, conversation_id: u128, dispatcher: D)
        ensures
            final(self).held() == old(self).held(),
            final(self).source() == old(self).source(),
            final(self).dispatchers() == kept(
                old(self).dispatchers(),
                conversation_id,
                dispatcher,
            ),
    {
        if !self.event_dispatchers.contains_key(&conversation_id) {
            self.event_dispatchers.insert(conversation_id, dispatcher);
        }
    }

    /// Removes the conversation from the manager's internal map. Returns the conversation if
    /// it was found and removed, and with it what passed on its events, which is to be shut
    /// down.
    pub fn remove_conversation(&mut self, conversation_id: u128) -> (removed: (
        Option<C>,
        Option<D>,
    ))
        ensures
            final(self).source() == old(self).source(),
            final(self).contents() == after_step(
                old(self).contents(),
                ManagerStep::Removed { id: conversation_id },
            ),
            removed.0 == (if old(self).held().contains_key(conversation_id) {
                Some(old(self).held()[conversation_id])
            } else {
                None
            }),
            removed.1 == (if old(self).held().contains_key(conversation_id) && old(
                self,
            ).dispatchers().contains_key(conversation_id) {
                Some(old(self).dispatchers()[conversation_id])
            } else {
                None
            }),
            removed.0 == conversation_in(old(self).contents(), conversation_id),
            removed.1 == dispatcher_in(old(self).contents(), conversation_id),
    {
        let conversation: Option<C> = self.conversations.remove(&conversation_id);
        let dispatcher: Option<D> = if conversation.is_some() {
            self.event_dispatchers.remove(&conversation_id)
        } else {
            None
        };
        (conversation, dispatcher)
    }
}

proof fn lemma_left_alone<C, D>(
    manager: ManagerView<C, D>,
    steps: Seq<ManagerStep<C, D>>,
    id: u128,
)
    requires
        forall|i: int| 0 <= i < steps.len() ==> leaves_alone(#[trigger] steps[i], id),
    ensures
        ({
            let after = after_steps(manager, steps);
            &&& after.held.contains_key(id) == manager.held.contains_key(id)
            &&& manager.held.contains_key(id) ==> after.held[id] == manager.held[id]
            &&& manager.dispatchers.contains_key(id) ==> after.dispatchers.contains_key(id)
                && after.dispatchers[id] == manager.dispatchers[id]
        }),
    decreases steps.len(),
{
    if steps.len() > 0 {
        let before = steps.drop_last();
        assert forall|i: int| 0 <= i < before.len() implies leaves_alone(
            #[trigger] before[i],
            id,
        ) by {
            assert(before[i] == steps[i]);
        }
        lemma_left_alone(manager, before, id);
        assert(leaves_alone(steps[steps.len() - 1], id));
    }
}

/// A conversation is found from when it is held until it is removed, whatever happens to
/// others in between.
pub proof fn law_held_until_removed<C, D>(
    manager: ManagerView<C, D>,
    id: u128,
    conversation: C,
    steps: Seq<ManagerStep<C, D>>,
)
    requires
        forall|i: int| 0 <= i < steps.len() ==> leaves_alone(#[trigger] steps[i], id),
    ensures
        ({
            let spawned = after_step(manager, ManagerStep::Spawned { id, conversation });
            let later = after_steps(spawned, steps);
            &&& later.held.contains_key(id)
            &&& later.held[id] == conversation
            &&& !after_step(later, ManagerStep::Removed { id }).held.contains_key(id)
        }),
{
    lemma_left_alone(
        after_step(manager, ManagerStep::Spawned { id, conversation }),
        steps,
        id,
    );
}

/// All who subscribe to a conversation before it is removed are given the same conversation,
/// and all their events come from one place, whatever happens to others in between.
pub proof fn law_subscribers_share_a_dispatcher<C, D>(
    manager: ManagerView<C, D>,
    id: u128,
    first: D,
    steps: Seq<ManagerStep<C, D>>,
    second: D,
)
    requires
        forall|i: int| 0 <= i < steps.len() ==> leaves_alone(#[trigger] steps[i], id),
    ensures
        ({
            let subscribed = after_step(manager, ManagerStep::Subscribed { id, started: first });
            let later = after_steps(subscribed, steps);
            &&& subscription(later, id, second) == subscription(manager, id, first)
            &&& subscription(manager, id, first) is None == !manager.held.contains_key(id)
        }),
{
    lemma_left_alone(
        after_step(manager, ManagerStep::Subscribed { id, started: first }),
        steps,
        id,
    );
}

/// Once a conversation is removed, nothing passes on its events any more.
pub proof fn law_removed_has_no_dispatcher<C, D>(manager: ManagerView<C, D>, id: u128)
    requires
        manager.held.contains_key(id),
    ensures
        !after_step(manager, ManagerStep::Removed { id }).dispatchers.contains_key(id),
{
}

/// What happened to a conversation whose events are passed on.
#[derive(Debug, Clone, PartialEq, Eq)]
pub enum DispatcherInput<E> {
    /// The conversation was removed.
    Shutdown,
    /// It had an event.
    Event(E),
    /// It can have no more events.
    Failed,
}

/// What is done about it.
#[derive(Debug, Clone, PartialEq, Eq)]
pub enum DispatcherAction<E> {
    /// Pass on the event to those who subscribed, be there any or none.
    Broadcast(E),
    /// Pass on no more events.
    Stop,
}

/// An event is passed on, and anything else is the end.
pub open spec fn action_on<E>(input: DispatcherInput<E>) -> DispatcherAction<E> {
    match input {
        DispatcherInput::Event(event) => DispatcherAction::Broadcast(event),
        _ => DispatcherAction::Stop,
    }
}

/// Decide what is done about the events of a conversation.
pub fn dispatch<E>(input: DispatcherInput<E>) -> (action: DispatcherAction<E>)
    ensures
        action == action_on(input),
{
    match input {
        DispatcherInput::Event(event) => DispatcherAction::Broadcast(event),
        DispatcherInput::Shutdown | DispatcherInput::Failed => DispatcherAction::Stop,
    }
}

/// The events that are passed on, in order, until the end.
pub open spec fn passed_on<E>(inputs: Seq<DispatcherInput<E>>) -> Seq<E>
    decreases inputs.len(),
{
    if inputs.len() == 0 {
        Seq::empty()
    } else {
        match action_on(inputs[0]) {
            DispatcherAction::Broadcast(event) => seq![event] + passed_on(inputs.skip(1)),
            DispatcherAction::Stop => Seq::empty(),
        }
    }
}

/// Each event is passed on once, in the order in which it came, up to the end and no further.
pub proof fn law_events_are_passed_on<E>(inputs: Seq<DispatcherInput<E>>)
    ensures
        passed_on(inputs).len() <= inputs.len(),
        forall|i: int|
            0 <= i < passed_on(inputs).len() ==> inputs[i] == DispatcherInput::Event(
                #[trigger] passed_on(inputs)[i],
            ),
        passed_on(inputs).len() < inputs.len() ==> !(
        inputs[passed_on(inputs).len() as int] is Event),
    decreases inputs.len(),
{
    if inputs.len() > 0 {
        if let DispatcherInput::Event(event) = inputs[0] {
            let rest = inputs.skip(1);
            law_events_are_passed_on(rest);
            assert forall|i: int| 0 <= i < passed_on(inputs).len() implies inputs[i]
                == DispatcherInput::Event(#[trigger] passed_on(inputs)[i]) by {
                if i > 0 {
                    assert(passed_on(inputs)[i] == passed_on(rest)[i - 1]);
                    assert(rest[i - 1] == inputs[i]);
                }
            }
            if passed_on(inputs).len() < inputs.len() {
                assert(rest[passed_on(rest).len() as int] == inputs[passed_on(inputs).len()
                    as int]);
            }
        }
    }
}

/// What is passed on behind the second of two subscriptions is the end of what is passed on
/// behind the first, in the same order: no subscriber takes an event from another.
pub proof fn law_later_subscribers_miss_only_the_beginning<E>(
    inputs: Seq<DispatcherInput<E>>,
    first: int,
    second: int,
)
    requires
        0 <= first <= second <= inputs.len(),
        forall|i: int| first <= i < second ==> (#[trigger] inputs[i]) is Event,
    ensures
        passed_on(inputs.skip(first)) == passed_on(inputs.subrange(first, second)) + passed_on(
            inputs.skip(second),
        ),
        passed_on(inputs.subrange(first, second)).len() == second - first,
    decreases second - first,
{
    let between = inputs.subrange(first, second);
    if first == second {
        assert(passed_on(between) =~= Seq::empty());
        assert(passed_on(inputs.skip(first)) =~= passed_on(between) + passed_on(
            inputs.skip(second),
        ));
    } else {
        law_later_subscribers_miss_only_the_beginning(inputs, first + 1, second);
        assert(inputs.skip(first)[0] == inputs[first] && between[0] == inputs[first]);
        assert(inputs.skip(first).skip(1) =~= inputs.skip(first + 1));
        assert(between.skip(1) =~= inputs.subrange(first + 1, second));
        assert(passed_on(inputs.skip(first)) =~= passed_on(between) + passed_on(
            inputs.skip(second),
        ));
    }
}

} // verus!
