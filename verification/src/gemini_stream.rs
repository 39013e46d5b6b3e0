//! What a model says, as it comes in: the parts of an answer become the events of a turn.
use vstd::prelude::*;
use vstd::string::*;
use crate::gemini_models::{CallView, ContentView, FunctionCall, Part, PartView, UsageMetadata};
use crate::gemini::{call_args, contents_of, empty_part, entry_of, text_part};
use crate::json::{is_plain, json_of, json_parsed, json_text, json_write, JsonModel};
use crate::lists::lemma_push_deep_view;
use crate::protocol::{
    copy_text, ContentItem, ContentItemView, EventView, ItemView, ResponseEvent, ResponseItem,
    TokenUsage,
};
use crate::text::{decimal, decimal_text, law_decimal_injective};

verus! {

/// The message that is being told: its text so far, whether it was announced, and the
/// signature that came with it.
pub struct GeminiTextState {
    pub buffer: String,
    pub active: bool,
    pub thought_signature: Option<String>,
}

/// The message that is being told, in mathematical form.
pub struct TextView {
    pub buffer: Seq<char>,
    pub active: bool,
    pub thought_signature: Option<Seq<char>>,
}

impl DeepView for GeminiTextState {
    type V = TextView;

    open spec fn deep_view(&self) -> TextView {
        TextView {
            buffer: self.buffer@,
            active: self.active,
            thought_signature: self.thought_signature.deep_view(),
        }
    }
}

/// What was said so far: the message that is being told, and the events.
pub struct Said {
    pub text: TextView,
    pub events: Seq<EventView>,
}

/// No message is being told.
pub open spec fn silent() -> TextView {
    TextView { buffer: Seq::empty(), active: false, thought_signature: None }
}

/// A message of the assistant.
pub open spec fn assistant_message(text: Seq<char>, signature: Option<Seq<char>>) -> ItemView {
    ItemView::Message {
        id: None,
        role: "assistant"@,
        content: seq![ContentItemView::OutputText { text }],
        thought_signature: signature,
    }
}

/// A signature replaces the one before it; no signature changes nothing.
pub open spec fn noted(text: TextView, signature: Option<Seq<char>>) -> TextView {
    if signature is Some {
        TextView { thought_signature: signature, ..text }
    } else {
        text
    }
}

/// A message is announced, empty, unless one is being told.
pub open spec fn started(said: Said) -> Said {
    if said.text.active {
        said
    } else {
        Said {
            text: TextView { active: true, ..said.text },
            events: said.events.push(
                EventView::OutputItemAdded(assistant_message(Seq::empty(), None)),
            ),
        }
    }
}

/// More text of the message; no text changes nothing.
pub open spec fn pushed(said: Said, text: Seq<char>) -> Said {
    if text.len() == 0 {
        said
    } else {
        let told = started(said);
        Said {
            text: TextView { buffer: told.text.buffer + text, ..told.text },
            events: told.events.push(EventView::OutputTextDelta(text)),
        }
    }
}

/// The message that is being told is done.
pub open spec fn flushed(said: Said) -> Said {
    if !said.text.active {
        said
    } else {
        Said {
            text: silent(),
            events: said.events.push(
                EventView::OutputItemDone(
                    assistant_message(said.text.buffer, said.text.thought_signature),
                ),
            ),
        }
    }
}

fn new_message(text: String, thought_signature: Option<String>) -> (item: ResponseItem)
    ensures
        item.deep_view() == assistant_message(text@, thought_signature.deep_view()),
{
    let mut content: Vec<ContentItem> = Vec::new();
    let ghost view = text@;
    content.push(ContentItem::OutputText { text });
    proof {
        assert(content.deep_view() =~= seq![ContentItemView::OutputText { text: view }]);
    }
    ResponseItem::Message { id: None, role: "assistant".to_owned(), content, thought_signature }
}

/// Add an event to those that were given out.
pub(crate) fn emit(out: &mut Vec<ResponseEvent>, event: ResponseEvent)
    ensures
        final(out).deep_view() == old(out).deep_view().push(event.deep_view()),
{
    out.push(event);
    proof {
        lemma_push_deep_view(*old(out), event, *out);
    }
}

impl Default for GeminiTextState {
    fn default() -> (state: Self)
        ensures
            state.deep_view() == silent(),
    {
        let state: GeminiTextState = GeminiTextState {
            buffer: String::new(),
            active: false,
            thought_signature: None,
        };
        proof {
            assert(state.buffer@ =~= Seq::empty());
        }
        state
    }
}

impl GeminiTextState {
    /// The state together with the events that were given out.
    pub open spec fn with(self, out: Seq<EventView>) -> Said {
        Said { text: self.deep_view(), events: out }
    }

    /// Keep a signature for the message.
    pub fn note_thought_signature(&mut self, thought_signature: Option<String>)
        ensures
            final(self).deep_view() == noted(old(self).deep_view(), thought_signature.deep_view()),
    {
        if let Some(sig) = thought_signature {
            self.thought_signature = Some(sig);
        }
    }

    /// Announce the message.
    pub fn ensure_started(&mut self, out: &mut Vec<ResponseEvent>)
        ensures
            final(self).with(final(out).deep_view()) == started(
                old(self).with(old(out).deep_view()),
            ),
    {
        if self.active {
            return;
        }
        let text: String = String::new();
        proof {
            assert(text@ =~= Seq::empty());
        }
        emit(out, ResponseEvent::OutputItemAdded(new_message(text, None)));
        self.active = true;
    }

    /// Give out more text of the message.
    pub fn push_text(&mut self, out: &mut Vec<ResponseEvent>, text: &str)
        ensures
            final(self).with(final(out).deep_view()) == pushed(
                old(self).with(old(out).deep_view()),
                text@,
            ),
    {
        if text.unicode_len() == 0 {
            return;
        }
        if !self.active {
            self.ensure_started(out);
        }
        self.buffer.append(text);
        emit(out, ResponseEvent::OutputTextDelta(text.to_owned()));
    }

    /// Give out the whole message, where one was announced.
    pub fn flush(&mut self, out: &mut Vec<ResponseEvent>)
        ensures
            final(self).with(final(out).deep_view()) == flushed(
                old(self).with(old(out).deep_view()),
            ),
    {
        if !self.active {
            return;
        }
        let mut text: String = String::new();
        proof {
            assert(text@ =~= Seq::empty());
        }
        std::mem::swap(&mut text, &mut self.buffer);
        let mut thought_signature: Option<String> = None;
        std::mem::swap(&mut thought_signature, &mut self.thought_signature);
        self.active = false;
        emit(out, ResponseEvent::OutputItemDone(new_message(text, thought_signature)));
    }
}

/// The numbers of the calls: the next one.
pub struct GeminiCallTracker {
    pub next: usize,
}

/// The id of the call with this number.
pub open spec fn call_id_of(number: nat) -> Seq<char> {
    "gemini_call_"@ + decimal(number)
}

impl Default for GeminiCallTracker {
    fn default() -> (tracker: Self)
        ensures
            tracker.next == 1,
    {
        GeminiCallTracker { next: 1 }
    }
}

impl GeminiCallTracker {
    /// The id of the next call.
    pub fn next_call_id(&mut self) -> (id: String)
        requires
            old(self).next < usize::MAX,
        ensures
            id@ == call_id_of(old(self).next as nat),
            final(self).next == old(self).next + 1,
    {
        let current: usize = self.next;
        self.next = current + 1;
        let mut id: String = "gemini_call_".to_owned();
        id.append(decimal_text(current).as_str());
        id
    }
}

/// No two calls have the same id.
pub proof fn law_call_ids_differ(a: nat, b: nat)
    requires
        call_id_of(a) == call_id_of(b),
    ensures
        a == b,
{
    let prefix = "gemini_call_"@;
    assert(call_id_of(a).skip(prefix.len() as int) =~= decimal(a));
    assert(call_id_of(b).skip(prefix.len() as int) =~= decimal(b));
    law_decimal_injective(a, b);
}

/// A turn so far: what was said, and the number of the next call.
pub struct Turn {
    pub said: Said,
    pub next: nat,
}

/// The arguments of a call as text: the JSON text of their tree, or that of an empty object.
pub open spec fn arguments_text(args: JsonModel) -> Seq<char> {
    match json_text(args) {
        Some(text) => text,
        None => "{}"@,
    }
}

/// The item that a call becomes.
pub open spec fn call_item(call: CallView, number: nat, signature: Option<Seq<char>>) -> ItemView {
    ItemView::FunctionCall {
        id: None,
        name: call.name,
        arguments: arguments_text(call.args),
        call_id: call_id_of(number),
        thought_signature: signature,
    }
}

/// The turn behind what a part says in words: its text, or its signature alone.
pub open spec fn after_words(said: Said, part: PartView) -> Said {
    let with_signature = Said { text: noted(said.text, part.thought_signature), ..said };
    match part.text {
        Some(text) => pushed(with_signature, text),
        None => if part.thought_signature is Some {
            started(with_signature)
        } else {
            said
        },
    }
}

/// The turn behind one more part: its words, and then its call. A call ends the message that
/// is being told.
pub open spec fn after_part(turn: Turn, part: PartView) -> Turn {
    let told = after_words(turn.said, part);
    match part.function_call {
        Some(call) => Turn {
            said: Said {
                events: flushed(told).events.push(
                    EventView::OutputItemDone(call_item(call, turn.next, part.thought_signature)),
                ),
                ..flushed(told)
            },
            next: turn.next + 1,
        },
        None => Turn { said: told, next: turn.next },
    }
}

/// The turn behind a list of parts.
pub open spec fn after_parts(turn: Turn, parts: Seq<PartView>) -> Turn
    decreases parts.len(),
{
    if parts.len() == 0 {
        turn
    } else {
        after_part(after_parts(turn, parts.drop_last()), parts.last())
    }
}

/// How many calls a list of parts makes.
pub open spec fn call_count(parts: Seq<PartView>) -> nat
    decreases parts.len(),
{
    if parts.len() == 0 {
        0
    } else {
        call_count(parts.drop_last()) + if parts.last().function_call is Some {
            1nat
        } else {
            0
        }
    }
}

pub proof fn lemma_next_after_parts(turn: Turn, parts: Seq<PartView>)
    ensures
        after_parts(turn, parts).next == turn.next + call_count(parts),
    decreases parts.len(),
{
    if parts.len() > 0 {
        lemma_next_after_parts(turn, parts.drop_last());
    }
}

pub proof fn lemma_call_count_prefix(parts: Seq<PartView>, n: int)
    requires
        0 <= n <= parts.len(),
    ensures
        call_count(parts.take(n)) <= call_count(parts),
    decreases parts.len(),
{
    if n == parts.len() {
        assert(parts.take(n) =~= parts);
    } else {
        lemma_call_count_prefix(parts.drop_last(), n);
        assert(parts.drop_last().take(n) =~= parts.take(n));
    }
}

/// The arguments of a call can be read back from the text that stands for them.
pub open spec fn survives(args: JsonModel) -> bool {
    json_parsed(arguments_text(args)) == Some(args)
}

/// Give out a call. Arguments that are plain can be read back from its item.
pub fn emit_function_call(
    out: &mut Vec<ResponseEvent>,
    call: &FunctionCall,
    call_id: &str,
    thought_signature: Option<String>,
)
    ensures
        final(out).deep_view() == old(out).deep_view().push(
            EventView::OutputItemDone(
                ItemView::FunctionCall {
                    id: None,
                    name: call.name@,
                    arguments: arguments_text(json_of(call.args)),
                    call_id: call_id@,
                    thought_signature: thought_signature.deep_view(),
                },
            ),
        ),
        is_plain(json_of(call.args)) ==> survives(json_of(call.args)),
{
    let arguments: String = match json_write(&call.args) {
        Some(text) => text,
        None => "{}".to_owned(),
    };
    let item: ResponseItem = ResponseItem::FunctionCall {
        id: None,
        name: call.name.clone(),
        arguments,
        call_id: call_id.to_owned(),
        thought_signature,
    };
    emit(out, ResponseEvent::OutputItemDone(item));
}

/// The turn so far, as its three pieces hold it.
pub open spec fn turn_of(
    text: GeminiTextState,
    tracker: GeminiCallTracker,
    out: Seq<EventView>,
) -> Turn {
    Turn { said: text.with(out), next: tracker.next as nat }
}

/// The call of a part, where its arguments are plain, can be read back from its item.
pub open spec fn call_survives(part: PartView) -> bool {
    part.function_call matches Some(call) ==> is_plain(call.args) ==> survives(
        call.args,
    )
}

/// Give out what the parts of an answer say.
pub fn process_parts(
    parts: &Vec<Part>,
    out: &mut Vec<ResponseEvent>,
    text_state: &mut GeminiTextState,
    call_tracker: &mut GeminiCallTracker,
)
    requires
        old(call_tracker).next + call_count(parts.deep_view()) <= usize::MAX,
    ensures
        turn_of(*final(text_state), *final(call_tracker), final(out).deep_view()) == after_parts(
            turn_of(*old(text_state), *old(call_tracker), old(out).deep_view()),
            parts.deep_view(),
        ),
        forall|i: int|
            0 <= i < parts@.len() ==> call_survives((#[trigger] parts@[i]).deep_view()),
{
    let ghost views = parts.deep_view();
    let ghost first = turn_of(*text_state, *call_tracker, out.deep_view());
    let total: usize = parts.len();
    for i in 0..total
        invariant
            total == parts@.len(),
            views == parts.deep_view(),
            first.next + call_count(views) <= usize::MAX,
            turn_of(*text_state, *call_tracker, out.deep_view()) == after_parts(
                first,
                views.take(i as int),
            ),
            forall|k: int| 0 <= k < i ==> call_survives((#[trigger] parts@[k]).deep_view()),
    {
        proof {
            assert(views.take(i + 1).drop_last() =~= views.take(i as int));
            assert(views.take(i + 1).last() == parts@[i as int].deep_view());
            lemma_next_after_parts(first, views.take(i as int));
            lemma_call_count_prefix(views, i + 1);
        }
        let part: &Part = &parts[i];
        if let Some(text) = &part.text {
            text_state.note_thought_signature(copy_text(&part.thought_signature));
            text_state.push_text(out, text.as_str());
        } else if part.thought_signature.is_some() {
            text_state.note_thought_signature(copy_text(&part.thought_signature));
            text_state.ensure_started(out);
        }
        if let Some(call) = &part.function_call {
            text_state.flush(out);
            let call_id: String = call_tracker.next_call_id();
            emit_function_call(out, call, call_id.as_str(), copy_text(&part.thought_signature));
        }
    }
    proof {
        assert(views.take(total as int) =~= views);
    }
}

/// The number of output tokens that is counted.
pub open spec fn output_count(meta: UsageMetadata) -> i64 {
    match meta.candidates_token_count {
        Some(n) => n,
        None => 0,
    }
}

/// Input and output together can be counted.
pub open spec fn usage_fits(meta: UsageMetadata) -> bool {
    meta.prompt_token_count matches Some(input) ==> i64::MIN <= input + output_count(meta)
        <= i64::MAX
}

/// The tokens that a request took: none known unless its input was counted. Where no total
/// is given, it is that of input and output.
pub open spec fn usage_of(meta: UsageMetadata) -> Option<TokenUsage> {
    match meta.prompt_token_count {
        Some(input) => Some(
            TokenUsage {
                input_tokens: input,
                cached_input_tokens: 0,
                output_tokens: output_count(meta),
                reasoning_output_tokens: match meta.thoughts_token_count {
                    Some(n) => n,
                    None => 0,
                },
                total_tokens: match meta.total_token_count {
                    Some(n) => n,
                    None => (input + output_count(meta)) as i64,
                },
            },
        ),
        None => None,
    }
}

/// Read the tokens that a request took.
pub fn usage_from_metadata(meta: &UsageMetadata) -> (usage: Option<TokenUsage>)
    requires
        usage_fits(*meta),
    ensures
        usage == usage_of(*meta),
{
    let input: i64 = match meta.prompt_token_count {
        Some(n) => n,
        None => return None,
    };
    let output: i64 = match meta.candidates_token_count {
        Some(n) => n,
        None => 0,
    };
    let sum: i64 = input + output;
    let total: i64 = match meta.total_token_count {
        Some(n) => n,
        None => sum,
    };
    let reasoning: i64 = match meta.thoughts_token_count {
        Some(n) => n,
        None => 0,
    };
    Some(
        TokenUsage {
            input_tokens: input,
            cached_input_tokens: 0,
            output_tokens: output,
            reasoning_output_tokens: reasoning,
            total_tokens: total,
        },
    )
}

/// Reading the events of a turn in order: no message is open, or one is, with its text so
/// far; nothing where the events do not follow each other as they should. A message is
/// announced before its text comes, it is done with exactly the text that came, and nothing
/// else happens while it is open.
pub open spec fn told(events: Seq<EventView>) -> Option<Option<Seq<char>>>
    decreases events.len(),
{
    if events.len() == 0 {
        Some(None)
    } else {
        match (told(events.drop_last()), events.last()) {
            (Some(None), EventView::OutputItemAdded(_)) => Some(Some(Seq::empty())),
            (Some(Some(text)), EventView::OutputTextDelta(more)) => Some(Some(text + more)),
            (
                Some(Some(text)),
                EventView::OutputItemDone(ItemView::Message { content, .. }),
            ) => if content == seq![ContentItemView::OutputText { text }] {
                Some(None)
            } else {
                None
            },
            (Some(None), EventView::OutputItemDone(ItemView::FunctionCall { .. })) => Some(None),
            (Some(None), EventView::Created) => Some(None),
            (Some(None), EventView::Completed { .. }) => Some(None),
            _ => None,
        }
    }
}

/// The events tell the message that the state holds.
pub open spec fn is_consistent(said: Said) -> bool {
    &&& told(said.events) == Some(
        if said.text.active {
            Some(said.text.buffer)
        } else {
            None
        },
    )
    &&& !said.text.active ==> said.text.buffer.len() == 0
}

proof fn lemma_started_consistent(said: Said)
    requires
        is_consistent(said),
    ensures
        is_consistent(started(said)),
        started(said).text.active,
{
    if !said.text.active {
        let events = started(said).events;
        assert(events.drop_last() =~= said.events);
        assert(said.text.buffer =~= Seq::empty());
    }
}

proof fn lemma_pushed_consistent(said: Said, text: Seq<char>)
    requires
        is_consistent(said),
    ensures
        is_consistent(pushed(said, text)),
{
    if text.len() > 0 {
        lemma_started_consistent(said);
        assert(pushed(said, text).events.drop_last() =~= started(said).events);
    }
}

/// Ending a message keeps the events in order, and no message stays open.
pub proof fn law_flush_ends_the_message(said: Said)
    requires
        is_consistent(said),
    ensures
        is_consistent(flushed(said)),
        told(flushed(said).events) == Some(None::<Seq<char>>),
{
    if said.text.active {
        assert(flushed(said).events.drop_last() =~= said.events);
    }
}

proof fn lemma_part_consistent(turn: Turn, part: PartView)
    requires
        is_consistent(turn.said),
    ensures
        is_consistent(after_part(turn, part).said),
{
    let with_signature = Said {
        text: noted(turn.said.text, part.thought_signature),
        ..turn.said
    };
    assert(is_consistent(with_signature));
    match part.text {
        Some(text) => {
            lemma_pushed_consistent(with_signature, text);
        },
        None => {
            lemma_started_consistent(with_signature);
        },
    }
    let words = after_words(turn.said, part);
    assert(is_consistent(words));
    if part.function_call is Some {
        law_flush_ends_the_message(words);
        assert(after_part(turn, part).said.events.drop_last() =~= flushed(words).events);
    }
}

/// The events of a turn stay in order whatever parts come: a message is done with the text
/// that was given out bit by bit, and it is done before a call is given out.
pub proof fn law_parts_keep_events_in_order(turn: Turn, parts: Seq<PartView>)
    requires
        is_consistent(turn.said),
    ensures
        is_consistent(after_parts(turn, parts).said),
    decreases parts.len(),
{
    if parts.len() > 0 {
        law_parts_keep_events_in_order(turn, parts.drop_last());
        lemma_part_consistent(after_parts(turn, parts.drop_last()), parts.last());
    }
}

/// The text that was given out, bit by bit.
pub open spec fn text_given(events: Seq<EventView>) -> Seq<char>
    decreases events.len(),
{
    if events.len() == 0 {
        Seq::empty()
    } else {
        text_given(events.drop_last()) + match events.last() {
            EventView::OutputTextDelta(text) => text,
            _ => Seq::empty(),
        }
    }
}

/// The text of a list of parts.
pub open spec fn text_of_parts(parts: Seq<PartView>) -> Seq<char>
    decreases parts.len(),
{
    if parts.len() == 0 {
        Seq::empty()
    } else {
        text_of_parts(parts.drop_last()) + match parts.last().text {
            Some(text) => text,
            None => Seq::empty(),
        }
    }
}

/// What one more event adds to the text that was given out.
pub proof fn lemma_text_given_push(events: Seq<EventView>, event: EventView)
    ensures
        text_given(events.push(event)) == text_given(events) + match event {
            EventView::OutputTextDelta(text) => text,
            _ => Seq::empty(),
        },
{
    assert(events.push(event).drop_last() =~= events);
}

proof fn lemma_part_text(turn: Turn, part: PartView)
    ensures
        text_given(after_part(turn, part).said.events) == text_given(turn.said.events)
            + match part.text {
            Some(text) => text,
            None => Seq::empty(),
        },
{
    let with_signature = Said {
        text: noted(turn.said.text, part.thought_signature),
        ..turn.said
    };
    let announced = EventView::OutputItemAdded(assistant_message(Seq::empty(), None));
    lemma_text_given_push(turn.said.events, announced);
    assert(text_given(started(with_signature).events) =~= text_given(turn.said.events));
    match part.text {
        Some(text) => {
            if text.len() > 0 {
                lemma_text_given_push(
                    started(with_signature).events,
                    EventView::OutputTextDelta(text),
                );
            } else {
                assert(text =~= Seq::empty());
            }
        },
        None => {},
    }
    let words = after_words(turn.said, part);
    assert(text_given(words.events) =~= text_given(turn.said.events) + match part.text {
        Some(text) => text,
        None => Seq::empty(),
    });
    let done = EventView::OutputItemDone(
        assistant_message(words.text.buffer, words.text.thought_signature),
    );
    lemma_text_given_push(words.events, done);
    assert(text_given(flushed(words).events) =~= text_given(words.events));
    if let Some(call) = part.function_call {
        let item = EventView::OutputItemDone(call_item(call, turn.next, part.thought_signature));
        lemma_text_given_push(flushed(words).events, item);
        assert(text_given(after_part(turn, part).said.events) =~= text_given(words.events));
    }
}

/// All text of the parts is given out, in order, and no other.
pub proof fn law_text_is_given_out(turn: Turn, parts: Seq<PartView>)
    ensures
        text_given(after_parts(turn, parts).said.events) == text_given(turn.said.events)
            + text_of_parts(parts),
    decreases parts.len(),
{
    if parts.len() == 0 {
        assert(text_given(turn.said.events) + text_of_parts(parts) =~= text_given(
            turn.said.events,
        ));
    } else {
        law_text_is_given_out(turn, parts.drop_last());
        lemma_part_text(after_parts(turn, parts.drop_last()), parts.last());
        assert(text_given(after_parts(turn, parts).said.events) =~= text_given(turn.said.events)
            + text_of_parts(parts));
    }
}

/// The calls that were given out.
pub open spec fn calls_given(events: Seq<EventView>) -> Seq<ItemView>
    decreases events.len(),
{
    if events.len() == 0 {
        Seq::empty()
    } else {
        match events.last() {
            EventView::OutputItemDone(item) if item is FunctionCall => calls_given(
                events.drop_last(),
            ).push(item),
            _ => calls_given(events.drop_last()),
        }
    }
}

/// The calls of a list of parts, numbered from `next` on.
pub open spec fn calls_of_parts(parts: Seq<PartView>, next: nat) -> Seq<ItemView>
    decreases parts.len(),
{
    if parts.len() == 0 {
        Seq::empty()
    } else {
        let before = calls_of_parts(parts.drop_last(), next);
        match parts.last().function_call {
            Some(call) => before.push(
                call_item(call, next + before.len(), parts.last().thought_signature),
            ),
            None => before,
        }
    }
}

/// What one more event adds to the calls that were given out.
pub proof fn lemma_calls_given_push(events: Seq<EventView>, event: EventView)
    ensures
        calls_given(events.push(event)) == match event {
            EventView::OutputItemDone(item) if item is FunctionCall => calls_given(events).push(
                item,
            ),
            _ => calls_given(events),
        },
{
    assert(events.push(event).drop_last() =~= events);
}

/// Each call of the parts is given out once, in order, under the next number and with the
/// signature of its part.
pub proof fn law_calls_are_given_out(turn: Turn, parts: Seq<PartView>)
    ensures
        calls_given(after_parts(turn, parts).said.events) == calls_given(turn.said.events)
            + calls_of_parts(parts, turn.next),
        after_parts(turn, parts).next == turn.next + calls_of_parts(parts, turn.next).len(),
    decreases parts.len(),
{
    if parts.len() == 0 {
        assert(calls_given(turn.said.events) + calls_of_parts(parts, turn.next) =~= calls_given(
            turn.said.events,
        ));
    } else {
        law_calls_are_given_out(turn, parts.drop_last());
        let before = after_parts(turn, parts.drop_last());
        let part = parts.last();
        let with_signature = Said {
            text: noted(before.said.text, part.thought_signature),
            ..before.said
        };
        lemma_calls_given_push(
            before.said.events,
            EventView::OutputItemAdded(assistant_message(Seq::empty(), None)),
        );
        if let Some(text) = part.text {
            lemma_calls_given_push(
                started(with_signature).events,
                EventView::OutputTextDelta(text),
            );
        }
        let words = after_words(before.said, part);
        assert(calls_given(words.events) == calls_given(before.said.events));
        lemma_calls_given_push(
            words.events,
            EventView::OutputItemDone(
                assistant_message(words.text.buffer, words.text.thought_signature),
            ),
        );
        if let Some(call) = part.function_call {
            lemma_calls_given_push(
                flushed(words).events,
                EventView::OutputItemDone(
                    call_item(call, before.next, part.thought_signature),
                ),
            );
        }
        assert(calls_given(after_parts(turn, parts).said.events) =~= calls_given(turn.said.events)
            + calls_of_parts(parts, turn.next));
    }
}

/// The calls of a turn are numbered one after the other.
pub proof fn law_calls_are_numbered(parts: Seq<PartView>, next: nat, k: int)
    requires
        0 <= k < calls_of_parts(parts, next).len(),
    ensures
        calls_of_parts(parts, next)[k] matches ItemView::FunctionCall { call_id, .. } && call_id
            == call_id_of((next + k) as nat),
    decreases parts.len(),
{
    let before = calls_of_parts(parts.drop_last(), next);
    if k < before.len() {
        law_calls_are_numbered(parts.drop_last(), next, k);
    }
}

/// A call goes back to the model with its name and the signature of its part, whatever its
/// arguments are; with arguments that can be read back it goes back as it came.
pub proof fn law_call_goes_back(
    before: Seq<ItemView>,
    call: CallView,
    number: nat,
    signature: Option<Seq<char>>,
)
    ensures
        ({
            let sent = CallView { name: call.name, args: call_args(arguments_text(call.args)) };
            let item = call_item(call, number, signature);
            &&& entry_of(before, item) == Some(call_turn(sent, signature))
            &&& contents_of(seq![item]) == seq![call_turn(sent, signature)]
        }),
        survives(call.args) ==> entry_of(before, call_item(call, number, signature)) == Some(
            call_turn(call, signature),
        ),
        survives(call.args) ==> contents_of(seq![call_item(call, number, signature)]) == seq![
            call_turn(call, signature),
        ],
{
    lemma_single_item(call_item(call, number, signature));
}

/// The turn in which the model made one call.
pub open spec fn call_turn(call: CallView, signature: Option<Seq<char>>) -> ContentView {
    ContentView {
        role: "model"@,
        parts: seq![
            PartView {
                function_call: Some(call),
                thought_signature: signature,
                ..empty_part()
            },
        ],
    }
}

proof fn lemma_single_item(item: ItemView)
    ensures
        entry_of(Seq::empty(), item) matches Some(entry) ==> contents_of(seq![item]) == seq![entry],
{
    let items = seq![item];
    assert(items.drop_last() =~= Seq::empty());
    assert(contents_of(items.drop_last()) =~= Seq::empty());
    if let Some(entry) = entry_of(Seq::empty(), item) {
        assert(contents_of(items) =~= seq![entry]);
    }
}

/// A message goes back to the model as it came from it: with its text and the signature that
/// came with it.
pub proof fn law_message_goes_back(
    before: Seq<ItemView>,
    text: Seq<char>,
    signature: Option<Seq<char>>,
)
    ensures
        entry_of(before, assistant_message(text, signature)) == Some(message_turn(text, signature)),
        contents_of(seq![assistant_message(text, signature)]) == seq![
            message_turn(text, signature),
        ],
{
    let item = assistant_message(text, signature);
    lemma_single_item(item);
    assert(entry_of(before, item).unwrap().parts =~= message_turn(text, signature).parts);
    assert(entry_of(Seq::empty(), item).unwrap().parts =~= message_turn(text, signature).parts);
}

/// The turn in which the model said one text.
pub open spec fn message_turn(text: Seq<char>, signature: Option<Seq<char>>) -> ContentView {
    ContentView {
        role: "model"@,
        parts: seq![PartView { thought_signature: signature, ..text_part(text) }],
    }
}

/// The last signature that a list of parts brings, behind one that was there before.
pub open spec fn last_signature(
    before: Option<Seq<char>>,
    parts: Seq<PartView>,
) -> Option<Seq<char>>
    decreases parts.len(),
{
    if parts.len() == 0 {
        before
    } else if parts.last().thought_signature is Some {
        parts.last().thought_signature
    } else {
        last_signature(before, parts.drop_last())
    }
}

/// A message that is told without a call in between carries the last signature that came
/// with it.
pub proof fn law_message_keeps_its_signature(turn: Turn, parts: Seq<PartView>)
    requires
        forall|i: int| 0 <= i < parts.len() ==> (#[trigger] parts[i]).function_call is None,
    ensures
        after_parts(turn, parts).said.text.thought_signature == last_signature(
            turn.said.text.thought_signature,
            parts,
        ),
    decreases parts.len(),
{
    if parts.len() > 0 {
        let before = parts.drop_last();
        assert forall|i: int| 0 <= i < before.len() implies (
        #[trigger] before[i]).function_call is None by {
            assert(before[i] == parts[i]);
        }
        law_message_keeps_its_signature(turn, before);
        assert(parts[parts.len() - 1].function_call is None);
    }
}

} // verus!
