//! What the answer of a model gives out, part by part and message by message.
use crate::gemini_models::{
    CallView, ContentView, GeminiStreamEnvelope, GeminiStreamResult, GenerateContentResponse,
    GoogleApiError, PartView, UsageMetadata,
};
use crate::gemini_session::{
    after_chunk, after_contents, after_result, after_results, begun, closed_early, completed,
    ended_as, first_parts, fresh, refusal_in, refusal_status, response_events, response_usage,
    result_in, step_on, InputView, SessionView, SseChunk, StepView,
};
use crate::gemini_stream::{
    after_part, after_parts, call_id_of, call_item, usage_of, Said, TextView, Turn,
};
use crate::json::json_text;
use crate::protocol::{ContentItemView, ErrView, EventView, ItemView, TokenUsage};
use crate::text::{decimal, is_white_space};
use crate::text_laws::{all_white, law_trim};
use vstd::prelude::*;

verus! {

/// The tokens of a turn are those that the service counted. The total that it gives is the
/// total, and only where it gives none is that the sum of input and output.
pub proof fn law_tokens_are_those_counted(meta: UsageMetadata)
    ensures
        usage_of(meta) is Some == meta.prompt_token_count is Some,
        usage_of(meta) matches Some(usage) ==> {
            &&& meta.prompt_token_count == Some(usage.input_tokens)
            &&& meta.candidates_token_count matches Some(n) ==> usage.output_tokens == n
            &&& meta.candidates_token_count is None ==> usage.output_tokens == 0
            &&& meta.thoughts_token_count matches Some(n) ==> usage.reasoning_output_tokens == n
            &&& meta.thoughts_token_count is None ==> usage.reasoning_output_tokens == 0
            &&& meta.total_token_count matches Some(n) ==> usage.total_tokens == n
            &&& meta.total_token_count is None && i64::MIN <= usage.input_tokens
                + usage.output_tokens <= i64::MAX ==> usage.total_tokens == usage.input_tokens
                + usage.output_tokens
            &&& usage.cached_input_tokens == 0
        },
{
}

/// A call is given out with its own name, the signature of its part and the JSON text of its
/// arguments, under the id that its number makes.
pub proof fn law_call_is_given_out_as_it_is(
    call: CallView,
    number: nat,
    signature: Option<Seq<char>>,
)
    ensures
        call_item(call, number, signature) matches ItemView::FunctionCall {
            id,
            name,
            arguments,
            call_id,
            thought_signature,
        } && {
            &&& id is None
            &&& name == call.name
            &&& call_id == "gemini_call_"@ + decimal(number)
            &&& thought_signature == signature
            &&& json_text(call.args) matches Some(text) ==> arguments == text
            &&& json_text(call.args) is None ==> arguments == "{}"@
        },
        call_id_of(number) == "gemini_call_"@ + decimal(number),
{
}

/// The text that a part brings; none where it has none.
pub open spec fn words_of(part: PartView) -> Seq<char> {
    match part.text {
        Some(text) => text,
        None => Seq::empty(),
    }
}

/// The part opens a message: it has words, or a signature in their place.
pub open spec fn opens(part: PartView) -> bool {
    words_of(part).len() > 0 || (part.text is None && part.thought_signature is Some)
}

/// The signature that stands behind a part: its own, or the one before it.
pub open spec fn signature_behind(before: Option<Seq<char>>, part: PartView) -> Option<Seq<char>> {
    if part.thought_signature is Some {
        part.thought_signature
    } else {
        before
    }
}

/// The event that announces a message, empty as yet.
pub open spec fn is_announced(event: EventView) -> bool {
    event matches EventView::OutputItemAdded(
        ItemView::Message { id, role, content, thought_signature },
    ) && id is None && role == "assistant"@ && thought_signature is None && content == seq![
        ContentItemView::OutputText { text: Seq::empty() },
    ]
}

/// The event that gives out a whole message of the assistant.
pub open spec fn is_message(event: EventView, text: Seq<char>, signature: Option<Seq<char>>) -> bool {
    event matches EventView::OutputItemDone(
        ItemView::Message { id, role, content, thought_signature },
    ) && id is None && role == "assistant"@ && thought_signature == signature && content == seq![
        ContentItemView::OutputText { text },
    ]
}

/// What a part brings is given out behind what was given out before: first, where it opens
/// one, a message is announced; then come its words; then, where it makes a call, the message
/// that is open is done, with all its words, and the call behind it.
pub proof fn law_part_is_given_out(turn: Turn, part: PartView)
    ensures
        ({
            let before = turn.said;
            let after = after_part(turn, part).said;
            let open = before.text.active || opens(part);
            let announces: int = if !before.text.active && opens(part) {
                1
            } else {
                0
            };
            let speaks: int = if words_of(part).len() > 0 {
                1
            } else {
                0
            };
            let n = before.events.len();
            let m = n + announces + speaks;
            let words = before.text.buffer + words_of(part);
            let signature = signature_behind(before.text.thought_signature, part);
            &&& after.events.len() >= m
            &&& after.events.take(n as int) == before.events
            &&& announces == 1 ==> is_announced(after.events[n as int])
            &&& speaks == 1 ==> after.events[n + announces] == EventView::OutputTextDelta(
                words_of(part),
            )
            &&& part.function_call is None ==> {
                &&& after.events.len() == m
                &&& after.text == (TextView {
                    buffer: words,
                    active: open,
                    thought_signature: signature,
                })
                &&& after_part(turn, part).next == turn.next
            }
            &&& part.function_call matches Some(call) ==> {
                &&& after.events.len() == m + 1 + if open {
                    1int
                } else {
                    0
                }
                &&& open ==> is_message(after.events[m as int], words, signature)
                &&& open ==> after.text == (TextView {
                    buffer: Seq::empty(),
                    active: false,
                    thought_signature: None,
                })
                &&& after.events.last() == EventView::OutputItemDone(
                    call_item(call, turn.next, part.thought_signature),
                )
                &&& after_part(turn, part).next == turn.next + 1
            }
        }),
{
    let before = turn.said;
    let after = after_part(turn, part).said;
    let words = before.text.buffer + words_of(part);
    assert(after.events.take(before.events.len() as int) =~= before.events);
    assert(words_of(part).len() == 0 ==> words =~= before.text.buffer);
}

/// The parts of an answer are taken one after the other, each of them.
pub proof fn law_parts_are_taken_in_order(turn: Turn, parts: Seq<PartView>, more: Seq<PartView>)
    ensures
        after_parts(turn, parts + more) == after_parts(after_parts(turn, parts), more),
        after_parts(turn, Seq::empty()) == turn,
        more.len() == 1 ==> after_parts(turn, more) == after_part(turn, more[0]),
    decreases more.len(),
{
    if more.len() == 0 {
        assert(parts + more =~= parts);
    } else {
        law_parts_are_taken_in_order(turn, parts, more.drop_last());
        assert((parts + more).drop_last() =~= parts + more.drop_last());
        if more.len() == 1 {
            assert(more.drop_last() =~= Seq::empty());
        }
    }
}

/// The candidates of a message are heard one after the other, each of them; one that says
/// nothing changes nothing.
pub proof fn law_candidates_are_taken_in_order(
    session: SessionView,
    contents: Seq<Option<ContentView>>,
    content: ContentView,
)
    ensures
        after_contents(session, Seq::empty()) == session,
        after_contents(session, contents.push(Some(content))).turn == after_parts(
            after_contents(session, contents).turn,
            content.parts,
        ),
        after_contents(session, contents.push(Some(content))).received_payload,
        after_contents(session, contents.push(None)) == after_contents(session, contents),
{
    assert(contents.push(Some(content)).drop_last() =~= contents);
    assert(contents.push(None).drop_last() =~= contents);
}

/// Messages are taken one after the other, each of them, and each counts as an event.
pub proof fn law_messages_are_taken_in_order(
    session: SessionView,
    results: Seq<GeminiStreamResult>,
    result: GeminiStreamResult,
)
    ensures
        after_results(session, Seq::empty()) == session,
        after_results(session, results.push(result)) == after_result(
            after_results(session, results),
            result,
        ),
        after_result(session, result).saw_event,
        result.usage_metadata matches Some(meta) ==> after_result(session, result).token_usage
            == usage_of(meta) && after_result(session, result).received_payload,
        result.usage_metadata is None ==> after_result(session, result).token_usage
            == session.token_usage,
        session.received_payload ==> after_result(session, result).received_payload,
        after_result(session, result).saw_done == session.saw_done,
        crate::gemini_models::contents_said(result.candidates).len() == 0 ==> after_result(
            session,
            result,
        ).turn == session.turn,
{
    assert(results.push(result).drop_last() =~= results);
    let contents = crate::gemini_models::contents_said(result.candidates);
    let counted = crate::gemini_session::after_count(session, result.usage_metadata);
    lemma_saw_event(counted, contents);
}

proof fn lemma_saw_event(session: SessionView, contents: Seq<Option<ContentView>>)
    ensures
        after_contents(session, contents).saw_event == session.saw_event,
        after_contents(session, contents).saw_done == session.saw_done,
        after_contents(session, contents).token_usage == session.token_usage,
        session.received_payload ==> after_contents(session, contents).received_payload,
    decreases contents.len(),
{
    if contents.len() > 0 {
        lemma_saw_event(session, contents.drop_last());
    }
}

/// A stream of which nothing was read: no words, no calls before number one, no tokens, and
/// nothing seen.
pub proof fn law_fresh_stream(events: Seq<EventView>)
    ensures
        fresh(events).turn.said.events == events,
        fresh(events).turn.said.text == (TextView {
            buffer: Seq::empty(),
            active: false,
            thought_signature: None,
        }),
        fresh(events).turn.next == 1,
        fresh(events).token_usage is None,
        !fresh(events).saw_done && !fresh(events).received_payload && !fresh(events).saw_event,
{
}

/// A stream was closed too early exactly where it brought neither its mark nor anything else.
pub proof fn law_closed_early(session: SessionView)
    ensures
        closed_early(session) == !(session.saw_done || session.received_payload
            || session.saw_event),
{
}

/// The end of a turn: the message that is open is done, with all its words, and the last event
/// says that the turn is complete, under its id and with its tokens.
pub proof fn law_turn_ends(said: Said, response_id: Seq<char>, token_usage: Option<TokenUsage>)
    ensures
        ({
            let events = completed(said, response_id, token_usage);
            let n = said.events.len();
            &&& events.len() == n + if said.text.active {
                2int
            } else {
                1
            }
            &&& events.take(n as int) == said.events
            &&& said.text.active ==> is_message(
                events[n as int],
                said.text.buffer,
                said.text.thought_signature,
            )
            &&& events.last() == EventView::Completed { response_id, token_usage }
        }),
{
    let events = completed(said, response_id, token_usage);
    assert(events.take(said.events.len() as int) =~= said.events);
}

/// A turn begins with its announcement, behind what was given out before.
pub proof fn law_turn_begins(events: Seq<EventView>)
    ensures
        begun(events).turn.said.events == events.push(EventView::Created),
        begun(events) == fresh(events.push(EventView::Created)),
{
}

/// A turn ends with a failure exactly where its stream brought nothing at all, and else with
/// all that it said, its id and its tokens.
pub proof fn law_turn_ends_or_fails(session: SessionView, response_id: Seq<char>)
    ensures
        session.saw_done || session.received_payload || session.saw_event ==> ended_as(
            session,
            response_id,
        ) == Ok::<Seq<EventView>, ErrView>(
            completed(session.turn.said, response_id, session.token_usage),
        ),
        !session.saw_done && !session.received_payload && !session.saw_event ==> ended_as(
            session,
            response_id,
        ) == Err::<Seq<EventView>, ErrView>(
            ErrView::Stream("Gemini stream closed before completion"@, None),
        ),
{
}

/// A refusal is reported with its status, its words and no request id; a status is what has
/// three digits, and what has not counts as that of a bad request.
pub proof fn law_refusal_is_reported(error: GoogleApiError)
    ensures
        refusal_in(SseChunk::Refused(error)) matches Some(
            ErrView::UnexpectedStatus { status, body, request_id },
        ) && {
            &&& body == error.message@
            &&& request_id is None
            &&& 100 <= error.code < 1000 ==> status == error.code
            &&& 0 <= error.code < 100 || 1000 <= error.code <= 65535 ==> status == 400
            &&& 100 <= status < 1000
        },
        refusal_in(SseChunk::Unreadable) is None,
{
    let code = error.code;
    assert(0 <= code <= 65535 ==> code as u16 == code) by (bit_vector);
}

/// The status of a refusal goes by the low sixteen bits of its code.
pub proof fn law_refusal_by_low_bits(code: i32, other: i32)
    requires
        code as u16 == other as u16,
    ensures
        refusal_status(code) == refusal_status(other),
{
}

/// Content is no refusal, and says what its result says, wrapped or bare; a refusal and what
/// cannot be read say nothing.
pub proof fn law_chunks(session: SessionView, result: GeminiStreamResult, error: GoogleApiError)
    ensures
        ({
            let wrapped = SseChunk::Message(GeminiStreamEnvelope::Wrapped { result });
            let bare = SseChunk::Message(GeminiStreamEnvelope::Unwrapped(result));
            &&& refusal_in(wrapped) is None
            &&& refusal_in(bare) is None
            &&& after_chunk(session, wrapped) == after_result(session, result)
            &&& after_chunk(session, bare) == after_result(session, result)
        }),
        result_in(GeminiStreamEnvelope::Wrapped { result }) == result,
        result_in(GeminiStreamEnvelope::Unwrapped(result)) == result,
        after_chunk(session, SseChunk::Refused(error)) == session,
        after_chunk(session, SseChunk::Unreadable) == session,
{
}

/// A message is taken without the white space around it; the mark ends the stream, with white
/// space around it or not; white space alone is passed over.
pub proof fn law_data_of_a_stream(front: Seq<char>, text: Seq<char>, back: Seq<char>)
    requires
        all_white(front),
        all_white(back),
        text.len() > 0 ==> !is_white_space(text[0]) && !is_white_space(text.last()),
    ensures
        step_on(InputView::Data(front + text + back)) == (if text.len() == 0 {
            StepView::ReadOn
        } else if text == "[DONE]"@ {
            StepView::Finish
        } else {
            StepView::Take(text)
        }),
{
    law_trim(front, text, back);
}

/// A stream that breaks is reported with its cause, and one that ends is at its end.
pub proof fn law_end_of_a_stream(cause: Seq<char>)
    ensures
        step_on(InputView::Broken(cause)) == StepView::Fail(
            ErrView::Stream("Gemini SSE error: "@ + cause, None),
        ),
        step_on(InputView::End) == StepView::Finish,
{
}

/// An answer that is one JSON value is that of its first candidate, with the tokens that the
/// service counted: it is given out part by part, and then the turn is complete.
pub proof fn law_answer_in_one_piece(
    before: Seq<EventView>,
    response: GenerateContentResponse,
    response_id: Seq<char>,
)
    ensures
        ({
            let contents = crate::gemini_models::contents_said(response.candidates);
            let parts = if contents.len() > 0 && contents[0] is Some {
                contents[0]->0.parts
            } else {
                Seq::empty()
            };
            let usage = match response.usage_metadata {
                Some(meta) => usage_of(meta),
                None => None,
            };
            &&& first_parts(response) == parts
            &&& response_usage(response) == usage
            &&& response_events(before, response, response_id) == completed(
                after_parts(fresh(before).turn, parts).said,
                response_id,
                usage,
            )
        }),
{
}

} // verus!
