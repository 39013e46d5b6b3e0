//! A stream as a whole: what its events come to, from the first to the last that is looked at.
use crate::gemini_models::GeminiStreamResult;
use crate::gemini_session::{
    after_chunk, after_result, after_results, calls_of_results, ended_as, fresh,
    is_done_mark, law_a_message_is_enough, law_messages_are_no_mark, law_stream_is_given_out,
    refusal_in, result_in, step_on, text_of_results, InputView, SessionView, SseChunk, StepView,
};
use crate::gemini_stream::{calls_given, text_given};
use crate::protocol::{ErrView, EventView};
use vstd::prelude::*;

verus! {

/// Where reading a stream came to an end, and the failure that ended it, if one did.
pub struct Run {
    pub session: SessionView,
    pub failure: Option<ErrView>,
}

/// The stream behind one input that was looked at: it holds whether the mark was seen.
pub open spec fn marked(session: SessionView, input: InputView) -> SessionView {
    SessionView { saw_done: session.saw_done || is_done_mark(input), ..session }
}

/// A stream is read: what it brings is looked at one by one, where `reads` says what a message
/// can be read as, until something ends it or nothing is left.
pub open spec fn run(
    session: SessionView,
    inputs: Seq<InputView>,
    reads: spec_fn(Seq<char>) -> SseChunk,
) -> Run
    decreases inputs.len(),
{
    if inputs.len() == 0 {
        Run { session, failure: None }
    } else {
        let seen = marked(session, inputs[0]);
        match step_on(inputs[0]) {
            StepView::ReadOn => run(seen, inputs.skip(1), reads),
            StepView::Take(text) => match refusal_in(reads(text)) {
                Some(err) => Run { session: seen, failure: Some(err) },
                None => run(after_chunk(seen, reads(text)), inputs.skip(1), reads),
            },
            StepView::Finish => Run { session: seen, failure: None },
            StepView::Fail(err) => Run { session: seen, failure: Some(err) },
        }
    }
}

/// What a run comes to: the events of the turn, or those up to a failure, and the failure.
pub open spec fn outcome(run: Run, response_id: Seq<char>) -> (Seq<EventView>, Option<ErrView>) {
    let events = run.session.turn.said.events;
    if run.failure is Some {
        (events, run.failure)
    } else {
        match ended_as(run.session, response_id) {
            Ok(all) => (all, None),
            Err(err) => (events, Some(err)),
        }
    }
}

/// The input ends the stream: it is the mark, a failure, the end, or a message that is a
/// refusal.
pub open spec fn ends(input: InputView, reads: spec_fn(Seq<char>) -> SseChunk) -> bool {
    match step_on(input) {
        StepView::ReadOn => false,
        StepView::Take(text) => refusal_in(reads(text)) is Some,
        StepView::Finish | StepView::Fail(_) => true,
    }
}

/// The input says nothing: it is blank, or it cannot be read.
pub open spec fn says_nothing(input: InputView, reads: spec_fn(Seq<char>) -> SseChunk) -> bool {
    match step_on(input) {
        StepView::ReadOn => true,
        StepView::Take(text) => reads(text) is Unreadable,
        StepView::Finish | StepView::Fail(_) => false,
    }
}

/// Two readings of a message come to the same: their results are equal, wrapped or bare.
pub open spec fn reads_alike(a: SseChunk, b: SseChunk) -> bool {
    match (a, b) {
        (SseChunk::Message(x), SseChunk::Message(y)) => result_in(x) == result_in(y),
        _ => a == b,
    }
}

/// The results of the messages that are looked at, in order.
pub open spec fn results_in(
    inputs: Seq<InputView>,
    reads: spec_fn(Seq<char>) -> SseChunk,
) -> Seq<GeminiStreamResult>
    decreases inputs.len(),
{
    if inputs.len() == 0 || ends(inputs[0], reads) {
        Seq::empty()
    } else {
        let rest = results_in(inputs.skip(1), reads);
        match step_on(inputs[0]) {
            StepView::Take(text) => match reads(text) {
                SseChunk::Message(envelope) => seq![result_in(envelope)] + rest,
                _ => rest,
            },
            _ => rest,
        }
    }
}

/// What ends the stream is its mark.
pub open spec fn ends_with_mark(
    inputs: Seq<InputView>,
    reads: spec_fn(Seq<char>) -> SseChunk,
) -> bool
    decreases inputs.len(),
{
    if inputs.len() == 0 {
        false
    } else if ends(inputs[0], reads) {
        is_done_mark(inputs[0])
    } else {
        ends_with_mark(inputs.skip(1), reads)
    }
}

/// Nothing is looked at behind what ends a stream, its mark or a failure.
pub proof fn law_nothing_behind_the_end(
    session: SessionView,
    before: Seq<InputView>,
    end: InputView,
    behind: Seq<InputView>,
    reads: spec_fn(Seq<char>) -> SseChunk,
)
    requires
        ends(end, reads),
    ensures
        run(session, before.push(end) + behind, reads) == run(session, before.push(end), reads),
    decreases before.len(),
{
    let all = before.push(end) + behind;
    let short = before.push(end);
    assert(all[0] == short[0]);
    if before.len() > 0 {
        assert(all.skip(1) =~= before.skip(1).push(end) + behind);
        assert(short.skip(1) =~= before.skip(1).push(end));
        let seen = marked(session, all[0]);
        match step_on(all[0]) {
            StepView::ReadOn => {
                law_nothing_behind_the_end(seen, before.skip(1), end, behind, reads);
            },
            StepView::Take(text) => {
                law_nothing_behind_the_end(
                    after_chunk(seen, reads(text)),
                    before.skip(1),
                    end,
                    behind,
                    reads,
                );
            },
            _ => {},
        }
    }
}

/// Blank data and messages that cannot be read say nothing: the stream comes to the same
/// without them.
pub proof fn law_blank_and_unreadable_say_nothing(
    session: SessionView,
    before: Seq<InputView>,
    input: InputView,
    behind: Seq<InputView>,
    reads: spec_fn(Seq<char>) -> SseChunk,
)
    requires
        says_nothing(input, reads),
    ensures
        run(session, before.push(input) + behind, reads) == run(session, before + behind, reads),
    decreases before.len(),
{
    let all = before.push(input) + behind;
    let short = before + behind;
    if before.len() == 0 {
        assert(all[0] == input);
        assert(all.skip(1) =~= behind);
        assert(short =~= behind);
        assert(marked(session, input) == session);
    } else {
        assert(all[0] == short[0]);
        assert(all.skip(1) =~= before.skip(1).push(input) + behind);
        assert(short.skip(1) =~= before.skip(1) + behind);
        let seen = marked(session, all[0]);
        match step_on(all[0]) {
            StepView::ReadOn => {
                law_blank_and_unreadable_say_nothing(seen, before.skip(1), input, behind, reads);
            },
            StepView::Take(text) => {
                law_blank_and_unreadable_say_nothing(
                    after_chunk(seen, reads(text)),
                    before.skip(1),
                    input,
                    behind,
                    reads,
                );
            },
            _ => {},
        }
    }
}

/// A result counts the same, wrapped or bare.
pub proof fn law_wrapped_and_bare_count_the_same(
    session: SessionView,
    inputs: Seq<InputView>,
    reads: spec_fn(Seq<char>) -> SseChunk,
    other: spec_fn(Seq<char>) -> SseChunk,
)
    requires
        forall|text: Seq<char>| reads_alike(#[trigger] reads(text), other(text)),
    ensures
        run(session, inputs, reads) == run(session, inputs, other),
    decreases inputs.len(),
{
    if inputs.len() > 0 {
        let seen = marked(session, inputs[0]);
        match step_on(inputs[0]) {
            StepView::ReadOn => {
                law_wrapped_and_bare_count_the_same(seen, inputs.skip(1), reads, other);
            },
            StepView::Take(text) => {
                assert(reads_alike(reads(text), other(text)));
                law_wrapped_and_bare_count_the_same(
                    after_chunk(seen, reads(text)),
                    inputs.skip(1),
                    reads,
                    other,
                );
            },
            _ => {},
        }
    }
}

proof fn lemma_first_result(
    session: SessionView,
    first: GeminiStreamResult,
    rest: Seq<GeminiStreamResult>,
)
    ensures
        after_results(session, seq![first] + rest) == after_results(
            after_result(session, first),
            rest,
        ),
    decreases rest.len(),
{
    let all = seq![first] + rest;
    if rest.len() == 0 {
        assert(all.drop_last() =~= Seq::empty());
        assert(all.last() == first);
        assert(after_results(session, all.drop_last()) == session);
    } else {
        assert(all.drop_last() =~= seq![first] + rest.drop_last());
        assert(all.last() == rest.last());
        lemma_first_result(session, first, rest.drop_last());
    }
}

/// A stream comes to what the results of its messages come to, one after the other, up to what
/// ends it, and to whether that was its mark.
pub proof fn law_run_is_its_results(
    session: SessionView,
    inputs: Seq<InputView>,
    reads: spec_fn(Seq<char>) -> SseChunk,
)
    ensures
        ({
            let after = after_results(session, results_in(inputs, reads));
            run(session, inputs, reads).session == (SessionView {
                saw_done: after.saw_done || ends_with_mark(inputs, reads),
                ..after
            })
        }),
    decreases inputs.len(),
{
    let results = results_in(inputs, reads);
    if inputs.len() > 0 && !ends(inputs[0], reads) {
        let rest = inputs.skip(1);
        let seen = marked(session, inputs[0]);
        assert(seen == session);
        match step_on(inputs[0]) {
            StepView::Take(text) => {
                let next = after_chunk(seen, reads(text));
                law_run_is_its_results(next, rest, reads);
                if let SseChunk::Message(envelope) = reads(text) {
                    lemma_first_result(session, result_in(envelope), results_in(rest, reads));
                }
            },
            _ => {
                law_run_is_its_results(seen, rest, reads);
            },
        }
    }
}

/// All that the messages of a stream say is given out, in order, and no more.
pub proof fn law_run_is_given_out(
    session: SessionView,
    inputs: Seq<InputView>,
    reads: spec_fn(Seq<char>) -> SseChunk,
)
    ensures
        ({
            let events = run(session, inputs, reads).session.turn.said.events;
            let results = results_in(inputs, reads);
            &&& text_given(events) == text_given(session.turn.said.events) + text_of_results(
                results,
            )
            &&& calls_given(events) == calls_given(session.turn.said.events) + calls_of_results(
                results,
                session.turn.next,
            )
        }),
{
    law_run_is_its_results(session, inputs, reads);
    law_stream_is_given_out(session, results_in(inputs, reads));
}

/// A turn is complete where nothing failed and the stream brought its mark or a message that
/// could be read; where it brought neither, it was closed too early.
pub proof fn law_run_is_complete_or_fails(
    events: Seq<EventView>,
    inputs: Seq<InputView>,
    reads: spec_fn(Seq<char>) -> SseChunk,
    response_id: Seq<char>,
)
    ensures
        ({
            let read = run(fresh(events), inputs, reads);
            outcome(read, response_id).1 == (if read.failure is Some {
                read.failure
            } else if results_in(inputs, reads).len() == 0 && !ends_with_mark(inputs, reads) {
                Some(ErrView::Stream("Gemini stream closed before completion"@, None))
            } else {
                None
            })
        }),
{
    let results = results_in(inputs, reads);
    law_run_is_its_results(fresh(events), inputs, reads);
    law_a_message_is_enough(events, results);
    lemma_no_mark(fresh(events), results);
}

proof fn lemma_no_mark(session: SessionView, results: Seq<GeminiStreamResult>)
    ensures
        after_results(session, results).saw_done == session.saw_done,
    decreases results.len(),
{
    if results.len() > 0 {
        lemma_no_mark(session, results.drop_last());
        law_messages_are_no_mark(
            after_results(session, results.drop_last()),
            results.last(),
        );
    }
}

} // verus!
