//! One answer from its first byte to its end: a stream of messages, or one JSON value.
use vstd::prelude::*;
use vstd::string::*;
use crate::gemini_models::{
    contents_said, Candidate, ContentView, ErrorEnvelope, GeminiStreamEnvelope, GeminiStreamResult,
    GenerateContentResponse, GoogleApiError, Part, PartView, UsageMetadata,
};
use crate::gemini_stream::{
    after_parts, assistant_message, call_count, calls_given, calls_of_parts, emit, flushed,
    is_consistent, law_calls_are_given_out, law_flush_ends_the_message,
    law_parts_keep_events_in_order, law_text_is_given_out, lemma_calls_given_push,
    lemma_next_after_parts, lemma_text_given_push, process_parts, silent, text_given,
    text_of_parts, told, turn_of, usage_fits, usage_from_metadata, usage_of, GeminiCallTracker,
    GeminiTextState, Said, Turn,
};
use crate::headers::status_code;
use crate::protocol::{
    CodexErr, ErrView, EventView, ItemView, ResponseEvent, TokenUsage, UnexpectedResponseError,
};
use crate::text::{text_eq, trim, trimmed};

verus! {

/// What a stream brings.
pub enum SseInput<'a> {
    /// An event with this data.
    Data(&'a str),
    /// A failure, in words.
    Broken(&'a str),
    /// Nothing more.
    End,
}

/// What is done about it.
pub enum SseStep<'a> {
    /// Wait for what the stream brings next.
    ReadOn,
    /// Read this message, take it, and read on where it was taken.
    Take(&'a str),
    /// End the turn.
    Finish,
    /// Report the failure.
    Fail(CodexErr),
}

/// What a stream brings, in mathematical form.
pub enum InputView {
    Data(Seq<char>),
    Broken(Seq<char>),
    End,
}

impl<'a> DeepView for SseInput<'a> {
    type V = InputView;

    open spec fn deep_view(&self) -> InputView {
        match *self {
            SseInput::Data(data) => InputView::Data(data@),
            SseInput::Broken(cause) => InputView::Broken(cause@),
            SseInput::End => InputView::End,
        }
    }
}

/// What is done about it, in mathematical form.
pub enum StepView {
    ReadOn,
    Take(Seq<char>),
    Finish,
    Fail(ErrView),
}

impl<'a> DeepView for SseStep<'a> {
    type V = StepView;

    open spec fn deep_view(&self) -> StepView {
        match *self {
            SseStep::ReadOn => StepView::ReadOn,
            SseStep::Take(text) => StepView::Take(text@),
            SseStep::Finish => StepView::Finish,
            SseStep::Fail(err) => StepView::Fail(err.deep_view()),
        }
    }
}

/// What the data of one event of a stream is.
enum SseData<'a> {
    /// White space alone.
    Blank,
    /// The mark that the stream is complete.
    Done,
    /// A message, without the white space around it.
    Payload(&'a str),
}

/// Tell what the data of an event is.
fn classify_data<'a>(data: &'a str) -> (class: SseData<'a>)
    ensures
        (match class {
            SseData::Blank => trimmed(data@).len() == 0,
            SseData::Done => trimmed(data@) == "[DONE]"@ && trimmed(data@).len() > 0,
            SseData::Payload(text) => text@ == trimmed(data@) && text@.len() > 0 && text@
                != "[DONE]"@,
        }),
{
    let text: &str = trim(data);
    if text.unicode_len() == 0 {
        SseData::Blank
    } else if text_eq(text, "[DONE]") {
        SseData::Done
    } else {
        SseData::Payload(text)
    }
}

/// What a message of a stream could be read as.
pub enum SseChunk {
    Message(GeminiStreamEnvelope),
    Refused(GoogleApiError),
    Unreadable,
}

/// How a message is read: as content where it can be, else as a refusal.
pub open spec fn chunk_for(
    envelope: Option<GeminiStreamEnvelope>,
    refusal: Option<ErrorEnvelope>,
) -> SseChunk {
    match (envelope, refusal) {
        (Some(message), _) => SseChunk::Message(message),
        (None, Some(ErrorEnvelope { error: Some(error) })) => SseChunk::Refused(error),
        (None, _) => SseChunk::Unreadable,
    }
}

/// Choose how a message is read: as content where it can be, else as a refusal.
pub fn chunk_of(envelope: Option<GeminiStreamEnvelope>, refusal: Option<ErrorEnvelope>) -> (chunk:
    SseChunk)
    ensures
        chunk == (match (envelope, refusal) {
            (Some(message), _) => SseChunk::Message(message),
            (None, Some(ErrorEnvelope { error: Some(error) })) => SseChunk::Refused(error),
            (None, _) => SseChunk::Unreadable,
        }),
        chunk == chunk_for(envelope, refusal),
{
    match envelope {
        Some(message) => SseChunk::Message(message),
        None => match refusal {
            Some(refusal) => match refusal.error {
                Some(error) => SseChunk::Refused(error),
                None => SseChunk::Unreadable,
            },
            None => SseChunk::Unreadable,
        },
    }
}

/// The result that an envelope holds, bare or not.
pub open spec fn result_in(envelope: GeminiStreamEnvelope) -> GeminiStreamResult {
    match envelope {
        GeminiStreamEnvelope::Wrapped { result } => result,
        GeminiStreamEnvelope::Unwrapped(result) => result,
    }
}

/// The status of a refusal: the low sixteen bits of its code where they make a status, and
/// that of a bad request otherwise.
pub open spec fn refusal_status(code: i32) -> u16 {
    if 100 <= code as u16 && (code as u16) < 1000 {
        code as u16
    } else {
        400
    }
}

/// The error for a refusal that came in a stream.
fn refused(error: GoogleApiError) -> (err: CodexErr)
    ensures
        err.deep_view() == (ErrView::UnexpectedStatus {
            status: refusal_status(error.code),
            body: error.message@,
            request_id: None,
        }),
{
    let low: u16 = #[verifier::truncate] (error.code as u16);
    let status: u16 = match status_code(low) {
        Some(status) => status,
        None => 400,
    };
    CodexErr::UnexpectedStatus(
        UnexpectedResponseError { status, body: error.message, request_id: None },
    )
}

/// The error for a stream that broke.
fn stream_broken(cause: &str) -> (err: CodexErr)
    ensures
        err.deep_view() == ErrView::Stream("Gemini SSE error: "@ + cause@, None),
{
    let mut message: String = "Gemini SSE error: ".to_owned();
    message.append(cause);
    CodexErr::Stream(message, None)
}

/// The input is the mark that the stream is complete.
pub open spec fn is_done_mark(input: InputView) -> bool {
    input matches InputView::Data(data) && trimmed(data).len() > 0 && trimmed(data) == "[DONE]"@
}

/// What is done about what a stream brings: blank data is passed over, any other message is
/// taken without the white space around it, and the mark is the end, as the end itself is.
pub open spec fn step_on(input: InputView) -> StepView {
    match input {
        InputView::Data(data) => if trimmed(data).len() == 0 {
            StepView::ReadOn
        } else if is_done_mark(input) {
            StepView::Finish
        } else {
            StepView::Take(trimmed(data))
        },
        InputView::Broken(cause) => StepView::Fail(
            ErrView::Stream("Gemini SSE error: "@ + cause, None),
        ),
        InputView::End => StepView::Finish,
    }
}

/// A stream that is being read: the turn so far, and what was seen of the stream.
pub struct GeminiSession {
    pub text_state: GeminiTextState,
    pub call_tracker: GeminiCallTracker,
    pub token_usage: Option<TokenUsage>,
    pub saw_done: bool,
    pub received_payload: bool,
    pub saw_event: bool,
}

/// A stream that is being read, in mathematical form, with the events given out.
pub struct SessionView {
    pub turn: Turn,
    pub token_usage: Option<TokenUsage>,
    pub saw_done: bool,
    pub received_payload: bool,
    pub saw_event: bool,
}

/// A stream of which nothing was read, behind the events given out before it.
pub open spec fn fresh(events: Seq<EventView>) -> SessionView {
    SessionView {
        turn: Turn { said: Said { text: silent(), events }, next: 1 },
        token_usage: None,
        saw_done: false,
        received_payload: false,
        saw_event: false,
    }
}

/// A stream that begins to be read: the turn is announced.
pub open spec fn begun(events: Seq<EventView>) -> SessionView {
    fresh(events.push(EventView::Created))
}

/// The stream behind what its candidates say, one after the other.
pub open spec fn after_contents(
    session: SessionView,
    contents: Seq<Option<ContentView>>,
) -> SessionView
    decreases contents.len(),
{
    if contents.len() == 0 {
        session
    } else {
        let before = after_contents(session, contents.drop_last());
        match contents.last() {
            Some(content) => SessionView {
                turn: after_parts(before.turn, content.parts),
                received_payload: true,
                ..before
            },
            None => before,
        }
    }
}

/// The stream behind the token count of one more message, where it has one.
pub open spec fn after_count(session: SessionView, usage: Option<UsageMetadata>) -> SessionView {
    match usage {
        Some(meta) => SessionView {
            token_usage: usage_of(meta),
            received_payload: true,
            saw_event: true,
            ..session
        },
        None => SessionView { saw_event: true, ..session },
    }
}

/// The stream behind one more message: its token count replaces the one before, and all that
/// its candidates say is given out.
pub open spec fn after_result(session: SessionView, result: GeminiStreamResult) -> SessionView {
    after_contents(
        after_count(session, result.usage_metadata),
        contents_said(result.candidates),
    )
}

/// The stream behind what one more message could be read as: only content says anything.
pub open spec fn after_chunk(session: SessionView, chunk: SseChunk) -> SessionView {
    match chunk {
        SseChunk::Message(envelope) => after_result(session, result_in(envelope)),
        SseChunk::Refused(_) | SseChunk::Unreadable => session,
    }
}

/// The error for a message that is a refusal.
pub open spec fn refusal_in(chunk: SseChunk) -> Option<ErrView> {
    match chunk {
        SseChunk::Refused(error) => Some(
            ErrView::UnexpectedStatus {
                status: refusal_status(error.code),
                body: error.message@,
                request_id: None,
            },
        ),
        SseChunk::Message(_) | SseChunk::Unreadable => None,
    }
}

/// The stream behind a list of messages.
pub open spec fn after_results(
    session: SessionView,
    results: Seq<GeminiStreamResult>,
) -> SessionView
    decreases results.len(),
{
    if results.len() == 0 {
        session
    } else {
        after_result(after_results(session, results.drop_last()), results.last())
    }
}

/// How many calls a list of candidates makes.
pub open spec fn calls_in(contents: Seq<Option<ContentView>>) -> nat
    decreases contents.len(),
{
    if contents.len() == 0 {
        0
    } else {
        calls_in(contents.drop_last()) + match contents.last() {
            Some(content) => call_count(content.parts),
            None => 0,
        }
    }
}

/// The numbers of a message stay within what can be counted.
pub open spec fn countable(next: usize, result: GeminiStreamResult) -> bool {
    &&& result.usage_metadata matches Some(meta) ==> usage_fits(meta)
    &&& next + calls_in(contents_said(result.candidates)) <= usize::MAX
}

/// A stream is closed too early where it ends before anything came and without its mark.
pub open spec fn closed_early(session: SessionView) -> bool {
    !session.saw_done && !session.received_payload && !session.saw_event
}

/// The events of a turn that is complete: the message is done, and the turn with it.
pub open spec fn completed(
    said: Said,
    response_id: Seq<char>,
    token_usage: Option<TokenUsage>,
) -> Seq<EventView> {
    flushed(said).events.push(EventView::Completed { response_id, token_usage })
}

/// How a turn ends under an id: with its last events, or with a failure where the stream was
/// closed too early.
pub open spec fn ended_as(session: SessionView, response_id: Seq<char>) -> Result<
    Seq<EventView>,
    ErrView,
> {
    if closed_early(session) {
        Err(ErrView::Stream("Gemini stream closed before completion"@, None))
    } else {
        Ok(completed(session.turn.said, response_id, session.token_usage))
    }
}

proof fn lemma_next_after_contents(session: SessionView, contents: Seq<Option<ContentView>>)
    ensures
        after_contents(session, contents).turn.next == session.turn.next + calls_in(contents),
    decreases contents.len(),
{
    if contents.len() > 0 {
        lemma_next_after_contents(session, contents.drop_last());
        let before = after_contents(session, contents.drop_last());
        if let Some(content) = contents.last() {
            lemma_next_after_parts(before.turn, content.parts);
        }
    }
}

proof fn lemma_calls_in_prefix(contents: Seq<Option<ContentView>>, n: int)
    requires
        0 <= n <= contents.len(),
    ensures
        calls_in(contents.take(n)) <= calls_in(contents),
    decreases contents.len(),
{
    if n == contents.len() {
        assert(contents.take(n) =~= contents);
    } else {
        lemma_calls_in_prefix(contents.drop_last(), n);
        assert(contents.drop_last().take(n) =~= contents.take(n));
    }
}

/// How many numbers are left for calls behind those of a list of parts, of `room` that were
/// left before it.
fn room_after_parts(parts: &Vec<Part>, room: usize) -> (left: Option<usize>)
    ensures
        left is Some == (call_count(parts.deep_view()) <= room),
        left matches Some(n) ==> n == room - call_count(parts.deep_view()),
{
    let ghost views = parts.deep_view();
    let mut left: usize = room;
    let total: usize = parts.len();
    for i in 0..total
        invariant
            total == parts@.len(),
            views == parts.deep_view(),
            left + call_count(views.take(i as int)) == room,
    {
        proof {
            assert(views.take(i + 1).drop_last() =~= views.take(i as int));
            assert(views.take(i + 1).last() == parts@[i as int].deep_view());
            crate::gemini_stream::lemma_call_count_prefix(views, i + 1);
        }
        if parts[i].function_call.is_some() {
            if left == 0 {
                return None;
            }
            left = left - 1;
        }
    }
    proof {
        assert(views.take(total as int) =~= views);
    }
    Some(left)
}

/// How many numbers are left for calls behind those of a list of candidates.
fn room_after_candidates(candidates: &Vec<Candidate>, room: usize) -> (left: Option<usize>)
    ensures
        left is Some == (calls_in(candidates.deep_view()) <= room),
        left matches Some(n) ==> n == room - calls_in(candidates.deep_view()),
{
    let ghost views = candidates.deep_view();
    let mut left: usize = room;
    let total: usize = candidates.len();
    for i in 0..total
        invariant
            total == candidates@.len(),
            views == candidates.deep_view(),
            left + calls_in(views.take(i as int)) == room,
    {
        proof {
            assert(views.take(i + 1).drop_last() =~= views.take(i as int));
            assert(views.take(i + 1).last() == candidates@[i as int].deep_view());
            lemma_calls_in_prefix(views, i + 1);
        }
        if let Some(content) = &candidates[i].content {
            match room_after_parts(&content.parts, left) {
                Some(n) => left = n,
                None => return None,
            }
        }
    }
    proof {
        assert(views.take(total as int) =~= views);
    }
    Some(left)
}

/// Can the tokens be counted?
fn usage_is_countable(meta: &UsageMetadata) -> (yes: bool)
    ensures
        yes == usage_fits(*meta),
{
    match meta.prompt_token_count {
        Some(input) => {
            let output: i64 = match meta.candidates_token_count {
                Some(n) => n,
                None => 0,
            };
            let sum: i128 = input as i128 + output as i128;
            i64::MIN as i128 <= sum && sum <= i64::MAX as i128
        },
        None => true,
    }
}

impl GeminiSession {
    /// The stream together with the events given out.
    pub open spec fn with(self, out: Seq<EventView>) -> SessionView {
        SessionView {
            turn: turn_of(self.text_state, self.call_tracker, out),
            token_usage: self.token_usage,
            saw_done: self.saw_done,
            received_payload: self.received_payload,
            saw_event: self.saw_event,
        }
    }

    /// Begin to read a stream: the turn is announced.
    pub fn begin(out: &mut Vec<ResponseEvent>) -> (session: GeminiSession)
        ensures
            session.with(final(out).deep_view()) == fresh(
                old(out).deep_view().push(EventView::Created),
            ),
            session.with(final(out).deep_view()) == begun(old(out).deep_view()),
    {
        emit(out, ResponseEvent::Created);
        GeminiSession {
            text_state: GeminiTextState::default(),
            call_tracker: GeminiCallTracker::default(),
            token_usage: None,
            saw_done: false,
            received_payload: false,
            saw_event: false,
        }
    }

    /// Can the numbers of this message still be counted?
    pub fn can_count(&self, result: &GeminiStreamResult) -> (yes: bool)
        ensures
            yes == countable(self.call_tracker.next, *result),
    {
        if let Some(meta) = &result.usage_metadata {
            if !usage_is_countable(meta) {
                return false;
            }
        }
        match &result.candidates {
            Some(candidates) => room_after_candidates(
                candidates,
                usize::MAX - self.call_tracker.next,
            ).is_some(),
            None => true,
        }
    }

    /// Decide what is done about what a stream brings. The mark that the stream is complete
    /// ends it, whatever it would bring behind it.
    pub fn step<'a>(&mut self, input: SseInput<'a>) -> (step: SseStep<'a>)
        ensures
            *final(self) == (GeminiSession {
                saw_done: old(self).saw_done || is_done_mark(input.deep_view()),
                ..*old(self)
            }),
            step.deep_view() == step_on(input.deep_view()),
    {
        match input {
            SseInput::Data(data) => match classify_data(data) {
                SseData::Blank => SseStep::ReadOn,
                SseData::Done => {
                    self.saw_done = true;
                    SseStep::Finish
                },
                SseData::Payload(text) => SseStep::Take(text),
            },
            SseInput::Broken(cause) => SseStep::Fail(stream_broken(cause)),
            SseInput::End => SseStep::Finish,
        }
    }

    /// Give out what a message says.
    fn take_result(&mut self, result: GeminiStreamResult, out: &mut Vec<ResponseEvent>)
        requires
            countable(old(self).call_tracker.next, result),
        ensures
            final(self).with(final(out).deep_view()) == after_result(
                old(self).with(old(out).deep_view()),
                result,
            ),
    {
        self.saw_event = true;
        if let Some(meta) = &result.usage_metadata {
            self.token_usage = usage_from_metadata(meta);
            self.received_payload = true;
        }
        let ghost counted = self.with(out.deep_view());
        if let Some(candidates) = &result.candidates {
            let ghost views = candidates.deep_view();
            let total: usize = candidates.len();
            for i in 0..total
                invariant
                    total == candidates@.len(),
                    views == candidates.deep_view(),
                    counted.turn.next + calls_in(views) <= usize::MAX,
                    self.with(out.deep_view()) == after_contents(counted, views.take(i as int)),
            {
                proof {
                    assert(views.take(i + 1).drop_last() =~= views.take(i as int));
                    assert(views.take(i + 1).last() == candidates@[i as int].deep_view());
                    lemma_next_after_contents(counted, views.take(i as int));
                    lemma_calls_in_prefix(views, i + 1);
                }
                if let Some(content) = &candidates[i].content {
                    self.received_payload = true;
                    process_parts(
                        &content.parts,
                        out,
                        &mut self.text_state,
                        &mut self.call_tracker,
                    );
                }
            }
            proof {
                assert(views.take(total as int) =~= views);
            }
        }
    }

    /// Take one message of the stream: its content is given out, a refusal ends the stream,
    /// and what cannot be read is passed over.
    pub fn take_chunk(&mut self, chunk: SseChunk, out: &mut Vec<ResponseEvent>) -> (taken: Result<
        (),
        CodexErr,
    >)
        requires
            chunk matches SseChunk::Message(envelope) ==> countable(
                old(self).call_tracker.next,
                result_in(envelope),
            ),
        ensures
            (match taken {
                Ok(_) => refusal_in(chunk) is None,
                Err(err) => refusal_in(chunk) == Some(err.deep_view()),
            }),
            final(self).with(final(out).deep_view()) == after_chunk(
                old(self).with(old(out).deep_view()),
                chunk,
            ),
    {
        match chunk {
            SseChunk::Message(envelope) => {
                let result: GeminiStreamResult = match envelope {
                    GeminiStreamEnvelope::Wrapped { result } => result,
                    GeminiStreamEnvelope::Unwrapped(result) => result,
                };
                self.take_result(result, out);
                Ok(())
            },
            SseChunk::Refused(error) => Err(refused(error)),
            SseChunk::Unreadable => Ok(()),
        }
    }

    /// End the turn under a given id, where the stream was not closed too early.
    pub fn finish_as(&mut self, response_id: String, out: &mut Vec<ResponseEvent>) -> (ended: Result<
        (),
        CodexErr,
    >)
        ensures
            ended is Err == closed_early(old(self).with(old(out).deep_view())),
            ended matches Err(err) ==> {
                &&& err.deep_view() == ErrView::Stream(
                    "Gemini stream closed before completion"@,
                    None,
                )
                &&& *final(out) == *old(out)
            },
            ended is Ok ==> final(out).deep_view() == completed(
                old(self).with(old(out).deep_view()).turn.said,
                response_id@,
                old(self).token_usage,
            ),
            (match ended {
                Ok(_) => Ok(final(out).deep_view()),
                Err(err) => Err(err.deep_view()),
            }) == ended_as(old(self).with(old(out).deep_view()), response_id@),
    {
        if !self.saw_done && !self.received_payload && !self.saw_event {
            return Err(
                CodexErr::Stream("Gemini stream closed before completion".to_owned(), None),
            );
        }
        self.text_state.flush(out);
        emit(out, ResponseEvent::Completed { response_id, token_usage: self.token_usage });
        Ok(())
    }

    /// End the turn under a new random id, where the stream was not closed too early.
    pub fn finish(&mut self, out: &mut Vec<ResponseEvent>) -> (ended: Result<(), CodexErr>)
        ensures
            ended is Err == closed_early(old(self).with(old(out).deep_view())),
            ended matches Err(err) ==> {
                &&& err.deep_view() == ErrView::Stream(
                    "Gemini stream closed before completion"@,
                    None,
                )
                &&& *final(out) == *old(out)
            },
            ended is Ok ==> exists|id: Seq<char>| #[trigger]
                is_random_id(id) && final(out).deep_view() == completed(
                    old(self).with(old(out).deep_view()).turn.said,
                    id,
                    old(self).token_usage,
                ),
    {
        let response_id: String = new_response_id();
        self.finish_as(response_id, out)
    }
}

/// A digit of hexadecimal notation, in lower case.
pub open spec fn is_hex_digit(c: char) -> bool {
    ('0' <= c && c <= '9') || ('a' <= c && c <= 'f')
}

/// The text of a random UUID: five groups of hexadecimal digits with hyphens between them,
/// with the marks of version 4.
pub open spec fn is_random_id(id: Seq<char>) -> bool {
    &&& id.len() == 36
    &&& id[8] == '-' && id[13] == '-' && id[18] == '-' && id[23] == '-'
    &&& forall|i: int|
        0 <= i < 36 && i != 8 && i != 13 && i != 18 && i != 23 ==> is_hex_digit(#[trigger] id[i])
    &&& id[14] == '4'
    &&& id[19] == '8' || id[19] == '9' || id[19] == 'a' || id[19] == 'b'
}

/// `uuid::Uuid::new_v4` and `to_string`: a random UUID of version 4, written in lower case
/// with hyphens. Which one it is, chance decides.
#[verifier::external_body]
fn new_response_id() -> (id: String)
    ensures
        is_random_id(id@),
{
    uuid::Uuid::new_v4().to_string()
}

/// What the first candidate says.
pub open spec fn first_parts(response: GenerateContentResponse) -> Seq<PartView> {
    let contents = contents_said(response.candidates);
    if contents.len() > 0 {
        match contents[0] {
            Some(content) => content.parts,
            None => Seq::empty(),
        }
    } else {
        Seq::empty()
    }
}

/// The tokens that an answer took.
pub open spec fn response_usage(response: GenerateContentResponse) -> Option<TokenUsage> {
    match response.usage_metadata {
        Some(meta) => usage_of(meta),
        None => None,
    }
}

/// The numbers of an answer stay within what can be counted.
pub open spec fn response_countable(response: GenerateContentResponse) -> bool {
    &&& response.usage_metadata matches Some(meta) ==> usage_fits(meta)
    &&& call_count(first_parts(response)) < usize::MAX
}

/// The events of an answer: what its first candidate says, and the end of the turn.
pub open spec fn response_events(
    before: Seq<EventView>,
    response: GenerateContentResponse,
    response_id: Seq<char>,
) -> Seq<EventView> {
    completed(
        after_parts(fresh(before).turn, first_parts(response)).said,
        response_id,
        response_usage(response),
    )
}

/// Can the numbers of this answer be counted?
pub fn can_count_response(response: &GenerateContentResponse) -> (yes: bool)
    ensures
        yes == response_countable(*response),
{
    if let Some(meta) = &response.usage_metadata {
        if !usage_is_countable(meta) {
            return false;
        }
    }
    if let Some(candidates) = &response.candidates {
        if candidates.len() > 0 {
            proof {
                assert(candidates.deep_view()[0] == candidates@[0].deep_view());
            }
            if let Some(content) = &candidates[0].content {
                return room_after_parts(&content.parts, usize::MAX - 1).is_some();
            }
        }
    }
    true
}

/// Give out an answer that came as one JSON value, under a given id.
pub fn process_json_response_as(
    response: &GenerateContentResponse,
    response_id: String,
    out: &mut Vec<ResponseEvent>,
)
    requires
        response_countable(*response),
    ensures
        final(out).deep_view() == response_events(
            old(out).deep_view(),
            *response,
            response_id@,
        ),
{
    let mut text_state: GeminiTextState = GeminiTextState::default();
    let mut call_tracker: GeminiCallTracker = GeminiCallTracker::default();
    if let Some(candidates) = &response.candidates {
        if candidates.len() > 0 {
            proof {
                assert(candidates.deep_view()[0] == candidates@[0].deep_view());
            }
            if let Some(content) = &candidates[0].content {
                process_parts(&content.parts, out, &mut text_state, &mut call_tracker);
            }
        }
    }
    text_state.flush(out);
    let token_usage: Option<TokenUsage> = match &response.usage_metadata {
        Some(meta) => usage_from_metadata(meta),
        None => None,
    };
    emit(out, ResponseEvent::Completed { response_id, token_usage });
}

/// Give out an answer that came as one JSON value, under a new random id.
pub fn process_json_response(response: &GenerateContentResponse, out: &mut Vec<ResponseEvent>)
    requires
        response_countable(*response),
    ensures
        exists|id: Seq<char>| #[trigger]
            is_random_id(id) && final(out).deep_view() == response_events(
                old(out).deep_view(),
                *response,
                id,
            ),
{
    let response_id: String = new_response_id();
    process_json_response_as(response, response_id, out);
}

proof fn lemma_contents_in_order(session: SessionView, contents: Seq<Option<ContentView>>)
    requires
        is_consistent(session.turn.said),
    ensures
        is_consistent(after_contents(session, contents).turn.said),
    decreases contents.len(),
{
    if contents.len() > 0 {
        lemma_contents_in_order(session, contents.drop_last());
        let before = after_contents(session, contents.drop_last());
        if let Some(content) = contents.last() {
            law_parts_keep_events_in_order(before.turn, content.parts);
        }
    }
}

/// Whatever messages a stream brings, its events are in order from its beginning to its end,
/// and no message is left open.
pub proof fn law_stream_is_in_order(
    results: Seq<GeminiStreamResult>,
    response_id: Seq<char>,
    token_usage: Option<TokenUsage>,
)
    ensures
        is_consistent(after_results(fresh(seq![EventView::Created]), results).turn.said),
        told(
            completed(
                after_results(fresh(seq![EventView::Created]), results).turn.said,
                response_id,
                token_usage,
            ),
        ) == Some(None::<Seq<char>>),
    decreases results.len(),
{
    let start = fresh(seq![EventView::Created]);
    if results.len() == 0 {
        assert(start.turn.said.events.drop_last() =~= Seq::empty());
        assert(told(Seq::<EventView>::empty()) == Some(None::<Seq<char>>));
    } else {
        law_stream_is_in_order(results.drop_last(), response_id, token_usage);
        let before = after_results(start, results.drop_last());
        let result = results.last();
        let counted = after_count(before, result.usage_metadata);
        lemma_contents_in_order(counted, contents_said(result.candidates));
    }
    let said = after_results(start, results).turn.said;
    law_flush_ends_the_message(said);
    assert(completed(said, response_id, token_usage).drop_last() =~= flushed(said).events);
}

/// A stream is closed too early only where it brought no message and no mark.
pub proof fn law_a_message_is_enough(
    events: Seq<EventView>,
    results: Seq<GeminiStreamResult>,
)
    ensures
        closed_early(after_results(fresh(events), results)) == (results.len() == 0),
    decreases results.len(),
{
    if results.len() > 0 {
        let before = after_results(fresh(events), results.drop_last());
        let result = results.last();
        let counted = after_count(before, result.usage_metadata);
        lemma_contents_keep_marks(counted, contents_said(result.candidates));
    }
}

proof fn lemma_contents_keep_marks(session: SessionView, contents: Seq<Option<ContentView>>)
    ensures
        after_contents(session, contents).saw_event == session.saw_event,
        after_contents(session, contents).saw_done == session.saw_done,
        after_contents(session, contents).token_usage == session.token_usage,
    decreases contents.len(),
{
    if contents.len() > 0 {
        lemma_contents_keep_marks(session, contents.drop_last());
    }
}

/// No message stands for the mark that the stream is complete.
pub proof fn law_messages_are_no_mark(session: SessionView, result: GeminiStreamResult)
    ensures
        after_result(session, result).saw_done == session.saw_done,
{
    let counted = after_count(session, result.usage_metadata);
    lemma_contents_keep_marks(counted, contents_said(result.candidates));
}

/// The token count of a turn is that of the last message that had one.
pub proof fn law_last_count_stands(
    session: SessionView,
    result: GeminiStreamResult,
)
    ensures
        after_result(session, result).token_usage == (match result.usage_metadata {
            Some(meta) => usage_of(meta),
            None => session.token_usage,
        }),
{
    let counted = after_count(session, result.usage_metadata);
    lemma_contents_keep_marks(counted, contents_said(result.candidates));
}

/// The text of a list of candidates.
pub open spec fn text_of_contents(contents: Seq<Option<ContentView>>) -> Seq<char>
    decreases contents.len(),
{
    if contents.len() == 0 {
        Seq::empty()
    } else {
        text_of_contents(contents.drop_last()) + match contents.last() {
            Some(content) => text_of_parts(content.parts),
            None => Seq::empty(),
        }
    }
}

/// The text of a list of messages.
pub open spec fn text_of_results(results: Seq<GeminiStreamResult>) -> Seq<char>
    decreases results.len(),
{
    if results.len() == 0 {
        Seq::empty()
    } else {
        text_of_results(results.drop_last()) + text_of_contents(
            contents_said(results.last().candidates),
        )
    }
}

/// The calls of a list of candidates, numbered from `next` on.
pub open spec fn calls_of_contents(contents: Seq<Option<ContentView>>, next: nat) -> Seq<ItemView>
    decreases contents.len(),
{
    if contents.len() == 0 {
        Seq::empty()
    } else {
        let before = calls_of_contents(contents.drop_last(), next);
        before + match contents.last() {
            Some(content) => calls_of_parts(content.parts, next + before.len()),
            None => Seq::empty(),
        }
    }
}

/// The calls of a list of messages, numbered from `next` on.
pub open spec fn calls_of_results(results: Seq<GeminiStreamResult>, next: nat) -> Seq<ItemView>
    decreases results.len(),
{
    if results.len() == 0 {
        Seq::empty()
    } else {
        let before = calls_of_results(results.drop_last(), next);
        before + calls_of_contents(contents_said(results.last().candidates), next + before.len())
    }
}

proof fn lemma_contents_are_given_out(session: SessionView, contents: Seq<Option<ContentView>>)
    ensures
        text_given(after_contents(session, contents).turn.said.events) == text_given(
            session.turn.said.events,
        ) + text_of_contents(contents),
        calls_given(after_contents(session, contents).turn.said.events) == calls_given(
            session.turn.said.events,
        ) + calls_of_contents(contents, session.turn.next),
        after_contents(session, contents).turn.next == session.turn.next + calls_of_contents(
            contents,
            session.turn.next,
        ).len(),
    decreases contents.len(),
{
    let events = session.turn.said.events;
    if contents.len() == 0 {
        assert(text_given(events) + text_of_contents(contents) =~= text_given(events));
        assert(calls_given(events) + calls_of_contents(contents, session.turn.next)
            =~= calls_given(events));
    } else {
        lemma_contents_are_given_out(session, contents.drop_last());
        let before = after_contents(session, contents.drop_last());
        if let Some(content) = contents.last() {
            law_text_is_given_out(before.turn, content.parts);
            law_calls_are_given_out(before.turn, content.parts);
        }
        let after = after_contents(session, contents).turn.said.events;
        assert(text_given(after) =~= text_given(events) + text_of_contents(contents));
        assert(calls_given(after) =~= calls_given(events) + calls_of_contents(
            contents,
            session.turn.next,
        ));
    }
}

/// All that a stream says is given out, in order, and no more: its text bit by bit, and its
/// calls with numbers that count up over the whole stream.
pub proof fn law_stream_is_given_out(session: SessionView, results: Seq<GeminiStreamResult>)
    ensures
        text_given(after_results(session, results).turn.said.events) == text_given(
            session.turn.said.events,
        ) + text_of_results(results),
        calls_given(after_results(session, results).turn.said.events) == calls_given(
            session.turn.said.events,
        ) + calls_of_results(results, session.turn.next),
        after_results(session, results).turn.next == session.turn.next + calls_of_results(
            results,
            session.turn.next,
        ).len(),
    decreases results.len(),
{
    let events = session.turn.said.events;
    if results.len() == 0 {
        assert(text_given(events) + text_of_results(results) =~= text_given(events));
        assert(calls_given(events) + calls_of_results(results, session.turn.next) =~= calls_given(
            events,
        ));
    } else {
        law_stream_is_given_out(session, results.drop_last());
        let before = after_results(session, results.drop_last());
        let result = results.last();
        lemma_contents_are_given_out(
            after_count(before, result.usage_metadata),
            contents_said(result.candidates),
        );
        let after = after_results(session, results).turn.said.events;
        assert(text_given(after) =~= text_given(events) + text_of_results(results));
        assert(calls_given(after) =~= calls_given(events) + calls_of_results(
            results,
            session.turn.next,
        ));
    }
}

/// Ending a turn gives out no more text and no more calls.
pub proof fn law_end_adds_nothing(
    said: Said,
    response_id: Seq<char>,
    token_usage: Option<TokenUsage>,
)
    ensures
        text_given(completed(said, response_id, token_usage)) == text_given(said.events),
        calls_given(completed(said, response_id, token_usage)) == calls_given(said.events),
{
    let done = EventView::OutputItemDone(
        assistant_message(said.text.buffer, said.text.thought_signature),
    );
    let end = EventView::Completed { response_id, token_usage };
    lemma_text_given_push(said.events, done);
    lemma_text_given_push(flushed(said).events, end);
    lemma_calls_given_push(said.events, done);
    lemma_calls_given_push(flushed(said).events, end);
    assert(text_given(completed(said, response_id, token_usage)) =~= text_given(said.events));
}

/// All that the first candidate of an answer says is given out, in order, and no more.
pub proof fn law_answer_is_given_out(
    before: Seq<EventView>,
    response: GenerateContentResponse,
    response_id: Seq<char>,
)
    ensures
        text_given(response_events(before, response, response_id)) == text_given(before)
            + text_of_parts(first_parts(response)),
        calls_given(response_events(before, response, response_id)) == calls_given(before)
            + calls_of_parts(first_parts(response), 1),
{
    let turn = fresh(before).turn;
    law_text_is_given_out(turn, first_parts(response));
    law_calls_are_given_out(turn, first_parts(response));
    law_end_adds_nothing(
        after_parts(turn, first_parts(response)).said,
        response_id,
        response_usage(response),
    );
}

} // verus!
