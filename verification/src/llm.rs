//! The chat-completion client's logic: the request it sends, and the
//! decoding of the server-sent event stream that answers it.
use vstd::prelude::*;
use vstd::string::*;

use crate::text::{
    chars_of, find_char, index_of, lemma_index_of_bounds, opt_string_view, starts_with_chars, str_equal, trim, trim_str,
};

verus! {

/// One message of a conversation.
pub struct ChatMessage {
    pub role: String,
    pub content: String,
}

/// Where and how to reach the model.
pub struct LlmConfig {
    pub api_key: String,
    pub endpoint: String,
    pub model: String,
}

/// A piece of the streamed answer, as reported to the window (`llm-stream`).
pub struct LlmStreamEvent {
    pub chunk: String,
    pub done: bool,
}

/// The body of a chat-completion request.
pub struct ApiRequest {
    pub model: String,
    pub messages: Vec<ChatMessage>,
    pub stream: bool,
}

/// The text delta of a streamed choice.
pub struct StreamDelta {
    pub content: Option<String>,
}

/// A streamed choice.
pub struct StreamChoice {
    pub delta: StreamDelta,
}

/// One `data:` record of the stream.
pub struct StreamChunk {
    pub choices: Vec<StreamChoice>,
}

/// A message as (role, content) text.
pub open spec fn message_view(m: ChatMessage) -> (Seq<char>, Seq<char>) {
    (m.role@, m.content@)
}

/// The messages of a sequence as (role, content) text.
pub open spec fn messages_view(s: Seq<ChatMessage>) -> Seq<(Seq<char>, Seq<char>)> {
    s.map_values(|m: ChatMessage| message_view(m))
}

/// The conversation sent to the model: the system prompt first, when there
/// is one, then the messages in order.
pub open spec fn conversation(
    system_prompt: Option<Seq<char>>,
    messages: Seq<(Seq<char>, Seq<char>)>,
) -> Seq<(Seq<char>, Seq<char>)> {
    match system_prompt {
        Some(p) => seq![("system"@, p)] + messages,
        None => messages,
    }
}

/// The conversation keeps every message: the system prompt, when there is
/// one, comes first as a `system` message, and after it come all the given
/// messages, none dropped, none added, in their order.
pub proof fn law_conversation_keeps_every_message(
    system_prompt: Option<Seq<char>>,
    messages: Seq<(Seq<char>, Seq<char>)>,
)
    ensures
        conversation(system_prompt, messages).len() == messages.len() + (if system_prompt is Some {
            1int
        } else {
            0int
        }),
        system_prompt matches Some(p) ==> conversation(system_prompt, messages)[0] == (
            "system"@,
            p,
        ),
        forall|i: int|
            #![trigger messages[i]]
            0 <= i < messages.len() ==> conversation(system_prompt, messages)[i + (
            if system_prompt is Some {
                1int
            } else {
                0int
            })] == messages[i],
{
}

/// The request for a conversation: the configured model, the system prompt
/// before the messages, and streaming on.
pub fn build_request(config: &LlmConfig, messages: Vec<ChatMessage>, system_prompt: Option<String>) -> (r:
    ApiRequest)
    ensures
        r.model@ == config.model@,
        r.stream,
        messages_view(r.messages@) == conversation(opt_string_view(system_prompt), messages_view(messages@)),
        r.messages@.len() == messages@.len() + (if system_prompt is Some { 1int } else { 0int }),
        system_prompt matches Some(p) ==> r.messages@[0].role@ == "system"@ && r.messages@[0].content@
            == p@,
        forall|i: int|
            #![trigger messages@[i]]
            0 <= i < messages@.len() ==> message_view(
                r.messages@[i + (if system_prompt is Some { 1int } else { 0int })],
            ) == message_view(messages@[i]),
{
    let ghost sp = opt_string_view(system_prompt);
    let ghost given = messages_view(messages@);
    let mut full: Vec<ChatMessage> = Vec::new();
    if let Some(sys) = system_prompt {
        full.push(ChatMessage { role: String::from_str("system"), content: sys });
    }
    let ghost prefix = messages_view(full@);
    let n = messages.len();
    for m in it: messages
        invariant
            messages_view(full@) == prefix + messages_view(it.seq().take(it.index() as int)),
            prefix == match sp {
                Some(p) => seq![("system"@, p)],
                None => seq![],
            },
            given == messages_view(it.seq()),
    {
        let ghost before = full@;
        full.push(m);
        proof {
            assert(it.seq().take(it.index() + 1) =~= it.seq().take(it.index() as int).push(m));
            assert(messages_view(full@) =~= messages_view(before).push(message_view(m)));
            assert(messages_view(it.seq().take(it.index() + 1)) =~= messages_view(
                it.seq().take(it.index() as int),
            ).push(message_view(m)));
        }
    }
    proof {
        assert(given.len() == n);
        assert(messages_view(full@) =~= conversation(sp, given));
        law_conversation_keeps_every_message(sp, given);
        let off: int = if sp is Some { 1 } else { 0 };
        assert forall|i: int| 0 <= i < messages@.len() implies message_view(full@[i + off])
            == message_view(#[trigger] messages@[i]) by {
            assert(messages_view(full@)[i + off] == message_view(full@[i + off]));
            assert(given[i] == message_view(messages@[i]));
        }
        if sp is Some {
            assert(messages_view(full@)[0] == message_view(full@[0]));
        }
    }
    ApiRequest { model: config.model.clone(), messages: full, stream: true }
}

/// The chat-completions endpoint under the configured base URL.
pub fn completions_url(endpoint: &str) -> (r: String)
    ensures
        r@ == endpoint@ + "/chat/completions"@,
{
    String::from_str(endpoint).concat("/chat/completions")
}

/// The `Authorization` header value for an API key.
pub fn authorization_header(api_key: &str) -> (r: String)
    ensures
        r@ == "Bearer "@ + api_key@,
{
    String::from_str("Bearer ").concat(api_key)
}

/// The error for a response whose status is not a success.
pub fn api_error_message(status: &str, body: &str) -> (r: String)
    ensures
        r@ == "API error "@ + status@ + ": "@ + body@,
{
    String::from_str("API error ").concat(status).concat(": ").concat(body)
}

/// What a stream line means.
pub enum SseLine {
    /// `data: [DONE]`: the answer is complete.
    Done,
    /// `data: <payload>`, with the payload.
    Data(String),
    /// Anything else.
    Other,
}

/// The meaning of a (trimmed) stream line.
pub open spec fn sse_line_kind(line: Seq<char>) -> Option<Option<Seq<char>>> {
    if line.len() >= 6 && line.subrange(0, 6) == "data: "@ {
        let data = line.subrange(6, line.len() as int);
        if data == "[DONE]"@ {
            Some(None)
        } else {
            Some(Some(data))
        }
    } else {
        None
    }
}

/// The kind of a line as text: `Some(None)` for done, `Some(Some(d))` for
/// data `d`, `None` for other lines.
pub open spec fn sse_line_view(l: SseLine) -> Option<Option<Seq<char>>> {
    match l {
        SseLine::Done => Some(None),
        SseLine::Data(d) => Some(Some(d@)),
        SseLine::Other => None,
    }
}

/// Classifies a stream line: a `data: ` prefix marks a record, whose payload
/// `[DONE]` ends the stream.
pub fn classify_sse_line(line: &str) -> (r: SseLine)
    ensures
        sse_line_view(r) == sse_line_kind(line@),
{
    let chars = chars_of(line);
    let prefix = chars_of("data: ");
    proof {
        reveal_strlit("data: ");
    }
    if !starts_with_chars(&chars, &prefix) {
        return SseLine::Other;
    }
    let data = line.substring_char(6, chars.len());
    if str_equal(data, "[DONE]") {
        SseLine::Done
    } else {
        SseLine::Data(String::from_str(data))
    }
}

/// The content of a record's first choice, if it has one.
pub open spec fn first_content(chunk: StreamChunk) -> Option<Seq<char>> {
    if chunk.choices@.len() > 0 {
        opt_string_view(chunk.choices@[0].delta.content)
    } else {
        None
    }
}

/// The decoder of the answer stream: text received but not yet split into
/// lines, and the answer assembled so far.
pub struct SseDecoder {
    pub buffer: String,
    pub full_response: String,
}

impl SseDecoder {
    /// A decoder that has received nothing.
    pub fn new() -> (r: SseDecoder)
        ensures
            r.buffer@ == Seq::<char>::empty(),
            r.full_response@ == Seq::<char>::empty(),
    {
        SseDecoder { buffer: String::new(), full_response: String::new() }
    }

    /// Appends received text to the buffer.
    pub fn push_text(&mut self, text: &str)
        ensures
            final(self).buffer@ == old(self).buffer@ + text@,
            final(self).full_response == old(self).full_response,
    {
        self.buffer.append(text);
    }

    /// Takes the first complete line out of the buffer, trimmed; none while
    /// the buffer holds no `'\n'`.
    pub fn next_line(&mut self) -> (r: Option<String>)
        ensures
            final(self).full_response == old(self).full_response,
            match r {
                Some(line) => {
                    let k = index_of(old(self).buffer@, '\n');
                    &&& 0 <= k < old(self).buffer@.len()
                    &&& line@ == trim(old(self).buffer@.subrange(0, k))
                    &&& final(self).buffer@ == old(self).buffer@.subrange(
                        k + 1,
                        old(self).buffer@.len() as int,
                    )
                    &&& split_lines(old(self).buffer@) == (
                        seq![old(self).buffer@.subrange(0, k)] + split_lines(final(self).buffer@).0,
                        split_lines(final(self).buffer@).1,
                    )
                },
                None => {
                    &&& index_of(old(self).buffer@, '\n') == -1
                    &&& final(self).buffer == old(self).buffer
                    &&& split_lines(old(self).buffer@) == (Seq::<Seq<char>>::empty(), old(
                        self,
                    ).buffer@)
                },
            },
    {
        let chars = chars_of(self.buffer.as_str());
        match find_char(&chars, '\n') {
            None => None,
            Some(k) => {
                proof {
                    crate::text::lemma_index_of_bounds(chars@, '\n');
                }
                let n = chars.len();
                let line = trim_str(self.buffer.as_str().substring_char(0, k));
                let rest = String::from_str(self.buffer.as_str().substring_char(k + 1, n));
                self.buffer = rest;
                Some(line)
            },
        }
    }

    /// Takes in a parsed record: the content of its first choice, if any, is
    /// appended to the answer and reported.
    pub fn accept_chunk(&mut self, chunk: &StreamChunk) -> (r: Option<LlmStreamEvent>)
        ensures
            final(self).buffer == old(self).buffer,
            match first_content(*chunk) {
                Some(c) => {
                    &&& final(self).full_response@ == old(self).full_response@ + c
                    &&& r matches Some(e) && e.chunk@ == c && !e.done
                },
                None => r is None && final(self).full_response == old(self).full_response,
            },
    {
        if chunk.choices.len() == 0 {
            return None;
        }
        match &chunk.choices[0].delta.content {
            Some(content) => {
                self.full_response.append(content.as_str());
                Some(LlmStreamEvent { chunk: content.clone(), done: false })
            },
            None => None,
        }
    }

    /// Takes in one (trimmed) line with its payload as parsed, if it had one
    /// that parsed: the answer and the report follow `line_effect`.
    pub fn apply_line(&mut self, line: &str, parsed: Option<&StreamChunk>) -> (r: SseOutcome)
        ensures
            final(self).buffer == old(self).buffer,
            match line_effect(
                line@,
                match parsed {
                    Some(c) => first_content(*c),
                    None => None,
                },
            ) {
                SseEffect::Finish => {
                    &&& r matches SseOutcome::Finished(e) && e.chunk@ == Seq::<char>::empty() && e.done
                    &&& final(self).full_response == old(self).full_response
                },
                SseEffect::Emit(c) => {
                    &&& r matches SseOutcome::Emitted(e) && e.chunk@ == c && !e.done
                    &&& final(self).full_response@ == old(self).full_response@ + c
                },
                SseEffect::Skip => {
                    &&& r is Nothing
                    &&& final(self).full_response == old(self).full_response
                },
            },
    {
        match classify_sse_line(line) {
            SseLine::Done => SseOutcome::Finished(done_event()),
            SseLine::Other => SseOutcome::Nothing,
            SseLine::Data(_) => match parsed {
                None => SseOutcome::Nothing,
                Some(chunk) => match self.accept_chunk(chunk) {
                    Some(e) => SseOutcome::Emitted(e),
                    None => SseOutcome::Nothing,
                },
            },
        }
    }
}

/// The event that closes the stream: an empty chunk, marked done.
pub fn done_event() -> (r: LlmStreamEvent)
    ensures
        r.chunk@ == Seq::<char>::empty(),
        r.done,
{
    LlmStreamEvent { chunk: String::new(), done: true }
}

/// The complete lines of `s`, each without its `'\n'`, and the text after
/// the last `'\n'`.
pub open spec fn split_lines(s: Seq<char>) -> (Seq<Seq<char>>, Seq<char>)
    decreases s.len(),
{
    let k = index_of(s, '\n');
    if k < 0 {
        (seq![], s)
    } else {
        proof {
            lemma_index_of_bounds(s, '\n');
        }
        let rest = split_lines(s.subrange(k + 1, s.len() as int));
        (seq![s.subrange(0, k)] + rest.0, rest.1)
    }
}

/// The lines the decoder yields, and what stays buffered, when it starts
/// with `buffer`, then receives `chunks` in order and takes out every
/// complete line after each one.
pub open spec fn decode_chunks(buffer: Seq<char>, chunks: Seq<Seq<char>>) -> (
    Seq<Seq<char>>,
    Seq<char>,
)
    decreases chunks.len(),
{
    if chunks.len() == 0 {
        (seq![], buffer)
    } else {
        let step = split_lines(buffer + chunks[0]);
        let rest = decode_chunks(step.1, chunks.drop_first());
        (step.0 + rest.0, rest.1)
    }
}

/// The chunks joined in order.
pub open spec fn concat_chunks(chunks: Seq<Seq<char>>) -> Seq<char>
    decreases chunks.len(),
{
    if chunks.len() == 0 {
        seq![]
    } else {
        chunks[0] + concat_chunks(chunks.drop_first())
    }
}

/// The first `'\n'` of `a` is the first of `a + b`.
proof fn lemma_index_of_prefix(a: Seq<char>, b: Seq<char>)
    requires
        index_of(a, '\n') >= 0,
    ensures
        index_of(a + b, '\n') == index_of(a, '\n'),
{
    lemma_index_of_bounds(a, '\n');
    let k = index_of(a, '\n');
    assert forall|j: int| 0 <= j < k implies (a + b)[j] != '\n' by {
        assert((a + b)[j] == a[j]);
    }
    assert((a + b)[k] == a[k]);
    crate::text::lemma_index_of_at(a + b, '\n', k);
}

/// Splitting `a + b` is splitting `a`, then splitting what `a` left over
/// followed by `b`.
pub proof fn lemma_split_lines_append(a: Seq<char>, b: Seq<char>)
    ensures
        split_lines(a + b) == (
            split_lines(a).0 + split_lines(split_lines(a).1 + b).0,
            split_lines(split_lines(a).1 + b).1,
        ),
    decreases a.len(),
{
    let k = index_of(a, '\n');
    if k < 0 {
        assert(split_lines(a).0 =~= Seq::<Seq<char>>::empty());
        assert(split_lines(a).0 + split_lines(a + b).0 =~= split_lines(a + b).0);
    } else {
        lemma_index_of_bounds(a, '\n');
        lemma_index_of_prefix(a, b);
        let a2 = a.subrange(k + 1, a.len() as int);
        lemma_split_lines_append(a2, b);
        assert((a + b).subrange(k + 1, (a + b).len() as int) =~= a2 + b);
        assert((a + b).subrange(0, k) =~= a.subrange(0, k));
        let r = split_lines(split_lines(a2).1 + b);
        assert(seq![a.subrange(0, k)] + (split_lines(a2).0 + r.0) =~= (seq![a.subrange(0, k)]
            + split_lines(a2).0) + r.0);
    }
}

/// What stays after the last `'\n'` holds no `'\n'`.
proof fn lemma_split_lines_rest(s: Seq<char>)
    ensures
        index_of(split_lines(s).1, '\n') == -1,
    decreases s.len(),
{
    let k = index_of(s, '\n');
    if k >= 0 {
        lemma_index_of_bounds(s, '\n');
        lemma_split_lines_rest(s.subrange(k + 1, s.len() as int));
    }
}

/// The decoded lines do not depend on how the body is cut into chunks: from
/// a buffer without a complete line (as every buffer is once its lines are
/// taken out), they are the complete lines of all the text received, and
/// what stays buffered is the text after its last `'\n'`.
pub proof fn law_lines_independent_of_chunking(buffer: Seq<char>, chunks: Seq<Seq<char>>)
    requires
        index_of(buffer, '\n') == -1,
    ensures
        decode_chunks(buffer, chunks) == split_lines(buffer + concat_chunks(chunks)),
    decreases chunks.len(),
{
    if chunks.len() == 0 {
        assert(buffer + concat_chunks(chunks) =~= buffer);
    } else {
        let c = chunks[0];
        let cs = chunks.drop_first();
        let step = split_lines(buffer + c);
        lemma_split_lines_rest(buffer + c);
        law_lines_independent_of_chunking(step.1, cs);
        lemma_split_lines_append(buffer + c, concat_chunks(cs));
        assert(buffer + concat_chunks(chunks) =~= (buffer + c) + concat_chunks(cs));
    }
}

/// What one stream line does to the answer.
pub enum SseEffect {
    /// The stream is complete.
    Finish,
    /// The text is appended to the answer and reported.
    Emit(Seq<char>),
    /// Nothing happens.
    Skip,
}

/// The effect of a (trimmed) line, given the first-choice content of its
/// payload as parsed (none when the payload does not parse or has no such
/// content): `data: [DONE]` finishes, a data line with content emits it, and
/// every other line is skipped.
pub open spec fn line_effect(line: Seq<char>, content: Option<Seq<char>>) -> SseEffect {
    match sse_line_kind(line) {
        None => SseEffect::Skip,
        Some(None) => SseEffect::Finish,
        Some(Some(_)) => match content {
            Some(c) => SseEffect::Emit(c),
            None => SseEffect::Skip,
        },
    }
}

/// The content a parsed payload contributes: the first choice's content.
pub open spec fn parsed_content(parsed: Option<StreamChunk>) -> Option<Seq<char>> {
    match parsed {
        Some(c) => first_content(c),
        None => None,
    }
}

/// The answer and the reported events (chunk, done) of a series of lines,
/// each with its parsed content, up to and including the line that
/// finishes the stream.
pub open spec fn replay(steps: Seq<(Seq<char>, Option<Seq<char>>)>) -> (Seq<char>, Seq<(Seq<char>, bool)>)
    decreases steps.len(),
{
    if steps.len() == 0 {
        (seq![], seq![])
    } else {
        match line_effect(steps[0].0, steps[0].1) {
            SseEffect::Finish => (seq![], seq![(seq![], true)]),
            SseEffect::Emit(c) => {
                let rest = replay(steps.drop_first());
                (c + rest.0, seq![(c, false)] + rest.1)
            },
            SseEffect::Skip => replay(steps.drop_first()),
        }
    }
}

/// A line that does something: it finishes the stream or emits content.
pub open spec fn effective(step: (Seq<char>, Option<Seq<char>>)) -> bool {
    line_effect(step.0, step.1) != SseEffect::Skip
}

/// Lines that are not data lines, whose payload does not parse, or whose
/// payload carries no content change neither the answer nor the events:
/// dropping them from any series of lines leaves both as they were.
pub proof fn law_skipped_lines_change_nothing(steps: Seq<(Seq<char>, Option<Seq<char>>)>)
    ensures
        replay(steps) == replay(steps.filter(|s: (Seq<char>, Option<Seq<char>>)| effective(s))),
    decreases steps.len(),
{
    let p = |s: (Seq<char>, Option<Seq<char>>)| effective(s);
    if steps.len() == 0 {
        reveal(Seq::filter);
        assert(steps.filter(p) =~= steps);
    } else {
        let x = steps[0];
        let tail = steps.drop_first();
        assert(steps =~= seq![x] + tail);
        tail.lemma_filter_prepend(x, p);
        law_skipped_lines_change_nothing(tail);
        if effective(x) {
            let f = seq![x] + tail.filter(p);
            assert(f[0] == x);
            assert(f.drop_first() =~= tail.filter(p));
        } else {
            assert(seq![x].filter(p) =~= Seq::<(Seq<char>, Option<Seq<char>>)>::empty()) by {
                reveal(Seq::filter);
            };
            assert(Seq::<(Seq<char>, Option<Seq<char>>)>::empty() + tail.filter(p) =~= tail.filter(p));
        }
    }
}

/// What taking in one line led to.
pub enum SseOutcome {
    /// The stream is complete; report this event and answer with the text.
    Finished(LlmStreamEvent),
    /// Report this event.
    Emitted(LlmStreamEvent),
    /// Nothing to report.
    Nothing,
}

/// Splitting a line off the buffer loses nothing: the buffer was the raw line,
/// a `'\n'`, and what stays buffered; the reported line is the raw one trimmed.
pub proof fn law_next_line_conserves(buffer: Seq<char>)
    requires
        index_of(buffer, '\n') >= 0,
    ensures
        ({
            let k = index_of(buffer, '\n');
            buffer == buffer.subrange(0, k) + seq!['\n'] + buffer.subrange(k + 1, buffer.len() as int)
        }),
{
    crate::text::lemma_index_of_bounds(buffer, '\n');
    let k = index_of(buffer, '\n');
    assert(buffer =~= buffer.subrange(0, k) + seq!['\n'] + buffer.subrange(k + 1, buffer.len() as int));
}

} // verus!
