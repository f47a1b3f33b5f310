//! Reassembly of a streamed answer.
//!
//! The answer arrives as bytes in chunks of any size. The bytes form lines; a line
//! that starts with `data: ` carries one JSON event. Text deltas are handed on as
//! they come, the fragments of a tool call are joined in arrival order, and the
//! stream ends with the whole text or with the finished tool call. What is read
//! depends on the bytes alone, not on where the chunks were cut.

use crate::json::Json;
use crate::openai::{
    clone_tool_calls, opt_view, views, Choice, ChoiceView, FunctionCallView, Message, MessageView,
    Role, StreamChannelChunk, StreamChannelChunkView, StreamChunk, ToolCall, ToolCallView,
};
use crate::jsonio::{json_parse, text_parse};
use crate::wire::{same_text, stream_chunk_of};
use vstd::prelude::*;
use vstd::slice::slice_subrange;
use vstd::string::StringExecFns;

verus! {

/// What the reassembly hands to its consumer.
#[derive(Debug, Clone, PartialEq)]
pub enum StreamEvent {
    /// A piece of the answer's text, in stream order.
    TextDelta(String),
    /// A fragment of a tool call, as it arrived.
    ToolCallDelta(ToolCall),
    /// The answer is complete; this is its whole text.
    Finished(String),
    /// The model asks for these calls, their arguments joined.
    ToolCallsReady(Vec<ToolCall>),
}

pub enum StreamEventView {
    TextDelta(Seq<char>),
    ToolCallDelta(ToolCallView),
    Finished(Seq<char>),
    ToolCallsReady(Seq<ToolCallView>),
}

impl View for StreamEvent {
    type V = StreamEventView;

    open spec fn view(&self) -> StreamEventView {
        match self {
            StreamEvent::TextDelta(t) => StreamEventView::TextDelta(t@),
            StreamEvent::ToolCallDelta(c) => StreamEventView::ToolCallDelta(c@),
            StreamEvent::Finished(t) => StreamEventView::Finished(t@),
            StreamEvent::ToolCallsReady(calls) => StreamEventView::ToolCallsReady(views(calls@)),
        }
    }
}

/// How far a stream has been read: the text so far, the tool call being joined,
/// and whether a terminal event was seen.
pub struct Progress {
    pub content: Seq<char>,
    pub call: Option<ToolCallView>,
    pub done: bool,
}

/// The state of the reassembly: the bytes of the line that is not complete yet,
/// and the progress.
pub struct ReassemblerView {
    pub pending: Seq<u8>,
    pub progress: Progress,
}

/// The reassembly engine of one streamed answer.
#[derive(Debug, Clone)]
pub struct Reassembler {
    pub pending: Vec<u8>,
    pub content: String,
    pub call: Option<ToolCall>,
    pub done: bool,
}

impl View for Reassembler {
    type V = ReassemblerView;

    open spec fn view(&self) -> ReassemblerView {
        ReassemblerView {
            pending: self.pending@,
            progress: Progress {
                content: self.content@,
                call: opt_view(self.call),
                done: self.done,
            },
        }
    }
}

/// The line feed that ends a line.
pub const LINE_FEED: u8 = 10;

/// The carriage return that may stand before the line feed.
pub const CARRIAGE_RETURN: u8 = 13;

/// The bytes of `data: `, with which an event line starts.
pub open spec fn data_prefix() -> Seq<u8> {
    seq![100u8, 97u8, 116u8, 97u8, 58u8, 32u8]
}

/// The bytes of `[DONE]`, the payload that carries no event.
pub open spec fn done_marker() -> Seq<u8> {
    seq![91u8, 68u8, 79u8, 78u8, 69u8, 93u8]
}

/// The call being joined once `fragment` has arrived: the first fragment starts
/// it, a later one adds its argument text to the end.
pub open spec fn accumulate(call: Option<ToolCallView>, fragment: ToolCallView) -> ToolCallView {
    match call {
        None => fragment,
        Some(c) => ToolCallView {
            function: FunctionCallView {
                arguments: c.function.arguments + fragment.function.arguments,
                ..c.function
            },
            ..c
        },
    }
}

/// The text that a choice adds to the answer: the content of its delta, unless a
/// tool call is being joined.
pub open spec fn choice_text(p: Progress, choice: ChoiceView) -> Option<Seq<char>> {
    match choice.delta {
        Some(delta) => if p.call is None {
            delta.content
        } else {
            None
        },
        None => None,
    }
}

/// The tool-call fragment that a choice carries: the first one of its delta.
pub open spec fn choice_fragment(choice: ChoiceView) -> Option<ToolCallView> {
    match choice.delta {
        Some(delta) => match delta.tool_calls {
            Some(calls) => if calls.len() > 0 {
                Some(calls[0])
            } else {
                None
            },
            None => None,
        },
        None => None,
    }
}

/// One choice of a delta: the progress after it, the events it gives, and whether
/// the rest of the delta is passed over.
///
/// Its text comes first. A finish reason comes next: `stop` ends the stream with
/// the whole text, `tool_calls` ends it with the joined call, any other reason
/// ends the delta only. Without a finish reason a tool-call fragment is joined.
pub open spec fn choice_step(p: Progress, choice: ChoiceView) -> (
    Progress,
    Seq<StreamEventView>,
    bool,
) {
    let (mid, e1) = match choice_text(p, choice) {
        Some(t) => (Progress { content: p.content + t, ..p }, seq![StreamEventView::TextDelta(t)]),
        None => (p, Seq::empty()),
    };
    match choice.finish_reason {
        Some(reason) => if reason == "stop"@ {
            (Progress { done: true, ..mid }, e1.push(StreamEventView::Finished(mid.content)), true)
        } else if reason == "tool_calls"@ {
            (
                Progress { done: true, ..mid },
                e1.push(
                    StreamEventView::ToolCallsReady(
                        match mid.call {
                            Some(c) => seq![c],
                            None => Seq::empty(),
                        },
                    ),
                ),
                true,
            )
        } else {
            (mid, e1, true)
        },
        None => match choice_fragment(choice) {
            Some(f) => (
                Progress { call: Some(accumulate(mid.call, f)), ..mid },
                e1.push(StreamEventView::ToolCallDelta(f)),
                false,
            ),
            None => (mid, e1, false),
        },
    }
}

/// The choices of one delta, in order, up to the first that ends the delta.
pub open spec fn delta_step(p: Progress, choices: Seq<ChoiceView>) -> (
    Progress,
    Seq<StreamEventView>,
)
    decreases choices.len(),
{
    if choices.len() == 0 {
        (p, Seq::empty())
    } else {
        let (mid, e1, stop) = choice_step(p, choices[0]);
        if stop {
            (mid, e1)
        } else {
            let (last_p, e2) = delta_step(mid, choices.drop_first());
            (last_p, e1 + e2)
        }
    }
}

/// A line without the carriage return at its end, if it has one.
pub open spec fn trimmed(line: Seq<u8>) -> Seq<u8> {
    if line.len() > 0 && line.last() == CARRIAGE_RETURN {
        line.drop_last()
    } else {
        line
    }
}

/// The payload of an event line: what follows `data: `. A line that does not start
/// with the prefix has none.
pub open spec fn payload_of(line: Seq<u8>) -> Option<Seq<u8>> {
    let t = trimmed(line);
    if t.len() >= 6 && t.subrange(0, 6) == data_prefix() {
        Some(t.subrange(6, t.len() as int))
    } else {
        None
    }
}

/// One complete line: an event line whose payload is a JSON document of the shape
/// of a stream event is applied as a delta; the `[DONE]` line, a line that is no
/// event line, and a payload that is not such a document change nothing.
pub open spec fn line_step(p: Progress, line: Seq<u8>) -> (Progress, Seq<StreamEventView>) {
    match payload_of(line) {
        Some(payload) => if payload == done_marker() {
            (p, Seq::empty())
        } else {
            match json_parse(payload) {
                Ok(j) => match stream_chunk_of(j) {
                    Some(chunk) => delta_step(p, chunk.choices),
                    None => (p, Seq::empty()),
                },
                Err(_) => (p, Seq::empty()),
            }
        },
        None => (p, Seq::empty()),
    }
}

/// The place of the first line feed in `buf`, or its length where it has none.
pub open spec fn line_end(buf: Seq<u8>) -> int
    decreases buf.len(),
{
    if buf.len() == 0 {
        0
    } else if buf[0] == LINE_FEED {
        0
    } else {
        1 + line_end(buf.drop_first())
    }
}

/// Reads the complete lines of `buf` in order: the progress after them, the events
/// they give, and the bytes of the last, incomplete line. Once a terminal event is
/// seen nothing more is read, and the bytes left are dropped.
pub open spec fn run(p: Progress, buf: Seq<u8>) -> (Progress, Seq<StreamEventView>, Seq<u8>)
    decreases buf.len(),
{
    if p.done {
        (p, Seq::empty(), Seq::empty())
    } else if !(0 <= line_end(buf) < buf.len()) {
        (p, Seq::empty(), buf)
    } else {
        let end = line_end(buf);
        let (mid, e1) = line_step(p, buf.subrange(0, end));
        let (last_p, e2, rest) = run(mid, buf.subrange(end + 1, buf.len() as int));
        (last_p, e1 + e2, rest)
    }
}

/// One chunk: the pending bytes and the chunk are read as one buffer.
pub open spec fn feed_spec(r: ReassemblerView, chunk: Seq<u8>) -> (
    ReassemblerView,
    Seq<StreamEventView>,
) {
    let (p, events, rest) = run(r.progress, r.pending + chunk);
    (ReassemblerView { pending: rest, progress: p }, events)
}

/// A list of chunks, one after the other.
pub open spec fn feed_all(r: ReassemblerView, chunks: Seq<Seq<u8>>) -> (
    ReassemblerView,
    Seq<StreamEventView>,
)
    decreases chunks.len(),
{
    if chunks.len() == 0 {
        (r, Seq::empty())
    } else {
        let (r1, e1) = feed_spec(r, chunks[0]);
        let (r2, e2) = feed_all(r1, chunks.drop_first());
        (r2, e1 + e2)
    }
}

/// The bytes of a list of chunks, one after the other.
pub open spec fn joined_bytes(chunks: Seq<Seq<u8>>) -> Seq<u8>
    decreases chunks.len(),
{
    if chunks.len() == 0 {
        Seq::empty()
    } else {
        chunks[0] + joined_bytes(chunks.drop_first())
    }
}

/// The first line feed lies within the buffer or at its end, and no byte before it
/// is a line feed.
pub proof fn lemma_line_end(buf: Seq<u8>)
    ensures
        0 <= line_end(buf) <= buf.len(),
        forall|i: int| 0 <= i < line_end(buf) ==> buf[i] != LINE_FEED,
        line_end(buf) < buf.len() ==> buf[line_end(buf)] == LINE_FEED,
    decreases buf.len(),
{
    if buf.len() > 0 && buf[0] != LINE_FEED {
        lemma_line_end(buf.drop_first());
        assert forall|i: int| 0 <= i < line_end(buf) implies buf[i] != LINE_FEED by {
            if i > 0 {
                assert(buf[i] == buf.drop_first()[i - 1]);
            }
        }
    }
}

/// The first line feed of two buffers put together: that of the first where it has
/// one, else that of the second, counted from the start.
pub proof fn lemma_line_end_concat(x: Seq<u8>, y: Seq<u8>)
    ensures
        line_end(x + y) == if line_end(x) < x.len() {
            line_end(x)
        } else {
            x.len() + line_end(y)
        },
    decreases x.len(),
{
    lemma_line_end(x);
    if x.len() == 0 {
        assert(x + y =~= y);
    } else {
        assert((x + y)[0] == x[0]);
        if x[0] != LINE_FEED {
            assert((x + y).drop_first() =~= x.drop_first() + y);
            lemma_line_end_concat(x.drop_first(), y);
        }
    }
}

/// Reading a buffer in two parts gives what reading it whole gives: the bytes left
/// of the first part are read again before the second.
pub proof fn lemma_run_concat(p: Progress, x: Seq<u8>, y: Seq<u8>)
    ensures
        run(p, x + y) == ({
            let (mid, e1, r1) = run(p, x);
            let (last_p, e2, r2) = run(mid, r1 + y);
            (last_p, e1 + e2, r2)
        }),
    decreases x.len(),
{
    lemma_line_end(x);
    lemma_line_end_concat(x, y);
    if p.done {
        assert(Seq::<StreamEventView>::empty() + Seq::<StreamEventView>::empty() =~= Seq::<
            StreamEventView,
        >::empty());
    } else if line_end(x) >= x.len() {
        let (last_p, e2, r2) = run(p, x + y);
        assert(Seq::<StreamEventView>::empty() + e2 =~= e2);
    } else {
        let end = line_end(x);
        let line = x.subrange(0, end);
        let tail = x.subrange(end + 1, x.len() as int);
        assert((x + y).subrange(0, end) =~= line);
        assert((x + y).subrange(end + 1, (x + y).len() as int) =~= tail + y);
        let (pa, ea) = line_step(p, line);
        lemma_run_concat(pa, tail, y);
        let (mid, e1, r1) = run(pa, tail);
        let (last_p, e2, r2) = run(mid, r1 + y);
        assert(ea + (e1 + e2) =~= (ea + e1) + e2);
    }
}

/// Chunk-boundary independence, for one cut: feeding two chunks one after the other
/// gives the state and the events, in order, that feeding their bytes as one chunk
/// gives.
pub proof fn lemma_feed_split(r: ReassemblerView, a: Seq<u8>, b: Seq<u8>)
    ensures
        feed_spec(r, a + b) == ({
            let (r1, e1) = feed_spec(r, a);
            let (r2, e2) = feed_spec(r1, b);
            (r2, e1 + e2)
        }),
{
    assert(r.pending + (a + b) =~= (r.pending + a) + b);
    lemma_run_concat(r.progress, r.pending + a, b);
}

/// A state is settled when it holds no line that could be read: its pending bytes
/// hold no line feed, or the stream is done and nothing is pending. A new state is
/// settled, and so is every state after a chunk.
pub open spec fn settled(r: ReassemblerView) -> bool {
    if r.progress.done {
        r.pending.len() == 0
    } else {
        line_end(r.pending) >= r.pending.len()
    }
}

/// What is left after reading a buffer holds no complete line.
pub proof fn lemma_run_settles(p: Progress, buf: Seq<u8>)
    ensures
        settled(ReassemblerView { pending: run(p, buf).2, progress: run(p, buf).0 }),
    decreases buf.len(),
{
    lemma_line_end(buf);
    if !p.done && line_end(buf) < buf.len() {
        let end = line_end(buf);
        let (mid, e1) = line_step(p, buf.subrange(0, end));
        lemma_run_settles(mid, buf.subrange(end + 1, buf.len() as int));
    }
}

/// Feeding no bytes to a settled state changes nothing and gives no event.
pub proof fn lemma_feed_nothing(r: ReassemblerView)
    requires
        settled(r),
    ensures
        feed_spec(r, Seq::empty()) == (r, Seq::<StreamEventView>::empty()),
{
    assert(r.pending + Seq::<u8>::empty() =~= r.pending);
    assert(feed_spec(r, Seq::empty()).0.pending =~= r.pending);
}

/// Chunk-boundary independence: however a byte stream is cut into chunks, feeding
/// the chunks in order gives the state and the sequence of events that feeding the
/// whole stream at once gives.
pub proof fn lemma_chunking_independent(r: ReassemblerView, chunks: Seq<Seq<u8>>)
    requires
        settled(r) || chunks.len() > 0,
    ensures
        feed_all(r, chunks) == feed_spec(r, joined_bytes(chunks)),
    decreases chunks.len(),
{
    if chunks.len() == 0 {
        lemma_feed_nothing(r);
    } else {
        let (r1, e1) = feed_spec(r, chunks[0]);
        lemma_run_settles(r.progress, r.pending + chunks[0]);
        lemma_chunking_independent(r1, chunks.drop_first());
        lemma_feed_split(r, chunks[0], joined_bytes(chunks.drop_first()));
    }
}

/// Any two ways of cutting the same bytes into chunks give the same state and the
/// same events in the same order.
pub proof fn lemma_same_bytes_same_events(
    r: ReassemblerView,
    first: Seq<Seq<u8>>,
    second: Seq<Seq<u8>>,
)
    requires
        settled(r) || (first.len() > 0 && second.len() > 0),
        joined_bytes(first) == joined_bytes(second),
    ensures
        feed_all(r, first) == feed_all(r, second),
{
    lemma_chunking_independent(r, first);
    lemma_chunking_independent(r, second);
}


/// The views of a list of events after one more event.
proof fn lemma_views_push(events: Seq<StreamEvent>, e: StreamEvent)
    ensures
        views(events.push(e)) == views(events).push(e@),
{
    assert(views(events.push(e)) =~= views(events).push(e@));
}

impl Reassembler {
    /// The engine before the first byte of an answer.
    pub fn new() -> (r: Reassembler)
        ensures
            r@.pending == Seq::<u8>::empty(),
            r@.progress == (Progress { content: Seq::empty(), call: None, done: false }),
            settled(r@),
    {
        Reassembler { pending: Vec::new(), content: String::new(), call: None, done: false }
    }

    /// Applies one choice of a delta and appends its events to `events`; the
    /// result says whether the rest of the delta is passed over.
    fn apply_choice(&mut self, choice: &Choice, events: &mut Vec<StreamEvent>) -> (stop: bool)
        ensures
            final(self)@.pending == old(self)@.pending,
            final(self)@.progress == choice_step(old(self)@.progress, choice@).0,
            views(final(events)@) == views(old(events)@) + choice_step(
                old(self)@.progress,
                choice@,
            ).1,
            stop == choice_step(old(self)@.progress, choice@).2,
    {
        let ghost p0 = self@.progress;
        let ghost e0 = views(events@);
        assert(e0 + Seq::<StreamEventView>::empty() =~= e0);
        if self.call.is_none() {
            match &choice.delta {
                Some(delta) => match &delta.content {
                    Some(t) => {
                        self.content.append(t.as_str());
                        proof {
                            lemma_views_push(events@, StreamEvent::TextDelta(*t));
                        }
                        events.push(StreamEvent::TextDelta(t.clone()));
                        assert(views(events@) =~= e0 + seq![StreamEventView::TextDelta(t@)]);
                    },
                    None => {},
                },
                None => {},
            }
        }
        let ghost mid = self@.progress;
        let ghost e1 = views(events@);
        match &choice.finish_reason {
            Some(reason) => {
                if same_text(reason.as_str(), "stop") {
                    self.done = true;
                    let whole = self.content.clone();
                    proof {
                        lemma_views_push(events@, StreamEvent::Finished(whole));
                    }
                    events.push(StreamEvent::Finished(whole));
                } else if same_text(reason.as_str(), "tool_calls") {
                    self.done = true;
                    let mut calls: Vec<ToolCall> = Vec::new();
                    match &self.call {
                        Some(c) => {
                            calls.push(c.clone());
                            assert(views(calls@) =~= seq![c@]);
                        },
                        None => {
                            assert(views(calls@) =~= Seq::empty());
                        },
                    }
                    proof {
                        lemma_views_push(events@, StreamEvent::ToolCallsReady(calls));
                    }
                    events.push(StreamEvent::ToolCallsReady(calls));
                }
                assert(views(events@) =~= e0 + choice_step(p0, choice@).1);
                true
            },
            None => {
                match first_fragment(choice) {
                    Some(f) => {
                        let joined = match self.call.take() {
                            Some(c) => {
                                let mut c = c;
                                c.function.arguments.append(f.function.arguments.as_str());
                                c
                            },
                            None => f.clone(),
                        };
                        self.call = Some(joined);
                        proof {
                            lemma_views_push(events@, StreamEvent::ToolCallDelta(*f));
                        }
                        events.push(StreamEvent::ToolCallDelta(f.clone()));
                    },
                    None => {},
                }
                assert(views(events@) =~= e0 + choice_step(p0, choice@).1);
                false
            },
        }
    }

    /// Applies one parsed stream event: its choices in order, up to the first that
    /// carries a finish reason.
    pub fn apply_delta(&mut self, chunk: &StreamChunk) -> (events: Vec<StreamEvent>)
        ensures
            final(self)@.pending == old(self)@.pending,
            (final(self)@.progress, views(events@)) == delta_step(
                old(self)@.progress,
                chunk@.choices,
            ),
    {
        let ghost p0 = self@.progress;
        let ghost all = chunk@.choices;
        let mut events: Vec<StreamEvent> = Vec::new();
        let mut i: usize = 0;
        let mut stop = false;
        assert(all.skip(0) =~= all);
        assert(views(events@) =~= Seq::empty());
        assert(Seq::<StreamEventView>::empty() + delta_step(p0, all).1 =~= delta_step(p0, all).1);
        while i < chunk.choices.len() && !stop
            invariant
                i <= chunk.choices.len(),
                all == chunk@.choices,
                self@.pending == old(self)@.pending,
                stop ==> (self@.progress, views(events@)) == delta_step(p0, all),
                !stop ==> delta_step(p0, all) == (
                    delta_step(self@.progress, all.skip(i as int)).0,
                    views(events@) + delta_step(self@.progress, all.skip(i as int)).1,
                ),
            decreases chunk.choices.len() - i, if stop { 0int } else { 1int },
        {
            let ghost p = self@.progress;
            let ghost e = views(events@);
            let ghost rest = all.skip(i as int);
            assert(rest[0] == chunk.choices[i as int]@);
            assert(rest.drop_first() =~= all.skip(i + 1));
            stop = self.apply_choice(&chunk.choices[i], &mut events);
            proof {
                let step = choice_step(p, rest[0]);
                if !stop {
                    let after = delta_step(step.0, rest.drop_first());
                    assert(e + (step.1 + after.1) =~= (e + step.1) + after.1);
                }
            }
            i += 1;
        }
        proof {
            if !stop {
                assert(all.skip(i as int).len() == 0);
                assert(views(events@) + Seq::<StreamEventView>::empty() =~= views(events@));
            }
        }
        events
    }

    /// Reads one complete line, given without its line feed.
    ///
    /// An event line is parsed by `serde_json`; what the line gives depends on the
    /// result of that call as [`line_step`] says.
    pub fn feed_line(&mut self, line: &[u8]) -> (events: Vec<StreamEvent>)
        ensures
            final(self)@.pending == old(self)@.pending,
            (final(self)@.progress, views(events@)) == line_step(old(self)@.progress, line@),
    {
        let nothing: Vec<StreamEvent> = Vec::new();
        assert(views(nothing@) =~= Seq::empty());
        let len: usize = line.len();
        let end: usize = if len > 0 && line[len - 1] == CARRIAGE_RETURN {
            len - 1
        } else {
            len
        };
        assert(trimmed(line@) =~= line@.subrange(0, end as int));
        if end < 6 {
            return nothing;
        }
        let starts = line[0] == 100 && line[1] == 97 && line[2] == 116 && line[3] == 97
            && line[4] == 58 && line[5] == 32;
        proof {
            let head = trimmed(line@).subrange(0, 6);
            if starts {
                assert(head =~= data_prefix());
            } else {
                assert(head[0] == line[0] && head[1] == line[1] && head[2] == line[2] && head[3]
                    == line[3] && head[4] == line[4] && head[5] == line[5]);
            }
        }
        if !starts {
            return nothing;
        }
        let payload = slice_subrange(line, 6, end);
        assert(payload@ =~= trimmed(line@).subrange(6, trimmed(line@).len() as int));
        let is_done = payload.len() == 6 && payload[0] == 91 && payload[1] == 68 && payload[2]
            == 79 && payload[3] == 78 && payload[4] == 69 && payload[5] == 93;
        proof {
            if is_done {
                assert(payload@ =~= done_marker());
            } else if payload@.len() == 6 {
                assert(done_marker()[0] == 91 && done_marker()[1] == 68 && done_marker()[2] == 79
                    && done_marker()[3] == 78 && done_marker()[4] == 69 && done_marker()[5]
                    == 93);
            }
        }
        if is_done {
            return nothing;
        }
        match Json::parse(payload) {
            Ok(j) => match StreamChunk::from_json(&j) {
                Some(chunk) => self.apply_delta(&chunk),
                None => nothing,
            },
            Err(_) => nothing,
        }
    }

    /// Takes the next chunk of the answer and returns the events that the lines
    /// completed by it give, in order. Bytes after the last line feed wait for the
    /// next chunk. After a terminal event nothing more is read.
    pub fn feed(&mut self, chunk: &[u8]) -> (events: Vec<StreamEvent>)
        ensures
            (final(self)@, views(events@)) == feed_spec(old(self)@, chunk@),
            settled(final(self)@),
    {
        let ghost r0 = self@;
        let ghost total = r0.pending + chunk@;
        proof {
            lemma_run_settles(r0.progress, total);
        }
        let mut events: Vec<StreamEvent> = Vec::new();
        assert(views(events@) =~= Seq::empty());
        let mut buf: Vec<u8> = Vec::new();
        buf.append(&mut self.pending);
        buf.extend_from_slice(chunk);
        assert(buf@ =~= total);
        let mut line: Vec<u8> = Vec::new();
        let mut i: usize = 0;
        assert(line@ + buf@.skip(0) =~= total);
        assert(Seq::<StreamEventView>::empty() + run(r0.progress, total).1 =~= run(
            r0.progress,
            total,
        ).1);
        while i < buf.len() && !self.done
            invariant
                i <= buf.len(),
                buf@ == total,
                forall|k: int| 0 <= k < line@.len() ==> line@[k] != LINE_FEED,
                run(r0.progress, total) == (
                    run(self@.progress, line@ + buf@.skip(i as int)).0,
                    views(events@) + run(self@.progress, line@ + buf@.skip(i as int)).1,
                    run(self@.progress, line@ + buf@.skip(i as int)).2,
                ),
            decreases buf.len() - i,
        {
            let byte: u8 = buf[i];
            let ghost p = self@.progress;
            let ghost e = views(events@);
            let ghost rest = buf@.skip(i as int);
            let ghost whole = line@ + rest;
            proof {
                lemma_line_end(line@);
                lemma_line_end(rest);
                lemma_line_end_concat(line@, rest);
                assert(rest[0] == byte);
                if line_end(line@) < line@.len() {
                    assert(line@[line_end(line@)] == LINE_FEED);
                }
            }
            if byte == LINE_FEED {
                assert(line_end(rest) == 0);
                assert(line_end(whole) == line@.len());
                assert(whole.subrange(0, line@.len() as int) =~= line@);
                assert(whole.subrange(line@.len() as int + 1, whole.len() as int) =~= Seq::<u8>::empty()
                    + buf@.skip(i + 1));
                let mut found = self.feed_line(line.as_slice());
                proof {
                    let step = line_step(p, line@);
                    let after = run(step.0, Seq::<u8>::empty() + buf@.skip(i + 1));
                    assert(e + (step.1 + after.1) =~= (e + step.1) + after.1);
                    assert(views(events@ + found@) =~= views(events@) + views(found@));
                }
                events.append(&mut found);
                line = Vec::new();
            } else {
                line.push(byte);
                assert(line@ + buf@.skip(i + 1) =~= whole);
            }
            i += 1;
        }
        proof {
            if !self.done {
                assert(line@ + buf@.skip(i as int) =~= line@);
                lemma_line_end(line@);
                if line_end(line@) < line@.len() {
                    assert(line@[line_end(line@)] == LINE_FEED);
                }
                assert(views(events@) + Seq::<StreamEventView>::empty() =~= views(events@));
            } else {
                assert(views(events@) + Seq::<StreamEventView>::empty() =~= views(events@));
            }
        }
        if self.done {
            self.pending = Vec::new();
        } else {
            self.pending = line;
        }
        events
    }
}

/// The first tool-call fragment of a choice's delta.
fn first_fragment(choice: &Choice) -> (r: Option<&ToolCall>)
    ensures
        opt_view(r) == choice_fragment(choice@),
{
    match &choice.delta {
        Some(delta) => match &delta.tool_calls {
            Some(calls) => if calls.len() > 0 {
                Some(&calls[0])
            } else {
                None
            },
            None => None,
        },
        None => None,
    }
}


/// The call joined from `fragments` in arrival order, starting from `call`.
pub open spec fn accumulate_all(call: Option<ToolCallView>, fragments: Seq<ToolCallView>) -> Option<
    ToolCallView,
>
    decreases fragments.len(),
{
    if fragments.len() == 0 {
        call
    } else {
        accumulate_all(Some(accumulate(call, fragments[0])), fragments.drop_first())
    }
}

/// The argument texts of `fragments`, one after the other.
pub open spec fn joined_arguments(fragments: Seq<ToolCallView>) -> Seq<char>
    decreases fragments.len(),
{
    if fragments.len() == 0 {
        Seq::empty()
    } else {
        fragments[0].function.arguments + joined_arguments(fragments.drop_first())
    }
}

/// Joining fragments to a call that has begun adds their argument texts, in order,
/// to its own and changes nothing else of it.
pub proof fn lemma_accumulate_extends(call: ToolCallView, fragments: Seq<ToolCallView>)
    ensures
        accumulate_all(Some(call), fragments) == Some(
            ToolCallView {
                function: FunctionCallView {
                    arguments: call.function.arguments + joined_arguments(fragments),
                    ..call.function
                },
                ..call
            },
        ),
    decreases fragments.len(),
{
    if fragments.len() == 0 {
        assert(call.function.arguments + Seq::<char>::empty() =~= call.function.arguments);
    } else {
        let next = accumulate(Some(call), fragments[0]);
        lemma_accumulate_extends(next, fragments.drop_first());
        assert(next.function.arguments + joined_arguments(fragments.drop_first())
            =~= call.function.arguments + joined_arguments(fragments));
    }
}

/// An argument text that arrives cut into one or more fragments is joined to the
/// uncut text: the joined call has the first fragment's id and name, its
/// arguments are `text`, and they parse as `text` does.
pub proof fn lemma_fragments_join(fragments: Seq<ToolCallView>, text: Seq<char>)
    requires
        fragments.len() >= 1,
        joined_arguments(fragments) == text,
    ensures
        accumulate_all(None, fragments) == Some(
            ToolCallView {
                function: FunctionCallView { arguments: text, ..fragments[0].function },
                ..fragments[0]
            },
        ),
        text_parse(accumulate_all(None, fragments)->0.function.arguments) == text_parse(text),
{
    lemma_accumulate_extends(fragments[0], fragments.drop_first());
}

/// A choice that carries a fragment and neither text nor a finish reason joins
/// the fragment to the call in progress and hands it on.
pub proof fn lemma_fragment_step(p: Progress, choice: ChoiceView)
    requires
        choice.finish_reason is None,
        choice_fragment(choice) is Some,
        choice_text(p, choice) is None,
    ensures
        choice_step(p, choice) == (
            Progress { call: Some(accumulate(p.call, choice_fragment(choice)->0)), ..p },
            seq![StreamEventView::ToolCallDelta(choice_fragment(choice)->0)],
            false,
        ),
{
    assert(Seq::<StreamEventView>::empty().push(
        StreamEventView::ToolCallDelta(choice_fragment(choice)->0),
    ) =~= seq![StreamEventView::ToolCallDelta(choice_fragment(choice)->0)]);
}

/// The chunk that stands for an event on the consumer's channel. A tool-call
/// fragment is not handed on: the consumer acts on the finished call.
pub open spec fn channel_chunk_of(e: StreamEventView) -> Option<StreamChannelChunkView> {
    match e {
        StreamEventView::TextDelta(t) => Some(
            StreamChannelChunkView {
                finished: false,
                final_content: None,
                choices: seq![
                    ChoiceView {
                        message: None,
                        delta: Some(
                            MessageView {
                                role: None,
                                content: Some(t),
                                tool_calls: None,
                                tool_call_id: None,
                            },
                        ),
                        finish_reason: None,
                    },
                ],
            },
        ),
        StreamEventView::ToolCallDelta(_) => None,
        StreamEventView::Finished(t) => Some(
            StreamChannelChunkView { finished: true, final_content: Some(t), choices: Seq::empty() },
        ),
        StreamEventView::ToolCallsReady(calls) => Some(
            StreamChannelChunkView {
                finished: false,
                final_content: None,
                choices: seq![
                    ChoiceView {
                        message: None,
                        delta: Some(
                            MessageView {
                                role: Some(Role::Assistant),
                                content: None,
                                tool_calls: Some(calls),
                                tool_call_id: None,
                            },
                        ),
                        finish_reason: None,
                    },
                ],
            },
        ),
    }
}

impl StreamEvent {
    /// The chunk that stands for the event on the consumer's channel.
    pub fn to_channel_chunk(&self) -> (r: Option<StreamChannelChunk>)
        ensures
            opt_view(r) == channel_chunk_of(self@),
    {
        match self {
            StreamEvent::TextDelta(t) => {
                let mut choices: Vec<Choice> = Vec::new();
                choices.push(
                    Choice {
                        message: None,
                        delta: Some(
                            Message {
                                role: None,
                                content: Some(t.clone()),
                                tool_calls: None,
                                tool_call_id: None,
                            },
                        ),
                        finish_reason: None,
                    },
                );
                assert(views(choices@) =~= channel_chunk_of(self@)->0.choices);
                Some(StreamChannelChunk { finished: false, final_content: None, choices })
            },
            StreamEvent::ToolCallDelta(_) => None,
            StreamEvent::Finished(t) => {
                let choices: Vec<Choice> = Vec::new();
                assert(views(choices@) =~= Seq::empty());
                Some(StreamChannelChunk { finished: true, final_content: Some(t.clone()), choices })
            },
            StreamEvent::ToolCallsReady(calls) => {
                let mut choices: Vec<Choice> = Vec::new();
                choices.push(
                    Choice {
                        message: None,
                        delta: Some(
                            Message {
                                role: Some(Role::Assistant),
                                content: None,
                                tool_calls: Some(clone_tool_calls(calls)),
                                tool_call_id: None,
                            },
                        ),
                        finish_reason: None,
                    },
                );
                assert(views(choices@) =~= channel_chunk_of(self@)->0.choices);
                Some(StreamChannelChunk { finished: false, final_content: None, choices })
            },
        }
    }
}


/// The text that a list of events hands on: its text deltas, in order.
pub open spec fn delta_text(events: Seq<StreamEventView>) -> Seq<char>
    decreases events.len(),
{
    if events.len() == 0 {
        Seq::empty()
    } else {
        delta_text(events.drop_last()) + match events.last() {
            StreamEventView::TextDelta(t) => t,
            _ => Seq::empty(),
        }
    }
}

/// Whether an event ends the stream.
pub open spec fn terminal(e: StreamEventView) -> bool {
    e is Finished || e is ToolCallsReady
}

/// Whether `events` are in order what took the text `before` to the progress
/// `after`: the text deltas are, one after the other, the text that was added; an
/// event that ends the stream is the last one, the stream is then done, and a
/// `Finished` event carries the whole text; and a stream that is done has ended
/// with such an event.
pub open spec fn in_order(before: Seq<char>, after: Progress, events: Seq<StreamEventView>) -> bool {
    &&& after.content == before + delta_text(events)
    &&& forall|i: int|
        0 <= i < events.len() && terminal(#[trigger] events[i]) ==> i == events.len() - 1
            && after.done
    &&& forall|i: int|
        0 <= i < events.len() && (#[trigger] events[i]) is Finished ==> events[i]->Finished_0
            == after.content
    &&& after.done ==> events.len() > 0 && terminal(events.last())
}

/// The text of two lists of events.
pub proof fn lemma_delta_text_concat(a: Seq<StreamEventView>, b: Seq<StreamEventView>)
    ensures
        delta_text(a + b) == delta_text(a) + delta_text(b),
    decreases b.len(),
{
    if b.len() == 0 {
        assert(a + b =~= a);
        assert(delta_text(a) + Seq::<char>::empty() =~= delta_text(a));
    } else {
        assert((a + b).drop_last() =~= a + b.drop_last());
        assert((a + b).last() == b.last());
        lemma_delta_text_concat(a, b.drop_last());
        let tail = match b.last() {
            StreamEventView::TextDelta(t) => t,
            _ => Seq::empty(),
        };
        assert((delta_text(a) + delta_text(b.drop_last())) + tail =~= delta_text(a) + (
        delta_text(b.drop_last()) + tail));
    }
}

/// Events that did not end the stream, followed by events in order, are in order.
proof fn lemma_in_order_then(
    before: Seq<char>,
    mid: Progress,
    first: Seq<StreamEventView>,
    after: Progress,
    second: Seq<StreamEventView>,
)
    requires
        in_order(before, mid, first),
        !mid.done,
        in_order(mid.content, after, second) || (after == mid && second.len() == 0),
    ensures
        in_order(before, after, first + second),
{
    lemma_delta_text_concat(first, second);
    assert(delta_text(Seq::empty()) =~= Seq::<char>::empty());
    assert((before + delta_text(first)) + delta_text(second) =~= before + (delta_text(first)
        + delta_text(second)));
    assert(mid.content + Seq::<char>::empty() =~= mid.content);
    let all = first + second;
    assert forall|i: int| 0 <= i < all.len() && terminal(#[trigger] all[i]) implies i
        == all.len() - 1 && after.done by {
        if i < first.len() {
            assert(all[i] == first[i]);
        } else {
            assert(all[i] == second[i - first.len()]);
        }
    }
    assert forall|i: int| 0 <= i < all.len() && (#[trigger] all[i]) is Finished implies all[i]->Finished_0
        == after.content by {
        if i < first.len() {
            assert(all[i] == first[i]);
        } else {
            assert(all[i] == second[i - first.len()]);
        }
    }
    if after.done {
        assert(all.last() == second.last());
    }
}

/// The events of one choice are in order.
pub proof fn lemma_choice_in_order(p: Progress, choice: ChoiceView)
    requires
        !p.done,
    ensures
        in_order(p.content, choice_step(p, choice).0, choice_step(p, choice).1),
        choice_step(p, choice).0.done ==> choice_step(p, choice).2,
{
    let (q, events, stop) = choice_step(p, choice);
    let none = Seq::<StreamEventView>::empty();
    assert(delta_text(none) =~= Seq::<char>::empty());
    assert(p.content + Seq::<char>::empty() =~= p.content);
    let first = match choice_text(p, choice) {
        Some(t) => seq![StreamEventView::TextDelta(t)],
        None => none,
    };
    match choice_text(p, choice) {
        Some(t) => {
            assert(first.drop_last() =~= none);
            assert(delta_text(first) =~= t);
        },
        None => {},
    }
    if events.len() > first.len() {
        assert(events.drop_last() =~= first);
        assert(delta_text(events) =~= delta_text(first));
    } else {
        assert(events =~= first);
    }
}

/// The events of one delta are in order.
pub proof fn lemma_delta_in_order(p: Progress, choices: Seq<ChoiceView>)
    requires
        !p.done,
    ensures
        in_order(p.content, delta_step(p, choices).0, delta_step(p, choices).1),
    decreases choices.len(),
{
    if choices.len() == 0 {
        assert(delta_text(Seq::empty()) =~= Seq::<char>::empty());
        assert(p.content + Seq::<char>::empty() =~= p.content);
    } else {
        let (mid, first, stop) = choice_step(p, choices[0]);
        lemma_choice_in_order(p, choices[0]);
        if !stop {
            let (after, second) = delta_step(mid, choices.drop_first());
            lemma_delta_in_order(mid, choices.drop_first());
            lemma_in_order_then(p.content, mid, first, after, second);
        }
    }
}

/// The events of one line are in order.
pub proof fn lemma_line_in_order(p: Progress, line: Seq<u8>)
    requires
        !p.done,
    ensures
        in_order(p.content, line_step(p, line).0, line_step(p, line).1),
{
    assert(delta_text(Seq::empty()) =~= Seq::<char>::empty());
    assert(p.content + Seq::<char>::empty() =~= p.content);
    match payload_of(line) {
        Some(payload) => {
            if payload != done_marker() {
                match json_parse(payload) {
                    Ok(j) => match stream_chunk_of(j) {
                        Some(chunk) => {
                            lemma_delta_in_order(p, chunk.choices);
                        },
                        None => {},
                    },
                    Err(_) => {},
                }
            }
        },
        None => {},
    }
}

/// The events of a buffer are in order.
pub proof fn lemma_run_in_order(p: Progress, buf: Seq<u8>)
    requires
        !p.done,
    ensures
        in_order(p.content, run(p, buf).0, run(p, buf).1),
    decreases buf.len(),
{
    assert(delta_text(Seq::empty()) =~= Seq::<char>::empty());
    assert(p.content + Seq::<char>::empty() =~= p.content);
    if 0 <= line_end(buf) < buf.len() {
        let end = line_end(buf);
        let (mid, first) = line_step(p, buf.subrange(0, end));
        lemma_line_in_order(p, buf.subrange(0, end));
        let rest = buf.subrange(end + 1, buf.len() as int);
        if mid.done {
            assert(first + Seq::<StreamEventView>::empty() =~= first);
        } else {
            lemma_run_in_order(mid, rest);
            lemma_in_order_then(p.content, mid, first, run(mid, rest).0, run(mid, rest).1);
        }
    }
}

/// The ordering guarantee of a chunk: the text deltas handed on are, in order,
/// exactly the text added to the answer; an event that ends the stream is the
/// last event and leaves the engine done; a `Finished` event carries the whole
/// text of the answer; and an engine that is done hands on nothing more.
pub proof fn lemma_feed_in_order(r: ReassemblerView, chunk: Seq<u8>)
    ensures
        !r.progress.done ==> in_order(
            r.progress.content,
            feed_spec(r, chunk).0.progress,
            feed_spec(r, chunk).1,
        ),
        r.progress.done ==> feed_spec(r, chunk).1.len() == 0 && feed_spec(r, chunk).0.progress
            == r.progress,
{
    if !r.progress.done {
        lemma_run_in_order(r.progress, r.pending + chunk);
    }
}

} // verus!
