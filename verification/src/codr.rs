//! The tool dispatch loop of one conversation.
//!
//! A turn begins with the user's message and ends with the model's plain answer.
//! In between the model may ask for tool calls: each is answered with a
//! tool-result message, and the model is called again. The loop is given as
//! steps: every function here takes what has just happened and says what is to be
//! done next. Sending a request and performing a file operation are the caller's
//! part; deciding is this module's.

use crate::client::{
    completion_result, read_completion, request_of, result_view, without_trailing_slashes,
    OpenAIClient, OpenAIClientView, Reply, Request, RequestView,
};
use crate::error::{Error, ErrorView};
use crate::json::{members_view, Json, JsonValue};
use crate::jsonio::{rendered, text_parse};
use crate::openai::{
    clone_messages, clone_text, clone_tool_calls, opt_view, simple_message, tool_call_result,
    views, ChatCompletion, ChatCompletionView, Message, MessageView, Role, ToolCall, ToolCallView,
};
use crate::stream::{StreamEvent, StreamEventView};
use crate::tools::{all_offered, box_plan, file_tools, FileOp, FileOpView, ToolBox, ToolView};
use crate::wire::push_member;
use vstd::prelude::*;
use vstd::string::StringExecFns;

verus! {

/// A conversation with its endpoint and its tools, and the tool calls of the
/// round in progress: `round` holds the calls that the model asked for last, and
/// `next` counts how many of them are answered.
#[derive(Debug, Clone)]
pub struct Codr {
    pub client: OpenAIClient,
    pub messages: Vec<Message>,
    pub toolbox: ToolBox,
    pub round: Vec<ToolCall>,
    pub next: usize,
}

pub struct CodrView {
    pub client: OpenAIClientView,
    pub messages: Seq<MessageView>,
    pub tools: Seq<ToolView>,
    pub round: Seq<ToolCallView>,
    pub next: nat,
}

impl View for Codr {
    type V = CodrView;

    open spec fn view(&self) -> CodrView {
        CodrView {
            client: self.client@,
            messages: views(self.messages@),
            tools: self.toolbox@,
            round: views(self.round@),
            next: self.next as nat,
        }
    }
}

/// What is to be done next in a buffered turn.
#[derive(Debug, Clone, PartialEq)]
pub enum Step {
    /// Post this request and come back with the reply.
    CallModel(Request),
    /// Perform this file operation and come back with its outcome.
    RunTool(FileOp),
    /// The turn is over; this is the answer.
    Done(Vec<Option<String>>),
    /// The turn has failed.
    Failed(Error),
}

pub enum StepView {
    CallModel(RequestView),
    RunTool(FileOpView),
    Done(Seq<Option<Seq<char>>>),
    Failed(ErrorView),
}

impl View for Step {
    type V = StepView;

    open spec fn view(&self) -> StepView {
        match self {
            Step::CallModel(r) => StepView::CallModel(r@),
            Step::RunTool(op) => StepView::RunTool(op@),
            Step::Done(answer) => StepView::Done(
                Seq::new(answer@.len(), |i: int| opt_view(answer@[i])),
            ),
            Step::Failed(e) => StepView::Failed(e@),
        }
    }
}

/// The working copy of the conversation that a streamed turn writes to, and the
/// tool calls of its round in progress. The conversation itself is not touched
/// before the turn is finished.
#[derive(Debug, Clone)]
pub struct StreamTurn {
    pub working: Vec<Message>,
    pub round: Vec<ToolCall>,
    pub next: usize,
}

pub struct StreamTurnView {
    pub working: Seq<MessageView>,
    pub round: Seq<ToolCallView>,
    pub next: nat,
}

impl View for StreamTurn {
    type V = StreamTurnView;

    open spec fn view(&self) -> StreamTurnView {
        StreamTurnView {
            working: views(self.working@),
            round: views(self.round@),
            next: self.next as nat,
        }
    }
}

/// What is to be done next in a streamed turn.
#[derive(Debug, Clone, PartialEq)]
pub enum StreamStep {
    /// Post this request and feed the chunks of the answer to a new engine.
    OpenStream(Request),
    /// Hand this text to the consumer, then go on with the stream.
    Deliver(String),
    /// Perform this file operation and come back with its outcome.
    RunTool(FileOp),
    /// Go on with the stream.
    Continue,
    /// The turn is over and written to the conversation.
    Done,
}

pub enum StreamStepView {
    OpenStream(RequestView),
    Deliver(Seq<char>),
    RunTool(FileOpView),
    Continue,
    Done,
}

impl View for StreamStep {
    type V = StreamStepView;

    open spec fn view(&self) -> StreamStepView {
        match self {
            StreamStep::OpenStream(r) => StreamStepView::OpenStream(r@),
            StreamStep::Deliver(t) => StreamStepView::Deliver(t@),
            StreamStep::RunTool(op) => StreamStepView::RunTool(op@),
            StreamStep::Continue => StreamStepView::Continue,
            StreamStep::Done => StreamStepView::Done,
        }
    }
}

/// A text that may be missing, as a text.
pub open spec fn text_or_empty(text: Option<Seq<char>>) -> Seq<char> {
    match text {
        Some(t) => t,
        None => Seq::empty(),
    }
}

/// The document that reports a failure to the model: `{"error"}`.
pub open spec fn error_json(text: Seq<char>) -> JsonValue {
    JsonValue::Object(seq![("error"@, JsonValue::Str(text))])
}

/// The message that answers `call` with `result`: a tool-result message under
/// the call's id, with the document as JSON text.
pub open spec fn tool_result(call: ToolCallView, result: JsonValue) -> MessageView {
    MessageView {
        role: Some(Role::Tool),
        content: Some(rendered(result)),
        tool_calls: None,
        tool_call_id: Some(text_or_empty(call.id)),
    }
}

/// What a tool call asks for, given what the parse of its arguments gave: the
/// file operation to perform, or the failure that answers the call at once.
/// Arguments that are no JSON document fail with the reason; a name that no tool
/// has and arguments that the tool rejects fail with the complaint.
pub open spec fn demand_of(
    tools: Seq<ToolView>,
    call: ToolCallView,
    parsed: Result<JsonValue, Seq<char>>,
) -> Result<FileOpView, ErrorView> {
    match parsed {
        Err(reason) => Err(ErrorView::ToolArgument(reason)),
        Ok(args) => match box_plan(tools, text_or_empty(call.function.name), args) {
            Ok(op) => Ok(op),
            Err(complaint) => Err(ErrorView::ToolExecution(complaint)),
        },
    }
}

/// The document that reports a tool's failure to the model: the failure in words
/// under `error`.
pub open spec fn failure_json(e: ErrorView) -> JsonValue {
    error_json(e.message())
}

/// Goes through the calls of a round from `next` on: a call that is answered at
/// once gets its tool-result message, the first call that needs a file operation
/// stops the walk. Gives the conversation, the number of calls answered, and the
/// operation to perform, if there is one.
pub open spec fn advance(
    messages: Seq<MessageView>,
    tools: Seq<ToolView>,
    round: Seq<ToolCallView>,
    next: nat,
) -> (Seq<MessageView>, nat, Option<FileOpView>)
    decreases round.len() - next,
{
    if next >= round.len() {
        (messages, next, None)
    } else {
        match demand_of(tools, round[next as int], text_parse(round[next as int].function.arguments)) {
            Ok(op) => (messages, next, Some(op)),
            Err(e) => advance(
                messages.push(tool_result(round[next as int], failure_json(e))),
                tools,
                round,
                next + 1,
            ),
        }
    }
}

/// The request that calls the model with the conversation and the tools.
pub open spec fn model_request(
    client: OpenAIClientView,
    messages: Seq<MessageView>,
    tools: Seq<ToolView>,
    stream: bool,
) -> RequestView {
    request_of(client, messages, Some(all_offered(tools)), stream)
}

/// A buffered turn after something was added to the conversation: the calls of
/// the round are gone through; where one needs a file operation that is the next
/// step, else the model is called again.
pub open spec fn after_round(c: CodrView) -> (CodrView, StepView) {
    let (messages, next, op) = advance(c.messages, c.tools, c.round, c.next);
    let after = CodrView { messages, next, ..c };
    match op {
        Some(op) => (after, StepView::RunTool(op)),
        None => (after, StepView::CallModel(model_request(c.client, messages, c.tools, false))),
    }
}

/// A buffered turn after the model's reply. A failure of the call ends the turn,
/// and so does an answer without a choice or without a message. The message of
/// the first choice is added to the conversation; its tool calls, if it has any,
/// are the new round; without tool calls its content is the answer.
pub open spec fn on_completion_spec(
    c: CodrView,
    outcome: Result<ChatCompletionView, ErrorView>,
) -> (CodrView, StepView) {
    match outcome {
        Err(e) => (c, StepView::Failed(e)),
        Ok(completion) => if completion.choices.len() == 0 {
            (c, StepView::Failed(ErrorView::EmptyResponse))
        } else {
            match completion.choices[0].message {
                None => (c, StepView::Failed(ErrorView::Decode)),
                Some(m) => {
                    let messages = c.messages.push(m);
                    if m.tool_calls is Some && m.tool_calls->0.len() > 0 {
                        after_round(CodrView { messages, round: m.tool_calls->0, next: 0, ..c })
                    } else {
                        (
                            CodrView { messages, round: Seq::empty(), next: 0, ..c },
                            StepView::Done(seq![m.content]),
                        )
                    }
                },
            }
        },
    }
}

/// The document that reports the outcome of a tool: its result, or its failure
/// in words under `error`.
pub open spec fn outcome_json(outcome: Result<JsonValue, Seq<char>>) -> JsonValue {
    match outcome {
        Ok(j) => j,
        Err(text) => failure_json(ErrorView::ToolExecution(text)),
    }
}

/// A conversation with the outcome of the awaited tool call added. Where no call
/// is awaited nothing is added.
pub open spec fn answered(
    messages: Seq<MessageView>,
    round: Seq<ToolCallView>,
    next: nat,
    outcome: Result<JsonValue, Seq<char>>,
) -> (Seq<MessageView>, nat) {
    if next < round.len() {
        (messages.push(tool_result(round[next as int], outcome_json(outcome))), next + 1)
    } else {
        (messages, next)
    }
}

/// A buffered turn after a file operation: its outcome answers the awaited call,
/// and the round goes on.
pub open spec fn on_tool_spec(c: CodrView, outcome: Result<JsonValue, Seq<char>>) -> (
    CodrView,
    StepView,
) {
    let (messages, next) = answered(c.messages, c.round, c.next, outcome);
    after_round(CodrView { messages, next, ..c })
}

/// A streamed turn after something was added to its working copy.
pub open spec fn after_stream_round(c: CodrView, t: StreamTurnView) -> (
    StreamTurnView,
    StreamStepView,
) {
    let (working, next, op) = advance(t.working, c.tools, t.round, t.next);
    let after = StreamTurnView { working, next, ..t };
    match op {
        Some(op) => (after, StreamStepView::RunTool(op)),
        None => (
            after,
            StreamStepView::OpenStream(model_request(c.client, working, c.tools, true)),
        ),
    }
}

/// The assistant message that asks for `calls`.
pub open spec fn calling_message(calls: Seq<ToolCallView>) -> MessageView {
    MessageView {
        role: Some(Role::Assistant),
        content: None,
        tool_calls: Some(calls),
        tool_call_id: None,
    }
}

/// A plain message.
pub open spec fn plain_message(role: Role, text: Seq<char>) -> MessageView {
    MessageView { role: Some(role), content: Some(text), tool_calls: None, tool_call_id: None }
}

/// A streamed turn after an event of the stream: text goes to the consumer, a
/// fragment changes nothing, finished calls are written to the working copy and
/// become the round, and the end of the answer is written to the working copy,
/// which then becomes the conversation.
pub open spec fn on_event_spec(c: CodrView, t: StreamTurnView, event: StreamEventView) -> (
    CodrView,
    StreamTurnView,
    StreamStepView,
) {
    match event {
        StreamEventView::TextDelta(text) => (c, t, StreamStepView::Deliver(text)),
        StreamEventView::ToolCallDelta(_) => (c, t, StreamStepView::Continue),
        StreamEventView::ToolCallsReady(calls) => {
            let (after, step) = after_stream_round(
                c,
                StreamTurnView { working: t.working.push(calling_message(calls)), round: calls, next: 0 },
            );
            (c, after, step)
        },
        StreamEventView::Finished(text) => {
            let working = t.working.push(plain_message(Role::Assistant, text));
            (
                CodrView { messages: working, ..c },
                StreamTurnView { working, round: Seq::empty(), next: 0 },
                StreamStepView::Done,
            )
        },
    }
}

/// Whether `later` is `earlier` with messages added at its end.
pub open spec fn extends(earlier: Seq<MessageView>, later: Seq<MessageView>) -> bool {
    earlier.len() <= later.len() && later.subrange(0, earlier.len() as int) == earlier
}

/// Going through a round only adds to the conversation, and what it adds are
/// tool-result messages.
pub proof fn lemma_advance_extends(
    messages: Seq<MessageView>,
    tools: Seq<ToolView>,
    round: Seq<ToolCallView>,
    next: nat,
)
    ensures
        extends(messages, advance(messages, tools, round, next).0),
        next <= round.len() ==> next <= advance(messages, tools, round, next).1 <= round.len(),
        forall|i: int|
            messages.len() <= i < advance(messages, tools, round, next).0.len() ==> {
                let m = #[trigger] advance(messages, tools, round, next).0[i];
                m.role == Some(Role::Tool) && m.tool_call_id is Some && m.tool_calls is None
            },
    decreases round.len() - next,
{
    assert(messages.subrange(0, messages.len() as int) =~= messages);
    if next < round.len() {
        match demand_of(tools, round[next as int], text_parse(round[next as int].function.arguments)) {
            Ok(op) => {},
            Err(e) => {
                let grown = messages.push(tool_result(round[next as int], failure_json(e)));
                lemma_advance_extends(grown, tools, round, next + 1);
                let end = advance(grown, tools, round, next + 1).0;
                assert(end.subrange(0, messages.len() as int) =~= end.subrange(
                    0,
                    grown.len() as int,
                ).subrange(0, messages.len() as int));
                assert(grown.subrange(0, messages.len() as int) =~= messages);
                assert forall|i: int| messages.len() <= i < end.len() implies {
                    let m = #[trigger] end[i];
                    m.role == Some(Role::Tool) && m.tool_call_id is Some && m.tool_calls is None
                } by {
                    if i == messages.len() {
                        assert(end.subrange(0, grown.len() as int)[i] == grown[i]);
                    }
                }
            },
        }
    }
}


/// A conversation with messages added, and more added to that, is the first
/// conversation with messages added.
pub proof fn lemma_extends_twice(a: Seq<MessageView>, b: Seq<MessageView>, c: Seq<MessageView>)
    requires
        extends(a, b),
        extends(b, c),
    ensures
        extends(a, c),
{
    assert(c.subrange(0, a.len() as int) =~= c.subrange(0, b.len() as int).subrange(
        0,
        a.len() as int,
    ));
}

/// A conversation with one message added.
pub proof fn lemma_extends_push(a: Seq<MessageView>, m: MessageView)
    ensures
        extends(a, a.push(m)),
        extends(a, a),
{
    assert(a.push(m).subrange(0, a.len() as int) =~= a);
    assert(a.subrange(0, a.len() as int) =~= a);
}

/// The conversation is append-only in a buffered turn: each step leaves what was
/// said before in place, the system message at the front included, and adds at
/// the end.
pub proof fn lemma_buffered_turn_appends(
    c: CodrView,
    reply: Result<ChatCompletionView, ErrorView>,
    outcome: Result<JsonValue, Seq<char>>,
)
    ensures
        extends(c.messages, on_completion_spec(c, reply).0.messages),
        extends(c.messages, on_tool_spec(c, outcome).0.messages),
        c.messages.len() > 0 ==> on_completion_spec(c, reply).0.messages[0] == c.messages[0]
            && on_tool_spec(c, outcome).0.messages[0] == c.messages[0],
{
    lemma_extends_push(c.messages, arbitrary());
    let after_reply = on_completion_spec(c, reply).0.messages;
    match reply {
        Ok(completion) => {
            if completion.choices.len() > 0 && completion.choices[0].message is Some {
                let m = completion.choices[0].message->0;
                let grown = c.messages.push(m);
                lemma_extends_push(c.messages, m);
                if m.tool_calls is Some && m.tool_calls->0.len() > 0 {
                    lemma_advance_extends(grown, c.tools, m.tool_calls->0, 0);
                    lemma_extends_twice(c.messages, grown, after_reply);
                }
            }
        },
        Err(_) => {},
    }
    let (answered_messages, next) = answered(c.messages, c.round, c.next, outcome);
    if c.next < c.round.len() {
        lemma_extends_push(c.messages, tool_result(c.round[c.next as int], outcome_json(outcome)));
    }
    lemma_advance_extends(answered_messages, c.tools, c.round, next);
    lemma_extends_twice(c.messages, answered_messages, on_tool_spec(c, outcome).0.messages);
    if c.messages.len() > 0 {
        assert(after_reply.subrange(0, c.messages.len() as int)[0] == after_reply[0]);
        let after_tool = on_tool_spec(c, outcome).0.messages;
        assert(after_tool.subrange(0, c.messages.len() as int)[0] == after_tool[0]);
    }
}

/// A streamed turn writes to its working copy only, at the end, and the
/// conversation is untouched until the answer is finished; it then becomes the
/// working copy, which holds all that the conversation held.
pub proof fn lemma_streamed_turn_appends(c: CodrView, t: StreamTurnView, event: StreamEventView)
    requires
        extends(c.messages, t.working),
    ensures
        extends(t.working, on_event_spec(c, t, event).1.working),
        extends(on_event_spec(c, t, event).0.messages, on_event_spec(c, t, event).1.working),
        extends(c.messages, on_event_spec(c, t, event).0.messages),
        !(event is Finished) ==> on_event_spec(c, t, event).0 == c,
        event is Finished ==> on_event_spec(c, t, event).0.messages == on_event_spec(
            c,
            t,
            event,
        ).1.working,
{
    lemma_extends_push(t.working, arbitrary());
    lemma_extends_push(c.messages, arbitrary());
    let after = on_event_spec(c, t, event);
    match event {
        StreamEventView::ToolCallsReady(calls) => {
            let grown = t.working.push(calling_message(calls));
            lemma_extends_push(t.working, calling_message(calls));
            lemma_advance_extends(grown, c.tools, calls, 0);
            lemma_extends_twice(t.working, grown, after.1.working);
            lemma_extends_twice(c.messages, t.working, after.1.working);
        },
        StreamEventView::Finished(text) => {
            lemma_extends_push(t.working, plain_message(Role::Assistant, text));
            lemma_extends_twice(c.messages, t.working, after.1.working);
            lemma_extends_push(after.1.working, arbitrary());
        },
        _ => {},
    }
}

/// The views of a conversation after one more message.
proof fn lemma_views_push(messages: Seq<Message>, m: Message)
    ensures
        views(messages.push(m)) == views(messages).push(m@),
{
    assert(views(messages.push(m)) =~= views(messages).push(m@));
}

/// The document that reports a failure to the model.
pub fn error_document(text: &str) -> (j: Json)
    ensures
        j@ == error_json(text@),
{
    let mut members: Vec<(String, Json)> = Vec::new();
    assert(members_view(members@) =~= Seq::empty());
    push_member(&mut members, "error", Json::string(text));
    assert(members_view(members@) =~= error_json(text@)->Object_0);
    Json::object(members)
}

/// The tool-result message that answers `call` with `result`.
pub fn answer_call(call: &ToolCall, result: &Json) -> (m: Message)
    ensures
        m@ == tool_result(call@, result@),
{
    let id = match &call.id {
        Some(i) => i.clone(),
        None => String::new(),
    };
    tool_call_result(id, result.to_text())
}

/// The document that reports a tool's failure to the model.
pub fn failure_document(e: &Error) -> (j: Json)
    ensures
        j@ == failure_json(e@),
{
    error_document(e.message().as_str())
}

/// What `call` asks for, given what the parse of its arguments gave: the file
/// operation to perform, or the failure that answers the call at once.
pub fn demand(toolbox: &ToolBox, call: &ToolCall, parsed: Result<Json, String>) -> (r: Result<
    FileOp,
    Error,
>)
    ensures
        result_view(r) == demand_of(toolbox@, call@, result_view(parsed)),
{
    match parsed {
        Err(reason) => Err(Error::ToolArgument(reason)),
        Ok(args) => {
            let run = match &call.function.name {
                Some(name) => toolbox.run_tool(name.as_str(), &args),
                None => toolbox.run_tool("", &args),
            };
            proof {
                reveal_strlit("");
                assert(""@ =~= Seq::<char>::empty());
            }
            match run {
                Ok(op) => Ok(op),
                Err(complaint) => Err(Error::ToolExecution(complaint)),
            }
        },
    }
}

/// Goes through the calls of `round` from `next` on, parsing the arguments of
/// each with `serde_json`: a call that is answered at once gets its tool-result
/// message, the first call that needs a file operation stops the walk and its
/// operation is returned.
pub fn go_through(
    messages: &mut Vec<Message>,
    toolbox: &ToolBox,
    round: &Vec<ToolCall>,
    next: &mut usize,
) -> (op: Option<FileOp>)
    ensures
        (views(final(messages)@), *final(next) as nat, opt_view(op)) == advance(
            views(old(messages)@),
            toolbox@,
            views(round@),
            *old(next) as nat,
        ),
{
    let ghost start = advance(views(messages@), toolbox@, views(round@), *next as nat);
    while *next < round.len()
        invariant
            start == advance(
                views(old(messages)@),
                toolbox@,
                views(round@),
                *old(next) as nat,
            ),
            start == advance(views(messages@), toolbox@, views(round@), *next as nat),
        decreases round.len() - *next,
    {
        let call = &round[*next];
        let parsed = Json::parse_text(call.function.arguments.as_str());
        proof {
            assert(views(round@)[*next as int] == call@);
            assert(result_view(parsed) == text_parse(call@.function.arguments));
        }
        match demand(toolbox, call, parsed) {
            Ok(op) => {
                return Some(op);
            },
            Err(e) => {
                let answer = answer_call(call, &failure_document(&e));
                proof {
                    lemma_views_push(messages@, answer);
                }
                messages.push(answer);
                *next = *next + 1;
            },
        }
    }
    None
}

impl Codr {
    /// A conversation that begins with the system prompt, with the six file
    /// tools and the endpoint at `base_url`.
    pub fn new(base_url: String, api_key: String, model: String, system_prompt: String) -> (c:
        Codr)
        ensures
            c@ == (CodrView {
                client: OpenAIClientView {
                    api_key: api_key@,
                    base_url: without_trailing_slashes(base_url@),
                    model: model@,
                },
                messages: seq![plain_message(Role::System, system_prompt@)],
                tools: file_tools(),
                round: Seq::empty(),
                next: 0,
            }),
    {
        let mut messages: Vec<Message> = Vec::new();
        messages.push(simple_message(system_prompt, Role::System));
        let round: Vec<ToolCall> = Vec::new();
        assert(views(messages@) =~= seq![plain_message(Role::System, system_prompt@)]);
        assert(views(round@) =~= Seq::empty());
        Codr {
            client: OpenAIClient::new(base_url, api_key, model),
            messages,
            toolbox: ToolBox::new(),
            round,
            next: 0,
        }
    }

    /// The request that calls the model with the conversation as it is.
    fn call_model(&self) -> (r: Request)
        ensures
            r@ == model_request(self@.client, self@.messages, self@.tools, false),
    {
        self.client.chat_completion(&self.messages, Some(Box::new(self.toolbox.get_tools())))
    }

    /// Goes on with the round in progress.
    fn next_step(&mut self) -> (step: Step)
        ensures
            (final(self)@, step@) == after_round(old(self)@),
    {
        match go_through(&mut self.messages, &self.toolbox, &self.round, &mut self.next) {
            Some(op) => Step::RunTool(op),
            None => Step::CallModel(self.call_model()),
        }
    }

    /// Begins a buffered turn: the user's message is added to the conversation,
    /// and the model is to be called with it.
    pub fn message(&mut self, message: String) -> (step: Step)
        ensures
            final(self)@ == (CodrView {
                messages: old(self)@.messages.push(plain_message(Role::User, message@)),
                round: Seq::empty(),
                next: 0,
                ..old(self)@
            }),
            step@ == StepView::CallModel(
                model_request(final(self)@.client, final(self)@.messages, final(self)@.tools, false),
            ),
            extends(old(self)@.messages, final(self)@.messages),
    {
        let said = simple_message(message, Role::User);
        proof {
            lemma_views_push(self.messages@, said);
            let grown = views(self.messages@).push(said@);
            assert(grown.subrange(0, views(self.messages@).len() as int) =~= views(
                self.messages@,
            ));
        }
        self.messages.push(said);
        self.round = Vec::new();
        self.next = 0;
        assert(views(self.round@) =~= Seq::empty());
        Step::CallModel(self.call_model())
    }

    /// Takes the outcome of the model call of a buffered turn and says what is
    /// next.
    pub fn on_completion(&mut self, outcome: Result<ChatCompletion, Error>) -> (step: Step)
        ensures
            (final(self)@, step@) == on_completion_spec(old(self)@, result_view(outcome)),
    {
        match outcome {
            Err(e) => Step::Failed(e),
            Ok(completion) => {
                let mut choices = completion.choices;
                if choices.len() == 0 {
                    return Step::Failed(Error::EmptyResponse);
                }
                let first = choices.remove(0);
                match first.message {
                    None => Step::Failed(Error::Decode),
                    Some(m) => {
                        let content = clone_text(&m.content);
                        let calls = match &m.tool_calls {
                            Some(calls) => clone_tool_calls(calls),
                            None => Vec::new(),
                        };
                        proof {
                            lemma_views_push(self.messages@, m);
                            if m.tool_calls is None {
                                assert(views(calls@) =~= Seq::empty());
                            }
                        }
                        self.messages.push(m);
                        self.next = 0;
                        if calls.len() > 0 {
                            self.round = calls;
                            self.next_step()
                        } else {
                            self.round = Vec::new();
                            assert(views(self.round@) =~= Seq::empty());
                            let mut answer: Vec<Option<String>> = Vec::new();
                            answer.push(content);
                            assert(Seq::new(answer@.len(), |i: int| opt_view(answer@[i])) =~= seq![
                                m@.content,
                            ]);
                            Step::Done(answer)
                        }
                    },
                }
            },
        }
    }

    /// Takes the reply to the model call of a buffered turn and says what is
    /// next. The body of the reply is read by `serde_json`.
    pub fn completed(&mut self, reply: Reply) -> (step: Step)
        ensures
            (final(self)@, step@) == on_completion_spec(old(self)@, completion_result(reply@)),
    {
        self.on_completion(read_completion(reply))
    }

    /// Takes the outcome of the file operation of a buffered turn, answers the
    /// awaited call with it and says what is next.
    pub fn tool_finished(&mut self, outcome: Result<Json, String>) -> (step: Step)
        ensures
            (final(self)@, step@) == on_tool_spec(old(self)@, result_view(outcome)),
    {
        if self.next < self.round.len() {
            let doc = match outcome {
                Ok(j) => j,
                Err(text) => failure_document(&Error::ToolExecution(text)),
            };
            let answer = answer_call(&self.round[self.next], &doc);
            proof {
                lemma_views_push(self.messages@, answer);
            }
            self.messages.push(answer);
            self.next = self.next + 1;
        }
        self.next_step()
    }

    /// The request that opens a stream for the working copy of a turn.
    fn open_stream_for(&self, turn: &StreamTurn) -> (r: Request)
        ensures
            r@ == model_request(self@.client, turn@.working, self@.tools, true),
    {
        self.client.chat_completion_stream(
            &turn.working,
            Some(Box::new(self.toolbox.get_tools())),
        )
    }

    /// Goes on with the round in progress of a streamed turn.
    fn next_stream_step(&self, turn: &mut StreamTurn) -> (step: StreamStep)
        ensures
            (final(turn)@, step@) == after_stream_round(self@, old(turn)@),
    {
        match go_through(&mut turn.working, &self.toolbox, &turn.round, &mut turn.next) {
            Some(op) => StreamStep::RunTool(op),
            None => StreamStep::OpenStream(self.open_stream_for(turn)),
        }
    }

    /// Begins a streamed turn: the user's message is added to the conversation,
    /// the turn gets its working copy, and a stream is to be opened for it.
    pub fn message_stream(&mut self, message: String) -> (r: (StreamTurn, StreamStep))
        ensures
            final(self)@ == (CodrView {
                messages: old(self)@.messages.push(plain_message(Role::User, message@)),
                ..old(self)@
            }),
            r.0@ == (StreamTurnView {
                working: final(self)@.messages,
                round: Seq::empty(),
                next: 0,
            }),
            r.1@ == StreamStepView::OpenStream(
                model_request(final(self)@.client, final(self)@.messages, final(self)@.tools, true),
            ),
    {
        let said = simple_message(message, Role::User);
        proof {
            lemma_views_push(self.messages@, said);
        }
        self.messages.push(said);
        let round: Vec<ToolCall> = Vec::new();
        assert(views(round@) =~= Seq::empty());
        let turn = StreamTurn { working: clone_messages(&self.messages), round, next: 0 };
        let step = StreamStep::OpenStream(self.open_stream_for(&turn));
        (turn, step)
    }

    /// Takes an event of the stream of a streamed turn and says what is next.
    /// The conversation changes only when the answer is finished: it then
    /// becomes the working copy of the turn.
    pub fn on_stream_event(&mut self, turn: &mut StreamTurn, event: StreamEvent) -> (step:
        StreamStep)
        ensures
            (final(self)@, final(turn)@, step@) == on_event_spec(old(self)@, old(turn)@, event@),
            !(event@ is Finished) ==> final(self)@ == old(self)@,
    {
        match event {
            StreamEvent::TextDelta(text) => StreamStep::Deliver(text),
            StreamEvent::ToolCallDelta(_) => StreamStep::Continue,
            StreamEvent::ToolCallsReady(calls) => {
                let asking = Message {
                    role: Some(Role::Assistant),
                    content: None,
                    tool_calls: Some(clone_tool_calls(&calls)),
                    tool_call_id: None,
                };
                proof {
                    lemma_views_push(turn.working@, asking);
                }
                turn.working.push(asking);
                turn.round = calls;
                turn.next = 0;
                self.next_stream_step(turn)
            },
            StreamEvent::Finished(text) => {
                let said = simple_message(text, Role::Assistant);
                proof {
                    lemma_views_push(turn.working@, said);
                }
                turn.working.push(said);
                turn.round = Vec::new();
                turn.next = 0;
                assert(views(turn.round@) =~= Seq::empty());
                self.messages = clone_messages(&turn.working);
                StreamStep::Done
            },
        }
    }

    /// Takes the outcome of the file operation of a streamed turn, answers the
    /// awaited call with it in the working copy and says what is next.
    pub fn stream_tool_finished(&self, turn: &mut StreamTurn, outcome: Result<Json, String>) -> (step:
        StreamStep)
        ensures
            (final(turn)@, step@) == ({
                let (working, next) = answered(
                    old(turn)@.working,
                    old(turn)@.round,
                    old(turn)@.next,
                    result_view(outcome),
                );
                after_stream_round(self@, StreamTurnView { working, next, ..old(turn)@ })
            }),
    {
        if turn.next < turn.round.len() {
            let doc = match outcome {
                Ok(j) => j,
                Err(text) => failure_document(&Error::ToolExecution(text)),
            };
            let answer = answer_call(&turn.round[turn.next], &doc);
            proof {
                lemma_views_push(turn.working@, answer);
            }
            turn.working.push(answer);
            turn.next = turn.next + 1;
        }
        self.next_stream_step(turn)
    }
}

} // verus!
