//! The conversation's data: roles, messages, tool calls, and the answers of the
//! chat-completions endpoint.

use crate::json::{Json, JsonValue};
use vstd::prelude::*;

verus! {

/// Who speaks in a message.
#[derive(Debug, Clone, Copy, PartialEq, Eq, Structural)]
pub enum Role {
    System,
    User,
    Assistant,
    Tool,
}

/// The name and the argument text of a requested call. While a call is being
/// streamed, `arguments` may be an unfinished JSON document.
#[derive(Debug, PartialEq)]
pub struct FunctionCall {
    pub name: Option<String>,
    pub arguments: String,
}

/// A tool call that the model asks for.
#[derive(Debug, PartialEq)]
pub struct ToolCall {
    pub id: Option<String>,
    pub index: Option<usize>,
    pub tool_type: Option<String>,
    pub function: FunctionCall,
}

/// One entry of the conversation, or a fragment of one while it is streamed.
#[derive(Debug, PartialEq)]
pub struct Message {
    pub role: Option<Role>,
    pub content: Option<String>,
    pub tool_calls: Option<Vec<ToolCall>>,
    pub tool_call_id: Option<String>,
}

/// One alternative of an answer: a whole message (buffered), or a delta with an
/// optional finish reason (streamed).
#[derive(Debug, PartialEq)]
pub struct Choice {
    pub message: Option<Message>,
    pub delta: Option<Message>,
    pub finish_reason: Option<String>,
}

/// A buffered answer of the endpoint.
#[derive(Debug, Clone, PartialEq)]
pub struct ChatCompletion {
    pub choices: Vec<Choice>,
}

/// One event of a streamed answer.
#[derive(Debug, Clone, PartialEq)]
pub struct StreamChunk {
    pub object: String,
    pub created: i64,
    pub model: String,
    pub choices: Vec<Choice>,
}

/// What the stream hands to its consumer: a text or tool-call choice, or the end of
/// the answer with its whole text.
#[derive(Debug, Clone, PartialEq)]
pub struct StreamChannelChunk {
    pub finished: bool,
    pub final_content: Option<String>,
    pub choices: Vec<Choice>,
}

/// A function that the model may call: its name, what it does, and the JSON schema
/// of its arguments.
#[derive(Debug, PartialEq)]
pub struct Function {
    pub name: String,
    pub description: String,
    pub parameters: Json,
}

/// A tool offered to the model.
#[derive(Debug, PartialEq)]
pub struct Tool {
    pub tool_type: String,
    pub function: Function,
}

pub struct FunctionCallView {
    pub name: Option<Seq<char>>,
    pub arguments: Seq<char>,
}

pub struct ToolCallView {
    pub id: Option<Seq<char>>,
    pub index: Option<usize>,
    pub tool_type: Option<Seq<char>>,
    pub function: FunctionCallView,
}

pub struct MessageView {
    pub role: Option<Role>,
    pub content: Option<Seq<char>>,
    pub tool_calls: Option<Seq<ToolCallView>>,
    pub tool_call_id: Option<Seq<char>>,
}

pub struct ChoiceView {
    pub message: Option<MessageView>,
    pub delta: Option<MessageView>,
    pub finish_reason: Option<Seq<char>>,
}

pub struct ChatCompletionView {
    pub choices: Seq<ChoiceView>,
}

pub struct StreamChunkView {
    pub object: Seq<char>,
    pub created: i64,
    pub model: Seq<char>,
    pub choices: Seq<ChoiceView>,
}

pub struct StreamChannelChunkView {
    pub finished: bool,
    pub final_content: Option<Seq<char>>,
    pub choices: Seq<ChoiceView>,
}

pub struct FunctionView {
    pub name: Seq<char>,
    pub description: Seq<char>,
    pub parameters: JsonValue,
}

pub struct ToolView {
    pub tool_type: Seq<char>,
    pub function: FunctionView,
}

/// The views of a sequence's items.
pub open spec fn views<T: View>(items: Seq<T>) -> Seq<T::V> {
    Seq::new(items.len(), |i: int| items[i]@)
}

/// The view of an optional value.
pub open spec fn opt_view<T: View>(o: Option<T>) -> Option<T::V> {
    match o {
        Some(t) => Some(t@),
        None => None,
    }
}

/// The views of an optional list's items.
pub open spec fn opt_views<T: View>(o: Option<Vec<T>>) -> Option<Seq<T::V>> {
    match o {
        Some(items) => Some(views(items@)),
        None => None,
    }
}

impl View for FunctionCall {
    type V = FunctionCallView;

    open spec fn view(&self) -> FunctionCallView {
        FunctionCallView { name: opt_view(self.name), arguments: self.arguments@ }
    }
}

impl View for ToolCall {
    type V = ToolCallView;

    open spec fn view(&self) -> ToolCallView {
        ToolCallView {
            id: opt_view(self.id),
            index: self.index,
            tool_type: opt_view(self.tool_type),
            function: self.function@,
        }
    }
}

impl View for Message {
    type V = MessageView;

    open spec fn view(&self) -> MessageView {
        MessageView {
            role: self.role,
            content: opt_view(self.content),
            tool_calls: opt_views(self.tool_calls),
            tool_call_id: opt_view(self.tool_call_id),
        }
    }
}

impl View for Choice {
    type V = ChoiceView;

    open spec fn view(&self) -> ChoiceView {
        ChoiceView {
            message: opt_view(self.message),
            delta: opt_view(self.delta),
            finish_reason: opt_view(self.finish_reason),
        }
    }
}

impl View for ChatCompletion {
    type V = ChatCompletionView;

    open spec fn view(&self) -> ChatCompletionView {
        ChatCompletionView { choices: views(self.choices@) }
    }
}

impl View for StreamChunk {
    type V = StreamChunkView;

    open spec fn view(&self) -> StreamChunkView {
        StreamChunkView {
            object: self.object@,
            created: self.created,
            model: self.model@,
            choices: views(self.choices@),
        }
    }
}

impl View for StreamChannelChunk {
    type V = StreamChannelChunkView;

    open spec fn view(&self) -> StreamChannelChunkView {
        StreamChannelChunkView {
            finished: self.finished,
            final_content: opt_view(self.final_content),
            choices: views(self.choices@),
        }
    }
}

impl View for Function {
    type V = FunctionView;

    open spec fn view(&self) -> FunctionView {
        FunctionView {
            name: self.name@,
            description: self.description@,
            parameters: self.parameters@,
        }
    }
}

impl View for Tool {
    type V = ToolView;

    open spec fn view(&self) -> ToolView {
        ToolView { tool_type: self.tool_type@, function: self.function@ }
    }
}

/// A copy of an optional text.
pub fn clone_text(o: &Option<String>) -> (r: Option<String>)
    ensures
        opt_view(r) == opt_view(*o),
{
    match o {
        Some(s) => Some(s.clone()),
        None => None,
    }
}

impl Clone for FunctionCall {
    fn clone(&self) -> (r: FunctionCall)
        ensures
            r@ == self@,
    {
        FunctionCall { name: clone_text(&self.name), arguments: self.arguments.clone() }
    }
}

impl Clone for ToolCall {
    fn clone(&self) -> (r: ToolCall)
        ensures
            r@ == self@,
    {
        ToolCall {
            id: clone_text(&self.id),
            index: self.index,
            tool_type: clone_text(&self.tool_type),
            function: self.function.clone(),
        }
    }
}

/// A copy of a list of tool calls.
pub fn clone_tool_calls(calls: &Vec<ToolCall>) -> (r: Vec<ToolCall>)
    ensures
        views(r@) == views(calls@),
{
    let mut copy: Vec<ToolCall> = Vec::new();
    let mut i: usize = 0;
    while i < calls.len()
        invariant
            i <= calls.len(),
            copy.len() == i,
            forall|k: int| 0 <= k < i ==> copy[k]@ == calls[k]@,
        decreases calls.len() - i,
    {
        copy.push(calls[i].clone());
        i += 1;
    }
    assert(views(copy@) =~= views(calls@));
    copy
}

impl Clone for Message {
    fn clone(&self) -> (r: Message)
        ensures
            r@ == self@,
    {
        let tool_calls = match &self.tool_calls {
            Some(calls) => Some(clone_tool_calls(calls)),
            None => None,
        };
        Message {
            role: self.role,
            content: clone_text(&self.content),
            tool_calls,
            tool_call_id: clone_text(&self.tool_call_id),
        }
    }
}

/// A copy of a conversation.
pub fn clone_messages(messages: &Vec<Message>) -> (r: Vec<Message>)
    ensures
        views(r@) == views(messages@),
{
    let mut copy: Vec<Message> = Vec::new();
    let mut i: usize = 0;
    while i < messages.len()
        invariant
            i <= messages.len(),
            copy.len() == i,
            forall|k: int| 0 <= k < i ==> copy[k]@ == messages[k]@,
        decreases messages.len() - i,
    {
        copy.push(messages[i].clone());
        i += 1;
    }
    assert(views(copy@) =~= views(messages@));
    copy
}

impl Clone for Choice {
    fn clone(&self) -> (r: Choice)
        ensures
            r@ == self@,
    {
        let message = match &self.message {
            Some(m) => Some(m.clone()),
            None => None,
        };
        let delta = match &self.delta {
            Some(m) => Some(m.clone()),
            None => None,
        };
        Choice { message, delta, finish_reason: clone_text(&self.finish_reason) }
    }
}

impl Clone for Function {
    fn clone(&self) -> (r: Function)
        ensures
            r@ == self@,
    {
        Function {
            name: self.name.clone(),
            description: self.description.clone(),
            parameters: self.parameters.clone(),
        }
    }
}

impl Clone for Tool {
    fn clone(&self) -> (r: Tool)
        ensures
            r@ == self@,
    {
        Tool { tool_type: self.tool_type.clone(), function: self.function.clone() }
    }
}

/// A message of `role` that says `message` and carries no tool fields.
pub fn simple_message(message: String, role: Role) -> (m: Message)
    ensures
        m@ == (MessageView {
            role: Some(role),
            content: Some(message@),
            tool_calls: None,
            tool_call_id: None,
        }),
{
    Message { role: Some(role), content: Some(message), tool_calls: None, tool_call_id: None }
}

/// The tool-result message that answers the call `id` with `result`.
pub fn tool_call_result(id: String, result: String) -> (m: Message)
    ensures
        m@ == (MessageView {
            role: Some(Role::Tool),
            content: Some(result@),
            tool_calls: None,
            tool_call_id: Some(id@),
        }),
{
    Message {
        role: Some(Role::Tool),
        content: Some(result),
        tool_calls: None,
        tool_call_id: Some(id),
    }
}

} // verus!
