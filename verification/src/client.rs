//! The chat-completions endpoint: which request stands for a call, and what an
//! answer of the endpoint means. Sending the request is the caller's part.

use crate::error::{Error, ErrorView};
use crate::json::{members_view, Json, JsonValue};
use crate::openai::{
    opt_view, views, ChatCompletion, ChatCompletionView, Message, MessageView, Tool, ToolView,
};
use crate::jsonio::text_parse;
use crate::stream::{settled, Progress, Reassembler};
use crate::wire::{
    completion_of, messages_json, messages_to_json, opt_member, push_member, tools_json,
    tools_to_json,
};
use vstd::prelude::*;
use vstd::string::StringExecFns;

verus! {

/// The endpoint's address, credential and model.
#[derive(Debug, Clone, PartialEq)]
pub struct OpenAIClient {
    pub api_key: String,
    pub base_url: String,
    pub model: String,
}

pub struct OpenAIClientView {
    pub api_key: Seq<char>,
    pub base_url: Seq<char>,
    pub model: Seq<char>,
}

impl View for OpenAIClient {
    type V = OpenAIClientView;

    open spec fn view(&self) -> OpenAIClientView {
        OpenAIClientView { api_key: self.api_key@, base_url: self.base_url@, model: self.model@ }
    }
}

/// A request to be posted: where to, under which `Authorization` header, and
/// with which JSON body.
#[derive(Debug, Clone, PartialEq)]
pub struct Request {
    pub url: String,
    pub authorization: String,
    pub body: Json,
}

pub struct RequestView {
    pub url: Seq<char>,
    pub authorization: Seq<char>,
    pub body: JsonValue,
}

impl View for Request {
    type V = RequestView;

    open spec fn view(&self) -> RequestView {
        RequestView { url: self.url@, authorization: self.authorization@, body: self.body@ }
    }
}

/// What came back for a request.
#[derive(Debug, Clone, PartialEq)]
pub enum Reply {
    /// Nothing: the request could not be sent or the connection broke.
    Unreachable,
    /// An answer with its status and its body as text.
    Answered { status: u16, body: String },
}

pub enum ReplyView {
    Unreachable,
    Answered { status: u16, body: Seq<char> },
}

impl View for Reply {
    type V = ReplyView;

    open spec fn view(&self) -> ReplyView {
        match self {
            Reply::Unreachable => ReplyView::Unreachable,
            Reply::Answered { status, body } => ReplyView::Answered {
                status: *status,
                body: body@,
            },
        }
    }
}

/// An address without the slashes at its end.
pub open spec fn without_trailing_slashes(url: Seq<char>) -> Seq<char>
    decreases url.len(),
{
    if url.len() > 0 && url.last() == '/' {
        without_trailing_slashes(url.drop_last())
    } else {
        url
    }
}

/// The request for a completion: a post to `{base_url}/chat/completions` with the
/// bearer credential and the body `{model, messages, tools?, stream?}`. `tools` is
/// left out where none are offered, `stream` where the answer is not streamed.
pub open spec fn request_of(
    client: OpenAIClientView,
    messages: Seq<MessageView>,
    tools: Option<Seq<ToolView>>,
    stream: bool,
) -> RequestView {
    RequestView {
        url: client.base_url + "/chat/completions"@,
        authorization: "Bearer "@ + client.api_key,
        body: JsonValue::Object(
            seq![
                ("model"@, JsonValue::Str(client.model)),
                ("messages"@, JsonValue::Array(messages_json(messages))),
            ] + opt_member(
                "tools"@,
                match tools {
                    Some(ts) => Some(JsonValue::Array(tools_json(ts))),
                    None => None,
                },
            ) + opt_member(
                "stream"@,
                if stream {
                    Some(JsonValue::Bool(true))
                } else {
                    None
                },
            ),
        ),
    }
}

/// Whether a status says that the request succeeded: 200 to 299.
pub open spec fn is_success(status: u16) -> bool {
    200 <= status < 300
}

/// What the reply to a buffered request means: the answer, or the failure. The
/// body is read as JSON by `serde_json`.
pub open spec fn completion_result(reply: ReplyView) -> Result<ChatCompletionView, ErrorView> {
    match reply {
        ReplyView::Unreachable => Err(ErrorView::Transport),
        ReplyView::Answered { status, body } => if !is_success(status) {
            Err(ErrorView::Remote { status, body })
        } else {
            decoded_completion(text_parse(body))
        },
    }
}

/// The answer that a parsed body stands for.
pub open spec fn decoded_completion(parsed: Result<JsonValue, Seq<char>>) -> Result<
    ChatCompletionView,
    ErrorView,
> {
    match parsed {
        Ok(j) => match completion_of(j) {
            Some(c) => Ok(c),
            None => Err(ErrorView::Decode),
        },
        Err(_) => Err(ErrorView::Decode),
    }
}

/// The views of a result's two sides.
pub open spec fn result_view<T: View, E: View>(r: Result<T, E>) -> Result<T::V, E::V> {
    match r {
        Ok(t) => Ok(t@),
        Err(e) => Err(e@),
    }
}

impl OpenAIClient {
    /// The client for the endpoint at `base_url`; slashes at the end of the
    /// address are dropped.
    pub fn new(base_url: String, api_key: String, model: String) -> (c: OpenAIClient)
        ensures
            c@ == (OpenAIClientView {
                api_key: api_key@,
                base_url: without_trailing_slashes(base_url@),
                model: model@,
            }),
    {
        let url = base_url.as_str();
        let mut n: usize = url.unicode_len();
        assert(url@.subrange(0, n as int) =~= url@);
        while n > 0 && url.get_char(n - 1) == '/'
            invariant
                n <= url@.len(),
                without_trailing_slashes(url@) == without_trailing_slashes(
                    url@.subrange(0, n as int),
                ),
            decreases n,
        {
            assert(url@.subrange(0, n as int).drop_last() =~= url@.subrange(0, n - 1));
            n -= 1;
        }
        let trimmed = url.substring_char(0, n).to_owned();
        OpenAIClient { api_key, base_url: trimmed, model }
    }

    /// The request, with or without the stream flag.
    fn request(
        &self,
        messages: &Vec<Message>,
        tools: Option<Box<Vec<Tool>>>,
        stream: bool,
    ) -> (r: Request)
        ensures
            r@ == request_of(
                self@,
                views(messages@),
                match tools {
                    Some(ts) => Some(views(ts@)),
                    None => None,
                },
                stream,
            ),
    {
        let url = self.base_url.clone().concat("/chat/completions");
        let authorization = "Bearer ".to_owned().concat(self.api_key.as_str());
        let mut members: Vec<(String, Json)> = Vec::new();
        assert(members_view(members@) =~= Seq::empty());
        push_member(&mut members, "model", Json::Str(self.model.clone()));
        push_member(&mut members, "messages", messages_to_json(messages));
        match &tools {
            Some(ts) => {
                push_member(&mut members, "tools", tools_to_json(ts));
            },
            None => {},
        }
        if stream {
            push_member(&mut members, "stream", Json::Bool(true));
        }
        let body = Json::object(members);
        proof {
            let wanted = request_of(
                self@,
                views(messages@),
                match tools {
                    Some(ts) => Some(views(ts@)),
                    None => None,
                },
                stream,
            );
            assert(body@->Object_0 =~= wanted.body->Object_0);
        }
        Request { url, authorization, body }
    }

    /// The request for a buffered completion of `messages`, with `tools` on offer.
    pub fn chat_completion(&self, messages: &Vec<Message>, tools: Option<Box<Vec<Tool>>>) -> (r:
        Request)
        ensures
            r@ == request_of(
                self@,
                views(messages@),
                match tools {
                    Some(ts) => Some(views(ts@)),
                    None => None,
                },
                false,
            ),
    {
        self.request(messages, tools, false)
    }

    /// The request for a streamed completion of `messages`, with `tools` on offer.
    pub fn chat_completion_stream(
        &self,
        messages: &Vec<Message>,
        tools: Option<Box<Vec<Tool>>>,
    ) -> (r: Request)
        ensures
            r@ == request_of(
                self@,
                views(messages@),
                match tools {
                    Some(ts) => Some(views(ts@)),
                    None => None,
                },
                true,
            ),
    {
        self.request(messages, tools, true)
    }
}

/// Whether `status` says that the request succeeded.
pub fn status_is_success(status: u16) -> (r: bool)
    ensures
        r == is_success(status),
{
    200 <= status && status < 300
}

/// Reads the reply to a buffered request: the answer on a success status with a
/// body of the right shape, else the failure.
pub fn read_completion(reply: Reply) -> (r: Result<ChatCompletion, Error>)
    ensures
        result_view(r) == completion_result(reply@),
{
    match reply {
        Reply::Unreachable => Err(Error::Transport),
        Reply::Answered { status, body } => {
            if !status_is_success(status) {
                Err(Error::Remote { status, body })
            } else {
                match Json::parse_text(body.as_str()) {
                    Ok(j) => match ChatCompletion::from_json(&j) {
                        Some(c) => Ok(c),
                        None => Err(Error::Decode),
                    },
                    Err(_) => Err(Error::Decode),
                }
            }
        },
    }
}

/// Reads the reply that opens a stream: on a success status a fresh reassembly
/// engine for its chunks, else the failure.
pub fn open_stream(reply: Reply) -> (r: Result<Reassembler, Error>)
    ensures
        match r {
            Ok(engine) => reply@ matches ReplyView::Answered { status, body } && is_success(status)
                && engine@.pending == Seq::<u8>::empty() && engine@.progress == (Progress {
                content: Seq::empty(),
                call: None,
                done: false,
            }) && settled(engine@),
            Err(e) => match reply@ {
                ReplyView::Unreachable => e@ == ErrorView::Transport,
                ReplyView::Answered { status, body } => !is_success(status) && e@ == (
                ErrorView::Remote { status, body }),
            },
        },
{
    match reply {
        Reply::Unreachable => Err(Error::Transport),
        Reply::Answered { status, body } => {
            if status_is_success(status) {
                Ok(Reassembler::new())
            } else {
                Err(Error::Remote { status, body })
            }
        },
    }
}

} // verus!
