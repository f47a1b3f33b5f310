//! The wire shape of the conversation's data: which JSON document stands for a
//! message, a tool call or an answer, and which value a JSON document reads as.
//!
//! A field that was never set is left out of the document; it is never written as
//! `null`. On the way in, a missing member and a `null` member both read as a
//! field that is not set, and members with other keys are passed over.

use crate::json::{
    find_member, items_view, lemma_array_view, lemma_object_view, members_view, Json, JsonValue,
};
use crate::openai::{
    opt_view, opt_views, views, ChatCompletion, ChatCompletionView, Choice, ChoiceView, Function,
    FunctionCall, FunctionCallView, FunctionView, Message, MessageView, Role, StreamChunk,
    StreamChunkView, Tool, ToolCall, ToolCallView, ToolView,
};
use vstd::prelude::*;

verus! {

/// The wire name of a role.
pub open spec fn role_name(role: Role) -> Seq<char> {
    match role {
        Role::System => "system"@,
        Role::User => "user"@,
        Role::Assistant => "assistant"@,
        Role::Tool => "tool"@,
    }
}

/// The role that a wire name stands for.
pub open spec fn role_of(name: Seq<char>) -> Option<Role> {
    if name == "system"@ {
        Some(Role::System)
    } else if name == "user"@ {
        Some(Role::User)
    } else if name == "assistant"@ {
        Some(Role::Assistant)
    } else if name == "tool"@ {
        Some(Role::Tool)
    } else {
        None
    }
}

/// The member `key` with `value`, or no member where there is no value.
pub open spec fn opt_member(key: Seq<char>, value: Option<JsonValue>) -> Seq<
    (Seq<char>, JsonValue),
> {
    match value {
        Some(j) => seq![(key, j)],
        None => Seq::empty(),
    }
}

/// An optional text as an optional JSON string.
pub open spec fn opt_str(text: Option<Seq<char>>) -> Option<JsonValue> {
    match text {
        Some(t) => Some(JsonValue::Str(t)),
        None => None,
    }
}

/// The document of a function call: `{name?, arguments}`.
pub open spec fn function_call_json(f: FunctionCallView) -> JsonValue {
    JsonValue::Object(
        opt_member("name"@, opt_str(f.name)) + seq![("arguments"@, JsonValue::Str(f.arguments))],
    )
}

/// The document of a tool call: `{id?, index?, type?, function}`.
pub open spec fn tool_call_json(c: ToolCallView) -> JsonValue {
    JsonValue::Object(
        opt_member("id"@, opt_str(c.id)) + opt_member(
            "index"@,
            match c.index {
                Some(n) => Some(JsonValue::Uint(n as u64)),
                None => None,
            },
        ) + opt_member("type"@, opt_str(c.tool_type)) + seq![
            ("function"@, function_call_json(c.function)),
        ],
    )
}

/// The documents of a list of tool calls.
pub open spec fn tool_calls_json(calls: Seq<ToolCallView>) -> Seq<JsonValue> {
    Seq::new(calls.len(), |i: int| tool_call_json(calls[i]))
}

/// The document of a message: `{role?, content?, tool_calls?, tool_call_id?}`.
pub open spec fn message_json(m: MessageView) -> JsonValue {
    JsonValue::Object(
        opt_member(
            "role"@,
            match m.role {
                Some(r) => Some(JsonValue::Str(role_name(r))),
                None => None,
            },
        ) + opt_member("content"@, opt_str(m.content)) + opt_member(
            "tool_calls"@,
            match m.tool_calls {
                Some(calls) => Some(JsonValue::Array(tool_calls_json(calls))),
                None => None,
            },
        ) + opt_member("tool_call_id"@, opt_str(m.tool_call_id)),
    )
}

/// The documents of a conversation.
pub open spec fn messages_json(messages: Seq<MessageView>) -> Seq<JsonValue> {
    Seq::new(messages.len(), |i: int| message_json(messages[i]))
}

/// The document of a function offered to the model: `{name, description, parameters}`.
pub open spec fn function_json(f: FunctionView) -> JsonValue {
    JsonValue::Object(
        seq![
            ("name"@, JsonValue::Str(f.name)),
            ("description"@, JsonValue::Str(f.description)),
            ("parameters"@, f.parameters),
        ],
    )
}

/// The document of a tool offered to the model: `{type, function}`.
pub open spec fn tool_json(t: ToolView) -> JsonValue {
    JsonValue::Object(
        seq![("type"@, JsonValue::Str(t.tool_type)), ("function"@, function_json(t.function))],
    )
}

/// The documents of a list of tools.
pub open spec fn tools_json(tools: Seq<ToolView>) -> Seq<JsonValue> {
    Seq::new(tools.len(), |i: int| tool_json(tools[i]))
}

/// A required text member: the member must be there and be a string.
pub open spec fn read_text(j: JsonValue, key: Seq<char>) -> Option<Seq<char>> {
    match j.field(key) {
        Some(JsonValue::Str(t)) => Some(t),
        _ => None,
    }
}

/// An optional text member. The outer `None` says that the member is there and is
/// neither a string nor `null`.
pub open spec fn read_opt_text(j: JsonValue, key: Seq<char>) -> Option<Option<Seq<char>>> {
    match j.present(key) {
        None => Some(None),
        Some(JsonValue::Str(t)) => Some(Some(t)),
        Some(_) => None,
    }
}

/// An optional index member: an unsigned integer that fits `usize`.
pub open spec fn read_opt_index(j: JsonValue, key: Seq<char>) -> Option<Option<usize>> {
    match j.present(key) {
        None => Some(None),
        Some(JsonValue::Uint(n)) => if n <= usize::MAX {
            Some(Some(n as usize))
        } else {
            None
        },
        Some(_) => None,
    }
}

/// A required integer member that fits `i64`.
pub open spec fn read_i64(j: JsonValue, key: Seq<char>) -> Option<i64> {
    match j.field(key) {
        Some(JsonValue::Uint(n)) => if n <= i64::MAX {
            Some(n as i64)
        } else {
            None
        },
        Some(JsonValue::Int(n)) => Some(n),
        _ => None,
    }
}

/// The function call that a document reads as.
pub open spec fn function_call_of(j: JsonValue) -> Option<FunctionCallView> {
    if j is Object && read_opt_text(j, "name"@) is Some && read_text(j, "arguments"@) is Some {
        Some(
            FunctionCallView {
                name: read_opt_text(j, "name"@)->0,
                arguments: read_text(j, "arguments"@)->0,
            },
        )
    } else {
        None
    }
}

/// The tool call that a document reads as.
pub open spec fn tool_call_of(j: JsonValue) -> Option<ToolCallView> {
    if j is Object && read_opt_text(j, "id"@) is Some && read_opt_index(j, "index"@) is Some
        && read_opt_text(j, "type"@) is Some && j.field("function"@) is Some && function_call_of(
        j.field("function"@)->0,
    ) is Some {
        Some(
            ToolCallView {
                id: read_opt_text(j, "id"@)->0,
                index: read_opt_index(j, "index"@)->0,
                tool_type: read_opt_text(j, "type"@)->0,
                function: function_call_of(j.field("function"@)->0)->0,
            },
        )
    } else {
        None
    }
}

/// The tool calls that a list of documents reads as, if each of them reads as one.
pub open spec fn tool_calls_of(items: Seq<JsonValue>) -> Option<Seq<ToolCallView>> {
    if forall|i: int| 0 <= i < items.len() ==> (#[trigger] tool_call_of(items[i])) is Some {
        Some(Seq::new(items.len(), |i: int| tool_call_of(items[i])->0))
    } else {
        None
    }
}

/// An optional role member: a string that names a role.
pub open spec fn read_opt_role(j: JsonValue, key: Seq<char>) -> Option<Option<Role>> {
    match j.present(key) {
        None => Some(None),
        Some(JsonValue::Str(name)) => match role_of(name) {
            Some(r) => Some(Some(r)),
            None => None,
        },
        Some(_) => None,
    }
}

/// An optional member that lists tool calls.
pub open spec fn read_opt_tool_calls(j: JsonValue, key: Seq<char>) -> Option<
    Option<Seq<ToolCallView>>,
> {
    match j.present(key) {
        None => Some(None),
        Some(JsonValue::Array(items)) => match tool_calls_of(items) {
            Some(calls) => Some(Some(calls)),
            None => None,
        },
        Some(_) => None,
    }
}

/// The message that a document reads as.
pub open spec fn message_of(j: JsonValue) -> Option<MessageView> {
    if j is Object && read_opt_role(j, "role"@) is Some && read_opt_text(j, "content"@) is Some
        && read_opt_tool_calls(j, "tool_calls"@) is Some && read_opt_text(j, "tool_call_id"@)
        is Some {
        Some(
            MessageView {
                role: read_opt_role(j, "role"@)->0,
                content: read_opt_text(j, "content"@)->0,
                tool_calls: read_opt_tool_calls(j, "tool_calls"@)->0,
                tool_call_id: read_opt_text(j, "tool_call_id"@)->0,
            },
        )
    } else {
        None
    }
}

/// An optional member that holds a message.
pub open spec fn read_opt_message(j: JsonValue, key: Seq<char>) -> Option<Option<MessageView>> {
    match j.present(key) {
        None => Some(None),
        Some(inner) => match message_of(inner) {
            Some(m) => Some(Some(m)),
            None => None,
        },
    }
}

/// The choice that a document reads as: `{message?, delta?, finish_reason?}`.
pub open spec fn choice_of(j: JsonValue) -> Option<ChoiceView> {
    if j is Object && read_opt_message(j, "message"@) is Some && read_opt_message(j, "delta"@)
        is Some && read_opt_text(j, "finish_reason"@) is Some {
        Some(
            ChoiceView {
                message: read_opt_message(j, "message"@)->0,
                delta: read_opt_message(j, "delta"@)->0,
                finish_reason: read_opt_text(j, "finish_reason"@)->0,
            },
        )
    } else {
        None
    }
}

/// The choices that a required member `choices` lists.
pub open spec fn read_choices(j: JsonValue) -> Option<Seq<ChoiceView>> {
    match j.field("choices"@) {
        Some(JsonValue::Array(items)) => if forall|i: int|
            0 <= i < items.len() ==> (#[trigger] choice_of(items[i])) is Some {
            Some(Seq::new(items.len(), |i: int| choice_of(items[i])->0))
        } else {
            None
        },
        _ => None,
    }
}

/// The buffered answer that a document reads as: `{choices}`.
pub open spec fn completion_of(j: JsonValue) -> Option<ChatCompletionView> {
    match read_choices(j) {
        Some(choices) => Some(ChatCompletionView { choices }),
        None => None,
    }
}

/// The stream event that a document reads as: `{object, created, model, choices}`.
pub open spec fn stream_chunk_of(j: JsonValue) -> Option<StreamChunkView> {
    if read_text(j, "object"@) is Some && read_i64(j, "created"@) is Some && read_text(
        j,
        "model"@,
    ) is Some && read_choices(j) is Some {
        Some(
            StreamChunkView {
                object: read_text(j, "object"@)->0,
                created: read_i64(j, "created"@)->0,
                model: read_text(j, "model"@)->0,
                choices: read_choices(j)->0,
            },
        )
    } else {
        None
    }
}

/// A key is looked up in the first of two lists of members before the second.
pub proof fn lemma_find_in_concat(
    a: Seq<(Seq<char>, JsonValue)>,
    b: Seq<(Seq<char>, JsonValue)>,
    key: Seq<char>,
)
    ensures
        find_member(a + b, key) == match find_member(a, key) {
            Some(j) => Some(j),
            None => find_member(b, key),
        },
    decreases a.len(),
{
    if a.len() == 0 {
        assert(a + b =~= b);
    } else {
        assert((a + b)[0] == a[0]);
        assert((a + b).drop_first() =~= a.drop_first() + b);
        lemma_find_in_concat(a.drop_first(), b, key);
    }
}

/// Looking a key up in a single optional member.
pub proof fn lemma_find_in_opt(k: Seq<char>, value: Option<JsonValue>, key: Seq<char>)
    ensures
        find_member(opt_member(k, value), key) == if k == key {
            value
        } else {
            None
        },
{
    match value {
        Some(j) => {
            let s = seq![(k, j)];
            assert(s.drop_first() =~= Seq::empty());
            assert(find_member(s.drop_first(), key) is None);
        },
        None => {},
    }
}

/// The wire names of the roles are four different texts.
pub proof fn lemma_role_round_trip(role: Role)
    ensures
        role_of(role_name(role)) == Some(role),
{
    reveal_strlit("system");
    reveal_strlit("user");
    reveal_strlit("assistant");
    reveal_strlit("tool");
    assert("system"@.len() == 6);
    assert("user"@.len() == 4);
    assert("assistant"@.len() == 9);
    assert("tool"@.len() == 4);
    assert("user"@[0] == 'u');
    assert("tool"@[0] == 't');
}


/// The member keys of the wire shapes, told apart by length and first letters.
pub proof fn lemma_keys()
    ensures
        "name"@.len() == 4,
        "arguments"@.len() == 9,
        "id"@.len() == 2,
        "index"@.len() == 5,
        "type"@.len() == 4,
        "function"@.len() == 8,
        "role"@.len() == 4,
        "content"@.len() == 7,
        "tool_calls"@.len() == 10,
        "tool_call_id"@.len() == 12,
        "message"@.len() == 7,
        "delta"@.len() == 5,
        "finish_reason"@.len() == 13,
        "choices"@.len() == 7,
        "created"@.len() == 7,
        "object"@.len() == 6,
        "model"@.len() == 5,
        "description"@.len() == 11,
        "parameters"@.len() == 10,
        "name"@[0] == 'n',
        "type"@[0] == 't',
        "choices"@[1] == 'h',
        "created"@[1] == 'r',
{
    reveal_strlit("name");
    reveal_strlit("arguments");
    reveal_strlit("id");
    reveal_strlit("index");
    reveal_strlit("type");
    reveal_strlit("function");
    reveal_strlit("role");
    reveal_strlit("content");
    reveal_strlit("tool_calls");
    reveal_strlit("tool_call_id");
    reveal_strlit("message");
    reveal_strlit("delta");
    reveal_strlit("finish_reason");
    reveal_strlit("choices");
    reveal_strlit("created");
    reveal_strlit("object");
    reveal_strlit("model");
    reveal_strlit("description");
    reveal_strlit("parameters");
}

/// A function call written to the wire reads back as itself.
pub proof fn lemma_function_call_round_trip(f: FunctionCallView)
    ensures
        function_call_of(function_call_json(f)) == Some(f),
{
    lemma_keys();
    let a = opt_member("name"@, opt_str(f.name));
    let b = seq![("arguments"@, JsonValue::Str(f.arguments))];
    lemma_find_in_concat(a, b, "name"@);
    lemma_find_in_concat(a, b, "arguments"@);
    lemma_find_in_opt("name"@, opt_str(f.name), "name"@);
    lemma_find_in_opt("name"@, opt_str(f.name), "arguments"@);
    lemma_find_in_opt("arguments"@, Some(JsonValue::Str(f.arguments)), "name"@);
    lemma_find_in_opt("arguments"@, Some(JsonValue::Str(f.arguments)), "arguments"@);
}

/// A tool call written to the wire reads back as itself.
pub proof fn lemma_tool_call_round_trip(c: ToolCallView)
    ensures
        tool_call_of(tool_call_json(c)) == Some(c),
{
    lemma_keys();
    lemma_function_call_round_trip(c.function);
    let index = match c.index {
        Some(n) => Some(JsonValue::Uint(n as u64)),
        None => None,
    };
    let function = Some(function_call_json(c.function));
    let a = opt_member("id"@, opt_str(c.id));
    let b = opt_member("index"@, index);
    let d = opt_member("type"@, opt_str(c.tool_type));
    let e = seq![("function"@, function_call_json(c.function))];
    assert forall|key: Seq<char>|
        key == "id"@ || key == "index"@ || key == "type"@ || key == "function"@ implies #[trigger] find_member(
        a + b + d + e,
        key,
    ) == if key == "id"@ {
        opt_str(c.id)
    } else if key == "index"@ {
        index
    } else if key == "type"@ {
        opt_str(c.tool_type)
    } else {
        function
    } by {
        lemma_find_in_concat(a + b + d, e, key);
        lemma_find_in_concat(a + b, d, key);
        lemma_find_in_concat(a, b, key);
        lemma_find_in_opt("id"@, opt_str(c.id), key);
        lemma_find_in_opt("index"@, index, key);
        lemma_find_in_opt("type"@, opt_str(c.tool_type), key);
        lemma_find_in_opt("function"@, function, key);
    }
}

/// A list of tool calls written to the wire reads back as itself.
pub proof fn lemma_tool_calls_round_trip(calls: Seq<ToolCallView>)
    ensures
        tool_calls_of(tool_calls_json(calls)) == Some(calls),
{
    let items = tool_calls_json(calls);
    assert forall|i: int| 0 <= i < items.len() implies (#[trigger] tool_call_of(items[i]))
        == Some(calls[i]) by {
        lemma_tool_call_round_trip(calls[i]);
    }
    assert(Seq::new(items.len(), |i: int| tool_call_of(items[i])->0) =~= calls);
}

/// A message written to the wire reads back as itself, and the document holds a
/// member for each field that is set and for no other: no `null` stands in for a
/// field that is not set.
pub proof fn lemma_message_round_trip(m: MessageView)
    ensures
        message_of(message_json(m)) == Some(m),
        message_json(m).field("role"@) is Some <==> m.role is Some,
        message_json(m).field("content"@) is Some <==> m.content is Some,
        message_json(m).field("tool_calls"@) is Some <==> m.tool_calls is Some,
        message_json(m).field("tool_call_id"@) is Some <==> m.tool_call_id is Some,
        forall|key: Seq<char>| message_json(m).field(key) != Some(JsonValue::Null),
{
    lemma_keys();
    let role = match m.role {
        Some(r) => Some(JsonValue::Str(role_name(r))),
        None => None,
    };
    let calls = match m.tool_calls {
        Some(cs) => Some(JsonValue::Array(tool_calls_json(cs))),
        None => None,
    };
    let a = opt_member("role"@, role);
    let b = opt_member("content"@, opt_str(m.content));
    let d = opt_member("tool_calls"@, calls);
    let e = opt_member("tool_call_id"@, opt_str(m.tool_call_id));
    assert forall|key: Seq<char>| #[trigger]
        find_member(a + b + d + e, key) == if key == "role"@ {
            role
        } else if key == "content"@ {
            opt_str(m.content)
        } else if key == "tool_calls"@ {
            calls
        } else if key == "tool_call_id"@ {
            opt_str(m.tool_call_id)
        } else {
            None
        } by {
        lemma_find_in_concat(a + b + d, e, key);
        lemma_find_in_concat(a + b, d, key);
        lemma_find_in_concat(a, b, key);
        lemma_find_in_opt("role"@, role, key);
        lemma_find_in_opt("content"@, opt_str(m.content), key);
        lemma_find_in_opt("tool_calls"@, calls, key);
        lemma_find_in_opt("tool_call_id"@, opt_str(m.tool_call_id), key);
    }
    if m.role is Some {
        lemma_role_round_trip(m.role->0);
    }
    if m.tool_calls is Some {
        lemma_tool_calls_round_trip(m.tool_calls->0);
    }
}


/// Whether two texts are the same.
pub fn same_text(a: &str, b: &str) -> (r: bool)
    ensures
        r == (a@ == b@),
{
    a.to_owned() == b.to_owned()
}

/// Appends the member `key` with `value`.
pub fn push_member(members: &mut Vec<(String, Json)>, key: &str, value: Json)
    ensures
        members_view(final(members)@) == members_view(old(members)@) + seq![(key@, value@)],
{
    members.push((key.to_owned(), value));
    assert(members_view(members@) =~= members_view(old(members)@) + seq![(key@, value@)]);
}

/// Appends the member `key` with the text `value`, if there is one.
pub fn push_opt_text(members: &mut Vec<(String, Json)>, key: &str, value: &Option<String>)
    ensures
        members_view(final(members)@) == members_view(old(members)@) + opt_member(
            key@,
            opt_str(opt_view(*value)),
        ),
{
    match value {
        Some(t) => {
            push_member(members, key, Json::Str(t.clone()));
        },
        None => {
            assert(members_view(members@) =~= members_view(members@) + Seq::empty());
        },
    }
}

/// Reads the required text member `key`.
pub fn get_text(j: &Json, key: &str) -> (r: Option<String>)
    ensures
        opt_view(r) == read_text(j@, key@),
{
    match j.get(key) {
        Some(Json::Str(t)) => Some(t.clone()),
        _ => None,
    }
}

/// Reads the optional text member `key`.
pub fn get_opt_text(j: &Json, key: &str) -> (r: Option<Option<String>>)
    ensures
        match r {
            Some(o) => read_opt_text(j@, key@) == Some(opt_view(o)),
            None => read_opt_text(j@, key@) is None,
        },
{
    match j.get_present(key) {
        None => Some(None),
        Some(Json::Str(t)) => Some(Some(t.clone())),
        Some(_) => None,
    }
}

impl Role {
    /// The wire name of the role.
    pub fn name(&self) -> (r: &'static str)
        ensures
            r@ == role_name(*self),
    {
        match self {
            Role::System => "system",
            Role::User => "user",
            Role::Assistant => "assistant",
            Role::Tool => "tool",
        }
    }

    /// The role that `name` stands for on the wire.
    pub fn from_name(name: &str) -> (r: Option<Role>)
        ensures
            r == role_of(name@),
    {
        if same_text(name, "system") {
            Some(Role::System)
        } else if same_text(name, "user") {
            Some(Role::User)
        } else if same_text(name, "assistant") {
            Some(Role::Assistant)
        } else if same_text(name, "tool") {
            Some(Role::Tool)
        } else {
            None
        }
    }
}

impl FunctionCall {
    /// The document that stands for the call on the wire.
    pub fn to_json(&self) -> (j: Json)
        ensures
            j@ == function_call_json(self@),
    {
        let mut members: Vec<(String, Json)> = Vec::new();
        assert(members_view(members@) =~= Seq::empty());
        push_opt_text(&mut members, "name", &self.name);
        push_member(&mut members, "arguments", Json::Str(self.arguments.clone()));
        assert(members_view(members@) =~= function_call_json(self@)->Object_0);
        Json::object(members)
    }

    /// Reads a call from its document; `None` where the document has not the
    /// shape of one.
    pub fn from_json(j: &Json) -> (r: Option<FunctionCall>)
        ensures
            opt_view(r) == function_call_of(j@),
    {
        match j {
            Json::Object(_) => {},
            _ => {
                return None;
            },
        }
        let name = match get_opt_text(j, "name") {
            Some(o) => o,
            None => {
                return None;
            },
        };
        let arguments = match get_text(j, "arguments") {
            Some(t) => t,
            None => {
                return None;
            },
        };
        Some(FunctionCall { name, arguments })
    }
}

impl ToolCall {
    /// The document that stands for the tool call on the wire.
    pub fn to_json(&self) -> (j: Json)
        ensures
            j@ == tool_call_json(self@),
    {
        let mut members: Vec<(String, Json)> = Vec::new();
        assert(members_view(members@) =~= Seq::empty());
        push_opt_text(&mut members, "id", &self.id);
        match self.index {
            Some(n) => {
                push_member(&mut members, "index", Json::Uint(n as u64));
            },
            None => {},
        }
        push_opt_text(&mut members, "type", &self.tool_type);
        push_member(&mut members, "function", self.function.to_json());
        assert(members_view(members@) =~= tool_call_json(self@)->Object_0);
        Json::object(members)
    }

    /// Reads a tool call from its document; `None` where the document has not the
    /// shape of one.
    pub fn from_json(j: &Json) -> (r: Option<ToolCall>)
        ensures
            opt_view(r) == tool_call_of(j@),
    {
        match j {
            Json::Object(_) => {},
            _ => {
                return None;
            },
        }
        let id = match get_opt_text(j, "id") {
            Some(o) => o,
            None => {
                return None;
            },
        };
        let index = match j.get_present("index") {
            None => None,
            Some(Json::Uint(n)) => {
                if *n <= usize::MAX as u64 {
                    Some(*n as usize)
                } else {
                    return None;
                }
            },
            Some(_) => {
                return None;
            },
        };
        let tool_type = match get_opt_text(j, "type") {
            Some(o) => o,
            None => {
                return None;
            },
        };
        let function = match j.get("function") {
            Some(inner) => match FunctionCall::from_json(inner) {
                Some(f) => f,
                None => {
                    return None;
                },
            },
            None => {
                return None;
            },
        };
        Some(ToolCall { id, index, tool_type, function })
    }
}

/// The documents of a list of tool calls.
pub fn tool_calls_to_json(calls: &Vec<ToolCall>) -> (j: Json)
    ensures
        j@ == JsonValue::Array(tool_calls_json(views(calls@))),
{
    let mut items: Vec<Json> = Vec::new();
    let mut i: usize = 0;
    while i < calls.len()
        invariant
            i <= calls.len(),
            items.len() == i,
            forall|k: int| 0 <= k < i ==> items[k]@ == tool_call_json(calls[k]@),
        decreases calls.len() - i,
    {
        items.push(calls[i].to_json());
        i += 1;
    }
    assert(items_view(items@) =~= tool_calls_json(views(calls@)));
    Json::array(items)
}

/// Reads a list of tool calls from their documents.
pub fn tool_calls_from_json(items: &Vec<Json>) -> (r: Option<Vec<ToolCall>>)
    ensures
        opt_views(r) == tool_calls_of(items_view(items@)),
{
    let ghost docs = items_view(items@);
    let mut calls: Vec<ToolCall> = Vec::new();
    let mut i: usize = 0;
    while i < items.len()
        invariant
            i <= items.len(),
            calls.len() == i,
            docs == items_view(items@),
            forall|k: int| 0 <= k < i ==> (#[trigger] tool_call_of(docs[k])) == Some(calls[k]@),
        decreases items.len() - i,
    {
        match ToolCall::from_json(&items[i]) {
            Some(c) => {
                calls.push(c);
            },
            None => {
                assert(tool_call_of(docs[i as int]) is None);
                return None;
            },
        }
        i += 1;
    }
    assert(views(calls@) =~= Seq::new(docs.len(), |k: int| tool_call_of(docs[k])->0));
    Some(calls)
}

impl Message {
    /// The document that stands for the message on the wire.
    pub fn to_json(&self) -> (j: Json)
        ensures
            j@ == message_json(self@),
    {
        let mut members: Vec<(String, Json)> = Vec::new();
        assert(members_view(members@) =~= Seq::empty());
        match self.role {
            Some(r) => {
                push_member(&mut members, "role", Json::string(r.name()));
            },
            None => {},
        }
        push_opt_text(&mut members, "content", &self.content);
        match &self.tool_calls {
            Some(calls) => {
                push_member(&mut members, "tool_calls", tool_calls_to_json(calls));
            },
            None => {},
        }
        push_opt_text(&mut members, "tool_call_id", &self.tool_call_id);
        assert(members_view(members@) =~= message_json(self@)->Object_0);
        Json::object(members)
    }

    /// Reads a message from its document; `None` where the document has not the
    /// shape of one.
    pub fn from_json(j: &Json) -> (r: Option<Message>)
        ensures
            opt_view(r) == message_of(j@),
    {
        match j {
            Json::Object(_) => {},
            _ => {
                return None;
            },
        }
        let role = match j.get_present("role") {
            None => None,
            Some(Json::Str(name)) => match Role::from_name(name.as_str()) {
                Some(r) => Some(r),
                None => {
                    return None;
                },
            },
            Some(_) => {
                return None;
            },
        };
        let content = match get_opt_text(j, "content") {
            Some(o) => o,
            None => {
                return None;
            },
        };
        let tool_calls = match j.get_present("tool_calls") {
            None => None,
            Some(Json::Array(items)) => {
                proof {
                    lemma_array_view(*items);
                }
                match tool_calls_from_json(items) {
                    Some(calls) => Some(calls),
                    None => {
                        return None;
                    },
                }
            },
            Some(_) => {
                return None;
            },
        };
        let tool_call_id = match get_opt_text(j, "tool_call_id") {
            Some(o) => o,
            None => {
                return None;
            },
        };
        Some(Message { role, content, tool_calls, tool_call_id })
    }
}

/// The documents of a conversation.
pub fn messages_to_json(messages: &Vec<Message>) -> (j: Json)
    ensures
        j@ == JsonValue::Array(messages_json(views(messages@))),
{
    let mut items: Vec<Json> = Vec::new();
    let mut i: usize = 0;
    while i < messages.len()
        invariant
            i <= messages.len(),
            items.len() == i,
            forall|k: int| 0 <= k < i ==> items[k]@ == message_json(messages[k]@),
        decreases messages.len() - i,
    {
        items.push(messages[i].to_json());
        i += 1;
    }
    assert(items_view(items@) =~= messages_json(views(messages@)));
    Json::array(items)
}

impl Function {
    /// The document that stands for the function on the wire.
    pub fn to_json(&self) -> (j: Json)
        ensures
            j@ == function_json(self@),
    {
        let mut members: Vec<(String, Json)> = Vec::new();
        assert(members_view(members@) =~= Seq::empty());
        push_member(&mut members, "name", Json::Str(self.name.clone()));
        push_member(&mut members, "description", Json::Str(self.description.clone()));
        push_member(&mut members, "parameters", self.parameters.clone());
        assert(members_view(members@) =~= function_json(self@)->Object_0);
        Json::object(members)
    }
}

impl Tool {
    /// The document that stands for the tool on the wire.
    pub fn to_json(&self) -> (j: Json)
        ensures
            j@ == tool_json(self@),
    {
        let mut members: Vec<(String, Json)> = Vec::new();
        assert(members_view(members@) =~= Seq::empty());
        push_member(&mut members, "type", Json::Str(self.tool_type.clone()));
        push_member(&mut members, "function", self.function.to_json());
        assert(members_view(members@) =~= tool_json(self@)->Object_0);
        Json::object(members)
    }
}

/// The documents of a list of tools.
pub fn tools_to_json(tools: &Vec<Tool>) -> (j: Json)
    ensures
        j@ == JsonValue::Array(tools_json(views(tools@))),
{
    let mut items: Vec<Json> = Vec::new();
    let mut i: usize = 0;
    while i < tools.len()
        invariant
            i <= tools.len(),
            items.len() == i,
            forall|k: int| 0 <= k < i ==> items[k]@ == tool_json(tools[k]@),
        decreases tools.len() - i,
    {
        items.push(tools[i].to_json());
        i += 1;
    }
    assert(items_view(items@) =~= tools_json(views(tools@)));
    Json::array(items)
}

/// Reads the optional member `key` as a message.
pub fn get_opt_message(j: &Json, key: &str) -> (r: Option<Option<Message>>)
    ensures
        match r {
            Some(o) => read_opt_message(j@, key@) == Some(opt_view(o)),
            None => read_opt_message(j@, key@) is None,
        },
{
    match j.get_present(key) {
        None => Some(None),
        Some(inner) => match Message::from_json(inner) {
            Some(m) => Some(Some(m)),
            None => None,
        },
    }
}

impl Choice {
    /// Reads a choice from its document; `None` where the document has not the
    /// shape of one.
    pub fn from_json(j: &Json) -> (r: Option<Choice>)
        ensures
            opt_view(r) == choice_of(j@),
    {
        match j {
            Json::Object(_) => {},
            _ => {
                return None;
            },
        }
        let message = match get_opt_message(j, "message") {
            Some(o) => o,
            None => {
                return None;
            },
        };
        let delta = match get_opt_message(j, "delta") {
            Some(o) => o,
            None => {
                return None;
            },
        };
        let finish_reason = match get_opt_text(j, "finish_reason") {
            Some(o) => o,
            None => {
                return None;
            },
        };
        Some(Choice { message, delta, finish_reason })
    }
}

/// Reads the required member `choices`.
pub fn get_choices(j: &Json) -> (r: Option<Vec<Choice>>)
    ensures
        opt_views(r) == read_choices(j@),
{
    match j.get("choices") {
        Some(Json::Array(items)) => {
            proof {
                lemma_array_view(*items);
            }
            let ghost docs = items_view(items@);
            let mut choices: Vec<Choice> = Vec::new();
            let mut i: usize = 0;
            while i < items.len()
                invariant
                    i <= items.len(),
                    choices.len() == i,
                    docs == items_view(items@),
                    j@.field("choices"@) == Some(JsonValue::Array(docs)),
                    forall|k: int|
                        0 <= k < i ==> (#[trigger] choice_of(docs[k])) == Some(choices[k]@),
                decreases items.len() - i,
            {
                match Choice::from_json(&items[i]) {
                    Some(c) => {
                        choices.push(c);
                    },
                    None => {
                        assert(choice_of(docs[i as int]) is None);
                        return None;
                    },
                }
                i += 1;
            }
            assert(views(choices@) =~= Seq::new(docs.len(), |k: int| choice_of(docs[k])->0));
            Some(choices)
        },
        _ => None,
    }
}

impl ChatCompletion {
    /// Reads a buffered answer from its document; `None` where the document has
    /// not the shape of one.
    pub fn from_json(j: &Json) -> (r: Option<ChatCompletion>)
        ensures
            opt_view(r) == completion_of(j@),
    {
        match get_choices(j) {
            Some(choices) => Some(ChatCompletion { choices }),
            None => None,
        }
    }
}

impl StreamChunk {
    /// Reads a stream event from its document; `None` where the document has not
    /// the shape of one.
    pub fn from_json(j: &Json) -> (r: Option<StreamChunk>)
        ensures
            opt_view(r) == stream_chunk_of(j@),
    {
        let object = match get_text(j, "object") {
            Some(t) => t,
            None => {
                return None;
            },
        };
        let created = match j.get("created") {
            Some(Json::Uint(n)) => {
                if *n <= i64::MAX as u64 {
                    *n as i64
                } else {
                    return None;
                }
            },
            Some(Json::Int(n)) => *n,
            _ => {
                return None;
            },
        };
        let model = match get_text(j, "model") {
            Some(t) => t,
            None => {
                return None;
            },
        };
        let choices = match get_choices(j) {
            Some(c) => c,
            None => {
                return None;
            },
        };
        Some(StreamChunk { object, created, model, choices })
    }
}

} // verus!
