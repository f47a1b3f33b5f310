//! The file tools offered to the model: what each is called, which arguments it
//! takes, which file operation a call asks for, and which JSON document reports
//! the outcome. The operation itself is performed by the caller.

use crate::json::{items_view, lemma_array_view, members_view, Json, JsonValue};
use crate::openai::{views, Function, FunctionView};
use crate::wire::{opt_member, push_member, read_text, same_text};
use vstd::prelude::*;

verus! {

/// The file tools.
#[derive(Debug, Clone, Copy, PartialEq, Eq, Structural)]
pub enum ToolKind {
    WriteFile,
    ReplaceFileContent,
    ReadFile,
    AppendToFile,
    CreateFolder,
    GetFolderFiles,
}

/// A file operation that a tool call asks for.
#[derive(Debug, Clone, PartialEq)]
pub enum FileOp {
    /// Write `content` to the file at `path`, replacing what it holds.
    WriteFile { path: String, content: String },
    /// Read the file at `path` as text.
    ReadFile { path: String },
    /// Append `content` to the existing file at `path`.
    AppendToFile { path: String, content: String },
    /// Create the folder at `path` and the folders above it.
    CreateFolder { path: String },
    /// List the files and folders in `path`, with the contents of the folders
    /// where `recursive` is set.
    ListFolder { path: String, recursive: bool },
}

pub enum FileOpView {
    WriteFile { path: Seq<char>, content: Seq<char> },
    ReadFile { path: Seq<char> },
    AppendToFile { path: Seq<char>, content: Seq<char> },
    CreateFolder { path: Seq<char> },
    ListFolder { path: Seq<char>, recursive: bool },
}

impl View for FileOp {
    type V = FileOpView;

    open spec fn view(&self) -> FileOpView {
        match self {
            FileOp::WriteFile { path, content } => FileOpView::WriteFile {
                path: path@,
                content: content@,
            },
            FileOp::ReadFile { path } => FileOpView::ReadFile { path: path@ },
            FileOp::AppendToFile { path, content } => FileOpView::AppendToFile {
                path: path@,
                content: content@,
            },
            FileOp::CreateFolder { path } => FileOpView::CreateFolder { path: path@ },
            FileOp::ListFolder { path, recursive } => FileOpView::ListFolder {
                path: path@,
                recursive: *recursive,
            },
        }
    }
}

/// A tool: its name, what it does, the JSON schema of its arguments, and which of
/// the file tools it is.
#[derive(Debug, Clone, PartialEq)]
pub struct Tool {
    name: String,
    description: String,
    parameters: Json,
    kind: ToolKind,
}

pub struct ToolView {
    pub name: Seq<char>,
    pub description: Seq<char>,
    pub parameters: JsonValue,
    pub kind: ToolKind,
}

impl View for Tool {
    type V = ToolView;

    closed spec fn view(&self) -> ToolView {
        ToolView {
            name: self.name@,
            description: self.description@,
            parameters: self.parameters@,
            kind: self.kind,
        }
    }
}

/// The tools on offer.
#[derive(Debug, Clone, PartialEq)]
pub struct ToolBox {
    tools: Vec<Tool>,
}

impl View for ToolBox {
    type V = Seq<ToolView>;

    closed spec fn view(&self) -> Seq<ToolView> {
        views(self.tools@)
    }
}

/// The file operation that a call of the tool `kind` with `args` asks for, or the
/// complaint about the first argument that is missing or no string. `recursive`
/// is set unless the call says `false`.
pub open spec fn plan(kind: ToolKind, args: JsonValue) -> Result<FileOpView, Seq<char>> {
    match kind {
        ToolKind::WriteFile | ToolKind::ReplaceFileContent => match read_text(args, "file_path"@) {
            None => Err("file_path is required"@),
            Some(path) => match read_text(args, "content"@) {
                None => Err("content is required"@),
                Some(content) => Ok(FileOpView::WriteFile { path, content }),
            },
        },
        ToolKind::ReadFile => match read_text(args, "file_path"@) {
            None => Err("file_path is required"@),
            Some(path) => Ok(FileOpView::ReadFile { path }),
        },
        ToolKind::AppendToFile => match read_text(args, "file_path"@) {
            None => Err("file_path is required"@),
            Some(path) => match read_text(args, "content"@) {
                None => Err("content is required"@),
                Some(content) => Ok(FileOpView::AppendToFile { path, content }),
            },
        },
        ToolKind::CreateFolder => match read_text(args, "folder_path"@) {
            None => Err("folder_path is required"@),
            Some(path) => Ok(FileOpView::CreateFolder { path }),
        },
        ToolKind::GetFolderFiles => match read_text(args, "folder_path"@) {
            None => Err("folder_path is required"@),
            Some(path) => Ok(
                FileOpView::ListFolder {
                    path,
                    recursive: match args.field("recursive"@) {
                        Some(JsonValue::Bool(b)) => b,
                        _ => true,
                    },
                },
            ),
        },
    }
}

/// The place of the first tool named `name`, or the number of tools where none
/// has the name.
pub open spec fn position_of(tools: Seq<ToolView>, name: Seq<char>) -> int
    decreases tools.len(),
{
    if tools.len() == 0 {
        0
    } else if tools[0].name == name {
        0
    } else {
        1 + position_of(tools.drop_first(), name)
    }
}

/// What a call of the tool named `name` with `args` asks for: the plan of the
/// first tool of that name, or the complaint that there is no such tool.
pub open spec fn box_plan(tools: Seq<ToolView>, name: Seq<char>, args: JsonValue) -> Result<
    FileOpView,
    Seq<char>,
> {
    let i = position_of(tools, name);
    if 0 <= i < tools.len() {
        plan(tools[i].kind, args)
    } else {
        Err("Tool not found"@)
    }
}

/// The document that reports success: `{"status": "success"}`.
pub open spec fn success_json() -> JsonValue {
    JsonValue::Object(seq![("status"@, JsonValue::Str("success"@))])
}

/// The document that reports a failure in words: `{"status": "error", "message"}`.
pub open spec fn failure_json(message: Seq<char>) -> JsonValue {
    JsonValue::Object(
        seq![("status"@, JsonValue::Str("error"@)), ("message"@, JsonValue::Str(message))],
    )
}

/// The document that holds what was read from a file: `{"content"}`.
pub open spec fn content_json(content: Seq<char>) -> JsonValue {
    JsonValue::Object(seq![("content"@, JsonValue::Str(content))])
}

/// The tool as it is offered to the model: a function of its name, description
/// and parameters.
pub open spec fn offered(t: ToolView) -> crate::openai::ToolView {
    crate::openai::ToolView {
        tool_type: "function"@,
        function: FunctionView {
            name: t.name,
            description: t.description,
            parameters: t.parameters,
        },
    }
}

/// The tools as they are offered to the model.
pub open spec fn all_offered(tools: Seq<ToolView>) -> Seq<crate::openai::ToolView> {
    Seq::new(tools.len(), |i: int| offered(tools[i]))
}

/// The document that reports success.
pub fn status_success() -> (r: Result<Json, String>)
    ensures
        r matches Ok(j) && j@ == success_json(),
{
    let mut members: Vec<(String, Json)> = Vec::new();
    assert(members_view(members@) =~= Seq::empty());
    push_member(&mut members, "status", Json::string("success"));
    assert(members_view(members@) =~= success_json()->Object_0);
    Ok(Json::object(members))
}

/// The document that reports a failure in words.
pub fn err(message: &str) -> (r: Result<Json, String>)
    ensures
        r matches Ok(j) && j@ == failure_json(message@),
{
    let mut members: Vec<(String, Json)> = Vec::new();
    assert(members_view(members@) =~= Seq::empty());
    push_member(&mut members, "status", Json::string("error"));
    push_member(&mut members, "message", Json::string(message));
    assert(members_view(members@) =~= failure_json(message@)->Object_0);
    Ok(Json::object(members))
}

/// The document that holds what was read from a file.
pub fn file_content(content: &str) -> (j: Json)
    ensures
        j@ == content_json(content@),
{
    let mut members: Vec<(String, Json)> = Vec::new();
    assert(members_view(members@) =~= Seq::empty());
    push_member(&mut members, "content", Json::string(content));
    assert(members_view(members@) =~= content_json(content@)->Object_0);
    Json::object(members)
}

/// Reads the required string argument `key`, or complains with `missing`.
fn text_arg(args: &Json, key: &str, missing: &str) -> (r: Result<String, String>)
    ensures
        match r {
            Ok(t) => read_text(args@, key@) == Some(t@),
            Err(e) => read_text(args@, key@) is None && e@ == missing@,
        },
{
    match args.get(key) {
        Some(Json::Str(t)) => Ok(t.clone()),
        _ => Err(missing.to_owned()),
    }
}

impl Tool {
    /// The name under which the model calls the tool.
    pub fn name(&self) -> (r: &str)
        ensures
            r@ == self@.name,
    {
        self.name.as_str()
    }

    /// What the tool does, in words for the model.
    pub fn description(&self) -> (r: &str)
        ensures
            r@ == self@.description,
    {
        self.description.as_str()
    }

    /// The JSON schema of the tool's arguments.
    pub fn parameters(&self) -> (r: &Json)
        ensures
            r@ == self@.parameters,
    {
        &self.parameters
    }

    /// Which of the file tools this is.
    pub fn kind(&self) -> (r: ToolKind)
        ensures
            r == self@.kind,
    {
        self.kind
    }

    /// The file operation that a call with `args` asks for, or the complaint
    /// about its arguments.
    pub fn run(&self, args: &Json) -> (r: Result<FileOp, String>)
        ensures
            match r {
                Ok(op) => plan(self@.kind, args@) == Ok::<FileOpView, Seq<char>>(op@),
                Err(e) => plan(self@.kind, args@) == Err::<FileOpView, Seq<char>>(e@),
            },
    {
        match self.kind {
            ToolKind::WriteFile | ToolKind::ReplaceFileContent => {
                let path = match text_arg(args, "file_path", "file_path is required") {
                    Ok(t) => t,
                    Err(e) => {
                        return Err(e);
                    },
                };
                let content = match text_arg(args, "content", "content is required") {
                    Ok(t) => t,
                    Err(e) => {
                        return Err(e);
                    },
                };
                Ok(FileOp::WriteFile { path, content })
            },
            ToolKind::ReadFile => {
                match text_arg(args, "file_path", "file_path is required") {
                    Ok(path) => Ok(FileOp::ReadFile { path }),
                    Err(e) => Err(e),
                }
            },
            ToolKind::AppendToFile => {
                let path = match text_arg(args, "file_path", "file_path is required") {
                    Ok(t) => t,
                    Err(e) => {
                        return Err(e);
                    },
                };
                let content = match text_arg(args, "content", "content is required") {
                    Ok(t) => t,
                    Err(e) => {
                        return Err(e);
                    },
                };
                Ok(FileOp::AppendToFile { path, content })
            },
            ToolKind::CreateFolder => {
                match text_arg(args, "folder_path", "folder_path is required") {
                    Ok(path) => Ok(FileOp::CreateFolder { path }),
                    Err(e) => Err(e),
                }
            },
            ToolKind::GetFolderFiles => {
                let path = match text_arg(args, "folder_path", "folder_path is required") {
                    Ok(t) => t,
                    Err(e) => {
                        return Err(e);
                    },
                };
                let recursive = match args.get("recursive") {
                    Some(Json::Bool(b)) => *b,
                    _ => true,
                };
                Ok(FileOp::ListFolder { path, recursive })
            },
        }
    }

    /// The tool as it is offered to the model.
    pub fn to_openai_tool(&self) -> (r: crate::openai::Tool)
        ensures
            r@ == offered(self@),
    {
        crate::openai::Tool {
            tool_type: "function".to_owned(),
            function: Function {
                name: self.name.clone(),
                description: self.description.clone(),
                parameters: self.parameters.clone(),
            },
        }
    }
}

impl ToolBox {
    /// Calls the tool named `name` with `args`: the file operation asked for, or
    /// the complaint that there is no such tool or about the arguments.
    pub fn run_tool(&self, name: &str, args: &Json) -> (r: Result<FileOp, String>)
        ensures
            match r {
                Ok(op) => box_plan(self@, name@, args@) == Ok::<FileOpView, Seq<char>>(op@),
                Err(e) => box_plan(self@, name@, args@) == Err::<FileOpView, Seq<char>>(e@),
            },
    {
        let ghost all = self@;
        let mut i: usize = 0;
        assert(all.skip(0) =~= all);
        while i < self.tools.len()
            invariant
                i <= self.tools.len(),
                all == self@,
                all.len() == self.tools.len(),
                position_of(all, name@) == i + position_of(all.skip(i as int), name@),
            decreases self.tools.len() - i,
        {
            assert(all.skip(i as int)[0] == all[i as int]);
            assert(all.skip(i as int).drop_first() =~= all.skip(i + 1));
            if same_text(self.tools[i].name.as_str(), name) {
                return self.tools[i].run(args);
            }
            i += 1;
        }
        assert(all.skip(i as int).len() == 0);
        Err("Tool not found".to_owned())
    }

    /// The tools as they are offered to the model, in their order.
    pub fn get_tools(&self) -> (r: Vec<crate::openai::Tool>)
        ensures
            views(r@) == all_offered(self@),
    {
        let mut offers: Vec<crate::openai::Tool> = Vec::new();
        let mut i: usize = 0;
        while i < self.tools.len()
            invariant
                i <= self.tools.len(),
                offers.len() == i,
                forall|k: int| 0 <= k < i ==> offers[k]@ == offered(self.tools[k]@),
            decreases self.tools.len() - i,
        {
            offers.push(self.tools[i].to_openai_tool());
            i += 1;
        }
        assert(views(offers@) =~= all_offered(self@));
        offers
    }

    /// The number of tools on offer.
    pub fn len(&self) -> (n: usize)
        ensures
            n == self@.len(),
    {
        self.tools.len()
    }
}


/// The schema of a string argument.
pub open spec fn text_property(description: Seq<char>) -> JsonValue {
    JsonValue::Object(
        seq![("type"@, JsonValue::Str("string"@)), ("description"@, JsonValue::Str(description))],
    )
}

/// The schema of a boolean argument with a default.
pub open spec fn flag_property(description: Seq<char>, default: bool) -> JsonValue {
    JsonValue::Object(
        seq![
            ("type"@, JsonValue::Str("boolean"@)),
            ("description"@, JsonValue::Str(description)),
            ("default"@, JsonValue::Bool(default)),
        ],
    )
}

/// The schema of a tool's arguments: an object with `properties`, of which
/// `required` must be given.
pub open spec fn object_schema(
    properties: Seq<(Seq<char>, JsonValue)>,
    required: Seq<Seq<char>>,
) -> JsonValue {
    JsonValue::Object(
        seq![
            ("type"@, JsonValue::Str("object"@)),
            ("properties"@, JsonValue::Object(properties)),
            ("required"@, JsonValue::Array(Seq::new(required.len(), |i: int| JsonValue::Str(required[i])))),
        ],
    )
}

/// The tool that writes a file.
pub open spec fn write_file_tool() -> ToolView {
    ToolView {
        name: "write_file"@,
        description: "Writes content to a file. If trying to write a file and the folder does not exist, use create_folder tool to create a folder first"@,
        parameters: object_schema(
            seq![
                ("file_path"@, text_property("Path to the file to write"@)),
                ("content"@, text_property("Content to write to the file"@)),
            ],
            seq!["file_path"@, "content"@],
        ),
        kind: ToolKind::WriteFile,
    }
}

/// The tool that replaces the content of a file.
pub open spec fn replace_file_tool() -> ToolView {
    ToolView {
        name: "replace_file_content"@,
        description: "Replaces content of a file with a new one"@,
        parameters: object_schema(
            seq![
                ("file_path"@, text_property("Path to the file to edit"@)),
                ("content"@, text_property("Content to write to the file"@)),
            ],
            seq!["file_path"@, "content"@],
        ),
        kind: ToolKind::ReplaceFileContent,
    }
}

/// The tool that reads a file.
pub open spec fn read_file_tool() -> ToolView {
    ToolView {
        name: "read_file"@,
        description: "Reads content from a file"@,
        parameters: object_schema(
            seq![("file_path"@, text_property("Path to the file to read"@))],
            seq!["file_path"@],
        ),
        kind: ToolKind::ReadFile,
    }
}

/// The tool that appends to a file.
pub open spec fn append_to_file_tool() -> ToolView {
    ToolView {
        name: "append_to_file"@,
        description: "Appends content to a file"@,
        parameters: object_schema(
            seq![
                ("file_path"@, text_property("Path to the file to append to"@)),
                ("content"@, text_property("Content to append to the file"@)),
            ],
            seq!["file_path"@, "content"@],
        ),
        kind: ToolKind::AppendToFile,
    }
}

/// The tool that creates a folder.
pub open spec fn create_folder_tool() -> ToolView {
    ToolView {
        name: "create_folder"@,
        description: "Creates a new folder"@,
        parameters: object_schema(
            seq![("folder_path"@, text_property("Path to the folder to create"@))],
            seq!["folder_path"@],
        ),
        kind: ToolKind::CreateFolder,
    }
}

/// The tool that lists a folder.
pub open spec fn get_folder_files_tool() -> ToolView {
    ToolView {
        name: "get_folder_files"@,
        description: "Gets a list of files and folders in a directory, including nested contents"@,
        parameters: object_schema(
            seq![
                (
                    "folder_path"@,
                    text_property("Path to the folder to list files and subfolders from"@),
                ),
                (
                    "recursive"@,
                    flag_property(
                        "Whether to recursively list files in subfolders (default: true)"@,
                        true,
                    ),
                ),
            ],
            seq!["folder_path"@],
        ),
        kind: ToolKind::GetFolderFiles,
    }
}

/// The six file tools in the order in which they are offered.
pub open spec fn file_tools() -> Seq<ToolView> {
    seq![
        write_file_tool(),
        replace_file_tool(),
        read_file_tool(),
        append_to_file_tool(),
        create_folder_tool(),
        get_folder_files_tool(),
    ]
}

/// The schema of a string argument.
fn make_text_property(description: &str) -> (j: Json)
    ensures
        j@ == text_property(description@),
{
    let mut members: Vec<(String, Json)> = Vec::new();
    assert(members_view(members@) =~= Seq::empty());
    push_member(&mut members, "type", Json::string("string"));
    push_member(&mut members, "description", Json::string(description));
    assert(members_view(members@) =~= text_property(description@)->Object_0);
    Json::object(members)
}

/// The schema of a boolean argument with a default.
fn make_flag_property(description: &str, default: bool) -> (j: Json)
    ensures
        j@ == flag_property(description@, default),
{
    let mut members: Vec<(String, Json)> = Vec::new();
    assert(members_view(members@) =~= Seq::empty());
    push_member(&mut members, "type", Json::string("boolean"));
    push_member(&mut members, "description", Json::string(description));
    push_member(&mut members, "default", Json::Bool(default));
    assert(members_view(members@) =~= flag_property(description@, default)->Object_0);
    Json::object(members)
}

/// The schema of a tool's arguments.
fn make_object_schema(properties: Vec<(String, Json)>, required: Vec<&str>) -> (j: Json)
    ensures
        j@ == object_schema(
            members_view(properties@),
            Seq::new(required@.len(), |i: int| required@[i]@),
        ),
{
    let mut names: Vec<Json> = Vec::new();
    let mut i: usize = 0;
    while i < required.len()
        invariant
            i <= required.len(),
            names.len() == i,
            forall|k: int| 0 <= k < i ==> names[k]@ == JsonValue::Str(required[k]@),
        decreases required.len() - i,
    {
        names.push(Json::string(required[i]));
        i += 1;
    }
    let ghost wanted = object_schema(
        members_view(properties@),
        Seq::new(required@.len(), |i: int| required@[i]@),
    );
    assert(items_view(names@) =~= wanted->Object_0[2].1->Array_0);
    let mut members: Vec<(String, Json)> = Vec::new();
    assert(members_view(members@) =~= Seq::empty());
    push_member(&mut members, "type", Json::string("object"));
    push_member(&mut members, "properties", Json::object(properties));
    push_member(&mut members, "required", Json::array(names));
    assert(members_view(members@) =~= wanted->Object_0);
    Json::object(members)
}

/// The schema of a tool that takes the string arguments `first` and, where it is
/// given, `second`, all of them required.
fn make_text_schema(first: (&str, &str), second: Option<(&str, &str)>) -> (j: Json)
    ensures
        j@ == match second {
            Some(s) => object_schema(
                seq![(first.0@, text_property(first.1@)), (s.0@, text_property(s.1@))],
                seq![first.0@, s.0@],
            ),
            None => object_schema(seq![(first.0@, text_property(first.1@))], seq![first.0@]),
        },
{
    let mut properties: Vec<(String, Json)> = Vec::new();
    let mut required: Vec<&str> = Vec::new();
    assert(members_view(properties@) =~= Seq::empty());
    push_member(&mut properties, first.0, make_text_property(first.1));
    required.push(first.0);
    match second {
        Some(s) => {
            push_member(&mut properties, s.0, make_text_property(s.1));
            required.push(s.0);
            assert(members_view(properties@) =~= seq![
                (first.0@, text_property(first.1@)),
                (s.0@, text_property(s.1@)),
            ]);
            assert(Seq::new(required@.len(), |i: int| required@[i]@) =~= seq![first.0@, s.0@]);
        },
        None => {
            assert(members_view(properties@) =~= seq![(first.0@, text_property(first.1@))]);
            assert(Seq::new(required@.len(), |i: int| required@[i]@) =~= seq![first.0@]);
        },
    }
    make_object_schema(properties, required)
}

/// The tool that writes a file.
pub fn new_write_file_tool() -> (t: Tool)
    ensures
        t@ == write_file_tool(),
{
    Tool {
        name: "write_file".to_owned(),
        description: "Writes content to a file. If trying to write a file and the folder does not exist, use create_folder tool to create a folder first".to_owned(),
        parameters: make_text_schema(
            ("file_path", "Path to the file to write"),
            Some(("content", "Content to write to the file")),
        ),
        kind: ToolKind::WriteFile,
    }
}

/// The tool that replaces the content of a file.
pub fn new_replace_file_tool() -> (t: Tool)
    ensures
        t@ == replace_file_tool(),
{
    Tool {
        name: "replace_file_content".to_owned(),
        description: "Replaces content of a file with a new one".to_owned(),
        parameters: make_text_schema(
            ("file_path", "Path to the file to edit"),
            Some(("content", "Content to write to the file")),
        ),
        kind: ToolKind::ReplaceFileContent,
    }
}

/// The tool that reads a file.
pub fn new_read_file_tool() -> (t: Tool)
    ensures
        t@ == read_file_tool(),
{
    Tool {
        name: "read_file".to_owned(),
        description: "Reads content from a file".to_owned(),
        parameters: make_text_schema(("file_path", "Path to the file to read"), None),
        kind: ToolKind::ReadFile,
    }
}

/// The tool that appends to a file.
pub fn new_append_to_file_tool() -> (t: Tool)
    ensures
        t@ == append_to_file_tool(),
{
    Tool {
        name: "append_to_file".to_owned(),
        description: "Appends content to a file".to_owned(),
        parameters: make_text_schema(
            ("file_path", "Path to the file to append to"),
            Some(("content", "Content to append to the file")),
        ),
        kind: ToolKind::AppendToFile,
    }
}

/// The tool that creates a folder.
pub fn new_create_folder_tool() -> (t: Tool)
    ensures
        t@ == create_folder_tool(),
{
    Tool {
        name: "create_folder".to_owned(),
        description: "Creates a new folder".to_owned(),
        parameters: make_text_schema(("folder_path", "Path to the folder to create"), None),
        kind: ToolKind::CreateFolder,
    }
}

/// The tool that lists a folder.
pub fn new_get_folder_files_tool() -> (t: Tool)
    ensures
        t@ == get_folder_files_tool(),
{
    let mut properties: Vec<(String, Json)> = Vec::new();
    assert(members_view(properties@) =~= Seq::empty());
    push_member(
        &mut properties,
        "folder_path",
        make_text_property("Path to the folder to list files and subfolders from"),
    );
    push_member(
        &mut properties,
        "recursive",
        make_flag_property("Whether to recursively list files in subfolders (default: true)", true),
    );
    let mut required: Vec<&str> = Vec::new();
    required.push("folder_path");
    assert(members_view(properties@) =~= get_folder_files_tool().parameters->Object_0[1].1->Object_0);
    assert(Seq::new(required@.len(), |i: int| required@[i]@) =~= seq!["folder_path"@]);
    Tool {
        name: "get_folder_files".to_owned(),
        description: "Gets a list of files and folders in a directory, including nested contents".to_owned(),
        parameters: make_object_schema(properties, required),
        kind: ToolKind::GetFolderFiles,
    }
}

impl ToolBox {
    /// The six file tools.
    pub fn new() -> (r: ToolBox)
        ensures
            r@ == file_tools(),
    {
        let mut tools: Vec<Tool> = Vec::new();
        tools.push(new_write_file_tool());
        tools.push(new_replace_file_tool());
        tools.push(new_read_file_tool());
        tools.push(new_append_to_file_tool());
        tools.push(new_create_folder_tool());
        tools.push(new_get_folder_files_tool());
        assert(views(tools@) =~= file_tools());
        ToolBox { tools }
    }
}

/// A file or a folder as it was found: its name and its path.
#[derive(Debug, Clone, PartialEq)]
pub struct Entry {
    pub name: String,
    pub path: String,
}

/// What a folder holds: its files, and its folders, each with what it holds in
/// turn where that was asked for.
#[derive(Debug, PartialEq)]
pub struct Listing {
    pub files: Vec<Entry>,
    pub folders: Vec<(Entry, Option<Listing>)>,
}

/// The members that report an entry: `name` and `path`.
pub open spec fn entry_members(e: Entry) -> Seq<(Seq<char>, JsonValue)> {
    seq![("name"@, JsonValue::Str(e.name@)), ("path"@, JsonValue::Str(e.path@))]
}

/// The document that reports a listing: `{"files": [{name, path}], "folders":
/// [{name, path, contents?}]}`, where `contents` is the listing of the folder.
pub open spec fn listing_json(l: Listing) -> JsonValue
    decreases l,
{
    JsonValue::Object(
        seq![
            (
                "files"@,
                JsonValue::Array(
                    Seq::new(
                        l.files.len() as nat,
                        |i: int|
                            if 0 <= i < l.files.len() {
                                JsonValue::Object(entry_members(l.files[i]))
                            } else {
                                JsonValue::Null
                            },
                    ),
                ),
            ),
            (
                "folders"@,
                JsonValue::Array(
                    Seq::new(
                        l.folders.len() as nat,
                        |i: int|
                            if 0 <= i < l.folders.len() {
                                JsonValue::Object(
                                    entry_members(l.folders[i].0) + opt_member(
                                        "contents"@,
                                        match l.folders[i].1 {
                                            Some(inner) => Some(listing_json(inner)),
                                            None => None,
                                        },
                                    ),
                                )
                            } else {
                                JsonValue::Null
                            },
                    ),
                ),
            ),
        ],
    )
}

impl Listing {
    /// The document that reports the listing.
    pub fn to_json(&self) -> (j: Json)
        ensures
            j@ == listing_json(*self),
        decreases self,
    {
        let mut files: Vec<Json> = Vec::new();
        let mut i: usize = 0;
        while i < self.files.len()
            invariant
                i <= self.files.len(),
                files.len() == i,
                forall|k: int|
                    0 <= k < i ==> files[k]@ == JsonValue::Object(entry_members(self.files[k])),
            decreases self.files.len() - i,
        {
            let mut members: Vec<(String, Json)> = Vec::new();
            assert(members_view(members@) =~= Seq::empty());
            push_member(&mut members, "name", Json::Str(self.files[i].name.clone()));
            push_member(&mut members, "path", Json::Str(self.files[i].path.clone()));
            assert(members_view(members@) =~= entry_members(self.files[i as int]));
            files.push(Json::object(members));
            i += 1;
        }
        let mut folders: Vec<Json> = Vec::new();
        let mut n: usize = 0;
        while n < self.folders.len()
            invariant
                n <= self.folders.len(),
                folders.len() == n,
                forall|k: int|
                    0 <= k < n ==> folders[k]@ == JsonValue::Object(
                        entry_members(self.folders[k].0) + opt_member(
                            "contents"@,
                            match self.folders[k].1 {
                                Some(inner) => Some(listing_json(inner)),
                                None => None,
                            },
                        ),
                    ),
            decreases self.folders.len() - n,
        {
            let mut members: Vec<(String, Json)> = Vec::new();
            assert(members_view(members@) =~= Seq::empty());
            push_member(&mut members, "name", Json::Str(self.folders[n].0.name.clone()));
            push_member(&mut members, "path", Json::Str(self.folders[n].0.path.clone()));
            match &self.folders[n].1 {
                Some(inner) => {
                    assert(decreases_to!(*self => self.folders));
                    assert(decreases_to!(self.folders => self.folders[n as int]));
                    assert(decreases_to!(self.folders[n as int] => self.folders[n as int].1));
                    assert(decreases_to!(self.folders[n as int].1 => self.folders[n as int].1->0));
                    push_member(&mut members, "contents", inner.to_json());
                },
                None => {},
            }
            assert(members_view(members@) =~= entry_members(self.folders[n as int].0)
                + opt_member(
                "contents"@,
                match self.folders[n as int].1 {
                    Some(inner) => Some(listing_json(inner)),
                    None => None,
                },
            ));
            folders.push(Json::object(members));
            n += 1;
        }
        let mut members: Vec<(String, Json)> = Vec::new();
        assert(members_view(members@) =~= Seq::empty());
        proof {
            let wanted = listing_json(*self);
            assert(items_view(files@) =~= wanted->Object_0[0].1->Array_0);
            assert(items_view(folders@) =~= wanted->Object_0[1].1->Array_0);
        }
        push_member(&mut members, "files", Json::array(files));
        push_member(&mut members, "folders", Json::array(folders));
        assert(members_view(members@) =~= listing_json(*self)->Object_0);
        Json::object(members)
    }
}


/// The name under which each file tool is offered.
pub open spec fn name_of(kind: ToolKind) -> Seq<char> {
    match kind {
        ToolKind::WriteFile => "write_file"@,
        ToolKind::ReplaceFileContent => "replace_file_content"@,
        ToolKind::ReadFile => "read_file"@,
        ToolKind::AppendToFile => "append_to_file"@,
        ToolKind::CreateFolder => "create_folder"@,
        ToolKind::GetFolderFiles => "get_folder_files"@,
    }
}

/// The six file tools have six different names, so that a call by the name of a
/// tool is planned by that tool.
pub proof fn lemma_file_tools_by_name(kind: ToolKind, args: JsonValue)
    ensures
        box_plan(file_tools(), name_of(kind), args) == plan(kind, args),
{
    reveal_strlit("write_file");
    reveal_strlit("replace_file_content");
    reveal_strlit("read_file");
    reveal_strlit("append_to_file");
    reveal_strlit("create_folder");
    reveal_strlit("get_folder_files");
    assert("write_file"@.len() == 10);
    assert("replace_file_content"@.len() == 20);
    assert("read_file"@.len() == 9);
    assert("append_to_file"@.len() == 14);
    assert("create_folder"@.len() == 13);
    assert("get_folder_files"@.len() == 16);
    let all = file_tools();
    let name = name_of(kind);
    assert(all.skip(5).drop_first() =~= all.skip(6));
    assert(all.skip(4).drop_first() =~= all.skip(5));
    assert(all.skip(3).drop_first() =~= all.skip(4));
    assert(all.skip(2).drop_first() =~= all.skip(3));
    assert(all.skip(1).drop_first() =~= all.skip(2));
    assert(all.drop_first() =~= all.skip(1));
    assert(position_of(all.skip(5), name) == if kind == ToolKind::GetFolderFiles {
        0int
    } else {
        1 + position_of(all.skip(6), name)
    });
    assert(position_of(all.skip(4), name) == if kind == ToolKind::CreateFolder {
        0int
    } else {
        1 + position_of(all.skip(5), name)
    });
    assert(position_of(all.skip(3), name) == if kind == ToolKind::AppendToFile {
        0int
    } else {
        1 + position_of(all.skip(4), name)
    });
    assert(position_of(all.skip(2), name) == if kind == ToolKind::ReadFile {
        0int
    } else {
        1 + position_of(all.skip(3), name)
    });
    assert(position_of(all.skip(1), name) == if kind == ToolKind::ReplaceFileContent {
        0int
    } else {
        1 + position_of(all.skip(2), name)
    });
    assert(position_of(all, name) == if kind == ToolKind::WriteFile {
        0int
    } else {
        1 + position_of(all.skip(1), name)
    });
}

} // verus!
