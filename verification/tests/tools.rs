use codr::json::Json;
use codr::tools::{
    err, file_content, new_append_to_file_tool, new_create_folder_tool,
    new_get_folder_files_tool, new_read_file_tool, new_replace_file_tool, new_write_file_tool,
    status_success, Entry, FileOp, Listing, ToolBox, ToolKind,
};

fn args(text: &str) -> Json {
    Json::parse_text(text).unwrap()
}

#[test]
fn test_to_openai_tool() {
    let tool = new_write_file_tool();
    let openai_tool = tool.to_openai_tool();

    assert_eq!(openai_tool.tool_type, "function");
    assert_eq!(openai_tool.function.name, tool.name());
    assert_eq!(openai_tool.function.description, tool.description());
}

#[test]
fn offered_tool_carries_the_schema() {
    let tool = new_read_file_tool();
    let offered = tool.to_openai_tool();
    assert_eq!(&offered.function.parameters, tool.parameters());
    assert_eq!(
        offered.to_json().to_text(),
        "{\"function\":{\"description\":\"Reads content from a file\",\"name\":\"read_file\",\"parameters\":{\"properties\":{\"file_path\":{\"description\":\"Path to the file to read\",\"type\":\"string\"}},\"required\":[\"file_path\"],\"type\":\"object\"}},\"type\":\"function\"}"
    );
}

#[test]
fn the_six_tools_have_their_names_and_kinds() {
    let tools = [
        (new_write_file_tool(), "write_file", ToolKind::WriteFile),
        (new_replace_file_tool(), "replace_file_content", ToolKind::ReplaceFileContent),
        (new_read_file_tool(), "read_file", ToolKind::ReadFile),
        (new_append_to_file_tool(), "append_to_file", ToolKind::AppendToFile),
        (new_create_folder_tool(), "create_folder", ToolKind::CreateFolder),
        (new_get_folder_files_tool(), "get_folder_files", ToolKind::GetFolderFiles),
    ];
    for (tool, name, kind) in tools {
        assert_eq!(tool.name(), name);
        assert_eq!(tool.kind(), kind);
        assert!(!tool.description().is_empty());
        assert_eq!(tool.parameters().get("type"), Some(&Json::Str("object".to_string())));
    }
}

#[test]
fn tool_descriptions_are_the_texts_for_the_model() {
    assert_eq!(
        new_write_file_tool().description(),
        "Writes content to a file. If trying to write a file and the folder does not exist, use create_folder tool to create a folder first"
    );
    assert_eq!(
        new_replace_file_tool().description(),
        "Replaces content of a file with a new one"
    );
    assert_eq!(new_read_file_tool().description(), "Reads content from a file");
    assert_eq!(new_append_to_file_tool().description(), "Appends content to a file");
    assert_eq!(new_create_folder_tool().description(), "Creates a new folder");
    assert_eq!(
        new_get_folder_files_tool().description(),
        "Gets a list of files and folders in a directory, including nested contents"
    );
}

#[test]
fn schemas_are_the_documents_for_the_model() {
    assert_eq!(
        new_write_file_tool().parameters().to_text(),
        "{\"properties\":{\"content\":{\"description\":\"Content to write to the file\",\"type\":\"string\"},\"file_path\":{\"description\":\"Path to the file to write\",\"type\":\"string\"}},\"required\":[\"file_path\",\"content\"],\"type\":\"object\"}"
    );
    assert_eq!(
        new_replace_file_tool().parameters().to_text(),
        "{\"properties\":{\"content\":{\"description\":\"Content to write to the file\",\"type\":\"string\"},\"file_path\":{\"description\":\"Path to the file to edit\",\"type\":\"string\"}},\"required\":[\"file_path\",\"content\"],\"type\":\"object\"}"
    );
    assert_eq!(
        new_append_to_file_tool().parameters().to_text(),
        "{\"properties\":{\"content\":{\"description\":\"Content to append to the file\",\"type\":\"string\"},\"file_path\":{\"description\":\"Path to the file to append to\",\"type\":\"string\"}},\"required\":[\"file_path\",\"content\"],\"type\":\"object\"}"
    );
    assert_eq!(
        new_create_folder_tool().parameters().to_text(),
        "{\"properties\":{\"folder_path\":{\"description\":\"Path to the folder to create\",\"type\":\"string\"}},\"required\":[\"folder_path\"],\"type\":\"object\"}"
    );
    assert_eq!(
        new_get_folder_files_tool().parameters().to_text(),
        "{\"properties\":{\"folder_path\":{\"description\":\"Path to the folder to list files and subfolders from\",\"type\":\"string\"},\"recursive\":{\"default\":true,\"description\":\"Whether to recursively list files in subfolders (default: true)\",\"type\":\"boolean\"}},\"required\":[\"folder_path\"],\"type\":\"object\"}"
    );
}

#[test]
fn write_and_replace_ask_for_a_write() {
    let a = args("{\"file_path\": \"./test.txt\", \"content\": \"Hello, world!\"}");
    let wanted = FileOp::WriteFile {
        path: "./test.txt".to_string(),
        content: "Hello, world!".to_string(),
    };
    assert_eq!(new_write_file_tool().run(&a), Ok(wanted.clone()));
    assert_eq!(new_replace_file_tool().run(&a), Ok(wanted));
}

#[test]
fn read_append_and_create_ask_for_their_operations() {
    assert_eq!(
        new_read_file_tool().run(&args("{\"file_path\": \"./test.txt\"}")),
        Ok(FileOp::ReadFile { path: "./test.txt".to_string() })
    );
    assert_eq!(
        new_append_to_file_tool().run(&args("{\"file_path\": \"f\", \"content\": \"more\"}")),
        Ok(FileOp::AppendToFile { path: "f".to_string(), content: "more".to_string() })
    );
    assert_eq!(
        new_create_folder_tool().run(&args("{\"folder_path\": \"./test_folder\"}")),
        Ok(FileOp::CreateFolder { path: "./test_folder".to_string() })
    );
}

#[test]
fn listing_is_recursive_unless_the_call_says_false() {
    let tool = new_get_folder_files_tool();
    let list = |recursive: bool| FileOp::ListFolder { path: "./d".to_string(), recursive };
    assert_eq!(tool.run(&args("{\"folder_path\": \"./d\"}")), Ok(list(true)));
    assert_eq!(tool.run(&args("{\"folder_path\": \"./d\", \"recursive\": true}")), Ok(list(true)));
    assert_eq!(tool.run(&args("{\"folder_path\": \"./d\", \"recursive\": false}")), Ok(list(false)));
    assert_eq!(tool.run(&args("{\"folder_path\": \"./d\", \"recursive\": null}")), Ok(list(true)));
    assert_eq!(tool.run(&args("{\"folder_path\": \"./d\", \"recursive\": \"no\"}")), Ok(list(true)));
}

#[test]
fn missing_arguments_are_complained_about_in_order() {
    let file = Err("file_path is required".to_string());
    let content = Err("content is required".to_string());
    let folder = Err("folder_path is required".to_string());
    assert_eq!(new_write_file_tool().run(&args("{}")), file);
    assert_eq!(new_write_file_tool().run(&args("{\"content\": \"c\"}")), file);
    assert_eq!(new_write_file_tool().run(&args("{\"file_path\": \"f\"}")), content);
    assert_eq!(new_write_file_tool().run(&args("{\"file_path\": 1, \"content\": 2}")), file);
    assert_eq!(new_write_file_tool().run(&args("{\"file_path\": \"f\", \"content\": 2}")), content);
    assert_eq!(new_replace_file_tool().run(&args("{\"file_path\": \"f\"}")), content);
    assert_eq!(new_read_file_tool().run(&args("[]")), file);
    assert_eq!(new_read_file_tool().run(&args("null")), file);
    assert_eq!(new_append_to_file_tool().run(&args("{\"file_path\": null}")), file);
    assert_eq!(new_append_to_file_tool().run(&args("{\"file_path\": \"f\"}")), content);
    assert_eq!(new_create_folder_tool().run(&args("{\"file_path\": \"f\"}")), folder);
    assert_eq!(new_get_folder_files_tool().run(&args("{\"recursive\": false}")), folder);
}

#[test]
fn test_tool_box_plans() {
    let toolbox = ToolBox::new();
    let write = toolbox.run_tool(
        "write_file",
        &args("{\"file_path\": \"./toolbox.txt\", \"content\": \"Hello, world!\"}"),
    );
    assert_eq!(
        write,
        Ok(FileOp::WriteFile {
            path: "./toolbox.txt".to_string(),
            content: "Hello, world!".to_string()
        })
    );
    let read = toolbox.run_tool("read_file", &args("{\"file_path\": \"./toolbox.txt\"}"));
    assert_eq!(read, Ok(FileOp::ReadFile { path: "./toolbox.txt".to_string() }));
    let replace = toolbox.run_tool("replace_file_content", &args("{\"file_path\": \"a\", \"content\": \"b\"}"));
    assert_eq!(replace, Ok(FileOp::WriteFile { path: "a".to_string(), content: "b".to_string() }));
    let list = toolbox.run_tool("get_folder_files", &args("{\"folder_path\": \"./src\"}"));
    assert_eq!(list, Ok(FileOp::ListFolder { path: "./src".to_string(), recursive: true }));
}

#[test]
fn unknown_tool_is_not_found() {
    let toolbox = ToolBox::new();
    for name in ["", "write", "WRITE_FILE", "write_file ", "delete_file"] {
        assert_eq!(
            toolbox.run_tool(name, &args("{\"file_path\": \"f\", \"content\": \"c\"}")),
            Err("Tool not found".to_string())
        );
    }
}

#[test]
fn tool_box_complains_about_arguments_of_a_known_tool() {
    let toolbox = ToolBox::new();
    assert_eq!(
        toolbox.run_tool("create_folder", &args("{}")),
        Err("folder_path is required".to_string())
    );
}

#[test]
fn tool_box_offers_the_six_tools_in_order() {
    let toolbox = ToolBox::new();
    assert_eq!(toolbox.len(), 6);
    let names: Vec<String> =
        toolbox.get_tools().into_iter().map(|t| t.function.name).collect();
    assert_eq!(
        names,
        vec![
            "write_file",
            "replace_file_content",
            "read_file",
            "append_to_file",
            "create_folder",
            "get_folder_files"
        ]
    );
    for tool in toolbox.get_tools() {
        assert_eq!(tool.tool_type, "function");
    }
    assert_eq!(toolbox.get_tools()[0], new_write_file_tool().to_openai_tool());
}

#[test]
fn outcome_documents() {
    assert_eq!(status_success().unwrap().to_text(), "{\"status\":\"success\"}");
    assert_eq!(
        err("no such file").unwrap().to_text(),
        "{\"message\":\"no such file\",\"status\":\"error\"}"
    );
    assert_eq!(file_content("Hello, Rust!").to_text(), "{\"content\":\"Hello, Rust!\"}");
    assert_eq!(
        file_content("Hello, Rust!").get("content"),
        Some(&Json::Str("Hello, Rust!".to_string()))
    );
}

#[test]
fn listing_document_nests_the_contents_of_folders() {
    let entry = |name: &str, path: &str| Entry { name: name.to_string(), path: path.to_string() };
    let inner = Listing {
        files: vec![entry("nested_file.txt", "./t/subfolder/nested_file.txt")],
        folders: vec![],
    };
    let recursive = Listing {
        files: vec![entry("root_file.txt", "./t/root_file.txt")],
        folders: vec![(entry("subfolder", "./t/subfolder"), Some(inner))],
    };
    let result = recursive.to_json();
    assert_eq!(
        result.to_text(),
        "{\"files\":[{\"name\":\"root_file.txt\",\"path\":\"./t/root_file.txt\"}],\"folders\":[{\"contents\":{\"files\":[{\"name\":\"nested_file.txt\",\"path\":\"./t/subfolder/nested_file.txt\"}],\"folders\":[]},\"name\":\"subfolder\",\"path\":\"./t/subfolder\"}]}"
    );
    assert!(result.get("files").is_some());
    assert!(result.get("folders").is_some());

    let flat = Listing {
        files: vec![entry("root_file.txt", "./t/root_file.txt")],
        folders: vec![(entry("subfolder", "./t/subfolder"), None)],
    };
    let result = flat.to_json();
    match result.get("folders") {
        Some(Json::Array(folders)) => {
            assert_eq!(folders.len(), 1);
            assert_eq!(folders[0].get("name"), Some(&Json::Str("subfolder".to_string())));
            assert!(folders[0].get("contents").is_none());
        }
        _ => panic!("folders is no list"),
    }
    assert_eq!(
        Listing { files: vec![], folders: vec![] }.to_json().to_text(),
        "{\"files\":[],\"folders\":[]}"
    );
}
