use file_agent::tools::{op_from_pairs, read_content, specs, write_content, ArgName, FileOp, FunctionCall, Tool, ToolError};

fn call(name: Tool, arguments: &str) -> FunctionCall {
    FunctionCall { name, arguments: arguments.to_string(), content: None }
}

#[test]
fn specs_list_read_then_write() {
    let s = specs();
    assert_eq!(s.len(), 2);
    assert_eq!(s[0].name, "Read");
    assert_eq!(s[0].description, "Read and return the contents of a file");
    assert_eq!(s[0].params.len(), 1);
    assert_eq!(s[0].params[0].name, "file_path");
    assert_eq!(s[0].params[0].kind, "string");
    assert!(s[0].params[0].required);
    assert_eq!(s[1].name, "Write");
    assert_eq!(s[1].description, "Write content to a file");
    assert_eq!(s[1].params.len(), 2);
    assert_eq!(s[1].params[0].name, "file_path");
    assert_eq!(s[1].params[0].description, "The path of the file to write to");
    assert_eq!(s[1].params[1].name, "content");
    assert_eq!(s[1].params[1].description, "The content to write to the file");
}

#[test]
fn from_name_maps_names_to_tools() {
    assert_eq!(Tool::from_name(&"Read".to_string()), Some(Tool::Read));
    assert_eq!(Tool::from_name(&"Write".to_string()), Some(Tool::Write));
    assert_eq!(Tool::from_name(&"read".to_string()), None);
    assert_eq!(Tool::from_name(&"Delete".to_string()), None);
}

#[test]
fn read_call_yields_read_of_path() {
    let r = call(Tool::Read, r#"{"file_path": "notes.txt"}"#).execute();
    match r {
        Ok(FileOp::Read { file_path }) => assert_eq!(file_path, "notes.txt"),
        other => panic!("unexpected {:?}", other),
    }
}

#[test]
fn write_call_yields_write_of_path_and_content() {
    let r = call(Tool::Write, r#"{"content": "hello\nworld", "file_path": "out.txt"}"#).execute();
    match r {
        Ok(FileOp::Write { file_path, content }) => {
            assert_eq!(file_path, "out.txt");
            assert_eq!(content, "hello\nworld");
        }
        other => panic!("unexpected {:?}", other),
    }
}

#[test]
fn extra_arguments_are_ignored() {
    let r = call(Tool::Read, r#"{"file_path": "a", "mode": "fast"}"#).execute();
    assert!(matches!(r, Ok(FileOp::Read { ref file_path }) if file_path == "a"));
}

#[test]
fn malformed_arguments_are_an_error() {
    assert_eq!(call(Tool::Read, "not json").execute().unwrap_err(), ToolError::MalformedArguments);
    assert_eq!(call(Tool::Read, r#"["file_path"]"#).execute().unwrap_err(), ToolError::MalformedArguments);
    assert_eq!(call(Tool::Write, r#"{"file_path": 3}"#).execute().unwrap_err(), ToolError::MalformedArguments);
}

#[test]
fn missing_file_path_is_an_error() {
    assert_eq!(
        call(Tool::Read, r#"{"path": "a"}"#).execute().unwrap_err(),
        ToolError::MissingArgument(ArgName::FilePath)
    );
    assert_eq!(
        call(Tool::Write, r#"{"content": "x"}"#).execute().unwrap_err(),
        ToolError::MissingArgument(ArgName::FilePath)
    );
}

#[test]
fn missing_content_is_an_error() {
    assert_eq!(
        call(Tool::Write, r#"{"file_path": "a"}"#).execute().unwrap_err(),
        ToolError::MissingArgument(ArgName::Content)
    );
}

#[test]
fn error_messages_name_the_problem() {
    assert_eq!(
        ToolError::MissingArgument(ArgName::Content).message(),
        "Error: missing required argument content"
    );
    assert_eq!(
        ToolError::MissingArgument(ArgName::FilePath).message(),
        "Error: missing required argument file_path"
    );
    assert_eq!(
        ToolError::MalformedArguments.message(),
        "Error: the arguments are not a JSON object of strings"
    );
}

#[test]
fn read_content_is_the_file_text_unchanged() {
    assert_eq!(read_content(Ok("line one\nline two\n".to_string())), "line one\nline two\n");
    assert_eq!(read_content(Ok(String::new())), "");
}

#[test]
fn read_failure_becomes_content() {
    assert_eq!(
        read_content(Err("NotFound".to_string())),
        "Error reading file: NotFound"
    );
}

#[test]
fn write_content_reports_outcome() {
    assert_eq!(write_content(Ok(())), "file written succesfully");
    assert_eq!(
        write_content(Err("PermissionDenied".to_string())),
        "Error creating file: PermissionDenied"
    );
}

fn pairs(v: &[(&str, &str)]) -> Vec<(String, String)> {
    v.iter().map(|(k, x)| (k.to_string(), x.to_string())).collect()
}

#[test]
fn pairs_give_write_operation() {
    let r = op_from_pairs(Tool::Write, &pairs(&[("content", "C"), ("file_path", "p")]));
    match r {
        Ok(FileOp::Write { file_path, content }) => {
            assert_eq!(file_path, "p");
            assert_eq!(content, "C");
        }
        other => panic!("unexpected {:?}", other),
    }
}

#[test]
fn pairs_first_value_of_repeated_key_counts() {
    let r = op_from_pairs(Tool::Read, &pairs(&[("file_path", "first"), ("file_path", "second")]));
    assert!(matches!(r, Ok(FileOp::Read { ref file_path }) if file_path == "first"));
}

#[test]
fn pairs_missing_arguments_are_errors() {
    assert_eq!(
        op_from_pairs(Tool::Read, &pairs(&[])).unwrap_err(),
        ToolError::MissingArgument(ArgName::FilePath)
    );
    assert_eq!(
        op_from_pairs(Tool::Write, &pairs(&[("file_path", "p")])).unwrap_err(),
        ToolError::MissingArgument(ArgName::Content)
    );
    assert_eq!(
        op_from_pairs(Tool::Write, &pairs(&[("content", "c")])).unwrap_err(),
        ToolError::MissingArgument(ArgName::FilePath)
    );
}
