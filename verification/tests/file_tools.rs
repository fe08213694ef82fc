use agent_core::driver::render_exec_outcome;
use agent_core::registry::Tool;
use agent_core::text::contains_str;
use agent_core::text::replace_str;
use agent_core::text::str_eq;
use agent_core::tools::apply_edit;
use agent_core::tools::edit_file_message;
use agent_core::tools::edit_file_plan;
use agent_core::tools::get_all_tools;
use agent_core::tools::get_tools_for_profile;
use agent_core::tools::read_file_error;
use agent_core::tools::read_file_plan;
use agent_core::tools::write_file_message;
use agent_core::tools::write_file_plan;
use agent_core::tools::EditFileTool;
use agent_core::tools::ReadFileTool;
use agent_core::tools::WriteFileTool;

#[test]
fn read_file_plan_extracts_the_path() {
    assert_eq!(read_file_plan("{\"path\":\"notes.md\"}").unwrap(), "notes.md");
}

#[test]
fn read_file_plan_rejects_missing_path() {
    assert_eq!(read_file_plan("{}").unwrap_err(), "Missing path");
    assert_eq!(read_file_plan("{\"path\":7}").unwrap_err(), "Missing path");
    assert_eq!(read_file_plan("nonsense").unwrap_err(), "Missing path");
}

#[test]
fn write_file_plan_extracts_path_and_content() {
    let (p, c) = write_file_plan("{\"path\":\"a\",\"content\":\"b\"}").unwrap();
    assert_eq!(p, "a");
    assert_eq!(c, "b");
    assert_eq!(write_file_plan("{\"content\":\"b\"}").unwrap_err(), "Missing path");
    assert_eq!(write_file_plan("{\"path\":\"a\"}").unwrap_err(), "Missing content");
}

#[test]
fn edit_file_plan_extracts_all_three() {
    let (p, o, n) =
        edit_file_plan("{\"path\":\"f\",\"old_string\":\"x\",\"new_string\":\"y\"}").unwrap();
    assert_eq!((p.as_str(), o.as_str(), n.as_str()), ("f", "x", "y"));
    assert_eq!(edit_file_plan("{}").unwrap_err(), "Missing path");
    assert_eq!(edit_file_plan("{\"path\":\"f\"}").unwrap_err(), "Missing old_string");
    assert_eq!(
        edit_file_plan("{\"path\":\"f\",\"old_string\":\"x\"}").unwrap_err(),
        "Missing new_string"
    );
}

#[test]
fn apply_edit_replaces_every_occurrence() {
    let out = apply_edit("aba aba", "ab", "C").unwrap();
    assert_eq!(out, "Ca Ca");
}

#[test]
fn apply_edit_rejects_absent_old_string() {
    assert_eq!(apply_edit("hello", "xyz", "q").unwrap_err(), "old_string not found");
}

#[test]
fn replace_matches_the_standard_semantics() {
    // The verified replacement behaves exactly as str::replace does,
    // including the empty pattern, which occurs around every character.
    assert_eq!(replace_str("banana", "an", "o"), "banana".replace("an", "o"));
    assert_eq!(replace_str("aaaa", "aa", "b"), "aaaa".replace("aa", "b"));
    assert_eq!(replace_str("abc", "", "-"), "abc".replace("", "-"));
    assert_eq!(replace_str("", "", "-"), "-");
}

#[test]
fn contains_matches_the_standard_semantics() {
    assert!(contains_str("hello world", "o w"));
    assert!(!contains_str("hello", "world"));
    assert!(contains_str("anything", ""));
    assert!(!contains_str("", "a"));
}

#[test]
fn str_eq_compares_contents() {
    assert!(str_eq("abc", "abc"));
    assert!(!str_eq("abc", "abd"));
    assert!(!str_eq("abc", "abcd"));
}

#[test]
fn result_messages_match_the_fixed_formats() {
    assert_eq!(write_file_message("out.txt"), "File written to out.txt");
    assert_eq!(edit_file_message("src/x.rs"), "Edited src/x.rs");
    assert_eq!(read_file_error("denied"), "Failed to read file: denied");
    assert_eq!(render_exec_outcome(Ok("fine".to_string())), "fine");
    assert_eq!(
        render_exec_outcome(Err("no such file".to_string())),
        "Error executing tool: no such file"
    );
}

#[test]
fn tool_names_and_schemas_are_declared() {
    assert_eq!(ReadFileTool.name(), "read_file");
    assert_eq!(WriteFileTool.name(), "write_file");
    assert_eq!(EditFileTool.name(), "edit_file");
    let s = ReadFileTool.schema();
    assert_eq!(s.name, "read_file");
    assert_eq!(s.description, "Reads a file from the local filesystem.");
    assert_eq!(s.params.len(), 1);
    assert_eq!(s.params[0].name, "path");
    assert_eq!(s.params[0].kind, "string");
    assert!(s.params[0].required);
}

#[test]
fn profiles_scope_the_tool_set() {
    let general = get_all_tools();
    assert!(general.has_tool("read_file"));
    assert!(general.has_tool("batch_run"));
    assert!(general.has_tool("bevy_upload_asset"));
    assert!(general.has_tool("bevy_clear_scene"));
    assert!(!general.has_tool("bevy_rpc"));
    assert!(!general.has_tool("bevy_spawn_scene"));
    assert!(!general.has_tool("no_such_tool"));

    let companion = get_tools_for_profile("Bevy Editor Companion");
    assert!(companion.has_tool("bevy_rpc"));
    assert!(companion.has_tool("bevy_spawn_scene"));
    assert_eq!(companion.len(), general.len() + 2);
}
