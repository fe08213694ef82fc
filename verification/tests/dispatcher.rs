use agent_core::batch::execute_batch;
use agent_core::batch::parse_batch_invocations;
use agent_core::batch::render_batch_results;
use agent_core::batch::BatchInvocation;
use agent_core::batch::ToolResult;
use agent_core::batch::ToolStatus;
use agent_core::registry::Registry;
use agent_core::registry::Tool;
use agent_core::tools::get_all_tools;
use agent_core::tools::ReadFileTool;
use agent_core::tools::WriteFileTool;

fn inv(name: &str, params: &str) -> BatchInvocation {
    BatchInvocation { name: name.to_string(), params: params.to_string() }
}

#[test]
fn output_is_positionally_aligned() {
    let mut reg = Registry::new();
    reg.register(ReadFileTool.schema());
    reg.register(WriteFileTool.schema());
    let invs = vec![inv("read_file", "{}"), inv("write_file", "{}"), inv("read_file", "{}")];
    let outcomes = vec![
        Some(Ok("one".to_string())),
        Some(Err("boom".to_string())),
        Some(Ok("three".to_string())),
    ];
    let rs = execute_batch(&reg, &invs, outcomes);
    assert_eq!(rs.len(), 3);
    assert_eq!(rs[0].tool_name, "read_file");
    assert!(matches!(rs[0].status, ToolStatus::Success));
    assert_eq!(rs[0].output, "one");
    assert_eq!(rs[1].tool_name, "write_file");
    assert!(matches!(rs[1].status, ToolStatus::Error));
    assert_eq!(rs[1].output, "boom");
    assert!(matches!(rs[2].status, ToolStatus::Success));
    assert_eq!(rs[2].output, "three");
}

#[test]
fn unregistered_tool_yields_not_found_and_spares_siblings() {
    let mut reg = Registry::new();
    reg.register(ReadFileTool.schema());
    let invs = vec![inv("read_file", "{}"), inv("no_such_tool", "{}"), inv("read_file", "{}")];
    let outcomes = vec![Some(Ok("a".to_string())), None, Some(Ok("b".to_string()))];
    let rs = execute_batch(&reg, &invs, outcomes);
    assert_eq!(rs.len(), 3);
    assert!(matches!(rs[1].status, ToolStatus::Error));
    assert_eq!(rs[1].output, "Tool 'no_such_tool' not found");
    assert!(matches!(rs[0].status, ToolStatus::Success));
    assert_eq!(rs[0].output, "a");
    assert!(matches!(rs[2].status, ToolStatus::Success));
    assert_eq!(rs[2].output, "b");
}

#[test]
fn parse_batch_arguments() {
    let args = "{\"tools\":[{\"tool\":\"read_file\",\"parameters\":{\"path\":\"a.txt\"}},{\"tool\":\"shell\",\"parameters\":{}}]}";
    let invs = parse_batch_invocations(args).unwrap();
    assert_eq!(invs.len(), 2);
    assert_eq!(invs[0].name, "read_file");
    assert_eq!(invs[0].params, "{\"path\":\"a.txt\"}");
    assert_eq!(invs[1].name, "shell");
    assert_eq!(invs[1].params, "{}");
}

#[test]
fn parse_batch_defaults() {
    let args = "{\"tools\":[{\"parameters\":{\"x\":1}},{\"tool\":\"t\"}]}";
    let invs = parse_batch_invocations(args).unwrap();
    assert_eq!(invs[0].name, "unknown");
    assert_eq!(invs[0].params, "{\"x\":1}");
    assert_eq!(invs[1].name, "t");
    assert_eq!(invs[1].params, "{}");
}

#[test]
fn parse_batch_rejects_missing_tools() {
    let e = parse_batch_invocations("{\"other\":1}").unwrap_err();
    assert_eq!(e, "Missing or invalid 'tools' argument");
    let e2 = parse_batch_invocations("not json").unwrap_err();
    assert_eq!(e2, "Missing or invalid 'tools' argument");
}

#[test]
fn batch_results_render_as_json() {
    let rs = vec![
        ToolResult {
            tool_name: "read_file".to_string(),
            status: ToolStatus::Success,
            output: "say \"hi\"\n".to_string(),
        },
        ToolResult {
            tool_name: "shell".to_string(),
            status: ToolStatus::Error,
            output: "bad".to_string(),
        },
    ];
    let s = render_batch_results(&rs);
    assert_eq!(
        s,
        "[{\"tool\":\"read_file\",\"status\":\"success\",\"output\":\"say \\\"hi\\\"\\n\"},{\"tool\":\"shell\",\"status\":\"error\",\"error\":\"bad\"}]"
    );
    // What the rendering claims to be is real JSON serde_json accepts.
    let v: serde_json::Value = serde_json::from_str(&s).unwrap();
    assert_eq!(v[0]["output"], serde_json::Value::String("say \"hi\"\n".to_string()));
}

#[test]
fn batch_tool_is_registered_for_recursion() {
    // The dispatcher is itself a registered tool, so a batch entry may
    // name it.
    let reg = get_all_tools();
    assert!(reg.has_tool("batch_run"));
    let invs = vec![inv("batch_run", "{\"tools\":[]}")];
    let outcomes = vec![Some(Ok("[]".to_string()))];
    let rs = execute_batch(&reg, &invs, outcomes);
    assert_eq!(rs.len(), 1);
    assert!(matches!(rs[0].status, ToolStatus::Success));
}

#[test]
fn empty_batch_gives_empty_results() {
    let reg = get_all_tools();
    let rs = execute_batch(&reg, &Vec::new(), Vec::new());
    assert_eq!(rs.len(), 0);
    assert_eq!(render_batch_results(&rs), "[]");
}
