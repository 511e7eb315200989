use biyard_kit::mcp_server::{find_tool, tool_result};

#[test]
fn known_tool_is_found() {
    let names = vec!["search".to_string(), "create".to_string(), "create".to_string()];
    assert_eq!(find_tool(&names, "create"), Ok(1));
}

#[test]
fn unknown_tool_is_invalid_params() {
    let names = vec!["search".to_string()];
    assert_eq!(find_tool(&names, "delete"), Err("unknown tool: delete".to_string()));
}

#[test]
fn handler_outcomes_become_tool_results() {
    assert_eq!(tool_result(Ok(Ok("{\"a\":1}".to_string()))), Ok("{\"a\":1}".to_string()));
    assert_eq!(
        tool_result(Ok(Err("bad".to_string()))),
        Err("failed to serialize MCP response: bad".to_string())
    );
    assert_eq!(
        tool_result(Err("mcp oneshot status 404: nope".to_string())),
        Err("mcp oneshot status 404: nope".to_string())
    );
}
