use trurl::tools::{load_failure, require_param, select_tool, tool_error, tool_list, tool_result, ToolName};

#[test]
fn tool_error_sets_is_error() {
    let result = tool_error("something broke");
    assert!(result.is_error);
    assert_eq!(result.text, "something broke");
}

#[test]
fn dispatch_unknown_tool_returns_error() {
    let result = select_tool("nonexistent").err().unwrap();
    assert!(result.is_error);
}

#[test]
fn dispatch_get_context_missing_component() {
    let result = require_param(None, "component").err().unwrap();
    assert!(result.is_error);
    assert!(result.text.contains("component"));
}

#[test]
fn dispatch_check_pattern_missing_description() {
    let result = require_param(None, "description").err().unwrap();
    assert!(result.is_error);
}

#[test]
fn tool_names_select_their_tools() {
    assert_eq!(select_tool("get_context").ok(), Some(ToolName::GetContext));
    assert_eq!(select_tool("check_pattern").ok(), Some(ToolName::CheckPattern));
    assert_eq!(select_tool("get_architecture").ok(), Some(ToolName::GetArchitecture));
    assert_eq!(select_tool("nonexistent").err().unwrap().text, "unknown tool: nonexistent");
}

#[test]
fn tool_result_is_not_an_error() {
    let r = tool_result("{\"status\": \"covered\"}".to_string());
    assert!(!r.is_error);
    assert_eq!(r.text, "{\"status\": \"covered\"}");
}

#[test]
fn required_param_present_and_messages() {
    assert_eq!(require_param(Some("auth"), "component").ok(), Some("auth".to_string()));
    assert_eq!(
        require_param(None, "component").err().unwrap().text,
        "missing required parameter: component"
    );
    let f = load_failure("no such directory");
    assert!(f.is_error);
    assert_eq!(f.text, "failed to load .trurl/ state: no such directory");
}

#[test]
fn tool_list_has_three_tools() {
    let tools = tool_list();
    assert_eq!(tools.len(), 3);
}

#[test]
fn tool_list_has_correct_names() {
    let tools = tool_list();
    let names: Vec<&str> = tools.iter().map(|t| t.name.as_str()).collect();
    assert!(names.contains(&"get_context"));
    assert!(names.contains(&"check_pattern"));
    assert!(names.contains(&"get_architecture"));
}

#[test]
fn tool_list_schemas_have_required_fields() {
    let tools = tool_list();
    for tool in &tools {
        assert!(!tool.name.is_empty());
        assert!(!tool.description.is_empty());
        assert_eq!(tool.input_type, "object");
        // The input schema is an object of string parameters; every
        // required parameter is one of them.
        for r in &tool.required {
            assert!(tool.params.iter().any(|p| &p.name == r));
        }
    }
}

#[test]
fn tool_list_names_are_accepted_by_dispatch() {
    let tools = tool_list();
    let expected = [ToolName::GetContext, ToolName::CheckPattern, ToolName::GetArchitecture];
    for (tool, t) in tools.iter().zip(expected.iter()) {
        assert_eq!(select_tool(&tool.name).ok(), Some(*t));
    }
    assert_eq!(tools[0].required, vec!["component".to_string()]);
    assert_eq!(tools[0].params[1].name, "task_description");
    assert_eq!(tools[1].required, vec!["description".to_string()]);
    assert!(tools[2].params.is_empty());
    assert!(tools[0].description.starts_with("Get architectural decisions and constraints for a component. Returns"));
    assert_eq!(
        tools[1].params[0].description,
        "The pattern or approach to check (e.g. \"adding Redis pub/sub for real-time notifications\")"
    );
}

#[test]
fn tool_result_wraps_in_content_block() {
    let mut payload = serde_json::Map::new();
    payload.insert("status".to_string(), serde_json::Value::String("covered".to_string()));
    let text = serde_json::to_string_pretty(&serde_json::Value::Object(payload)).unwrap();
    let result = tool_result(text.clone());
    assert_eq!(result.text, text);
    assert!(!result.is_error);
}
