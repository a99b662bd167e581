use hoosh::tools::providers::{ReadOnlyToolProvider, SubAgentToolProvider};
use std::path::PathBuf;

#[test]
fn test_readonly_provider_only_read_tools() {
    let provider = ReadOnlyToolProvider::new(PathBuf::from("."));
    let tools = provider.provide_tools(PathBuf::from("."));

    // Should provide exactly 4 read-only tools
    assert_eq!(tools.len(), 4);

    let tool_names: Vec<&str> = tools.iter().map(|t| t.name()).collect();

    // Verify read-only tools present
    assert!(tool_names.contains(&"read_file"));
    assert!(tool_names.contains(&"list_directory"));
    assert!(tool_names.contains(&"grep"));
    assert!(tool_names.contains(&"glob"));

    // Verify write tools NOT included
    assert!(!tool_names.contains(&"write_file"));
    assert!(!tool_names.contains(&"edit_file"));
    assert!(!tool_names.contains(&"bash"));
    assert!(!tool_names.contains(&"task"));
}

#[test]
fn test_readonly_provider_name() {
    let provider = ReadOnlyToolProvider::new(PathBuf::from("."));
    assert_eq!(provider.provider_name(), "readonly");
}

#[test]
fn test_subagent_provider_provides_tools() {
    let provider = SubAgentToolProvider::new(PathBuf::from("."));
    let tools = provider.provide_tools();

    // Should provide 5 tools: read_file, write_file, edit_file, list_directory, bash
    // Notably missing: task tool
    assert_eq!(tools.len(), 5);

    let tool_names: Vec<&str> = tools.iter().map(|t| t.name()).collect();
    assert!(tool_names.contains(&"read_file"));
    assert!(tool_names.contains(&"write_file"));
    assert!(tool_names.contains(&"edit_file"));
    assert!(tool_names.contains(&"list_directory"));
    assert!(tool_names.contains(&"bash"));

    // Verify task tool is NOT included
    assert!(!tool_names.contains(&"task"));
}

#[test]
fn test_subagent_provider_name() {
    let provider = SubAgentToolProvider::new(PathBuf::from("."));
    assert_eq!(provider.provider_name(), "subagent");
}

#[test]
fn providers_list_tools_in_order() {
    let read_only = ReadOnlyToolProvider::new(PathBuf::from("/w")).provide_tools(PathBuf::from("/cwd"));
    let names: Vec<&str> = read_only.iter().map(|t| t.name()).collect();
    assert_eq!(names, vec!["read_file", "list_directory", "glob", "grep"]);
    let sub = SubAgentToolProvider::new(PathBuf::from("/w")).provide_tools();
    let names: Vec<&str> = sub.iter().map(|t| t.name()).collect();
    assert_eq!(names, vec!["read_file", "write_file", "edit_file", "list_directory", "bash"]);
}
