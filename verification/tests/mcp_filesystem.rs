use sparrow_agent::config::{ConfirmationPolicy, FilesystemConfig, FilesystemMode};
use sparrow_agent::mcp::filesystem_provider::{is_write_tool, namespaced_name, McpTool, McpToolProvider};

fn config(mode: FilesystemMode, deny: &[&str]) -> FilesystemConfig {
    FilesystemConfig {
        enabled: true,
        roots: vec!["/work".into()],
        mode,
        confirm: ConfirmationPolicy::Writes,
        deny_patterns: deny.iter().map(|s| s.to_string()).collect(),
        max_read_bytes: 1,
        max_write_bytes: 1,
    }
}

fn tool(name: &str, description: Option<&str>) -> McpTool {
    McpTool {
        name: name.into(),
        description: description.map(str::to_string),
        input_schema: Some("{\"type\":\"object\"}".into()),
    }
}

#[test]
fn read_only_mode_hides_write_tools() {
    let provider = McpToolProvider::new(
        config(FilesystemMode::ReadOnly, &[".env"]),
        "filesystem".into(),
        vec![tool("read_file", Some("Read a file")), tool("write_file", None), tool("list_directory", None)],
    )
    .unwrap();
    let names: Vec<_> = provider.definitions.iter().map(|d| d.function.name.clone()).collect();
    assert_eq!(names, vec!["mcp__filesystem__read_file", "mcp__filesystem__list_directory"]);
    assert_eq!(provider.definitions[1].function.description, "list_directory");
    assert_eq!(
        provider.original_name("mcp__filesystem__read_file").as_deref(),
        Some("read_file")
    );
    assert!(provider.original_name("mcp__filesystem__write_file").is_none());
    assert_eq!(
        provider.check_mode("write_file").unwrap_err(),
        "Tool 'write_file' is not available in read-only mode"
    );
    assert!(provider.check_mode("read_file").is_ok());
}

#[test]
fn read_write_mode_offers_everything_and_confirms_writes() {
    let provider = McpToolProvider::new(
        config(FilesystemMode::ReadWrite, &[]),
        "fs".into(),
        vec![tool("read_file", None), tool("edit_file", None)],
    )
    .unwrap();
    assert_eq!(provider.definitions.len(), 2);
    assert!(provider.needs_confirmation("edit_file"));
    assert!(!provider.needs_confirmation("read_file"));
    assert!(is_write_tool("move_file"));
    assert_eq!(namespaced_name("fs", "x"), "mcp__fs__x");
}

#[test]
fn invalid_deny_pattern_is_refused() {
    assert!(McpToolProvider::new(config(FilesystemMode::ReadOnly, &["a[b"]), "fs".into(), Vec::new()).is_err());
}

#[test]
fn paths_must_stay_in_roots_and_avoid_deny_patterns() {
    let provider = McpToolProvider::new(
        config(FilesystemMode::ReadOnly, &["**/.env", "secrets/**"]),
        "fs".into(),
        Vec::new(),
    )
    .unwrap();
    let roots = vec!["/work".to_string()];
    assert!(provider
        .validate_single_path("src/main.rs", Ok("/work/src/main.rs".into()), &roots)
        .is_ok());
    assert_eq!(
        provider
            .validate_single_path("/etc/passwd", Ok("/etc/passwd".into()), &roots)
            .unwrap_err(),
        "path is outside allowed roots: /etc/passwd"
    );
    assert_eq!(
        provider
            .validate_single_path("app/.env", Ok("/work/app/.env".into()), &roots)
            .unwrap_err(),
        "path matches deny pattern: app/.env"
    );
    assert!(provider.is_denied("secrets/key.pem"));
    assert_eq!(
        provider
            .validate_single_path("missing/x", Err("parent directory does not exist: /work/missing".into()), &roots)
            .unwrap_err(),
        "parent directory does not exist: /work/missing"
    );
}
