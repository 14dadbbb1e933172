use sparrow_agent::trace_file::{
    archive_file_name, check_schema_version, ArchiveFormat, default_trace_dir, default_trace_dir_from_cwd,
    safe_archive_file_path,
};

#[test]
fn archive_file_name_is_stable_and_safe() {
    assert_eq!(
        archive_file_name("task_01ABC"),
        "task_01ABC.sparrow-trace.json"
    );
    assert_eq!(
        archive_file_name("../task_01ABC"),
        "task_01ABC.sparrow-trace.json"
    );
    assert_eq!(archive_file_name("/.."), "trace.sparrow-trace.json");
}

#[test]
fn default_trace_dir_uses_cwd_sparrow_agent_traces() {
    assert_eq!(
        default_trace_dir_from_cwd("/Users/example/project"),
        "/Users/example/project/.sparrow_agent/traces"
    );
    assert_eq!(default_trace_dir(Some("/var/traces"), "/x"), "/var/traces");
    assert_eq!(default_trace_dir(Some("  "), "/x"), "/x/.sparrow_agent/traces");
    assert_eq!(default_trace_dir(None, "/x/"), "/x/.sparrow_agent/traces");
}

#[test]
fn safe_archive_file_path_rejects_path_traversal() {
    let dir = "/tmp/traces";

    assert!(safe_archive_file_path(dir, "../secret.json").is_none());
    assert!(safe_archive_file_path(dir, "nested/file.sparrow-trace.json").is_none());
    assert!(safe_archive_file_path(dir, "task_1.json").is_none());
    assert!(safe_archive_file_path(dir, "task_1.sparrow-trace.json")
        .unwrap()
        .ends_with("task_1.sparrow-trace.json"));
    assert_eq!(
        safe_archive_file_path(dir, "task_1.sparrow-trace.json").unwrap(),
        "/tmp/traces/task_1.sparrow-trace.json"
    );
}

#[test]
fn plain_and_compacted_schema_versions_are_read() {
    assert_eq!(check_schema_version(1), Ok(ArchiveFormat::Plain));
    assert_eq!(check_schema_version(2), Ok(ArchiveFormat::Compacted));
    assert_eq!(check_schema_version(7), Err(7));
    assert_eq!(check_schema_version(0), Err(0));
}

#[test]
fn every_archive_file_name_passes_the_path_check() {
    for id in ["task_01ABC", "../../etc/passwd", "a/b\\c..d", "", "..."] {
        let name = archive_file_name(id);
        assert_eq!(safe_archive_file_path("/tmp/t", &name), Some(format!("/tmp/t/{name}")));
    }
    assert_eq!(archive_file_name("../x"), "x.sparrow-trace.json");
    assert_eq!(archive_file_name("..."), "trace.sparrow-trace.json");
}
