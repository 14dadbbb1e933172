use sparrow_agent::tool_result_processor::{
    sanitize_filename_part_exec, ToolResultInput, ToolResultProcessor, ToolResultProcessorConfig,
    DEFAULT_TOOL_RESULT_MAX_CHARS,
};

const OUTPUT_DIR: &str = "/tmp/sparrow_tool_outputs";

#[test]
fn leaves_small_tool_output_unchanged() {
    let processor = ToolResultProcessor::new(ToolResultProcessorConfig {
        max_injected_chars: 80,
        output_dir: OUTPUT_DIR.into(),
    });

    let plan = processor.plan(ToolResultInput {
        tool_call_id: "call_small".to_string(),
        tool_name: "read_file".to_string(),
        content: "short output".to_string(),
    });
    let processed = plan.processed;

    assert_eq!(processed.content, "short output");
    assert!(!processed.metadata.truncated);
    assert_eq!(processed.metadata.original_chars, 12);
    assert_eq!(processed.metadata.injected_chars, 12);
    assert!(processed.metadata.artifact_path.is_none());
    assert!(plan.artifact.is_none());
}

#[test]
fn truncates_large_output_and_saves_complete_original_output() {
    let processor = ToolResultProcessor::new(ToolResultProcessorConfig {
        max_injected_chars: 700,
        output_dir: OUTPUT_DIR.into(),
    });
    let original = "abcdef".repeat(160);

    let plan = processor.plan(ToolResultInput {
        tool_call_id: "call_large".to_string(),
        tool_name: "read_file".to_string(),
        content: original.clone(),
    });
    let processed = plan.processed;

    assert!(processed.metadata.truncated);
    assert_eq!(processed.metadata.original_chars, original.chars().count());
    assert!(processed.metadata.injected_chars <= 700);
    assert!(processed.content.contains("工具输出过长"));
    assert!(processed.content.contains("结果总长度为 960 个字符"));
    assert!(processed.content.contains("已经被截断"));
    assert!(processed.content.contains("完整的输出已经被保存在文件"));
    assert!(processed.content.contains("请考虑以更精确的参数调用该函数"));
    assert!(processed.content.contains("--- 截断后的输出预览 ---"));

    let artifact_path = processed.metadata.artifact_path.as_ref().unwrap();
    assert!(artifact_path.starts_with(OUTPUT_DIR));
    let (path, saved) = plan.artifact.unwrap();
    assert_eq!(&path, artifact_path);
    assert_eq!(saved, original);
}

#[test]
fn default_limit_truncates_outputs_above_twenty_thousand_chars() {
    let processor = ToolResultProcessor::new(ToolResultProcessorConfig {
        output_dir: OUTPUT_DIR.into(),
        ..ToolResultProcessorConfig::default()
    });
    let original = "x".repeat(DEFAULT_TOOL_RESULT_MAX_CHARS + 1);

    let plan = processor.plan(ToolResultInput {
        tool_call_id: "call_default_limit".to_string(),
        tool_name: "default_limit_tool".to_string(),
        content: original.clone(),
    });
    let processed = plan.processed;

    assert!(processed.metadata.truncated);
    assert_eq!(processed.metadata.original_chars, 20_001);
    assert!(processed.metadata.injected_chars <= DEFAULT_TOOL_RESULT_MAX_CHARS);
    assert!(processed.content.starts_with("工具输出过长"));
    assert_eq!(plan.artifact.unwrap().1, original);
}

#[test]
fn truncates_without_splitting_multibyte_characters() {
    let processor = ToolResultProcessor::new(ToolResultProcessorConfig {
        max_injected_chars: 700,
        output_dir: OUTPUT_DIR.into(),
    });
    let original = "你好🙂".repeat(300);

    let plan = processor.plan(ToolResultInput {
        tool_call_id: "call_unicode".to_string(),
        tool_name: "unicode_tool".to_string(),
        content: original.clone(),
    });
    let processed = plan.processed;

    assert!(processed.metadata.truncated);
    assert!(processed.metadata.injected_chars <= 700);
    assert!(processed.content.is_char_boundary(processed.content.len()));
    assert_eq!(plan.artifact.unwrap().1, original);
}

#[test]
fn sanitizes_tool_name_and_tool_call_id_in_artifact_filename() {
    let processor = ToolResultProcessor::new(ToolResultProcessorConfig {
        max_injected_chars: 160,
        output_dir: OUTPUT_DIR.into(),
    });

    let plan = processor.plan(ToolResultInput {
        tool_call_id: "call/with:unsafe chars".to_string(),
        tool_name: "mcp__filesystem__read/file".to_string(),
        content: "x".repeat(300),
    });

    let path = plan.processed.metadata.artifact_path.unwrap();
    let filename = path.rsplit('/').next().unwrap().to_string();

    assert!(!filename.contains('/'));
    assert!(!filename.contains(':'));
    assert!(!filename.contains(' '));
    assert!(filename.contains("mcp__filesystem__read_file"));
    assert!(filename.contains("call_with_unsafe_chars"));
    assert!(filename.ends_with(".txt"));
}

#[test]
fn sanitized_parts_are_trimmed_and_never_empty() {
    assert_eq!(
        sanitize_filename_part_exec("__a/b__").into_iter().collect::<String>(),
        "a_b"
    );
    assert_eq!(
        sanitize_filename_part_exec("///").into_iter().collect::<String>(),
        "unknown"
    );
    assert_eq!(
        sanitize_filename_part_exec(&"y".repeat(100)).len(),
        80
    );
}
