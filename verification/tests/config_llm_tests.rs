use folder_summary::config::Config;
use folder_summary::error::FolderSummaryError;
use folder_summary::llm::calculate_tokens;

fn empty_config() -> Config {
    Config {
        llm_provider: None,
        ollama_model: None,
        gemini_model: None,
        openai_model: None,
        custom_openai_url: None,
        custom_prompt: None,
        custom_gemini_config: None,
        custom_openai_config: None,
        summary_output_path: None,
        summary_filename_format: None,
        custom_ignore_paths: None,
        code_identifiers: None,
    }
}

#[test]
fn token_count_splits_on_whitespace() {
    assert_eq!(calculate_tokens("hello  world\n foo"), 3);
    assert_eq!(calculate_tokens(""), 0);
    assert_eq!(calculate_tokens("   "), 0);
    assert_eq!(calculate_tokens("one"), 1);
}

#[test]
fn default_summary_filename() {
    let c = empty_config();
    assert_eq!(c.get_summary_filename("proj", "2024-01-02"), "summary-proj-2024-01-02.md");
}

#[test]
fn custom_summary_filename_format() {
    let mut c = empty_config();
    c.summary_filename_format = Some("{folder}_{date}.txt".to_string());
    assert_eq!(c.get_summary_filename("proj", "2024-01-02"), "proj_2024-01-02.txt");
}

#[test]
fn ignore_paths_append_defaults() {
    let c = empty_config();
    let defaults = c.get_custom_ignore_paths();
    assert_eq!(defaults.len(), 11);
    assert_eq!(defaults[0], "node_modules");
    assert_eq!(defaults[10], "*.bak");

    let mut c2 = empty_config();
    c2.custom_ignore_paths = Some(vec!["vendor".to_string()]);
    let merged = c2.get_custom_ignore_paths();
    assert_eq!(merged.len(), 12);
    assert_eq!(merged[0], "vendor");
    assert_eq!(merged[1], "node_modules");
}

#[test]
fn code_identifiers_default_and_custom() {
    let c = empty_config();
    assert_eq!(
        c.get_code_identifiers(),
        vec!["Cargo.toml", "package.json", "setup.py", "requirements.txt"]
    );
    let mut c2 = empty_config();
    c2.code_identifiers = Some(vec!["go.mod".to_string()]);
    assert_eq!(c2.get_code_identifiers(), vec!["go.mod"]);
}

#[test]
fn error_labels_and_messages() {
    let cases = vec![
        (FolderSummaryError::IoError("a".to_string()), "IO error"),
        (FolderSummaryError::ConfigError("b".to_string()), "Configuration error"),
        (FolderSummaryError::LlmError("c".to_string()), "LLM error"),
        (FolderSummaryError::AnalysisError("d".to_string()), "Analysis error"),
        (FolderSummaryError::CacheError("e".to_string()), "Cache error"),
        (FolderSummaryError::TaskJoinError("f".to_string()), "TaskJoin error"),
    ];
    for (err, label) in cases {
        assert_eq!(err.label(), label);
    }
    assert_eq!(
        FolderSummaryError::LlmError("backend unreachable".to_string()).message(),
        "backend unreachable"
    );
}
