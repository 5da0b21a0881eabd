use angelica::config::{default_model_name, EmbeddingConfig, McpConfig, ProviderModel, SkillsConfig, StateConfig};
use angelica::data_git::{commit_all, git_error_message, parse_i64_exec, read_file_history, status_args, FileHistoryReader};
use angelica::llm::types::{ChatMessage, Role};
use angelica::session::{extract_preview, session_matches, SessionEntry, SessionManager};

fn provider(name: &str, model: Option<&str>) -> ProviderModel {
    ProviderModel {
        name: name.to_string(),
        model: model.map(|m| m.to_string()),
    }
}

#[test]
fn parse_default_config() {
    let embedding = EmbeddingConfig::default();
    assert_eq!(embedding.model, "qwen3-embedding");
    assert!(embedding.enabled);
    assert_eq!(embedding.base_url, "http://localhost:11434");
    assert_eq!(SkillsConfig::default().directory, "skills");
    let state = StateConfig::default();
    assert_eq!(state.path, "state.json");
    assert_eq!(state.conversation_path, "conversation.jsonl");
    assert!(McpConfig::default().servers.is_empty());
}

#[test]
fn default_model_name_resolution() {
    let providers = vec![
        provider("deepseek", Some("deepseek-v4-flash")),
        provider("openai", Some("gpt-4o")),
    ];
    assert_eq!(default_model_name(&providers, &Some("openai".to_string())), "gpt-4o");
    assert_eq!(default_model_name(&providers, &None), "deepseek-v4-flash");
    assert_eq!(default_model_name(&providers, &Some("groq".to_string())), "deepseek-v4-flash");
    assert_eq!(default_model_name(&vec![], &None), "unknown");
    assert_eq!(default_model_name(&vec![provider("x", None)], &Some("x".to_string())), "unknown");
}

#[test]
fn data_dir_is_the_conversation_parent() {
    let state = StateConfig {
        path: "/data/state.json".to_string(),
        conversation_path: "/data/angelica/conversation.jsonl".to_string(),
    };
    assert_eq!(state.data_dir("/fallback".to_string()), "/data/angelica");
    let empty = StateConfig {
        path: String::new(),
        conversation_path: String::new(),
    };
    assert_eq!(empty.data_dir("/fallback".to_string()), "/fallback");
}

#[test]
fn absolute_paths_stay() {
    assert_eq!(angelica::config::absolute_or("/base", "/abs/x"), "/abs/x");
    assert_eq!(angelica::config::absolute_or("/base", "rel/x"), "/base/rel/x");
}

#[test]
fn commit_all_skips_when_clean() {
    assert!(commit_all("", "should not appear").is_empty());
    assert!(commit_all("  \n", "should not appear").is_empty());
    assert_eq!(status_args(), vec!["status".to_string(), "--porcelain".to_string()]);
}

#[test]
fn commit_all_tracks_changes() {
    let commands = commit_all("?? test.txt\n", "add test");
    assert_eq!(commands.len(), 2);
    assert_eq!(commands[0], vec!["add".to_string(), "-A".to_string()]);
    assert_eq!(commands[1], vec!["commit".to_string(), "-m".to_string(), "add test".to_string()]);
}

#[test]
fn read_file_history_returns_versions() {
    let log = "bbb 1700000002\nnot a line\naaa 1700000001\n";
    let mut reader = read_file_history("memo.txt", log);
    let mut contents = vec!["v2".to_string(), "v1".to_string()].into_iter();
    while let Some(args) = reader.next_show_args() {
        assert_eq!(args[0], "show");
        reader.on_show(contents.next());
    }
    let versions = reader.finish();
    assert_eq!(versions.len(), 2);
    assert_eq!(versions[0].content, "v2");
    assert_eq!(versions[0].commit_hash, "bbb");
    assert_eq!(versions[0].timestamp, 1700000002);
    assert_eq!(versions[1].content, "v1");
}

#[test]
fn history_skips_commits_without_the_file() {
    let mut reader = read_file_history("memo.txt", "ccc 3\nbbb 2\n");
    assert_eq!(
        reader.next_show_args(),
        Some(vec!["show".to_string(), "ccc:memo.txt".to_string()])
    );
    reader.on_show(None);
    reader.on_show(Some("old".to_string()));
    assert_eq!(reader.next_show_args(), None);
    let versions = reader.finish();
    assert_eq!(versions.len(), 1);
    assert_eq!(versions[0].commit_hash, "bbb");
}

#[test]
fn log_arguments() {
    assert_eq!(
        FileHistoryReader::log_args("memo.txt", 10),
        vec![
            "log".to_string(),
            "--format=%H %ct".to_string(),
            "-n 10".to_string(),
            "--".to_string(),
            "memo.txt".to_string()
        ]
    );
}

#[test]
fn integers_parse_like_std() {
    let p = |s: &str| parse_i64_exec(&s.chars().collect::<Vec<char>>());
    assert_eq!(p("42"), Some(42));
    assert_eq!(p("-7"), Some(-7));
    assert_eq!(p("+7"), Some(7));
    assert_eq!(p("9223372036854775807"), Some(i64::MAX));
    assert_eq!(p("-9223372036854775808"), Some(i64::MIN));
    assert_eq!(p("9223372036854775808"), None);
    assert_eq!(p(""), None);
    assert_eq!(p("-"), None);
    assert_eq!(p("1a"), None);
    assert_eq!(p(" 1"), None);
}

#[test]
fn git_errors_read_well() {
    let args = vec!["commit".to_string(), "-m".to_string(), "x".to_string()];
    assert_eq!(git_error_message(&args, "  fatal: no\n"), "git commit -m x: fatal: no");
}

#[test]
fn save_and_load_session() {
    let mgr = SessionManager::with_session_id("sessions", "2026-05-18_14-30-22");
    assert_eq!(mgr.session_id(), "2026-05-18_14-30-22");
    assert_eq!(mgr.sessions_dir(), "sessions");
    let fresh = SessionManager::new("sessions");
    assert_eq!(fresh.session_id().len(), 19);
}

#[test]
fn query_sessions_by_keyword() {
    let content = r#"[{"role":"user","content":"rust programming"}]"#;
    assert!(session_matches(content, "rust"));
    assert!(session_matches(content, "RUST"));
    assert!(!session_matches(content, "python"));
    assert!(session_matches(content, ""));
}

#[test]
fn previews_show_the_first_user_message() {
    let messages = vec![
        ChatMessage::system("sys".to_string()),
        ChatMessage::user("hello there"),
        ChatMessage::user("later"),
    ];
    assert_eq!(extract_preview(Some(&messages)), "hello there");
    assert_eq!(extract_preview(None), "(no preview)");
    let long = "x".repeat(150);
    assert_eq!(extract_preview(Some(&vec![ChatMessage::user(&long)])).chars().count(), 100);
    let entry = SessionEntry {
        session_id: "s1".to_string(),
        path: "p".to_string(),
        preview: "hi".to_string(),
    };
    assert_eq!(entry.to_text(), "[s1] hi");
    assert_eq!(messages[1].role, Role::User);
}
