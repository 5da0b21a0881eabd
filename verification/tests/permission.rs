use angelica::glob::matches_pattern;
use angelica::permission::{PermissionAction, PermissionEvaluator, TargetRule, ToolRuleEntry};

#[test]
fn test_glob_exact() {
    assert!(matches_pattern("hello", "hello"));
    assert!(!matches_pattern("hello", "world"));
}

#[test]
fn test_glob_star() {
    assert!(matches_pattern("*", "anything"));
    assert!(matches_pattern("*.rs", "main.rs"));
    assert!(!matches_pattern("*.rs", "main.go"));
    assert!(matches_pattern("cargo *", "cargo build"));
    assert!(matches_pattern("cargo *", "cargo test --release"));
}

#[test]
fn test_glob_question() {
    assert!(matches_pattern("?", "a"));
    assert!(!matches_pattern("?", "ab"));
    assert!(matches_pattern("?.rs", "a.rs"));
    assert!(!matches_pattern("?.rs", "ab.rs"));
}

#[test]
fn test_glob_star_question_combo() {
    assert!(matches_pattern("test?.txt", "test1.txt"));
    assert!(!matches_pattern("test?.txt", "test12.txt"));
}

#[test]
fn test_glob_edge_cases() {
    assert!(matches_pattern("", ""));
    assert!(!matches_pattern("", "x"));
    assert!(matches_pattern("*", ""));
}

#[test]
fn glob_backtracks_over_several_stars() {
    assert!(matches_pattern("a*b*c", "axxbyyc"));
    assert!(matches_pattern("*a*", "banana"));
    assert!(!matches_pattern("a*b*c", "axxbyy"));
    assert!(matches_pattern("**", "x"));
}

#[test]
fn glob_pattern_matches_itself_without_wildcards() {
    assert!(matches_pattern("src/main.rs", "src/main.rs"));
}

#[test]
fn test_evaluate_builtin_default() {
    let builtin = vec![(
        "read_file".to_string(),
        vec![TargetRule {
            target: "*".to_string(),
            action: PermissionAction::Allow,
        }],
    )];
    let eval = PermissionEvaluator::new(PermissionAction::Ask, builtin, vec![]);
    assert_eq!(eval.evaluate("read_file", Some("/foo.rs")), PermissionAction::Allow);
    assert_eq!(eval.evaluate("write_file", Some("/foo.rs")), PermissionAction::Ask);
}

#[test]
fn test_evaluate_config_overrides_builtin() {
    let builtin = vec![(
        "read_file".to_string(),
        vec![TargetRule {
            target: "*".to_string(),
            action: PermissionAction::Allow,
        }],
    )];
    let config = vec![ToolRuleEntry {
        tool: "read_file".to_string(),
        target: "*.env".to_string(),
        action: PermissionAction::Deny,
    }];
    let eval = PermissionEvaluator::new(PermissionAction::Ask, builtin, config);
    assert_eq!(eval.evaluate("read_file", Some("src/main.rs")), PermissionAction::Allow);
    assert_eq!(eval.evaluate("read_file", Some("secret.env")), PermissionAction::Deny);
}

#[test]
fn test_evaluate_first_match_wins() {
    let builtin = vec![(
        "run_command".to_string(),
        vec![
            TargetRule {
                target: "rm *".to_string(),
                action: PermissionAction::Deny,
            },
            TargetRule {
                target: "*".to_string(),
                action: PermissionAction::Allow,
            },
        ],
    )];
    let eval = PermissionEvaluator::new(PermissionAction::Ask, builtin, vec![]);
    assert_eq!(eval.evaluate("run_command", Some("rm -rf /")), PermissionAction::Deny);
    assert_eq!(eval.evaluate("run_command", Some("cargo build")), PermissionAction::Allow);
}

#[test]
fn test_evaluate_approved_overrides_all() {
    let builtin = vec![(
        "run_command".to_string(),
        vec![TargetRule {
            target: "*".to_string(),
            action: PermissionAction::Ask,
        }],
    )];
    let mut eval = PermissionEvaluator::new(PermissionAction::Ask, builtin, vec![]);
    let to_persist = eval.approve_always("run_command", "cargo *".to_string());
    assert_eq!(to_persist.len(), 1);
    assert_eq!(eval.evaluate("run_command", Some("cargo build")), PermissionAction::Allow);
    assert_eq!(eval.evaluate("run_command", Some("rm -rf /")), PermissionAction::Ask);
}

#[test]
fn test_persist_and_load_approved() {
    let mut eval = PermissionEvaluator::new(PermissionAction::Ask, vec![], vec![]);
    eval.approve_always("run_command", "cargo *".to_string());
    let persisted = eval.approve_always("edit_file", "src/*".to_string());
    assert_eq!(persisted.len(), 2);

    let mut eval2 = PermissionEvaluator::new(PermissionAction::Ask, vec![], vec![]);
    eval2.set_approved(persisted);
    assert_eq!(eval2.evaluate("run_command", Some("cargo build")), PermissionAction::Allow);
    assert_eq!(eval2.evaluate("edit_file", Some("src/main.rs")), PermissionAction::Allow);
    assert_eq!(eval2.evaluate("edit_file", Some("README.md")), PermissionAction::Ask);
}

#[test]
fn test_approve_session_same_file_twice() {
    let builtin = vec![(
        "edit_file".to_string(),
        vec![TargetRule {
            target: "*".to_string(),
            action: PermissionAction::Ask,
        }],
    )];
    let mut eval = PermissionEvaluator::new(PermissionAction::Ask, builtin, vec![]);
    assert_eq!(eval.evaluate("edit_file", Some("data/a.txt")), PermissionAction::Ask);
    eval.approve_session("edit_file", "data/a.txt".to_string());
    assert_eq!(eval.evaluate("edit_file", Some("data/a.txt")), PermissionAction::Allow);
    assert_eq!(eval.evaluate("edit_file", Some("data/b.txt")), PermissionAction::Ask);
}

#[test]
fn approving_twice_keeps_one_rule() {
    let mut eval = PermissionEvaluator::new(PermissionAction::Ask, vec![], vec![]);
    eval.approve_always("run_command", "cargo *".to_string());
    let rules = eval.approve_always("run_command", "cargo *".to_string());
    assert_eq!(rules.len(), 1);
    assert_eq!(eval.approved_rules().len(), 1);
}

#[test]
fn no_target_uses_default() {
    let eval = PermissionEvaluator::new(PermissionAction::Deny, vec![], vec![]);
    assert_eq!(eval.evaluate("anything", None), PermissionAction::Deny);
}
