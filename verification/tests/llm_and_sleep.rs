use angelica::llm::patch::ModelPatch;
use angelica::sleep::consolidation::{append_insights, extract_json};

#[test]
fn auto_detect_deepseek() {
    let patch = ModelPatch::new("deepseek-v4-flash", None);
    let result = patch.apply_to_system_prompt("base prompt");
    assert!(result.contains("角色沉浸要求"));
}

#[test]
fn non_deepseek_no_patch() {
    let patch = ModelPatch::new("gpt-4", None);
    let result = patch.apply_to_system_prompt("base prompt");
    assert!(!result.contains("角色沉浸"));
}

#[test]
fn config_override_force_on() {
    let patch = ModelPatch::new("gpt-4", Some(true));
    let result = patch.apply_to_system_prompt("base prompt");
    assert!(result.contains("角色沉浸要求"));
}

#[test]
fn config_override_force_off() {
    let patch = ModelPatch::new("deepseek-v4", Some(false));
    let result = patch.apply_to_system_prompt("base prompt");
    assert!(!result.contains("角色沉浸"));
}

#[test]
fn patch_off_keeps_prompt() {
    let patch = ModelPatch::new("gpt-4", None);
    assert_eq!(patch.apply_to_system_prompt("base prompt"), "base prompt");
}

#[test]
fn extract_json_plain() {
    let input = r#"{"self_insights": ["a"], "user_insights": []}"#;
    assert_eq!(extract_json(input), input);
}

#[test]
fn extract_json_with_fence() {
    let input = "```json\n{\"self_insights\": [\"a\"], \"user_insights\": []}\n```";
    let expected = r#"{"self_insights": ["a"], "user_insights": []}"#;
    assert_eq!(extract_json(input), expected);
}

#[test]
fn extract_json_with_fence_no_lang() {
    let input = "```\n{\"self_insights\": [], \"user_insights\": []}\n```";
    let expected = r#"{"self_insights": [], "user_insights": []}"#;
    assert_eq!(extract_json(input), expected);
}

#[test]
fn extract_json_trailing_text() {
    let input = r#"{"self_insights": ["a"], "user_insights": ["b"]}
Here is some extra text"#;
    assert_eq!(extract_json(input), r#"{"self_insights": ["a"], "user_insights": ["b"]}"#);
}
