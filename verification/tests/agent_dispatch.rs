use angelica::agent::dispatch::{extract_diff_preview, make_approval_preview, rejection_text};
use angelica::agent::events::{format_approval_label, format_args_brief, format_tool_call_display};
use angelica::agent::group::{group_tool_calls, BatchedEdit, PendingApproval, ToolCallGroup};
use angelica::llm::types::{FunctionCall, ToolCall};

fn tc(name: &str, args: &str) -> ToolCall {
    ToolCall {
        id: format!("call_{}", name),
        function: FunctionCall {
            name: name.to_string(),
            arguments: args.to_string(),
        },
    }
}

fn edit_tc(id: &str, path: &str, search: &str, replace: &str) -> ToolCall {
    ToolCall {
        id: id.to_string(),
        function: FunctionCall {
            name: "edit_file".to_string(),
            arguments: format!(
                r#"{{"path":"{}","replace":"{}","search":"{}"}}"#,
                path, replace, search
            ),
        },
    }
}

fn unwrap_batched(group: &ToolCallGroup) -> (&str, usize) {
    match group {
        ToolCallGroup::BatchedEdits { path, edits } => (path, edits.len()),
        _ => panic!("expected BatchedEdits"),
    }
}

fn is_single(group: &ToolCallGroup) -> bool {
    matches!(group, ToolCallGroup::Single { .. })
}

#[test]
fn extract_diff_preview_from_unified_diff() {
    let diff = "--- a/foo.rs\n+++ b/foo.rs\n@@ -1,3 +1,3 @@\n-old\n+new\n context\n";
    let result = extract_diff_preview(diff);
    assert!(result.is_some());
    assert!(result.unwrap().contains("+new"));
}

#[test]
fn extract_diff_preview_rejects_non_diff() {
    assert!(extract_diff_preview("just some text").is_none());
    assert!(extract_diff_preview("$ ls").is_none());
}

#[test]
fn extract_diff_preview_from_diff_command() {
    let diff = "diff --git a/a.rs b/a.rs\n--- a/a.rs\n+++ b/a.rs\n@@ -1 +1 @@\n-old\n+new\n";
    let result = extract_diff_preview(diff);
    assert!(result.is_some());
}

#[test]
fn extract_diff_preview_trims_trailing_non_diff_lines() {
    let input = "--- a.rs\n+++ a.rs\n@@ -1 +1 @@\n-old\n+new\nsome trailing noise\nmore noise\n";
    let result = extract_diff_preview(input).unwrap();
    assert!(result.ends_with("+new"));
}

#[test]
fn extract_diff_preview_exact_text() {
    let input = "--- a.rs\n+++ a.rs\n-x\n+y\nnoise";
    assert_eq!(extract_diff_preview(input).as_deref(), Some("--- a.rs\n+++ a.rs\n-x\n+y"));
}

#[test]
fn empty_input() {
    let groups = group_tool_calls(vec![]);
    assert!(groups.is_empty());
}

#[test]
fn single_non_edit_tools_stay_separate() {
    let tcs = vec![tc("read_file", r#"{"path":"a.rs"}"#), tc("run_command", r#"{"command":"ls"}"#)];
    let groups = group_tool_calls(tcs);
    assert_eq!(groups.len(), 2);
    assert!(is_single(&groups[0]));
    assert!(is_single(&groups[1]));
}

#[test]
fn edits_same_file_are_batched() {
    let tcs = vec![
        edit_tc("1", "a.rs", "old1", "new1"),
        edit_tc("2", "a.rs", "old2", "new2"),
        edit_tc("3", "a.rs", "old3", "new3"),
    ];
    let groups = group_tool_calls(tcs);
    assert_eq!(groups.len(), 1);
    assert_eq!(unwrap_batched(&groups[0]), ("a.rs", 3));
}

#[test]
fn edits_different_files_are_separate_batches() {
    let tcs = vec![edit_tc("1", "a.rs", "old1", "new1"), edit_tc("2", "b.rs", "old2", "new2")];
    let groups = group_tool_calls(tcs);
    assert_eq!(groups.len(), 2);
    assert_eq!(unwrap_batched(&groups[0]), ("a.rs", 1));
    assert_eq!(unwrap_batched(&groups[1]), ("b.rs", 1));
}

#[test]
fn mixed_edits_and_other_tools() {
    let tcs = vec![
        edit_tc("1", "a.rs", "old1", "new1"),
        edit_tc("2", "a.rs", "old2", "new2"),
        tc("read_file", r#"{"path":"a.rs"}"#),
        edit_tc("3", "a.rs", "old3", "new3"),
    ];
    let groups = group_tool_calls(tcs);
    assert_eq!(groups.len(), 3);
    assert_eq!(unwrap_batched(&groups[0]), ("a.rs", 2));
    assert!(is_single(&groups[1]));
    assert_eq!(unwrap_batched(&groups[2]), ("a.rs", 1));
}

#[test]
fn edit_with_invalid_json_is_treated_as_single() {
    let tcs = vec![ToolCall {
        id: "bad".to_string(),
        function: FunctionCall {
            name: "edit_file".to_string(),
            arguments: "not json".to_string(),
        },
    }];
    let groups = group_tool_calls(tcs);
    assert_eq!(groups.len(), 1);
    let (path, count) = unwrap_batched(&groups[0]);
    assert_eq!(path, "");
    assert_eq!(count, 1);
}

#[test]
fn batched_edits_keep_search_and_replace() {
    let groups = group_tool_calls(vec![edit_tc("1", "a.rs", "old1", "new1")]);
    match &groups[0] {
        ToolCallGroup::BatchedEdits { edits, .. } => {
            assert_eq!(edits[0].tc_id, "1");
            assert_eq!(edits[0].search, "old1");
            assert_eq!(edits[0].replace, "new1");
        }
        _ => panic!("expected BatchedEdits"),
    }
}

#[test]
fn pending_approval_single_accessors() {
    let pa = PendingApproval::Single {
        tc_ids: vec!["c1".to_string()],
        tool_name: "run_command".to_string(),
        args: r#"{"command":"ls"}"#.to_string(),
        display_args: r#"{"command":"ls"}"#.to_string(),
        preview: Some("$ ls".to_string()),
    };
    assert_eq!(pa.tc_ids(), &["c1".to_string()]);
    assert_eq!(pa.tool_name(), "run_command");
    assert_eq!(pa.display_args(), r#"{"command":"ls"}"#);
    assert_eq!(pa.preview(), Some("$ ls"));
}

#[test]
fn pending_approval_batched_accessors() {
    let pa = PendingApproval::BatchedEdit {
        tc_ids: vec!["c1".to_string(), "c2".to_string()],
        path: "a.rs".to_string(),
        edits: vec![BatchedEdit {
            tc_id: "c1".into(),
            search: "a".into(),
            replace: "b".into(),
        }],
        display_args: "{}".to_string(),
        preview: None,
    };
    assert_eq!(pa.tc_ids().len(), 2);
    assert_eq!(pa.tool_name(), "edit_file");
    assert!(pa.preview().is_none());
}

#[test]
fn approval_preview_for_commands_and_others() {
    assert_eq!(make_approval_preview("run_command", r#"{"command":"ls -la"}"#, &None), "$ ls -la");
    assert_eq!(
        make_approval_preview("write_file", r#"{"path": "a"}"#, &None),
        "[write_file]\nArguments: {\"path\":\"a\"}"
    );
    assert_eq!(
        make_approval_preview("write_file", "{}", &Some(Ok(Some("--- a\n+++ b".to_string())))),
        "--- a\n+++ b"
    );
    assert_eq!(
        make_approval_preview("write_file", "{}", &Some(Err("boom".to_string()))),
        "Preview failed: boom\n\nArguments: {}"
    );
}

#[test]
fn rejection_message_with_and_without_feedback() {
    assert_eq!(rejection_text(""), "User rejected this operation.");
    assert_eq!(rejection_text("too risky"), "User rejected this operation. Feedback: too risky");
}

#[test]
fn tool_call_display_forms() {
    assert_eq!(format_tool_call_display("run_command", r#"{"command":"ls"}"#), "$ ls");
    assert_eq!(format_tool_call_display("read_file", r#"{"path":"a.rs"}"#), "read a.rs");
    assert_eq!(format_tool_call_display("write_file", "not json"), "write ?");
}

#[test]
fn approval_label_for_command_and_diff() {
    let (label, is_diff) = format_approval_label("$ ls");
    assert_eq!(label, "\u{2192} $ ls");
    assert!(!is_diff);
    let (label, is_diff) = format_approval_label("--- a/x.rs\n+++ b/x.rs\n-a\n+b");
    assert_eq!(label, "\u{2192} edit x.rs");
    assert!(is_diff);
}

#[test]
fn args_brief_is_shown() {
    let brief = format_args_brief(r#"{"path":"a.rs"}"#);
    assert!(brief.contains("a.rs"));
}
