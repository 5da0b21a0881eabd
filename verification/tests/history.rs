use angelica::agent::history::{strip_baked_context, History};
use angelica::llm::types::{ChatMessage, FunctionCall, Role, ToolCall};

fn call(id: &str, name: &str, arguments: &str) -> ToolCall {
    ToolCall {
        id: id.to_string(),
        function: FunctionCall {
            name: name.to_string(),
            arguments: arguments.to_string(),
        },
    }
}

#[test]
fn record_assistant_with_tool_calls() {
    let mut history = History::new("conversation.jsonl".to_string());
    history.record_assistant(
        Some("checking".to_string()),
        Some("thinking...".to_string()),
        Some(vec![call("call_1", "read_file", r#"{"path":"test.rs"}"#)]),
        None,
    );
    assert_eq!(history.messages().len(), 1);
    assert!(history.messages()[0].reasoning_content.is_some());
    assert!(history.messages()[0].tool_calls.is_some());
}

#[test]
fn record_assistant_without_tool_calls_drops_reasoning() {
    let mut history = History::new("conversation.jsonl".to_string());
    history.record_assistant(Some("done".to_string()), Some("thinking...".to_string()), None, None);
    assert_eq!(history.messages().len(), 1);
    assert!(history.messages()[0].reasoning_content.is_none());
}

#[test]
fn update_tool_result_persists() {
    let mut history = History::new("conversation.jsonl".to_string());
    history.record_tool_result("tc_1".to_string(), "Pending...".to_string());
    let replaced = history.update_tool_result("tc_1", "Done!".to_string());
    assert!(replaced);
    assert_eq!(history.messages()[0].content.as_deref(), Some("Done!"));
    assert_eq!(history.messages().len(), 1);
}

#[test]
fn update_tool_result_without_pending_appends() {
    let mut history = History::new("conversation.jsonl".to_string());
    let replaced = history.update_tool_result("tc_9", "late".to_string());
    assert!(!replaced);
    assert_eq!(history.messages().len(), 1);
    assert_eq!(history.messages()[0].role, Role::Tool);
    assert_eq!(history.messages()[0].tool_call_id.as_deref(), Some("tc_9"));
}

#[test]
fn invalid_tool_call_records_error_result() {
    let mut history = History::new("conversation.jsonl".to_string());
    history.record_tool_result(
        "call_bad_json".to_string(),
        "Invalid JSON in tool call arguments: expected value at line 1 column 1".to_string(),
    );
    assert_eq!(history.messages().len(), 1);
    let msg = &history.messages()[0];
    assert_eq!(msg.role, Role::Tool);
    assert_eq!(msg.tool_call_id.as_deref(), Some("call_bad_json"));
    assert!(msg.content.as_ref().unwrap().contains("Invalid JSON"));
}

#[test]
fn permission_denied_records_rejection_result() {
    let mut history = History::new("conversation.jsonl".to_string());
    history.record_tool_result(
        "call_denied".to_string(),
        "Tool 'run_command' denied by permission policy.".to_string(),
    );
    assert_eq!(history.messages().len(), 1);
    assert!(history.messages()[0].content.as_ref().unwrap().contains("denied"));
}

#[test]
fn approval_pending_then_approve_updates_result() {
    let mut history = History::new("conversation.jsonl".to_string());
    history.record_tool_result("call_approve".to_string(), "Pending user approval...".to_string());
    assert_eq!(history.messages()[0].content.as_deref(), Some("Pending user approval..."));
    history.update_tool_result("call_approve", "File written successfully.".to_string());
    assert_eq!(history.messages()[0].content.as_deref(), Some("File written successfully."));
}

#[test]
fn approval_pending_then_reject_updates_result() {
    let mut history = History::new("conversation.jsonl".to_string());
    history.record_tool_result("call_reject".to_string(), "Pending user approval...".to_string());
    history.update_tool_result("call_reject", "User rejected this operation. Feedback: too risky".to_string());
    assert!(history.messages()[0].content.as_ref().unwrap().contains("rejected"));
    assert!(history.messages()[0].content.as_ref().unwrap().contains("too risky"));
}

#[test]
fn batched_edit_single_approval_flow() {
    let mut history = History::new("conversation.jsonl".to_string());
    for id in ["tc_1", "tc_2", "tc_3"] {
        history.record_tool_result(id.to_string(), "Pending user approval...".to_string());
    }
    let result = "3 edits applied to a.rs";
    for id in ["tc_1", "tc_2", "tc_3"] {
        history.update_tool_result(id, result.to_string());
    }
    for msg in history.messages() {
        assert_eq!(msg.content.as_deref(), Some(result));
    }
}

#[test]
fn strip_context_basic() {
    assert_eq!(
        strip_baked_context(
            "[以下为系统上下文，不是用户的输入]\n当前时间：2026-05-22\n你的状态：精神饱满。\n\n[以下是用户的输入]\n感觉如何"
        ),
        "感觉如何"
    );
}

#[test]
fn no_double_newline_passthrough() {
    assert_eq!(strip_baked_context("普通消息"), "普通消息");
}

#[test]
fn empty_after_strip() {
    assert_eq!(
        strip_baked_context("[以下为系统上下文，不是用户的输入]\n上下文\n\n[以下是用户的输入]\n"),
        ""
    );
}

#[test]
fn clear_empties_history() {
    let mut history = History::new("conversation.jsonl".to_string());
    history.push(ChatMessage::user("hello"));
    history.clear();
    assert!(history.messages().is_empty());
}

#[test]
fn last_command_is_found() {
    let mut history = History::new("conversation.jsonl".to_string());
    history.record_assistant(
        None,
        None,
        Some(vec![call("c1", "run_command", r#"{"command":"ls"}"#)]),
        None,
    );
    history.record_assistant(None, None, Some(vec![call("c2", "read_file", r#"{"path":"a"}"#)]), None);
    assert_eq!(history.find_last_command_tc_id().as_deref(), Some("c1"));
}

#[test]
fn display_entries_strip_context_and_pair_results() {
    let mut history = History::new("conversation.jsonl".to_string());
    history.push(ChatMessage::system("sys".to_string()));
    history.push(ChatMessage::user("[以下为系统上下文，不是用户的输入]\nx\n\n[以下是用户的输入]\nhi"));
    history.record_assistant(Some("ok".to_string()), None, Some(vec![call("c1", "read_file", r#"{"path":"a.rs"}"#)]), None);
    history.record_tool_result("c1".to_string(), "contents".to_string());
    let entries = history.to_display_entries();
    assert_eq!(entries.len(), 3);
    match &entries[0] {
        angelica::agent::events::DisplayEntry::Chat { content, .. } => assert_eq!(content, "hi"),
        _ => panic!("expected chat"),
    }
    match &entries[2] {
        angelica::agent::events::DisplayEntry::Tool { call_id, result, .. } => {
            assert_eq!(call_id, "c1");
            assert_eq!(result.as_deref(), Some("contents"));
        }
        _ => panic!("expected tool"),
    }
}

#[test]
fn record_assistant_keeps_usage() {
    let mut history = History::new("conversation.jsonl".to_string());
    let usage = angelica::llm::usage_from_counts(Some(10), Some(5), Some(15), None, None);
    history.record_assistant(Some("hi".to_string()), None, None, Some(usage));
    assert_eq!(history.messages()[0].usage, Some(usage));
    assert_eq!(history.messages()[0].usage.unwrap().total_tokens, 15);
}
