use angelica::agent::dispatch::ProcessOutcome;
use angelica::agent::group::{GroupedEdit, PendingApproval, ToolCallGroup};
use angelica::agent::history::{strip_baked_context, History};
use angelica::agent::process::{
    approve_pending, process_batched_edits, process_single_call, record_model_reply, ApprovedWork,
    BatchStep, CallStep,
};
use angelica::agent::turn::{build_turn_messages, reject_pending, ModePolicy, StepAction, TurnState};
use angelica::agent::user_turn::{build_user_turn_content, push_user_message, turn_context_now, TurnContext};
use angelica::llm::types::{ChatMessage, FunctionCall, Role, ToolCall};
use angelica::permission::{PermissionAction, PermissionEvaluator, TargetRule};

fn call(id: &str, name: &str, arguments: &str) -> ToolCall {
    ToolCall {
        id: id.to_string(),
        function: FunctionCall {
            name: name.to_string(),
            arguments: arguments.to_string(),
        },
    }
}

fn evaluator(tool: &str, action: PermissionAction) -> PermissionEvaluator {
    PermissionEvaluator::new(
        PermissionAction::Ask,
        vec![(
            tool.to_string(),
            vec![TargetRule {
                target: "*".to_string(),
                action,
            }],
        )],
        vec![],
    )
}

fn ctx(time: &str, fatigue: &str, turns: u32, tool_calls: u32, dream: bool, recall: Option<&str>) -> TurnContext {
    TurnContext {
        time: time.to_string(),
        fatigue_desc: fatigue.to_string(),
        turns,
        tool_calls,
        woke_from_dream: dream,
        recall: recall.map(|r| r.to_string()),
    }
}

#[test]
fn user_turn_content_layout() {
    let c = ctx("2026-05-22 10:00", "精神饱满。", 0, 0, false, None);
    assert_eq!(
        build_user_turn_content(&c, "感觉如何"),
        "[以下为系统上下文，不是用户的输入]\n当前时间：2026-05-22 10:00\n你的状态：精神饱满。\n\n[以下是用户的输入]\n感觉如何"
    );
    let c = ctx("t", "", 12, 3, true, Some("旧事"));
    assert_eq!(
        build_user_turn_content(&c, "hi"),
        "[以下为系统上下文，不是用户的输入]\n当前时间：t\n本轮已对话 12 轮，使用了 3 次工具\n你刚从梦中醒来，梦中的感受还隐约残留。\n唤起的记忆：\n旧事\n\n[以下是用户的输入]\nhi"
    );
}

#[test]
fn stripping_a_built_turn_gives_the_input_back() {
    let c = ctx("2026-05-22 10:00", "有点累", 4, 9, true, Some("记忆"));
    let built = build_user_turn_content(&c, "  你好\n世界");
    assert_eq!(strip_baked_context(&built), "你好\n世界");
}

#[test]
fn pushed_user_message_is_marked_dirty() {
    let mut history = History::new("c.jsonl".to_string());
    let mut turn = TurnState::new();
    let c = turn_context_now(String::new(), 0, 0, false, None);
    push_user_message(&mut history, &mut turn, &c, "hello");
    assert!(turn.is_dirty());
    let m = &history.messages()[0];
    assert_eq!(m.role, Role::User);
    assert_eq!(m.name.as_deref(), Some("user"));
    assert_eq!(strip_baked_context(m.content.as_deref().unwrap()), "hello");
}

#[test]
fn steps_follow_queue_then_limit() {
    let mut turn = TurnState::new();
    assert!(matches!(turn.next_step(2), StepAction::RequestModel));
    let more = turn.on_model_reply(Some(vec![call("a", "read_file", "{}"), call("b", "run_command", "{}")]), true);
    assert!(more);
    assert_eq!(turn.iteration(), 1);
    assert_eq!(turn.queue_len(), 2);
    match turn.next_step(2) {
        StepAction::Dispatch(ToolCallGroup::Single { tc }) => assert_eq!(tc.id, "a"),
        _ => panic!("expected the first call"),
    }
    assert!(matches!(turn.next_step(2), StepAction::Dispatch(_)));
    assert!(matches!(turn.next_step(2), StepAction::RequestModel));
    assert!(!turn.on_model_reply(None, true));
    assert!(matches!(turn.next_step(2), StepAction::LimitReached));
    turn.reset_iteration();
    assert_eq!(turn.iteration(), 0);
    assert!(turn.take_dirty());
    assert!(!turn.is_dirty());
}

#[test]
fn mode_limits() {
    assert_eq!(ModePolicy::awake().max_iterations_or(10), 10);
    assert_eq!(ModePolicy::sleeping().max_iterations_or(99), 10);
    assert!(ModePolicy::sleeping().skip_permissions);
}

#[test]
fn invalid_arguments_are_reported() {
    let mut turn = TurnState::new();
    let mut history = History::new("c.jsonl".to_string());
    let perms = evaluator("run_command", PermissionAction::Allow);
    let (outcome, step) = process_single_call(
        &mut turn,
        &mut history,
        &ModePolicy::awake(),
        &perms,
        call("call_bad_json", "run_command", "not json"),
        None,
        None,
    );
    assert_eq!(outcome, ProcessOutcome::Continue);
    match step {
        CallStep::Report { result, .. } => assert!(result.starts_with("Invalid JSON in tool call arguments: ")),
        _ => panic!("expected a report"),
    }
    assert_eq!(history.messages().len(), 1);
    assert_eq!(history.messages()[0].tool_call_id.as_deref(), Some("call_bad_json"));
}

#[test]
fn denied_call_is_settled() {
    let mut turn = TurnState::new();
    let mut history = History::new("c.jsonl".to_string());
    let perms = evaluator("run_command", PermissionAction::Deny);
    let (outcome, step) = process_single_call(
        &mut turn,
        &mut history,
        &ModePolicy::awake(),
        &perms,
        call("c1", "run_command", r#"{"command":"rm -rf /"}"#),
        Some("rm -rf /".to_string()),
        None,
    );
    assert_eq!(outcome, ProcessOutcome::Continue);
    match step {
        CallStep::Report { result, .. } => assert_eq!(result, "Tool 'run_command' denied by permission policy."),
        _ => panic!("expected a report"),
    }
    assert_eq!(
        history.messages()[0].content.as_deref(),
        Some("Tool 'run_command' denied by permission policy.")
    );
}

#[test]
fn allowed_call_runs_without_recording() {
    let mut turn = TurnState::new();
    let mut history = History::new("c.jsonl".to_string());
    let perms = evaluator("read_file", PermissionAction::Allow);
    let (outcome, step) = process_single_call(
        &mut turn,
        &mut history,
        &ModePolicy::awake(),
        &perms,
        call("c1", "read_file", r#"{"path":"a"}"#),
        Some("a".to_string()),
        Some(Ok(Some("--- a".to_string()))),
    );
    assert_eq!(outcome, ProcessOutcome::Continue);
    match step {
        CallStep::Execute { call_id, diff_preview, .. } => {
            assert_eq!(call_id, "c1");
            assert_eq!(diff_preview.as_deref(), Some("--- a"));
        }
        _ => panic!("expected execution"),
    }
    assert!(history.messages().is_empty());
}

#[test]
fn asked_call_waits_then_is_approved() {
    let mut turn = TurnState::new();
    let mut history = History::new("c.jsonl".to_string());
    let perms = evaluator("run_command", PermissionAction::Ask);
    let (outcome, step) = process_single_call(
        &mut turn,
        &mut history,
        &ModePolicy::awake(),
        &perms,
        call("call_approve", "run_command", r#"{"command":"ls"}"#),
        Some("ls".to_string()),
        None,
    );
    assert_eq!(outcome, ProcessOutcome::NeedApproval);
    match step {
        CallStep::Approval { preview, tool_label, is_diff, .. } => {
            assert_eq!(preview, "$ ls");
            assert_eq!(tool_label, "\u{2192} $ ls");
            assert!(!is_diff);
        }
        _ => panic!("expected an approval request"),
    }
    assert!(turn.has_pending());
    assert_eq!(history.messages()[0].content.as_deref(), Some("Pending user approval..."));
    let approved = approve_pending(&mut turn).unwrap();
    assert!(!turn.has_pending());
    assert_eq!(approved.call_ids, vec!["call_approve".to_string()]);
    assert_eq!(approved.display, "$ ls");
    match approved.work {
        ApprovedWork::Single { arguments } => assert_eq!(arguments, r#"{"command":"ls"}"#),
        _ => panic!("expected a single call"),
    }
    angelica::agent::turn::record_decided_results(&mut history, &approved.call_ids, "done", true);
    assert_eq!(history.messages().len(), 1);
    assert_eq!(history.messages()[0].content.as_deref(), Some("done"));
    assert!(approve_pending(&mut turn).is_none());
}

#[test]
fn asked_call_is_rejected_with_feedback() {
    let mut turn = TurnState::new();
    let mut history = History::new("c.jsonl".to_string());
    let perms = evaluator("run_command", PermissionAction::Ask);
    process_single_call(
        &mut turn,
        &mut history,
        &ModePolicy::awake(),
        &perms,
        call("call_reject", "run_command", r#"{"command":"ls"}"#),
        None,
        None,
    );
    let (ids, msg) = reject_pending(&mut turn, &mut history, "too risky", true).unwrap();
    assert_eq!(ids, vec!["call_reject".to_string()]);
    assert_eq!(msg, "User rejected this operation. Feedback: too risky");
    assert_eq!(history.messages().len(), 1);
    assert_eq!(history.messages()[0].content.as_deref(), Some("User rejected this operation. Feedback: too risky"));
    assert!(reject_pending(&mut turn, &mut history, "", true).is_none());
}

fn edits(ids: &[&str]) -> Vec<GroupedEdit> {
    ids.iter()
        .map(|id| GroupedEdit {
            tc_id: id.to_string(),
            search: format!("s{}", id),
            replace: format!("r{}", id),
        })
        .collect()
}

#[test]
fn batch_waits_for_one_approval() {
    let mut turn = TurnState::new();
    let mut history = History::new("c.jsonl".to_string());
    let perms = evaluator("edit_file", PermissionAction::Ask);
    let (outcome, step) = process_batched_edits(
        &mut turn,
        &mut history,
        &ModePolicy::awake(),
        &perms,
        "a.rs".to_string(),
        edits(&["tc_1", "tc_2", "tc_3"]),
        Ok("--- a.rs\n+++ a.rs\n-x\n+y".to_string()),
    );
    assert_eq!(outcome, ProcessOutcome::NeedApproval);
    match step {
        BatchStep::Approval { call_id, is_diff, .. } => {
            assert_eq!(call_id, "tc_1");
            assert!(is_diff);
        }
        _ => panic!("expected an approval request"),
    }
    assert_eq!(history.messages().len(), 3);
    match approve_pending(&mut turn).unwrap().work {
        ApprovedWork::Batch { path, edits } => {
            assert_eq!(path, "a.rs");
            assert_eq!(edits.len(), 3);
            assert_eq!(edits[1], ("stc_2".to_string(), "rtc_2".to_string()));
        }
        _ => panic!("expected a batch"),
    }
}

#[test]
fn batch_denied_and_allowed() {
    let mut turn = TurnState::new();
    let mut history = History::new("c.jsonl".to_string());
    let denied = evaluator("edit_file", PermissionAction::Deny);
    let (_, step) = process_batched_edits(
        &mut turn,
        &mut history,
        &ModePolicy::awake(),
        &denied,
        "a.rs".to_string(),
        edits(&["1", "2"]),
        Err("no".to_string()),
    );
    assert!(matches!(step, BatchStep::Report { .. }));
    assert_eq!(history.messages().len(), 2);
    let mut history = History::new("c.jsonl".to_string());
    let (_, step) = process_batched_edits(
        &mut turn,
        &mut history,
        &ModePolicy::sleeping(),
        &denied,
        "a.rs".to_string(),
        edits(&["1"]),
        Err("no".to_string()),
    );
    match step {
        BatchStep::Execute { display_args, diff_preview, .. } => {
            assert_eq!(display_args, r#"{"count":1,"path":"a.rs"}"#);
            assert!(diff_preview.is_none());
        }
        _ => panic!("expected execution"),
    }
    assert!(history.messages().is_empty());
}

#[test]
fn model_reply_is_recorded_and_queued() {
    let mut turn = TurnState::new();
    let mut history = History::new("c.jsonl".to_string());
    let more = record_model_reply(
        &mut turn,
        &mut history,
        &ModePolicy::awake(),
        Some("text".to_string()),
        Some("why".to_string()),
        Some(vec![call("a", "read_file", "{}")]),
        None,
    );
    assert!(more);
    assert_eq!(turn.queue_len(), 1);
    assert_eq!(history.messages()[0].reasoning_content.as_deref(), Some("why"));
}

#[test]
fn turn_messages_lead_with_the_system_prompt() {
    let mut history = History::new("c.jsonl".to_string());
    history.push(ChatMessage::user("hi"));
    let msgs = build_turn_messages(&history, true, ChatMessage::system("S".to_string()));
    assert_eq!(msgs.len(), 2);
    assert_eq!(msgs[0].role, Role::System);
    let only = build_turn_messages(&history, false, ChatMessage::system("S".to_string()));
    assert_eq!(only.len(), 1);
    history.push(ChatMessage::system("S0".to_string()));
    let msgs = build_turn_messages(&history, true, ChatMessage::system("S".to_string()));
    assert_eq!(msgs.len(), 2);
    assert_eq!(msgs[1].content.as_deref(), Some("S0"));
}

#[test]
fn pending_is_taken_once() {
    let mut turn = TurnState::new();
    turn.await_approval(PendingApproval::Single {
        tc_ids: vec!["c".to_string()],
        tool_name: "t".to_string(),
        args: "{}".to_string(),
        display_args: "{}".to_string(),
        preview: None,
    });
    assert!(turn.take_pending().is_some());
    assert!(turn.take_pending().is_none());
}
