use angelica::agent::group::{group_tool_calls, ToolCallGroup};
use angelica::agent::history::History;
use angelica::agent::turn::record_decided_results;
use angelica::llm::types::{FunctionCall, ToolCall};
use angelica::tui::input::InputBuffer;
use angelica::tui::types::Verbosity;

fn call(id: &str, name: &str, arguments: &str) -> ToolCall {
    ToolCall {
        id: id.to_string(),
        function: FunctionCall { name: name.to_string(), arguments: arguments.to_string() },
    }
}

#[test]
fn grouping_keeps_every_call_in_order() {
    let calls = vec![
        call("a", "edit_file", r#"{"path":"x","search":"1","replace":"2"}"#),
        call("b", "read_file", r#"{"path":"x"}"#),
        call("c", "edit_file", r#"{"path":"x","search":"3","replace":"4"}"#),
        call("d", "edit_file", r#"{"path":"x","search":"5","replace":"6"}"#),
    ];
    let mut ids: Vec<String> = Vec::new();
    for g in group_tool_calls(calls) {
        match g {
            ToolCallGroup::Single { tc } => ids.push(tc.id),
            ToolCallGroup::BatchedEdits { edits, .. } => ids.extend(edits.into_iter().map(|e| e.tc_id)),
        }
    }
    assert_eq!(ids, vec!["a", "b", "c", "d"]);
}

#[test]
fn every_decided_call_reads_the_decision() {
    let mut history = History::new("c.jsonl".to_string());
    for id in ["t1", "t2"] {
        history.record_tool_result(id.to_string(), "Pending user approval...".to_string());
    }
    let ids = vec!["t1".to_string(), "t2".to_string(), "t3".to_string()];
    let replaced = record_decided_results(&mut history, &ids, "done", true);
    assert_eq!(replaced, 2);
    assert_eq!(history.messages().len(), 3);
    for m in history.messages() {
        assert_eq!(m.content.as_deref(), Some("done"));
    }
    let untouched = record_decided_results(&mut history, &ids, "again", false);
    assert_eq!(untouched, 0);
    assert_eq!(history.messages()[0].content.as_deref(), Some("done"));
}

#[test]
fn backspace_undoes_typing() {
    let mut b = InputBuffer::new();
    b.set("abc".to_string());
    b.move_left();
    b.insert('Z');
    assert_eq!(b.as_str(), "abZc");
    b.backspace();
    assert_eq!(b.as_str(), "abc");
    assert_eq!(b.cursor(), 2);
}

#[test]
fn verbosity_comes_back_after_three_steps() {
    for v in [Verbosity::Normal, Verbosity::Verbose, Verbosity::Trace] {
        assert_eq!(v.cycle().cycle().cycle(), v);
        assert_ne!(v.cycle(), v);
    }
}
