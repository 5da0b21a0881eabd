use angelica::agent::events::{DisplayEntry, DisplayRole};
use angelica::llm::types::Role;
use angelica::tui::input::{char_to_byte, display_width_to_char_idx, InputBuffer};
use angelica::tui::settings::{
    centered_rect, compute_scroll, format_key, get_path, EditKey, ListKey, Rect, SettingsItem, SettingsState,
};
use angelica::tui::slash::{builtin_commands, MenuExit, SlashAction, SlashKey, SlashMenuState};
use angelica::tui::state::{ScrollState, TAIL_SENTINEL};
use angelica::tui::theme::logo_lines;
use angelica::tui::transcript::{DisplayMessage, ModeChange, Transcript, TranscriptEvent};
use angelica::tui::types::Verbosity;

fn entries_chat(count: usize) -> Vec<DisplayEntry> {
    (0..count)
        .map(|i| DisplayEntry::Chat {
            role: if i % 2 == 0 { DisplayRole::User } else { DisplayRole::Assistant },
            content: format!("msg {}", i),
            thinking: None,
        })
        .collect()
}

#[test]
fn undo_done_clears_and_rebuilds_messages() {
    let mut state = Transcript::new(Verbosity::Normal);
    state.add_chat(Role::User, "old", None);
    state.add_chat(Role::Assistant, "reply", None);
    assert_eq!(state.messages().len(), 2);
    let entries = entries_chat(4);
    state.handle_event(TranscriptEvent::UndoDone { entries });
    assert_eq!(state.messages().len(), 5);
    match &state.messages()[0] {
        DisplayMessage::Chat { role, content, .. } => {
            assert_eq!(*role, Role::User);
            assert_eq!(content, "msg 0");
        }
        _ => panic!("expected chat message"),
    }
    match &state.messages()[4] {
        DisplayMessage::Chat { role, content, .. } => {
            assert_eq!(*role, Role::System);
            assert_eq!(content, "Undone.");
        }
        _ => panic!("expected system message"),
    }
}

#[test]
fn undo_done_empty_entries_shows_only_system() {
    let mut state = Transcript::new(Verbosity::Normal);
    state.add_chat(Role::User, "gone", None);
    state.handle_event(TranscriptEvent::UndoDone { entries: vec![] });
    assert_eq!(state.messages().len(), 1);
    match &state.messages()[0] {
        DisplayMessage::Chat { role, content, .. } => {
            assert_eq!(*role, Role::System);
            assert_eq!(content, "Undone.");
        }
        _ => panic!("expected system message"),
    }
}

#[test]
fn undo_done_with_tool_entries() {
    let mut state = Transcript::new(Verbosity::Normal);
    let entries = vec![
        DisplayEntry::Chat {
            role: DisplayRole::User,
            content: "read foo".into(),
            thinking: None,
        },
        DisplayEntry::Tool {
            call_id: "tc_1".into(),
            name: "read_file".into(),
            args_display: "read foo.rs".into(),
            result: Some("contents".into()),
            diff_preview: None,
        },
        DisplayEntry::Chat {
            role: DisplayRole::Assistant,
            content: "here it is".into(),
            thinking: None,
        },
    ];
    state.handle_event(TranscriptEvent::UndoDone { entries });
    assert_eq!(state.messages().len(), 4);
    match &state.messages()[1] {
        DisplayMessage::Tool { name, result, .. } => {
            assert_eq!(name, "read_file");
            assert_eq!(result.as_deref(), Some("contents"));
        }
        _ => panic!("expected tool message"),
    }
}

#[test]
fn undo_done_resets_mode_to_chat() {
    let mut state = Transcript::new(Verbosity::Normal);
    state.handle_event(TranscriptEvent::TextDelta { delta: "x".into() });
    assert!(state.is_streaming());
    let change = state.handle_event(TranscriptEvent::UndoDone { entries: entries_chat(2) });
    assert!(!state.is_streaming());
    assert!(matches!(change, ModeChange::Chat));
}

#[test]
fn streamed_reply_becomes_a_message() {
    let mut state = Transcript::new(Verbosity::Normal);
    state.handle_event(TranscriptEvent::ThinkingDelta { delta: "hmm".into() });
    state.handle_event(TranscriptEvent::TextDelta { delta: "hel".into() });
    state.handle_event(TranscriptEvent::TextDelta { delta: "lo".into() });
    let change = state.handle_event(TranscriptEvent::TurnComplete);
    assert!(matches!(change, ModeChange::Chat));
    match &state.messages()[0] {
        DisplayMessage::Chat { role, content, thinking, .. } => {
            assert_eq!(*role, Role::Assistant);
            assert_eq!(content, "hello");
            assert_eq!(thinking.as_deref(), Some("hmm"));
        }
        _ => panic!("expected chat"),
    }
}

#[test]
fn tool_results_fill_their_call() {
    let mut state = Transcript::new(Verbosity::Verbose);
    state.handle_event(TranscriptEvent::ToolCalling {
        call_id: "c1".into(),
        name: "run_command".into(),
        display: "$ ls".into(),
    });
    state.handle_event(TranscriptEvent::ToolResult {
        call_id: "c1".into(),
        name: "run_command".into(),
        result: "a b".into(),
        diff_preview: None,
    });
    match &state.messages()[0] {
        DisplayMessage::Tool { result, collapsed, .. } => {
            assert_eq!(result.as_deref(), Some("a b"));
            assert!(!collapsed);
        }
        _ => panic!("expected tool"),
    }
    state.handle_event(TranscriptEvent::ToolCalling {
        call_id: "c2".into(),
        name: "read_file".into(),
        display: "read a".into(),
    });
    state.handle_event(TranscriptEvent::ToolRejected {
        call_id: "c2".into(),
        feedback: "no".into(),
    });
    match &state.messages()[1] {
        DisplayMessage::Tool { result, collapsed, .. } => {
            assert_eq!(result.as_deref(), Some("no"));
            assert!(collapsed);
        }
        _ => panic!("expected tool"),
    }
    state.toggle_last_collapsed();
    match &state.messages()[1] {
        DisplayMessage::Tool { collapsed, .. } => assert!(!collapsed),
        _ => panic!("expected tool"),
    }
}

#[test]
fn approval_with_diff_hides_the_call() {
    let mut state = Transcript::new(Verbosity::Normal);
    state.handle_event(TranscriptEvent::ToolCalling {
        call_id: "c1".into(),
        name: "edit_file".into(),
        display: "edit a".into(),
    });
    let change = state.handle_event(TranscriptEvent::ApprovalPending {
        call_id: "c1".into(),
        tool_name: "edit_file".into(),
        tool_target: Some("a.rs".into()),
        preview: "--- a\n+++ b".into(),
        tool_label: "\u{2192} edit b".into(),
        is_diff: true,
    });
    assert!(state.messages()[0].is_hidden());
    assert_eq!(state.messages().len(), 2);
    match change {
        ModeChange::Approval { call_id, tool_target, .. } => {
            assert_eq!(call_id, "c1");
            assert_eq!(tool_target.as_deref(), Some("a.rs"));
        }
        _ => panic!("expected approval mode"),
    }
    state.handle_event(TranscriptEvent::Error { message: "boom".into() });
    match &state.messages()[2] {
        DisplayMessage::Chat { content, .. } => assert_eq!(content, "Error: boom"),
        _ => panic!("expected chat"),
    }
}

#[test]
fn input_buffer_edits_by_characters() {
    let mut b = InputBuffer::new();
    for c in "héllo".chars() {
        b.insert(c);
    }
    b.move_left();
    b.backspace();
    assert_eq!(b.as_str(), "hélo");
    assert_eq!(b.cursor(), 3);
    b.move_home();
    b.delete();
    assert_eq!(b.as_str(), "élo");
    b.move_end();
    assert_eq!(b.cursor(), 3);
    b.set("祈芷".to_string());
    assert_eq!(b.display_cursor_col(), 4);
    b.clear();
    assert_eq!(b.as_str(), "");
}

#[test]
fn display_width_offsets() {
    assert_eq!(display_width_to_char_idx(0, "abc"), 0);
    assert_eq!(display_width_to_char_idx(2, "abc"), 2);
    assert_eq!(display_width_to_char_idx(2, "祈芷"), 3);
    assert_eq!(display_width_to_char_idx(9, "ab"), 2);
    let mut b = InputBuffer::new();
    b.set("祈a".to_string());
    assert_eq!(b.display_cursor_col(), 3);
}

#[test]
fn scrolling_clamps_and_follows_the_tail() {
    let mut s = ScrollState { offset: TAIL_SENTINEL, pending_delta: 0 };
    assert!(s.is_at_tail());
    s.up(5);
    s.apply_pending(100, 10);
    assert_eq!(s.offset, 85);
    s.down(100);
    s.apply_pending(100, 10);
    assert!(s.is_at_tail());
    s.up(3);
    s.apply_pending(5, 10);
    assert!(s.is_at_tail());
    s.offset = 3;
    s.to_bottom();
    assert!(s.is_at_tail());
}

#[test]
fn scrolling_up_and_down_cancel_out() {
    let mut s = ScrollState { offset: 7, pending_delta: 4 };
    s.up(9);
    assert_eq!(s.pending_delta, -5);
    s.down(9);
    assert_eq!(s.pending_delta, 4);
    s.down(2);
    s.down(3);
    let mut t = ScrollState { offset: 7, pending_delta: 4 };
    t.down(5);
    assert_eq!(s.pending_delta, t.pending_delta);
    assert_eq!(s.offset, 7);
    let mut w = ScrollState { offset: 0, pending_delta: 0 };
    w.down(((1u64 << 32) + 2) as usize);
    assert_eq!(w.pending_delta, 2);
}

#[test]
fn selected_command_is_the_whole_builtin_entry() {
    let mut menu = SlashMenuState::new();
    assert!(menu.selected_cmd().is_none());
    menu.update_matches("/he");
    let c = menu.selected_cmd().unwrap();
    assert_eq!(c.name, "help");
    assert_eq!(c.aliases, vec!["?".to_string()]);
    assert_eq!(c.description, "Show available commands");
    let all = builtin_commands();
    assert_eq!(all[9].aliases, vec!["set".to_string(), "config".to_string()]);
    assert_eq!(all[9].description, "Open settings panel");
}

#[test]
fn slash_menu_filters_and_runs() {
    let mut menu = SlashMenuState::new();
    let mut input = InputBuffer::new();
    input.set("/".to_string());
    menu.update_matches(input.as_str());
    assert_eq!(menu.matched.len(), builtin_commands().len());
    let (_, exit) = menu.handle_key(&mut input, SlashKey::Char('s'));
    assert_eq!(exit, MenuExit::Stay);
    assert_eq!(menu.filter, "s");
    assert_eq!(menu.matched, vec![6usize, 8, 9]);
    let (action, exit) = menu.handle_key(&mut input, SlashKey::Down);
    assert!(matches!(action, SlashAction::NoAction));
    assert_eq!(exit, MenuExit::Stay);
    let (action, exit) = menu.handle_key(&mut input, SlashKey::Enter);
    match action {
        SlashAction::ExecuteCommand(name) => assert_eq!(name, "usage"),
        _ => panic!("expected a command"),
    }
    assert_eq!(exit, MenuExit::Run);
    assert_eq!(input.as_str(), "");
}

#[test]
fn slash_backspace_to_slash_leaves() {
    let mut menu = SlashMenuState::new();
    let mut input = InputBuffer::new();
    input.set("/h".to_string());
    menu.update_matches(input.as_str());
    let (_, exit) = menu.handle_key(&mut input, SlashKey::Backspace);
    assert_eq!(exit, MenuExit::Leave);
    assert_eq!(input.as_str(), "");
    let (_, exit) = menu.handle_key(&mut input, SlashKey::Esc);
    assert_eq!(exit, MenuExit::Leave);
}

#[test]
fn slash_tab_completes() {
    let mut menu = SlashMenuState::new();
    let mut input = InputBuffer::new();
    input.set("/qu".to_string());
    menu.update_matches(input.as_str());
    menu.handle_key(&mut input, SlashKey::Tab);
    assert_eq!(input.as_str(), "/quit");
}

#[test]
fn verbosity_cycles() {
    assert_eq!(Verbosity::Normal.cycle(), Verbosity::Verbose);
    assert_eq!(Verbosity::Verbose.cycle().cycle(), Verbosity::Normal);
    assert_eq!(Verbosity::Trace.label(), "trace");
    assert!(!logo_lines().is_empty());
}

fn entry(path: &str, value: &str, editable: bool) -> SettingsItem {
    SettingsItem::Entry {
        path: path.to_string(),
        key: format_key(path, "llm"),
        value: value.to_string(),
        original: value.to_string(),
        editable,
    }
}

#[test]
fn settings_edit_and_reset() {
    let items = vec![
        SettingsItem::Section { title: "llm".to_string() },
        entry("llm.max_iterations", "10", true),
        entry("llm.providers[0].model", "x", false),
    ];
    let mut s = SettingsState::new(items);
    s.handle_list_key(ListKey::Down);
    assert_eq!(s.selected(), 1);
    s.handle_list_key(ListKey::Enter);
    assert!(s.is_editing());
    assert_eq!(s.edit_text(), "10");
    s.handle_edit_key(EditKey::Backspace);
    s.handle_edit_key(EditKey::Char('5'));
    let change = s.handle_edit_key(EditKey::Enter);
    assert_eq!(change, Some(("llm.max_iterations".to_string(), "15".to_string())));
    assert!(s.is_dirty());
    assert!(!s.is_editing());
    let reset = s.handle_list_key(ListKey::Reset);
    assert_eq!(reset, Some(("llm.max_iterations".to_string(), "10".to_string())));
    s.handle_list_key(ListKey::PageDown);
    assert_eq!(s.selected(), 2);
    s.handle_list_key(ListKey::Enter);
    assert!(!s.is_editing());
    s.handle_list_key(ListKey::PageUp);
    assert_eq!(s.selected(), 0);
}

#[test]
fn settings_keys_and_layout() {
    assert_eq!(format_key("llm.max_iterations", "llm"), "max_iterations");
    assert_eq!(format_key("llm.providers[0].model", "llm"), "[0].model");
    assert_eq!(format_key("llm.a[0].b[1].c", "llm"), "[1].c");
    assert_eq!(format_key("memory.x", "llm"), "memory.x");
    assert_eq!(compute_scroll(0, 5, 10, 30), 0);
    assert_eq!(compute_scroll(20, 0, 10, 30), 11);
    assert_eq!(compute_scroll(3, 0, 10, 30), 0);
    let r = centered_rect(Rect { x: 0, y: 0, width: 100, height: 40 }, 80, 85);
    assert_eq!(r, Rect { x: 10, y: 3, width: 80, height: 34 });
}

#[test]
fn char_offsets_and_paths() {
    assert_eq!(char_to_byte(1, "祈芷a"), 3);
    assert_eq!(char_to_byte(2, "祈芷a"), 6);
    assert_eq!(char_to_byte(9, "祈芷a"), 7);
    assert_eq!(get_path(&entry("llm.max_iterations", "10", true)), "llm.max_iterations");
    assert_eq!(get_path(&SettingsItem::Section { title: "llm".to_string() }), "");
}
