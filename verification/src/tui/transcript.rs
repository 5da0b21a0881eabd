use vstd::prelude::*;

use crate::agent::events::{DisplayEntry, DisplayRole};
use crate::agent::history::opt_view;
use crate::llm::types::Role;
use crate::text::{append_str, chars_of, str_equal, string_of};
use crate::tui::types::Verbosity;

verus! {

/// A message of the terminal's transcript.
#[derive(Debug)]
pub enum DisplayMessage {
    Chat { role: Role, content: String, thinking: Option<String>, collapsed: bool, hidden: bool },
    Tool {
        call_id: String,
        name: String,
        args_display: String,
        result: Option<String>,
        diff_preview: Option<String>,
        collapsed: bool,
        hidden: bool,
    },
    Diff { content: String, hidden: bool },
}

pub enum MsgView {
    Chat { role: Role, content: Seq<char>, thinking: Option<Seq<char>>, collapsed: bool, hidden: bool },
    Tool {
        call_id: Seq<char>,
        name: Seq<char>,
        args_display: Seq<char>,
        result: Option<Seq<char>>,
        diff_preview: Option<Seq<char>>,
        collapsed: bool,
        hidden: bool,
    },
    Diff { content: Seq<char>, hidden: bool },
}

impl DisplayMessage {
    pub open spec fn view_spec(&self) -> MsgView {
        match self {
            DisplayMessage::Chat { role, content, thinking, collapsed, hidden } => MsgView::Chat {
                role: *role,
                content: content@,
                thinking: opt_view(*thinking),
                collapsed: *collapsed,
                hidden: *hidden,
            },
            DisplayMessage::Tool { call_id, name, args_display, result, diff_preview, collapsed, hidden } => MsgView::Tool {
                call_id: call_id@,
                name: name@,
                args_display: args_display@,
                result: opt_view(*result),
                diff_preview: opt_view(*diff_preview),
                collapsed: *collapsed,
                hidden: *hidden,
            },
            DisplayMessage::Diff { content, hidden } => MsgView::Diff { content: content@, hidden: *hidden },
        }
    }

    pub fn is_hidden(&self) -> (r: bool)
        ensures
            r == match self.view_spec() {
                MsgView::Chat { hidden, .. } => hidden,
                MsgView::Tool { hidden, .. } => hidden,
                MsgView::Diff { hidden, .. } => hidden,
            },
    {
        match self {
            DisplayMessage::Chat { hidden, .. } => *hidden,
            DisplayMessage::Tool { hidden, .. } => *hidden,
            DisplayMessage::Diff { hidden, .. } => *hidden,
        }
    }
}

pub open spec fn msg_views(v: Seq<DisplayMessage>) -> Seq<MsgView> {
    v.map_values(|m: DisplayMessage| m.view_spec())
}

/// Tools whose results stay folded at the verbose level.
pub open spec fn is_quiet_tool(name: Seq<char>) -> bool {
    name == "read_file"@ || name == "list_dir"@ || name == "edit_soul"@ || name == "edit_memory"@ || name
        == "edit_profile"@
}

/// Whether a tool's result is shown unfolded at this verbosity.
pub open spec fn shows_tool_result(v: Verbosity, name: Seq<char>) -> bool {
    match v {
        Verbosity::Trace => true,
        Verbosity::Verbose => !is_quiet_tool(name),
        Verbosity::Normal => false,
    }
}

pub fn should_show_tool_result(verbosity: Verbosity, tool_name: &str) -> (r: bool)
    ensures
        r == shows_tool_result(verbosity, tool_name@),
{
    match verbosity {
        Verbosity::Trace => true,
        Verbosity::Verbose => !(str_equal(tool_name, "read_file") || str_equal(tool_name, "list_dir")
            || str_equal(tool_name, "edit_soul") || str_equal(tool_name, "edit_memory") || str_equal(
            tool_name,
            "edit_profile",
        )),
        Verbosity::Normal => false,
    }
}

/// The last tool message of call `id` at or before `i`.
pub open spec fn last_tool_msg(ms: Seq<MsgView>, id: Seq<char>, i: int) -> Option<int>
    decreases i + 1,
{
    if i < 0 {
        None
    } else if ms[i] matches MsgView::Tool { call_id, .. } && call_id == id {
        Some(i)
    } else {
        last_tool_msg(ms, id, i - 1)
    }
}

pub proof fn lemma_last_tool_msg(ms: Seq<MsgView>, id: Seq<char>, i: int)
    requires
        i < ms.len(),
    ensures
        last_tool_msg(ms, id, i) matches Some(k) ==> 0 <= k <= i && (ms[k] matches MsgView::Tool { call_id, .. }
            && call_id == id),
    decreases i + 1,
{
    if i >= 0 {
        lemma_last_tool_msg(ms, id, i - 1);
    }
}

/// The transcript as a settled tool result leaves it.
pub open spec fn tool_completed(ms: Seq<MsgView>, id: Seq<char>, result: Seq<char>, dp: Option<Seq<char>>, collapsed: bool) -> Seq<MsgView> {
    match last_tool_msg(ms, id, ms.len() - 1) {
        Some(i) => match ms[i] {
            MsgView::Tool { call_id, name, args_display, .. } => ms.update(
                i,
                MsgView::Tool {
                    call_id,
                    name,
                    args_display,
                    result: Some(result),
                    diff_preview: dp,
                    collapsed,
                    hidden: false,
                },
            ),
            _ => ms,
        },
        None => ms,
    }
}

/// The chat message that a role and text make.
pub open spec fn chat_view(role: Role, content: Seq<char>, thinking: Option<Seq<char>>) -> MsgView {
    MsgView::Chat { role, content, thinking, collapsed: false, hidden: false }
}

/// How the terminal's mode changes after an event.
#[derive(Debug)]
pub enum ModeChange {
    Keep,
    Streaming,
    Chat,
    Approval { call_id: String, tool_name: String, tool_label: String, tool_target: Option<String> },
}

/// An event of the agent that changes the transcript.
#[derive(Debug)]
pub enum TranscriptEvent {
    ThinkingDelta { delta: String },
    TextDelta { delta: String },
    TextDone { full_text: String },
    TurnComplete,
    ToolResult { call_id: String, name: String, result: String, diff_preview: Option<String> },
    ToolCalling { call_id: String, name: String, display: String },
    ApprovalPending {
        call_id: String,
        tool_name: String,
        tool_target: Option<String>,
        preview: String,
        tool_label: String,
        is_diff: bool,
    },
    ToolRejected { call_id: String, feedback: String },
    Error { message: String },
    FallingAsleep,
    Sleeping,
    WakingUp,
    UndoDone { entries: Vec<DisplayEntry> },
}

/// The terminal's transcript: the messages shown, the reply being
/// streamed (its thinking and its text), and the verbosity.
pub struct Transcript {
    messages: Vec<DisplayMessage>,
    thinking_buffer: String,
    text_buffer: String,
    is_streaming: bool,
    verbosity: Verbosity,
}

pub struct TranscriptView {
    pub messages: Seq<MsgView>,
    pub thinking: Seq<char>,
    pub text: Seq<char>,
    pub streaming: bool,
    pub verbosity: Verbosity,
}

impl View for Transcript {
    type V = TranscriptView;

    closed spec fn view(&self) -> TranscriptView {
        TranscriptView {
            messages: msg_views(self.messages@),
            thinking: self.thinking_buffer@,
            text: self.text_buffer@,
            streaming: self.is_streaming,
            verbosity: self.verbosity,
        }
    }
}

/// What a chat entry of the history becomes on screen.
pub open spec fn entry_message(e: DisplayEntry, v: Verbosity) -> MsgView {
    match e {
        DisplayEntry::Chat { role, content, thinking } => chat_view(
            match role {
                DisplayRole::User => Role::User,
                DisplayRole::Assistant => Role::Assistant,
                DisplayRole::System => Role::System,
            },
            content@,
            opt_view(thinking),
        ),
        DisplayEntry::Tool { call_id, name, args_display, result, diff_preview } => MsgView::Tool {
            call_id: call_id@,
            name: name@,
            args_display: args_display@,
            result: opt_view(result),
            diff_preview: opt_view(diff_preview),
            collapsed: !shows_tool_result(v, name@),
            hidden: false,
        },
    }
}

/// The reply streamed so far, as a message: its text, with its thinking when there is any.
pub open spec fn streamed_message(t: TranscriptView) -> MsgView {
    chat_view(Role::Assistant, t.text, if t.thinking.len() == 0 { None } else { Some(t.thinking) })
}

/// The messages after the streamed reply (if any) is kept as a message.
pub open spec fn flushed(t: TranscriptView) -> Seq<MsgView> {
    if t.text.len() > 0 || t.thinking.len() > 0 {
        t.messages.push(streamed_message(t))
    } else {
        t.messages
    }
}

impl Transcript {
    pub fn new(verbosity: Verbosity) -> (r: Self)
        ensures
            r@.messages.len() == 0,
            r@.thinking.len() == 0,
            r@.text.len() == 0,
            !r@.streaming,
            r@.verbosity == verbosity,
    {
        let r = Transcript {
            messages: Vec::new(),
            thinking_buffer: String::new(),
            text_buffer: String::new(),
            is_streaming: false,
            verbosity,
        };
        assert(r@.messages =~= Seq::<MsgView>::empty());
        r
    }

    pub fn messages(&self) -> (r: &Vec<DisplayMessage>)
        ensures
            msg_views(r@) == self@.messages,
    {
        &self.messages
    }

    /// The reply's text streamed so far.
    pub fn streaming_text(&self) -> (r: &str)
        ensures
            r@ == self@.text,
    {
        self.text_buffer.as_str()
    }

    /// The reply's reasoning streamed so far.
    pub fn streaming_thinking(&self) -> (r: &str)
        ensures
            r@ == self@.thinking,
    {
        self.thinking_buffer.as_str()
    }

    pub fn is_streaming(&self) -> (r: bool)
        ensures
            r == self@.streaming,
    {
        self.is_streaming
    }

    pub fn verbosity(&self) -> (r: Verbosity)
        ensures
            r == self@.verbosity,
    {
        self.verbosity
    }

    pub fn set_verbosity(&mut self, v: Verbosity)
        ensures
            final(self)@ == (TranscriptView { verbosity: v, ..old(self)@ }),
    {
        self.verbosity = v;
    }

    /// Appends a chat message.
    pub fn add_chat(&mut self, role: Role, content: &str, thinking: Option<String>)
        ensures
            final(self)@ == (TranscriptView {
                messages: old(self)@.messages.push(chat_view(role, content@, opt_view(thinking))),
                ..old(self)@
            }),
    {
        let ghost before = self.messages@;
        let m = DisplayMessage::Chat {
            role,
            content: String::from_str(content),
            thinking,
            collapsed: false,
            hidden: false,
        };
        self.messages.push(m);
        assert(msg_views(self.messages@) =~= msg_views(before).push(m.view_spec()));
    }

    /// Appends a tool call that has no result yet (folded).
    pub fn add_tool_call(&mut self, call_id: String, name: String, args_display: String)
        ensures
            final(self)@ == (TranscriptView {
                messages: old(self)@.messages.push(
                    MsgView::Tool {
                        call_id: call_id@,
                        name: name@,
                        args_display: args_display@,
                        result: None,
                        diff_preview: None,
                        collapsed: true,
                        hidden: false,
                    },
                ),
                ..old(self)@
            }),
    {
        let ghost before = self.messages@;
        let m = DisplayMessage::Tool {
            call_id,
            name,
            args_display,
            result: None,
            diff_preview: None,
            collapsed: true,
            hidden: false,
        };
        self.messages.push(m);
        assert(msg_views(self.messages@) =~= msg_views(before).push(m.view_spec()));
    }

    /// Appends a diff.
    pub fn add_diff(&mut self, content: String)
        ensures
            final(self)@ == (TranscriptView {
                messages: old(self)@.messages.push(MsgView::Diff { content: content@, hidden: false }),
                ..old(self)@
            }),
    {
        let ghost before = self.messages@;
        let m = DisplayMessage::Diff { content, hidden: false };
        self.messages.push(m);
        assert(msg_views(self.messages@) =~= msg_views(before).push(m.view_spec()));
    }

    fn find_tool(&self, call_id: &str) -> (r: Option<usize>)
        ensures
            match r {
                Some(i) => last_tool_msg(self@.messages, call_id@, self@.messages.len() - 1) == Some(i as int),
                None => last_tool_msg(self@.messages, call_id@, self@.messages.len() - 1) is None,
            },
    {
        let mut i: usize = self.messages.len();
        while i > 0
            invariant
                i <= self.messages.len(),
                last_tool_msg(self@.messages, call_id@, self@.messages.len() - 1) == last_tool_msg(
                    self@.messages,
                    call_id@,
                    i - 1,
                ),
            decreases i,
        {
            let hit = match &self.messages[i - 1] {
                DisplayMessage::Tool { call_id: cid, .. } => str_equal(cid.as_str(), call_id),
                _ => false,
            };
            if hit {
                return Some(i - 1);
            }
            i = i - 1;
        }
        None
    }

    /// Gives the latest message of call `call_id` its result.
    pub fn complete_tool(&mut self, call_id: &str, result: String, diff_preview: Option<String>, force_collapsed: bool)
        ensures
            final(self)@ == (TranscriptView {
                messages: tool_completed(old(self)@.messages, call_id@, result@, opt_view(diff_preview), force_collapsed),
                ..old(self)@
            }),
    {
        match self.find_tool(call_id) {
            Some(i) => {
                proof {
                    lemma_last_tool_msg(self@.messages, call_id@, self@.messages.len() - 1);
                }
                let ghost before = self.messages@;
                let m = self.messages.remove(i);
                let updated = match m {
                    DisplayMessage::Tool { call_id, name, args_display, .. } => DisplayMessage::Tool {
                        call_id,
                        name,
                        args_display,
                        result: Some(result),
                        diff_preview,
                        collapsed: force_collapsed,
                        hidden: false,
                    },
                    other => other,
                };
                self.messages.insert(i, updated);
                assert(msg_views(self.messages@) =~= tool_completed(
                    msg_views(before),
                    call_id@,
                    result@,
                    opt_view(diff_preview),
                    force_collapsed,
                ));
            },
            None => {},
        }
    }
}

/// The last folded chat or tool message at or before `i`.
pub open spec fn last_collapsed(ms: Seq<MsgView>, i: int) -> Option<int>
    decreases i + 1,
{
    if i < 0 {
        None
    } else {
        match ms[i] {
            MsgView::Chat { collapsed, .. } => if collapsed { Some(i) } else { last_collapsed(ms, i - 1) },
            MsgView::Tool { collapsed, .. } => if collapsed { Some(i) } else { last_collapsed(ms, i - 1) },
            MsgView::Diff { .. } => last_collapsed(ms, i - 1),
        }
    }
}

pub open spec fn unfolded(m: MsgView) -> MsgView {
    match m {
        MsgView::Chat { role, content, thinking, hidden, .. } => MsgView::Chat {
            role,
            content,
            thinking,
            collapsed: false,
            hidden,
        },
        MsgView::Tool { call_id, name, args_display, result, diff_preview, hidden, .. } => MsgView::Tool {
            call_id,
            name,
            args_display,
            result,
            diff_preview,
            collapsed: false,
            hidden,
        },
        MsgView::Diff { content, hidden } => MsgView::Diff { content, hidden },
    }
}

pub open spec fn hidden_tool(m: MsgView) -> MsgView {
    match m {
        MsgView::Tool { call_id, name, args_display, result, diff_preview, collapsed, .. } => MsgView::Tool {
            call_id,
            name,
            args_display,
            result,
            diff_preview,
            collapsed,
            hidden: true,
        },
        other => other,
    }
}

/// The messages that history entries become, in order.
pub open spec fn entry_messages(es: Seq<DisplayEntry>, v: Verbosity) -> Seq<MsgView> {
    es.map_values(|e: DisplayEntry| entry_message(e, v))
}

pub const ASLEEP_NOTICE: &'static str = "祈芷正在沉睡...";

pub const AWAKE_NOTICE: &'static str = "祈芷醒来了，梦的余韵还留在心头。";

pub const UNDONE_NOTICE: &'static str = "Undone.";

fn push_entry(out: &mut Vec<DisplayMessage>, e: &DisplayEntry, v: Verbosity)
    ensures
        msg_views(final(out)@) == msg_views(old(out)@).push(entry_message(*e, v)),
{
    let ghost before = out@;
    let m = match e {
        DisplayEntry::Chat { role, content, thinking } => DisplayMessage::Chat {
            role: match role {
                DisplayRole::User => Role::User,
                DisplayRole::Assistant => Role::Assistant,
                DisplayRole::System => Role::System,
            },
            content: content.clone(),
            thinking: crate::llm::types::clone_string_opt(thinking),
            collapsed: false,
            hidden: false,
        },
        DisplayEntry::Tool { call_id, name, args_display, result, diff_preview } => DisplayMessage::Tool {
            call_id: call_id.clone(),
            name: name.clone(),
            args_display: args_display.clone(),
            result: crate::llm::types::clone_string_opt(result),
            diff_preview: crate::llm::types::clone_string_opt(diff_preview),
            collapsed: !should_show_tool_result(v, name.as_str()),
            hidden: false,
        },
    };
    out.push(m);
    assert(msg_views(out@) =~= msg_views(before).push(m.view_spec()));
}

impl Transcript {
    /// Unfolds the last folded chat or tool message.
    pub fn toggle_last_collapsed(&mut self)
        ensures
            final(self)@ == (TranscriptView {
                messages: match last_collapsed(old(self)@.messages, old(self)@.messages.len() - 1) {
                    Some(i) => old(self)@.messages.update(i, unfolded(old(self)@.messages[i])),
                    None => old(self)@.messages,
                },
                ..old(self)@
            }),
    {
        let mut i: usize = self.messages.len();
        while i > 0
            invariant
                i <= self.messages.len(),
                self@ == old(self)@,
                last_collapsed(self@.messages, self@.messages.len() - 1) == last_collapsed(self@.messages, i - 1),
            decreases i,
        {
            let folded = match &self.messages[i - 1] {
                DisplayMessage::Chat { collapsed, .. } => *collapsed,
                DisplayMessage::Tool { collapsed, .. } => *collapsed,
                DisplayMessage::Diff { .. } => false,
            };
            if folded {
                let ghost before = self.messages@;
                let m = self.messages.remove(i - 1);
                let updated = match m {
                    DisplayMessage::Chat { role, content, thinking, hidden, .. } => DisplayMessage::Chat {
                        role,
                        content,
                        thinking,
                        collapsed: false,
                        hidden,
                    },
                    DisplayMessage::Tool { call_id, name, args_display, result, diff_preview, hidden, .. } => DisplayMessage::Tool {
                        call_id,
                        name,
                        args_display,
                        result,
                        diff_preview,
                        collapsed: false,
                        hidden,
                    },
                    other => other,
                };
                self.messages.insert(i - 1, updated);
                assert(msg_views(self.messages@) =~= msg_views(before).update(
                    i - 1,
                    unfolded(msg_views(before)[i - 1]),
                ));
                return;
            }
            i = i - 1;
        }
    }

    /// Hides the last message when it is a tool call (its diff replaces it).
    pub fn hide_last_tool(&mut self)
        ensures
            final(self)@ == (TranscriptView {
                messages: if old(self)@.messages.len() > 0 && old(self)@.messages.last() is Tool {
                    old(self)@.messages.update(
                        old(self)@.messages.len() - 1,
                        hidden_tool(old(self)@.messages.last()),
                    )
                } else {
                    old(self)@.messages
                },
                ..old(self)@
            }),
    {
        let n = self.messages.len();
        if n == 0 {
            return;
        }
        let is_tool = match &self.messages[n - 1] {
            DisplayMessage::Tool { .. } => true,
            _ => false,
        };
        if !is_tool {
            return;
        }
        let ghost before = self.messages@;
        let m = self.messages.pop().unwrap();
        let updated = match m {
            DisplayMessage::Tool { call_id, name, args_display, result, diff_preview, collapsed, .. } => DisplayMessage::Tool {
                call_id,
                name,
                args_display,
                result,
                diff_preview,
                collapsed,
                hidden: true,
            },
            other => other,
        };
        self.messages.push(updated);
        assert(msg_views(self.messages@) =~= msg_views(before).update(
            n - 1,
            hidden_tool(msg_views(before).last()),
        ));
    }

    /// Appends the messages that history entries make (the conversation
    /// so far, when the terminal starts).
    pub fn add_entries(&mut self, entries: &Vec<DisplayEntry>)
        ensures
            final(self)@ == (TranscriptView {
                messages: old(self)@.messages + entry_messages(entries@, old(self)@.verbosity),
                ..old(self)@
            }),
    {
        let ghost start = self@.messages;
        let mut i: usize = 0;
        while i < entries.len()
            invariant
                i <= entries.len(),
                self@ == (TranscriptView { messages: self@.messages, ..old(self)@ }),
                start == old(self)@.messages,
                msg_views(self.messages@) == start + entry_messages(entries@, self.verbosity).take(i as int),
            decreases entries.len() - i,
        {
            push_entry(&mut self.messages, &entries[i], self.verbosity);
            proof {
                assert(entry_messages(entries@, self.verbosity).take(i + 1) =~= entry_messages(
                    entries@,
                    self.verbosity,
                ).take(i as int).push(entry_message(entries@[i as int], self.verbosity)));
            }
            i = i + 1;
        }
        proof {
            assert(entry_messages(entries@, self.verbosity).take(entries.len() as int) =~= entry_messages(
                entries@,
                self.verbosity,
            ));
        }
    }

    /// Replaces the messages by those that history entries make.
    pub fn rebuild_from_entries(&mut self, entries: &Vec<DisplayEntry>)
        ensures
            final(self)@ == (TranscriptView { messages: entry_messages(entries@, old(self)@.verbosity), ..old(self)@ }),
    {
        let mut out: Vec<DisplayMessage> = Vec::new();
        let mut i: usize = 0;
        while i < entries.len()
            invariant
                i <= entries.len(),
                msg_views(out@) == entry_messages(entries@, self.verbosity).take(i as int),
            decreases entries.len() - i,
        {
            push_entry(&mut out, &entries[i], self.verbosity);
            proof {
                assert(entry_messages(entries@, self.verbosity).take(i + 1) =~= entry_messages(
                    entries@,
                    self.verbosity,
                ).take(i as int).push(entry_message(entries@[i as int], self.verbosity)));
            }
            i = i + 1;
        }
        proof {
            assert(entry_messages(entries@, self.verbosity).take(entries.len() as int) =~= entry_messages(
                entries@,
                self.verbosity,
            ));
        }
        self.messages = out;
    }

    /// Keeps the reply streamed so far (if any) as a message and empties
    /// the stream.
    pub fn flush_stream(&mut self)
        ensures
            final(self)@ == (TranscriptView {
                messages: flushed(old(self)@),
                thinking: Seq::empty(),
                text: Seq::empty(),
                ..old(self)@
            }),
    {
        let has_text = !self.text_buffer.as_str().is_empty();
        let has_thinking = !self.thinking_buffer.as_str().is_empty();
        if has_text || has_thinking {
            let thinking = if has_thinking { Some(self.thinking_buffer.clone()) } else { None };
            let text = self.text_buffer.clone();
            self.thinking_buffer = String::new();
            self.text_buffer = String::new();
            self.add_chat(Role::Assistant, text.as_str(), thinking);
        }
        assert(self@.thinking =~= Seq::<char>::empty());
        assert(self@.text =~= Seq::<char>::empty());
    }
}

/// The transcript and the mode after `e`, as `handle_event` promises them.
pub open spec fn after_event(t: TranscriptView, e: TranscriptEvent, t2: TranscriptView, m: ModeChange) -> bool {
    &&& t2.verbosity == t.verbosity
    &&& match e {
        TranscriptEvent::ThinkingDelta { delta } => t2 == (TranscriptView { thinking: t.thinking + delta@, streaming: true, ..t })
            && m is Streaming,
        TranscriptEvent::TextDelta { delta } => t2 == (TranscriptView { text: t.text + delta@, streaming: true, ..t })
            && m is Streaming,
        TranscriptEvent::TextDone { full_text } => t2 == (TranscriptView {
            messages: t.messages.push(
                chat_view(Role::Assistant, full_text@, if t.thinking.len() == 0 { None } else { Some(t.thinking) }),
            ),
            thinking: Seq::empty(),
            text: Seq::empty(),
            ..t
        }) && m is Keep,
        TranscriptEvent::TurnComplete => t2 == (TranscriptView {
            messages: flushed(t),
            thinking: Seq::empty(),
            text: Seq::empty(),
            streaming: false,
            ..t
        }) && m is Chat,
        TranscriptEvent::ToolResult { call_id, name, result, diff_preview } => t2 == (TranscriptView {
            messages: tool_completed(t.messages, call_id@, result@, opt_view(diff_preview), !shows_tool_result(t.verbosity, name@)),
            ..t
        }) && m is Keep,
        TranscriptEvent::ToolCalling { call_id, name, display } => t2 == (TranscriptView {
            messages: flushed(t).push(
                MsgView::Tool {
                    call_id: call_id@,
                    name: name@,
                    args_display: display@,
                    result: None,
                    diff_preview: None,
                    collapsed: true,
                    hidden: false,
                },
            ),
            thinking: Seq::empty(),
            text: Seq::empty(),
            ..t
        }) && m is Keep,
        TranscriptEvent::ApprovalPending { call_id, tool_name, tool_target, preview, tool_label, is_diff } => {
            &&& t2 == (TranscriptView {
                messages: if is_diff {
                    (if t.messages.len() > 0 && t.messages.last() is Tool {
                        t.messages.update(t.messages.len() - 1, hidden_tool(t.messages.last()))
                    } else {
                        t.messages
                    }).push(MsgView::Diff { content: preview@, hidden: false })
                } else {
                    t.messages
                },
                ..t
            })
            &&& m matches ModeChange::Approval { call_id: c, tool_name: n, tool_label: l, tool_target: g } && c@
                == call_id@ && n@ == tool_name@ && l@ == tool_label@ && opt_view(g) == opt_view(tool_target)
        },
        TranscriptEvent::ToolRejected { call_id, feedback } => t2 == (TranscriptView {
            messages: tool_completed(t.messages, call_id@, feedback@, None, true),
            ..t
        }) && m is Keep,
        TranscriptEvent::Error { message } => t2 == (TranscriptView {
            messages: t.messages.push(chat_view(Role::System, "Error: "@ + message@, None)),
            ..t
        }) && m is Keep,
        TranscriptEvent::FallingAsleep => t2 == (TranscriptView {
            messages: t.messages.push(chat_view(Role::System, ASLEEP_NOTICE@, None)),
            streaming: false,
            ..t
        }) && m is Chat,
        TranscriptEvent::Sleeping => t2 == (TranscriptView { streaming: false, ..t }) && m is Chat,
        TranscriptEvent::WakingUp => t2 == (TranscriptView {
            messages: t.messages.push(chat_view(Role::System, AWAKE_NOTICE@, None)),
            ..t
        }) && m is Keep,
        TranscriptEvent::UndoDone { entries } => t2 == (TranscriptView {
            messages: entry_messages(entries@, t.verbosity).push(chat_view(Role::System, UNDONE_NOTICE@, None)),
            streaming: false,
            ..t
        }) && m is Chat,
    }
}

impl Transcript {
    /// Takes an event of the agent; returns how the terminal's mode changes.
    pub fn handle_event(&mut self, event: TranscriptEvent) -> (m: ModeChange)
        ensures
            after_event(old(self)@, event, final(self)@, m),
    {
        match event {
            TranscriptEvent::ThinkingDelta { delta } => {
                self.thinking_buffer.append(delta.as_str());
                self.is_streaming = true;
                ModeChange::Streaming
            },
            TranscriptEvent::TextDelta { delta } => {
                self.text_buffer.append(delta.as_str());
                self.is_streaming = true;
                ModeChange::Streaming
            },
            TranscriptEvent::TextDone { full_text } => {
                let thinking = if self.thinking_buffer.as_str().is_empty() {
                    None
                } else {
                    Some(self.thinking_buffer.clone())
                };
                self.thinking_buffer = String::new();
                self.add_chat(Role::Assistant, full_text.as_str(), thinking);
                self.text_buffer = String::new();
                assert(self@.thinking =~= Seq::<char>::empty());
                assert(self@.text =~= Seq::<char>::empty());
                ModeChange::Keep
            },
            TranscriptEvent::TurnComplete => {
                self.flush_stream();
                self.is_streaming = false;
                ModeChange::Chat
            },
            TranscriptEvent::ToolResult { call_id, name, result, diff_preview } => {
                let show = should_show_tool_result(self.verbosity, name.as_str());
                self.complete_tool(call_id.as_str(), result, diff_preview, !show);
                ModeChange::Keep
            },
            TranscriptEvent::ToolCalling { call_id, name, display } => {
                self.flush_stream();
                self.add_tool_call(call_id, name, display);
                ModeChange::Keep
            },
            TranscriptEvent::ApprovalPending { call_id, tool_name, tool_target, preview, tool_label, is_diff } => {
                if is_diff {
                    self.hide_last_tool();
                    self.add_diff(preview);
                }
                ModeChange::Approval { call_id, tool_name, tool_label, tool_target }
            },
            TranscriptEvent::ToolRejected { call_id, feedback } => {
                self.complete_tool(call_id.as_str(), feedback, None, true);
                ModeChange::Keep
            },
            TranscriptEvent::Error { message } => {
                let mut v = chars_of("Error: ");
                append_str(&mut v, message.as_str());
                let text = string_of(&v);
                self.add_chat(Role::System, text.as_str(), None);
                ModeChange::Keep
            },
            TranscriptEvent::FallingAsleep => {
                self.is_streaming = false;
                self.add_chat(Role::System, ASLEEP_NOTICE, None);
                ModeChange::Chat
            },
            TranscriptEvent::Sleeping => {
                self.is_streaming = false;
                ModeChange::Chat
            },
            TranscriptEvent::WakingUp => {
                self.add_chat(Role::System, AWAKE_NOTICE, None);
                ModeChange::Keep
            },
            TranscriptEvent::UndoDone { entries } => {
                self.is_streaming = false;
                self.rebuild_from_entries(&entries);
                self.add_chat(Role::System, UNDONE_NOTICE, None);
                ModeChange::Chat
            },
        }
    }
}

/// A tool call shown and then answered: the result lands on that call's
/// message, which is unfolded unless the verbosity folds it, and nothing
/// else changes.
pub proof fn lemma_result_fills_call(
    t: TranscriptView,
    call_id: Seq<char>,
    name: Seq<char>,
    display: Seq<char>,
    result: Seq<char>,
    diff_preview: Option<Seq<char>>,
)
    ensures
        ({
            let shown = flushed(t).push(
                MsgView::Tool {
                    call_id,
                    name,
                    args_display: display,
                    result: None,
                    diff_preview: None,
                    collapsed: true,
                    hidden: false,
                },
            );
            tool_completed(shown, call_id, result, diff_preview, !shows_tool_result(t.verbosity, name)) == flushed(
                t,
            ).push(
                MsgView::Tool {
                    call_id,
                    name,
                    args_display: display,
                    result: Some(result),
                    diff_preview,
                    collapsed: !shows_tool_result(t.verbosity, name),
                    hidden: false,
                },
            )
        }),
{
    let shown = flushed(t).push(
        MsgView::Tool { call_id, name, args_display: display, result: None, diff_preview: None, collapsed: true, hidden: false },
    );
    assert(shown[shown.len() - 1] == shown.last());
    assert(last_tool_msg(shown, call_id, shown.len() - 1) == Some(shown.len() - 1));
    let expected = flushed(t).push(
        MsgView::Tool {
            call_id,
            name,
            args_display: display,
            result: Some(result),
            diff_preview,
            collapsed: !shows_tool_result(t.verbosity, name),
            hidden: false,
        },
    );
    assert(tool_completed(shown, call_id, result, diff_preview, !shows_tool_result(t.verbosity, name)) =~= expected);
}

} // verus!
