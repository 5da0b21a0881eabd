use vstd::prelude::*;

use crate::agent::events::{args_brief, format_args_brief, DisplayEntry, DisplayRole};
use crate::llm::types::{clone_string_opt, ChatMessage, Role, ToolCall};
use crate::text::{
    append_chars, append_str, chars_of, find_exec, find_first, slice_chars, str_equal, string_of,
    trim_start, trim_start_chars,
};

verus! {

/// A conversation message with the time it was recorded.
#[derive(Debug)]
pub struct TimedMessage {
    pub ts: String,
    pub message: ChatMessage,
}

/// Marks where the user's own words start in a user turn.
pub const USER_INPUT_MARKER: &'static str = "[以下是用户的输入]\n";

/// The user's own words of a stored user turn: what follows the marker,
/// without leading white space; the whole text when there is no marker.
pub open spec fn baked_stripped(content: Seq<char>) -> Seq<char> {
    match find_first(content, USER_INPUT_MARKER@) {
        Some(pos) => trim_start(content.skip(pos + USER_INPUT_MARKER@.len())),
        None => content,
    }
}

pub fn strip_baked_context(content: &str) -> (r: String)
    ensures
        r@ == baked_stripped(content@),
{
    let c = chars_of(content);
    let marker = chars_of(USER_INPUT_MARKER);
    match find_exec(&c, &marker) {
        Some(pos) => {
            proof {
                crate::text::lemma_find_from(c@, marker@, 0);
                assert(crate::text::occurs_at(c@, marker@, pos as int));
                assert(pos + marker@.len() <= c@.len());
                assert(marker@.len() == marker.len());
                assert(pos as int + marker.len() as int <= c.len() as int);
            }
            let rest = slice_chars(&c, pos + marker.len(), c.len());
            proof {
                assert(c@.subrange(pos + marker@.len(), c@.len() as int) =~= c@.skip(pos + marker@.len()));
            }
            let t = trim_start_chars(&rest);
            string_of(&t)
        },
        None => String::from_str(content),
    }
}

pub enum EntryView {
    Chat { role: DisplayRole, content: Seq<char>, thinking: Option<Seq<char>> },
    Tool {
        call_id: Seq<char>,
        name: Seq<char>,
        args_display: Seq<char>,
        result: Option<Seq<char>>,
        diff_preview: Option<Seq<char>>,
    },
}

pub open spec fn opt_view(o: Option<String>) -> Option<Seq<char>> {
    match o {
        Some(s) => Some(s@),
        None => None,
    }
}

impl DisplayEntry {
    pub open spec fn view_spec(&self) -> EntryView {
        match self {
            DisplayEntry::Chat { role, content, thinking } => EntryView::Chat {
                role: *role,
                content: content@,
                thinking: opt_view(*thinking),
            },
            DisplayEntry::Tool { call_id, name, args_display, result, diff_preview } => EntryView::Tool {
                call_id: call_id@,
                name: name@,
                args_display: args_display@,
                result: opt_view(*result),
                diff_preview: opt_view(*diff_preview),
            },
        }
    }
}

pub open spec fn entry_views(v: Seq<DisplayEntry>) -> Seq<EntryView> {
    v.map_values(|e: DisplayEntry| e.view_spec())
}

pub open spec fn text_or_empty(o: Option<String>) -> Seq<char> {
    match o {
        Some(s) => s@,
        None => Seq::empty(),
    }
}

/// How a requested tool call is listed: `name(brief arguments)`.
pub open spec fn tool_entry(tc: ToolCall) -> EntryView {
    EntryView::Tool {
        call_id: tc.id@,
        name: tc.function.name@,
        args_display: tc.function.name@ + "("@ + args_brief(tc.function.arguments@) + ")"@,
        result: None,
        diff_preview: None,
    }
}

/// Entries for the first `n` tool calls of a message.
pub open spec fn tool_entries(tcs: Seq<ToolCall>, n: int) -> Seq<EntryView>
    decreases n,
{
    if n <= 0 {
        Seq::empty()
    } else {
        tool_entries(tcs, n - 1).push(tool_entry(tcs[n - 1]))
    }
}

/// The index of the last tool entry at or before `i` for the given call id.
pub open spec fn last_tool_entry(es: Seq<EntryView>, id: Seq<char>, i: int) -> Option<int>
    decreases i + 1,
{
    if i < 0 {
        None
    } else if es[i] matches EntryView::Tool { call_id, .. } && call_id == id {
        Some(i)
    } else {
        last_tool_entry(es, id, i - 1)
    }
}

/// The display entries after one more message.
pub open spec fn display_step(es: Seq<EntryView>, m: ChatMessage) -> Seq<EntryView> {
    match m.role {
        Role::User => {
            let content = baked_stripped(text_or_empty(m.content));
            if content.len() == 0 {
                es
            } else {
                es.push(EntryView::Chat { role: DisplayRole::User, content: content, thinking: None })
            }
        },
        Role::Assistant => {
            let content = text_or_empty(m.content);
            if content.len() == 0 && m.tool_calls is None {
                es
            } else {
                let with_chat = if content.len() > 0 {
                    es.push(
                        EntryView::Chat {
                            role: DisplayRole::Assistant,
                            content: content,
                            thinking: opt_view(m.reasoning_content),
                        },
                    )
                } else {
                    es
                };
                match m.tool_calls {
                    Some(tcs) => with_chat + tool_entries(tcs@, tcs@.len() as int),
                    None => with_chat,
                }
            }
        },
        Role::Tool => {
            let id = text_or_empty(m.tool_call_id);
            match last_tool_entry(es, id, es.len() - 1) {
                Some(i) => match es[i] {
                    EntryView::Tool { call_id, name, args_display, diff_preview, .. } => es.update(
                        i,
                        EntryView::Tool {
                            call_id,
                            name,
                            args_display,
                            result: Some(
                                {
                                    let c = text_or_empty(m.content);
                                    if c.len() <= 200 { c } else { c.take(200) }
                                },
                            ),
                            diff_preview,
                        },
                    ),
                    _ => es,
                },
                None => es,
            }
        },
        Role::System => es,
    }
}

/// The display entries of a conversation: user turns without their baked
/// context, assistant replies, tool calls, and each tool result (its first
/// 200 characters) attached to the latest entry of its call.
pub open spec fn display_entries(msgs: Seq<ChatMessage>) -> Seq<EntryView>
    decreases msgs.len(),
{
    if msgs.len() == 0 {
        Seq::empty()
    } else {
        display_step(display_entries(msgs.drop_last()), msgs.last())
    }
}

/// The id of the first `run_command` call among `tcs` from index `j`.
pub open spec fn first_command_from(tcs: Seq<ToolCall>, j: int) -> Option<Seq<char>>
    decreases tcs.len() - j,
{
    if j < 0 || j >= tcs.len() {
        None
    } else if tcs[j].function.name@ == "run_command"@ {
        Some(tcs[j].id@)
    } else {
        first_command_from(tcs, j + 1)
    }
}

/// The id of the latest `run_command` call at or before message `i`
/// (within a message, the first such call).
pub open spec fn last_command_from(msgs: Seq<ChatMessage>, i: int) -> Option<Seq<char>>
    decreases i + 1,
{
    if i < 0 {
        None
    } else {
        let here = match msgs[i].tool_calls {
            Some(tcs) => first_command_from(tcs@, 0),
            None => None,
        };
        match here {
            Some(id) => Some(id),
            None => last_command_from(msgs, i - 1),
        }
    }
}

/// The index of the latest message at or before `i` that answers call `id`.
pub open spec fn last_result_for(msgs: Seq<ChatMessage>, id: Seq<char>, i: int) -> Option<int>
    decreases i + 1,
{
    if i < 0 {
        None
    } else if opt_view(msgs[i].tool_call_id) == Some(id) {
        Some(i)
    } else {
        last_result_for(msgs, id, i - 1)
    }
}

/// The conversation as it is recorded, in order.
pub struct History {
    messages: Vec<ChatMessage>,
    path: String,
}

impl View for History {
    type V = Seq<ChatMessage>;

    closed spec fn view(&self) -> Seq<ChatMessage> {
        self.messages@
    }
}

fn display_role_message(m: &ChatMessage) -> (r: bool)
    ensures
        r == (m.role == Role::User),
{
    match m.role {
        Role::User => true,
        _ => false,
    }
}

fn text_of(o: &Option<String>) -> (r: Vec<char>)
    ensures
        r@ == text_or_empty(*o),
{
    match o {
        Some(s) => chars_of(s.as_str()),
        None => Vec::new(),
    }
}

fn last_tool_entry_exec(es: &Vec<DisplayEntry>, id: &str) -> (r: Option<usize>)
    ensures
        match r {
            Some(i) => i < es.len() && last_tool_entry(entry_views(es@), id@, es.len() - 1) == Some(i as int),
            None => last_tool_entry(entry_views(es@), id@, es.len() - 1) is None,
        },
{
    let mut i: usize = es.len();
    while i > 0
        invariant
            i <= es.len(),
            last_tool_entry(entry_views(es@), id@, es.len() - 1) == last_tool_entry(entry_views(es@), id@, i - 1),
        decreases i,
    {
        match &es[i - 1] {
            DisplayEntry::Tool { call_id, .. } => {
                if str_equal(call_id.as_str(), id) {
                    return Some(i - 1);
                }
            },
            _ => {},
        }
        i = i - 1;
    }
    None
}

impl History {
    pub fn new(path: String) -> (r: Self)
        ensures
            r@.len() == 0,
            r.path() == path@,
    {
        History { messages: Vec::new(), path }
    }

    /// A history holding the given (already recorded) messages.
    pub fn from_messages(path: String, messages: Vec<ChatMessage>) -> (r: Self)
        ensures
            r@ == messages@,
            r.path() == path@,
    {
        History { messages, path }
    }

    pub closed spec fn path(&self) -> Seq<char> {
        self.path@
    }

    /// Where the conversation is persisted.
    pub fn path_str(&self) -> (r: &str)
        ensures
            r@ == self.path(),
    {
        self.path.as_str()
    }

    pub fn push(&mut self, msg: ChatMessage)
        ensures
            final(self)@ == old(self)@.push(msg),
            final(self).path() == old(self).path(),
    {
        self.messages.push(msg);
    }

    pub fn record_assistant(
        &mut self,
        content: Option<String>,
        reasoning: Option<String>,
        tool_calls: Option<Vec<ToolCall>>,
        usage: Option<crate::llm::UsageMetrics>,
    )
        ensures
            final(self)@.last().usage == usage,
            final(self)@.last().name is None,
            final(self)@.len() == old(self)@.len() + 1,
            final(self)@.drop_last() == old(self)@,
            final(self)@.last().role == Role::Assistant,
            final(self)@.last().content == content,
            final(self)@.last().reasoning_content == if tool_calls is Some { reasoning } else { None },
            final(self)@.last().tool_calls == tool_calls,
            final(self)@.last().tool_call_id is None,
            final(self).path() == old(self).path(),
    {
        self.push(ChatMessage::assistant(content, reasoning, tool_calls, usage));
        assert(self@.drop_last() =~= old(self)@);
    }

    pub fn record_tool_result(&mut self, tool_call_id: String, content: String)
        ensures
            final(self)@.len() == old(self)@.len() + 1,
            final(self)@.drop_last() == old(self)@,
            final(self)@.last().role == Role::Tool,
            final(self)@.last().content == Some(content),
            final(self)@.last().tool_call_id == Some(tool_call_id),
            final(self)@.last().reasoning_content is None,
            final(self)@.last().tool_calls is None,
            final(self)@.last().name is None,
            final(self)@.last().usage is None,
            final(self).path() == old(self).path(),
    {
        self.push(ChatMessage::tool_result(tool_call_id, content));
        assert(self@.drop_last() =~= old(self)@);
    }

    /// Replaces the content of the latest result for call `tc_id`, or records
    /// a new result when there is none. Returns whether an existing one changed.
    pub fn update_tool_result(&mut self, tc_id: &str, content: String) -> (replaced: bool)
        ensures
            match last_result_for(old(self)@, tc_id@, old(self)@.len() - 1) {
                Some(i) => replaced && final(self)@ == old(self)@.update(
                    i,
                    ChatMessage { content: Some(content), ..old(self)@[i] },
                ),
                None => {
                    &&& !replaced
                    &&& final(self)@.len() == old(self)@.len() + 1
                    &&& final(self)@.drop_last() == old(self)@
                    &&& final(self)@.last().role == Role::Tool
                    &&& final(self)@.last().content == Some(content)
                    &&& opt_view(final(self)@.last().tool_call_id) == Some(tc_id@)
                },
            },
            final(self).path() == old(self).path(),
    {
        let mut i: usize = self.messages.len();
        while i > 0
            invariant
                i <= self.messages.len(),
                self@ == old(self)@,
                self.path() == old(self).path(),
                last_result_for(self@, tc_id@, self@.len() - 1) == last_result_for(self@, tc_id@, i - 1),
            decreases i,
        {
            let hit = match &self.messages[i - 1].tool_call_id {
                Some(id) => str_equal(id.as_str(), tc_id),
                None => false,
            };
            if hit {
                let mut m = self.messages.remove(i - 1);
                m.content = Some(content);
                self.messages.insert(i - 1, m);
                assert(self@ =~= old(self)@.update(
                    i - 1,
                    ChatMessage { content: Some(content), ..old(self)@[i - 1] },
                ));
                return true;
            }
            i = i - 1;
        }
        self.record_tool_result(String::from_str(tc_id), content);
        false
    }

    pub fn messages(&self) -> (r: &Vec<ChatMessage>)
        ensures
            r@ == self@,
    {
        &self.messages
    }

    pub fn clear(&mut self)
        ensures
            final(self)@.len() == 0,
            final(self).path() == old(self).path(),
    {
        self.messages = Vec::new();
    }

    /// The id of the latest `run_command` call in the conversation.
    pub fn find_last_command_tc_id(&self) -> (r: Option<String>)
        ensures
            opt_view(r) == last_command_from(self@, self@.len() - 1),
    {
        let mut i: usize = self.messages.len();
        while i > 0
            invariant
                i <= self.messages.len(),
                last_command_from(self@, self@.len() - 1) == last_command_from(self@, i - 1),
            decreases i,
        {
            match &self.messages[i - 1].tool_calls {
                Some(tcs) => {
                    let mut j: usize = 0;
                    while j < tcs.len()
                        invariant
                            0 < i <= self.messages.len(),
                            self@[i - 1].tool_calls == Some(*tcs),
                            last_command_from(self@, self@.len() - 1) == last_command_from(self@, i - 1),
                            j <= tcs.len(),
                            first_command_from(tcs@, 0) == first_command_from(tcs@, j as int),
                        decreases tcs.len() - j,
                    {
                        if str_equal(tcs[j].function.name.as_str(), "run_command") {
                            proof {
                                assert(first_command_from(tcs@, j as int) == Some(tcs@[j as int].id@));
                            }
                            return Some(tcs[j].id.clone());
                        }
                        j = j + 1;
                    }
                },
                None => {},
            }
            proof {
                match self@[i - 1].tool_calls {
                    Some(tcs) => {
                        assert(first_command_from(tcs@, tcs@.len() as int) is None);
                    },
                    None => {},
                }
            }
            i = i - 1;
        }
        None
    }

    /// The conversation as display entries (see `display_entries`).
    pub fn to_display_entries(&self) -> (r: Vec<DisplayEntry>)
        ensures
            entry_views(r@) == display_entries(self@),
    {
        let mut entries: Vec<DisplayEntry> = Vec::new();
        let mut k: usize = 0;
        while k < self.messages.len()
            invariant
                k <= self.messages.len(),
                entry_views(entries@) == display_entries(self@.take(k as int)),
            decreases self.messages.len() - k,
        {
            let msg = &self.messages[k];
            proof {
                assert(self@.take(k + 1).drop_last() =~= self@.take(k as int));
                assert(self@.take(k + 1).last() == self@[k as int]);
            }
            let ghost before = entry_views(entries@);
            match msg.role {
                Role::User => {
                    let raw = text_of(&msg.content);
                    let raw_s = string_of(&raw);
                    let content = strip_baked_context(raw_s.as_str());
                    if !content.as_str().is_empty() {
                        proof {
                            assert(content@.len() > 0);
                        }
                        entries.push(
                            DisplayEntry::Chat { role: DisplayRole::User, content, thinking: None },
                        );
                        proof {
                            assert(entry_views(entries@) =~= before.push(
                                EntryView::Chat { role: DisplayRole::User, content: content@, thinking: None },
                            ));
                        }
                    } else {
                        proof {
                            assert(content@.len() == 0);
                        }
                    }
                },
                Role::Assistant => {
                    let content = text_of(&msg.content);
                    if content.len() == 0 && msg.tool_calls.is_none() {
                    } else {
                        if content.len() > 0 {
                            entries.push(
                                DisplayEntry::Chat {
                                    role: DisplayRole::Assistant,
                                    content: string_of(&content),
                                    thinking: clone_string_opt(&msg.reasoning_content),
                                },
                            );
                            proof {
                                assert(entry_views(entries@) =~= before.push(
                                    EntryView::Chat {
                                        role: DisplayRole::Assistant,
                                        content: content@,
                                        thinking: opt_view(msg.reasoning_content),
                                    },
                                ));
                            }
                        }
                        let ghost with_chat = entry_views(entries@);
                        match &msg.tool_calls {
                            Some(tcs) => {
                                let mut j: usize = 0;
                                while j < tcs.len()
                                    invariant
                                        j <= tcs.len(),
                                        entry_views(entries@) == with_chat + tool_entries(tcs@, j as int),
                                    decreases tcs.len() - j,
                                {
                                    let tc = &tcs[j];
                                    let mut display: Vec<char> = chars_of(tc.function.name.as_str());
                                    append_str(&mut display, "(");
                                    let brief = format_args_brief(tc.function.arguments.as_str());
                                    append_str(&mut display, brief.as_str());
                                    append_str(&mut display, ")");
                                    let ghost prev = entry_views(entries@);
                                    entries.push(
                                        DisplayEntry::Tool {
                                            call_id: tc.id.clone(),
                                            name: tc.function.name.clone(),
                                            args_display: string_of(&display),
                                            result: None,
                                            diff_preview: None,
                                        },
                                    );
                                    proof {
                                        assert(entry_views(entries@) =~= prev.push(tool_entry(tcs@[j as int])));
                                        assert(with_chat + tool_entries(tcs@, j + 1) =~= (with_chat
                                            + tool_entries(tcs@, j as int)).push(tool_entry(tcs@[j as int])));
                                    }
                                    j = j + 1;
                                }
                            },
                            None => {},
                        }
                    }
                },
                Role::Tool => {
                    let id = text_of(&msg.tool_call_id);
                    let id_s = string_of(&id);
                    match last_tool_entry_exec(&entries, id_s.as_str()) {
                        Some(i) => {
                            let c = text_of(&msg.content);
                            let n = if c.len() <= 200 { c.len() } else { 200 };
                            let shown = slice_chars(&c, 0, n);
                            proof {
                                if c.len() <= 200 {
                                    assert(c@.subrange(0, n as int) =~= c@);
                                } else {
                                    assert(c@.subrange(0, n as int) =~= c@.take(200));
                                }
                            }
                            let old_entry = entries.remove(i);
                            match old_entry {
                                DisplayEntry::Tool { call_id, name, args_display, result, diff_preview } => {
                                    entries.insert(
                                        i,
                                        DisplayEntry::Tool {
                                            call_id,
                                            name,
                                            args_display,
                                            result: Some(string_of(&shown)),
                                            diff_preview,
                                        },
                                    );
                                    proof {
                                        assert(entry_views(entries@) =~= before.update(
                                            i as int,
                                            EntryView::Tool {
                                                call_id: call_id@,
                                                name: name@,
                                                args_display: args_display@,
                                                result: Some(shown@),
                                                diff_preview: opt_view(diff_preview),
                                            },
                                        ));
                                    }
                                },
                                DisplayEntry::Chat { role, content, thinking } => {
                                    entries.insert(i, DisplayEntry::Chat { role, content, thinking });
                                    proof {
                                        assert(entry_views(entries@) =~= before);
                                    }
                                },
                            }
                        },
                        None => {},
                    }
                },
                Role::System => {},
            }
            k = k + 1;
        }
        proof {
            assert(self@.take(self.messages.len() as int) =~= self@);
        }
        entries
    }
}

/// The content of the latest user message among the first `n`, if it has
/// content (`None` when that message has none or there is no user message).
pub open spec fn last_user_content(msgs: Seq<ChatMessage>, n: int) -> Option<Seq<char>>
    decreases n,
{
    if n <= 0 {
        None
    } else if msgs[n - 1].role == Role::User {
        opt_view(msgs[n - 1].content)
    } else {
        last_user_content(msgs, n - 1)
    }
}

impl History {
    /// What the user said last (the recall searches with it).
    pub fn last_user_text(&self) -> (r: Option<&str>)
        ensures
            match r {
                Some(t) => last_user_content(self@, self@.len() as int) == Some(t@),
                None => last_user_content(self@, self@.len() as int) is None,
            },
    {
        let mut i: usize = self.messages.len();
        while i > 0
            invariant
                i <= self.messages.len(),
                last_user_content(self@, self@.len() as int) == last_user_content(self@, i as int),
            decreases i,
        {
            if display_role_message(&self.messages[i - 1]) {
                return match &self.messages[i - 1].content {
                    Some(c) => Some(c.as_str()),
                    None => None,
                };
            }
            i = i - 1;
        }
        None
    }
}

} // verus!
