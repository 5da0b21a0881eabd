pub mod consolidation;
pub mod tools;

use vstd::prelude::*;

use crate::llm::types::{ChatMessage, Role};
use crate::text::{append_chars, append_str, chars_of, slice_chars, str_equal, string_of};

verus! {

/// Whether a message is a context (system prompt) message.
pub open spec fn is_context(m: ChatMessage) -> bool {
    m.role == Role::System && match m.name {
        Some(n) => n@ == "context"@,
        None => false,
    }
}

/// The index of the last context message at or before `i`.
pub open spec fn last_context_from(msgs: Seq<ChatMessage>, i: int) -> Option<int>
    decreases i + 1,
{
    if i < 0 {
        None
    } else if is_context(msgs[i]) {
        Some(i)
    } else {
        last_context_from(msgs, i - 1)
    }
}

pub open spec fn first_chars(s: Seq<char>, n: int) -> Seq<char> {
    if s.len() <= n { s } else { s.take(n) }
}

/// The transcript line of message `i` (possibly empty).
pub open spec fn transcript_line(msgs: Seq<ChatMessage>, i: int) -> Seq<char> {
    let m = msgs[i];
    match m.role {
        Role::System => if is_context(m) && last_context_from(msgs, msgs.len() - 1) == Some(i) {
            match m.content {
                Some(c) => "[context] "@ + c@ + "\n"@,
                None => Seq::empty(),
            }
        } else {
            Seq::empty()
        },
        Role::User => "用户: "@ + match m.content {
            Some(c) => c@,
            None => Seq::empty(),
        } + "\n"@,
        Role::Assistant => match m.content {
            Some(c) => "祈芷: "@ + c@ + "\n"@,
            None => Seq::empty(),
        },
        Role::Tool => match m.content {
            Some(c) => "[tool result] "@ + first_chars(c@, 200) + "\n"@,
            None => Seq::empty(),
        },
    }
}

/// The transcript lines of messages `0..n`.
pub open spec fn transcript_upto(msgs: Seq<ChatMessage>, n: int) -> Seq<char>
    decreases n,
{
    if n <= 0 {
        Seq::empty()
    } else {
        transcript_upto(msgs, n - 1) + transcript_line(msgs, n - 1)
    }
}

/// The conversation as text for the sleep prompt: only the latest context
/// message, user and assistant turns, and tool results cut to 200 characters.
pub open spec fn conversation_text(msgs: Seq<ChatMessage>) -> Seq<char> {
    if msgs.len() == 0 {
        "（无对话记录）"@
    } else {
        transcript_upto(msgs, msgs.len() as int)
    }
}

fn is_context_exec(m: &ChatMessage) -> (r: bool)
    ensures
        r == is_context(*m),
{
    match m.role {
        Role::System => match &m.name {
            Some(n) => str_equal(n.as_str(), "context"),
            None => false,
        },
        _ => false,
    }
}

fn last_context_exec(messages: &Vec<ChatMessage>) -> (r: Option<usize>)
    ensures
        last_context_from(messages@, messages@.len() - 1) == match r {
            Some(k) => Some(k as int),
            None => None::<int>,
        },
{
    let mut j: usize = messages.len();
    while j > 0
        invariant
            j <= messages.len(),
            last_context_from(messages@, messages@.len() - 1) == last_context_from(messages@, j - 1),
        decreases j,
    {
        if is_context_exec(&messages[j - 1]) {
            return Some(j - 1);
        }
        j = j - 1;
    }
    None
}

pub fn build_conversation_text(messages: &Vec<ChatMessage>) -> (r: String)
    ensures
        r@ == conversation_text(messages@),
{
    if messages.len() == 0 {
        return String::from_str("（无对话记录）");
    }
    let last_ctx = last_context_exec(messages);
    let mut text: Vec<char> = Vec::new();
    let mut i: usize = 0;
    while i < messages.len()
        invariant
            i <= messages.len(),
            text@ == transcript_upto(messages@, i as int),
            last_context_from(messages@, messages@.len() - 1) == match last_ctx {
                Some(k) => Some(k as int),
                None => None::<int>,
            },
        decreases messages.len() - i,
    {
        let msg = &messages[i];
        let ghost before = text@;
        match msg.role {
            Role::System => {
                if is_context_exec(msg) && last_ctx == Some(i) {
                    match &msg.content {
                        Some(c) => {
                            append_str(&mut text, "[context] ");
                            append_str(&mut text, c.as_str());
                            append_str(&mut text, "\n");
                        },
                        None => {},
                    }
                }
            },
            Role::User => {
                append_str(&mut text, "用户: ");
                match &msg.content {
                    Some(c) => append_str(&mut text, c.as_str()),
                    None => {},
                }
                append_str(&mut text, "\n");
            },
            Role::Assistant => {
                match &msg.content {
                    Some(c) => {
                        append_str(&mut text, "祈芷: ");
                        append_str(&mut text, c.as_str());
                        append_str(&mut text, "\n");
                    },
                    None => {},
                }
            },
            Role::Tool => {
                match &msg.content {
                    Some(c) => {
                        let cc = chars_of(c.as_str());
                        let n = if cc.len() <= 200 { cc.len() } else { 200 };
                        let preview = slice_chars(&cc, 0, n);
                        proof {
                            if cc.len() <= 200 {
                                assert(cc@.subrange(0, n as int) =~= cc@);
                            } else {
                                assert(cc@.subrange(0, n as int) =~= cc@.take(200));
                            }
                        }
                        append_str(&mut text, "[tool result] ");
                        append_chars(&mut text, &preview);
                        append_str(&mut text, "\n");
                    },
                    None => {},
                }
            },
        }
        proof {
            assert(text@ =~= before + transcript_line(messages@, i as int));
        }
        i = i + 1;
    }
    string_of(&text)
}

} // verus!
