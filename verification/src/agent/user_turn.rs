use vstd::prelude::*;

use crate::agent::history::{baked_stripped, History, USER_INPUT_MARKER};
use crate::agent::turn::{TurnState, TurnView};
use crate::llm::types::{ChatMessage, Role};
use crate::clock::{ends_like, is_time_char, is_time_text, local_minute_text};
use crate::text::{
    append_chars, append_str, chars_of, decimal, find_first, join, join_chars, lemma_find_from,
    occurs_at, push_decimal, string_of, trim_start, views,
};

verus! {

/// Opens the context block of a user turn.
pub const CONTEXT_HEADER: &'static str = "[以下为系统上下文，不是用户的输入]\n";

pub const TIME_LABEL: &'static str = "当前时间：";

pub const STATE_LABEL: &'static str = "你的状态：";

pub const TURNS_LEAD: &'static str = "本轮已对话 ";

pub const TURNS_MIDDLE: &'static str = " 轮，使用了 ";

pub const TURNS_TAIL: &'static str = " 次工具";

pub const DREAM_LINE: &'static str = "你刚从梦中醒来，梦中的感受还隐约残留。";

pub const RECALL_LABEL: &'static str = "唤起的记忆：\n";

/// What the context block of a user turn is made from.
pub struct TurnContext {
    /// The current time, as `YYYY-MM-DD HH:MM`.
    pub time: String,
    /// How the agent feels; empty when there is nothing to say.
    pub fatigue_desc: String,
    /// Turns so far in this waking period.
    pub turns: u32,
    /// Tool calls so far in this waking period.
    pub tool_calls: u32,
    /// The agent has just woken from a dream.
    pub woke_from_dream: bool,
    /// Recalled memories to inject, when they were chosen for this turn.
    pub recall: Option<String>,
}

pub open spec fn opt_seq(o: Option<String>) -> Option<Seq<char>> {
    match o {
        Some(s) => Some(s@),
        None => None,
    }
}

/// The lines of the context block, in order.
pub open spec fn context_parts(
    time: Seq<char>,
    fatigue: Seq<char>,
    turns: nat,
    tool_calls: nat,
    dream: bool,
    recall: Option<Seq<char>>,
) -> Seq<Seq<char>> {
    let p1 = seq![TIME_LABEL@ + time];
    let p2 = if fatigue.len() > 0 { p1.push(STATE_LABEL@ + fatigue) } else { p1 };
    let p3 = if turns > 0 {
        p2.push(TURNS_LEAD@ + decimal(turns) + TURNS_MIDDLE@ + decimal(tool_calls) + TURNS_TAIL@)
    } else {
        p2
    };
    let p4 = if dream { p3.push(DREAM_LINE@) } else { p3 };
    match recall {
        Some(r) => p4.push(RECALL_LABEL@ + r),
        None => p4,
    }
}

/// Everything in front of the user's words: the header, the context lines
/// joined by newlines, and a blank line.
pub open spec fn context_block(
    time: Seq<char>,
    fatigue: Seq<char>,
    turns: nat,
    tool_calls: nat,
    dream: bool,
    recall: Option<Seq<char>>,
) -> Seq<char> {
    CONTEXT_HEADER@ + join(context_parts(time, fatigue, turns, tool_calls, dream, recall), seq!['\n'])
        + seq!['\n', '\n']
}

/// The stored content of a user turn.
pub open spec fn user_turn_content(ctx: TurnContext, input: Seq<char>) -> Seq<char> {
    context_block(ctx.time@, ctx.fatigue_desc@, ctx.turns as nat, ctx.tool_calls as nat, ctx.woke_from_dream, opt_seq(ctx.recall))
        + USER_INPUT_MARKER@ + input
}

/// Builds the stored content of a user turn: the context block, then the
/// marker, then the user's words as typed.
pub fn build_user_turn_content(ctx: &TurnContext, user_input: &str) -> (r: String)
    ensures
        r@ == user_turn_content(*ctx, user_input@),
{
    let mut parts: Vec<Vec<char>> = Vec::new();
    let mut p = chars_of(TIME_LABEL);
    append_str(&mut p, ctx.time.as_str());
    parts.push(p);
    if !ctx.fatigue_desc.as_str().is_empty() {
        let mut p = chars_of(STATE_LABEL);
        append_str(&mut p, ctx.fatigue_desc.as_str());
        parts.push(p);
    }
    if ctx.turns > 0 {
        let mut p = chars_of(TURNS_LEAD);
        push_decimal(&mut p, ctx.turns as u64);
        append_str(&mut p, TURNS_MIDDLE);
        push_decimal(&mut p, ctx.tool_calls as u64);
        append_str(&mut p, TURNS_TAIL);
        parts.push(p);
    }
    if ctx.woke_from_dream {
        parts.push(chars_of(DREAM_LINE));
    }
    match &ctx.recall {
        Some(r) => {
            let mut p = chars_of(RECALL_LABEL);
            append_str(&mut p, r.as_str());
            parts.push(p);
        },
        None => {},
    }
    proof {
        let expected = context_parts(
            ctx.time@,
            ctx.fatigue_desc@,
            ctx.turns as nat,
            ctx.tool_calls as nat,
            ctx.woke_from_dream,
            opt_seq(ctx.recall),
        );
        assert(views(parts@) =~= expected);
        assert(views(parts@).take(parts.len() as int) =~= views(parts@));
    }
    let mut nl: Vec<char> = Vec::new();
    nl.push('\n');
    proof {
        assert(nl@ =~= seq!['\n']);
    }
    let joined = join_chars(&parts, parts.len(), &nl);
    let mut out = chars_of(CONTEXT_HEADER);
    append_chars(&mut out, &joined);
    out.push('\n');
    out.push('\n');
    append_str(&mut out, USER_INPUT_MARKER);
    append_str(&mut out, user_input);
    proof {
        assert(out@ =~= context_block(
            ctx.time@,
            ctx.fatigue_desc@,
            ctx.turns as nat,
            ctx.tool_calls as nat,
            ctx.woke_from_dream,
            opt_seq(ctx.recall),
        ) + USER_INPUT_MARKER@ + user_input@);
    }
    string_of(&out)
}

/// `s` holds no `[`.
pub open spec fn no_bracket(s: Seq<char>) -> bool {
    forall|i: int| 0 <= i < s.len() ==> #[trigger] s[i] != '['
}

proof fn lemma_no_bracket_concat(a: Seq<char>, b: Seq<char>)
    requires
        no_bracket(a),
        no_bracket(b),
    ensures
        no_bracket(a + b),
{
    assert forall|i: int| 0 <= i < (a + b).len() implies #[trigger] (a + b)[i] != '[' by {
        if i < a.len() {
            assert((a + b)[i] == a[i]);
        } else {
            assert((a + b)[i] == b[i - a.len()]);
        }
    }
}

proof fn lemma_join_no_bracket(pieces: Seq<Seq<char>>, sep: Seq<char>)
    requires
        no_bracket(sep),
        forall|k: int| 0 <= k < pieces.len() ==> no_bracket(#[trigger] pieces[k]),
    ensures
        no_bracket(join(pieces, sep)),
    decreases pieces.len(),
{
    if pieces.len() > 1 {
        lemma_join_no_bracket(pieces.drop_last(), sep);
        lemma_no_bracket_concat(join(pieces.drop_last(), sep), sep);
        lemma_no_bracket_concat(join(pieces.drop_last(), sep) + sep, pieces.last());
    }
}

proof fn lemma_decimal_no_bracket(n: nat)
    ensures
        no_bracket(decimal(n)),
    decreases n,
{
    if n >= 10 {
        lemma_decimal_no_bracket(n / 10);
        assert forall|i: int| 0 <= i < decimal(n).len() implies #[trigger] decimal(n)[i] != '[' by {
            if i < decimal(n / 10).len() {
                assert(decimal(n)[i] == decimal(n / 10)[i]);
            }
        }
    }
}

proof fn lemma_context_no_bracket(
    time: Seq<char>,
    fatigue: Seq<char>,
    turns: nat,
    tool_calls: nat,
    dream: bool,
    recall: Option<Seq<char>>,
)
    requires
        no_bracket(time),
        no_bracket(fatigue),
        recall matches Some(r) ==> no_bracket(r),
    ensures
        forall|k: int| 0 <= k < context_parts(time, fatigue, turns, tool_calls, dream, recall).len()
            ==> no_bracket(#[trigger] context_parts(time, fatigue, turns, tool_calls, dream, recall)[k]),
{
    reveal_strlit("当前时间：");
    reveal_strlit("你的状态：");
    reveal_strlit("本轮已对话 ");
    reveal_strlit(" 轮，使用了 ");
    reveal_strlit(" 次工具");
    reveal_strlit("你刚从梦中醒来，梦中的感受还隐约残留。");
    reveal_strlit("唤起的记忆：\n");
    lemma_no_bracket_concat(TIME_LABEL@, time);
    lemma_no_bracket_concat(STATE_LABEL@, fatigue);
    lemma_decimal_no_bracket(turns);
    lemma_decimal_no_bracket(tool_calls);
    lemma_no_bracket_concat(TURNS_LEAD@, decimal(turns));
    lemma_no_bracket_concat(TURNS_LEAD@ + decimal(turns), TURNS_MIDDLE@);
    lemma_no_bracket_concat(TURNS_LEAD@ + decimal(turns) + TURNS_MIDDLE@, decimal(tool_calls));
    lemma_no_bracket_concat(TURNS_LEAD@ + decimal(turns) + TURNS_MIDDLE@ + decimal(tool_calls), TURNS_TAIL@);
    if let Some(r) = recall {
        lemma_no_bracket_concat(RECALL_LABEL@, r);
    }
}

/// Stripping the context from a user turn built here gives back the user's
/// words without leading white space, whatever they are, as long as the
/// context lines themselves hold no `[`.
pub proof fn lemma_user_turn_strips_to_input(ctx: TurnContext, input: Seq<char>)
    requires
        no_bracket(ctx.time@),
        no_bracket(ctx.fatigue_desc@),
        ctx.recall matches Some(r) ==> no_bracket(r@),
    ensures
        baked_stripped(user_turn_content(ctx, input)) == trim_start(input),
{
    let time = ctx.time@;
    let fatigue = ctx.fatigue_desc@;
    let recall = opt_seq(ctx.recall);
    let parts = context_parts(time, fatigue, ctx.turns as nat, ctx.tool_calls as nat, ctx.woke_from_dream, recall);
    let block = context_block(time, fatigue, ctx.turns as nat, ctx.tool_calls as nat, ctx.woke_from_dream, recall);
    let content = user_turn_content(ctx, input);
    let marker = USER_INPUT_MARKER@;
    reveal_strlit("[以下为系统上下文，不是用户的输入]\n");
    reveal_strlit("[以下是用户的输入]\n");
    lemma_context_no_bracket(time, fatigue, ctx.turns as nat, ctx.tool_calls as nat, ctx.woke_from_dream, recall);
    assert(no_bracket(seq!['\n']));
    lemma_join_no_bracket(parts, seq!['\n']);
    let body = join(parts, seq!['\n']) + seq!['\n', '\n'];
    assert(no_bracket(seq!['\n', '\n']));
    lemma_no_bracket_concat(join(parts, seq!['\n']), seq!['\n', '\n']);
    assert(block =~= CONTEXT_HEADER@ + body);
    assert(content =~= block + marker + input);
    assert(occurs_at(content, marker, block.len() as int)) by {
        assert(content.subrange(block.len() as int, (block.len() + marker.len()) as int) =~= marker);
    }
    assert forall|m: int| 0 <= m < block.len() implies !occurs_at(content, marker, m) by {
        if occurs_at(content, marker, m) {
            assert(content.subrange(m, m + marker.len())[0] == marker[0]);
            assert(content.subrange(m, m + marker.len())[3] == marker[3]);
            assert(content[m] == '[');
            if m == 0 {
                assert(content[3] == block[3]);
                assert(block[3] == CONTEXT_HEADER@[3]);
            } else if m < CONTEXT_HEADER@.len() {
                assert(block[m] == CONTEXT_HEADER@[m]);
            } else {
                assert(block[m] == body[m - CONTEXT_HEADER@.len()]);
            }
        }
    }
    lemma_find_from(content, marker, 0);
    assert(find_first(content, marker) == Some(block.len() as int));
    assert(content.skip((block.len() + marker.len()) as int) =~= input);
}

/// The clock's text holds no `[`.
pub proof fn lemma_time_text_no_bracket(s: Seq<char>)
    requires
        is_time_text(s),
    ensures
        no_bracket(s),
{
    assert forall|i: int| 0 <= i < s.len() implies #[trigger] s[i] != '[' by {
        assert(is_time_char(s[i]));
    }
}

/// The context of a user turn as of now: the local clock gives the time.
pub fn turn_context_now(
    fatigue_desc: String,
    turns: u32,
    tool_calls: u32,
    woke_from_dream: bool,
    recall: Option<String>,
) -> (r: TurnContext)
    ensures
        is_time_text(r.time@),
        r.time@.len() >= 16,
        ends_like(r.time@, "-##-## ##:##"@),
        r.fatigue_desc == fatigue_desc,
        r.turns == turns,
        r.tool_calls == tool_calls,
        r.woke_from_dream == woke_from_dream,
        r.recall == recall,
{
    TurnContext { time: local_minute_text(), fatigue_desc, turns, tool_calls, woke_from_dream, recall }
}

/// Records what the user typed, behind the context block, as a user
/// message named `user`; the turn has unsaved changes afterwards.
pub fn push_user_message(history: &mut History, turn: &mut TurnState, ctx: &TurnContext, content: &str)
    ensures
        final(history)@.len() == old(history)@.len() + 1,
        final(history)@.drop_last() == old(history)@,
        final(history)@.last().role == Role::User,
        final(history)@.last().content matches Some(c) && c@ == user_turn_content(*ctx, content@),
        final(history)@.last().name matches Some(n) && n@ == "user"@,
        final(history)@.last().reasoning_content is None,
        final(history)@.last().tool_calls is None,
        final(history)@.last().tool_call_id is None,
        final(history)@.last().usage is None,
        final(turn)@ == (TurnView { dirty: true, ..old(turn)@ }),
{
    let full = build_user_turn_content(ctx, content);
    history.push(ChatMessage {
        role: Role::User,
        content: Some(full),
        reasoning_content: None,
        tool_calls: None,
        tool_call_id: None,
        name: Some(String::from_str("user")),
        usage: None,
    });
    turn.mark_dirty();
}

} // verus!
