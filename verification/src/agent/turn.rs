use vstd::prelude::*;

use crate::agent::dispatch::{rejection_message, rejection_text};
use crate::agent::group::{group_tool_calls, group_views, grouped, GroupView, PendingApproval, ToolCallGroup};
use crate::agent::history::{last_result_for, opt_view, History};
use crate::llm::types::{ChatMessage, Role, ToolCall};

verus! {

/// How a run mode uses the shared turn machinery.
#[derive(Debug, Clone, Copy)]
pub struct ModePolicy {
    pub include_history: bool,
    pub accumulate_history: bool,
    pub skip_permissions: bool,
    pub stream_to_tui: bool,
    /// The mode's own iteration limit, if it has one.
    pub max_iterations: Option<usize>,
}

/// The iteration limit of the sleeping mode.
pub const SLEEP_MAX_ITERATIONS: usize = 10;

impl ModePolicy {
    /// The awake mode: full history, permission checks, streaming, the configured limit.
    pub fn awake() -> (r: Self)
        ensures
            r.include_history && r.accumulate_history && !r.skip_permissions && r.stream_to_tui,
            r.max_iterations is None,
    {
        ModePolicy {
            include_history: true,
            accumulate_history: true,
            skip_permissions: false,
            stream_to_tui: true,
            max_iterations: None,
        }
    }

    /// The sleeping mode: no permission checks, nothing streamed, at most ten iterations.
    pub fn sleeping() -> (r: Self)
        ensures
            r.include_history && r.accumulate_history && r.skip_permissions && !r.stream_to_tui,
            r.max_iterations == Some(SLEEP_MAX_ITERATIONS),
    {
        ModePolicy {
            include_history: true,
            accumulate_history: true,
            skip_permissions: true,
            stream_to_tui: false,
            max_iterations: Some(SLEEP_MAX_ITERATIONS),
        }
    }

    /// The mode's limit, else the configured one.
    pub fn max_iterations_or(&self, configured: u32) -> (r: usize)
        ensures
            r == match self.max_iterations {
                Some(m) => m,
                None => configured as usize,
            },
    {
        match self.max_iterations {
            Some(m) => m,
            None => configured as usize,
        }
    }
}

/// What the user is shown when a turn stops at its iteration limit.
pub const LIMIT_NOTICE: &'static str = "[Reached maximum iterations]";

/// The next thing a turn does.
#[derive(Debug)]
pub enum StepAction {
    /// Dispatch this group of tool calls.
    Dispatch(ToolCallGroup),
    /// The iteration limit is reached; the turn ends.
    LimitReached,
    /// Ask the model for its next reply.
    RequestModel,
}

/// The per-turn state of the agent: queued tool-call groups, model
/// requests made so far, the call waiting for approval, unsaved changes.
pub struct TurnState {
    tool_queue: Vec<ToolCallGroup>,
    iteration: usize,
    pending_approval: Option<PendingApproval>,
    dirty: bool,
}

pub struct TurnView {
    pub queue: Seq<GroupView>,
    pub iteration: nat,
    pub pending: Option<PendingApproval>,
    pub dirty: bool,
}

impl View for TurnState {
    type V = TurnView;

    closed spec fn view(&self) -> TurnView {
        TurnView {
            queue: group_views(self.tool_queue@),
            iteration: self.iteration as nat,
            pending: self.pending_approval,
            dirty: self.dirty,
        }
    }
}

impl TurnState {
    pub fn new() -> (r: Self)
        ensures
            r@.queue.len() == 0,
            r@.iteration == 0,
            r@.pending is None,
            !r@.dirty,
    {
        let r = TurnState { tool_queue: Vec::new(), iteration: 0, pending_approval: None, dirty: false };
        assert(r@.queue =~= Seq::<GroupView>::empty());
        r
    }

    /// A new user message starts a fresh turn.
    pub fn reset_iteration(&mut self)
        ensures
            final(self)@.queue.len() == 0,
            final(self)@.iteration == 0,
            final(self)@.pending == old(self)@.pending,
            final(self)@.dirty == old(self)@.dirty,
    {
        self.iteration = 0;
        self.tool_queue = Vec::new();
        assert(self@.queue =~= Seq::<GroupView>::empty());
    }

    /// Queued groups go first; with none left, the model is asked again
    /// unless `max_iterations` requests have been made.
    pub fn next_step(&mut self, max_iterations: usize) -> (r: StepAction)
        ensures
            old(self)@.queue.len() > 0 ==> (r matches StepAction::Dispatch(g) && g.view_spec()
                == old(self)@.queue[0]),
            old(self)@.queue.len() > 0 ==> final(self)@.queue == old(self)@.queue.drop_first(),
            old(self)@.queue.len() == 0 ==> final(self)@.queue == old(self)@.queue,
            old(self)@.queue.len() == 0 && old(self)@.iteration >= max_iterations ==> r is LimitReached,
            old(self)@.queue.len() == 0 && old(self)@.iteration < max_iterations ==> r is RequestModel,
            final(self)@.iteration == old(self)@.iteration,
            final(self)@.pending == old(self)@.pending,
            final(self)@.dirty == old(self)@.dirty,
    {
        if self.tool_queue.len() > 0 {
            let g = self.tool_queue.remove(0);
            assert(self@.queue =~= old(self)@.queue.drop_first());
            return StepAction::Dispatch(g);
        }
        if self.iteration >= max_iterations {
            StepAction::LimitReached
        } else {
            StepAction::RequestModel
        }
    }

    /// Counts the reply; its tool calls (if any) are grouped and queued.
    /// Returns whether the turn goes on (there were tool calls).
    pub fn on_model_reply(&mut self, tool_calls: Option<Vec<ToolCall>>, accumulate_history: bool) -> (more: bool)
        requires
            old(self)@.iteration < usize::MAX,
        ensures
            final(self)@.iteration == old(self)@.iteration + 1,
            final(self)@.dirty == (old(self)@.dirty || accumulate_history),
            final(self)@.pending == old(self)@.pending,
            more == tool_calls is Some,
            match tool_calls {
                Some(tcs) => final(self)@.queue == grouped(tcs@),
                None => final(self)@.queue == old(self)@.queue,
            },
    {
        self.iteration = self.iteration + 1;
        if accumulate_history {
            self.dirty = true;
        }
        match tool_calls {
            Some(tcs) => {
                self.tool_queue = group_tool_calls(tcs);
                true
            },
            None => false,
        }
    }

    /// A group needs the user's decision; the turn pauses.
    pub fn await_approval(&mut self, pending: PendingApproval)
        ensures
            final(self)@.pending == Some(pending),
            final(self)@.queue == old(self)@.queue,
            final(self)@.iteration == old(self)@.iteration,
            final(self)@.dirty == old(self)@.dirty,
    {
        self.pending_approval = Some(pending);
    }

    /// Takes the call waiting for approval (it is decided once).
    pub fn take_pending(&mut self) -> (r: Option<PendingApproval>)
        ensures
            r == old(self)@.pending,
            final(self)@.pending is None,
            final(self)@.queue == old(self)@.queue,
            final(self)@.iteration == old(self)@.iteration,
            final(self)@.dirty == old(self)@.dirty,
    {
        self.pending_approval.take()
    }

    pub fn has_pending(&self) -> (r: bool)
        ensures
            r == self@.pending is Some,
    {
        self.pending_approval.is_some()
    }

    pub fn iteration(&self) -> (r: usize)
        ensures
            r == self@.iteration,
    {
        self.iteration
    }

    pub fn queue_len(&self) -> (r: usize)
        ensures
            r == self@.queue.len(),
    {
        self.tool_queue.len()
    }

    pub fn is_dirty(&self) -> (r: bool)
        ensures
            r == self@.dirty,
    {
        self.dirty
    }

    pub fn mark_dirty(&mut self)
        ensures
            final(self)@ == (TurnView { dirty: true, ..old(self)@ }),
    {
        self.dirty = true;
    }

    /// After saving: nothing left unsaved. Returns whether there was anything.
    pub fn take_dirty(&mut self) -> (was: bool)
        ensures
            was == old(self)@.dirty,
            final(self)@ == (TurnView { dirty: false, ..old(self)@ }),
    {
        let was = self.dirty;
        self.dirty = false;
        was
    }
}

/// The history after the decided result of call `id` is recorded: the
/// latest result of that call gets it, or a new tool message is appended.
pub open spec fn result_recorded(h: Seq<ChatMessage>, id: Seq<char>, result: Seq<char>, h2: Seq<ChatMessage>) -> bool {
    exists|c: String| #![auto] c@ == result && match last_result_for(h, id, h.len() - 1) {
        Some(i) => h2 == h.update(i, ChatMessage { content: Some(c), ..h[i] }),
        None => {
            &&& h2.len() == h.len() + 1
            &&& h2.drop_last() == h
            &&& h2.last().role == Role::Tool
            &&& h2.last().content == Some(c)
            &&& opt_view(h2.last().tool_call_id) == Some(id)
        },
    }
}

/// The latest result of call `id` in `h` reads `text`.
pub open spec fn result_reads(h: Seq<ChatMessage>, id: Seq<char>, text: Seq<char>) -> bool {
    match last_result_for(h, id, h.len() - 1) {
        Some(i) => 0 <= i < h.len() && opt_view(h[i].content) == Some(text),
        None => false,
    }
}

proof fn lemma_last_result_bounds(h: Seq<ChatMessage>, id: Seq<char>, n: int)
    requires
        n < h.len(),
    ensures
        last_result_for(h, id, n) matches Some(i) ==> 0 <= i <= n && opt_view(h[i].tool_call_id) == Some(id),
    decreases n + 1,
{
    if n >= 0 {
        lemma_last_result_bounds(h, id, n - 1);
    }
}

proof fn lemma_last_result_update(h: Seq<ChatMessage>, j: int, m: ChatMessage, id: Seq<char>, n: int)
    requires
        0 <= j < h.len(),
        n < h.len(),
        opt_view(m.tool_call_id) == opt_view(h[j].tool_call_id),
    ensures
        last_result_for(h.update(j, m), id, n) == last_result_for(h, id, n),
    decreases n + 1,
{
    if n >= 0 {
        lemma_last_result_update(h, j, m, id, n - 1);
    }
}

proof fn lemma_last_result_prefix(h: Seq<ChatMessage>, h2: Seq<ChatMessage>, id: Seq<char>, n: int)
    requires
        n < h.len(),
        n < h2.len(),
        forall|k: int| 0 <= k <= n ==> h2[k] == h[k],
    ensures
        last_result_for(h2, id, n) == last_result_for(h, id, n),
    decreases n + 1,
{
    if n >= 0 {
        lemma_last_result_prefix(h, h2, id, n - 1);
    }
}

/// Recording one decided result keeps what the other calls' latest
/// results read, and makes call `id`'s read `text`.
proof fn lemma_result_recorded_reads(h: Seq<ChatMessage>, id: Seq<char>, text: Seq<char>, h2: Seq<ChatMessage>, other: Seq<char>, t2: Seq<char>)
    requires
        result_recorded(h, id, text, h2),
        other != id ==> result_reads(h, other, t2),
    ensures
        result_reads(h2, id, text),
        other != id ==> result_reads(h2, other, t2),
{
    let c = choose|c: String| #![auto] c@ == text && match last_result_for(h, id, h.len() - 1) {
        Some(i) => h2 == h.update(i, ChatMessage { content: Some(c), ..h[i] }),
        None => {
            &&& h2.len() == h.len() + 1
            &&& h2.drop_last() == h
            &&& h2.last().role == Role::Tool
            &&& h2.last().content == Some(c)
            &&& opt_view(h2.last().tool_call_id) == Some(id)
        },
    };
    lemma_last_result_bounds(h, id, h.len() - 1);
    match last_result_for(h, id, h.len() - 1) {
        Some(i) => {
            let m = ChatMessage { content: Some(c), ..h[i] };
            lemma_last_result_update(h, i, m, id, h.len() - 1);
            lemma_last_result_update(h, i, m, other, h.len() - 1);
            if other != id {
                lemma_last_result_bounds(h, other, h.len() - 1);
            }
        },
        None => {
            assert(h2[h2.len() - 1] == h2.last());
            lemma_last_result_prefix(h, h2, other, h.len() - 1);
            assert(last_result_for(h2, id, h2.len() - 1) == Some(h.len() as int));
            if other != id {
                lemma_last_result_bounds(h, other, h.len() - 1);
                assert(last_result_for(h2, other, h2.len() - 1) == last_result_for(h2, other, h.len() - 1));
                assert(h2[last_result_for(h, other, h.len() - 1)->0] == h[last_result_for(h, other, h.len() - 1)->0]);
            }
        },
    }
}

/// Records `result` as the outcome of each of the calls `ids` (when the
/// mode keeps history): afterwards the latest result of every one of them
/// reads `result`. Returns how many results replaced a pending one.
pub fn record_decided_results(history: &mut History, ids: &Vec<String>, result: &str, accumulate: bool) -> (replaced: usize)
    ensures
        !accumulate ==> final(history)@ == old(history)@ && replaced == 0,
        replaced <= ids.len(),
        accumulate ==> forall|k: int| 0 <= k < ids@.len() ==> result_reads(final(history)@, (#[trigger] ids@[k])@, result@),
        ids.len() == 1 && accumulate ==> result_recorded(old(history)@, ids@[0]@, result@, final(history)@),
{
    if !accumulate {
        return 0;
    }
    let mut replaced: usize = 0;
    let mut i: usize = 0;
    while i < ids.len()
        invariant
            i <= ids.len(),
            replaced <= i,
            ids.len() == 1 && i == 1 ==> result_recorded(old(history)@, ids@[0]@, result@, history@),
            i == 0 ==> history@ == old(history)@,
            forall|k: int| 0 <= k < i ==> result_reads(history@, (#[trigger] ids@[k])@, result@),
        decreases ids.len() - i,
    {
        let ghost before = history@;
        let content = String::from_str(result);
        let ghost c = content;
        let hit = history.update_tool_result(ids[i].as_str(), content);
        proof {
            assert(c@ == result@);
            assert(result_recorded(before, ids@[i as int]@, result@, history@));
            assert forall|k: int| 0 <= k < i + 1 implies result_reads(history@, (#[trigger] ids@[k])@, result@) by {
                if k < i {
                    lemma_result_recorded_reads(before, ids@[i as int]@, result@, history@, ids@[k]@, result@);
                } else {
                    lemma_result_recorded_reads(before, ids@[i as int]@, result@, history@, ids@[i as int]@, result@);
                }
            }
        }
        if hit {
            replaced = replaced + 1;
        }
        i = i + 1;
    }
    replaced
}

/// Rejects the pending call(s): each gets the rejection message as result.
/// Returns the ids and the message, or `None` when nothing was pending.
pub fn reject_pending(
    turn: &mut TurnState,
    history: &mut History,
    feedback: &str,
    accumulate: bool,
) -> (r: Option<(Vec<String>, String)>)
    ensures
        final(turn)@.pending is None,
        r is Some == old(turn)@.pending is Some,
        r matches Some((ids, msg)) ==> ids@ == old(turn)@.pending->0.ids() && msg@ == rejection_message(feedback@),
        accumulate ==> match r {
            Some((ids, msg)) => forall|k: int|
                0 <= k < ids@.len() ==> result_reads(final(history)@, (#[trigger] ids@[k])@, msg@),
            None => true,
        },
        !accumulate ==> final(history)@ == old(history)@,
        old(turn)@.pending is None ==> final(history)@ == old(history)@,
        final(turn)@.queue == old(turn)@.queue,
        final(turn)@.iteration == old(turn)@.iteration,
{
    let pending = match turn.take_pending() {
        Some(p) => p,
        None => return None,
    };
    let msg = rejection_text(feedback);
    let ids = pending.tc_ids();
    let mut out: Vec<String> = Vec::new();
    let mut i: usize = 0;
    while i < ids.len()
        invariant
            i <= ids.len(),
            out@ == ids@.take(i as int),
        decreases ids.len() - i,
    {
        out.push(ids[i].clone());
        proof {
            assert(ids@.take(i + 1) =~= ids@.take(i as int).push(ids@[i as int]));
        }
        i = i + 1;
    }
    proof {
        assert(ids@.take(ids.len() as int) =~= ids@);
    }
    record_decided_results(history, &out, msg.as_str(), accumulate);
    Some((out, msg))
}

/// The messages sent to the model: the system message alone when the mode
/// keeps no history; otherwise the history, led by the system message when
/// the history has none.
pub open spec fn turn_messages(history: Seq<ChatMessage>, include_history: bool, system: ChatMessage) -> Seq<ChatMessage> {
    if !include_history {
        seq![system]
    } else if exists|i: int| 0 <= i < history.len() && (#[trigger] history[i]).role == Role::System {
        history
    } else {
        seq![system] + history
    }
}

pub fn build_turn_messages(history: &History, include_history: bool, system: ChatMessage) -> (r: Vec<ChatMessage>)
    ensures
        r@.len() == turn_messages(history@, include_history, system).len(),
        forall|k: int| 0 <= k < r@.len() ==> (#[trigger] r@[k]).same_as(turn_messages(history@, include_history, system)[k]),
{
    if !include_history {
        let mut v: Vec<ChatMessage> = Vec::new();
        v.push(system);
        return v;
    }
    let msgs = history.messages();
    let mut has_system = false;
    let mut i: usize = 0;
    while i < msgs.len()
        invariant
            i <= msgs.len(),
            has_system == exists|j: int| 0 <= j < i && (#[trigger] msgs@[j]).role == Role::System,
        decreases msgs.len() - i,
    {
        if msgs[i].role == Role::System {
            has_system = true;
        }
        i = i + 1;
    }
    let ghost expected = turn_messages(history@, include_history, system);
    let mut out: Vec<ChatMessage> = Vec::new();
    let ghost offset: int = if has_system { 0 } else { 1 };
    if !has_system {
        out.push(system);
    }
    let mut k: usize = 0;
    while k < msgs.len()
        invariant
            k <= msgs.len(),
            msgs@ == history@,
            expected == turn_messages(history@, include_history, system),
            include_history,
            offset == if has_system { 0int } else { 1int },
            has_system == exists|j: int| 0 <= j < msgs@.len() && (#[trigger] msgs@[j]).role == Role::System,
            out@.len() == offset + k,
            !has_system ==> out@[0].same_as(system),
            forall|m: int| 0 <= m < k ==> (#[trigger] out@[offset + m]).same_as(msgs@[m]),
        decreases msgs.len() - k,
    {
        out.push(msgs[k].duplicate());
        k = k + 1;
    }
    assert forall|m: int| 0 <= m < out@.len() implies (#[trigger] out@[m]).same_as(expected[m]) by {
        if has_system {
            assert(out@[0 + m].same_as(msgs@[m]));
        } else if m > 0 {
            assert(out@[1 + (m - 1)].same_as(msgs@[m - 1]));
        }
    }
    out
}

} // verus!
