use vstd::prelude::*;

use crate::agent::dispatch::{
    approval_preview, call_plan_spec, denied_message, diff_preview, extract_diff_preview,
    make_approval_preview, permission_for, plan_single_call, preview_view, CallPlan, ProcessOutcome,
    PENDING_APPROVAL,
};
use crate::agent::events::{approval_is_diff, approval_label, format_approval_label};
use crate::agent::group::PendingApproval;
use crate::agent::history::{opt_view, History};
use crate::agent::turn::{ModePolicy, TurnState, TurnView};
use crate::llm::types::{ChatMessage, Role, ToolCall};
use crate::permission::{PermissionAction, PermissionEvaluator};

verus! {

/// `h2` is `h` with a tool result for call `id` reading `text` appended.
pub open spec fn result_appended(h: Seq<ChatMessage>, id: Seq<char>, text: Seq<char>, h2: Seq<ChatMessage>) -> bool {
    &&& h2.len() == h.len() + 1
    &&& h2.drop_last() == h
    &&& tool_result_for(h2.last(), id, text)
}

/// `m` is a tool result for call `id` reading `text`.
pub open spec fn tool_result_for(m: ChatMessage, id: Seq<char>, text: Seq<char>) -> bool {
    &&& m.role == Role::Tool
    &&& opt_view(m.content) == Some(text)
    &&& opt_view(m.tool_call_id) == Some(id)
    &&& m.reasoning_content is None
    &&& m.tool_calls is None
    &&& m.name is None
}

/// Records the result of call `call_id` when the mode keeps history.
pub fn record_result(history: &mut History, accumulate: bool, call_id: String, result: String)
    ensures
        accumulate ==> result_appended(old(history)@, call_id@, result@, final(history)@),
        !accumulate ==> final(history)@ == old(history)@,
{
    if accumulate {
        history.record_tool_result(call_id, result);
    }
}

/// What the caller does next with a single call that the library decided.
#[derive(Debug)]
pub enum CallStep {
    /// The call is settled with this result (already recorded): report it.
    Report { call_id: String, name: String, result: String },
    /// The call may run: announce it, run it, then record its result with
    /// this diff preview.
    Execute { call_id: String, name: String, arguments: String, diff_preview: Option<String> },
    /// The call waits for the user: show this approval request.
    Approval {
        call_id: String,
        tool_name: String,
        tool_target: Option<String>,
        preview: String,
        tool_label: String,
        is_diff: bool,
    },
}

/// The tool's own preview when it produced one.
pub open spec fn own_preview(p: Option<Result<Option<Seq<char>>, Seq<char>>>) -> Option<Seq<char>> {
    match p {
        Some(Ok(Some(s))) => Some(s),
        _ => None,
    }
}

fn own_preview_exec(p: &Option<Result<Option<String>, String>>) -> (r: Option<String>)
    ensures
        opt_view(r) == own_preview(preview_view(p)),
{
    match p {
        Some(Ok(Some(s))) => Some(s.clone()),
        _ => None,
    }
}

/// Decides one tool call. Arguments that are not JSON, and calls the
/// permissions deny, are settled with a message as their result; allowed
/// calls are handed back to run; the others wait for the user, with a
/// pending result recorded and the call kept as the turn's pending approval.
pub fn process_single_call(
    turn: &mut TurnState,
    history: &mut History,
    policy: &ModePolicy,
    permissions: &PermissionEvaluator,
    tc: ToolCall,
    target: Option<String>,
    tool_preview: Option<Result<Option<String>, String>>,
) -> (r: (ProcessOutcome, CallStep))
    ensures
        ({
            let perm = permission_for(policy.skip_permissions, permissions@, tc.function.name@, opt_view(target));
            let plan = call_plan_spec(tc.function.arguments@, tc.function.name@, perm);
            let preview = approval_preview(tc.function.name@, tc.function.arguments@, preview_view(&tool_preview));
            &&& (plan.0 == 0 || plan.0 == 2) ==> {
                &&& r.0 == ProcessOutcome::Continue
                &&& r.1 matches CallStep::Report { call_id, name, result } && call_id@ == tc.id@ && name@
                    == tc.function.name@ && result@ == plan.1
                &&& policy.accumulate_history ==> result_appended(old(history)@, tc.id@, plan.1, final(history)@)
                &&& !policy.accumulate_history ==> final(history)@ == old(history)@
                &&& final(turn)@ == old(turn)@
            }
            &&& plan.0 == 1 ==> {
                &&& r.0 == ProcessOutcome::Continue
                &&& r.1 matches CallStep::Execute { call_id, name, arguments, diff_preview } && call_id@ == tc.id@
                    && name@ == tc.function.name@ && arguments@ == tc.function.arguments@ && opt_view(diff_preview)
                    == own_preview(preview_view(&tool_preview))
                &&& final(history)@ == old(history)@
                &&& final(turn)@ == old(turn)@
            }
            &&& plan.0 == 3 ==> {
                &&& r.0 == ProcessOutcome::NeedApproval
                &&& r.1 matches CallStep::Approval { call_id, tool_name, tool_target, preview: p, tool_label, is_diff }
                    && call_id@ == tc.id@ && tool_name@ == tc.function.name@ && opt_view(tool_target) == opt_view(
                    target,
                ) && p@ == preview && tool_label@ == approval_label(preview) && is_diff == approval_is_diff(preview)
                &&& policy.accumulate_history ==> result_appended(old(history)@, tc.id@, PENDING_APPROVAL@, final(history)@)
                &&& !policy.accumulate_history ==> final(history)@ == old(history)@
                &&& final(turn)@.queue == old(turn)@.queue
                &&& final(turn)@.iteration == old(turn)@.iteration
                &&& final(turn)@.dirty == old(turn)@.dirty
                &&& final(turn)@.pending matches Some(PendingApproval::Single { tc_ids, tool_name, args, display_args, preview: dp })
                    && tc_ids@.len() == 1 && tc_ids@[0]@ == tc.id@ && tool_name@ == tc.function.name@ && args@
                    == tc.function.arguments@ && display_args@ == tc.function.arguments@ && opt_view(dp) == diff_preview(preview)
            }
        }),
{
    let plan = plan_single_call(
        tc.function.arguments.as_str(),
        tc.function.name.as_str(),
        policy.skip_permissions,
        permissions,
        match &target {
            Some(t) => Some(t.as_str()),
            None => None,
        },
    );
    match plan {
        CallPlan::InvalidArguments { message } | CallPlan::Deny { message } => {
            record_result(history, policy.accumulate_history, tc.id.clone(), message.clone());
            (ProcessOutcome::Continue, CallStep::Report { call_id: tc.id, name: tc.function.name, result: message })
        },
        CallPlan::Execute => {
            let diff_preview = own_preview_exec(&tool_preview);
            (
                ProcessOutcome::Continue,
                CallStep::Execute {
                    call_id: tc.id,
                    name: tc.function.name,
                    arguments: tc.function.arguments,
                    diff_preview,
                },
            )
        },
        CallPlan::Ask => {
            let preview = make_approval_preview(tc.function.name.as_str(), tc.function.arguments.as_str(), &tool_preview);
            let dp = extract_diff_preview(preview.as_str());
            let (tool_label, is_diff) = format_approval_label(preview.as_str());
            record_result(history, policy.accumulate_history, tc.id.clone(), String::from_str(PENDING_APPROVAL));
            let mut ids: Vec<String> = Vec::new();
            ids.push(tc.id.clone());
            turn.await_approval(
                PendingApproval::Single {
                    tc_ids: ids,
                    tool_name: tc.function.name.clone(),
                    args: tc.function.arguments.clone(),
                    display_args: tc.function.arguments.clone(),
                    preview: dp,
                },
            );
            (
                ProcessOutcome::NeedApproval,
                CallStep::Approval {
                    call_id: tc.id,
                    tool_name: tc.function.name,
                    tool_target: target,
                    preview,
                    tool_label,
                    is_diff,
                },
            )
        },
    }
}

/// `h2` is `h` with a tool result reading `text` appended for each of `ids`, in order.
pub open spec fn results_appended(h: Seq<ChatMessage>, ids: Seq<Seq<char>>, text: Seq<char>, h2: Seq<ChatMessage>) -> bool {
    &&& h2.len() == h.len() + ids.len()
    &&& h2.take(h.len() as int) == h
    &&& forall|k: int| 0 <= k < ids.len() ==> tool_result_for(#[trigger] h2[h.len() + k], ids[k], text)
}

pub open spec fn id_views(ids: Seq<String>) -> Seq<Seq<char>> {
    ids.map_values(|s: String| s@)
}

/// Records `text` as the result of each of `ids` when the mode keeps history.
pub fn record_results(history: &mut History, accumulate: bool, ids: &Vec<String>, text: &str)
    ensures
        accumulate ==> results_appended(old(history)@, id_views(ids@), text@, final(history)@),
        !accumulate ==> final(history)@ == old(history)@,
{
    if !accumulate {
        return;
    }
    let ghost start = history@;
    proof {
        assert(start.take(start.len() as int) =~= start);
    }
    let mut i: usize = 0;
    while i < ids.len()
        invariant
            i <= ids.len(),
            results_appended(start, id_views(ids@).take(i as int), text@, history@),
        decreases ids.len() - i,
    {
        let ghost before = history@;
        history.record_tool_result(ids[i].clone(), String::from_str(text));
        proof {
            let iv = id_views(ids@).take(i + 1);
            assert(history@.take(start.len() as int) =~= start) by {
                assert(before.take(start.len() as int) =~= start);
                assert forall|k: int| 0 <= k < start.len() implies history@[k] == start[k] by {
                    assert(history@[k] == before[k]);
                    assert(before[k] == before.take(start.len() as int)[k]);
                }
            }
            assert forall|k: int| 0 <= k < iv.len() implies tool_result_for(
                #[trigger] history@[start.len() + k],
                iv[k],
                text@,
            ) by {
                if k < i {
                    assert(history@[start.len() + k] == before[start.len() + k]);
                    assert(iv[k] == id_views(ids@).take(i as int)[k]);
                }
            }
        }
        i = i + 1;
    }
    proof {
        assert(id_views(ids@).take(ids.len() as int) =~= id_views(ids@));
    }
}

/// What the caller does next with a batch of edits that the library decided.
#[derive(Debug)]
pub enum BatchStep {
    /// Every call of the batch is settled with this result (already recorded).
    Report { call_ids: Vec<String>, result: String },
    /// The batch may run: announce each call with `display_args`, apply the
    /// edits to `path`, then record the summary for each call.
    Execute {
        call_ids: Vec<String>,
        path: String,
        edits: Vec<(String, String)>,
        display_args: String,
        diff_preview: Option<String>,
    },
    /// The batch waits for the user: show this approval request.
    Approval { call_id: String, preview: String, tool_label: String, is_diff: bool },
}

/// The text shown for approving a batch: its preview, or why none could be made.
pub open spec fn batch_preview(preview: Result<Seq<char>, Seq<char>>) -> Seq<char> {
    match preview {
        Ok(p) => p,
        Err(e) => "Preview failed: "@ + e,
    }
}

pub open spec fn grouped_ids(edits: Seq<crate::agent::group::GroupedEdit>) -> Seq<Seq<char>> {
    edits.map_values(|e: crate::agent::group::GroupedEdit| e.tc_id@)
}

/// Decides a batch of edits to one file: the permission for `edit_file` on
/// `path` settles it, runs it, or makes it wait for the user.
pub fn process_batched_edits(
    turn: &mut TurnState,
    history: &mut History,
    policy: &ModePolicy,
    permissions: &PermissionEvaluator,
    path: String,
    edits: Vec<crate::agent::group::GroupedEdit>,
    preview: Result<String, String>,
) -> (r: (ProcessOutcome, BatchStep))
    ensures
        ({
            let perm = permission_for(policy.skip_permissions, permissions@, "edit_file"@, Some(path@));
            let ids = grouped_ids(edits@);
            let shown = batch_preview(match preview {
                Ok(p) => Ok(p@),
                Err(e) => Err(e@),
            });
            &&& perm == PermissionAction::Deny ==> {
                &&& r.0 == ProcessOutcome::Continue
                &&& r.1 matches BatchStep::Report { call_ids, result } && id_views(call_ids@) == ids
                    && result@ == denied_message("edit_file"@)
                &&& policy.accumulate_history ==> results_appended(old(history)@, ids, denied_message("edit_file"@), final(history)@)
                &&& !policy.accumulate_history ==> final(history)@ == old(history)@
                &&& final(turn)@ == old(turn)@
            }
            &&& perm == PermissionAction::Allow ==> {
                &&& r.0 == ProcessOutcome::Continue
                &&& r.1 matches BatchStep::Execute { call_ids, path: p, edits: es, display_args, diff_preview }
                    && id_views(call_ids@) == ids && p == path && es@.len() == edits@.len() && (forall|k: int|
                    0 <= k < es@.len() ==> (#[trigger] es@[k]).0@ == edits@[k].search@ && es@[k].1@ == edits@[k].replace@)
                    && display_args@ == crate::json::json_path_count_text(path@, edits@.len() as nat)
                    && diff_preview == match preview {
                        Ok(p) => Some(p),
                        Err(_) => None::<String>,
                    }
                &&& final(history)@ == old(history)@
                &&& final(turn)@ == old(turn)@
            }
            &&& perm == PermissionAction::Ask ==> {
                &&& r.0 == ProcessOutcome::NeedApproval
                &&& r.1 matches BatchStep::Approval { call_id, preview: p, tool_label, is_diff } && call_id@ == (
                    if ids.len() > 0 { ids[0] } else { Seq::empty() }) && p@ == shown && tool_label@ == approval_label(shown)
                    && is_diff == approval_is_diff(shown)
                &&& policy.accumulate_history ==> results_appended(old(history)@, ids, PENDING_APPROVAL@, final(history)@)
                &&& !policy.accumulate_history ==> final(history)@ == old(history)@
                &&& final(turn)@.queue == old(turn)@.queue
                &&& final(turn)@.iteration == old(turn)@.iteration
                &&& final(turn)@.dirty == old(turn)@.dirty
                &&& final(turn)@.pending matches Some(PendingApproval::BatchedEdit { tc_ids, path: p, edits: es, display_args, preview: dp })
                    && id_views(tc_ids@) == ids && p == path && es@.len() == edits@.len() && (forall|k: int|
                    0 <= k < es@.len() ==> (#[trigger] es@[k]).tc_id@ == edits@[k].tc_id@ && es@[k].search@
                    == edits@[k].search@ && es@[k].replace@ == edits@[k].replace@) && display_args@
                    == crate::json::json_path_count_text(path@, edits@.len() as nat) && opt_view(dp) == diff_preview(shown)
            }
        }),
{
    let perm = crate::agent::dispatch::evaluate_permission(
        policy.skip_permissions,
        permissions,
        "edit_file",
        Some(path.as_str()),
    );
    let mut ids: Vec<String> = Vec::new();
    let mut i: usize = 0;
    while i < edits.len()
        invariant
            i <= edits.len(),
            id_views(ids@) == grouped_ids(edits@).take(i as int),
        decreases edits.len() - i,
    {
        let ghost before = ids@;
        let id = edits[i].tc_id.clone();
        ids.push(id);
        proof {
            assert(ids@ =~= before.push(id));
            assert(id_views(ids@) =~= id_views(before).push(id@));
            assert(id_views(ids@) =~= grouped_ids(edits@).take(i + 1));
        }
        i = i + 1;
    }
    proof {
        assert(grouped_ids(edits@).take(edits.len() as int) =~= grouped_ids(edits@));
    }
    match perm {
        PermissionAction::Deny => {
            let msg = crate::agent::dispatch::denied_text("edit_file");
            record_results(history, policy.accumulate_history, &ids, msg.as_str());
            (ProcessOutcome::Continue, BatchStep::Report { call_ids: ids, result: msg })
        },
        PermissionAction::Allow => {
            let display_args = crate::agent::dispatch::batch_display_args(path.as_str(), edits.len());
            let mut pairs: Vec<(String, String)> = Vec::new();
            let mut k: usize = 0;
            while k < edits.len()
                invariant
                    k <= edits.len(),
                    pairs@.len() == k,
                    forall|j: int| 0 <= j < k ==> (#[trigger] pairs@[j]).0@ == edits@[j].search@ && pairs@[j].1@ == edits@[j].replace@,
                decreases edits.len() - k,
            {
                pairs.push((edits[k].search.clone(), edits[k].replace.clone()));
                k = k + 1;
            }
            let diff_preview = match preview {
                Ok(p) => Some(p),
                Err(_) => None,
            };
            (
                ProcessOutcome::Continue,
                BatchStep::Execute { call_ids: ids, path, edits: pairs, display_args, diff_preview },
            )
        },
        PermissionAction::Ask => {
            let display_args = crate::agent::dispatch::batch_display_args(path.as_str(), edits.len());
            let shown = match preview {
                Ok(p) => p,
                Err(e) => {
                    let mut v = crate::text::chars_of("Preview failed: ");
                    crate::text::append_str(&mut v, e.as_str());
                    crate::text::string_of(&v)
                },
            };
            record_results(history, policy.accumulate_history, &ids, PENDING_APPROVAL);
            let mut batched: Vec<crate::agent::group::BatchedEdit> = Vec::new();
            let mut k: usize = 0;
            while k < edits.len()
                invariant
                    k <= edits.len(),
                    batched@.len() == k,
                    forall|j: int| 0 <= j < k ==> (#[trigger] batched@[j]).tc_id@ == edits@[j].tc_id@
                        && batched@[j].search@ == edits@[j].search@ && batched@[j].replace@ == edits@[j].replace@,
                decreases edits.len() - k,
            {
                batched.push(
                    crate::agent::group::BatchedEdit {
                        tc_id: edits[k].tc_id.clone(),
                        search: edits[k].search.clone(),
                        replace: edits[k].replace.clone(),
                    },
                );
                k = k + 1;
            }
            let first_id = if ids.len() > 0 { ids[0].clone() } else { String::new() };
            let dp = extract_diff_preview(shown.as_str());
            let (tool_label, is_diff) = format_approval_label(shown.as_str());
            turn.await_approval(
                PendingApproval::BatchedEdit { tc_ids: ids, path, edits: batched, display_args, preview: dp },
            );
            (ProcessOutcome::NeedApproval, BatchStep::Approval { call_id: first_id, preview: shown, tool_label, is_diff })
        },
    }
}

/// The work the user approved.
#[derive(Debug)]
pub enum ApprovedWork {
    /// Run the tool with these JSON arguments.
    Single { arguments: String },
    /// Apply these search/replace edits to `path`.
    Batch { path: String, edits: Vec<(String, String)> },
}

/// An approved call (or batch), ready to run: the calls it settles, the
/// tool, how each call is announced, and its diff preview.
#[derive(Debug)]
pub struct Approved {
    pub call_ids: Vec<String>,
    pub tool_name: String,
    pub display: String,
    pub preview: Option<String>,
    pub work: ApprovedWork,
}

fn clone_ids(ids: &Vec<String>) -> (r: Vec<String>)
    ensures
        id_views(r@) == id_views(ids@),
{
    let mut r: Vec<String> = Vec::new();
    let mut i: usize = 0;
    while i < ids.len()
        invariant
            i <= ids.len(),
            id_views(r@) == id_views(ids@).take(i as int),
        decreases ids.len() - i,
    {
        let ghost before = r@;
        let id = ids[i].clone();
        r.push(id);
        proof {
            assert(id_views(r@) =~= id_views(before).push(id@));
            assert(id_views(r@) =~= id_views(ids@).take(i + 1));
        }
        i = i + 1;
    }
    proof {
        assert(id_views(ids@).take(ids.len() as int) =~= id_views(ids@));
    }
    r
}

/// Takes the pending approval to run it; `None` when nothing waits.
pub fn approve_pending(turn: &mut TurnState) -> (r: Option<Approved>)
    ensures
        final(turn)@.pending is None,
        final(turn)@.queue == old(turn)@.queue,
        final(turn)@.iteration == old(turn)@.iteration,
        final(turn)@.dirty == old(turn)@.dirty,
        r is Some == old(turn)@.pending is Some,
        r matches Some(a) ==> {
            let p = old(turn)@.pending->0;
            &&& id_views(a.call_ids@) == id_views(p.ids())
            &&& a.tool_name@ == p.name_spec()
            &&& match p {
                PendingApproval::Single { args, display_args, preview, .. } => {
                    &&& a.display@ == crate::agent::events::tool_call_display(p.name_spec(), display_args@)
                    &&& opt_view(a.preview) == opt_view(preview)
                    &&& a.work matches ApprovedWork::Single { arguments } && arguments@ == args@
                },
                PendingApproval::BatchedEdit { path, edits, display_args, preview, .. } => {
                    &&& a.display@ == crate::agent::events::tool_call_display(p.name_spec(), display_args@)
                    &&& opt_view(a.preview) == opt_view(preview)
                    &&& a.work matches ApprovedWork::Batch { path: wp, edits: es } && wp@ == path@ && es@.len()
                        == edits@.len() && forall|k: int| 0 <= k < es@.len() ==> (#[trigger] es@[k]).0@
                        == edits@[k].search@ && es@[k].1@ == edits@[k].replace@
                },
            }
        },
{
    let pending = match turn.take_pending() {
        Some(p) => p,
        None => return None,
    };
    let call_ids = clone_ids(pending.tc_ids());
    let tool_name = String::from_str(pending.tool_name());
    let display = crate::agent::events::format_tool_call_display(pending.tool_name(), pending.display_args());
    let preview = match pending.preview() {
        Some(p) => Some(String::from_str(p)),
        None => None,
    };
    let work = match &pending {
        PendingApproval::Single { args, .. } => ApprovedWork::Single { arguments: args.clone() },
        PendingApproval::BatchedEdit { path, edits, .. } => {
            let mut pairs: Vec<(String, String)> = Vec::new();
            let mut k: usize = 0;
            while k < edits.len()
                invariant
                    k <= edits.len(),
                    pairs@.len() == k,
                    forall|j: int| 0 <= j < k ==> (#[trigger] pairs@[j]).0@ == edits@[j].search@ && pairs@[j].1@ == edits@[j].replace@,
                decreases edits.len() - k,
            {
                pairs.push((edits[k].search.clone(), edits[k].replace.clone()));
                k = k + 1;
            }
            ApprovedWork::Batch { path: path.clone(), edits: pairs }
        },
    };
    Some(Approved { call_ids, tool_name, display, preview, work })
}

/// Takes the model's reply: it counts as one request, is recorded (with its
/// token usage) when the mode keeps history, and its tool calls (if any) are
/// grouped and queued.
/// Returns whether the turn goes on.
pub fn record_model_reply(
    turn: &mut TurnState,
    history: &mut History,
    policy: &ModePolicy,
    content: Option<String>,
    reasoning: Option<String>,
    tool_calls: Option<Vec<ToolCall>>,
    usage: Option<crate::llm::UsageMetrics>,
) -> (more: bool)
    requires
        old(turn)@.iteration < usize::MAX,
    ensures
        more == tool_calls is Some,
        final(turn)@.iteration == old(turn)@.iteration + 1,
        final(turn)@.dirty == (old(turn)@.dirty || policy.accumulate_history),
        final(turn)@.pending == old(turn)@.pending,
        match tool_calls {
            Some(tcs) => final(turn)@.queue == crate::agent::group::grouped(tcs@),
            None => final(turn)@.queue == old(turn)@.queue,
        },
        policy.accumulate_history ==> {
            &&& final(history)@.len() == old(history)@.len() + 1
            &&& final(history)@.drop_last() == old(history)@
            &&& final(history)@.last().role == Role::Assistant
            &&& final(history)@.last().content == content
            &&& final(history)@.last().usage == usage
            &&& final(history)@.last().reasoning_content == if tool_calls is Some { reasoning } else { None }
            &&& match tool_calls {
                Some(tcs) => final(history)@.last().tool_calls matches Some(v) && v@ == tcs@,
                None => final(history)@.last().tool_calls is None,
            }
        },
        !policy.accumulate_history ==> final(history)@ == old(history)@,
{
    if policy.accumulate_history {
        let recorded = match &tool_calls {
            Some(v) => Some(crate::llm::types::duplicate_calls(v)),
            None => None,
        };
        history.record_assistant(content, reasoning, recorded, usage);
    }
    turn.on_model_reply(tool_calls, policy.accumulate_history)
}

/// A call that waited for the user has its placeholder result replaced,
/// not followed, by the decided one: after the pending result for `id` was
/// appended, recording the decision rewrites that very message.
pub proof fn lemma_decision_replaces_placeholder(
    h: Seq<ChatMessage>,
    id: Seq<char>,
    h2: Seq<ChatMessage>,
    decided: Seq<char>,
    h3: Seq<ChatMessage>,
)
    requires
        result_appended(h, id, PENDING_APPROVAL@, h2),
        crate::agent::turn::result_recorded(h2, id, decided, h3),
    ensures
        h3.len() == h2.len(),
        h3.take(h.len() as int) == h,
        tool_result_for(h3[h.len() as int], id, decided),
{
    assert(h2[h2.len() - 1] == h2.last());
    assert(crate::agent::history::last_result_for(h2, id, h2.len() - 1) == Some(h2.len() - 1));
    let c = choose|c: String| #![auto] c@ == decided && match crate::agent::history::last_result_for(h2, id, h2.len() - 1) {
        Some(i) => h3 == h2.update(i, ChatMessage { content: Some(c), ..h2[i] }),
        None => false,
    };
    assert(h3.take(h.len() as int) =~= h2.drop_last());
}

} // verus!
