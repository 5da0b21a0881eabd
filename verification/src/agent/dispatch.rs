use vstd::prelude::*;

use crate::agent::events::field_or;
use crate::json::{json_check, json_compact, json_path_count, json_string_field, json_parse_error, render_json};
use crate::permission::{evaluate_spec, EvaluatorView, PermissionAction, PermissionEvaluator};
use crate::text::{
    append_str, chars_of, join, join_chars, lines, split_lines, starts_with, starts_with_str,
    str_equal, string_of, views,
};

verus! {

/// A line that belongs to a unified diff.
pub open spec fn diff_line(l: Seq<char>) -> bool {
    ||| starts_with(l, " "@)
    ||| starts_with(l, "+"@)
    ||| starts_with(l, "-"@)
    ||| starts_with(l, "@"@)
    ||| starts_with(l, "diff "@)
    ||| starts_with(l, "---"@)
    ||| starts_with(l, "+++"@)
}

/// The index of the last diff line at or before `i`.
pub open spec fn last_diff_line_from(ls: Seq<Seq<char>>, i: int) -> Option<int>
    decreases i + 1,
{
    if i < 0 {
        None
    } else if diff_line(ls[i]) {
        Some(i)
    } else {
        last_diff_line_from(ls, i - 1)
    }
}

/// The diff part of a tool preview: when the preview's first line opens a
/// diff, its lines up to the last diff line, joined by `\n`.
pub open spec fn diff_preview(preview: Seq<char>) -> Option<Seq<char>> {
    let ls = lines(preview);
    let first = if ls.len() > 0 { ls[0] } else { Seq::empty() };
    if !starts_with(first, "---"@) && !starts_with(first, "diff "@) {
        None
    } else {
        let end = match last_diff_line_from(ls, ls.len() - 1) {
            Some(e) => e,
            None => 0,
        };
        Some(join(ls.take(end + 1), "\n"@))
    }
}

/// A line belongs to a diff exactly when it begins with a space (a context
/// line), `+`, `-` or `@`, or with `diff `.
pub proof fn lemma_diff_line_by_first_char(l: Seq<char>)
    ensures
        diff_line(l) == ((l.len() > 0 && (l[0] == ' ' || l[0] == '+' || l[0] == '-' || l[0] == '@')) || (l.len()
            >= 5 && l[0] == 'd' && l[1] == 'i' && l[2] == 'f' && l[3] == 'f' && l[4] == ' ')),
{
    reveal_strlit(" ");
    reveal_strlit("+");
    reveal_strlit("-");
    reveal_strlit("@");
    reveal_strlit("diff ");
    reveal_strlit("---");
    reveal_strlit("+++");
    assert(" "@ =~= seq![' ']);
    assert("+"@ =~= seq!['+']);
    assert("-"@ =~= seq!['-']);
    assert("@"@ =~= seq!['@']);
    assert("diff "@ =~= seq!['d', 'i', 'f', 'f', ' ']);
    if l.len() >= 5 && l[0] == 'd' && l[1] == 'i' && l[2] == 'f' && l[3] == 'f' && l[4] == ' ' {
        assert(l.take(5) =~= "diff "@);
    }
    if l.len() > 0 {
        assert(l.take(1) =~= seq![l[0]]);
    }
    if starts_with(l, "diff "@) {
        assert(l.take(5)[0] == l[0] && l.take(5)[1] == l[1] && l.take(5)[2] == l[2] && l.take(5)[3] == l[3]
            && l.take(5)[4] == l[4]);
    }
    if starts_with(l, "---"@) || starts_with(l, "+++"@) {
        assert(l.take(3)[0] == l[0]);
    }
    if starts_with(l, " "@) || starts_with(l, "+"@) || starts_with(l, "-"@) || starts_with(l, "@"@) {
        assert(l.take(1)[0] == l[0]);
    }
}

/// The index of the last diff line at or before `i` is the diff line with no
/// diff line after it up to `i`; there is none when no line up to `i` is one.
proof fn lemma_last_diff_line(ls: Seq<Seq<char>>, i: int)
    requires
        -1 <= i < ls.len(),
    ensures
        match last_diff_line_from(ls, i) {
            Some(e) => 0 <= e <= i && diff_line(ls[e]) && forall|m: int| e < m <= i ==> !diff_line(#[trigger] ls[m]),
            None => forall|m: int| 0 <= m <= i ==> !diff_line(#[trigger] ls[m]),
        },
    decreases i + 1,
{
    if i >= 0 && !diff_line(ls[i]) {
        lemma_last_diff_line(ls, i - 1);
    }
}

/// The preview of an edit keeps a preview that opens a diff (its first line
/// begins with `---` or `diff `) up to its last diff line, a context line
/// included: when line `e` is a diff line and no later line is, the result
/// is the first `e + 1` lines joined by `\n`; when no line is a diff line,
/// it is the first line. Any other preview has no diff.
pub proof fn lemma_diff_preview_ends_at_last_diff_line(preview: Seq<char>)
    ensures
        ({
            let ls = lines(preview);
            let first = if ls.len() > 0 { ls[0] } else { Seq::empty() };
            let opens = starts_with(first, "---"@) || starts_with(first, "diff "@);
            &&& !opens ==> diff_preview(preview) is None
            &&& forall|e: int|
                opens && 0 <= e < ls.len() && diff_line(#[trigger] ls[e]) && (forall|m: int|
                    e < m < ls.len() ==> !diff_line(#[trigger] ls[m])) ==> diff_preview(preview) == Some(
                    join(ls.take(e + 1), "\n"@),
                )
            &&& opens && (forall|m: int| 0 <= m < ls.len() ==> !diff_line(#[trigger] ls[m])) ==> diff_preview(
                preview,
            ) == Some(join(ls.take(1), "\n"@))
        }),
{
    let ls = lines(preview);
    lemma_last_diff_line(ls, ls.len() - 1);
    let first = if ls.len() > 0 { ls[0] } else { Seq::empty() };
    let opens = starts_with(first, "---"@) || starts_with(first, "diff "@);
    assert forall|e: int|
        opens && 0 <= e < ls.len() && diff_line(#[trigger] ls[e]) && (forall|m: int|
            e < m < ls.len() ==> !diff_line(#[trigger] ls[m])) implies diff_preview(preview) == Some(
        join(ls.take(e + 1), "\n"@),
    ) by {
        match last_diff_line_from(ls, ls.len() - 1) {
            Some(e2) => {
                if e2 < e {
                    assert(diff_line(ls[e]));
                } else if e < e2 {
                    assert(diff_line(ls[e2]));
                }
            },
            None => {
                assert(diff_line(ls[e]));
            },
        }
    }
}

pub fn is_diff_line(l: &Vec<char>) -> (r: bool)
    ensures
        r == diff_line(l@),
{
    starts_with_str(l, " ") || starts_with_str(l, "+") || starts_with_str(l, "-")
        || starts_with_str(l, "@") || starts_with_str(l, "diff ") || starts_with_str(l, "---")
        || starts_with_str(l, "+++")
}

fn last_diff_line(ls: &Vec<Vec<char>>) -> (r: Option<usize>)
    ensures
        match r {
            Some(e) => e < ls.len() && last_diff_line_from(views(ls@), ls.len() - 1) == Some(e as int),
            None => last_diff_line_from(views(ls@), ls.len() - 1) is None,
        },
{
    let mut i: usize = ls.len();
    while i > 0
        invariant
            i <= ls.len(),
            last_diff_line_from(views(ls@), ls.len() - 1) == last_diff_line_from(views(ls@), i - 1),
        decreases i,
    {
        if is_diff_line(&ls[i - 1]) {
            return Some(i - 1);
        }
        i = i - 1;
    }
    None
}

pub fn extract_diff_preview(preview: &str) -> (r: Option<String>)
    ensures
        match r {
            Some(s) => diff_preview(preview@) == Some(s@),
            None => diff_preview(preview@) is None,
        },
{
    let pv = chars_of(preview);
    let ls = split_lines(&pv);
    let empty: Vec<char> = Vec::new();
    let first: &Vec<char> = if ls.len() > 0 { &ls[0] } else { &empty };
    if !starts_with_str(first, "---") && !starts_with_str(first, "diff ") {
        return None;
    }
    proof {
        reveal_strlit("---");
        reveal_strlit("diff ");
    }
    let end: usize = match last_diff_line(&ls) {
        Some(e) => e,
        None => 0,
    };
    let sep = chars_of("\n");
    let joined = join_chars(&ls, end + 1, &sep);
    Some(string_of(&joined))
}

/// How dispatching a tool-call group ended.
#[derive(Debug, Clone, Copy, PartialEq, Eq, Structural)]
pub enum ProcessOutcome {
    Continue,
    NeedApproval,
}

/// The permission a mode grants: everything when it skips permission
/// checks, otherwise what the evaluator decides.
pub open spec fn permission_for(skip_permissions: bool, v: EvaluatorView, name: Seq<char>, target: Option<Seq<char>>) -> PermissionAction {
    if skip_permissions {
        PermissionAction::Allow
    } else {
        evaluate_spec(v, name, target)
    }
}

pub fn evaluate_permission(
    skip_permissions: bool,
    permissions: &PermissionEvaluator,
    name: &str,
    target: Option<&str>,
) -> (r: PermissionAction)
    ensures
        r == permission_for(skip_permissions, permissions@, name@, match target {
            Some(t) => Some(t@),
            None => None,
        }),
{
    if skip_permissions {
        return PermissionAction::Allow;
    }
    permissions.evaluate(name, target)
}

/// What to do with a single tool call.
#[derive(Debug)]
pub enum CallPlan {
    /// Record this message as the call's result; the arguments are not JSON.
    InvalidArguments { message: String },
    Execute,
    /// Record this message as the call's result.
    Deny { message: String },
    /// Record a pending result and wait for the user.
    Ask,
}

/// The result recorded for a call that waits for the user.
pub const PENDING_APPROVAL: &'static str = "Pending user approval...";

pub open spec fn denied_message(name: Seq<char>) -> Seq<char> {
    "Tool '"@ + name + "' denied by permission policy."@
}

pub fn denied_text(name: &str) -> (r: String)
    ensures
        r@ == denied_message(name@),
{
    let mut v: Vec<char> = Vec::new();
    append_str(&mut v, "Tool '");
    append_str(&mut v, name);
    append_str(&mut v, "' denied by permission policy.");
    string_of(&v)
}

/// The plan for one call: invalid arguments are reported, otherwise the
/// permission decides between running, refusing and asking.
pub open spec fn call_plan_spec(
    arguments: Seq<char>,
    name: Seq<char>,
    permission: PermissionAction,
) -> (int, Seq<char>) {
    match json_parse_error(arguments) {
        Some(e) => (0, "Invalid JSON in tool call arguments: "@ + e),
        None => match permission {
            PermissionAction::Allow => (1, Seq::empty()),
            PermissionAction::Deny => (2, denied_message(name)),
            PermissionAction::Ask => (3, Seq::empty()),
        },
    }
}

impl CallPlan {
    pub open spec fn encode(&self) -> (int, Seq<char>) {
        match self {
            CallPlan::InvalidArguments { message } => (0, message@),
            CallPlan::Execute => (1, Seq::empty()),
            CallPlan::Deny { message } => (2, message@),
            CallPlan::Ask => (3, Seq::empty()),
        }
    }
}

pub fn plan_single_call(
    arguments: &str,
    name: &str,
    skip_permissions: bool,
    permissions: &PermissionEvaluator,
    target: Option<&str>,
) -> (r: CallPlan)
    ensures
        r.encode() == call_plan_spec(arguments@, name@, permission_for(skip_permissions, permissions@, name@, match target {
            Some(t) => Some(t@),
            None => None,
        })),
{
    match json_check(arguments) {
        Some(e) => {
            let mut v: Vec<char> = Vec::new();
            append_str(&mut v, "Invalid JSON in tool call arguments: ");
            append_str(&mut v, e.as_str());
            return CallPlan::InvalidArguments { message: string_of(&v) };
        },
        None => {},
    }
    match evaluate_permission(skip_permissions, permissions, name, target) {
        PermissionAction::Allow => CallPlan::Execute,
        PermissionAction::Deny => CallPlan::Deny { message: denied_text(name) },
        PermissionAction::Ask => CallPlan::Ask,
    }
}

/// The approval preview of a call: the tool's own preview when it has one
/// (or the reason it failed), a command line for `run_command`, otherwise
/// the tool name and its arguments.
pub open spec fn approval_preview(
    name: Seq<char>,
    arguments: Seq<char>,
    tool_preview: Option<Result<Option<Seq<char>>, Seq<char>>>,
) -> Seq<char> {
    let shown = match json_compact(arguments) {
        Some(c) => c,
        None => arguments,
    };
    match tool_preview {
        Some(Ok(Some(p))) => p,
        Some(Err(e)) => "Preview failed: "@ + e + "\n\nArguments: "@ + shown,
        _ => if name == "run_command"@ {
            "$ "@ + field_or(arguments, "command"@, Seq::empty())
        } else {
            "["@ + name + "]\nArguments: "@ + shown
        },
    }
}

pub open spec fn preview_view(p: &Option<Result<Option<String>, String>>) -> Option<Result<Option<Seq<char>>, Seq<char>>> {
    match p {
        Some(Ok(Some(s))) => Some(Ok(Some(s@))),
        Some(Ok(None)) => Some(Ok(None)),
        Some(Err(e)) => Some(Err(e@)),
        None => None,
    }
}

pub fn make_approval_preview(
    name: &str,
    arguments: &str,
    tool_preview: &Option<Result<Option<String>, String>>,
) -> (r: String)
    ensures
        r@ == approval_preview(name@, arguments@, preview_view(tool_preview)),
{
    let shown = match render_json(arguments) {
        Some(c) => c,
        None => String::from_str(arguments),
    };
    match tool_preview {
        Some(Ok(Some(p))) => {
            return p.clone();
        },
        Some(Err(e)) => {
            let mut v: Vec<char> = Vec::new();
            append_str(&mut v, "Preview failed: ");
            append_str(&mut v, e.as_str());
            append_str(&mut v, "\n\nArguments: ");
            append_str(&mut v, shown.as_str());
            return string_of(&v);
        },
        _ => {},
    }
    let mut v: Vec<char> = Vec::new();
    if str_equal(name, "run_command") {
        append_str(&mut v, "$ ");
        match json_string_field(arguments, "command") {
            Some(c) => append_str(&mut v, c.as_str()),
            None => {},
        }
    } else {
        append_str(&mut v, "[");
        append_str(&mut v, name);
        append_str(&mut v, "]\nArguments: ");
        append_str(&mut v, shown.as_str());
    }
    string_of(&v)
}

/// The arguments shown for a batch of edits: `{"count":N,"path":"..."}`.
pub fn batch_display_args(path: &str, count: usize) -> (r: String)
    ensures
        r@ == crate::json::json_path_count_text(path@, count as nat),
{
    json_path_count(path, count)
}

/// The result recorded when the user rejects an operation.
pub open spec fn rejection_message(feedback: Seq<char>) -> Seq<char> {
    if feedback.len() == 0 {
        "User rejected this operation."@
    } else {
        "User rejected this operation. Feedback: "@ + feedback
    }
}

pub fn rejection_text(feedback: &str) -> (r: String)
    ensures
        r@ == rejection_message(feedback@),
{
    if feedback.is_empty() {
        String::from_str("User rejected this operation.")
    } else {
        let mut v: Vec<char> = Vec::new();
        append_str(&mut v, "User rejected this operation. Feedback: ");
        append_str(&mut v, feedback);
        string_of(&v)
    }
}

} // verus!
