use vstd::prelude::*;

use crate::agent::events::field_or;
use crate::json::json_string_field;
use crate::llm::types::ToolCall;
use crate::text::str_equal;

verus! {

/// One edit of an approved batch.
#[derive(Debug)]
pub struct BatchedEdit {
    pub tc_id: String,
    pub search: String,
    pub replace: String,
}

/// A tool call (or batch of edits) waiting for the user's decision.
#[derive(Debug)]
pub enum PendingApproval {
    Single {
        tc_ids: Vec<String>,
        tool_name: String,
        args: String,
        display_args: String,
        preview: Option<String>,
    },
    BatchedEdit {
        tc_ids: Vec<String>,
        path: String,
        edits: Vec<BatchedEdit>,
        display_args: String,
        preview: Option<String>,
    },
}

impl PendingApproval {
    pub open spec fn ids(&self) -> Seq<String> {
        match self {
            PendingApproval::Single { tc_ids, .. } => tc_ids@,
            PendingApproval::BatchedEdit { tc_ids, .. } => tc_ids@,
        }
    }

    pub open spec fn name_spec(&self) -> Seq<char> {
        match self {
            PendingApproval::Single { tool_name, .. } => tool_name@,
            PendingApproval::BatchedEdit { .. } => "edit_file"@,
        }
    }

    pub fn tc_ids(&self) -> (r: &Vec<String>)
        ensures
            r@ == self.ids(),
    {
        match self {
            PendingApproval::Single { tc_ids, .. } => tc_ids,
            PendingApproval::BatchedEdit { tc_ids, .. } => tc_ids,
        }
    }

    pub fn tool_name(&self) -> (r: &str)
        ensures
            r@ == self.name_spec(),
    {
        match self {
            PendingApproval::Single { tool_name, .. } => tool_name.as_str(),
            PendingApproval::BatchedEdit { .. } => "edit_file",
        }
    }

    pub fn display_args(&self) -> (r: &str)
        ensures
            r@ == match self {
                PendingApproval::Single { display_args, .. } => display_args@,
                PendingApproval::BatchedEdit { display_args, .. } => display_args@,
            },
    {
        match self {
            PendingApproval::Single { display_args, .. } => display_args.as_str(),
            PendingApproval::BatchedEdit { display_args, .. } => display_args.as_str(),
        }
    }

    pub fn preview(&self) -> (r: Option<&str>)
        ensures
            match self {
                PendingApproval::Single { preview, .. } => match preview {
                    Some(p) => r is Some && r->0@ == p@,
                    None => r is None,
                },
                PendingApproval::BatchedEdit { preview, .. } => match preview {
                    Some(p) => r is Some && r->0@ == p@,
                    None => r is None,
                },
            },
    {
        match self {
            PendingApproval::Single { preview, .. } => match preview {
                Some(p) => Some(p.as_str()),
                None => None,
            },
            PendingApproval::BatchedEdit { preview, .. } => match preview {
                Some(p) => Some(p.as_str()),
                None => None,
            },
        }
    }
}

/// One edit of a group: the call it came from and its search/replace texts.
#[derive(Debug)]
pub struct GroupedEdit {
    pub tc_id: String,
    pub search: String,
    pub replace: String,
}

/// A unit of tool dispatch: one call, or consecutive edits of one file.
#[derive(Debug)]
pub enum ToolCallGroup {
    Single { tc: ToolCall },
    BatchedEdits { path: String, edits: Vec<GroupedEdit> },
}

pub struct EditView {
    pub tc_id: Seq<char>,
    pub search: Seq<char>,
    pub replace: Seq<char>,
}

pub enum GroupView {
    Single { id: Seq<char>, name: Seq<char>, arguments: Seq<char> },
    Batched { path: Seq<char>, edits: Seq<EditView> },
}

impl GroupedEdit {
    pub open spec fn view_spec(&self) -> EditView {
        EditView { tc_id: self.tc_id@, search: self.search@, replace: self.replace@ }
    }
}

pub open spec fn edit_views(v: Seq<GroupedEdit>) -> Seq<EditView> {
    v.map_values(|e: GroupedEdit| e.view_spec())
}

impl ToolCallGroup {
    pub open spec fn view_spec(&self) -> GroupView {
        match self {
            ToolCallGroup::Single { tc } => GroupView::Single {
                id: tc.id@,
                name: tc.function.name@,
                arguments: tc.function.arguments@,
            },
            ToolCallGroup::BatchedEdits { path, edits } => GroupView::Batched {
                path: path@,
                edits: edit_views(edits@),
            },
        }
    }
}

pub open spec fn group_views(v: Seq<ToolCallGroup>) -> Seq<GroupView> {
    v.map_values(|g: ToolCallGroup| g.view_spec())
}

pub open spec fn is_edit_call(tc: ToolCall) -> bool {
    tc.function.name@ == "edit_file"@
}

/// The edit a call stands for (missing fields read as empty).
pub open spec fn edit_of(tc: ToolCall) -> EditView {
    EditView {
        tc_id: tc.id@,
        search: field_or(tc.function.arguments@, "search"@, Seq::empty()),
        replace: field_or(tc.function.arguments@, "replace"@, Seq::empty()),
    }
}

pub open spec fn edit_path(tc: ToolCall) -> Seq<char> {
    field_or(tc.function.arguments@, "path"@, Seq::empty())
}

pub open spec fn single_of(tc: ToolCall) -> GroupView {
    GroupView::Single { id: tc.id@, name: tc.function.name@, arguments: tc.function.arguments@ }
}

/// The groups closed so far and the batch of edits still open, after the given calls.
pub open spec fn group_state(tcs: Seq<ToolCall>) -> (Seq<GroupView>, Option<(Seq<char>, Seq<EditView>)>)
    decreases tcs.len(),
{
    if tcs.len() == 0 {
        (Seq::empty(), None)
    } else {
        let (done, open) = group_state(tcs.drop_last());
        let tc = tcs.last();
        if is_edit_call(tc) {
            match open {
                Some((p, es)) => if p == edit_path(tc) {
                    (done, Some((p, es.push(edit_of(tc)))))
                } else {
                    (done.push(GroupView::Batched { path: p, edits: es }), Some((edit_path(tc), seq![edit_of(tc)])))
                },
                None => (done, Some((edit_path(tc), seq![edit_of(tc)]))),
            }
        } else {
            match open {
                Some((p, es)) => (done.push(GroupView::Batched { path: p, edits: es }).push(single_of(tc)), None),
                None => (done.push(single_of(tc)), None),
            }
        }
    }
}

/// Consecutive `edit_file` calls on the same file form one batch; every
/// other call, and every edit of another file, starts a new group.
pub open spec fn grouped(tcs: Seq<ToolCall>) -> Seq<GroupView> {
    let (done, open) = group_state(tcs);
    match open {
        Some((p, es)) => done.push(GroupView::Batched { path: p, edits: es }),
        None => done,
    }
}

/// The call ids of groups, in order.
pub open spec fn group_ids(gs: Seq<GroupView>) -> Seq<Seq<char>>
    decreases gs.len(),
{
    if gs.len() == 0 {
        Seq::empty()
    } else {
        group_ids(gs.drop_last()) + ids_of(gs.last())
    }
}

/// The call ids of one group.
pub open spec fn ids_of(g: GroupView) -> Seq<Seq<char>> {
    match g {
        GroupView::Single { id, .. } => seq![id],
        GroupView::Batched { edits, .. } => edits.map_values(|e: EditView| e.tc_id),
    }
}

pub open spec fn call_ids(tcs: Seq<ToolCall>) -> Seq<Seq<char>> {
    tcs.map_values(|tc: ToolCall| tc.id@)
}

proof fn lemma_group_ids_push(gs: Seq<GroupView>, g: GroupView)
    ensures
        group_ids(gs.push(g)) == group_ids(gs) + ids_of(g),
{
    assert(gs.push(g).drop_last() =~= gs);
}

proof fn lemma_group_state_ids(tcs: Seq<ToolCall>)
    ensures
        group_ids(group_state(tcs).0) + match group_state(tcs).1 {
            Some((p, es)) => es.map_values(|e: EditView| e.tc_id),
            None => Seq::empty(),
        } == call_ids(tcs),
    decreases tcs.len(),
{
    if tcs.len() == 0 {
        assert(call_ids(tcs) =~= Seq::<Seq<char>>::empty());
        assert(group_ids(Seq::<GroupView>::empty()) =~= Seq::<Seq<char>>::empty());
    } else {
        let prev = tcs.drop_last();
        lemma_group_state_ids(prev);
        let tc = tcs.last();
        let (done, open) = group_state(prev);
        assert(call_ids(tcs) =~= call_ids(prev).push(tc.id@));
        if is_edit_call(tc) {
            match open {
                Some((p, es)) => {
                    if p == edit_path(tc) {
                        assert(es.push(edit_of(tc)).map_values(|e: EditView| e.tc_id) =~= es.map_values(
                            |e: EditView| e.tc_id,
                        ).push(tc.id@));
                        assert(group_ids(done) + es.push(edit_of(tc)).map_values(|e: EditView| e.tc_id) =~= group_ids(done) + es.map_values(|e: EditView| e.tc_id) + seq![tc.id@]);
                    } else {
                        let g = GroupView::Batched { path: p, edits: es };
                        lemma_group_ids_push(done, g);
                        assert(ids_of(g) =~= es.map_values(|e: EditView| e.tc_id));
                        assert(seq![edit_of(tc)].map_values(|e: EditView| e.tc_id) =~= seq![tc.id@]);
                        assert(group_ids(done.push(g)) + seq![edit_of(tc)].map_values(|e: EditView| e.tc_id) =~= call_ids(tcs));
                    }
                },
                None => {
                    assert(seq![edit_of(tc)].map_values(|e: EditView| e.tc_id) =~= seq![tc.id@]);
                    assert(group_ids(done) + seq![edit_of(tc)].map_values(|e: EditView| e.tc_id) =~= call_ids(tcs));
                },
            }
        } else {
            match open {
                Some((p, es)) => {
                    let g = GroupView::Batched { path: p, edits: es };
                    lemma_group_ids_push(done, g);
                    lemma_group_ids_push(done.push(g), single_of(tc));
                    assert(ids_of(g) =~= es.map_values(|e: EditView| e.tc_id));
                    assert(ids_of(single_of(tc)) =~= seq![tc.id@]);
                    assert(group_ids(done.push(g).push(single_of(tc))) + Seq::<Seq<char>>::empty() =~= call_ids(tcs));
                },
                None => {
                    lemma_group_ids_push(done, single_of(tc));
                    assert(ids_of(single_of(tc)) =~= seq![tc.id@]);
                    assert(group_ids(done.push(single_of(tc))) + Seq::<Seq<char>>::empty() =~= call_ids(tcs));
                },
            }
        }
    }
}

/// Grouping keeps every call exactly once, in the order the model gave them.
pub proof fn lemma_grouping_preserves_calls(tcs: Seq<ToolCall>)
    ensures
        group_ids(grouped(tcs)) == call_ids(tcs),
{
    lemma_group_state_ids(tcs);
    let (done, open) = group_state(tcs);
    match open {
        Some((p, es)) => {
            let g = GroupView::Batched { path: p, edits: es };
            lemma_group_ids_push(done, g);
            assert(ids_of(g) =~= es.map_values(|e: EditView| e.tc_id));
        },
        None => {
            assert(group_ids(done) + Seq::<Seq<char>>::empty() =~= group_ids(done));
        },
    }
}

fn read_edit(tc: &ToolCall) -> (r: (String, GroupedEdit))
    ensures
        r.0@ == edit_path(*tc),
        r.1.view_spec() == edit_of(*tc),
{
    let args = tc.function.arguments.as_str();
    let path = match json_string_field(args, "path") {
        Some(v) => v,
        None => String::new(),
    };
    let search = match json_string_field(args, "search") {
        Some(v) => v,
        None => String::new(),
    };
    let replace = match json_string_field(args, "replace") {
        Some(v) => v,
        None => String::new(),
    };
    (path, GroupedEdit { tc_id: tc.id.clone(), search, replace })
}

/// Groups consecutive `edit_file` calls that target the same file.
pub fn group_tool_calls(tcs: Vec<ToolCall>) -> (groups: Vec<ToolCallGroup>)
    ensures
        group_views(groups@) == grouped(tcs@),
{
    let mut groups: Vec<ToolCallGroup> = Vec::new();
    let mut pending_edits: Vec<GroupedEdit> = Vec::new();
    let mut pending_path: Option<String> = None;
    let mut i: usize = 0;
    while i < tcs.len()
        invariant
            i <= tcs.len(),
            group_views(groups@) == group_state(tcs@.take(i as int)).0,
            match group_state(tcs@.take(i as int)).1 {
                Some((p, es)) => pending_path is Some && pending_path->0@ == p && edit_views(pending_edits@) == es,
                None => pending_path is None && pending_edits@.len() == 0,
            },
        decreases tcs.len() - i,
    {
        let tc = &tcs[i];
        proof {
            assert(tcs@.take(i + 1).drop_last() =~= tcs@.take(i as int));
            assert(tcs@.take(i + 1).last() == tcs@[i as int]);
        }
        let ghost old_groups = groups@;
        let ghost old_edits = pending_edits@;
        if str_equal(tc.function.name.as_str(), "edit_file") {
            let (path, edit) = read_edit(tc);
            let same = match &pending_path {
                Some(p) => str_equal(p.as_str(), path.as_str()),
                None => false,
            };
            if same {
                pending_edits.push(edit);
                proof {
                    assert(edit_views(pending_edits@) =~= edit_views(old_edits).push(edit.view_spec()));
                }
            } else {
                match pending_path {
                    Some(p) => {
                        let edits = pending_edits;
                        groups.push(ToolCallGroup::BatchedEdits { path: p, edits });
                        pending_edits = Vec::new();
                        proof {
                            assert(group_views(groups@) =~= group_views(old_groups).push(
                                GroupView::Batched { path: p@, edits: edit_views(edits@) },
                            ));
                        }
                    },
                    None => {},
                }
                pending_path = Some(path);
                let ghost cleared = pending_edits@;
                pending_edits.push(edit);
                proof {
                    assert(cleared.len() == 0);
                    assert(edit_views(pending_edits@) =~= seq![edit.view_spec()]);
                }
            }
        } else {
            match pending_path {
                Some(p) => {
                    let edits = pending_edits;
                    groups.push(ToolCallGroup::BatchedEdits { path: p, edits });
                    pending_edits = Vec::new();
                    proof {
                        assert(group_views(groups@) =~= group_views(old_groups).push(
                            GroupView::Batched { path: p@, edits: edit_views(edits@) },
                        ));
                    }
                },
                None => {},
            }
            pending_path = None;
            let ghost mid = groups@;
            groups.push(ToolCallGroup::Single { tc: tc.duplicate() });
            proof {
                assert(group_views(groups@) =~= group_views(mid).push(single_of(tcs@[i as int])));
            }
        }
        i = i + 1;
    }
    proof {
        assert(tcs@.take(tcs.len() as int) =~= tcs@);
    }
    let ghost before = groups@;
    match pending_path {
        Some(p) => {
            let edits = pending_edits;
            groups.push(ToolCallGroup::BatchedEdits { path: p, edits });
            proof {
                assert(group_views(groups@) =~= group_views(before).push(
                    GroupView::Batched { path: p@, edits: edit_views(edits@) },
                ));
            }
        },
        None => {},
    }
    groups
}

} // verus!
