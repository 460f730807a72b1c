//! The entries of the agent panel.

use std::collections::HashMap;
use vstd::prelude::*;

verus! {

/// The detected state of an agent, by its code. The panel carries it along.
#[derive(Clone, Copy, Debug, PartialEq, Eq)]
pub struct AgentState {
    pub code: u8,
}

/// What a workspace tells about one of its panes that runs an agent.
#[derive(Debug, PartialEq, Eq)]
pub struct PaneDetail {
    pub tab_idx: usize,
    pub pane_id: u64,
    pub agent_kind_label: Option<String>,
    pub state: AgentState,
    pub seen: bool,
    pub last_agent_state_change_seq: Option<u64>,
    /// Values of the tokens that the agent set, by name.
    pub tokens: HashMap<String, String>,
}

/// One line of the agent panel.
#[derive(Debug, PartialEq, Eq)]
pub struct AgentPanelEntry {
    pub ws_idx: usize,
    pub tab_idx: usize,
    pub pane_id: u64,
    pub agent_kind_label: Option<String>,
    pub state: AgentState,
    pub seen: bool,
    pub last_agent_state_change_seq: Option<u64>,
    pub tokens: HashMap<String, String>,
}

/// The entry of a pane in the workspace at `ws_idx`.
pub open spec fn entry_of(ws_idx: int, detail: PaneDetail) -> AgentPanelEntry {
    AgentPanelEntry {
        ws_idx: ws_idx as usize,
        tab_idx: detail.tab_idx,
        pane_id: detail.pane_id,
        agent_kind_label: detail.agent_kind_label,
        state: detail.state,
        seen: detail.seen,
        last_agent_state_change_seq: detail.last_agent_state_change_seq,
        tokens: detail.tokens,
    }
}

/// The entries of the workspace at `ws_idx`, in the order of its panes.
pub open spec fn workspace_entries(ws_idx: int, details: Seq<PaneDetail>) -> Seq<AgentPanelEntry> {
    details.map_values(|detail: PaneDetail| entry_of(ws_idx, detail))
}

/// The entries of all workspaces, workspace by workspace.
pub open spec fn all_entries(workspaces: Seq<Vec<PaneDetail>>) -> Seq<AgentPanelEntry>
    decreases workspaces.len(),
{
    if workspaces.len() == 0 {
        Seq::empty()
    } else {
        all_entries(workspaces.drop_last()) + workspace_entries(
            workspaces.len() - 1,
            workspaces.last()@,
        )
    }
}

/// The entries of all workspaces before the agent view orders them: one for each
/// pane that a workspace tells about, workspace by workspace.
pub fn collect_agent_panel_entries(workspaces: Vec<Vec<PaneDetail>>) -> (entries: Vec<
    AgentPanelEntry,
>)
    ensures
        entries@ == all_entries(workspaces@),
{
    let ghost all = workspaces@;
    let mut entries: Vec<AgentPanelEntry> = Vec::new();
    let mut ws_idx: usize = 0;
    let count = workspaces.len();
    assert(all.take(0) =~= Seq::empty());
    for details in it: workspaces
        invariant
            it.seq() == all,
            count == all.len(),
            ws_idx == it.index(),
            ws_idx <= count,
            entries@ == all_entries(all.take(ws_idx as int)),
    {
        let ghost done = entries@;
        let ghost listed = details@;
        assert(details == all[ws_idx as int]);
        assert(workspace_entries(ws_idx as int, listed.take(0)) =~= Seq::empty());
        assert(entries@ =~= done + workspace_entries(ws_idx as int, listed.take(0)));
        for detail in inner: details
            invariant
                inner.seq() == listed,
                entries@ == done + workspace_entries(
                    ws_idx as int,
                    listed.take(inner.index() as int),
                ),
        {
            let ghost k = inner.index() as int;
            assert(listed.take(k + 1) =~= listed.take(k).push(listed[k]));
            entries.push(
                AgentPanelEntry {
                    ws_idx,
                    tab_idx: detail.tab_idx,
                    pane_id: detail.pane_id,
                    agent_kind_label: detail.agent_kind_label,
                    state: detail.state,
                    seen: detail.seen,
                    last_agent_state_change_seq: detail.last_agent_state_change_seq,
                    tokens: detail.tokens,
                },
            );
            assert(entries@ =~= done + workspace_entries(ws_idx as int, listed.take(k + 1)));
        }
        assert(listed.take(listed.len() as int) =~= listed);
        assert(all.take(ws_idx + 1).drop_last() =~= all.take(ws_idx as int));
        ws_idx = ws_idx + 1;
    }
    assert(all.take(all.len() as int) =~= all);
    entries
}

/// The entries of the agent panel. `workspaces` holds what each workspace tells
/// about its panes; `apply_agent_view` filters and orders the collected entries
/// as the user chose.
pub fn agent_panel_entries_from<F: FnOnce(Vec<AgentPanelEntry>) -> Vec<AgentPanelEntry>>(
    workspaces: Vec<Vec<PaneDetail>>,
    apply_agent_view: F,
) -> (entries: Vec<AgentPanelEntry>)
    requires
        forall|collected: Vec<AgentPanelEntry>|
            collected@ == all_entries(workspaces@) ==> #[trigger] apply_agent_view.requires(
                (collected,),
            ),
    ensures
        exists|collected: Vec<AgentPanelEntry>|
            collected@ == all_entries(workspaces@) && #[trigger] apply_agent_view.ensures(
                (collected,),
                entries,
            ),
{
    let collected = collect_agent_panel_entries(workspaces);
    apply_agent_view(collected)
}

/// How many panes the workspaces tell about.
pub open spec fn pane_count(workspaces: Seq<Vec<PaneDetail>>) -> nat
    decreases workspaces.len(),
{
    if workspaces.len() == 0 {
        0
    } else {
        pane_count(workspaces.drop_last()) + workspaces.last()@.len()
    }
}

/// Every pane has its entry: the entry of pane `k` of workspace `w` stands behind
/// those of the workspaces and panes before it, and names that workspace.
pub proof fn every_pane_has_its_entry(workspaces: Seq<Vec<PaneDetail>>, w: int, k: int)
    requires
        0 <= w < workspaces.len(),
        0 <= k < workspaces[w]@.len(),
    ensures
        all_entries(workspaces).len() == pane_count(workspaces),
        pane_count(workspaces.take(w)) + k < all_entries(workspaces).len(),
        all_entries(workspaces)[pane_count(workspaces.take(w)) + k] == entry_of(
            w,
            workspaces[w]@[k],
        ),
    decreases workspaces.len(),
{
    let rest = workspaces.drop_last();
    lemma_entry_count(workspaces);
    lemma_entry_count(rest);
    if w == workspaces.len() - 1 {
        assert(workspaces.take(w) =~= rest);
    } else {
        every_pane_has_its_entry(rest, w, k);
        assert(workspaces.take(w) =~= rest.take(w));
    }
}

proof fn lemma_entry_count(workspaces: Seq<Vec<PaneDetail>>)
    ensures
        all_entries(workspaces).len() == pane_count(workspaces),
    decreases workspaces.len(),
{
    if workspaces.len() > 0 {
        lemma_entry_count(workspaces.drop_last());
    }
}

} // verus!
