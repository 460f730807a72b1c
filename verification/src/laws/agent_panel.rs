//! Laws of the agent panel.

use crate::sidebar::agent_panel;
use crate::sidebar::agent_panel::{
    agent_panel_entries_from, collect_agent_panel_entries, AgentPanelEntry, PaneDetail,
};
use vstd::prelude::*;

verus! {

/// `entry` carries everything that the pane told, and the place of its workspace.
pub open spec fn carries(entry: AgentPanelEntry, ws_idx: int, detail: PaneDetail) -> bool {
    &&& entry.ws_idx == ws_idx
    &&& entry.tab_idx == detail.tab_idx
    &&& entry.pane_id == detail.pane_id
    &&& entry.agent_kind_label == detail.agent_kind_label
    &&& entry.state == detail.state
    &&& entry.seen == detail.seen
    &&& entry.last_agent_state_change_seq == detail.last_agent_state_change_seq
    &&& entry.tokens == detail.tokens
}

/// Without a workspace the panel is empty.
pub proof fn no_workspace_has_no_entry(
    workspaces: Vec<Vec<PaneDetail>>,
    entries: Vec<AgentPanelEntry>,
)
    requires
        call_ensures(collect_agent_panel_entries, (workspaces,), entries),
        workspaces@.len() == 0,
    ensures
        entries@.len() == 0,
{
}

/// One workspace more adds one entry for each of its panes, in order, behind those
/// of the others, which stay as they were. Each new entry carries its own pane's
/// detail field by field.
pub proof fn workspace_adds_an_entry_for_each_pane(
    before: Vec<Vec<PaneDetail>>,
    after: Vec<Vec<PaneDetail>>,
    details: Vec<PaneDetail>,
    old_entries: Vec<AgentPanelEntry>,
    new_entries: Vec<AgentPanelEntry>,
)
    requires
        call_ensures(collect_agent_panel_entries, (before,), old_entries),
        call_ensures(collect_agent_panel_entries, (after,), new_entries),
        after@ == before@.push(details),
    ensures
        new_entries@.len() == old_entries@.len() + details@.len(),
        forall|i: int|
            0 <= i < old_entries@.len() ==> #[trigger] new_entries@[i] == old_entries@[i],
        forall|k: int|
            0 <= k < details@.len() ==> carries(
                #[trigger] new_entries@[old_entries@.len() + k],
                before@.len() as int,
                details@[k],
            ),
{
    assert(after@.drop_last() =~= before@);
    assert(before.len() == before@.len());
}

/// Panes that differ in a field have entries that differ in it.
pub proof fn different_panes_have_different_entries(
    workspaces: Seq<Vec<PaneDetail>>,
    w: int,
    k: int,
    v: int,
    l: int,
)
    requires
        workspaces.len() <= usize::MAX,
        0 <= w < workspaces.len(),
        0 <= k < workspaces[w]@.len(),
        0 <= v < workspaces.len(),
        0 <= l < workspaces[v]@.len(),
    ensures
        ({
            let entries = agent_panel::all_entries(workspaces);
            let a = entries[agent_panel::pane_count(workspaces.take(w)) + k];
            let b = entries[agent_panel::pane_count(workspaces.take(v)) + l];
            let (p, q) = (workspaces[w]@[k], workspaces[v]@[l]);
            &&& carries(a, w, p)
            &&& carries(b, v, q)
            &&& p.state != q.state ==> a.state != b.state
            &&& p.pane_id != q.pane_id ==> a.pane_id != b.pane_id
            &&& w != v ==> a.ws_idx != b.ws_idx
        }),
{
    agent_panel::every_pane_has_its_entry(workspaces, w, k);
    agent_panel::every_pane_has_its_entry(workspaces, v, l);
}

/// The panel shows what the agent view makes of the collected entries, and asks it
/// once.
pub proof fn panel_shows_the_agent_view<
    F: FnOnce(Vec<AgentPanelEntry>) -> Vec<AgentPanelEntry>,
>(
    workspaces: Vec<Vec<PaneDetail>>,
    view: F,
    collected: Vec<AgentPanelEntry>,
    entries: Vec<AgentPanelEntry>,
)
    requires
        call_ensures(agent_panel_entries_from::<F>, (workspaces, view), entries),
        call_ensures(collect_agent_panel_entries, (workspaces,), collected),
    ensures
        exists|given: Vec<AgentPanelEntry>|
            given@ == collected@ && #[trigger] call_ensures(view, (given,), entries),
{
}

/// The panel takes any agent view that takes all entries.
pub proof fn any_agent_view_will_do<F: FnOnce(Vec<AgentPanelEntry>) -> Vec<AgentPanelEntry>>(
    workspaces: Vec<Vec<PaneDetail>>,
    view: F,
)
    requires
        forall|entries: Vec<AgentPanelEntry>| #[trigger] call_requires(view, (entries,)),
    ensures
        call_requires(agent_panel_entries_from::<F>, (workspaces, view)),
{
}

} // verus!
