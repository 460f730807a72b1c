//! Laws of what rows show.

use crate::app_state;
use crate::app_state::{AgentSidebarToken, AppState, TerminalState};
use vstd::prelude::*;

verus! {

/// The git counts stand somewhere in the rows.
pub open spec fn counts_stand_in(rows: Seq<Vec<AgentSidebarToken>>) -> bool {
    exists|r: int, c: int|
        0 <= r < rows.len() && 0 <= c < rows[r]@.len() && #[trigger] rows[r]@[c]
            == AgentSidebarToken::GitStatus
}

/// A terminal runs an agent exactly if it has the label of one.
pub proof fn agent_terminals_have_a_label(terminal: TerminalState, agent: bool)
    requires
        call_ensures(TerminalState::is_agent_terminal, (&terminal,), agent),
    ensures
        agent == terminal.agent is Some,
{
}

/// Nothing is wanted while the counts are switched off, nor by a terminal without
/// an agent.
pub proof fn counts_are_off_until_enabled(state: AppState, terminal: TerminalState, wants: bool)
    requires
        call_ensures(AppState::terminal_wants_git_status, (&state, &terminal), wants),
        !state.sidebar_agents.git_status_enabled || terminal.agent is None,
    ensures
        !wants,
{
}

/// An agent with rows of its own wants the counts exactly if they stand in those,
/// whatever the general rows are; the first entry for its label counts.
pub proof fn own_rows_decide(state: AppState, terminal: TerminalState, wants: bool, i: int)
    requires
        call_ensures(AppState::terminal_wants_git_status, (&state, &terminal), wants),
        state.sidebar_agents.git_status_enabled,
        terminal.agent is Some,
        0 <= i < state.sidebar_agents.rows_by_agent@.len(),
        state.sidebar_agents.rows_by_agent@[i].0@ == terminal.agent->0@,
        forall|j: int|
            0 <= j < i ==> (#[trigger] state.sidebar_agents.rows_by_agent@[j]).0@
                != terminal.agent->0@,
    ensures
        wants == counts_stand_in(state.sidebar_agents.rows_by_agent@[i].1@),
{
    let entries = state.sidebar_agents.rows_by_agent@;
    let label = terminal.agent->0@;
    assert(app_state::is_own_entry(entries, label, i));
    let k = choose|k: int| app_state::is_own_entry(entries, label, k);
    assert(app_state::is_own_entry(entries, label, k));
    if k < i {
        assert(entries[k].0@ == label);
    } else if i < k {
        assert(entries[i].0@ == label);
    }
}

/// An agent without rows of its own wants the counts exactly if they stand in the
/// general rows.
pub proof fn general_rows_decide_otherwise(state: AppState, terminal: TerminalState, wants: bool)
    requires
        call_ensures(AppState::terminal_wants_git_status, (&state, &terminal), wants),
        state.sidebar_agents.git_status_enabled,
        terminal.agent is Some,
        forall|j: int|
            0 <= j < state.sidebar_agents.rows_by_agent@.len() ==> (
            #[trigger] state.sidebar_agents.rows_by_agent@[j]).0@ != terminal.agent->0@,
    ensures
        wants == counts_stand_in(state.sidebar_agents.rows@),
{
}

} // verus!
