//! The open workspaces, tabs, panes and terminals, and what the sidebar is
//! configured to show of them.

use crate::git_status::TerminalId;
use crate::path::DirPath;
use std::collections::HashMap;
use vstd::prelude::*;

verus! {

/// A token of a workspace row.
#[derive(Clone, Copy, Debug, PartialEq, Eq, Structural)]
pub enum SpaceSidebarToken {
    Workspace,
    Branch,
    GitStatus,
    /// Any token that shows no git fact.
    Other,
}

/// A token of an agent row.
#[derive(Clone, Copy, Debug, PartialEq, Eq, Structural)]
pub enum AgentSidebarToken {
    Agent,
    GitStatus,
    /// Any other token.
    Other,
}

/// How agent rows are configured.
#[derive(Debug, PartialEq, Eq)]
pub struct AgentRows {
    /// Whether agent rows may show git counts at all.
    pub git_status_enabled: bool,
    /// The rows of an agent without rows of its own.
    pub rows: Vec<Vec<AgentSidebarToken>>,
    /// Rows for single agents, by label; of several for one label the first
    /// counts.
    pub rows_by_agent: Vec<(String, Vec<Vec<AgentSidebarToken>>)>,
}

/// A terminal.
#[derive(Debug, PartialEq, Eq)]
pub struct TerminalState {
    pub id: TerminalId,
    /// The label of the agent that runs in the terminal, if one does.
    pub agent: Option<String>,
    /// The foreground cwd that the agent poll recorded.
    pub agent_cwd: Option<DirPath>,
}

/// A pane.
#[derive(Debug, PartialEq, Eq)]
pub struct Pane {
    pub attached_terminal_id: TerminalId,
    /// The cwd of the pane's shell, where it is known.
    pub shell_cwd: Option<DirPath>,
}

/// A tab.
#[derive(Debug, PartialEq, Eq)]
pub struct Tab {
    /// The panes of the layout, in order.
    pub pane_ids: Vec<u64>,
    pub panes: HashMap<u64, Pane>,
}

/// The repository whose worktree a workspace shows.
#[derive(Debug, PartialEq, Eq)]
pub struct WorktreeSpaceMembership {
    pub key: String,
    pub label: String,
    pub repo_root: DirPath,
    pub checkout_path: DirPath,
    pub is_linked_worktree: bool,
}

/// A workspace.
#[derive(Debug, PartialEq, Eq)]
pub struct Workspace {
    pub id: String,
    /// The name that the user gave, if any.
    pub custom_name: Option<String>,
    pub worktree_space: Option<WorktreeSpaceMembership>,
    /// The directory that the workspace is about now, where it is known.
    pub resolved_identity_cwd: Option<DirPath>,
    /// The directory that `cached_git_status_key` was found for.
    pub cached_identity_cwd: DirPath,
    pub cached_git_status_key: DirPath,
    pub tabs: Vec<Tab>,
}

/// What is open, and what the sidebar shows of it.
#[derive(Debug, PartialEq, Eq)]
pub struct AppState {
    pub workspaces: Vec<Workspace>,
    /// The terminals, by the number of their id.
    pub terminals: HashMap<u64, TerminalState>,
    /// The rows of a workspace.
    pub sidebar_spaces: Vec<Vec<SpaceSidebarToken>>,
    pub sidebar_agents: AgentRows,
}

/// Whether `token` stands in one of the rows of workspaces.
pub open spec fn space_rows_have(
    rows: Seq<Vec<SpaceSidebarToken>>,
    token: SpaceSidebarToken,
) -> bool {
    exists|r: int, c: int|
        0 <= r < rows.len() && 0 <= c < rows[r]@.len() && #[trigger] rows[r]@[c] == token
}

/// Whether the git counts stand in one of the rows of an agent.
pub open spec fn agent_rows_have_git_status(rows: Seq<Vec<AgentSidebarToken>>) -> bool {
    exists|r: int, c: int|
        0 <= r < rows.len() && 0 <= c < rows[r]@.len() && #[trigger] rows[r]@[c]
            == AgentSidebarToken::GitStatus
}

/// Whether entry `i` is the first one for the agent `label`.
pub open spec fn is_own_entry(
    rows_by_agent: Seq<(String, Vec<Vec<AgentSidebarToken>>)>,
    label: Seq<char>,
    i: int,
) -> bool {
    &&& 0 <= i < rows_by_agent.len()
    &&& rows_by_agent[i].0@ == label
    &&& forall|j: int| 0 <= j < i ==> (#[trigger] rows_by_agent[j]).0@ != label
}

/// The rows of the agent `label`: its own, or else those of all agents.
pub open spec fn rows_of_agent(config: AgentRows, label: Seq<char>) -> Seq<Vec<AgentSidebarToken>> {
    if exists|i: int| is_own_entry(config.rows_by_agent@, label, i) {
        config.rows_by_agent@[choose|i: int| is_own_entry(config.rows_by_agent@, label, i)].1@
    } else {
        config.rows@
    }
}

/// Whether the rows of the terminal's agent show the git counts.
pub open spec fn wants_git_status(config: AgentRows, terminal: TerminalState) -> bool {
    &&& config.git_status_enabled
    &&& terminal.agent is Some
    &&& agent_rows_have_git_status(rows_of_agent(config, terminal.agent->0@))
}

impl TerminalState {
    /// Whether an agent runs in the terminal.
    pub fn is_agent_terminal(&self) -> (agent: bool)
        ensures
            agent == self.agent is Some,
    {
        self.agent.is_some()
    }
}

fn has_git_status(rows: &Vec<Vec<AgentSidebarToken>>) -> (found: bool)
    ensures
        found == agent_rows_have_git_status(rows@),
{
    for r in 0..rows.len()
        invariant
            forall|i: int, c: int|
                0 <= i < r && 0 <= c < rows@[i]@.len() ==> #[trigger] rows@[i]@[c]
                    != AgentSidebarToken::GitStatus,
    {
        let row = &rows[r];
        for c in 0..row.len()
            invariant
                r < rows@.len(),
                *row == rows@[r as int],
                forall|j: int| 0 <= j < c ==> #[trigger] row@[j] != AgentSidebarToken::GitStatus,
        {
            if row[c] == AgentSidebarToken::GitStatus {
                assert(rows@[r as int]@[c as int] == AgentSidebarToken::GitStatus);
                return true;
            }
        }
    }
    false
}

impl AppState {
    /// Whether the rows of the terminal's agent show the git counts.
    pub fn terminal_wants_git_status(&self, terminal: &TerminalState) -> (wants: bool)
        ensures
            wants == wants_git_status(self.sidebar_agents, *terminal),
    {
        let config = &self.sidebar_agents;
        if !config.git_status_enabled {
            return false;
        }
        let label = match &terminal.agent {
            Some(label) => label,
            None => return false,
        };
        for i in 0..config.rows_by_agent.len()
            invariant
                *config == self.sidebar_agents,
                config.git_status_enabled,
                terminal.agent == Some(*label),
                forall|j: int| 0 <= j < i ==> (#[trigger] config.rows_by_agent@[j]).0@ != label@,
        {
            if config.rows_by_agent[i].0 == *label {
                proof {
                    assert(is_own_entry(config.rows_by_agent@, label@, i as int));
                    let k = choose|k: int| is_own_entry(config.rows_by_agent@, label@, k);
                    assert(is_own_entry(config.rows_by_agent@, label@, k));
                    assert(k == i) by {
                        if k < i {
                            assert(config.rows_by_agent@[k].0@ == label@);
                        } else if i < k {
                            assert(config.rows_by_agent@[i as int].0@ == label@);
                        }
                    }
                }
                return has_git_status(&config.rows_by_agent[i].1);
            }
        }
        has_git_status(&config.rows)
    }
}

} // verus!
