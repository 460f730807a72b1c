//! When the application refreshes git facts, and for whom.

use crate::app_state;
use crate::app_state::{AppState, Pane, SpaceSidebarToken, Tab, TerminalState, Workspace};
use crate::git_refresh;
use crate::git_refresh::{GitRefreshItem, GitRefreshTarget};
use crate::git_status;
use crate::git_status::{GitStatusCacheEntry, GitStatusRefreshDemand};
use crate::path::{DirPath, PathMap, PathView};
use crate::sequences;
use vstd::prelude::*;

verus! {

/// How often git facts are refreshed, in nanoseconds.
#[derive(Clone, Copy, Debug, PartialEq, Eq)]
pub struct GitRefreshIntervals {
    /// From one refresh to the next.
    pub remote_status: u64,
    /// Until a refresh looks for the repositories anew.
    pub repo_discovery: u64,
}

/// The application, as far as git refreshes go. The times are in nanoseconds on
/// one clock that never goes back.
#[derive(Debug)]
pub struct App {
    pub state: AppState,
    pub git_refresh_intervals: GitRefreshIntervals,
    /// What is remembered of the checkouts, by key.
    pub git_status_cache: PathMap<GitStatusCacheEntry>,
    /// A refresh is running.
    pub git_refresh_in_flight: bool,
    /// Another refresh was asked for while one was running.
    pub git_refresh_due_after_in_flight: bool,
    /// The workspaces are to find their repositories anew.
    pub git_identity_refresh_requested: bool,
    pub last_git_remote_status_refresh: u64,
    pub last_git_repo_discovery_refresh: u64,
}

/// What a refresh starts with.
#[derive(Debug)]
pub struct GitRefreshStart {
    pub items: Vec<GitRefreshItem>,
    pub cache: PathMap<GitStatusCacheEntry>,
}

/// The facts that the rows of workspaces show.
pub open spec fn space_demand(state: AppState) -> GitStatusRefreshDemand {
    GitStatusRefreshDemand {
        branch: app_state::space_rows_have(state.sidebar_spaces@, SpaceSidebarToken::Branch),
        ahead_behind: app_state::space_rows_have(
            state.sidebar_spaces@,
            SpaceSidebarToken::GitStatus,
        ),
        dirty: false,
    }
}

/// Whether the terminal runs an agent whose rows show the git counts.
pub open spec fn is_consumer(state: AppState, terminal: TerminalState) -> bool {
    terminal.agent is Some && app_state::wants_git_status(state.sidebar_agents, terminal)
}

/// The facts that the rows of agents show: both counts, if any open terminal runs
/// an agent whose rows show them.
pub open spec fn agent_demand(state: AppState) -> GitStatusRefreshDemand {
    let wanted = exists|id: u64| #[trigger]
        state.terminals@.contains_key(id) && is_consumer(state, state.terminals@[id]);
    GitStatusRefreshDemand { branch: false, ahead_behind: wanted, dirty: wanted }
}

/// When the next refresh is due, if one is to come.
pub open spec fn deadline(app: App) -> Option<int> {
    if !app.git_refresh_in_flight && app.state.workspaces@.len() > 0 && (
    app.git_identity_refresh_requested || space_demand(app.state) != git_status::no_demand()
        || agent_demand(app.state) != git_status::no_demand()) {
        Some(app.last_git_remote_status_refresh + app.git_refresh_intervals.remote_status)
    } else {
        None
    }
}

/// Whether the time of the next refresh lies on the clock.
pub open spec fn deadline_is_representable(app: App) -> bool {
    app.last_git_remote_status_refresh + app.git_refresh_intervals.remote_status <= u64::MAX
}

/// The wish of a workspace, if its directory is known. It keeps the key of its
/// checkout where it still is in the directory that the key was found for, unless
/// the repositories are to be found anew.
pub open spec fn workspace_item(
    ws: Workspace,
    refresh_repo_discovery: bool,
    demand: GitStatusRefreshDemand,
) -> Option<GitRefreshItem> {
    match ws.resolved_identity_cwd {
        Some(cwd) => Some(
            GitRefreshItem {
                target: GitRefreshTarget::Workspace {
                    workspace_id: ws.id,
                    resolved_identity_cwd: cwd,
                },
                cache_key_hint: if !refresh_repo_discovery && ws.cached_identity_cwd@ == cwd@ {
                    Some(ws.cached_git_status_key)
                } else {
                    None
                },
                demand,
            },
        ),
        None => None,
    }
}

/// The wishes of the workspaces, in order; none where nothing is wanted.
pub open spec fn workspace_items(
    state: AppState,
    refresh_repo_discovery: bool,
    demand: GitStatusRefreshDemand,
) -> Seq<GitRefreshItem> {
    if demand == git_status::no_demand() {
        Seq::empty()
    } else {
        state.workspaces@.filter_map(
            |ws: Workspace| workspace_item(ws, refresh_repo_discovery, demand),
        )
    }
}

/// The wish of a pane: of its terminal, if that runs an agent whose rows show the
/// git counts and one of its directories is known. The cwd that the agent poll
/// recorded comes before the shell's, which stays as a second choice if it is
/// another one.
pub open spec fn pane_item(
    state: AppState,
    tab: Tab,
    pane_id: u64,
    demand: GitStatusRefreshDemand,
) -> Option<GitRefreshItem> {
    let pane = tab.panes@[pane_id];
    let terminal = state.terminals@[pane.attached_terminal_id.number];
    let cwd = if terminal.agent_cwd is Some {
        terminal.agent_cwd
    } else {
        pane.shell_cwd
    };
    if tab.panes@.contains_key(pane_id) && state.terminals@.contains_key(
        pane.attached_terminal_id.number,
    ) && is_consumer(state, terminal) && cwd is Some {
        Some(
            GitRefreshItem {
                target: GitRefreshTarget::Terminal {
                    terminal_id: terminal.id,
                    cwd: cwd->0,
                    shell_cwd: if pane.shell_cwd is Some && pane.shell_cwd->0@ != cwd->0@ {
                        pane.shell_cwd
                    } else {
                        None
                    },
                },
                cache_key_hint: None,
                demand,
            },
        )
    } else {
        None
    }
}

/// The wishes of the panes of a tab, in the order of its layout.
pub open spec fn tab_items(state: AppState, tab: Tab, demand: GitStatusRefreshDemand) -> Seq<
    GitRefreshItem,
> {
    tab.pane_ids@.filter_map(|pane_id: u64| pane_item(state, tab, pane_id, demand))
}

/// The wishes of the panes of a workspace, tab by tab.
pub open spec fn workspace_pane_items(
    state: AppState,
    ws: Workspace,
    demand: GitStatusRefreshDemand,
) -> Seq<GitRefreshItem> {
    ws.tabs@.flat_map(|tab: Tab| tab_items(state, tab, demand))
}

/// The wishes of all panes, workspace by workspace; none where nothing is wanted.
pub open spec fn terminal_items(state: AppState, demand: GitStatusRefreshDemand) -> Seq<
    GitRefreshItem,
> {
    if demand == git_status::no_demand() {
        Seq::empty()
    } else {
        state.workspaces@.flat_map(|ws: Workspace| workspace_pane_items(state, ws, demand))
    }
}

/// Whether a refresh at `now` finds the repositories anew: on request, or when it
/// was not done for long enough.
pub open spec fn discovers(app: App, now: u64) -> bool {
    app.git_identity_refresh_requested || now - app.last_git_repo_discovery_refresh
        >= app.git_refresh_intervals.repo_discovery || app.git_refresh_intervals.repo_discovery == 0
}

/// The facts that workspaces receive at the next refresh: those that their rows
/// show, and the branch where their repositories were asked for.
pub open spec fn workspace_demand(app: App) -> GitStatusRefreshDemand {
    GitStatusRefreshDemand {
        branch: space_demand(app.state).branch || app.git_identity_refresh_requested,
        ..space_demand(app.state)
    }
}

/// All wishes for a refresh at `now`.
pub open spec fn refresh_items(app: App, now: u64) -> Seq<GitRefreshItem> {
    workspace_items(app.state, discovers(app, now), workspace_demand(app)) + terminal_items(
        app.state,
        agent_demand(app.state),
    )
}

/// Whether a refresh is due at `now`.
pub open spec fn is_due(app: App, now: u64) -> bool {
    deadline(app) is Some && now >= deadline(app)->0
}

/// The application after it was told to start a due refresh at `now`: a refresh
/// is running, or, if nobody has a wish, counts as done. Either way a request to
/// find the repositories anew is served.
pub open spec fn after_start(app: App, now: u64) -> App {
    if !is_due(app, now) {
        app
    } else if refresh_items(app, now).len() == 0 {
        App { last_git_remote_status_refresh: now, git_identity_refresh_requested: false, ..app }
    } else {
        App {
            git_refresh_in_flight: true,
            git_identity_refresh_requested: false,
            last_git_repo_discovery_refresh: if discovers(app, now) {
                now
            } else {
                app.last_git_repo_discovery_refresh
            },
            ..app
        }
    }
}

/// What is remembered of directories inside a repository.
pub open spec fn fingerprinted(cache: Map<PathView, GitStatusCacheEntry>) -> Map<
    PathView,
    GitStatusCacheEntry,
> {
    cache.restrict(
        Set::new(|key: PathView| cache.contains_key(key) && cache[key].fingerprint is Some),
    )
}

/// `after` is `before` with a refresh asked for at `now`: what is remembered of
/// directories outside any repository is forgotten, and the next refresh is due
/// at once, or, if one is running, noted for afterwards.
pub open spec fn is_marked_due(before: App, after: App, now: u64) -> bool {
    &&& after.git_status_cache@ == fingerprinted(before.git_status_cache@)
    &&& if before.git_refresh_in_flight {
        &&& after.git_refresh_due_after_in_flight
        &&& after.last_git_remote_status_refresh == before.last_git_remote_status_refresh
    } else {
        &&& !after.git_refresh_due_after_in_flight
        &&& after.last_git_remote_status_refresh == if now
            >= before.git_refresh_intervals.remote_status {
            now - before.git_refresh_intervals.remote_status
        } else {
            now as int
        }
    }
    &&& after.state == before.state
    &&& after.git_refresh_intervals == before.git_refresh_intervals
    &&& after.git_refresh_in_flight == before.git_refresh_in_flight
    &&& after.last_git_repo_discovery_refresh == before.last_git_repo_discovery_refresh
}

/// `after` is `before` with the running refresh over at `now`: the next one is due
/// an interval later, or at once where one was asked for meanwhile.
pub open spec fn is_finished(before: App, after: App, now: u64) -> bool {
    let over = App { git_refresh_in_flight: false, last_git_remote_status_refresh: now, ..before };
    if before.git_refresh_due_after_in_flight {
        &&& is_marked_due(over, after, now)
        &&& after.git_identity_refresh_requested == before.git_identity_refresh_requested
    } else {
        after == over
    }
}

/// Whether `token` stands in one of the rows of workspaces.
fn space_rows_have(rows: &Vec<Vec<SpaceSidebarToken>>, token: SpaceSidebarToken) -> (found: bool)
    ensures
        found == app_state::space_rows_have(rows@, token),
{
    for r in 0..rows.len()
        invariant
            forall|i: int, c: int|
                0 <= i < r && 0 <= c < rows@[i]@.len() ==> #[trigger] rows@[i]@[c] != token,
    {
        let row = &rows[r];
        for c in 0..row.len()
            invariant
                r < rows@.len(),
                *row == rows@[r as int],
                forall|j: int| 0 <= j < c ==> #[trigger] row@[j] != token,
        {
            if row[c] == token {
                assert(rows@[r as int]@[c as int] == token);
                return true;
            }
        }
    }
    false
}

/// Whether the entry was made inside a repository.
fn is_fingerprinted(entry: &GitStatusCacheEntry) -> (inside: bool)
    ensures
        inside == entry.fingerprint is Some,
{
    entry.fingerprint.is_some()
}

fn clone_path(path: &Option<DirPath>) -> (copy: Option<DirPath>)
    ensures
        copy == *path,
{
    match path {
        Some(path) => Some(path.clone()),
        None => None,
    }
}

impl App {
    /// The facts that the rows of workspaces show.
    pub fn git_refresh_demand(&self) -> (demand: GitStatusRefreshDemand)
        ensures
            demand == space_demand(self.state),
    {
        GitStatusRefreshDemand {
            branch: space_rows_have(&self.state.sidebar_spaces, SpaceSidebarToken::Branch),
            ahead_behind: space_rows_have(&self.state.sidebar_spaces, SpaceSidebarToken::GitStatus),
            dirty: false,
        }
    }

    /// Demand raised by agent rows: both counts, for as long as some open agent
    /// pane renders the `git_status` token.
    pub fn agent_git_refresh_demand(&self) -> (demand: GitStatusRefreshDemand)
        ensures
            demand == agent_demand(self.state),
    {
        broadcast use vstd::std_specs::hash::group_hash_axioms;

        let terminals = self.state.terminals.values();
        let ghost all = vstd::std_specs::iter::IteratorSpec::remaining(&terminals).unref();
        assert(all.to_set() == self.state.terminals@.values());
        let mut wanted: bool = false;
        for terminal in it: terminals
            invariant
                it.seq().unref() == all,
                wanted == exists|i: int|
                    0 <= i < it.index() && is_consumer(self.state, #[trigger] all[i]),
        {
            let ghost k = it.index() as int;
            assert(*terminal == all[k]);
            if terminal.is_agent_terminal() && self.state.terminal_wants_git_status(terminal) {
                wanted = true;
            }
        }
        proof {
            if wanted {
                let i = choose|i: int|
                    0 <= i < all.len() && is_consumer(self.state, #[trigger] all[i]);
                assert(all.to_set().contains(all[i]));
                let id = choose|id: u64| #[trigger]
                    self.state.terminals@.contains_key(id) && self.state.terminals@[id] == all[i];
                assert(self.state.terminals@.contains_key(id));
            }
            if agent_demand(self.state).dirty {
                let id = choose|id: u64| #[trigger]
                    self.state.terminals@.contains_key(id) && is_consumer(
                        self.state,
                        self.state.terminals@[id],
                    );
                assert(self.state.terminals@.values().contains(self.state.terminals@[id]));
                assert(all.to_set().contains(self.state.terminals@[id]));
            }
        }
        GitStatusRefreshDemand { branch: false, ahead_behind: wanted, dirty: wanted }
    }

    /// When the next refresh is due: none while one is running, without a
    /// workspace, or without anyone who wants git facts.
    pub fn git_refresh_deadline(&self) -> (due: Option<u64>)
        requires
            deadline_is_representable(*self),
        ensures
            match due {
                Some(due) => deadline(*self) == Some(due as int),
                None => deadline(*self) is None,
            },
    {
        let agent_consumer = !self.agent_git_refresh_demand().is_empty();
        if !self.git_refresh_in_flight && !self.state.workspaces.is_empty() && (
        self.git_identity_refresh_requested || !self.git_refresh_demand().is_empty()
            || agent_consumer) {
            Some(self.last_git_remote_status_refresh + self.git_refresh_intervals.remote_status)
        } else {
            None
        }
    }

    /// Asks for a refresh now.
    pub fn mark_git_status_refresh_due(&mut self, now: u64)
        ensures
            is_marked_due(*old(self), *final(self), now),
            final(self).git_identity_refresh_requested == old(self).git_identity_refresh_requested,
    {
        let ghost before = self.git_status_cache@;
        self.git_status_cache.retain(is_fingerprinted);
        assert(self.git_status_cache@ =~= fingerprinted(before));
        if self.git_refresh_in_flight {
            self.git_refresh_due_after_in_flight = true;
            return ;
        }
        self.last_git_remote_status_refresh = match now.checked_sub(
            self.git_refresh_intervals.remote_status,
        ) {
            Some(earlier) => earlier,
            None => now,
        };
        self.git_refresh_due_after_in_flight = false;
    }

    /// Asks for a refresh now that finds the repositories of the workspaces anew.
    pub fn request_git_identity_refresh(&mut self, now: u64)
        ensures
            is_marked_due(*old(self), *final(self), now),
            final(self).git_identity_refresh_requested,
    {
        self.git_identity_refresh_requested = true;
        self.mark_git_status_refresh_due(now);
    }
}

/// The wish of a workspace.
fn workspace_git_refresh_item(
    ws: &Workspace,
    refresh_repo_discovery: bool,
    demand: GitStatusRefreshDemand,
) -> (item: Option<GitRefreshItem>)
    ensures
        item == workspace_item(*ws, refresh_repo_discovery, demand),
{
    match &ws.resolved_identity_cwd {
        Some(cwd) => {
            let cache_key_hint = if !refresh_repo_discovery && ws.cached_identity_cwd.same(cwd) {
                Some(ws.cached_git_status_key.clone())
            } else {
                None
            };
            Some(
                GitRefreshItem {
                    target: GitRefreshTarget::Workspace {
                        workspace_id: ws.id.clone(),
                        resolved_identity_cwd: cwd.clone(),
                    },
                    cache_key_hint,
                    demand,
                },
            )
        },
        None => None,
    }
}

impl AppState {
    /// The wish of a pane.
    fn pane_git_refresh_item(&self, tab: &Tab, pane_id: u64, demand: GitStatusRefreshDemand) -> (item:
        Option<GitRefreshItem>)
        ensures
            item == pane_item(*self, *tab, pane_id, demand),
    {
        broadcast use vstd::std_specs::hash::group_hash_axioms;

        let pane: &Pane = match tab.panes.get(&pane_id) {
            Some(pane) => pane,
            None => return None,
        };
        let terminal = match self.terminals.get(&pane.attached_terminal_id.number) {
            Some(terminal) => terminal,
            None => return None,
        };
        if !terminal.is_agent_terminal() || !self.terminal_wants_git_status(terminal) {
            return None;
        }
        let shell_cwd = clone_path(&pane.shell_cwd);
        let cwd = match clone_path(&terminal.agent_cwd) {
            Some(cwd) => cwd,
            None => match clone_path(&shell_cwd) {
                Some(cwd) => cwd,
                None => return None,
            },
        };
        let second_choice = match shell_cwd {
            Some(shell_cwd) => if shell_cwd.same(&cwd) {
                None
            } else {
                Some(shell_cwd)
            },
            None => None,
        };
        Some(
            GitRefreshItem {
                target: GitRefreshTarget::Terminal {
                    terminal_id: terminal.id,
                    cwd,
                    shell_cwd: second_choice,
                },
                cache_key_hint: None,
                demand,
            },
        )
    }

    /// Appends the wishes of the panes of a tab.
    fn push_tab_items(
        &self,
        items: &mut Vec<GitRefreshItem>,
        tab: &Tab,
        demand: GitStatusRefreshDemand,
    )
        ensures
            final(items)@ == old(items)@ + tab_items(*self, *tab, demand),
    {
        let ghost start = items@;
        let ghost ids = tab.pane_ids@;
        let ghost to_item = |pane_id: u64| pane_item(*self, *tab, pane_id, demand);
        assert(ids.take(0) =~= Seq::empty());
        assert(items@ =~= start + ids.take(0).filter_map(to_item));
        for i in 0..tab.pane_ids.len()
            invariant
                ids == tab.pane_ids@,
                to_item == (|pane_id: u64| pane_item(*self, *tab, pane_id, demand)),
                items@ == start + ids.take(i as int).filter_map(to_item),
        {
            proof {
                ids.lemma_filter_map_take_succ(to_item, i as int);
            }
            if let Some(item) = self.pane_git_refresh_item(tab, tab.pane_ids[i], demand) {
                items.push(item);
            }
            assert(items@ =~= start + ids.take(i + 1).filter_map(to_item));
        }
        assert(ids.take(ids.len() as int) =~= ids);
    }

    /// Appends the wishes of the panes of a workspace.
    fn push_workspace_pane_items(
        &self,
        items: &mut Vec<GitRefreshItem>,
        ws: &Workspace,
        demand: GitStatusRefreshDemand,
    )
        ensures
            final(items)@ == old(items)@ + workspace_pane_items(*self, *ws, demand),
    {
        let ghost start = items@;
        let ghost tabs = ws.tabs@;
        let ghost to_items = |tab: Tab| tab_items(*self, tab, demand);
        assert(tabs.take(0) =~= Seq::empty());
        assert(tabs.take(0).flat_map(to_items) =~= Seq::empty());
        assert(items@ =~= start + tabs.take(0).flat_map(to_items));
        for i in 0..ws.tabs.len()
            invariant
                tabs == ws.tabs@,
                to_items == (|tab: Tab| tab_items(*self, tab, demand)),
                items@ == start + tabs.take(i as int).flat_map(to_items),
        {
            proof {
                tabs.lemma_flat_map_take_append(to_items, i as int);
            }
            self.push_tab_items(items, &ws.tabs[i], demand);
            assert(items@ =~= start + tabs.take(i + 1).flat_map(to_items));
        }
        assert(tabs.take(tabs.len() as int) =~= tabs);
    }
}

impl App {
    /// One item for each workspace whose directory is known. It carries the key
    /// of its checkout along where that is still good, and no repository is
    /// looked for here.
    pub fn workspace_git_refresh_items(
        &self,
        refresh_repo_discovery: bool,
        demand: GitStatusRefreshDemand,
    ) -> (items: Vec<GitRefreshItem>)
        ensures
            items@ == workspace_items(self.state, refresh_repo_discovery, demand),
    {
        let mut items: Vec<GitRefreshItem> = Vec::new();
        if demand.is_empty() {
            return items;
        }
        let ghost workspaces = self.state.workspaces@;
        let ghost to_item = |ws: Workspace| workspace_item(ws, refresh_repo_discovery, demand);
        assert(workspaces.take(0) =~= Seq::empty());
        assert(items@ =~= workspaces.take(0).filter_map(to_item));
        for i in 0..self.state.workspaces.len()
            invariant
                workspaces == self.state.workspaces@,
                to_item == (|ws: Workspace| workspace_item(ws, refresh_repo_discovery, demand)),
                items@ == workspaces.take(i as int).filter_map(to_item),
        {
            proof {
                workspaces.lemma_filter_map_take_succ(to_item, i as int);
            }
            if let Some(item) = workspace_git_refresh_item(
                &self.state.workspaces[i],
                refresh_repo_discovery,
                demand,
            ) {
                items.push(item);
            }
            assert(items@ =~= workspaces.take(i + 1).filter_map(to_item));
        }
        assert(workspaces.take(workspaces.len() as int) =~= workspaces);
        items
    }

    /// One item per agent pane, at the foreground cwd the agent poll recorded, so
    /// an agent that moved into a linked worktree reports that worktree rather
    /// than the shell's or the workspace's directory.
    pub fn terminal_git_refresh_items(&self, demand: GitStatusRefreshDemand) -> (items: Vec<
        GitRefreshItem,
    >)
        ensures
            items@ == terminal_items(self.state, demand),
    {
        let mut items: Vec<GitRefreshItem> = Vec::new();
        if demand.is_empty() {
            return items;
        }
        let ghost workspaces = self.state.workspaces@;
        let ghost to_items = |ws: Workspace| workspace_pane_items(self.state, ws, demand);
        assert(workspaces.take(0) =~= Seq::empty());
        assert(items@ =~= workspaces.take(0).flat_map(to_items));
        for i in 0..self.state.workspaces.len()
            invariant
                workspaces == self.state.workspaces@,
                to_items == (|ws: Workspace| workspace_pane_items(self.state, ws, demand)),
                items@ == workspaces.take(i as int).flat_map(to_items),
        {
            proof {
                workspaces.lemma_flat_map_take_append(to_items, i as int);
            }
            self.state.push_workspace_pane_items(&mut items, &self.state.workspaces[i], demand);
        }
        assert(workspaces.take(workspaces.len() as int) =~= workspaces);
        items
    }

    /// Starts a refresh at `now` if one is due, and hands out what it starts
    /// with. A refresh that nobody has a wish for is over at once.
    pub fn start_git_status_refresh_if_due(&mut self, now: u64) -> (start: Option<GitRefreshStart>)
        requires
            deadline_is_representable(*old(self)),
        ensures
            start is Some == (is_due(*old(self), now) && refresh_items(*old(self), now).len() > 0),
            start is Some ==> start->0.items@ == refresh_items(*old(self), now)
                && start->0.cache@ == old(self).git_status_cache@,
            *final(self) == after_start(*old(self), now),
    {
        let due = match self.git_refresh_deadline() {
            Some(due) => due,
            None => return None,
        };
        if now < due {
            return None;
        }
        let refresh_repo_discovery = self.git_identity_refresh_requested || now.saturating_sub(
            self.last_git_repo_discovery_refresh,
        ) >= self.git_refresh_intervals.repo_discovery;
        let mut workspace_demand = self.git_refresh_demand();
        if self.git_identity_refresh_requested {
            workspace_demand.branch = true;
        }
        let mut items = self.workspace_git_refresh_items(refresh_repo_discovery, workspace_demand);
        let mut terminal_items = self.terminal_git_refresh_items(self.agent_git_refresh_demand());
        items.append(&mut terminal_items);

        if items.is_empty() {
            self.last_git_remote_status_refresh = now;
            self.git_identity_refresh_requested = false;
            return None;
        }
        self.git_refresh_in_flight = true;
        let cache = self.git_status_cache.clone();
        assert(cache@ =~= self.git_status_cache@);
        self.git_identity_refresh_requested = false;
        if refresh_repo_discovery {
            self.last_git_repo_discovery_refresh = now;
        }
        Some(GitRefreshStart { items, cache })
    }

    /// Ends the running refresh. A refresh that was asked for meanwhile is due now.
    pub fn finish_git_status_refresh(&mut self, now: u64)
        ensures
            is_finished(*old(self), *final(self), now),
    {
        self.git_refresh_in_flight = false;
        self.last_git_remote_status_refresh = now;
        if self.git_refresh_due_after_in_flight {
            self.mark_git_status_refresh_due(now);
        }
    }
}

/// A refresh that was asked for while none is running is due at once, for as long
/// as there is a workspace and someone wants git facts.
pub proof fn marked_refresh_is_due_at_once(before: App, after: App, now: u64)
    requires
        is_marked_due(before, after, now),
        !before.git_refresh_in_flight,
        now >= before.git_refresh_intervals.remote_status,
        deadline(after) is Some,
    ensures
        deadline(after) == Some(now as int),
        is_due(after, now),
{
}

/// A request to find the repositories anew brings a refresh about even where
/// nobody wants git facts, if there is a workspace and no refresh is running.
pub proof fn identity_refresh_needs_no_consumer(before: App, after: App, now: u64)
    requires
        is_marked_due(before, after, now),
        after.git_identity_refresh_requested,
        !before.git_refresh_in_flight,
        before.state.workspaces@.len() > 0,
    ensures
        deadline(after) is Some,
        now >= before.git_refresh_intervals.remote_status ==> is_due(after, now),
        workspace_demand(after).branch,
        discovers(after, now),
{
}

/// A due refresh serves a request to find the repositories anew, and that once:
/// afterwards the request is gone, and where nobody wants git facts no further
/// refresh is to come.
pub proof fn identity_refresh_is_served_once(app: App, now: u64)
    requires
        is_due(app, now),
    ensures
        !after_start(app, now).git_identity_refresh_requested,
        space_demand(app.state) == git_status::no_demand() && agent_demand(app.state)
            == git_status::no_demand() ==> deadline(after_start(app, now)) is None,
{
}

/// While a refresh is running no other one starts, whenever it is tried.
pub proof fn running_refresh_blocks_the_next(app: App, now: u64, later: u64)
    requires
        is_due(app, now),
        refresh_items(app, now).len() > 0,
    ensures
        after_start(app, now).git_refresh_in_flight,
        deadline(after_start(app, now)) is None,
        after_start(after_start(app, now), later) == after_start(app, now),
{
}

/// Nothing is refreshed without a workspace or without anyone who wants git
/// facts, whenever it is tried.
pub proof fn refresh_needs_a_consumer(app: App, now: u64)
    requires
        app.state.workspaces@.len() == 0 || (!app.git_identity_refresh_requested && space_demand(
            app.state,
        ) == git_status::no_demand() && agent_demand(app.state) == git_status::no_demand()),
    ensures
        deadline(app) is None,
        after_start(app, now) == app,
{
}

/// When a refresh is due does not depend on what the workspaces are: neither their
/// names nor the worktrees they belong to bring one about.
pub proof fn deadline_does_not_look_into_workspaces(app: App, other: App)
    requires
        app.state.workspaces@.len() > 0,
        other.state.workspaces@.len() > 0,
        other == (App {
            state: AppState { workspaces: other.state.workspaces, ..app.state },
            ..app
        }),
    ensures
        deadline(other) == deadline(app),
{
    assert(space_demand(other.state) == space_demand(app.state));
    assert(agent_demand(other.state) == agent_demand(app.state)) by {
        assert forall|id: u64| #[trigger] app.state.terminals@.contains_key(id) implies is_consumer(
            app.state,
            app.state.terminals@[id],
        ) == is_consumer(other.state, other.state.terminals@[id]) by {}
    }
}

/// A request made while a refresh is running leaves the running one alone and is
/// noted, also where it was already noted.
pub proof fn request_in_flight_is_noted(before: App, after: App, now: u64)
    requires
        is_marked_due(before, after, now),
        before.git_refresh_in_flight,
    ensures
        after.git_refresh_in_flight,
        after.git_refresh_due_after_in_flight,
        deadline(after) is None,
{
}

/// A request made while a refresh is running survives that refresh: once it is
/// over neither the refresh nor the request is marked any more, and the next
/// refresh, for whatever is open by then, is due at once.
pub proof fn request_survives_the_running_refresh(
    before: App,
    noted: App,
    after: App,
    asked: u64,
    now: u64,
    state: AppState,
)
    requires
        before.git_refresh_in_flight,
        is_marked_due(before, noted, asked),
        is_finished(noted, after, now),
        now >= before.git_refresh_intervals.remote_status,
    ensures
        !after.git_refresh_in_flight,
        !after.git_refresh_due_after_in_flight,
        after.state == before.state,
        deadline(App { state, ..after }) is Some ==> deadline(App { state, ..after }) == Some(
            now as int,
        ),
        state.workspaces@.len() > 0 && (space_demand(state) != git_status::no_demand()
            || agent_demand(state) != git_status::no_demand()) ==> is_due(
            App { state, ..after },
            now,
        ),
{
}

/// A request to find the repositories anew that is made while a refresh is running
/// is served by the next one, even where nobody wants git facts.
pub proof fn identity_request_survives_the_running_refresh(
    before: App,
    noted: App,
    after: App,
    asked: u64,
    now: u64,
)
    requires
        before.git_refresh_in_flight,
        before.state.workspaces@.len() > 0,
        is_marked_due(before, noted, asked),
        noted.git_identity_refresh_requested,
        is_finished(noted, after, now),
        now >= before.git_refresh_intervals.remote_status,
    ensures
        is_due(after, now),
        workspace_demand(after).branch,
        discovers(after, now),
{
}

/// Where nobody asked meanwhile, the next refresh is due one interval after the
/// last one was over, and what is remembered stays.
pub proof fn quiet_refresh_waits_one_interval(before: App, after: App, now: u64)
    requires
        is_finished(before, after, now),
        !before.git_refresh_due_after_in_flight,
    ensures
        !after.git_refresh_in_flight,
        after.git_status_cache == before.git_status_cache,
        deadline(after) is Some ==> deadline(after) == Some(
            now + after.git_refresh_intervals.remote_status,
        ),
{
}

/// Asking for a refresh forgets exactly what is remembered of directories outside
/// any repository; asking again forgets nothing more.
pub proof fn request_forgets_non_repositories(cache: Map<PathView, GitStatusCacheEntry>)
    ensures
        forall|key: PathView| #[trigger]
            fingerprinted(cache).contains_key(key) == (cache.contains_key(key)
                && cache[key].fingerprint is Some),
        forall|key: PathView| #[trigger]
            fingerprinted(cache).contains_key(key) ==> fingerprinted(cache)[key] == cache[key],
        fingerprinted(fingerprinted(cache)) == fingerprinted(cache),
{
    assert(fingerprinted(fingerprinted(cache)) =~= fingerprinted(cache));
}

/// The wish of workspace `w` is among those of the workspaces.
pub proof fn every_known_workspace_is_covered(
    state: AppState,
    refresh_repo_discovery: bool,
    demand: GitStatusRefreshDemand,
    w: int,
)
    requires
        demand != git_status::no_demand(),
        0 <= w < state.workspaces@.len(),
        state.workspaces@[w].resolved_identity_cwd is Some,
    ensures
        workspace_items(state, refresh_repo_discovery, demand).contains(
            workspace_item(state.workspaces@[w], refresh_repo_discovery, demand)->0,
        ),
{
    sequences::lemma_filter_map_has(
        state.workspaces@,
        |ws: Workspace| workspace_item(ws, refresh_repo_discovery, demand),
        w,
    );
}

/// Every wish of the workspaces is that of one of them. It carries a key along
/// only where that workspace stayed in the directory that the key was found for,
/// and none where the repositories are to be found anew, so that then nothing
/// remembered is trusted.
pub proof fn kept_key_belongs_to_the_directory(
    state: AppState,
    refresh_repo_discovery: bool,
    demand: GitStatusRefreshDemand,
    i: int,
) -> (w: int)
    requires
        0 <= i < workspace_items(state, refresh_repo_discovery, demand).len(),
    ensures
        0 <= w < state.workspaces@.len(),
        ({
            let item = workspace_items(state, refresh_repo_discovery, demand)[i];
            let ws = state.workspaces@[w];
            &&& Some(item) == workspace_item(ws, refresh_repo_discovery, demand)
            &&& item.cache_key_hint is Some ==> !refresh_repo_discovery
                && git_refresh::target_cwd(item.target)@ == ws.cached_identity_cwd@
                && item.cache_key_hint->0 == ws.cached_git_status_key
            &&& refresh_repo_discovery ==> git_refresh::reconciles(item)
        }),
{
    sequences::lemma_filter_map_origin(
        state.workspaces@,
        |ws: Workspace| workspace_item(ws, refresh_repo_discovery, demand),
        i,
    )
}

/// The pane at place `k` in the layout of tab `t` of workspace `w`, if there is
/// one.
pub open spec fn is_pane(state: AppState, w: int, t: int, k: int) -> bool {
    &&& 0 <= w < state.workspaces@.len()
    &&& 0 <= t < state.workspaces@[w].tabs@.len()
    &&& 0 <= k < state.workspaces@[w].tabs@[t].pane_ids@.len()
}

/// The wish of the pane at place `k` in the layout of tab `t` of workspace `w`.
pub open spec fn pane_item_at(
    state: AppState,
    demand: GitStatusRefreshDemand,
    w: int,
    t: int,
    k: int,
) -> Option<GitRefreshItem> {
    let tab = state.workspaces@[w].tabs@[t];
    pane_item(state, tab, tab.pane_ids@[k], demand)
}

/// No agent pane is left out: what it wishes is among the wishes of the panes.
pub proof fn every_agent_pane_is_covered(
    state: AppState,
    demand: GitStatusRefreshDemand,
    w: int,
    t: int,
    k: int,
)
    requires
        demand != git_status::no_demand(),
        is_pane(state, w, t, k),
        pane_item_at(state, demand, w, t, k) is Some,
    ensures
        terminal_items(state, demand).contains(pane_item_at(state, demand, w, t, k)->0),
{
    let ws = state.workspaces@[w];
    let tab = ws.tabs@[t];
    let item = pane_item_at(state, demand, w, t, k)->0;
    sequences::lemma_filter_map_has(
        tab.pane_ids@,
        |pane_id: u64| pane_item(state, tab, pane_id, demand),
        k,
    );
    sequences::lemma_flat_map_has(
        ws.tabs@,
        |tab: Tab| tab_items(state, tab, demand),
        t,
        item,
    );
    sequences::lemma_flat_map_has(
        state.workspaces@,
        |ws: Workspace| workspace_pane_items(state, ws, demand),
        w,
        item,
    );
}

/// No pane is made up: every wish of the panes is that of one of them.
pub proof fn every_terminal_wish_has_its_pane(
    state: AppState,
    demand: GitStatusRefreshDemand,
    i: int,
) -> (place: (int, int, int))
    requires
        0 <= i < terminal_items(state, demand).len(),
    ensures
        is_pane(state, place.0, place.1, place.2),
        pane_item_at(state, demand, place.0, place.1, place.2) == Some(
            terminal_items(state, demand)[i],
        ),
{
    let (w, n) = sequences::lemma_flat_map_origin(
        state.workspaces@,
        |ws: Workspace| workspace_pane_items(state, ws, demand),
        i,
    );
    let ws = state.workspaces@[w];
    let (t, m) = sequences::lemma_flat_map_origin(
        ws.tabs@,
        |tab: Tab| tab_items(state, tab, demand),
        n,
    );
    let tab = ws.tabs@[t];
    let k = sequences::lemma_filter_map_origin(
        tab.pane_ids@,
        |pane_id: u64| pane_item(state, tab, pane_id, demand),
        m,
    );
    (w, t, k)
}

/// Every wish of a refresh asks for something.
pub proof fn wishes_are_not_empty(app: App, now: u64, i: int)
    requires
        0 <= i < refresh_items(app, now).len(),
    ensures
        refresh_items(app, now)[i].demand != git_status::no_demand(),
{
    let demand = workspace_demand(app);
    let first = workspace_items(app.state, discovers(app, now), demand);
    if i < first.len() {
        let w = kept_key_belongs_to_the_directory(app.state, discovers(app, now), demand, i);
    } else {
        let place = every_terminal_wish_has_its_pane(
            app.state,
            agent_demand(app.state),
            i - first.len(),
        );
    }
}

/// An agent is looked for where it works: at the directory that the agent poll
/// recorded, whatever its shell says. Its shell's directory takes over only where
/// that directory lies in no checkout.
pub proof fn agent_reports_where_it_works(
    state: AppState,
    tab: Tab,
    pane_id: u64,
    demand: GitStatusRefreshDemand,
    checkouts: Map<PathView, DirPath>,
)
    requires
        pane_item(state, tab, pane_id, demand) is Some,
        state.terminals@[tab.panes@[pane_id].attached_terminal_id.number].agent_cwd is Some,
    ensures
        ({
            let target = pane_item(state, tab, pane_id, demand)->0.target;
            let agent_cwd = state.terminals@[tab.panes@[pane_id].attached_terminal_id.number].agent_cwd->0;
            let settled_cwd = git_refresh::target_cwd(git_refresh::settled(target, checkouts));
            &&& git_refresh::target_cwd(target) == agent_cwd
            &&& checkouts.contains_key(agent_cwd@) ==> settled_cwd == agent_cwd
            &&& settled_cwd == agent_cwd || Some(settled_cwd) == tab.panes@[pane_id].shell_cwd
        }),
{
}

} // verus!
