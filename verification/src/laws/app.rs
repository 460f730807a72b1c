//! Laws of when the application refreshes git facts, and for whom.

use crate::app;
use crate::app::{App, GitRefreshStart};
use crate::app_state::{AppState, SpaceSidebarToken, Tab, TerminalState, Workspace};
use crate::git_refresh::{GitRefreshItem, GitRefreshTarget};
use crate::git_status::{GitStatusCacheEntry, GitStatusRefreshDemand};
use crate::path::{DirPath, PathMap, PathView};
use vstd::prelude::*;

verus! {

/// Whether the demand asks for any fact.
pub open spec fn asks(demand: GitStatusRefreshDemand) -> bool {
    demand.branch || demand.ahead_behind || demand.dirty
}

/// Whether `token` stands somewhere in the rows of workspaces.
pub open spec fn stands_in(app: App, token: SpaceSidebarToken) -> bool {
    exists|r: int, c: int|
        0 <= r < app.state.sidebar_spaces@.len() && 0 <= c
            < app.state.sidebar_spaces@[r]@.len() && #[trigger] app.state.sidebar_spaces@[r]@[c]
            == token
}

/// The rows of workspaces ask for what their tokens show: the branch token for the
/// branch, the status token for the commits ahead and behind, and none for changed
/// files.
pub proof fn rows_ask_for_what_they_show(app: App, demand: GitStatusRefreshDemand)
    requires
        call_ensures(App::git_refresh_demand, (&app,), demand),
    ensures
        demand.branch == stands_in(app, SpaceSidebarToken::Branch),
        demand.ahead_behind == stands_in(app, SpaceSidebarToken::GitStatus),
        !demand.dirty,
{
}

/// One terminal that runs an agent whose rows show the counts is enough for both
/// counts to be asked for.
pub proof fn one_agent_is_enough(
    app: App,
    demand: GitStatusRefreshDemand,
    id: u64,
    wants: bool,
)
    requires
        call_ensures(App::agent_git_refresh_demand, (&app,), demand),
        app.state.terminals@.contains_key(id),
        app.state.terminals@[id].agent is Some,
        call_ensures(
            AppState::terminal_wants_git_status,
            (&app.state, &app.state.terminals@[id]),
            wants,
        ),
        wants,
    ensures
        demand.ahead_behind,
        demand.dirty,
        !demand.branch,
{
}

/// What agents ask for is both counts or nothing, and it is asked for by some
/// terminal that runs an agent whose rows show the counts.
pub proof fn agents_ask_through_a_terminal(app: App, demand: GitStatusRefreshDemand) -> (id: u64)
    requires
        call_ensures(App::agent_git_refresh_demand, (&app,), demand),
    ensures
        !demand.branch,
        demand.ahead_behind == demand.dirty,
        demand.dirty ==> {
            &&& app.state.terminals@.contains_key(id)
            &&& app.state.terminals@[id].agent is Some
            &&& forall|wants: bool| #[trigger]
                call_ensures(
                    AppState::terminal_wants_git_status,
                    (&app.state, &app.state.terminals@[id]),
                    wants,
                ) ==> wants
        },
{
    choose|id: u64| #[trigger]
        app.state.terminals@.contains_key(id) && app::is_consumer(
            app.state,
            app.state.terminals@[id],
        )
}

/// A refresh is to come exactly if none is running, there is a workspace, and the
/// repositories are to be found anew or someone asks for facts. It is due one
/// interval after the last.
pub proof fn deadline_needs_someone_who_asks(
    app: App,
    spaces: GitStatusRefreshDemand,
    agents: GitStatusRefreshDemand,
    due: Option<u64>,
)
    requires
        call_ensures(App::git_refresh_demand, (&app,), spaces),
        call_ensures(App::agent_git_refresh_demand, (&app,), agents),
        call_ensures(App::git_refresh_deadline, (&app,), due),
    ensures
        due is Some == (!app.git_refresh_in_flight && app.state.workspaces@.len() > 0 && (
        app.git_identity_refresh_requested || asks(spaces) || asks(agents))),
        due is Some ==> due->0 == app.last_git_remote_status_refresh
            + app.git_refresh_intervals.remote_status,
{
}

/// A deadline can be asked for wherever it lies on the clock.
pub proof fn deadline_on_the_clock_can_be_asked_for(app: App)
    requires
        app.last_git_remote_status_refresh + app.git_refresh_intervals.remote_status <= u64::MAX,
    ensures
        call_requires(App::git_refresh_deadline, (&app,)),
        app::deadline_is_representable(app),
{
}

/// `longer` is `shorter` with one item more.
pub open spec fn adds_one(shorter: Seq<GitRefreshItem>, longer: Seq<GitRefreshItem>) -> bool {
    longer.len() == shorter.len() + 1 && longer.drop_last() =~= shorter
}

/// Workspaces have no wish where nothing is asked for, nor where there are none.
pub proof fn nothing_asked_is_no_wish(
    app: App,
    discovery: bool,
    demand: GitStatusRefreshDemand,
    items: Vec<GitRefreshItem>,
)
    requires
        call_ensures(App::workspace_git_refresh_items, (&app, discovery, demand), items),
        !asks(demand) || app.state.workspaces@.len() == 0,
    ensures
        items@.len() == 0,
{
}

/// One workspace more adds one wish behind the others, if its directory is known:
/// addressed to its id and that directory, with the demand. It brings its key along
/// exactly if it is still in the directory that the key was found for and the
/// repositories are not to be found anew.
pub proof fn workspace_adds_its_wish(
    before: App,
    after: App,
    ws: Workspace,
    discovery: bool,
    demand: GitStatusRefreshDemand,
    old_items: Vec<GitRefreshItem>,
    new_items: Vec<GitRefreshItem>,
)
    requires
        call_ensures(App::workspace_git_refresh_items, (&before, discovery, demand), old_items),
        call_ensures(App::workspace_git_refresh_items, (&after, discovery, demand), new_items),
        after.state.workspaces@ == before.state.workspaces@.push(ws),
        asks(demand),
    ensures
        match ws.resolved_identity_cwd {
            Some(cwd) => {
                let item = new_items@.last();
                &&& adds_one(old_items@, new_items@)
                &&& item.target == (GitRefreshTarget::Workspace {
                    workspace_id: ws.id,
                    resolved_identity_cwd: cwd,
                })
                &&& item.demand == demand
                &&& item.cache_key_hint == if !discovery && ws.cached_identity_cwd@ == cwd@ {
                    Some(ws.cached_git_status_key)
                } else {
                    None
                }
            },
            None => new_items@ == old_items@,
        },
{
    let to_item = |ws: Workspace| app::workspace_item(ws, discovery, demand);
    let all = after.state.workspaces@;
    let n = before.state.workspaces@.len() as int;
    all.lemma_filter_map_take_succ(to_item, n);
    assert(all.take(n) =~= before.state.workspaces@);
    assert(all.take(n + 1) =~= all);
    if ws.resolved_identity_cwd is Some {
        assert(adds_one(old_items@, new_items@));
    } else {
        assert(new_items@ =~= old_items@);
    }
}

/// The wishes of workspaces rest on their ids, directories and keys alone: names,
/// worktrees and tabs have no part in them.
pub proof fn names_have_no_part_in_wishes(
    a: App,
    b: App,
    discovery: bool,
    demand: GitStatusRefreshDemand,
    x: Vec<GitRefreshItem>,
    y: Vec<GitRefreshItem>,
)
    requires
        call_ensures(App::workspace_git_refresh_items, (&a, discovery, demand), x),
        call_ensures(App::workspace_git_refresh_items, (&b, discovery, demand), y),
        a.state.workspaces@.len() == b.state.workspaces@.len(),
        forall|i: int|
            0 <= i < a.state.workspaces@.len() ==> {
                let (v, w) = (#[trigger] a.state.workspaces@[i], b.state.workspaces@[i]);
                &&& v.id == w.id
                &&& v.resolved_identity_cwd == w.resolved_identity_cwd
                &&& v.cached_identity_cwd == w.cached_identity_cwd
                &&& v.cached_git_status_key == w.cached_git_status_key
            },
    ensures
        x@ == y@,
{
    let to_item = |ws: Workspace| app::workspace_item(ws, discovery, demand);
    lemma_mapped_alike(a.state.workspaces@, b.state.workspaces@, to_item);
}

proof fn lemma_mapped_alike<A, B>(a: Seq<A>, b: Seq<A>, f: spec_fn(A) -> Option<B>)
    requires
        a.len() == b.len(),
        forall|i: int| 0 <= i < a.len() ==> f(#[trigger] a[i]) == f(b[i]),
    ensures
        a.filter_map(f) == b.filter_map(f),
    decreases a.len(),
{
    reveal_with_fuel(Seq::filter_map, 2);
    if a.len() > 0 {
        lemma_mapped_alike(a.drop_last(), b.drop_last(), f);
        assert(f(a[a.len() - 1]) == f(b[a.len() - 1]));
    }
}

/// Panes have no wish where nothing is asked for, nor where there is no workspace.
pub proof fn nothing_asked_is_no_pane_wish(
    app: App,
    demand: GitStatusRefreshDemand,
    items: Vec<GitRefreshItem>,
)
    requires
        call_ensures(App::terminal_git_refresh_items, (&app, demand), items),
        !asks(demand) || app.state.workspaces@.len() == 0,
    ensures
        items@.len() == 0,
{
    if app.state.workspaces@.len() == 0 {
        assert(app.state.workspaces@.flat_map(
            |ws: Workspace| app::workspace_pane_items(app.state, ws, demand),
        ) =~= Seq::empty());
    }
}

/// The two know the same terminals and rows of agents, but may have other
/// workspaces.
pub open spec fn same_agents(a: App, b: App) -> bool {
    &&& a.state.terminals == b.state.terminals
    &&& a.state.sidebar_agents == b.state.sidebar_agents
}

proof fn lemma_same_panes(a: App, b: App, tab: Tab, demand: GitStatusRefreshDemand)
    requires
        same_agents(a, b),
    ensures
        app::tab_items(a.state, tab, demand) == app::tab_items(b.state, tab, demand),
{
    let in_a = |pane_id: u64| app::pane_item(a.state, tab, pane_id, demand);
    let in_b = |pane_id: u64| app::pane_item(b.state, tab, pane_id, demand);
    assert(in_a =~= in_b);
}

proof fn lemma_same_workspace(a: App, b: App, ws: Workspace, demand: GitStatusRefreshDemand)
    requires
        same_agents(a, b),
    ensures
        app::workspace_pane_items(a.state, ws, demand) == app::workspace_pane_items(
            b.state,
            ws,
            demand,
        ),
{
    let in_a = |tab: Tab| app::tab_items(a.state, tab, demand);
    let in_b = |tab: Tab| app::tab_items(b.state, tab, demand);
    assert(in_a =~= in_b) by {
        assert forall|tab: Tab| #[trigger] in_a(tab) == in_b(tab) by {
            lemma_same_panes(a, b, tab, demand);
        }
    }
}

proof fn lemma_pane_wishes(
    app: App,
    rest: Seq<Workspace>,
    ws: Workspace,
    demand: GitStatusRefreshDemand,
    items: Vec<GitRefreshItem>,
)
    requires
        call_ensures(App::terminal_git_refresh_items, (&app, demand), items),
        app.state.workspaces@ == rest.push(ws),
        asks(demand),
    ensures
        items@ == rest.flat_map(|ws: Workspace| app::workspace_pane_items(app.state, ws, demand))
            + app::workspace_pane_items(app.state, ws, demand),
{
    rest.lemma_flat_map_push(|ws: Workspace| app::workspace_pane_items(app.state, ws, demand), ws);
}

proof fn lemma_same_rest(a: App, b: App, rest: Seq<Workspace>, demand: GitStatusRefreshDemand)
    requires
        same_agents(a, b),
    ensures
        rest.flat_map(|ws: Workspace| app::workspace_pane_items(a.state, ws, demand))
            == rest.flat_map(|ws: Workspace| app::workspace_pane_items(b.state, ws, demand)),
{
    let in_a = |ws: Workspace| app::workspace_pane_items(a.state, ws, demand);
    let in_b = |ws: Workspace| app::workspace_pane_items(b.state, ws, demand);
    assert(in_a =~= in_b) by {
        assert forall|ws: Workspace| #[trigger] in_a(ws) == in_b(ws) by {
            lemma_same_workspace(a, b, ws, demand);
        }
    }
}

/// A workspace without a tab adds no wish of a pane.
pub proof fn workspace_without_tabs_has_no_pane_wish(
    before: App,
    after: App,
    ws: Workspace,
    demand: GitStatusRefreshDemand,
    old_items: Vec<GitRefreshItem>,
    new_items: Vec<GitRefreshItem>,
)
    requires
        call_ensures(App::terminal_git_refresh_items, (&before, demand), old_items),
        call_ensures(App::terminal_git_refresh_items, (&after, demand), new_items),
        same_agents(before, after),
        after.state.workspaces@ == before.state.workspaces@.push(ws),
        ws.tabs@.len() == 0,
    ensures
        new_items@ == old_items@,
{
    if asks(demand) {
        let rest = before.state.workspaces@;
        lemma_pane_wishes(after, rest, ws, demand, new_items);
        lemma_same_rest(before, after, rest, demand);
        assert(app::workspace_pane_items(after.state, ws, demand) =~= Seq::empty());
        assert(new_items@ =~= old_items@);
    }
}

/// A tab without a pane adds no wish of a pane to the last workspace.
pub proof fn tab_without_panes_has_no_wish(
    before: App,
    after: App,
    rest: Seq<Workspace>,
    old_ws: Workspace,
    new_ws: Workspace,
    tab: Tab,
    demand: GitStatusRefreshDemand,
    old_items: Vec<GitRefreshItem>,
    new_items: Vec<GitRefreshItem>,
)
    requires
        call_ensures(App::terminal_git_refresh_items, (&before, demand), old_items),
        call_ensures(App::terminal_git_refresh_items, (&after, demand), new_items),
        same_agents(before, after),
        before.state.workspaces@ == rest.push(old_ws),
        after.state.workspaces@ == rest.push(new_ws),
        new_ws.tabs@ == old_ws.tabs@.push(tab),
        tab.pane_ids@.len() == 0,
    ensures
        new_items@ == old_items@,
{
    if asks(demand) {
        lemma_pane_wishes(before, rest, old_ws, demand, old_items);
        lemma_pane_wishes(after, rest, new_ws, demand, new_items);
        lemma_same_rest(before, after, rest, demand);
        lemma_same_workspace(before, after, old_ws, demand);
        old_ws.tabs@.lemma_flat_map_push(
            |tab: Tab| app::tab_items(after.state, tab, demand),
            tab,
        );
        assert(app::tab_items(after.state, tab, demand) =~= Seq::empty());
        assert(new_items@ =~= old_items@);
    }
}

/// One pane more in the last tab adds one wish behind the others exactly if the
/// pane and its terminal are there, the terminal runs an agent whose rows show the
/// counts, and one of its directories is known. The wish is addressed to the
/// terminal, at the directory that the agent poll recorded or else its shell's,
/// which stays as the second choice where it is another one; it brings no key.
pub proof fn pane_adds_its_wish(
    before: App,
    after: App,
    rest: Seq<Workspace>,
    old_ws: Workspace,
    new_ws: Workspace,
    tabs: Seq<Tab>,
    old_tab: Tab,
    new_tab: Tab,
    pane_id: u64,
    terminal: TerminalState,
    wants: bool,
    demand: GitStatusRefreshDemand,
    old_items: Vec<GitRefreshItem>,
    new_items: Vec<GitRefreshItem>,
)
    requires
        call_ensures(App::terminal_git_refresh_items, (&before, demand), old_items),
        call_ensures(App::terminal_git_refresh_items, (&after, demand), new_items),
        call_ensures(AppState::terminal_wants_git_status, (&after.state, &terminal), wants),
        same_agents(before, after),
        before.state.workspaces@ == rest.push(old_ws),
        after.state.workspaces@ == rest.push(new_ws),
        old_ws.tabs@ == tabs.push(old_tab),
        new_ws.tabs@ == tabs.push(new_tab),
        new_tab.panes == old_tab.panes,
        new_tab.pane_ids@ == old_tab.pane_ids@.push(pane_id),
        new_tab.panes@.contains_key(pane_id) && after.state.terminals@.contains_key(
            new_tab.panes@[pane_id].attached_terminal_id.number,
        ) ==> terminal
            == after.state.terminals@[new_tab.panes@[pane_id].attached_terminal_id.number],
        asks(demand),
    ensures
        ({
            let pane = new_tab.panes@[pane_id];
            let known = new_tab.panes@.contains_key(pane_id)
                && after.state.terminals@.contains_key(pane.attached_terminal_id.number);
            let item = new_items@.last();
            if known && terminal.agent is Some && wants && (terminal.agent_cwd is Some
                || pane.shell_cwd is Some) {
                let cwd = match terminal.agent_cwd {
                    Some(agent_cwd) => agent_cwd,
                    None => pane.shell_cwd->0,
                };
                &&& adds_one(old_items@, new_items@)
                &&& item.target is Terminal
                &&& item.target->terminal_id == terminal.id
                &&& item.target->cwd == cwd
                &&& item.target->shell_cwd == if pane.shell_cwd is Some && pane.shell_cwd->0@
                    != cwd@ {
                    pane.shell_cwd
                } else {
                    None
                }
                &&& item.cache_key_hint is None
                &&& item.demand == demand
            } else {
                new_items@ == old_items@
            }
        }),
{
    lemma_pane_wishes(before, rest, old_ws, demand, old_items);
    lemma_pane_wishes(after, rest, new_ws, demand, new_items);
    lemma_same_rest(before, after, rest, demand);
    lemma_same_workspace(before, after, old_ws, demand);
    let to_items = |tab: Tab| app::tab_items(after.state, tab, demand);
    tabs.lemma_flat_map_push(to_items, old_tab);
    tabs.lemma_flat_map_push(to_items, new_tab);
    let in_old = |pane_id: u64| app::pane_item(after.state, old_tab, pane_id, demand);
    let in_new = |pane_id: u64| app::pane_item(after.state, new_tab, pane_id, demand);
    assert(in_old =~= in_new);
    let ids = new_tab.pane_ids@;
    let n = old_tab.pane_ids@.len() as int;
    ids.lemma_filter_map_take_succ(in_new, n);
    assert(ids.take(n) =~= old_tab.pane_ids@);
    assert(ids.take(n + 1) =~= ids);
    assert(app::tab_items(after.state, new_tab, demand) == ids.filter_map(in_new));
    assert(app::tab_items(after.state, old_tab, demand) == old_tab.pane_ids@.filter_map(in_new));
    match in_new(pane_id) {
        Some(item) => {
            assert(new_items@ =~= old_items@.push(item));
        },
        None => {
            assert(new_items@ =~= old_items@);
        },
    }
}

/// `after` remembers exactly those entries of `before` that were made inside a
/// repository.
pub open spec fn keeps_repositories(
    before: PathMap<GitStatusCacheEntry>,
    after: PathMap<GitStatusCacheEntry>,
) -> bool {
    forall|key: PathView|
        #![trigger after@.contains_key(key)]
        #![trigger before@.contains_key(key)]
        {
            &&& after@.contains_key(key) == (before@.contains_key(key)
                && before@[key].fingerprint is Some)
            &&& after@.contains_key(key) ==> after@[key] == before@[key]
        }
}

/// Asking for a refresh forgets what is remembered of directories outside any
/// repository. Where no refresh is running, the next is due at once, that is, the
/// last counts as one interval back; where one is running, the request is noted.
/// Nothing else changes.
pub proof fn asking_makes_the_refresh_due(app: &mut App, now: u64)
    requires
        call_ensures(App::mark_git_status_refresh_due, (app, now), ()),
    ensures
        keeps_repositories(old(app).git_status_cache, final(app).git_status_cache),
        old(app).git_refresh_in_flight ==> final(app).git_refresh_due_after_in_flight && final(app).last_git_remote_status_refresh == old(app).last_git_remote_status_refresh,
        !old(app).git_refresh_in_flight ==> !final(app).git_refresh_due_after_in_flight,
        !old(app).git_refresh_in_flight && now >= old(app).git_refresh_intervals.remote_status
            ==> final(app).last_git_remote_status_refresh
            + old(app).git_refresh_intervals.remote_status == now,
        !old(app).git_refresh_in_flight && now < old(app).git_refresh_intervals.remote_status
            ==> final(app).last_git_remote_status_refresh == now,
        final(app).state == old(app).state,
        final(app).git_refresh_intervals == old(app).git_refresh_intervals,
        final(app).git_refresh_in_flight == old(app).git_refresh_in_flight,
        final(app).git_identity_refresh_requested == old(app).git_identity_refresh_requested,
        final(app).last_git_repo_discovery_refresh == old(app).last_git_repo_discovery_refresh,
{
}

/// Asking for the repositories to be found anew is asking for a refresh, and notes
/// the request.
pub proof fn asking_for_repositories_asks_for_a_refresh(app: &mut App, now: u64)
    requires
        call_ensures(App::request_git_identity_refresh, (app, now), ()),
    ensures
        final(app).git_identity_refresh_requested,
        keeps_repositories(old(app).git_status_cache, final(app).git_status_cache),
        old(app).git_refresh_in_flight ==> final(app).git_refresh_due_after_in_flight && final(app).last_git_remote_status_refresh == old(app).last_git_remote_status_refresh,
        !old(app).git_refresh_in_flight ==> !final(app).git_refresh_due_after_in_flight,
        !old(app).git_refresh_in_flight && now >= old(app).git_refresh_intervals.remote_status
            ==> final(app).last_git_remote_status_refresh
            + old(app).git_refresh_intervals.remote_status == now,
        !old(app).git_refresh_in_flight && now < old(app).git_refresh_intervals.remote_status
            ==> final(app).last_git_remote_status_refresh == now,
        final(app).state == old(app).state,
        final(app).git_refresh_intervals == old(app).git_refresh_intervals,
        final(app).git_refresh_in_flight == old(app).git_refresh_in_flight,
        final(app).last_git_repo_discovery_refresh == old(app).last_git_repo_discovery_refresh,
{
}

/// The end of a refresh clears its mark and any noted request. The next one is due
/// at once where one was noted, and one interval later otherwise.
pub proof fn end_of_a_refresh_serves_the_noted_request(app: &mut App, now: u64)
    requires
        call_ensures(App::finish_git_status_refresh, (app, now), ()),
    ensures
        !final(app).git_refresh_in_flight,
        !final(app).git_refresh_due_after_in_flight,
        final(app).state == old(app).state,
        final(app).git_refresh_intervals == old(app).git_refresh_intervals,
        final(app).git_identity_refresh_requested == old(app).git_identity_refresh_requested,
        final(app).last_git_repo_discovery_refresh == old(app).last_git_repo_discovery_refresh,
        old(app).git_refresh_due_after_in_flight ==> keeps_repositories(
            old(app).git_status_cache,
            final(app).git_status_cache,
        ),
        !old(app).git_refresh_due_after_in_flight ==> final(app).git_status_cache
            == old(app).git_status_cache,
        old(app).git_refresh_due_after_in_flight && now
            >= old(app).git_refresh_intervals.remote_status ==> final(app).last_git_remote_status_refresh + old(app).git_refresh_intervals.remote_status == now,
        !old(app).git_refresh_due_after_in_flight || now
            < old(app).git_refresh_intervals.remote_status ==> final(app).last_git_remote_status_refresh == now,
{
}

/// Whether a refresh at `now` finds the repositories anew: on request, or where
/// they were last looked for at least an interval ago.
pub open spec fn looks_anew(app: App, now: u64) -> bool {
    ||| app.git_identity_refresh_requested
    ||| now >= app.last_git_repo_discovery_refresh + app.git_refresh_intervals.repo_discovery
    ||| app.git_refresh_intervals.repo_discovery == 0
}

/// Nothing starts, and nothing changes, before a refresh is due.
pub proof fn nothing_starts_before_the_deadline(
    app: &mut App,
    now: u64,
    due: Option<u64>,
    start: Option<GitRefreshStart>,
)
    requires
        call_ensures(App::start_git_status_refresh_if_due, (app, now), start),
        call_ensures(App::git_refresh_deadline, (&*old(app),), due),
        due is None || now < due->0,
    ensures
        start is None,
        *final(app) == *old(app),
{
}

/// A due refresh starts with the wishes of the workspaces, for what their rows ask
/// and the branch on request, and behind them those of the panes, for what agents
/// ask; it takes along what is remembered. It is marked as running, the request is
/// served, and the time is noted where the repositories are found anew. Without
/// any wish it is over at once. Nothing else changes.
pub proof fn due_refresh_starts_with_all_wishes(
    app: &mut App,
    now: u64,
    due: Option<u64>,
    spaces: GitStatusRefreshDemand,
    agents: GitStatusRefreshDemand,
    workspaces: Vec<GitRefreshItem>,
    panes: Vec<GitRefreshItem>,
    start: Option<GitRefreshStart>,
)
    requires
        call_ensures(App::start_git_status_refresh_if_due, (app, now), start),
        call_ensures(App::git_refresh_deadline, (&*old(app),), due),
        call_ensures(App::git_refresh_demand, (&*old(app),), spaces),
        call_ensures(App::agent_git_refresh_demand, (&*old(app),), agents),
        call_ensures(
            App::workspace_git_refresh_items,
            (
                &*old(app),
                looks_anew(*old(app), now),
                GitStatusRefreshDemand {
                    branch: spaces.branch || old(app).git_identity_refresh_requested,
                    ahead_behind: spaces.ahead_behind,
                    dirty: spaces.dirty,
                },
            ),
            workspaces,
        ),
        call_ensures(App::terminal_git_refresh_items, (&*old(app), agents), panes),
        due is Some,
        now >= due->0,
    ensures
        start is Some == (workspaces@.len() + panes@.len() > 0),
        start is Some ==> start->0.items@ == workspaces@ + panes@,
        start is Some ==> start->0.cache@ == old(app).git_status_cache@,
        final(app).git_refresh_in_flight == start is Some,
        !final(app).git_identity_refresh_requested,
        final(app).last_git_repo_discovery_refresh == if start is Some && looks_anew(
            *old(app),
            now,
        ) {
            now
        } else {
            old(app).last_git_repo_discovery_refresh
        },
        final(app).last_git_remote_status_refresh == if start is Some {
            old(app).last_git_remote_status_refresh
        } else {
            now
        },
        final(app).state == old(app).state,
        final(app).git_refresh_intervals == old(app).git_refresh_intervals,
        final(app).git_status_cache == old(app).git_status_cache,
        final(app).git_refresh_due_after_in_flight == old(app).git_refresh_due_after_in_flight,
{
    assert(looks_anew(*old(app), now) == app::discovers(*old(app), now));
}

/// A refresh can be started at any time, wherever its deadline lies on the clock.
pub proof fn refresh_can_be_started_at_any_time(app: &mut App, now: u64)
    requires
        old(app).last_git_remote_status_refresh + old(app).git_refresh_intervals.remote_status
            <= u64::MAX,
    ensures
        call_requires(App::start_git_status_refresh_if_due, (app, now)),
        call_requires(App::mark_git_status_refresh_due, (app, now)),
        call_requires(App::request_git_identity_refresh, (app, now)),
        call_requires(App::finish_git_status_refresh, (app, now)),
{
}

} // verus!
