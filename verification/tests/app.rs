use herdr::app::{App, GitRefreshIntervals};
use herdr::app_state::{
    AgentRows, AgentSidebarToken, AppState, Pane, SpaceSidebarToken, Tab, TerminalState, Workspace,
    WorktreeSpaceMembership,
};
use herdr::git_refresh::{deduplicate_git_refresh_items, GitRefreshItem, GitRefreshTarget};
use herdr::git_status::{
    GitStatusCacheEntry, GitStatusRefreshDemand, TerminalId, WorkspaceGitStatusSnapshot,
};
use herdr::path::{DirPath, PathComponent, PathMap};
use std::collections::HashMap;
use std::path::{Component, Path};

const REMOTE_STATUS: u64 = 5_000_000_000;
const REPO_DISCOVERY: u64 = 30_000_000_000;
const NOW: u64 = 1_000_000_000_000;

/// The path that the platform reads in `text`.
fn path(text: &str) -> DirPath {
    DirPath::new(
        Path::new(text)
            .components()
            .map(|component| match component {
                Component::Prefix(prefix) => PathComponent::Prefix(
                    prefix.as_os_str().to_str().expect("text").to_string(),
                ),
                Component::RootDir => PathComponent::RootDir,
                Component::CurDir => PathComponent::CurDir,
                Component::ParentDir => PathComponent::ParentDir,
                Component::Normal(name) => PathComponent::Normal(
                    name.to_str().expect("text").to_string(),
                ),
            })
            .collect(),
    )
}

/// Every row as it is set up without a configuration.
fn default_app() -> App {
    App {
        state: AppState {
            workspaces: Vec::new(),
            terminals: HashMap::new(),
            sidebar_spaces: vec![
                vec![SpaceSidebarToken::Other, SpaceSidebarToken::Workspace],
                vec![SpaceSidebarToken::Branch, SpaceSidebarToken::GitStatus],
            ],
            sidebar_agents: AgentRows {
                git_status_enabled: false,
                rows: vec![
                    vec![AgentSidebarToken::Other, AgentSidebarToken::Agent],
                    vec![AgentSidebarToken::GitStatus],
                ],
                rows_by_agent: Vec::new(),
            },
        },
        git_refresh_intervals: GitRefreshIntervals {
            remote_status: REMOTE_STATUS,
            repo_discovery: REPO_DISCOVERY,
        },
        git_status_cache: PathMap::new(),
        git_refresh_in_flight: false,
        git_refresh_due_after_in_flight: false,
        git_identity_refresh_requested: false,
        last_git_remote_status_refresh: NOW,
        last_git_repo_discovery_refresh: NOW,
    }
}

fn app_without_git_tokens() -> App {
    let mut app = default_app();
    app.state.sidebar_spaces = vec![vec![SpaceSidebarToken::Workspace]];
    app
}

fn agent_git_status_app() -> App {
    let mut app = default_app();
    app.state.sidebar_agents.git_status_enabled = true;
    app
}

/// A workspace with one pane, whose terminal has the number of the workspace.
fn push_workspace(app: &mut App, name: &str, cwd: &str) -> TerminalId {
    let terminal_id = TerminalId {
        number: app.state.workspaces.len() as u64 + 1,
    };
    let mut panes = HashMap::new();
    panes.insert(
        10,
        Pane {
            attached_terminal_id: terminal_id,
            shell_cwd: Some(path(cwd)),
        },
    );
    app.state.workspaces.push(Workspace {
        id: name.to_string(),
        custom_name: Some(name.to_string()),
        worktree_space: None,
        resolved_identity_cwd: Some(path(cwd)),
        cached_identity_cwd: path("/elsewhere"),
        cached_git_status_key: path("/elsewhere"),
        tabs: vec![Tab {
            pane_ids: vec![10],
            panes,
        }],
    });
    terminal_id
}

fn run_agent(app: &mut App, id: TerminalId, agent: Option<&str>) {
    app.state.terminals.insert(
        id.number,
        TerminalState {
            id,
            agent: agent.map(|agent| agent.to_string()),
            agent_cwd: None,
        },
    );
}

fn stale_entry(fingerprint: Option<&str>) -> GitStatusCacheEntry {
    GitStatusCacheEntry {
        fingerprint: fingerprint.map(|fingerprint| fingerprint.to_string()),
        retry_after: None,
        snapshot: WorkspaceGitStatusSnapshot {
            auto_label: "stale".to_string(),
            branch: None,
            ahead_behind: None,
            dirty: None,
            space: None,
        },
        dirty_refreshed_at: None,
    }
}

fn counts() -> GitStatusRefreshDemand {
    GitStatusRefreshDemand {
        branch: false,
        ahead_behind: true,
        dirty: true,
    }
}

#[test]
fn git_refresh_item_collection_does_not_discover_uncached_cwd() {
    let mut app = default_app();
    push_workspace(&mut app, "test", "/uncached");
    app.state.workspaces[0].tabs.clear();

    let items = app.workspace_git_refresh_items(false, GitStatusRefreshDemand::all());

    assert_eq!(items.len(), 1);
    assert_eq!(items[0].target.cwd(), &path("/uncached"));
    assert_eq!(items[0].cache_key_hint, None);
}

#[test]
fn git_refresh_item_collection_reuses_matching_cached_key() {
    let mut app = default_app();
    push_workspace(&mut app, "test", "/repo/deep/nested");
    app.state.workspaces[0].cached_identity_cwd = path("/repo/deep/nested");
    app.state.workspaces[0].cached_git_status_key = path("/repo");
    app.state.workspaces[0].tabs.clear();

    let items = app.workspace_git_refresh_items(false, GitStatusRefreshDemand::all());

    assert_eq!(items.len(), 1);
    assert_eq!(items[0].cache_key_hint, Some(path("/repo")));
}

#[test]
fn periodic_repo_discovery_ignores_cached_key_hints() {
    let mut app = default_app();
    push_workspace(&mut app, "test", "/repo/deep/nested");
    app.state.workspaces[0].cached_identity_cwd = path("/repo/deep/nested");
    app.state.workspaces[0].cached_git_status_key = path("/repo");
    app.state.workspaces[0].tabs.clear();

    let items = app.workspace_git_refresh_items(true, GitStatusRefreshDemand::all());

    assert_eq!(items.len(), 1);
    assert_eq!(items[0].cache_key_hint, None);
    let cache_key = items[0].target.cwd().clone();
    let mut cache = PathMap::new();
    cache.insert(cache_key, stale_entry(None));
    let jobs = deduplicate_git_refresh_items(items, &PathMap::new(), &cache);
    assert_eq!(jobs.len(), 1);
    assert_eq!(jobs[0].cached, None);
}

#[test]
fn cwd_identity_refresh_runs_once_without_sidebar_git_tokens() {
    let mut app = app_without_git_tokens();
    push_workspace(&mut app, "test", "/repo");

    app.request_git_identity_refresh(NOW);

    assert!(app.git_refresh_deadline().is_some());
    let start = app.start_git_status_refresh_if_due(NOW);
    assert!(start.is_some());
    assert!(app.git_refresh_in_flight);
    assert!(!app.git_identity_refresh_requested);
}

#[test]
fn due_git_refresh_does_not_start_without_sidebar_consumer() {
    let mut app = app_without_git_tokens();
    push_workspace(&mut app, "test", "/repo");
    app.last_git_remote_status_refresh = NOW - REMOTE_STATUS;

    let start = app.start_git_status_refresh_if_due(NOW);

    assert!(!app.git_refresh_in_flight);
    assert!(start.is_none());
}

#[test]
fn git_refresh_demand_matches_sidebar_rows() {
    let cases = [
        (
            SpaceSidebarToken::Workspace,
            GitStatusRefreshDemand::default(),
        ),
        (
            SpaceSidebarToken::Branch,
            GitStatusRefreshDemand {
                branch: true,
                ahead_behind: false,
                dirty: false,
            },
        ),
        (
            SpaceSidebarToken::GitStatus,
            GitStatusRefreshDemand {
                branch: false,
                ahead_behind: true,
                dirty: false,
            },
        ),
    ];

    for (token, expected) in cases {
        let mut app = default_app();
        app.state.sidebar_spaces = vec![vec![token]];
        push_workspace(&mut app, "test", "/repo");

        assert_eq!(app.git_refresh_demand(), expected, "token: {token:?}");
        assert_eq!(
            app.git_refresh_deadline().is_some(),
            !expected.is_empty(),
            "token: {token:?}"
        );
    }
}

fn linked_worktree() -> WorktreeSpaceMembership {
    WorktreeSpaceMembership {
        key: "repo".to_string(),
        label: "repo".to_string(),
        repo_root: path("/repo"),
        checkout_path: path("/repo-worktree"),
        is_linked_worktree: true,
    }
}

#[test]
fn unnamed_linked_worktree_does_not_force_periodic_branch_refresh() {
    let mut app = app_without_git_tokens();
    push_workspace(&mut app, "test", "/repo-worktree");
    let child = &mut app.state.workspaces[0];
    child.custom_name = None;
    child.worktree_space = Some(linked_worktree());

    assert_eq!(app.git_refresh_deadline(), None);
}

#[test]
fn custom_named_linked_worktree_does_not_require_branch_refresh() {
    let mut app = app_without_git_tokens();
    push_workspace(&mut app, "custom", "/repo-worktree");
    app.state.workspaces[0].worktree_space = Some(linked_worktree());

    assert_eq!(app.git_refresh_deadline(), None);
}

#[test]
fn headless_deadline_can_suppress_git_refresh_timer() {
    let mut app = default_app();
    push_workspace(&mut app, "test", "/repo");
    app.last_git_remote_status_refresh = NOW - REMOTE_STATUS;

    assert_eq!(app.git_refresh_deadline(), Some(NOW));
}

#[test]
fn git_refresh_due_request_survives_in_flight_refresh() {
    let mut app = default_app();
    app.git_refresh_in_flight = true;

    app.mark_git_status_refresh_due(NOW);
    assert!(app.git_refresh_due_after_in_flight);

    app.finish_git_status_refresh(NOW + 1);

    assert!(!app.git_refresh_in_flight);
    assert!(!app.git_refresh_due_after_in_flight);
    assert_eq!(app.git_refresh_deadline(), None);

    push_workspace(&mut app, "test", "/repo");
    let deadline = app
        .git_refresh_deadline()
        .expect("refresh should be due once a workspace exists");
    assert!(deadline <= NOW + 1);
}

#[test]
fn refresh_that_nobody_asked_for_again_waits_one_interval() {
    let mut app = default_app();
    push_workspace(&mut app, "test", "/repo");
    app.git_status_cache.insert(path("/miss"), stale_entry(None));
    app.git_refresh_in_flight = true;

    app.finish_git_status_refresh(NOW + 9);

    assert!(!app.git_refresh_in_flight);
    assert_eq!(app.git_refresh_deadline(), Some(NOW + 9 + REMOTE_STATUS));
    assert_eq!(app.git_status_cache.len(), 1);
}

#[test]
fn identity_request_during_a_refresh_is_served_by_the_next() {
    let mut app = app_without_git_tokens();
    push_workspace(&mut app, "test", "/repo");
    app.git_refresh_in_flight = true;
    app.request_git_identity_refresh(NOW);
    assert!(app.start_git_status_refresh_if_due(NOW).is_none());

    app.finish_git_status_refresh(NOW + 5);

    let start = app
        .start_git_status_refresh_if_due(NOW + 5)
        .expect("refresh starts");
    assert!(start.items[0].demand.branch);
    assert_eq!(start.items[0].cache_key_hint, None);
}

#[test]
fn explicit_git_refresh_invalidates_cached_non_git_results() {
    let mut app = default_app();
    app.git_status_cache.insert(path("/miss"), stale_entry(None));

    app.mark_git_status_refresh_due(NOW);

    assert_eq!(app.git_status_cache.len(), 0);
}

#[test]
fn terminal_git_refresh_items_cover_agent_panes_at_their_cwd() {
    let mut app = agent_git_status_app();
    let agent_id = push_workspace(&mut app, "agent", "/repo/agent-worktree");
    let shell_id = push_workspace(&mut app, "shell", "/repo");
    run_agent(&mut app, agent_id, Some("gemini"));
    run_agent(&mut app, shell_id, None);
    let demand = counts();

    let items = app.terminal_git_refresh_items(demand);

    assert_eq!(
        items,
        vec![GitRefreshItem {
            target: GitRefreshTarget::Terminal {
                terminal_id: agent_id,
                cwd: path("/repo/agent-worktree"),
                shell_cwd: None,
            },
            cache_key_hint: None,
            demand,
        }]
    );
    assert!(app
        .terminal_git_refresh_items(GitStatusRefreshDemand::default())
        .is_empty());
}

#[test]
fn terminal_git_refresh_items_prefer_the_recorded_agent_cwd() {
    let mut app = agent_git_status_app();
    let agent_id = push_workspace(&mut app, "agent", "/repo");
    run_agent(&mut app, agent_id, Some("gemini"));
    app.state
        .terminals
        .get_mut(&agent_id.number)
        .expect("agent terminal")
        .agent_cwd = Some(path("/repo-worktrees/feature"));

    let items = app.terminal_git_refresh_items(counts());

    assert_eq!(
        items[0].target,
        GitRefreshTarget::Terminal {
            terminal_id: agent_id,
            cwd: path("/repo-worktrees/feature"),
            shell_cwd: Some(path("/repo")),
        }
    );
}

#[test]
fn agent_git_status_demand_needs_an_agent_terminal() {
    let mut app = app_without_git_tokens();
    app.state.sidebar_agents.rows = vec![vec![AgentSidebarToken::GitStatus]];
    app.state.sidebar_agents.git_status_enabled = true;
    let id = push_workspace(&mut app, "test", "/repo");

    assert!(app.agent_git_refresh_demand().is_empty());
    assert_eq!(app.git_refresh_deadline(), None);

    run_agent(&mut app, id, Some("gemini"));

    assert_eq!(
        app.agent_git_refresh_demand(),
        GitStatusRefreshDemand {
            branch: false,
            ahead_behind: true,
            dirty: true,
        }
    );
    assert!(app.git_refresh_deadline().is_some());
}

#[test]
fn agent_git_status_demand_follows_the_rows_of_the_open_panes() {
    let mut app = app_without_git_tokens();
    app.state.sidebar_agents.rows = vec![vec![AgentSidebarToken::Agent]];
    app.state.sidebar_agents.rows_by_agent.push((
        "gemini".to_string(),
        vec![vec![AgentSidebarToken::GitStatus]],
    ));
    app.state.sidebar_agents.git_status_enabled = true;
    let id = push_workspace(&mut app, "test", "/repo");
    run_agent(&mut app, id, Some("codex"));

    assert!(app.agent_git_refresh_demand().is_empty());
    assert_eq!(app.git_refresh_deadline(), None);

    run_agent(&mut app, id, Some("gemini"));

    assert!(app.agent_git_refresh_demand().ahead_behind);
    assert!(app.agent_git_refresh_demand().dirty);
    assert!(app.git_refresh_deadline().is_some());
}

#[test]
fn agent_git_status_demand_is_off_until_enabled() {
    let mut app = default_app();
    let id = push_workspace(&mut app, "test", "/repo");
    run_agent(&mut app, id, Some("gemini"));

    assert!(app.agent_git_refresh_demand().is_empty());
    assert!(app
        .terminal_git_refresh_items(app.agent_git_refresh_demand())
        .is_empty());
}

#[test]
fn terminal_git_refresh_items_follow_the_rows_each_agent_resolves() {
    let mut app = default_app();
    app.state.sidebar_agents.rows = vec![vec![AgentSidebarToken::Agent]];
    app.state.sidebar_agents.rows_by_agent.push((
        "gemini".to_string(),
        vec![vec![AgentSidebarToken::GitStatus]],
    ));
    app.state.sidebar_agents.git_status_enabled = true;
    let gemini_id = push_workspace(&mut app, "gemini", "/repo/gemini");
    let codex_id = push_workspace(&mut app, "codex", "/repo/codex");
    run_agent(&mut app, gemini_id, Some("gemini"));
    run_agent(&mut app, codex_id, Some("codex"));

    let items = app.terminal_git_refresh_items(app.agent_git_refresh_demand());

    assert_eq!(items.len(), 1);
    assert_eq!(items[0].target.cwd(), &path("/repo/gemini"));
}

#[test]
fn refresh_is_due_one_interval_after_the_last() {
    let mut app = default_app();
    push_workspace(&mut app, "test", "/repo");

    assert_eq!(app.git_refresh_deadline(), Some(NOW + REMOTE_STATUS));
    assert!(app
        .start_git_status_refresh_if_due(NOW + REMOTE_STATUS - 1)
        .is_none());
    assert!(!app.git_refresh_in_flight);
    assert!(app
        .start_git_status_refresh_if_due(NOW + REMOTE_STATUS)
        .is_some());
    assert!(app.git_refresh_in_flight);
}

#[test]
fn asking_for_a_refresh_makes_it_due_at_once() {
    let mut app = default_app();
    push_workspace(&mut app, "test", "/repo");
    app.git_refresh_due_after_in_flight = true;

    app.mark_git_status_refresh_due(NOW);

    assert_eq!(app.git_refresh_deadline(), Some(NOW));
    assert!(!app.git_refresh_due_after_in_flight);
    assert!(app.start_git_status_refresh_if_due(NOW).is_some());
}

#[test]
fn asking_within_the_first_interval_of_the_clock_waits_one_interval() {
    let mut app = default_app();
    push_workspace(&mut app, "test", "/repo");

    app.mark_git_status_refresh_due(REMOTE_STATUS - 1);

    assert_eq!(app.git_refresh_deadline(), Some(2 * REMOTE_STATUS - 1));
}

#[test]
fn deadline_is_the_same_for_any_workspace() {
    let mut app = default_app();
    push_workspace(&mut app, "test", "/repo");
    let due = app.git_refresh_deadline();
    push_workspace(&mut app, "other", "/elsewhere");
    app.state.workspaces[0].worktree_space = Some(linked_worktree());

    assert_eq!(app.git_refresh_deadline(), due);
}

#[test]
fn request_during_a_refresh_is_noted_for_afterwards() {
    let mut app = default_app();
    push_workspace(&mut app, "test", "/repo");
    app.git_refresh_in_flight = true;
    let last = app.last_git_remote_status_refresh;

    app.mark_git_status_refresh_due(NOW + 7);

    assert!(app.git_refresh_in_flight);
    assert!(app.git_refresh_due_after_in_flight);
    assert_eq!(app.last_git_remote_status_refresh, last);
    assert_eq!(app.git_refresh_deadline(), None);
}

#[test]
fn asking_for_a_refresh_keeps_what_is_known_of_repositories() {
    let mut app = default_app();
    app.git_status_cache
        .insert(path("/repo"), stale_entry(Some("head")));
    app.git_status_cache.insert(path("/miss"), stale_entry(None));

    app.mark_git_status_refresh_due(NOW);
    app.mark_git_status_refresh_due(NOW);

    assert_eq!(app.git_status_cache.len(), 1);
    assert_eq!(
        app.git_status_cache.get(&path("/repo")),
        Some(&stale_entry(Some("head")))
    );
}

#[test]
fn running_refresh_keeps_another_from_starting() {
    let mut app = default_app();
    push_workspace(&mut app, "test", "/repo");
    app.mark_git_status_refresh_due(NOW);

    assert!(app.start_git_status_refresh_if_due(NOW).is_some());
    assert_eq!(app.git_refresh_deadline(), None);
    assert!(app
        .start_git_status_refresh_if_due(NOW + 100 * REMOTE_STATUS)
        .is_none());
}

#[test]
fn nothing_is_refreshed_without_a_workspace() {
    let mut app = default_app();
    app.request_git_identity_refresh(NOW);

    assert_eq!(app.git_refresh_deadline(), None);
    assert!(app.start_git_status_refresh_if_due(NOW).is_none());
    assert!(app.git_identity_refresh_requested);
}

#[test]
fn refresh_without_a_known_directory_is_over_at_once() {
    let mut app = default_app();
    push_workspace(&mut app, "test", "/repo");
    app.state.workspaces[0].resolved_identity_cwd = None;
    app.request_git_identity_refresh(NOW);

    assert!(app.start_git_status_refresh_if_due(NOW).is_none());

    assert!(!app.git_refresh_in_flight);
    assert!(!app.git_identity_refresh_requested);
    assert_eq!(app.last_git_remote_status_refresh, NOW);
    assert_eq!(app.last_git_repo_discovery_refresh, NOW);
}

#[test]
fn identity_request_asks_for_the_branch_and_finds_repositories_anew() {
    let mut app = app_without_git_tokens();
    push_workspace(&mut app, "test", "/repo");
    app.state.workspaces[0].cached_identity_cwd = path("/repo");
    let later = NOW + 1;
    app.request_git_identity_refresh(later);
    app.git_status_cache
        .insert(path("/repo"), stale_entry(Some("head")));

    let start = app
        .start_git_status_refresh_if_due(later)
        .expect("refresh starts");

    assert_eq!(
        start.items,
        vec![GitRefreshItem {
            target: GitRefreshTarget::Workspace {
                workspace_id: "test".to_string(),
                resolved_identity_cwd: path("/repo"),
            },
            cache_key_hint: None,
            demand: GitStatusRefreshDemand {
                branch: true,
                ahead_behind: false,
                dirty: false,
            },
        }]
    );
    assert_eq!(
        start.cache.get(&path("/repo")),
        Some(&stale_entry(Some("head")))
    );
    assert_eq!(app.last_git_repo_discovery_refresh, later);
}

#[test]
fn repositories_are_found_anew_after_their_interval() {
    let collect = |now: u64| {
        let mut app = default_app();
        push_workspace(&mut app, "test", "/repo");
        app.state.workspaces[0].cached_identity_cwd = path("/repo");
        app.state.workspaces[0].cached_git_status_key = path("/key");
        app.mark_git_status_refresh_due(now);
        let start = app
            .start_git_status_refresh_if_due(now)
            .expect("refresh starts");
        let hint = start.items[0].cache_key_hint.clone();
        (hint, app.last_git_repo_discovery_refresh)
    };

    assert_eq!(
        collect(NOW + REPO_DISCOVERY - 1),
        (Some(path("/key")), NOW)
    );
    assert_eq!(
        collect(NOW + REPO_DISCOVERY),
        (None, NOW + REPO_DISCOVERY)
    );
}

#[test]
fn refresh_asks_for_workspaces_before_agents() {
    let mut app = agent_git_status_app();
    let id = push_workspace(&mut app, "test", "/repo");
    run_agent(&mut app, id, Some("gemini"));
    app.mark_git_status_refresh_due(NOW);

    let start = app
        .start_git_status_refresh_if_due(NOW)
        .expect("refresh starts");

    assert_eq!(start.items.len(), 2);
    assert_eq!(
        start.items[0].demand,
        GitStatusRefreshDemand {
            branch: true,
            ahead_behind: true,
            dirty: false,
        }
    );
    assert_eq!(start.items[1].demand, counts());
    assert!(matches!(
        start.items[1].target,
        GitRefreshTarget::Terminal { .. }
    ));
}

#[test]
fn panes_without_a_terminal_or_a_directory_ask_for_nothing() {
    let mut app = agent_git_status_app();
    let id = push_workspace(&mut app, "test", "/repo");
    assert!(app.terminal_git_refresh_items(counts()).is_empty());

    run_agent(&mut app, id, Some("gemini"));
    let tab = &mut app.state.workspaces[0].tabs[0];
    tab.pane_ids = vec![99, 10];
    assert_eq!(app.terminal_git_refresh_items(counts()).len(), 1);

    let tab = &mut app.state.workspaces[0].tabs[0];
    tab.panes.get_mut(&10).expect("pane").shell_cwd = None;
    assert!(app.terminal_git_refresh_items(counts()).is_empty());
}

#[test]
fn first_rows_of_an_agent_count() {
    let mut app = agent_git_status_app();
    let rows = |token: AgentSidebarToken| ("gemini".to_string(), vec![vec![token]]);
    app.state.sidebar_agents.rows_by_agent = vec![
        rows(AgentSidebarToken::Agent),
        rows(AgentSidebarToken::GitStatus),
    ];
    let id = push_workspace(&mut app, "test", "/repo");
    run_agent(&mut app, id, Some("gemini"));

    assert!(app.agent_git_refresh_demand().is_empty());
}
