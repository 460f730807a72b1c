use herdr::git_refresh::{
    answer_targets, deduplicate_git_refresh_items, directories_to_look_up,
    refresh_git_statuses_with_cache, resolve_terminal_checkout, union_demand, GitRefreshItem,
    GitRefreshTarget, GitStatusReport,
};
use herdr::git_status::{
    GitSpaceMetadata, GitStatusCacheEntry, GitStatusRefreshDemand, TerminalGitStatus, TerminalId,
    WorkspaceGitStatusSnapshot,
};
use herdr::path::{DirPath, PathComponent, PathMap};
use std::path::{Component, Path};

/// The path that the platform reads in `text`.
fn path(text: &str) -> DirPath {
    DirPath::new(
        Path::new(text)
            .components()
            .map(|component| match component {
                Component::Prefix(prefix) => PathComponent::Prefix(
                    prefix.as_os_str().to_str().expect("text").to_string(),
                ),
                Component::RootDir => PathComponent::RootDir,
                Component::CurDir => PathComponent::CurDir,
                Component::ParentDir => PathComponent::ParentDir,
                Component::Normal(name) => PathComponent::Normal(
                    name.to_str().expect("text").to_string(),
                ),
            })
            .collect(),
    )
}

/// The path with a slash before each of its names.
fn text(path: &DirPath) -> String {
    let mut text = String::new();
    for component in path.components() {
        if let PathComponent::Normal(name) = component {
            text.push('/');
            text.push_str(&name);
        }
    }
    text
}

fn demand(branch: bool, ahead_behind: bool, dirty: bool) -> GitStatusRefreshDemand {
    GitStatusRefreshDemand {
        branch,
        ahead_behind,
        dirty,
    }
}

fn workspace_target(id: &str, cwd: &str) -> GitRefreshTarget {
    GitRefreshTarget::Workspace {
        workspace_id: id.to_string(),
        resolved_identity_cwd: path(cwd),
    }
}

fn terminal_target(number: u64, cwd: &str, shell_cwd: Option<&str>) -> GitRefreshTarget {
    GitRefreshTarget::Terminal {
        terminal_id: TerminalId { number },
        cwd: path(cwd),
        shell_cwd: shell_cwd.map(path),
    }
}

fn item(
    target: GitRefreshTarget,
    hint: Option<&str>,
    demand: GitStatusRefreshDemand,
) -> GitRefreshItem {
    GitRefreshItem {
        target,
        cache_key_hint: hint.map(path),
        demand,
    }
}

fn checkouts(keys: &[(&str, &str)]) -> PathMap<DirPath> {
    let mut map = PathMap::new();
    for (directory, key) in keys {
        map.insert(path(directory), path(key));
    }
    map
}

fn cache(entries: &[(&str, GitStatusCacheEntry)]) -> PathMap<GitStatusCacheEntry> {
    let mut map = PathMap::new();
    for (key, entry) in entries {
        map.insert(path(key), entry.clone());
    }
    map
}

fn snapshot(label: &str) -> WorkspaceGitStatusSnapshot {
    WorkspaceGitStatusSnapshot {
        auto_label: label.to_string(),
        branch: None,
        ahead_behind: None,
        dirty: None,
        space: None,
    }
}

fn entry(label: &str) -> GitStatusCacheEntry {
    GitStatusCacheEntry {
        fingerprint: None,
        retry_after: None,
        snapshot: snapshot(label),
        dirty_refreshed_at: None,
    }
}

/// Answers from the entry at hand, or with the key as the label.
fn snapshot_for(
    key: &DirPath,
    cached: Option<&GitStatusCacheEntry>,
    _demand: GitStatusRefreshDemand,
) -> GitStatusReport {
    match cached {
        Some(entry) => GitStatusReport {
            snapshot: entry.snapshot.clone(),
            cache_entry: Some(entry.clone()),
        },
        None => GitStatusReport {
            snapshot: snapshot(&text(key)),
            cache_entry: Some(entry(&text(key))),
        },
    }
}

#[test]
fn git_refresh_deduplicates_workspaces_with_same_cache_key() {
    let output = refresh_git_statuses_with_cache(
        vec![
            item(
                workspace_target("one", "/repo/nested"),
                None,
                GitStatusRefreshDemand::all(),
            ),
            item(
                workspace_target("two", "/repo/other"),
                None,
                GitStatusRefreshDemand::all(),
            ),
        ],
        &checkouts(&[("/repo/nested", "/repo"), ("/repo/other", "/repo")]),
        &PathMap::new(),
        snapshot_for,
    );

    assert_eq!(output.cache_updates.len(), 1);
    assert_eq!(output.cache_updates[0].0, path("/repo"));
    assert_eq!(output.results.len(), 2);
    assert_eq!(output.results[0].workspace_id, "one");
    assert_eq!(output.results[0].resolved_identity_cwd, path("/repo/nested"));
    assert_eq!(output.results[1].workspace_id, "two");
    assert_eq!(output.results[1].resolved_identity_cwd, path("/repo/other"));
}

#[test]
fn shared_root_repo_refresh_keeps_workspace_specific_fallback_labels() {
    let cached = GitStatusCacheEntry {
        fingerprint: None,
        retry_after: Some(30_000_000_000),
        snapshot: WorkspaceGitStatusSnapshot {
            auto_label: "/".to_string(),
            branch: Some("main".to_string()),
            ahead_behind: None,
            dirty: None,
            space: Some(GitSpaceMetadata {
                key: "/.git".to_string(),
                checkout_key: "/".to_string(),
                repo_name: "repo".to_string(),
                repo_root: path("/"),
                is_linked_worktree: false,
            }),
        },
        dirty_refreshed_at: None,
    };
    let items = vec![
        item(
            workspace_target("alpha", "/alpha"),
            Some("/"),
            GitStatusRefreshDemand::all(),
        ),
        item(
            workspace_target("beta", "/beta"),
            Some("/"),
            GitStatusRefreshDemand::all(),
        ),
    ];

    let output = refresh_git_statuses_with_cache(
        items,
        &PathMap::new(),
        &cache(&[("/", cached)]),
        snapshot_for,
    );

    assert_eq!(output.cache_updates.len(), 1);
    assert_eq!(output.results.len(), 2);
    assert_eq!(output.results[0].auto_label, "alpha");
    assert_eq!(output.results[1].auto_label, "beta");
    assert_eq!(output.results[0].branch.as_deref(), Some("main"));
    assert_eq!(output.results[1].branch.as_deref(), Some("main"));
}

#[test]
fn deduplicate_unions_demand_for_targets_sharing_a_checkout() {
    let workspace_demand = demand(true, false, false);
    let terminal_demand = demand(false, true, true);
    let items = vec![
        item(
            workspace_target("one", "/repo"),
            Some("/repo"),
            workspace_demand,
        ),
        item(
            terminal_target(1, "/repo/nested", None),
            Some("/repo"),
            terminal_demand,
        ),
    ];

    let jobs = deduplicate_git_refresh_items(items, &PathMap::new(), &PathMap::new());

    assert_eq!(jobs.len(), 1);
    assert_eq!(jobs[0].cache_key, path("/repo"));
    assert_eq!(jobs[0].demand, GitStatusRefreshDemand::all());
    assert_eq!(jobs[0].targets.len(), 2);
    assert_eq!(jobs[0].targets[0].1, workspace_demand);
    assert_eq!(jobs[0].targets[1].1, terminal_demand);
}

#[test]
fn refresh_emits_terminal_results_for_terminal_targets() {
    let wanted = demand(false, true, true);

    let output = refresh_git_statuses_with_cache(
        vec![item(terminal_target(7, "/repo", None), None, wanted)],
        &checkouts(&[("/repo", "/repo")]),
        &PathMap::new(),
        snapshot_for,
    );

    assert!(output.results.is_empty());
    assert_eq!(output.terminal_results.len(), 1);
    assert_eq!(
        output.terminal_results[0].terminal_id,
        TerminalId { number: 7 }
    );
    assert_eq!(output.terminal_results[0].cwd, path("/repo"));
    assert_eq!(output.terminal_results[0].demand, wanted);
}

#[test]
fn terminal_target_falls_back_to_shell_cwd_outside_a_checkout() {
    let jobs = deduplicate_git_refresh_items(
        vec![item(
            terminal_target(7, "/base/helper", Some("/base/repo")),
            None,
            GitStatusRefreshDemand::all(),
        )],
        &checkouts(&[("/base/repo", "/real/repo")]),
        &PathMap::new(),
    );

    assert_eq!(jobs.len(), 1);
    assert_eq!(jobs[0].cache_key, path("/real/repo"));
    assert_eq!(jobs[0].targets[0].0, terminal_target(7, "/base/repo", None));
}

#[test]
fn deduplicate_keeps_the_cache_for_a_terminal_target() {
    let cached = entry("cache");

    let jobs = deduplicate_git_refresh_items(
        vec![item(
            terminal_target(7, "/cwd", None),
            None,
            GitStatusRefreshDemand::all(),
        )],
        &PathMap::new(),
        &cache(&[("/cwd", cached.clone())]),
    );

    assert_eq!(jobs.len(), 1);
    assert_eq!(jobs[0].cached.as_ref(), Some(&cached));
}

#[test]
fn terminal_stays_at_its_own_checkout() {
    let both = checkouts(&[("/a", "/a"), ("/b", "/b")]);

    assert_eq!(
        resolve_terminal_checkout(terminal_target(1, "/a", Some("/b")), &both),
        terminal_target(1, "/a", None)
    );
    assert_eq!(
        resolve_terminal_checkout(terminal_target(1, "/x", Some("/y")), &both),
        terminal_target(1, "/x", None)
    );
    assert_eq!(
        resolve_terminal_checkout(terminal_target(1, "/x", None), &both),
        terminal_target(1, "/x", None)
    );
    assert_eq!(
        resolve_terminal_checkout(workspace_target("one", "/x"), &both),
        workspace_target("one", "/x")
    );
}

#[test]
fn target_cwd_is_the_directory_it_reports_on() {
    assert_eq!(workspace_target("one", "/a").cwd(), &path("/a"));
    assert_eq!(terminal_target(1, "/b", Some("/c")).cwd(), &path("/b"));
}

#[test]
fn demands_are_joined_fact_by_fact() {
    let none = GitStatusRefreshDemand::default();

    assert!(none.is_empty());
    assert_eq!(
        union_demand(demand(true, false, false), demand(false, false, true)),
        demand(true, false, true)
    );
    assert_eq!(
        union_demand(demand(false, true, false), none),
        demand(false, true, false)
    );
    assert_eq!(union_demand(none, none), none);
}

#[test]
fn jobs_come_in_the_order_of_their_first_item() {
    let wanted = demand(true, false, false);
    let jobs = deduplicate_git_refresh_items(
        vec![
            item(workspace_target("a", "/x"), Some("/x"), wanted),
            item(workspace_target("b", "/y"), Some("/y"), wanted),
            item(workspace_target("c", "/x/deep"), Some("/x"), wanted),
        ],
        &PathMap::new(),
        &cache(&[("/x", entry("x"))]),
    );

    assert_eq!(jobs.len(), 2);
    assert_eq!(jobs[0].cache_key, path("/x"));
    assert_eq!(
        jobs[0].targets,
        vec![
            (workspace_target("a", "/x"), wanted),
            (workspace_target("c", "/x/deep"), wanted),
        ]
    );
    assert_eq!(jobs[0].cached, Some(entry("x")));
    assert_eq!(jobs[1].cache_key, path("/y"));
    assert_eq!(jobs[1].cached, None);
}

#[test]
fn distrust_of_one_workspace_drops_the_entry_for_all() {
    let wanted = demand(true, false, false);
    let known = cache(&[("/repo", entry("old"))]);
    let located = checkouts(&[("/repo/b", "/repo")]);

    let jobs = deduplicate_git_refresh_items(
        vec![
            item(workspace_target("a", "/repo/a"), Some("/repo"), wanted),
            item(workspace_target("b", "/repo/b"), None, wanted),
            item(workspace_target("c", "/repo/c"), Some("/repo"), wanted),
        ],
        &located,
        &known,
    );

    assert_eq!(jobs.len(), 1);
    assert_eq!(jobs[0].targets.len(), 3);
    assert_eq!(jobs[0].cached, None);
}

#[test]
fn every_item_is_answered_and_every_checkout_is_asked_once() {
    let counts = demand(false, true, true);
    let branch = demand(true, false, false);
    let items = vec![
        item(workspace_target("a", "/repo/a"), Some("/repo"), branch),
        item(terminal_target(1, "/repo/b", None), None, counts),
        item(terminal_target(2, "/helper", Some("/other")), None, counts),
        item(workspace_target("d", "/plain"), None, branch),
    ];
    let located = checkouts(&[("/repo/b", "/repo"), ("/other", "/other")]);

    let output = refresh_git_statuses_with_cache(
        items,
        &located,
        &PathMap::new(),
        |key, cached, wanted| {
            let key = text(key);
            assert_eq!(cached, None);
            assert_eq!(
                wanted,
                match key.as_str() {
                    "/repo" => GitStatusRefreshDemand::all(),
                    "/other" => counts,
                    _ => branch,
                }
            );
            GitStatusReport {
                snapshot: WorkspaceGitStatusSnapshot {
                    ahead_behind: Some((1, key.len())),
                    dirty: Some(4),
                    ..snapshot("label")
                },
                cache_entry: if key == "/plain" {
                    None
                } else {
                    Some(entry(&key))
                },
            }
        },
    );

    assert_eq!(output.results.len(), 2);
    assert_eq!(output.results[0].workspace_id, "a");
    assert_eq!(output.results[0].git_status_key, path("/repo"));
    assert_eq!(output.results[0].demand, branch);
    assert_eq!(output.results[0].ahead_behind, Some((1, 5)));
    assert_eq!(output.results[1].workspace_id, "d");
    assert_eq!(output.results[1].git_status_key, path("/plain"));
    assert_eq!(
        output.terminal_results,
        vec![
            TerminalGitStatus {
                terminal_id: TerminalId { number: 1 },
                cwd: path("/repo/b"),
                demand: counts,
                ahead_behind: Some((1, 5)),
                dirty: Some(4),
            },
            TerminalGitStatus {
                terminal_id: TerminalId { number: 2 },
                cwd: path("/other"),
                demand: counts,
                ahead_behind: Some((1, 6)),
                dirty: Some(4),
            },
        ]
    );
    assert_eq!(
        output.cache_updates,
        vec![
            (path("/repo"), entry("/repo")),
            (path("/other"), entry("/other")),
        ]
    );
}

#[test]
fn nothing_is_answered_without_a_job() {
    let output = answer_targets(Vec::new());

    assert!(output.results.is_empty());
    assert!(output.terminal_results.is_empty());
    assert!(output.cache_updates.is_empty());
}

#[test]
fn only_directories_without_a_hint_are_looked_up() {
    let wanted = demand(true, false, false);
    let items = vec![
        item(workspace_target("a", "/a"), Some("/repo"), wanted),
        item(workspace_target("b", "/b"), None, wanted),
        item(terminal_target(1, "/c", None), None, wanted),
        item(terminal_target(2, "/d", Some("/e")), None, wanted),
        item(terminal_target(3, "/f", Some("/g")), Some("/repo"), wanted),
        item(terminal_target(4, "/h", None), Some("/repo"), wanted),
    ];

    assert_eq!(
        directories_to_look_up(&items),
        vec![
            path("/b"),
            path("/c"),
            path("/d"),
            path("/e"),
            path("/f"),
            path("/g"),
        ]
    );
}

#[test]
fn other_directories_do_not_change_the_jobs() {
    let wanted = demand(true, false, false);
    let items = || {
        vec![
            item(workspace_target("a", "/a"), Some("/repo"), wanted),
            item(workspace_target("b", "/b"), None, wanted),
        ]
    };

    assert_eq!(
        deduplicate_git_refresh_items(items(), &checkouts(&[("/b", "/repo")]), &PathMap::new()),
        deduplicate_git_refresh_items(
            items(),
            &checkouts(&[("/a", "/elsewhere"), ("/b", "/repo")]),
            &PathMap::new()
        )
    );
}

#[test]
fn checkout_with_a_name_keeps_its_label() {
    let space = |root: &str| GitSpaceMetadata {
        key: "key".to_string(),
        checkout_key: "checkout".to_string(),
        repo_name: "repo".to_string(),
        repo_root: path(root),
        is_linked_worktree: true,
    };
    let label = |space: Option<GitSpaceMetadata>, cwd: &str| {
        WorkspaceGitStatusSnapshot {
            space,
            ..snapshot("label")
        }
        .into_workspace_status(
            "id".to_string(),
            path(cwd),
            path("/key"),
            GitStatusRefreshDemand::all(),
        )
        .auto_label
    };

    assert_eq!(label(Some(space("/home/repo")), "/home/repo/deep"), "label");
    assert_eq!(label(None, "/home/repo"), "label");
    assert_eq!(label(Some(space("/")), "/home/deep"), "deep");
    assert_eq!(label(Some(space("/")), "/"), "label");
}

#[test]
fn directory_names_are_last_components() {
    assert_eq!(path("/a/b").name().as_deref(), Some("b"));
    assert_eq!(path("b").name().as_deref(), Some("b"));
    assert_eq!(path("/a/größe").name().as_deref(), Some("größe"));
    assert_eq!(path("/a/b/").name().as_deref(), Some("b"));
    assert_eq!(path("/").name(), None);
    assert_eq!(path("").name(), None);
    assert_eq!(path("/a/..").name(), None);
    assert_eq!(path(".").name(), None);
    assert_eq!(path("/a/...").name().as_deref(), Some("..."));
}

#[test]
fn paths_hold_their_components() {
    let components = || {
        vec![
            PathComponent::Prefix("C:".to_string()),
            PathComponent::RootDir,
            PathComponent::CurDir,
            PathComponent::ParentDir,
            PathComponent::Normal("repo".to_string()),
        ]
    };
    let whole = DirPath::new(components());

    assert_eq!(whole.components(), components());
    assert_eq!(whole.clone(), whole);
    assert!(whole.same(&DirPath::new(components())));
    assert_eq!(whole.name().as_deref(), Some("repo"));
    for changed in 0..components().len() {
        let mut other = components();
        other[changed] = PathComponent::Normal("C:".to_string());
        assert!(!whole.same(&DirPath::new(other)), "component {changed}");
        let mut shorter = components();
        shorter.remove(changed);
        assert!(!whole.same(&DirPath::new(shorter)), "component {changed}");
    }
    assert_eq!(DirPath::new(Vec::new()).components(), Vec::new());
    assert_eq!(
        DirPath::new(vec![PathComponent::Prefix("C:".to_string())]).name(),
        None
    );
}

#[test]
fn same_paths_are_those_with_the_same_components() {
    let texts = [
        "/repo", "/repo/", "//repo", "/./repo", "repo", "./repo", "repo/.", "/", "//", "", ".",
        "./", "..", "/repo/..", "/a/b", "/a//b/", "a/./b", "a/b",
    ];

    for left in texts {
        for right in texts {
            let expected = std::path::PathBuf::from(left) == std::path::PathBuf::from(right);
            assert_eq!(path(left).same(&path(right)), expected, "{left} {right}");
            assert_eq!(path(left) == path(right), expected, "{left} {right}");
        }
        let name = std::path::PathBuf::from(left)
            .file_name()
            .and_then(|name| name.to_str().map(|name| name.to_string()));
        assert_eq!(path(left).name(), name, "{left}");
    }
}

#[test]
fn spellings_of_one_path_share_a_job() {
    let wanted = demand(true, false, false);
    let jobs = deduplicate_git_refresh_items(
        vec![
            item(workspace_target("a", "/repo/a"), Some("/repo/"), wanted),
            item(workspace_target("b", "/repo/b"), Some("//repo"), wanted),
        ],
        &PathMap::new(),
        &cache(&[("/repo/.", entry("known"))]),
    );

    assert_eq!(jobs.len(), 1);
    assert_eq!(jobs[0].targets.len(), 2);
    assert_eq!(jobs[0].cached, Some(entry("known")));
}

#[test]
fn map_holds_the_last_value_of_a_key() {
    let mut map: PathMap<u8> = PathMap::new();
    assert_eq!(map.len(), 0);
    map.insert(path("/a"), 1);
    map.insert(path("/b"), 2);
    map.insert(path("/a"), 3);

    assert_eq!(map.len(), 2);
    assert_eq!(map.get(&path("/a")), Some(&3));
    assert_eq!(map.get(&path("/b")), Some(&2));
    assert_eq!(map.get(&path("/c")), None);

    let copy = map.clone();
    map.retain(|value| *value > 2);
    assert_eq!(map.len(), 1);
    assert_eq!(map.get(&path("/a")), Some(&3));
    assert_eq!(map.get(&path("/b")), None);
    assert_eq!(copy.len(), 2);
    assert_eq!(copy.get(&path("/b")), Some(&2));
}
