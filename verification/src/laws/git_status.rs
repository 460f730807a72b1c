//! Laws of git facts and demands.

use crate::git_status::{
    GitSpaceMetadata, GitStatusCacheEntry, GitStatusRefreshDemand, WorkspaceGitStatus,
    WorkspaceGitStatusSnapshot,
};
use crate::path::{DirPath, PathPart};
use vstd::prelude::*;

verus! {

/// A demand is empty exactly if it asks for no fact; the default one is, and the
/// one for all facts asks for each.
pub proof fn demands_ask_for_facts(
    demand: GitStatusRefreshDemand,
    empty: bool,
    default: GitStatusRefreshDemand,
    all: GitStatusRefreshDemand,
)
    requires
        call_ensures(GitStatusRefreshDemand::is_empty, (demand,), empty),
        call_ensures(<GitStatusRefreshDemand as Default>::default, (), default),
        call_ensures(GitStatusRefreshDemand::all, (), all),
    ensures
        empty == !(demand.branch || demand.ahead_behind || demand.dirty),
        !default.branch && !default.ahead_behind && !default.dirty,
        all.branch && all.ahead_behind && all.dirty,
{
}

/// The last component of the path is a name.
pub open spec fn ends_in_a_name(path: DirPath) -> bool {
    path@.len() > 0 && path@.last() is Normal
}

/// A workspace is told the facts of its checkout as they are, under its own id,
/// directory, key and demand.
pub proof fn workspace_is_told_the_facts(
    snapshot: WorkspaceGitStatusSnapshot,
    workspace_id: String,
    cwd: DirPath,
    key: DirPath,
    demand: GitStatusRefreshDemand,
    status: WorkspaceGitStatus,
)
    requires
        call_ensures(
            WorkspaceGitStatusSnapshot::into_workspace_status,
            (snapshot, workspace_id, cwd, key, demand),
            status,
        ),
    ensures
        status.workspace_id == workspace_id,
        status.resolved_identity_cwd == cwd,
        status.git_status_key == key,
        status.demand == demand,
        status.branch == snapshot.branch,
        status.ahead_behind == snapshot.ahead_behind,
        status.dirty == snapshot.dirty,
        status.space == snapshot.space,
{
}

/// A workspace has the label of its checkout. Only where the root of the checkout
/// has no name and the workspace's own directory has one, that name is the label.
pub proof fn label_is_that_of_the_checkout_or_the_directory(
    snapshot: WorkspaceGitStatusSnapshot,
    workspace_id: String,
    cwd: DirPath,
    key: DirPath,
    demand: GitStatusRefreshDemand,
    status: WorkspaceGitStatus,
)
    requires
        call_ensures(
            WorkspaceGitStatusSnapshot::into_workspace_status,
            (snapshot, workspace_id, cwd, key, demand),
            status,
        ),
    ensures
        snapshot.space is None ==> status.auto_label@ == snapshot.auto_label@,
        snapshot.space is Some && ends_in_a_name(snapshot.space->0.repo_root)
            ==> status.auto_label@ == snapshot.auto_label@,
        !ends_in_a_name(cwd) ==> status.auto_label@ == snapshot.auto_label@,
        snapshot.space is Some && !ends_in_a_name(snapshot.space->0.repo_root) && ends_in_a_name(
            cwd,
        ) ==> PathPart::Normal(status.auto_label@) == cwd@.last(),
{
}

/// Copies of facts and of what is remembered are what they are copies of.
pub proof fn copies_of_facts_are_equal(
    space: GitSpaceMetadata,
    space_copy: GitSpaceMetadata,
    snapshot: WorkspaceGitStatusSnapshot,
    snapshot_copy: WorkspaceGitStatusSnapshot,
    entry: GitStatusCacheEntry,
    entry_copy: GitStatusCacheEntry,
)
    requires
        call_ensures(<GitSpaceMetadata as Clone>::clone, (&space,), space_copy),
        call_ensures(<WorkspaceGitStatusSnapshot as Clone>::clone, (&snapshot,), snapshot_copy),
        call_ensures(<GitStatusCacheEntry as Clone>::clone, (&entry,), entry_copy),
    ensures
        space_copy == space,
        snapshot_copy == snapshot,
        entry_copy == entry,
{
}

} // verus!
