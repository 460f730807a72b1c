//! What a git refresh asks of a checkout and what it learns.

use crate::path;
use crate::path::{DirPath, PathView};
use vstd::prelude::*;

verus! {

/// Which git facts are wanted.
#[derive(Clone, Copy, Debug, PartialEq, Eq, Structural)]
pub struct GitStatusRefreshDemand {
    pub branch: bool,
    pub ahead_behind: bool,
    pub dirty: bool,
}

pub open spec fn no_demand() -> GitStatusRefreshDemand {
    GitStatusRefreshDemand { branch: false, ahead_behind: false, dirty: false }
}

impl Default for GitStatusRefreshDemand {
    fn default() -> (demand: GitStatusRefreshDemand)
        ensures
            demand == no_demand(),
    {
        GitStatusRefreshDemand { branch: false, ahead_behind: false, dirty: false }
    }
}

impl GitStatusRefreshDemand {
    /// The demand for every fact.
    pub fn all() -> (demand: GitStatusRefreshDemand)
        ensures
            demand == (GitStatusRefreshDemand { branch: true, ahead_behind: true, dirty: true }),
    {
        GitStatusRefreshDemand { branch: true, ahead_behind: true, dirty: true }
    }

    /// Whether no fact is wanted.
    pub fn is_empty(self) -> (empty: bool)
        ensures
            empty == (self == no_demand()),
    {
        !self.branch && !self.ahead_behind && !self.dirty
    }

    /// Whether every fact that `other` wants is wanted here.
    pub open spec fn covers(self, other: GitStatusRefreshDemand) -> bool {
        &&& other.branch ==> self.branch
        &&& other.ahead_behind ==> self.ahead_behind
        &&& other.dirty ==> self.dirty
    }
}

/// A terminal, by its number.
#[derive(Clone, Copy, Debug, PartialEq, Eq, Structural)]
pub struct TerminalId {
    pub number: u64,
}

/// The repository that a checkout belongs to.
#[derive(Debug, PartialEq, Eq)]
pub struct GitSpaceMetadata {
    pub key: String,
    pub checkout_key: String,
    pub repo_name: String,
    pub repo_root: DirPath,
    pub is_linked_worktree: bool,
}

impl Clone for GitSpaceMetadata {
    fn clone(&self) -> (space: GitSpaceMetadata)
        ensures
            space == *self,
    {
        GitSpaceMetadata {
            key: self.key.clone(),
            checkout_key: self.checkout_key.clone(),
            repo_name: self.repo_name.clone(),
            repo_root: self.repo_root.clone(),
            is_linked_worktree: self.is_linked_worktree,
        }
    }
}

/// The git facts of one checkout.
#[derive(Debug, PartialEq, Eq)]
pub struct WorkspaceGitStatusSnapshot {
    pub auto_label: String,
    pub branch: Option<String>,
    pub ahead_behind: Option<(usize, usize)>,
    pub dirty: Option<usize>,
    pub space: Option<GitSpaceMetadata>,
}

impl Clone for WorkspaceGitStatusSnapshot {
    fn clone(&self) -> (snapshot: WorkspaceGitStatusSnapshot)
        ensures
            snapshot == *self,
    {
        WorkspaceGitStatusSnapshot {
            auto_label: self.auto_label.clone(),
            branch: match &self.branch {
                Some(branch) => Some(branch.clone()),
                None => None,
            },
            ahead_behind: self.ahead_behind,
            dirty: self.dirty,
            space: match &self.space {
                Some(space) => Some(space.clone()),
                None => None,
            },
        }
    }
}

/// What is remembered of a checkout between two refreshes. The times are in
/// nanoseconds on the clock of the application.
#[derive(Debug, PartialEq, Eq)]
pub struct GitStatusCacheEntry {
    /// The state of the repository that the snapshot was taken of; `None` for a
    /// directory outside any repository.
    pub fingerprint: Option<String>,
    pub retry_after: Option<u64>,
    pub snapshot: WorkspaceGitStatusSnapshot,
    pub dirty_refreshed_at: Option<u64>,
}

impl Clone for GitStatusCacheEntry {
    fn clone(&self) -> (entry: GitStatusCacheEntry)
        ensures
            entry == *self,
    {
        GitStatusCacheEntry {
            fingerprint: match &self.fingerprint {
                Some(fingerprint) => Some(fingerprint.clone()),
                None => None,
            },
            retry_after: self.retry_after,
            snapshot: self.snapshot.clone(),
            dirty_refreshed_at: self.dirty_refreshed_at,
        }
    }
}

/// The git facts that one workspace receives.
#[derive(Debug, PartialEq, Eq)]
pub struct WorkspaceGitStatus {
    pub workspace_id: String,
    pub resolved_identity_cwd: DirPath,
    /// The key of the checkout in the cache.
    pub git_status_key: DirPath,
    pub demand: GitStatusRefreshDemand,
    pub auto_label: String,
    pub branch: Option<String>,
    pub ahead_behind: Option<(usize, usize)>,
    pub dirty: Option<usize>,
    pub space: Option<GitSpaceMetadata>,
}

/// The git facts that one terminal receives.
#[derive(Debug, PartialEq, Eq)]
pub struct TerminalGitStatus {
    pub terminal_id: TerminalId,
    pub cwd: DirPath,
    pub demand: GitStatusRefreshDemand,
    pub ahead_behind: Option<(usize, usize)>,
    pub dirty: Option<usize>,
}

/// Whether the checkout's root directory has no name that could label a
/// workspace.
pub open spec fn is_nameless(snapshot: WorkspaceGitStatusSnapshot) -> bool {
    snapshot.space is Some && path::dir_name(snapshot.space->0.repo_root@) is None
}

/// The label of a workspace in `cwd`: the label of its checkout, or the name of
/// its own directory where the checkout's root has no name.
pub open spec fn workspace_label(snapshot: WorkspaceGitStatusSnapshot, cwd: PathView) -> Seq<char> {
    if is_nameless(snapshot) && path::dir_name(cwd) is Some {
        path::dir_name(cwd)->0
    } else {
        snapshot.auto_label@
    }
}

/// `status` tells the facts of `snapshot` to the workspace.
pub open spec fn tells(
    status: WorkspaceGitStatus,
    snapshot: WorkspaceGitStatusSnapshot,
    workspace_id: String,
    resolved_identity_cwd: DirPath,
    git_status_key: DirPath,
    demand: GitStatusRefreshDemand,
) -> bool {
    &&& status.workspace_id == workspace_id
    &&& status.resolved_identity_cwd == resolved_identity_cwd
    &&& status.git_status_key == git_status_key
    &&& status.demand == demand
    &&& status.auto_label@ == workspace_label(snapshot, resolved_identity_cwd@)
    &&& status.branch == snapshot.branch
    &&& status.ahead_behind == snapshot.ahead_behind
    &&& status.dirty == snapshot.dirty
    &&& status.space == snapshot.space
}

impl WorkspaceGitStatusSnapshot {
    /// The facts as one workspace receives them.
    pub fn into_workspace_status(
        self,
        workspace_id: String,
        resolved_identity_cwd: DirPath,
        git_status_key: DirPath,
        demand: GitStatusRefreshDemand,
    ) -> (status: WorkspaceGitStatus)
        ensures
            tells(status, self, workspace_id, resolved_identity_cwd, git_status_key, demand),
    {
        let nameless = match &self.space {
            Some(space) => space.repo_root.name().is_none(),
            None => false,
        };
        let own_name = if nameless {
            resolved_identity_cwd.name()
        } else {
            None
        };
        let auto_label = match own_name {
            Some(name) => name,
            None => self.auto_label,
        };
        WorkspaceGitStatus {
            workspace_id,
            resolved_identity_cwd,
            git_status_key,
            demand,
            auto_label,
            branch: self.branch,
            ahead_behind: self.ahead_behind,
            dirty: self.dirty,
            space: self.space,
        }
    }
}

} // verus!
