//! One refresh of git facts: which checkouts to look at, and who is told what.

use crate::git_status;
use crate::git_status::{
    GitStatusCacheEntry, GitStatusRefreshDemand, TerminalGitStatus, TerminalId, WorkspaceGitStatus,
    WorkspaceGitStatusSnapshot,
};
use crate::path::{DirPath, PathMap, PathView};
use crate::sequences;
use vstd::prelude::*;

verus! {

/// Who receives the git facts for one checkout.
#[derive(Debug, PartialEq, Eq)]
pub enum GitRefreshTarget {
    Workspace { workspace_id: String, resolved_identity_cwd: DirPath },
    Terminal {
        terminal_id: TerminalId,
        cwd: DirPath,
        /// The pane shell's cwd, tried when `cwd` is outside any checkout. The
        /// foreground group can hand back a helper's directory (a language
        /// server started by the agent) when the leader's cwd is unreadable.
        shell_cwd: Option<DirPath>,
    },
}

/// The directory that a target reports on.
pub open spec fn target_cwd(target: GitRefreshTarget) -> DirPath {
    match target {
        GitRefreshTarget::Workspace { resolved_identity_cwd, .. } => resolved_identity_cwd,
        GitRefreshTarget::Terminal { cwd, .. } => cwd,
    }
}

impl GitRefreshTarget {
    /// The directory that the target reports on.
    pub fn cwd(&self) -> (cwd: &DirPath)
        ensures
            *cwd == target_cwd(*self),
    {
        match self {
            GitRefreshTarget::Workspace { resolved_identity_cwd, .. } => resolved_identity_cwd,
            GitRefreshTarget::Terminal { cwd, .. } => cwd,
        }
    }
}

/// One wish for git facts.
#[derive(Debug, PartialEq, Eq)]
pub struct GitRefreshItem {
    pub target: GitRefreshTarget,
    /// The key of the target's checkout, where it is already known.
    pub cache_key_hint: Option<DirPath>,
    pub demand: GitStatusRefreshDemand,
}

/// One checkout to look at, for everyone who wants to know about it.
#[derive(Debug, PartialEq, Eq)]
pub struct GitRefreshJob {
    pub cache_key: DirPath,
    pub cached: Option<GitStatusCacheEntry>,
    pub targets: Vec<(GitRefreshTarget, GitStatusRefreshDemand)>,
    pub demand: GitStatusRefreshDemand,
}

/// What git said about the checkout of one job.
#[derive(Debug, PartialEq, Eq)]
pub struct GitStatusReport {
    pub snapshot: WorkspaceGitStatusSnapshot,
    /// What to remember of the checkout, if anything.
    pub cache_entry: Option<GitStatusCacheEntry>,
}

/// What a refresh hands to the application.
#[derive(Debug, PartialEq, Eq)]
pub struct GitRefreshOutput {
    pub results: Vec<WorkspaceGitStatus>,
    pub terminal_results: Vec<TerminalGitStatus>,
    pub cache_updates: Vec<(DirPath, GitStatusCacheEntry)>,
}

/// The facts that either demand wants.
pub open spec fn union(
    left: GitStatusRefreshDemand,
    right: GitStatusRefreshDemand,
) -> GitStatusRefreshDemand {
    GitStatusRefreshDemand {
        branch: left.branch || right.branch,
        ahead_behind: left.ahead_behind || right.ahead_behind,
        dirty: left.dirty || right.dirty,
    }
}

/// The facts that either demand wants.
pub fn union_demand(left: GitStatusRefreshDemand, right: GitStatusRefreshDemand) -> (both:
    GitStatusRefreshDemand)
    ensures
        both == union(left, right),
{
    GitStatusRefreshDemand {
        branch: left.branch || right.branch,
        ahead_behind: left.ahead_behind || right.ahead_behind,
        dirty: left.dirty || right.dirty,
    }
}

/// The target with the checkout it reports on settled: a terminal's foreground
/// cwd, unless that lies in no checkout and its shell's cwd lies in one.
/// `checkouts` holds the key of each directory that lies in a checkout.
pub open spec fn settled(
    target: GitRefreshTarget,
    checkouts: Map<PathView, DirPath>,
) -> GitRefreshTarget {
    match target {
        GitRefreshTarget::Workspace { .. } => target,
        GitRefreshTarget::Terminal { terminal_id, cwd, shell_cwd } => GitRefreshTarget::Terminal {
            terminal_id,
            cwd: if shell_cwd is Some && !checkouts.contains_key(cwd@) && checkouts.contains_key(
                shell_cwd->0@,
            ) {
                shell_cwd->0
            } else {
                cwd
            },
            shell_cwd: None,
        },
    }
}

/// Picks the checkout a terminal target reports on: its foreground cwd when that
/// sits in a repository, else the pane shell's cwd when that one does.
/// `checkouts` holds the key of each directory that lies in a checkout.
pub fn resolve_terminal_checkout(target: GitRefreshTarget, checkouts: &PathMap<DirPath>) -> (result:
    GitRefreshTarget)
    ensures
        result == settled(target, checkouts@),
{
    match target {
        GitRefreshTarget::Workspace { workspace_id, resolved_identity_cwd } => {
            GitRefreshTarget::Workspace { workspace_id, resolved_identity_cwd }
        },
        GitRefreshTarget::Terminal { terminal_id, cwd, shell_cwd } => {
            let cwd = match shell_cwd {
                Some(shell_cwd) => {
                    if checkouts.get(&cwd).is_none() && checkouts.get(&shell_cwd).is_some() {
                        shell_cwd
                    } else {
                        cwd
                    }
                },
                None => cwd,
            };
            GitRefreshTarget::Terminal { terminal_id, cwd, shell_cwd: None }
        },
    }
}

/// The key of an item's checkout: the hint, or what is known of the directory it
/// reports on, or that directory itself if it lies in no checkout.
pub open spec fn item_key(item: GitRefreshItem, checkouts: Map<PathView, DirPath>) -> PathView {
    let cwd = target_cwd(settled(item.target, checkouts))@;
    if item.cache_key_hint is Some {
        item.cache_key_hint->0@
    } else if checkouts.contains_key(cwd) {
        checkouts[cwd]@
    } else {
        cwd
    }
}

/// Whether the item distrusts what is remembered of its checkout: a workspace
/// arrives without a hint when it is re-checking its identity, so its old entry
/// must not be reused. A terminal resolves its key from the cwd on every tick and
/// has no stored key to distrust.
pub open spec fn reconciles(item: GitRefreshItem) -> bool {
    item.cache_key_hint is None && item.target is Workspace
}

/// The keys of the items' checkouts, each once, in the order of their first item.
pub open spec fn keys_of(
    items: Seq<GitRefreshItem>,
    checkouts: Map<PathView, DirPath>,
) -> Seq<PathView>
    decreases items.len(),
{
    if items.len() == 0 {
        Seq::empty()
    } else {
        let before = keys_of(items.drop_last(), checkouts);
        let key = item_key(items.last(), checkouts);
        if before.contains(key) {
            before
        } else {
            before.push(key)
        }
    }
}

/// The items that share the checkout `key`, in order.
pub open spec fn sharing(
    items: Seq<GitRefreshItem>,
    checkouts: Map<PathView, DirPath>,
    key: PathView,
) -> Seq<GitRefreshItem> {
    items.filter(|item: GitRefreshItem| item_key(item, checkouts) == key)
}

/// What the item tells a job: who wants what.
pub open spec fn wish(
    item: GitRefreshItem,
    checkouts: Map<PathView, DirPath>,
) -> (GitRefreshTarget, GitStatusRefreshDemand) {
    (settled(item.target, checkouts), item.demand)
}

/// The facts that any of the items wants.
pub open spec fn joint_demand(items: Seq<GitRefreshItem>) -> GitStatusRefreshDemand {
    GitStatusRefreshDemand {
        branch: items.any(|item: GitRefreshItem| item.demand.branch),
        ahead_behind: items.any(|item: GitRefreshItem| item.demand.ahead_behind),
        dirty: items.any(|item: GitRefreshItem| item.demand.dirty),
    }
}

/// `job` looks at the checkout `key` for all items that share it: it holds what
/// each of them wants, in order, asks for the facts that any of them wants, and
/// brings along what is remembered of the checkout unless one of them distrusts
/// it.
pub open spec fn is_job(
    job: GitRefreshJob,
    key: PathView,
    items: Seq<GitRefreshItem>,
    checkouts: Map<PathView, DirPath>,
    cache: Map<PathView, GitStatusCacheEntry>,
) -> bool {
    let group = sharing(items, checkouts, key);
    &&& job.cache_key@ == key
    &&& job.targets@ == group.map_values(|item: GitRefreshItem| wish(item, checkouts))
    &&& job.demand == joint_demand(group)
    &&& job.cached == if cache.contains_key(key) && !group.any(
        |item: GitRefreshItem| reconciles(item),
    ) {
        Some(cache[key])
    } else {
        None
    }
}

/// `jobs` are the jobs for `items`: one for each checkout, in the order in which
/// the items first name them.
pub open spec fn are_jobs(
    jobs: Seq<GitRefreshJob>,
    items: Seq<GitRefreshItem>,
    checkouts: Map<PathView, DirPath>,
    cache: Map<PathView, GitStatusCacheEntry>,
) -> bool {
    let keys = keys_of(items, checkouts);
    &&& jobs.len() == keys.len()
    &&& forall|j: int|
        0 <= j < jobs.len() ==> is_job(#[trigger] jobs[j], keys[j], items, checkouts, cache)
}

/// One item more adds its own demand and distrust.
pub proof fn lemma_any_push(items: Seq<GitRefreshItem>, item: GitRefreshItem)
    ensures
        joint_demand(items.push(item)) == union(joint_demand(items), item.demand),
        items.push(item).any(|item: GitRefreshItem| reconciles(item)) == (items.any(
            |item: GitRefreshItem| reconciles(item),
        ) || reconciles(item)),
{
    let all = items.push(item);
    assert forall|p: spec_fn(GitRefreshItem) -> bool| #[trigger] all.any(p) == (items.any(p) || p(
        item,
    )) by {
        if items.any(p) {
            let i = choose|i: int| 0 <= i < items.len() && p(items[i]);
            assert(all[i] == items[i]);
        }
        if p(item) {
            assert(all[items.len() as int] == item);
        }
        if all.any(p) {
            let i = choose|i: int| 0 <= i < all.len() && p(all[i]);
            if i < items.len() {
                assert(p(items[i]));
            }
        }
    }
}

/// One item more shares the checkout of its own key.
pub proof fn lemma_sharing_push(
    items: Seq<GitRefreshItem>,
    item: GitRefreshItem,
    checkouts: Map<PathView, DirPath>,
    key: PathView,
)
    ensures
        sharing(items.push(item), checkouts, key) == (if item_key(item, checkouts) == key {
            sharing(items, checkouts, key).push(item)
        } else {
            sharing(items, checkouts, key)
        }),
{
    items.lemma_filter_push(item, |item: GitRefreshItem| item_key(item, checkouts) == key);
}

/// No item shares a checkout that is not listed.
pub proof fn lemma_unlisted(
    items: Seq<GitRefreshItem>,
    checkouts: Map<PathView, DirPath>,
    key: PathView,
)
    requires
        !keys_of(items, checkouts).contains(key),
    ensures
        sharing(items, checkouts, key) =~= Seq::empty(),
    decreases items.len(),
{
    if items.len() > 0 {
        let rest = items.drop_last();
        let before = keys_of(rest, checkouts);
        if before.contains(key) {
            let i = choose|i: int| 0 <= i < before.len() && before[i] == key;
            assert(keys_of(items, checkouts)[i] == key);
        }
        if item_key(items.last(), checkouts) == key {
            assert(keys_of(items, checkouts).last() == key);
        }
        lemma_unlisted(rest, checkouts, key);
        lemma_sharing_push(rest, items.last(), checkouts, key);
        assert(rest.push(items.last()) =~= items);
    } else {
        assert(items =~= Seq::empty());
        reveal_with_fuel(Seq::filter, 1);
    }
}

/// The keys are listed without repetition.
pub proof fn lemma_keys_distinct(items: Seq<GitRefreshItem>, checkouts: Map<PathView, DirPath>)
    ensures
        keys_of(items, checkouts).no_duplicates(),
    decreases items.len(),
{
    if items.len() > 0 {
        lemma_keys_distinct(items.drop_last(), checkouts);
    }
}

/// The directories whose checkout a refresh of the item has to know: both of a
/// terminal that has a second choice, otherwise the only one, unless the hint says
/// it all.
pub open spec fn item_lookups(item: GitRefreshItem) -> Seq<DirPath> {
    match item.target {
        GitRefreshTarget::Terminal { cwd, shell_cwd: Some(shell_cwd), .. } => seq![cwd, shell_cwd],
        _ => if item.cache_key_hint is None {
            seq![target_cwd(item.target)]
        } else {
            Seq::empty()
        },
    }
}

/// The directories whose checkouts a refresh of the items has to know.
pub open spec fn lookups(items: Seq<GitRefreshItem>) -> Seq<DirPath> {
    items.flat_map(|item: GitRefreshItem| item_lookups(item))
}

/// The directories whose checkouts a refresh of the items has to know, item by
/// item.
pub fn directories_to_look_up(items: &Vec<GitRefreshItem>) -> (paths: Vec<DirPath>)
    ensures
        paths@ == lookups(items@),
{
    let ghost to_paths = |item: GitRefreshItem| item_lookups(item);
    let mut paths: Vec<DirPath> = Vec::new();
    assert(items@.take(0) =~= Seq::empty());
    assert(paths@ =~= lookups(items@.take(0)));
    for i in 0..items.len()
        invariant
            to_paths == (|item: GitRefreshItem| item_lookups(item)),
            paths@ == items@.take(i as int).flat_map(to_paths),
    {
        let ghost before = paths@;
        proof {
            items@.lemma_flat_map_take_append(to_paths, i as int);
        }
        match &items[i].target {
            GitRefreshTarget::Terminal { cwd, shell_cwd: Some(shell_cwd), .. } => {
                paths.push(cwd.clone());
                paths.push(shell_cwd.clone());
            },
            target => {
                if items[i].cache_key_hint.is_none() {
                    paths.push(target.cwd().clone());
                }
            },
        }
        assert(paths@ =~= before + item_lookups(items@[i as int]));
    }
    assert(items@.take(items@.len() as int) =~= items@);
    paths
}

/// Joins the items that look at the same checkout into one job each.
///
/// `checkouts` holds the key of each directory that lies in a checkout, `cache`
/// what is remembered of the checkouts, by key.
pub fn deduplicate_git_refresh_items(
    items: Vec<GitRefreshItem>,
    checkouts: &PathMap<DirPath>,
    cache: &PathMap<GitStatusCacheEntry>,
) -> (jobs: Vec<GitRefreshJob>)
    ensures
        are_jobs(jobs@, items@, checkouts@, cache@),
{
    let ghost all = items@;
    let mut jobs: Vec<GitRefreshJob> = Vec::new();
    assert(all.take(0) =~= Seq::empty());
    for item in it: items
        invariant
            it.seq() == all,
            are_jobs(jobs@, all.take(it.index() as int), checkouts@, cache@),
    {
        let ghost k = it.index() as int;
        let ghost done = all.take(k);
        let ghost keys = keys_of(done, checkouts@);
        let ghost before = jobs@;
        let ghost this = item;
        proof {
            assert(all.take(k + 1) =~= done.push(this));
            assert(done.push(this).drop_last() =~= done);
            lemma_keys_distinct(done, checkouts@);
        }
        let is_workspace = match &item.target {
            GitRefreshTarget::Workspace { .. } => true,
            GitRefreshTarget::Terminal { .. } => false,
        };
        let reconcile = item.cache_key_hint.is_none() && is_workspace;
        let demand = item.demand;
        let target = resolve_terminal_checkout(item.target, checkouts);
        let cache_key = match item.cache_key_hint {
            Some(hint) => hint,
            None => match checkouts.get(target.cwd()) {
                Some(key) => key.clone(),
                None => target.cwd().clone(),
            },
        };
        assert(cache_key@ == item_key(this, checkouts@));
        let mut index: usize = 0;
        while index < jobs.len() && !jobs[index].cache_key.same(&cache_key)
            invariant
                index <= jobs@.len(),
                forall|j: int| 0 <= j < index ==> (#[trigger] jobs@[j]).cache_key@ != cache_key@,
            decreases jobs@.len() - index,
        {
            index = index + 1;
        }
        proof {
            assert forall|j: int| 0 <= j < before.len() implies sharing(
                done.push(this),
                checkouts@,
                #[trigger] keys[j],
            ) == (if keys[j] == cache_key@ {
                sharing(done, checkouts@, keys[j]).push(this)
            } else {
                sharing(done, checkouts@, keys[j])
            }) by {
                lemma_sharing_push(done, this, checkouts@, keys[j]);
            }
        }
        if index < jobs.len() {
            let ghost group = sharing(done, checkouts@, cache_key@);
            assert(keys[index as int] == cache_key@);
            assert(keys.contains(cache_key@));
            proof {
                lemma_any_push(group, this);
            }
            let job = &mut jobs[index];
            if reconcile {
                job.cached = None;
            }
            job.targets.push((target, demand));
            job.demand = union_demand(job.demand, demand);
            assert(jobs@[index as int].targets@ =~= group.push(this).map_values(
                |item: GitRefreshItem| wish(item, checkouts@),
            ));
            assert(is_job(jobs@[index as int], cache_key@, done.push(this), checkouts@, cache@));
            assert forall|j: int| 0 <= j < jobs@.len() implies is_job(
                #[trigger] jobs@[j],
                keys[j],
                done.push(this),
                checkouts@,
                cache@,
            ) by {
                if j != index {
                    assert(jobs@[j] == before[j]);
                    assert(keys[j] != cache_key@);
                }
            }
        } else {
            proof {
                if keys.contains(cache_key@) {
                    let j = choose|j: int| 0 <= j < keys.len() && keys[j] == cache_key@;
                    assert(before[j].cache_key@ == keys[j]);
                }
                lemma_unlisted(done, checkouts@, cache_key@);
                lemma_sharing_push(done, this, checkouts@, cache_key@);
                lemma_any_push(Seq::empty(), this);
            }
            let cached = if reconcile {
                None
            } else {
                match cache.get(&cache_key) {
                    Some(entry) => Some(entry.clone()),
                    None => None,
                }
            };
            let mut targets: Vec<(GitRefreshTarget, GitStatusRefreshDemand)> = Vec::new();
            targets.push((target, demand));
            assert(targets@ =~= Seq::empty().push(this).map_values(
                |item: GitRefreshItem| wish(item, checkouts@),
            ));
            jobs.push(GitRefreshJob { cache_key, cached, targets, demand });
            assert forall|j: int| 0 <= j < jobs@.len() implies is_job(
                #[trigger] jobs@[j],
                keys_of(done.push(this), checkouts@)[j],
                done.push(this),
                checkouts@,
                cache@,
            ) by {
                if j < before.len() {
                    assert(jobs@[j] == before[j]);
                    assert(keys[j] != cache_key@);
                }
            }
        }
    }
    assert(all.take(all.len() as int) =~= all);
    jobs
}

/// One workspace's share of a report.
pub struct WorkspaceReply {
    pub workspace_id: String,
    pub resolved_identity_cwd: DirPath,
    pub git_status_key: DirPath,
    pub demand: GitStatusRefreshDemand,
    pub snapshot: WorkspaceGitStatusSnapshot,
}

/// The reply that a target is owed if it is a workspace.
pub open spec fn workspace_reply(
    wish: (GitRefreshTarget, GitStatusRefreshDemand),
    cache_key: DirPath,
    snapshot: WorkspaceGitStatusSnapshot,
) -> Option<WorkspaceReply> {
    match wish.0 {
        GitRefreshTarget::Workspace { workspace_id, resolved_identity_cwd } => Some(
            WorkspaceReply {
                workspace_id,
                resolved_identity_cwd,
                git_status_key: cache_key,
                demand: wish.1,
                snapshot,
            },
        ),
        GitRefreshTarget::Terminal { .. } => None,
    }
}

/// The reply that a target is owed if it is a terminal.
pub open spec fn terminal_reply(
    wish: (GitRefreshTarget, GitStatusRefreshDemand),
    snapshot: WorkspaceGitStatusSnapshot,
) -> Option<TerminalGitStatus> {
    match wish.0 {
        GitRefreshTarget::Workspace { .. } => None,
        GitRefreshTarget::Terminal { terminal_id, cwd, .. } => Some(
            TerminalGitStatus {
                terminal_id,
                cwd,
                demand: wish.1,
                ahead_behind: snapshot.ahead_behind,
                dirty: snapshot.dirty,
            },
        ),
    }
}

/// The replies that the workspaces among a job's targets are owed, in order.
pub open spec fn job_replies(reported: (GitRefreshJob, GitStatusReport)) -> Seq<WorkspaceReply> {
    reported.0.targets@.filter_map(
        |wish: (GitRefreshTarget, GitStatusRefreshDemand)|
            workspace_reply(wish, reported.0.cache_key, reported.1.snapshot),
    )
}

/// The replies that the terminals among a job's targets are owed, in order.
pub open spec fn job_terminal_replies(reported: (GitRefreshJob, GitStatusReport)) -> Seq<
    TerminalGitStatus,
> {
    reported.0.targets@.filter_map(
        |wish: (GitRefreshTarget, GitStatusRefreshDemand)| terminal_reply(wish, reported.1.snapshot),
    )
}

/// The replies that all workspaces are owed, job by job.
pub open spec fn replies(reported: Seq<(GitRefreshJob, GitStatusReport)>) -> Seq<WorkspaceReply> {
    reported.flat_map(|job: (GitRefreshJob, GitStatusReport)| job_replies(job))
}

/// The replies that all terminals are owed, job by job.
pub open spec fn terminal_replies(reported: Seq<(GitRefreshJob, GitStatusReport)>) -> Seq<
    TerminalGitStatus,
> {
    reported.flat_map(|job: (GitRefreshJob, GitStatusReport)| job_terminal_replies(job))
}

/// What is to be remembered of a job's checkout.
pub open spec fn update(reported: (GitRefreshJob, GitStatusReport)) -> Option<
    (DirPath, GitStatusCacheEntry),
> {
    match reported.1.cache_entry {
        Some(entry) => Some((reported.0.cache_key, entry)),
        None => None,
    }
}

/// What is to be remembered of the checkouts, job by job.
pub open spec fn updates(reported: Seq<(GitRefreshJob, GitStatusReport)>) -> Seq<
    (DirPath, GitStatusCacheEntry),
> {
    reported.filter_map(|job: (GitRefreshJob, GitStatusReport)| update(job))
}

/// `results` holds the replies `owed`, in order.
pub open spec fn are_results(results: Seq<WorkspaceGitStatus>, owed: Seq<WorkspaceReply>) -> bool {
    &&& results.len() == owed.len()
    &&& forall|i: int|
        0 <= i < owed.len() ==> git_status::tells(
            #[trigger] results[i],
            owed[i].snapshot,
            owed[i].workspace_id,
            owed[i].resolved_identity_cwd,
            owed[i].git_status_key,
            owed[i].demand,
        )
}

/// Hands the reports on the jobs of a refresh to those who asked: each target of
/// a job receives the facts of its checkout, with its own demand, and the cache
/// receives what is to be remembered of each checkout.
pub fn answer_targets(reported: Vec<(GitRefreshJob, GitStatusReport)>) -> (output: GitRefreshOutput)
    ensures
        are_results(output.results@, replies(reported@)),
        output.terminal_results@ == terminal_replies(reported@),
        output.cache_updates@ == updates(reported@),
{
    let ghost all = reported@;
    let mut results: Vec<WorkspaceGitStatus> = Vec::new();
    let mut terminal_results: Vec<TerminalGitStatus> = Vec::new();
    let mut cache_updates: Vec<(DirPath, GitStatusCacheEntry)> = Vec::new();
    assert(all.take(0) =~= Seq::empty());
    assert(replies(all.take(0)) =~= Seq::empty());
    assert(terminal_replies(all.take(0)) =~= Seq::empty());
    assert(updates(all.take(0)) =~= Seq::empty());
    for pair in it: reported
        invariant
            it.seq() == all,
            are_results(results@, replies(all.take(it.index() as int))),
            terminal_results@ == terminal_replies(all.take(it.index() as int)),
            cache_updates@ == updates(all.take(it.index() as int)),
    {
        let ghost k = it.index() as int;
        let ghost this = pair;
        let ghost answered = replies(all.take(k));
        let ghost terminals_answered = terminal_results@;
        proof {
            assert(all[k] == this);
            assert(all.take(k + 1) =~= all.take(k).push(this));
            all.lemma_filter_map_take_succ(
                |job: (GitRefreshJob, GitStatusReport)| update(job),
                k,
            );
        }
        let (job, report) = pair;
        if let Some(entry) = report.cache_entry {
            cache_updates.push((job.cache_key.clone(), entry));
        }
        assert(cache_updates@ =~= updates(all.take(k + 1)));
        let snapshot = report.snapshot;
        let cache_key = job.cache_key;
        let ghost wishes = job.targets@;
        let ghost to_workspace = |wish: (GitRefreshTarget, GitStatusRefreshDemand)|
            workspace_reply(wish, cache_key, snapshot);
        let ghost to_terminal = |wish: (GitRefreshTarget, GitStatusRefreshDemand)|
            terminal_reply(wish, snapshot);
        assert(wishes.take(0) =~= Seq::empty());
        assert(answered + wishes.take(0).filter_map(to_workspace) =~= answered);
        assert(terminals_answered + wishes.take(0).filter_map(to_terminal) =~= terminals_answered);
        for wish in inner: job.targets
            invariant
                inner.seq() == wishes,
                to_workspace == (|wish: (GitRefreshTarget, GitStatusRefreshDemand)|
                    workspace_reply(wish, cache_key, snapshot)),
                to_terminal == (|wish: (GitRefreshTarget, GitStatusRefreshDemand)|
                    terminal_reply(wish, snapshot)),
                are_results(
                    results@,
                    answered + wishes.take(inner.index() as int).filter_map(to_workspace),
                ),
                terminal_results@ == terminals_answered + wishes.take(
                    inner.index() as int,
                ).filter_map(to_terminal),
        {
            let ghost n = inner.index() as int;
            let ghost before = results@;
            let ghost owed = answered + wishes.take(n).filter_map(to_workspace);
            proof {
                wishes.lemma_filter_map_take_succ(to_workspace, n);
                wishes.lemma_filter_map_take_succ(to_terminal, n);
                assert(wishes[n] == wish);
            }
            let (target, demand) = wish;
            match target {
                GitRefreshTarget::Workspace { workspace_id, resolved_identity_cwd } => {
                    let ghost reply = to_workspace(wish)->0;
                    results.push(
                        snapshot.clone().into_workspace_status(
                            workspace_id,
                            resolved_identity_cwd,
                            cache_key.clone(),
                            demand,
                        ),
                    );
                    assert(answered + wishes.take(n + 1).filter_map(to_workspace) =~= owed.push(
                        reply,
                    ));
                    assert(are_results(results@, owed.push(reply))) by {
                        assert forall|i: int| 0 <= i < results@.len() implies git_status::tells(
                            #[trigger] results@[i],
                            owed.push(reply)[i].snapshot,
                            owed.push(reply)[i].workspace_id,
                            owed.push(reply)[i].resolved_identity_cwd,
                            owed.push(reply)[i].git_status_key,
                            owed.push(reply)[i].demand,
                        ) by {
                            if i < before.len() {
                                assert(results@[i] == before[i]);
                            }
                        }
                    }
                },
                GitRefreshTarget::Terminal { terminal_id, cwd, .. } => {
                    terminal_results.push(
                        TerminalGitStatus {
                            terminal_id,
                            cwd,
                            demand,
                            ahead_behind: snapshot.ahead_behind,
                            dirty: snapshot.dirty,
                        },
                    );
                    assert(answered + wishes.take(n + 1).filter_map(to_workspace) =~= owed);
                },
            }
            assert(terminal_results@ =~= terminals_answered + wishes.take(n + 1).filter_map(
                to_terminal,
            ));
        }
        proof {
            assert(wishes.take(wishes.len() as int) =~= wishes);
            assert(job_replies(this) == wishes.filter_map(to_workspace));
            assert(job_terminal_replies(this) == wishes.filter_map(to_terminal));
            all.lemma_flat_map_take_append(
                |job: (GitRefreshJob, GitStatusReport)| job_replies(job),
                k,
            );
            all.lemma_flat_map_take_append(
                |job: (GitRefreshJob, GitStatusReport)| job_terminal_replies(job),
                k,
            );
        }
    }
    assert(all.take(all.len() as int) =~= all);
    GitRefreshOutput { results, terminal_results, cache_updates }
}

/// The jobs that were reported on.
pub open spec fn jobs_of(reported: Seq<(GitRefreshJob, GitStatusReport)>) -> Seq<GitRefreshJob> {
    reported.map_values(|job: (GitRefreshJob, GitStatusReport)| job.0)
}

/// Whether `report` may be the answer of `snapshot_for` on the job: it is asked
/// about the job's checkout, with what the job brings along and wants to know.
pub open spec fn is_report<
    G: Fn(&DirPath, Option<&GitStatusCacheEntry>, GitStatusRefreshDemand) -> GitStatusReport,
>(job: GitRefreshJob, report: GitStatusReport, snapshot_for: G) -> bool {
    let cached = match job.cached {
        Some(entry) => Some(&entry),
        None => None,
    };
    snapshot_for.ensures((&job.cache_key, cached, job.demand), report)
}

/// `reported` holds the jobs for `items`, each with an answer of `snapshot_for`.
pub open spec fn are_reports<
    G: Fn(&DirPath, Option<&GitStatusCacheEntry>, GitStatusRefreshDemand) -> GitStatusReport,
>(
    reported: Seq<(GitRefreshJob, GitStatusReport)>,
    items: Seq<GitRefreshItem>,
    checkouts: Map<PathView, DirPath>,
    cache: Map<PathView, GitStatusCacheEntry>,
    snapshot_for: G,
) -> bool {
    &&& are_jobs(jobs_of(reported), items, checkouts, cache)
    &&& forall|j: int|
        0 <= j < reported.len() ==> is_report(
            (#[trigger] reported[j]).0,
            reported[j].1,
            snapshot_for,
        )
}

/// One refresh: asks `snapshot_for` once about each checkout that the items name,
/// with what is remembered of it and the facts that anyone wants of it, and hands
/// the answers to those who asked.
pub fn refresh_git_statuses_with_cache<
    G: Fn(&DirPath, Option<&GitStatusCacheEntry>, GitStatusRefreshDemand) -> GitStatusReport,
>(
    items: Vec<GitRefreshItem>,
    checkouts: &PathMap<DirPath>,
    cache: &PathMap<GitStatusCacheEntry>,
    snapshot_for: G,
) -> (output: GitRefreshOutput)
    requires
        forall|
            key: &DirPath,
            cached: Option<&GitStatusCacheEntry>,
            demand: GitStatusRefreshDemand,
        | #[trigger] snapshot_for.requires((key, cached, demand)),
    ensures
        exists|reported: Seq<(GitRefreshJob, GitStatusReport)>|
            {
                &&& #[trigger] are_reports(reported, items@, checkouts@, cache@, snapshot_for)
                &&& are_results(output.results@, replies(reported))
                &&& output.terminal_results@ == terminal_replies(reported)
                &&& output.cache_updates@ == updates(reported)
            },
{
    let jobs = deduplicate_git_refresh_items(items, checkouts, cache);
    let ghost all = jobs@;
    let mut reported: Vec<(GitRefreshJob, GitStatusReport)> = Vec::new();
    for job in it: jobs
        invariant
            it.seq() == all,
            forall|
                key: &DirPath,
                cached: Option<&GitStatusCacheEntry>,
                demand: GitStatusRefreshDemand,
            | #[trigger] snapshot_for.requires((key, cached, demand)),
            reported@.len() == it.index(),
            forall|j: int|
                0 <= j < reported@.len() ==> (#[trigger] reported@[j]).0 == all[j] && is_report(
                    all[j],
                    reported@[j].1,
                    snapshot_for,
                ),
    {
        let report = snapshot_for(&job.cache_key, job.cached.as_ref(), job.demand);
        assert(is_report(job, report, snapshot_for));
        reported.push((job, report));
    }
    assert(jobs_of(reported@) =~= all);
    assert(are_reports(reported@, items@, checkouts@, cache@, snapshot_for));
    answer_targets(reported)
}

/// Joining demands is a union: the order and the repetition of the parts do not
/// matter, the empty demand adds nothing, and nothing that was wanted gets lost.
pub proof fn demands_join_as_a_union(
    a: GitStatusRefreshDemand,
    b: GitStatusRefreshDemand,
    c: GitStatusRefreshDemand,
)
    ensures
        union(a, b) == union(b, a),
        union(a, union(b, c)) == union(union(a, b), c),
        union(a, a) == a,
        union(a, git_status::no_demand()) == a,
        union(a, b).covers(a) && union(a, b).covers(b),
        c.covers(a) && c.covers(b) ==> c.covers(union(a, b)),
{
}

/// No checkout is looked at twice in one refresh.
pub proof fn each_checkout_has_one_job(
    jobs: Seq<GitRefreshJob>,
    items: Seq<GitRefreshItem>,
    checkouts: Map<PathView, DirPath>,
    cache: Map<PathView, GitStatusCacheEntry>,
    i: int,
    j: int,
)
    requires
        are_jobs(jobs, items, checkouts, cache),
        0 <= i < j < jobs.len(),
    ensures
        jobs[i].cache_key@ != jobs[j].cache_key@,
{
    lemma_keys_distinct(items, checkouts);
    let keys = keys_of(items, checkouts);
    assert(is_job(jobs[i], keys[i], items, checkouts, cache));
    assert(is_job(jobs[j], keys[j], items, checkouts, cache));
}

proof fn lemma_any_at(items: Seq<GitRefreshItem>, p: spec_fn(GitRefreshItem) -> bool, t: int)
    requires
        0 <= t < items.len(),
    ensures
        p(items[t]) ==> items.any(p),
{
}

proof fn lemma_key_listed(
    items: Seq<GitRefreshItem>,
    checkouts: Map<PathView, DirPath>,
    i: int,
)
    requires
        0 <= i < items.len(),
    ensures
        keys_of(items, checkouts).contains(item_key(items[i], checkouts)),
    decreases items.len(),
{
    let rest = items.drop_last();
    let before = keys_of(rest, checkouts);
    let key = item_key(items[i], checkouts);
    if i < rest.len() {
        lemma_key_listed(rest, checkouts, i);
        let k = choose|k: int| 0 <= k < before.len() && before[k] == key;
        assert(keys_of(items, checkouts)[k] == key);
    } else if !before.contains(key) {
        assert(keys_of(items, checkouts).last() == key);
    }
}

/// Nobody is forgotten: every item is a target of the job for its checkout, with
/// its own demand, and that job asks for at least what the item wants.
pub proof fn every_item_is_a_target(
    jobs: Seq<GitRefreshJob>,
    items: Seq<GitRefreshItem>,
    checkouts: Map<PathView, DirPath>,
    cache: Map<PathView, GitStatusCacheEntry>,
    i: int,
) -> (place: (int, int))
    requires
        are_jobs(jobs, items, checkouts, cache),
        0 <= i < items.len(),
    ensures
        0 <= place.0 < jobs.len(),
        jobs[place.0].cache_key@ == item_key(items[i], checkouts),
        0 <= place.1 < jobs[place.0].targets@.len(),
        jobs[place.0].targets@[place.1] == wish(items[i], checkouts),
        jobs[place.0].demand.covers(items[i].demand),
{
    let keys = keys_of(items, checkouts);
    let key = item_key(items[i], checkouts);
    lemma_key_listed(items, checkouts, i);
    let j = choose|j: int| 0 <= j < keys.len() && keys[j] == key;
    assert(is_job(jobs[j], keys[j], items, checkouts, cache));
    let group = sharing(items, checkouts, key);
    let shares = |item: GitRefreshItem| item_key(item, checkouts) == key;
    items.lemma_filter_contains(shares, i);
    let t = choose|t: int| 0 <= t < group.len() && group[t] == items[i];
    lemma_any_at(group, |item: GitRefreshItem| item.demand.branch, t);
    lemma_any_at(group, |item: GitRefreshItem| item.demand.ahead_behind, t);
    lemma_any_at(group, |item: GitRefreshItem| item.demand.dirty, t);
    (j, t)
}

/// What is remembered of a checkout is never reused for a workspace that is
/// re-checking its identity, nor for anyone who shares the checkout with it.
pub proof fn distrusted_entry_is_not_reused(
    jobs: Seq<GitRefreshJob>,
    items: Seq<GitRefreshItem>,
    checkouts: Map<PathView, DirPath>,
    cache: Map<PathView, GitStatusCacheEntry>,
    i: int,
    j: int,
)
    requires
        are_jobs(jobs, items, checkouts, cache),
        0 <= i < items.len(),
        reconciles(items[i]),
        0 <= j < jobs.len(),
        jobs[j].cache_key@ == item_key(items[i], checkouts),
    ensures
        jobs[j].cached is None,
{
    let key = item_key(items[i], checkouts);
    assert(is_job(jobs[j], keys_of(items, checkouts)[j], items, checkouts, cache));
    let group = sharing(items, checkouts, key);
    items.lemma_filter_contains(|item: GitRefreshItem| item_key(item, checkouts) == key, i);
    let t = choose|t: int| 0 <= t < group.len() && group[t] == items[i];
    lemma_any_at(group, |item: GitRefreshItem| reconciles(item), t);
}

/// What is remembered of a checkout is brought along where nobody who asks about
/// it distrusts it: only terminals ask, or workspaces that kept their key.
pub proof fn trusted_entry_is_reused(
    jobs: Seq<GitRefreshJob>,
    items: Seq<GitRefreshItem>,
    checkouts: Map<PathView, DirPath>,
    cache: Map<PathView, GitStatusCacheEntry>,
    j: int,
)
    requires
        are_jobs(jobs, items, checkouts, cache),
        0 <= j < jobs.len(),
        cache.contains_key(jobs[j].cache_key@),
        forall|i: int|
            0 <= i < items.len() && item_key(#[trigger] items[i], checkouts) == jobs[j].cache_key@
                ==> items[i].target is Terminal || items[i].cache_key_hint is Some,
    ensures
        jobs[j].cached == Some(cache[jobs[j].cache_key@]),
{
    let key = jobs[j].cache_key@;
    assert(is_job(jobs[j], keys_of(items, checkouts)[j], items, checkouts, cache));
    let group = sharing(items, checkouts, key);
    let shares = |item: GitRefreshItem| item_key(item, checkouts) == key;
    assert forall|t: int| 0 <= t < group.len() implies !reconciles(#[trigger] group[t]) by {
        items.lemma_filter_contains_rev(shares, group[t]);
        let i = choose|i: int| 0 <= i < items.len() && items[i] == group[t];
        items.lemma_filter_pred(shares, t);
        assert(item_key(items[i], checkouts) == key);
    }
}

/// How many targets the jobs have together.
pub open spec fn target_count(jobs: Seq<GitRefreshJob>) -> nat
    decreases jobs.len(),
{
    if jobs.len() == 0 {
        0
    } else {
        target_count(jobs.drop_last()) + jobs.last().targets@.len()
    }
}

spec fn shared_count(
    items: Seq<GitRefreshItem>,
    checkouts: Map<PathView, DirPath>,
    keys: Seq<PathView>,
) -> nat
    decreases keys.len(),
{
    if keys.len() == 0 {
        0
    } else {
        shared_count(items, checkouts, keys.drop_last()) + sharing(
            items,
            checkouts,
            keys.last(),
        ).len()
    }
}

proof fn lemma_shared_count_push(
    items: Seq<GitRefreshItem>,
    item: GitRefreshItem,
    checkouts: Map<PathView, DirPath>,
    keys: Seq<PathView>,
)
    requires
        keys.no_duplicates(),
    ensures
        shared_count(items.push(item), checkouts, keys) == shared_count(items, checkouts, keys)
            + if keys.contains(item_key(item, checkouts)) {
            1nat
        } else {
            0
        },
    decreases keys.len(),
{
    if keys.len() > 0 {
        let rest = keys.drop_last();
        let key = item_key(item, checkouts);
        lemma_shared_count_push(items, item, checkouts, rest);
        lemma_sharing_push(items, item, checkouts, keys.last());
        if keys.last() == key {
            assert(keys.contains(key));
        } else {
            if rest.contains(key) {
                let k = choose|k: int| 0 <= k < rest.len() && rest[k] == key;
                assert(keys[k] == key);
            }
            if keys.contains(key) {
                let k = choose|k: int| 0 <= k < keys.len() && keys[k] == key;
                assert(rest[k] == key);
            }
        }
    }
}

proof fn lemma_shared_count(items: Seq<GitRefreshItem>, checkouts: Map<PathView, DirPath>)
    ensures
        shared_count(items, checkouts, keys_of(items, checkouts)) == items.len(),
    decreases items.len(),
{
    if items.len() > 0 {
        let rest = items.drop_last();
        let item = items.last();
        let before = keys_of(rest, checkouts);
        let key = item_key(item, checkouts);
        lemma_shared_count(rest, checkouts);
        lemma_keys_distinct(rest, checkouts);
        lemma_shared_count_push(rest, item, checkouts, before);
        assert(rest.push(item) =~= items);
        if !before.contains(key) {
            lemma_unlisted(rest, checkouts, key);
            lemma_sharing_push(rest, item, checkouts, key);
            assert(before.push(key).drop_last() =~= before);
        }
    }
}

proof fn lemma_target_count(
    jobs: Seq<GitRefreshJob>,
    keys: Seq<PathView>,
    items: Seq<GitRefreshItem>,
    checkouts: Map<PathView, DirPath>,
    cache: Map<PathView, GitStatusCacheEntry>,
)
    requires
        jobs.len() == keys.len(),
        forall|j: int|
            0 <= j < jobs.len() ==> is_job(#[trigger] jobs[j], keys[j], items, checkouts, cache),
    ensures
        target_count(jobs) == shared_count(items, checkouts, keys),
    decreases jobs.len(),
{
    if jobs.len() > 0 {
        lemma_target_count(jobs.drop_last(), keys.drop_last(), items, checkouts, cache);
        let j = jobs.len() - 1;
        assert(is_job(jobs[j], keys[j], items, checkouts, cache));
    }
}

/// Nobody is made up: the jobs have as many targets as there are items.
pub proof fn targets_are_as_many_as_items(
    jobs: Seq<GitRefreshJob>,
    items: Seq<GitRefreshItem>,
    checkouts: Map<PathView, DirPath>,
    cache: Map<PathView, GitStatusCacheEntry>,
)
    requires
        are_jobs(jobs, items, checkouts, cache),
    ensures
        target_count(jobs) == items.len(),
{
    lemma_shared_count(items, checkouts);
    lemma_target_count(jobs, keys_of(items, checkouts), items, checkouts, cache);
}

proof fn lemma_replies_of_job(
    wishes: Seq<(GitRefreshTarget, GitStatusRefreshDemand)>,
    cache_key: DirPath,
    snapshot: WorkspaceGitStatusSnapshot,
)
    ensures
        wishes.filter_map(
            |wish: (GitRefreshTarget, GitStatusRefreshDemand)|
                workspace_reply(wish, cache_key, snapshot),
        ).len() + wishes.filter_map(
            |wish: (GitRefreshTarget, GitStatusRefreshDemand)| terminal_reply(wish, snapshot),
        ).len() == wishes.len(),
    decreases wishes.len(),
{
    if wishes.len() > 0 {
        lemma_replies_of_job(wishes.drop_last(), cache_key, snapshot);
        reveal_with_fuel(Seq::filter_map, 2);
    }
}

/// Every target of every job is answered once, by the list for its kind.
pub proof fn every_target_is_answered_once(reported: Seq<(GitRefreshJob, GitStatusReport)>)
    ensures
        replies(reported).len() + terminal_replies(reported).len() == target_count(
            jobs_of(reported),
        ),
    decreases reported.len(),
{
    if reported.len() == 0 {
        assert(replies(reported) =~= Seq::empty());
        assert(terminal_replies(reported) =~= Seq::empty());
    } else {
        let rest = reported.drop_last();
        let last = reported.last();
        every_target_is_answered_once(rest);
        assert(rest.push(last) =~= reported);
        rest.lemma_flat_map_push(
            |job: (GitRefreshJob, GitStatusReport)| job_replies(job),
            last,
        );
        rest.lemma_flat_map_push(
            |job: (GitRefreshJob, GitStatusReport)| job_terminal_replies(job),
            last,
        );
        lemma_replies_of_job(last.0.targets@, last.0.cache_key, last.1.snapshot);
        assert(jobs_of(reported).drop_last() =~= jobs_of(rest));
    }
}

/// A whole refresh answers as many times as it was asked, whatever git reports.
pub proof fn refresh_answers_every_item(
    reported: Seq<(GitRefreshJob, GitStatusReport)>,
    items: Seq<GitRefreshItem>,
    checkouts: Map<PathView, DirPath>,
    cache: Map<PathView, GitStatusCacheEntry>,
)
    requires
        are_jobs(jobs_of(reported), items, checkouts, cache),
    ensures
        replies(reported).len() + terminal_replies(reported).len() == items.len(),
{
    every_target_is_answered_once(reported);
    targets_are_as_many_as_items(jobs_of(reported), items, checkouts, cache);
}

proof fn lemma_updates_distinct(reported: Seq<(GitRefreshJob, GitStatusReport)>)
    requires
        forall|i: int, j: int|
            0 <= i < j < reported.len() ==> (#[trigger] reported[i]).0.cache_key@ != (
            #[trigger] reported[j]).0.cache_key@,
    ensures
        forall|i: int, j: int|
            0 <= i < j < updates(reported).len() ==> (#[trigger] updates(reported)[i]).0@ != (
            #[trigger] updates(reported)[j]).0@,
    decreases reported.len(),
{
    reveal_with_fuel(Seq::filter_map, 2);
    if reported.len() > 0 {
        let rest = reported.drop_last();
        let last = reported.last();
        lemma_updates_distinct(rest);
        assert forall|i: int| 0 <= i < updates(rest).len() implies (#[trigger] updates(rest)[i]).0@
            != last.0.cache_key@ by {
            let k = sequences::lemma_filter_map_origin(
                rest,
                |job: (GitRefreshJob, GitStatusReport)| update(job),
                i,
            );
            assert(reported[k].0.cache_key@ != reported[reported.len() - 1].0.cache_key@);
        }
    }
}

/// The cache hears of each checkout at most once, so that the order of the updates
/// does not matter.
pub proof fn updates_name_each_checkout_once(
    reported: Seq<(GitRefreshJob, GitStatusReport)>,
    items: Seq<GitRefreshItem>,
    checkouts: Map<PathView, DirPath>,
    cache: Map<PathView, GitStatusCacheEntry>,
    i: int,
    j: int,
)
    requires
        are_jobs(jobs_of(reported), items, checkouts, cache),
        0 <= i < j < updates(reported).len(),
    ensures
        updates(reported)[i].0@ != updates(reported)[j].0@,
{
    let jobs = jobs_of(reported);
    assert forall|m: int, n: int| 0 <= m < n < reported.len() implies (
    #[trigger] reported[m]).0.cache_key@ != (#[trigger] reported[n]).0.cache_key@ by {
        assert(jobs[m] == reported[m].0 && jobs[n] == reported[n].0);
        each_checkout_has_one_job(jobs, items, checkouts, cache, m, n);
    }
    lemma_updates_distinct(reported);
}

/// Whether the two say the same of the checkout that `path` lies in.
pub open spec fn agree_on(
    a: Map<PathView, DirPath>,
    b: Map<PathView, DirPath>,
    path: PathView,
) -> bool {
    &&& a.contains_key(path) == b.contains_key(path)
    &&& a.contains_key(path) ==> a[path]@ == b[path]@
}

proof fn lemma_item_agrees(
    item: GitRefreshItem,
    a: Map<PathView, DirPath>,
    b: Map<PathView, DirPath>,
)
    requires
        forall|k: int|
            0 <= k < item_lookups(item).len() ==> agree_on(a, b, (#[trigger] item_lookups(item)[k])@),
    ensures
        settled(item.target, a) == settled(item.target, b),
        item_key(item, a) == item_key(item, b),
{
    let paths = item_lookups(item);
    if paths.len() > 0 {
        assert(agree_on(a, b, paths[0]@));
        if paths.len() > 1 {
            assert(agree_on(a, b, paths[1]@));
        }
    }
}

proof fn lemma_items_agree(
    items: Seq<GitRefreshItem>,
    a: Map<PathView, DirPath>,
    b: Map<PathView, DirPath>,
    key: PathView,
)
    requires
        forall|i: int|
            0 <= i < items.len() ==> settled((#[trigger] items[i]).target, a) == settled(
                items[i].target,
                b,
            ) && item_key(items[i], a) == item_key(items[i], b),
    ensures
        keys_of(items, a) == keys_of(items, b),
        sharing(items, a, key) == sharing(items, b, key),
        sharing(items, a, key).map_values(|item: GitRefreshItem| wish(item, a)) == sharing(
            items,
            b,
            key,
        ).map_values(|item: GitRefreshItem| wish(item, b)),
    decreases items.len(),
{
    if items.len() > 0 {
        let rest = items.drop_last();
        let last = items.last();
        lemma_items_agree(rest, a, b, key);
        assert(rest.push(last) =~= items);
        lemma_sharing_push(rest, last, a, key);
        lemma_sharing_push(rest, last, b, key);
        assert(items[items.len() - 1] == last);
        let before = sharing(rest, a, key);
        let told_a = |item: GitRefreshItem| wish(item, a);
        let told_b = |item: GitRefreshItem| wish(item, b);
        assert(before.push(last).map_values(told_a) =~= before.map_values(told_a).push(
            wish(last, a),
        ));
        assert(before.push(last).map_values(told_b) =~= before.map_values(told_b).push(
            wish(last, b),
        ));
    } else {
        assert(items =~= Seq::empty());
        reveal_with_fuel(Seq::filter, 1);
        assert(sharing(items, a, key) =~= Seq::empty());
        assert(sharing(items, b, key) =~= Seq::empty());
    }
}

/// It is enough to look up `lookups(items)`: what is known of any other directory
/// has no part in the jobs.
pub proof fn lookups_settle_the_jobs(
    jobs: Seq<GitRefreshJob>,
    items: Seq<GitRefreshItem>,
    a: Map<PathView, DirPath>,
    b: Map<PathView, DirPath>,
    cache: Map<PathView, GitStatusCacheEntry>,
)
    requires
        forall|k: int| 0 <= k < lookups(items).len() ==> agree_on(a, b, (#[trigger] lookups(items)[k])@),
    ensures
        are_jobs(jobs, items, a, cache) == are_jobs(jobs, items, b, cache),
{
    let to_paths = |item: GitRefreshItem| item_lookups(item);
    assert forall|i: int| 0 <= i < items.len() implies settled((#[trigger] items[i]).target, a)
        == settled(items[i].target, b) && item_key(items[i], a) == item_key(items[i], b) by {
        let paths = item_lookups(items[i]);
        assert forall|k: int| 0 <= k < paths.len() implies agree_on(a, b, (#[trigger] paths[k])@) by {
            assert(to_paths(items[i]).contains(paths[k]));
            sequences::lemma_flat_map_has(items, to_paths, i, paths[k]);
            let n = choose|n: int| 0 <= n < lookups(items).len() && lookups(items)[n] == paths[k];
            assert(agree_on(a, b, lookups(items)[n]@));
        }
        lemma_item_agrees(items[i], a, b);
    }
    let keys = keys_of(items, a);
    lemma_items_agree(items, a, b, Seq::empty());
    assert forall|j: int| 0 <= j < jobs.len() implies is_job(
        #[trigger] jobs[j],
        keys[j],
        items,
        a,
        cache,
    ) == is_job(jobs[j], keys[j], items, b, cache) by {
        lemma_items_agree(items, a, b, keys[j]);
    }
}

/// A workspace that asked is told about its own checkout, under its own id, in its
/// own directory and with its own demand.
pub proof fn workspace_is_answered(
    reported: Seq<(GitRefreshJob, GitStatusReport)>,
    items: Seq<GitRefreshItem>,
    checkouts: Map<PathView, DirPath>,
    cache: Map<PathView, GitStatusCacheEntry>,
    i: int,
) -> (answer: (int, WorkspaceReply))
    requires
        are_jobs(jobs_of(reported), items, checkouts, cache),
        0 <= i < items.len(),
        items[i].target is Workspace,
    ensures
        ({
            let (j, reply) = answer;
            &&& 0 <= j < reported.len()
            &&& reported[j].0.cache_key@ == item_key(items[i], checkouts)
            &&& replies(reported).contains(reply)
            &&& items[i].target == (GitRefreshTarget::Workspace {
                workspace_id: reply.workspace_id,
                resolved_identity_cwd: reply.resolved_identity_cwd,
            })
            &&& reply.git_status_key == reported[j].0.cache_key
            &&& reply.demand == items[i].demand
            &&& reply.snapshot == reported[j].1.snapshot
        }),
{
    let (j, t) = every_item_is_a_target(jobs_of(reported), items, checkouts, cache, i);
    let (job, report) = reported[j];
    let to_reply = |wish: (GitRefreshTarget, GitStatusRefreshDemand)|
        workspace_reply(wish, job.cache_key, report.snapshot);
    sequences::lemma_filter_map_has(job.targets@, to_reply, t);
    let reply = to_reply(job.targets@[t])->0;
    sequences::lemma_flat_map_has(
        reported,
        |job: (GitRefreshJob, GitStatusReport)| job_replies(job),
        j,
        reply,
    );
    (j, reply)
}

/// A terminal that asked is told the counts of the checkout that was settled for
/// it, with its own demand.
pub proof fn terminal_is_answered(
    reported: Seq<(GitRefreshJob, GitStatusReport)>,
    items: Seq<GitRefreshItem>,
    checkouts: Map<PathView, DirPath>,
    cache: Map<PathView, GitStatusCacheEntry>,
    i: int,
) -> (answer: (int, TerminalGitStatus))
    requires
        are_jobs(jobs_of(reported), items, checkouts, cache),
        0 <= i < items.len(),
        items[i].target is Terminal,
    ensures
        ({
            let (j, reply) = answer;
            &&& 0 <= j < reported.len()
            &&& reported[j].0.cache_key@ == item_key(items[i], checkouts)
            &&& terminal_replies(reported).contains(reply)
            &&& settled(items[i].target, checkouts) == (GitRefreshTarget::Terminal {
                terminal_id: reply.terminal_id,
                cwd: reply.cwd,
                shell_cwd: None,
            })
            &&& reply.demand == items[i].demand
            &&& reply.ahead_behind == reported[j].1.snapshot.ahead_behind
            &&& reply.dirty == reported[j].1.snapshot.dirty
        }),
{
    let (j, t) = every_item_is_a_target(jobs_of(reported), items, checkouts, cache, i);
    let (job, report) = reported[j];
    let to_reply = |wish: (GitRefreshTarget, GitStatusRefreshDemand)|
        terminal_reply(wish, report.snapshot);
    sequences::lemma_filter_map_has(job.targets@, to_reply, t);
    let reply = to_reply(job.targets@[t])->0;
    sequences::lemma_flat_map_has(
        reported,
        |job: (GitRefreshJob, GitStatusReport)| job_terminal_replies(job),
        j,
        reply,
    );
    (j, reply)
}

} // verus!
