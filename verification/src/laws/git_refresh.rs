//! Laws of one refresh of git facts.

use crate::git_refresh;
use crate::git_refresh::{
    answer_targets, deduplicate_git_refresh_items, directories_to_look_up,
    refresh_git_statuses_with_cache, resolve_terminal_checkout, union_demand, GitRefreshItem,
    GitRefreshJob, GitRefreshOutput, GitRefreshTarget, GitStatusReport,
};
use crate::git_status::{
    GitStatusCacheEntry, GitStatusRefreshDemand, WorkspaceGitStatus, WorkspaceGitStatusSnapshot,
};
use crate::path::{DirPath, PathMap, PathView};
use vstd::prelude::*;

verus! {

/// A demand for the facts of two asks for each fact that either asks for.
pub proof fn joined_demand_asks_for_both(
    left: GitStatusRefreshDemand,
    right: GitStatusRefreshDemand,
    both: GitStatusRefreshDemand,
)
    requires
        call_ensures(union_demand, (left, right), both),
    ensures
        both.branch == (left.branch || right.branch),
        both.ahead_behind == (left.ahead_behind || right.ahead_behind),
        both.dirty == (left.dirty || right.dirty),
{
}

/// A target reports on the directory that it names first.
pub proof fn target_reports_on_its_directory(target: GitRefreshTarget, directory: &DirPath)
    requires
        call_ensures(GitRefreshTarget::cwd, (&target,), directory),
    ensures
        match target {
            GitRefreshTarget::Workspace { resolved_identity_cwd, .. } => *directory
                == resolved_identity_cwd,
            GitRefreshTarget::Terminal { cwd, .. } => *directory == cwd,
        },
{
}

/// A workspace stays as it is. A terminal keeps its id and has no second choice any
/// more; it moves to its shell's directory exactly if that lies in a checkout and
/// its own does not.
pub proof fn second_choice_is_for_those_outside_a_checkout(
    target: GitRefreshTarget,
    checkouts: PathMap<DirPath>,
    settled: GitRefreshTarget,
)
    requires
        call_ensures(resolve_terminal_checkout, (target, &checkouts), settled),
    ensures
        target is Workspace ==> settled == target,
        target is Terminal ==> settled is Terminal && settled->terminal_id == target->terminal_id
            && settled->shell_cwd is None,
        target is Terminal && (target->shell_cwd is None || checkouts@.contains_key(
            target->cwd@,
        ) || !checkouts@.contains_key(target->shell_cwd->0@)) ==> settled->cwd == target->cwd,
        target is Terminal && target->shell_cwd is Some && !checkouts@.contains_key(target->cwd@)
            && checkouts@.contains_key(target->shell_cwd->0@) ==> settled->cwd
            == target->shell_cwd->0,
{
}

/// Nothing is looked up for no item, and one item more adds its own directories
/// behind the others: both of a terminal with a second choice, and otherwise the
/// one it reports on, unless it has a hint.
pub proof fn item_adds_its_directories(
    before: Vec<GitRefreshItem>,
    after: Vec<GitRefreshItem>,
    item: GitRefreshItem,
    old_paths: Vec<DirPath>,
    new_paths: Vec<DirPath>,
)
    requires
        call_ensures(directories_to_look_up, (&before,), old_paths),
        call_ensures(directories_to_look_up, (&after,), new_paths),
        after@ == before@.push(item),
    ensures
        before@.len() == 0 ==> old_paths@.len() == 0,
        match item.target {
            GitRefreshTarget::Terminal { cwd, shell_cwd: Some(shell_cwd), .. } => new_paths@
                == old_paths@.push(cwd).push(shell_cwd),
            GitRefreshTarget::Terminal { cwd, .. } => new_paths@ == if item.cache_key_hint is None {
                old_paths@.push(cwd)
            } else {
                old_paths@
            },
            GitRefreshTarget::Workspace { resolved_identity_cwd, .. } => new_paths@
                == if item.cache_key_hint is None {
                old_paths@.push(resolved_identity_cwd)
            } else {
                old_paths@
            },
        },
{
    let to_paths = |item: GitRefreshItem| git_refresh::item_lookups(item);
    before@.lemma_flat_map_push(to_paths, item);
    assert(new_paths@ == old_paths@ + git_refresh::item_lookups(item));
    if before@.len() == 0 {
        assert(before@.flat_map(to_paths) =~= Seq::empty());
    }
    match item.target {
        GitRefreshTarget::Terminal { cwd, shell_cwd: Some(shell_cwd), .. } => {
            assert(new_paths@ =~= old_paths@.push(cwd).push(shell_cwd));
        },
        GitRefreshTarget::Terminal { cwd, .. } => {
            if item.cache_key_hint is None {
                assert(new_paths@ =~= old_paths@.push(cwd));
            } else {
                assert(new_paths@ =~= old_paths@);
            }
        },
        GitRefreshTarget::Workspace { resolved_identity_cwd, .. } => {
            if item.cache_key_hint is None {
                assert(new_paths@ =~= old_paths@.push(resolved_identity_cwd));
            } else {
                assert(new_paths@ =~= old_paths@);
            }
        },
    }
}

/// Whether `key` is the key of an item that reports on `directory`: its hint, or
/// else that of the checkout that the directory lies in, or else the directory
/// itself.
pub open spec fn is_key(
    item: GitRefreshItem,
    directory: DirPath,
    checkouts: Map<PathView, DirPath>,
    key: PathView,
) -> bool {
    match item.cache_key_hint {
        Some(hint) => key == hint@,
        None => if checkouts.contains_key(directory@) {
            key == checkouts[directory@]@
        } else {
            key == directory@
        },
    }
}

/// Without an item there is no job.
pub proof fn no_item_has_no_job(
    items: Vec<GitRefreshItem>,
    checkouts: PathMap<DirPath>,
    cache: PathMap<GitStatusCacheEntry>,
    jobs: Vec<GitRefreshJob>,
)
    requires
        call_ensures(deduplicate_git_refresh_items, (items, &checkouts, &cache), jobs),
        items@.len() == 0,
    ensures
        jobs@.len() == 0,
{
}

/// The two jobs look at the same checkout for the same targets, with the same
/// demand and the same entry.
pub open spec fn same_job(a: GitRefreshJob, b: GitRefreshJob) -> bool {
    &&& a.cache_key@ == b.cache_key@
    &&& a.targets@ == b.targets@
    &&& a.demand == b.demand
    &&& a.cached == b.cached
}

/// One item more, whose key a job already has, joins that job: it becomes the last
/// target, with its directory settled and its own demand; the job asks for what it
/// wants too, and gives up the remembered entry exactly if the item is a workspace
/// without a hint. The other jobs stay as they are.
pub proof fn item_joins_the_job_of_its_checkout(
    before: Vec<GitRefreshItem>,
    after: Vec<GitRefreshItem>,
    item: GitRefreshItem,
    checkouts: PathMap<DirPath>,
    cache: PathMap<GitStatusCacheEntry>,
    target: GitRefreshTarget,
    directory: &DirPath,
    key: PathView,
    old_jobs: Vec<GitRefreshJob>,
    new_jobs: Vec<GitRefreshJob>,
    j: int,
)
    requires
        call_ensures(deduplicate_git_refresh_items, (before, &checkouts, &cache), old_jobs),
        call_ensures(deduplicate_git_refresh_items, (after, &checkouts, &cache), new_jobs),
        after@ == before@.push(item),
        call_ensures(resolve_terminal_checkout, (item.target, &checkouts), target),
        call_ensures(GitRefreshTarget::cwd, (&target,), directory),
        is_key(item, *directory, checkouts@, key),
        0 <= j < old_jobs@.len(),
        old_jobs@[j].cache_key@ == key,
    ensures
        new_jobs@.len() == old_jobs@.len(),
        forall|k: int|
            0 <= k < old_jobs@.len() && k != j ==> same_job(#[trigger] new_jobs@[k], old_jobs@[k]),
        new_jobs@[j].cache_key@ == key,
        new_jobs@[j].targets@ == old_jobs@[j].targets@.push((target, item.demand)),
        new_jobs@[j].demand.branch == (old_jobs@[j].demand.branch || item.demand.branch),
        new_jobs@[j].demand.ahead_behind == (old_jobs@[j].demand.ahead_behind
            || item.demand.ahead_behind),
        new_jobs@[j].demand.dirty == (old_jobs@[j].demand.dirty || item.demand.dirty),
        new_jobs@[j].cached == if item.target is Workspace && item.cache_key_hint is None {
            None
        } else {
            old_jobs@[j].cached
        },
{
    lemma_grown(before@, item, checkouts@, cache@, old_jobs@, new_jobs@);
    let keys = git_refresh::keys_of(before@, checkouts@);
    assert(git_refresh::is_job(old_jobs@[j], keys[j], before@, checkouts@, cache@));
    assert(keys.contains(key));
    git_refresh::lemma_keys_distinct(before@, checkouts@);
    assert forall|k: int| 0 <= k < old_jobs@.len() && k != j implies same_job(
        #[trigger] new_jobs@[k],
        old_jobs@[k],
    ) by {
        assert(git_refresh::is_job(old_jobs@[k], keys[k], before@, checkouts@, cache@));
        assert(keys[k] != keys[j]);
    }
}

/// One item more, whose key no job has yet, gets a job of its own behind the
/// others: with it as the only target, asking for what it wants, and bringing along
/// what is remembered unless it is a workspace without a hint. The other jobs stay
/// as they are.
pub proof fn item_opens_a_job_for_a_new_checkout(
    before: Vec<GitRefreshItem>,
    after: Vec<GitRefreshItem>,
    item: GitRefreshItem,
    checkouts: PathMap<DirPath>,
    cache: PathMap<GitStatusCacheEntry>,
    target: GitRefreshTarget,
    directory: &DirPath,
    key: PathView,
    old_jobs: Vec<GitRefreshJob>,
    new_jobs: Vec<GitRefreshJob>,
)
    requires
        call_ensures(deduplicate_git_refresh_items, (before, &checkouts, &cache), old_jobs),
        call_ensures(deduplicate_git_refresh_items, (after, &checkouts, &cache), new_jobs),
        after@ == before@.push(item),
        call_ensures(resolve_terminal_checkout, (item.target, &checkouts), target),
        call_ensures(GitRefreshTarget::cwd, (&target,), directory),
        is_key(item, *directory, checkouts@, key),
        forall|j: int| 0 <= j < old_jobs@.len() ==> (#[trigger] old_jobs@[j]).cache_key@ != key,
    ensures
        new_jobs@.len() == old_jobs@.len() + 1,
        forall|k: int|
            0 <= k < old_jobs@.len() ==> same_job(#[trigger] new_jobs@[k], old_jobs@[k]),
        ({
            let job = new_jobs@[old_jobs@.len() as int];
            &&& job.cache_key@ == key
            &&& job.targets@ == seq![(target, item.demand)]
            &&& job.demand == item.demand
            &&& job.cached == if (item.target is Workspace && item.cache_key_hint is None)
                || !cache@.contains_key(key) {
                None
            } else {
                Some(cache@[key])
            }
        }),
{
    lemma_grown(before@, item, checkouts@, cache@, old_jobs@, new_jobs@);
    let keys = git_refresh::keys_of(before@, checkouts@);
    assert forall|k: int| 0 <= k < old_jobs@.len() implies keys[k] != key by {
        assert(git_refresh::is_job(old_jobs@[k], keys[k], before@, checkouts@, cache@));
    }
    assert(!keys.contains(key));
    let last = old_jobs@.len() as int;
    assert forall|k: int| 0 <= k < old_jobs@.len() implies same_job(
        #[trigger] new_jobs@[k],
        old_jobs@[k],
    ) by {
        assert(git_refresh::is_job(old_jobs@[k], keys[k], before@, checkouts@, cache@));
        assert(keys[k] != key);
    }
    git_refresh::lemma_unlisted(before@, checkouts@, key);
    git_refresh::lemma_sharing_push(before@, item, checkouts@, key);
    git_refresh::lemma_any_push(Seq::empty(), item);
    assert(git_refresh::is_job(
        new_jobs@[last],
        git_refresh::keys_of(after@, checkouts@)[last],
        after@,
        checkouts@,
        cache@,
    ));
    assert(new_jobs@[last].targets@ =~= seq![(target, item.demand)]);
    assert(git_refresh::joint_demand(Seq::empty()) == crate::git_status::no_demand());
}

/// How the jobs for one item more relate to those before.
proof fn lemma_grown(
    before: Seq<GitRefreshItem>,
    item: GitRefreshItem,
    checkouts: Map<PathView, DirPath>,
    cache: Map<PathView, GitStatusCacheEntry>,
    old_jobs: Seq<GitRefreshJob>,
    new_jobs: Seq<GitRefreshJob>,
)
    requires
        git_refresh::are_jobs(old_jobs, before, checkouts, cache),
        git_refresh::are_jobs(new_jobs, before.push(item), checkouts, cache),
    ensures
        ({
            let keys = git_refresh::keys_of(before, checkouts);
            let key = git_refresh::item_key(item, checkouts);
            &&& git_refresh::keys_of(before.push(item), checkouts) == if keys.contains(key) {
                keys
            } else {
                keys.push(key)
            }
            &&& forall|k: int|
                0 <= k < old_jobs.len() ==> git_refresh::is_job(
                    #[trigger] old_jobs[k],
                    keys[k],
                    before,
                    checkouts,
                    cache,
                )
            &&& forall|k: int|
                0 <= k < old_jobs.len() && keys[k] != key ==> same_job(
                    #[trigger] new_jobs[k],
                    old_jobs[k],
                )
            &&& forall|k: int|
                0 <= k < old_jobs.len() && keys[k] == key ==> {
                    let (new_job, old_job) = (#[trigger] new_jobs[k], old_jobs[k]);
                    &&& new_job.cache_key@ == key
                    &&& new_job.targets@ == old_job.targets@.push(
                        git_refresh::wish(item, checkouts),
                    )
                    &&& new_job.demand == git_refresh::union(old_job.demand, item.demand)
                    &&& new_job.cached == if git_refresh::reconciles(item) {
                        None
                    } else {
                        old_job.cached
                    }
                }
        }),
{
    let keys = git_refresh::keys_of(before, checkouts);
    let key = git_refresh::item_key(item, checkouts);
    let after = before.push(item);
    let new_keys = git_refresh::keys_of(after, checkouts);
    assert(after.drop_last() =~= before);
    assert forall|k: int| 0 <= k < old_jobs.len() implies {
        let (new_job, old_job) = (#[trigger] new_jobs[k], old_jobs[k]);
        &&& keys[k] != key ==> same_job(new_job, old_job)
        &&& keys[k] == key ==> {
            &&& new_job.cache_key@ == key
            &&& new_job.targets@ == old_job.targets@.push(git_refresh::wish(item, checkouts))
            &&& new_job.demand == git_refresh::union(old_job.demand, item.demand)
            &&& new_job.cached == if git_refresh::reconciles(item) {
                None
            } else {
                old_job.cached
            }
        }
    } by {
        assert(new_keys[k] == keys[k]);
        assert(git_refresh::is_job(new_jobs[k], new_keys[k], after, checkouts, cache));
        assert(git_refresh::is_job(old_jobs[k], keys[k], before, checkouts, cache));
        git_refresh::lemma_sharing_push(before, item, checkouts, keys[k]);
        if keys[k] == key {
            let group = git_refresh::sharing(before, checkouts, key);
            git_refresh::lemma_any_push(group, item);
            assert(group.push(item).map_values(
                |item: GitRefreshItem| git_refresh::wish(item, checkouts),
            ) =~= group.map_values(
                |item: GitRefreshItem| git_refresh::wish(item, checkouts),
            ).push(git_refresh::wish(item, checkouts)));
        }
    }
}

/// Every item is answered from the checkout of the directory that it reports on:
/// its job has that key, unless a hint says otherwise, and holds it as a target.
/// So a terminal whose own directory lies in a checkout is answered from there,
/// whatever its shell's directory is.
pub proof fn item_is_answered_from_its_directory(
    items: Vec<GitRefreshItem>,
    checkouts: PathMap<DirPath>,
    cache: PathMap<GitStatusCacheEntry>,
    jobs: Vec<GitRefreshJob>,
    i: int,
) -> (place: (int, int))
    requires
        call_ensures(deduplicate_git_refresh_items, (items, &checkouts, &cache), jobs),
        0 <= i < items@.len(),
    ensures
        0 <= place.0 < jobs@.len(),
        0 <= place.1 < jobs@[place.0].targets@.len(),
        ({
            let key = jobs@[place.0].cache_key@;
            let (target, demand) = jobs@[place.0].targets@[place.1];
            &&& demand == items@[i].demand
            &&& match items@[i].cache_key_hint {
                Some(hint) => key == hint@,
                None => match items@[i].target {
                    GitRefreshTarget::Workspace { resolved_identity_cwd, .. } => is_key(
                        items@[i],
                        resolved_identity_cwd,
                        checkouts@,
                        key,
                    ),
                    GitRefreshTarget::Terminal { cwd, shell_cwd, .. } => {
                        &&& checkouts@.contains_key(cwd@) ==> key == checkouts@[cwd@]@
                        &&& !checkouts@.contains_key(cwd@) && shell_cwd is Some
                            && checkouts@.contains_key(shell_cwd->0@) ==> key
                            == checkouts@[shell_cwd->0@]@
                        &&& !checkouts@.contains_key(cwd@) && (shell_cwd is None
                            || !checkouts@.contains_key(shell_cwd->0@)) ==> key == cwd@
                    },
                },
            }
            &&& match items@[i].target {
                GitRefreshTarget::Workspace { .. } => target == items@[i].target,
                GitRefreshTarget::Terminal { terminal_id, cwd, .. } => {
                    &&& target is Terminal
                    &&& target->terminal_id == terminal_id
                    &&& checkouts@.contains_key(cwd@) ==> target->cwd == cwd
                },
            }
        }),
{
    git_refresh::every_item_is_a_target(jobs@, items@, checkouts@, cache@, i)
}

/// The two tell a workspace the same.
pub open spec fn same_status(a: WorkspaceGitStatus, b: WorkspaceGitStatus) -> bool {
    &&& a.workspace_id == b.workspace_id
    &&& a.resolved_identity_cwd == b.resolved_identity_cwd
    &&& a.git_status_key == b.git_status_key
    &&& a.demand == b.demand
    &&& a.auto_label@ == b.auto_label@
    &&& a.branch == b.branch
    &&& a.ahead_behind == b.ahead_behind
    &&& a.dirty == b.dirty
    &&& a.space == b.space
}

/// `longer` starts with what `shorter` tells.
pub open spec fn continues(
    shorter: Seq<WorkspaceGitStatus>,
    longer: Seq<WorkspaceGitStatus>,
) -> bool {
    &&& shorter.len() <= longer.len()
    &&& forall|i: int| 0 <= i < shorter.len() ==> same_status(#[trigger] longer[i], shorter[i])
}

proof fn lemma_continues(
    shorter: Seq<WorkspaceGitStatus>,
    longer: Seq<WorkspaceGitStatus>,
    owed: Seq<git_refresh::WorkspaceReply>,
    more: Seq<git_refresh::WorkspaceReply>,
)
    requires
        git_refresh::are_results(shorter, owed),
        git_refresh::are_results(longer, more),
        owed.len() <= more.len(),
        forall|i: int| 0 <= i < owed.len() ==> #[trigger] more[i] == owed[i],
    ensures
        continues(shorter, longer),
{
    assert forall|i: int| 0 <= i < shorter.len() implies same_status(
        #[trigger] longer[i],
        shorter[i],
    ) by {
        assert(more[i] == owed[i]);
    }
}

/// Nobody is told anything without a job.
pub proof fn no_job_answers_nobody(
    reported: Vec<(GitRefreshJob, GitStatusReport)>,
    output: GitRefreshOutput,
)
    requires
        call_ensures(answer_targets, (reported,), output),
        reported@.len() == 0,
    ensures
        output.results@.len() == 0,
        output.terminal_results@.len() == 0,
        output.cache_updates@.len() == 0,
{
    assert(git_refresh::replies(reported@) =~= Seq::empty());
    assert(git_refresh::terminal_replies(reported@) =~= Seq::empty());
    assert(git_refresh::updates(reported@) =~= Seq::empty());
}

/// One job more leaves all answers as they are but those to its own targets, and
/// has the cache remember what its report says, behind the rest, under its key.
pub proof fn job_adds_what_to_remember(
    before: Vec<(GitRefreshJob, GitStatusReport)>,
    after: Vec<(GitRefreshJob, GitStatusReport)>,
    job: GitRefreshJob,
    report: GitStatusReport,
    old_output: GitRefreshOutput,
    new_output: GitRefreshOutput,
)
    requires
        call_ensures(answer_targets, (before,), old_output),
        call_ensures(answer_targets, (after,), new_output),
        after@ == before@.push((job, report)),
    ensures
        continues(old_output.results@, new_output.results@),
        old_output.terminal_results@.is_prefix_of(new_output.terminal_results@),
        job.targets@.len() == 0 ==> new_output.results@.len() == old_output.results@.len()
            && new_output.terminal_results@ == old_output.terminal_results@,
        new_output.cache_updates@ == match report.cache_entry {
            Some(entry) => old_output.cache_updates@.push((job.cache_key, entry)),
            None => old_output.cache_updates@,
        },
{
    let pair = (job, report);
    let to_replies = |job: (GitRefreshJob, GitStatusReport)| git_refresh::job_replies(job);
    let to_terminals = |job: (GitRefreshJob, GitStatusReport)| git_refresh::job_terminal_replies(
        job,
    );
    let to_update = |job: (GitRefreshJob, GitStatusReport)| git_refresh::update(job);
    before@.lemma_flat_map_push(to_replies, pair);
    before@.lemma_flat_map_push(to_terminals, pair);
    after@.lemma_filter_map_take_succ(to_update, before@.len() as int);
    assert(after@.take(before@.len() as int) =~= before@);
    assert(after@.take(before@.len() as int + 1) =~= after@);
    lemma_continues(
        old_output.results@,
        new_output.results@,
        git_refresh::replies(before@),
        git_refresh::replies(after@),
    );
    assert(old_output.terminal_results@.is_prefix_of(new_output.terminal_results@));
    if job.targets@.len() == 0 {
        assert(git_refresh::job_replies(pair) =~= Seq::empty());
        assert(git_refresh::job_terminal_replies(pair) =~= Seq::empty());
        assert(new_output.terminal_results@ =~= old_output.terminal_results@);
    }
    assert(new_output.cache_updates@ =~= match report.cache_entry {
        Some(entry) => old_output.cache_updates@.push((job.cache_key, entry)),
        None => old_output.cache_updates@,
    });
}

/// One target more of the last job is told that job's facts, behind everyone else:
/// a workspace under its id and directory, with the job's key and its own demand;
/// a terminal the two counts, at its directory and with its own demand. Nobody
/// else is told anything else, and the cache remembers the same.
pub proof fn target_is_told_the_facts_of_its_job(
    before: Vec<(GitRefreshJob, GitStatusReport)>,
    after: Vec<(GitRefreshJob, GitStatusReport)>,
    rest: Seq<(GitRefreshJob, GitStatusReport)>,
    old_job: GitRefreshJob,
    new_job: GitRefreshJob,
    report: GitStatusReport,
    target: GitRefreshTarget,
    demand: GitStatusRefreshDemand,
    old_output: GitRefreshOutput,
    new_output: GitRefreshOutput,
)
    requires
        call_ensures(answer_targets, (before,), old_output),
        call_ensures(answer_targets, (after,), new_output),
        before@ == rest.push((old_job, report)),
        after@ == rest.push((new_job, report)),
        new_job.cache_key == old_job.cache_key,
        new_job.targets@ == old_job.targets@.push((target, demand)),
    ensures
        continues(old_output.results@, new_output.results@),
        new_output.cache_updates@ == old_output.cache_updates@,
        match target {
            GitRefreshTarget::Workspace { workspace_id, resolved_identity_cwd } => {
                let status = new_output.results@[old_output.results@.len() as int];
                &&& new_output.terminal_results@ == old_output.terminal_results@
                &&& new_output.results@.len() == old_output.results@.len() + 1
                &&& status.workspace_id == workspace_id
                &&& status.resolved_identity_cwd == resolved_identity_cwd
                &&& status.git_status_key == new_job.cache_key
                &&& status.demand == demand
                &&& status.branch == report.snapshot.branch
                &&& status.ahead_behind == report.snapshot.ahead_behind
                &&& status.dirty == report.snapshot.dirty
                &&& status.space == report.snapshot.space
                &&& forall|told: WorkspaceGitStatus| #[trigger]
                    call_ensures(
                        WorkspaceGitStatusSnapshot::into_workspace_status,
                        (
                            report.snapshot,
                            workspace_id,
                            resolved_identity_cwd,
                            new_job.cache_key,
                            demand,
                        ),
                        told,
                    ) ==> same_status(status, told)
            },
            GitRefreshTarget::Terminal { terminal_id, cwd, .. } => {
                let status = new_output.terminal_results@[old_output.terminal_results@.len() as int];
                &&& new_output.results@.len() == old_output.results@.len()
                &&& new_output.terminal_results@ == old_output.terminal_results@.push(status)
                &&& status.terminal_id == terminal_id
                &&& status.cwd == cwd
                &&& status.demand == demand
                &&& status.ahead_behind == report.snapshot.ahead_behind
                &&& status.dirty == report.snapshot.dirty
            },
        },
{
    let old_pair = (old_job, report);
    let new_pair = (new_job, report);
    let to_replies = |job: (GitRefreshJob, GitStatusReport)| git_refresh::job_replies(job);
    let to_terminals = |job: (GitRefreshJob, GitStatusReport)| git_refresh::job_terminal_replies(
        job,
    );
    let to_update = |job: (GitRefreshJob, GitStatusReport)| git_refresh::update(job);
    rest.lemma_flat_map_push(to_replies, old_pair);
    rest.lemma_flat_map_push(to_replies, new_pair);
    rest.lemma_flat_map_push(to_terminals, old_pair);
    rest.lemma_flat_map_push(to_terminals, new_pair);
    let n = rest.len() as int;
    before@.lemma_filter_map_take_succ(to_update, n);
    after@.lemma_filter_map_take_succ(to_update, n);
    assert(before@.take(n) =~= rest);
    assert(after@.take(n) =~= rest);
    assert(before@.take(n + 1) =~= before@);
    assert(after@.take(n + 1) =~= after@);
    assert(new_output.cache_updates@ =~= old_output.cache_updates@);
    let wish = (target, demand);
    let to_reply = |wish: (GitRefreshTarget, GitStatusRefreshDemand)|
        git_refresh::workspace_reply(wish, old_job.cache_key, report.snapshot);
    let to_terminal = |wish: (GitRefreshTarget, GitStatusRefreshDemand)|
        git_refresh::terminal_reply(wish, report.snapshot);
    let wishes = new_job.targets@;
    let m = old_job.targets@.len() as int;
    wishes.lemma_filter_map_take_succ(to_reply, m);
    wishes.lemma_filter_map_take_succ(to_terminal, m);
    assert(wishes.take(m) =~= old_job.targets@);
    assert(wishes.take(m + 1) =~= wishes);
    assert(git_refresh::job_replies(old_pair) == old_job.targets@.filter_map(to_reply));
    assert(git_refresh::job_replies(new_pair) == wishes.filter_map(to_reply));
    assert(git_refresh::job_terminal_replies(old_pair) == old_job.targets@.filter_map(to_terminal));
    assert(git_refresh::job_terminal_replies(new_pair) == wishes.filter_map(to_terminal));
    let owed = git_refresh::replies(before@);
    let more = git_refresh::replies(after@);
    match target {
        GitRefreshTarget::Workspace { .. } => {
            assert(more =~= owed.push(to_reply(wish)->0));
            assert(new_output.terminal_results@ =~= old_output.terminal_results@);
            assert(more[owed.len() as int] == to_reply(wish)->0);
            let status = new_output.results@[owed.len() as int];
            assert(crate::git_status::tells(
                status,
                more[owed.len() as int].snapshot,
                more[owed.len() as int].workspace_id,
                more[owed.len() as int].resolved_identity_cwd,
                more[owed.len() as int].git_status_key,
                more[owed.len() as int].demand,
            ));
        },
        GitRefreshTarget::Terminal { .. } => {
            assert(more =~= owed);
            assert(new_output.terminal_results@ =~= old_output.terminal_results@.push(
                to_terminal(wish)->0,
            ));
        },
    }
    lemma_continues(old_output.results@, new_output.results@, owed, more);
}

/// A refresh asks once about each checkout, handing over the job's key, the entry
/// it brings along and what it asks for, and gives the answers to the targets of
/// the jobs that the items are joined into.
pub proof fn refresh_asks_once_for_each_job<
    G: Fn(&DirPath, Option<&GitStatusCacheEntry>, GitStatusRefreshDemand) -> GitStatusReport,
>(
    items: Vec<GitRefreshItem>,
    checkouts: PathMap<DirPath>,
    cache: PathMap<GitStatusCacheEntry>,
    snapshot_for: G,
    jobs: Vec<GitRefreshJob>,
    output: GitRefreshOutput,
) -> (reported: Seq<(GitRefreshJob, GitStatusReport)>)
    requires
        call_ensures(
            refresh_git_statuses_with_cache::<G>,
            (items, &checkouts, &cache, snapshot_for),
            output,
        ),
        call_ensures(deduplicate_git_refresh_items, (items, &checkouts, &cache), jobs),
    ensures
        reported.len() == jobs@.len(),
        forall|j: int|
            0 <= j < jobs@.len() ==> {
                let (job, report) = #[trigger] reported[j];
                &&& same_job(job, jobs@[j])
                &&& job.cached is None ==> call_ensures(
                    snapshot_for,
                    (&job.cache_key, None, job.demand),
                    report,
                )
                &&& job.cached is Some ==> call_ensures(
                    snapshot_for,
                    (&job.cache_key, Some(&job.cached->0), job.demand),
                    report,
                )
            },
        forall|given: Vec<(GitRefreshJob, GitStatusReport)>, answered: GitRefreshOutput|
            given@ == reported && #[trigger] call_ensures(answer_targets, (given,), answered) ==> {
                &&& output.results@.len() == answered.results@.len()
                &&& continues(answered.results@, output.results@)
                &&& output.terminal_results@ == answered.terminal_results@
                &&& output.cache_updates@ == answered.cache_updates@
            },
{
    let reported = choose|reported: Seq<(GitRefreshJob, GitStatusReport)>|
        {
            &&& #[trigger] git_refresh::are_reports(
                reported,
                items@,
                checkouts@,
                cache@,
                snapshot_for,
            )
            &&& git_refresh::are_results(output.results@, git_refresh::replies(reported))
            &&& output.terminal_results@ == git_refresh::terminal_replies(reported)
            &&& output.cache_updates@ == git_refresh::updates(reported)
        };
    let keys = git_refresh::keys_of(items@, checkouts@);
    assert forall|j: int| 0 <= j < jobs@.len() implies {
        let (job, report) = #[trigger] reported[j];
        &&& same_job(job, jobs@[j])
        &&& job.cached is None ==> call_ensures(
            snapshot_for,
            (&job.cache_key, None, job.demand),
            report,
        )
        &&& job.cached is Some ==> call_ensures(
            snapshot_for,
            (&job.cache_key, Some(&job.cached->0), job.demand),
            report,
        )
    } by {
        assert(git_refresh::jobs_of(reported)[j] == reported[j].0);
        assert(git_refresh::is_job(reported[j].0, keys[j], items@, checkouts@, cache@));
        assert(git_refresh::is_job(jobs@[j], keys[j], items@, checkouts@, cache@));
        assert(git_refresh::is_report(reported[j].0, reported[j].1, snapshot_for));
    }
    assert forall|given: Vec<(GitRefreshJob, GitStatusReport)>, answered: GitRefreshOutput|
        given@ == reported && #[trigger] call_ensures(answer_targets, (given,), answered) implies {
        &&& output.results@.len() == answered.results@.len()
        &&& continues(answered.results@, output.results@)
        &&& output.terminal_results@ == answered.terminal_results@
        &&& output.cache_updates@ == answered.cache_updates@
    } by {
        lemma_continues(
            answered.results@,
            output.results@,
            git_refresh::replies(reported),
            git_refresh::replies(reported),
        );
    }
    reported
}

/// A refresh takes any function that answers every question.
pub proof fn any_answering_function_will_do<
    G: Fn(&DirPath, Option<&GitStatusCacheEntry>, GitStatusRefreshDemand) -> GitStatusReport,
>(
    items: Vec<GitRefreshItem>,
    checkouts: PathMap<DirPath>,
    cache: PathMap<GitStatusCacheEntry>,
    snapshot_for: G,
)
    requires
        forall|
            key: &DirPath,
            cached: Option<&GitStatusCacheEntry>,
            demand: GitStatusRefreshDemand,
        | #[trigger] call_requires(snapshot_for, (key, cached, demand)),
    ensures
        call_requires(
            refresh_git_statuses_with_cache::<G>,
            (items, &checkouts, &cache, snapshot_for),
        ),
{
}

} // verus!
