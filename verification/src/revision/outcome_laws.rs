//! What the operations of revision control do to a repository, and when they fail.

use crate::revision::controller::{
    checkout_outcome, commit_merge_outcome, commit_outcome, create_outcome, log_outcome,
    merge_branches_outcome, no_metadata, parents_outcome, prepare_outcome, AgentCheckoutView,
};
use crate::revision::error::RevisionErrorView;
use crate::revision::history::{
    distance, history, is_ancestor, is_distance, is_nearest, is_path, lemma_one_more_seen,
    merge_base, reached, visited,
};
use crate::revision::ids::{branch_text, BranchRefView};
use crate::revision::merge::{merge_outcome, MergeResultView};
use crate::revision::revision::{
    law_parents_are_distinct, parents_checked, revision_made, AgentRevisionView, CommitMessageView,
    RevisionMetadataView,
};
use crate::revision::spec::{spec_checked, AgentSpecView};
use crate::revision::store::Repository;
use crate::text::{is_blank, text_less};
use vstd::prelude::*;

verus! {

/// A repository in which a new revision was kept and a branch points to it. Everything else is as
/// before.
pub open spec fn gains(
    before: Repository,
    branch: BranchRefView,
    revision: AgentRevisionView,
    after: Repository,
) -> bool {
    &&& after.revisions == before.revisions.insert(revision.revision_id, revision)
    &&& after.heads == before.heads.insert(branch, revision.revision_id)
    &&& before.revisions.contains_key(revision.revision_id)
        ==> before.revisions[revision.revision_id] == revision
}

/// A revision holds this, and says neither who made it nor when.
pub open spec fn is_made_of(
    revision: AgentRevisionView,
    spec: AgentSpecView,
    parents: Seq<Seq<char>>,
    message: CommitMessageView,
) -> bool {
    &&& revision.spec == spec
    &&& revision.agent_id == spec.agent_id
    &&& revision.parents == parents
    &&& revision.message == message
    &&& revision.metadata == (RevisionMetadataView { author: None, created_at: None })
}

/// Another revision has the name of the one that would hold this.
pub open spec fn is_taken(
    repository: Repository,
    spec: AgentSpecView,
    parents: Seq<Seq<char>>,
    message: CommitMessageView,
) -> bool {
    exists|revision: AgentRevisionView| #[trigger]
        is_made_of(revision, spec, parents, message) && repository.revisions.contains_key(
            revision.revision_id,
        ) && repository.revisions[revision.revision_id] != revision
}

/// A commit keeps a revision of the specification with the message, whose parent is what the branch
/// pointed to, and lets the branch point to it. It succeeds where the specification is valid and of
/// the branch's agent, the parent has a name, and no other revision has the name of the new one.
pub proof fn law_commit_makes_the_next_revision(
    repository: Repository,
    branch: BranchRefView,
    spec: AgentSpecView,
    message: CommitMessageView,
)
    ensures
        ({
            let (result, after) = commit_outcome(repository, branch, spec, message);
            let parents = if repository.heads.contains_key(branch) {
                seq![repository.heads[branch]]
            } else {
                seq![]
            };
            let fits = branch.agent_id == spec.agent_id && spec_checked(spec) is Ok && (
            repository.heads.contains_key(branch) ==> !is_blank(repository.heads[branch]));
            &&& result matches Ok(revision) ==> fits && is_made_of(revision, spec, parents, message)
                && gains(repository, branch, revision, after)
            &&& result is Err ==> after == repository && (!fits || is_taken(
                repository,
                spec,
                parents,
                message,
            ))
        }),
{
    let head = crate::revision::store::head_of(repository, branch);
    let parents = crate::revision::controller::parents_from(head);
    law_parents_are_distinct(parents);
    if head is Some {
        assert(parents == seq![repository.heads[branch]]);
        assert(parents[0] == repository.heads[branch]);
        assert(parents.no_duplicates());
    }
    if branch.agent_id == spec.agent_id && spec_checked(spec) is Ok {
        assert(parents_checked(parents) is Ok || is_blank(parents[0]));
        assert(is_made_of(
            revision_made(spec, parents, message, no_metadata()),
            spec,
            parents,
            message,
        ));
    }
}

/// A new branch points to what its source points to, and nothing else changes. It is made where both
/// are of one agent, the source is there and the branch is not.
pub proof fn law_new_branch_points_to_the_source(
    repository: Repository,
    source: BranchRefView,
    target: BranchRefView,
)
    ensures
        ({
            let (result, after) = create_outcome(repository, source, target);
            let heads = repository.heads;
            &&& result is Ok <==> source.agent_id == target.agent_id && heads.contains_key(source)
                && !heads.contains_key(target)
            &&& result matches Ok(id) ==> id == heads[source] && after.revisions
                == repository.revisions && after.heads == heads.insert(target, heads[source])
            &&& result matches Err(error) ==> after == repository && {
                ||| source.agent_id != target.agent_id && error is InvalidBranch
                ||| source.agent_id == target.agent_id && !heads.contains_key(source) && error
                    == RevisionErrorView::BranchNotFound(branch_text(source))
                ||| source.agent_id == target.agent_id && heads.contains_key(source)
                    && heads.contains_key(target) && error
                    == RevisionErrorView::BranchAlreadyExists(branch_text(target))
            }
        }),
{
}

/// A checkout gives the revision that the branch points to. It fails where there is no such branch
/// or no such revision, which it names.
pub proof fn law_checkout_gives_what_the_branch_points_to(
    repository: Repository,
    branch: BranchRefView,
)
    ensures
        ({
            let id = repository.heads[branch];
            checkout_outcome(repository, branch) == if !repository.heads.contains_key(branch) {
                Err::<AgentCheckoutView, RevisionErrorView>(
                    RevisionErrorView::BranchNotFound(branch_text(branch)),
                )
            } else if !repository.revisions.contains_key(id) {
                Err(RevisionErrorView::RevisionNotFound(id))
            } else {
                Ok(AgentCheckoutView { branch, revision: repository.revisions[id] })
            }
        }),
{
}

/// A merge is of the specification that the target points to, which is ours, and the one that the
/// source points to, which is theirs, and starts from the one of their nearest common ancestor.
pub proof fn law_merge_is_of_what_the_branches_point_to(
    repository: Repository,
    source: BranchRefView,
    target: BranchRefView,
)
    ensures
        ({
            let theirs = repository.heads[source];
            let ours = repository.heads[target];
            let known = repository.revisions;
            let there = source.agent_id == target.agent_id && repository.heads.contains_key(source)
                && repository.heads.contains_key(target);
            let traced = history(known, ours) is Ok && history(known, theirs) is Ok;
            let base = merge_base(known, ours, theirs);
            let complete = base is Some && known.contains_key(ours) && known.contains_key(theirs)
                && known.contains_key(base->Some_0);
            &&& prepare_outcome(repository, source, target) is Ok ==> there && ours != theirs
                && traced && complete
            &&& there && ours != theirs && traced && complete ==> prepare_outcome(
                repository,
                source,
                target,
            ) == merge_outcome(
                base->Some_0,
                ours,
                theirs,
                known[base->Some_0].spec,
                known[ours].spec,
                known[theirs].spec,
            )
            &&& there && ours == theirs ==> prepare_outcome(repository, source, target) == Err::<
                MergeResultView,
                RevisionErrorView,
            >(RevisionErrorView::NothingToMerge(branch_text(source)))
        }),
{
}

/// The commit of a merge keeps a revision of the specification whose parents are what the target
/// pointed to and the revision that was merged, in this order, and lets the target point to it.
pub proof fn law_merge_commit_has_both_parents(
    repository: Repository,
    target: BranchRefView,
    source_revision: Seq<char>,
    spec: AgentSpecView,
    message: CommitMessageView,
)
    ensures
        ({
            let (result, after) = commit_merge_outcome(
                repository,
                target,
                source_revision,
                spec,
                message,
            );
            let head = repository.heads[target];
            let fits = {
                &&& repository.heads.contains_key(target)
                &&& spec.agent_id == target.agent_id
                &&& repository.revisions.contains_key(source_revision)
                &&& repository.revisions[source_revision].agent_id == target.agent_id
                &&& spec_checked(spec) is Ok
                &&& head != source_revision
                &&& !is_blank(head)
                &&& !is_blank(source_revision)
            };
            &&& result matches Ok(revision) ==> fits && is_made_of(
                revision,
                spec,
                seq![head, source_revision],
                message,
            ) && gains(repository, target, revision, after)
            &&& result is Err ==> after == repository && (!fits || is_taken(
                repository,
                spec,
                seq![head, source_revision],
                message,
            ))
        }),
{
    let head = repository.heads[target];
    let parents = seq![head, source_revision];
    law_parents_are_distinct(parents);
    assert(parents[0] == head && parents[1] == source_revision);
    if head != source_revision {
        assert(parents.no_duplicates());
    }
    assert(is_made_of(
        revision_made(spec, parents, message, no_metadata()),
        spec,
        parents,
        message,
    ));
}

/// A merge of one branch into another commits what the merge of both gives, and where that has
/// conflicts it tells their places and changes nothing.
pub proof fn law_merge_commits_what_it_prepared(
    repository: Repository,
    source: BranchRefView,
    target: BranchRefView,
    message: CommitMessageView,
)
    ensures
        ({
            let (result, after) = merge_branches_outcome(repository, source, target, message);
            match prepare_outcome(repository, source, target) {
                Err(error) => result == Err::<AgentRevisionView, RevisionErrorView>(error) && after
                    == repository,
                Ok(prepared) => if prepared.spec is None {
                    &&& after == repository
                    &&& result is Err && result->Err_0 is MergeConflicts
                    &&& result->Err_0->MergeConflicts_0.len() == prepared.conflicts.len()
                    &&& forall|i: int|
                        0 <= i < prepared.conflicts.len() ==> (
                        #[trigger] result->Err_0->MergeConflicts_0[i])
                            == prepared.conflicts[i].path
                } else {
                    (result, after) == commit_merge_outcome(
                        repository,
                        target,
                        repository.heads[source],
                        prepared.spec->Some_0,
                        message,
                    )
                },
            }
        }),
{
}

/// The parents of a revision are given in their order, where all are there.
pub proof fn law_parents_are_given_in_order(repository: Repository, ids: Seq<Seq<char>>)
    ensures
        match parents_outcome(repository, ids) {
            Ok(parents) => parents.len() == ids.len() && forall|i: int|
                0 <= i < ids.len() ==> repository.revisions.contains_key(#[trigger] ids[i])
                    && parents[i] == repository.revisions[ids[i]],
            Err(error) => exists|i: int|
                0 <= i < ids.len() && !repository.revisions.contains_key(#[trigger] ids[i]) && error
                    == RevisionErrorView::RevisionNotFound(ids[i]) && forall|j: int|
                    0 <= j < i ==> repository.revisions.contains_key(#[trigger] ids[j]),
        },
    decreases ids.len(),
{
    if ids.len() > 0 {
        let init = ids.drop_last();
        law_parents_are_given_in_order(repository, init);
        assert forall|i: int| 0 <= i < init.len() implies init[i] == ids[i] by {}
        match parents_outcome(repository, init) {
            Ok(done) => {
                let n = ids.len() - 1;
                assert forall|j: int| 0 <= j < n implies repository.revisions.contains_key(
                    #[trigger] ids[j],
                ) by {
                    assert(repository.revisions.contains_key(init[j]));
                }
                if !repository.revisions.contains_key(ids[n]) {
                    assert(ids.last() == ids[n]);
                } else {
                    let parents = done.push(repository.revisions[ids[n]]);
                    assert(parents_outcome(repository, ids) == Ok::<
                        Seq<AgentRevisionView>,
                        RevisionErrorView,
                    >(parents));
                    assert forall|i: int| 0 <= i < ids.len() implies
                        repository.revisions.contains_key(#[trigger] ids[i]) && parents[i]
                        == repository.revisions[ids[i]] by {
                        if i < n {
                            assert(repository.revisions.contains_key(init[i]));
                        }
                    }
                }
            },
            Err(error) => {
                let i = choose|i: int|
                    0 <= i < init.len() && !repository.revisions.contains_key(#[trigger] init[i])
                        && error == RevisionErrorView::RevisionNotFound(init[i]) && forall|j: int|
                        0 <= j < i ==> repository.revisions.contains_key(#[trigger] init[j]);
                assert(!repository.revisions.contains_key(ids[i]));
                assert forall|j: int| 0 <= j < i implies repository.revisions.contains_key(
                    #[trigger] ids[j],
                ) by {
                    assert(repository.revisions.contains_key(init[j]));
                }
            },
        }
    }
}

/// Everything that waits or was seen is an ancestor.
spec fn all_ancestors(
    revisions: Map<Seq<char>, AgentRevisionView>,
    start: Seq<char>,
    ids: Seq<Seq<char>>,
) -> bool {
    forall|i: int| 0 <= i < ids.len() ==> is_ancestor(revisions, start, #[trigger] ids[i])
}

/// The parents of everything that was seen were seen or wait.
spec fn leaves_nothing_out(
    revisions: Map<Seq<char>, AgentRevisionView>,
    waiting: Seq<Seq<char>>,
    seen: Seq<Seq<char>>,
) -> bool {
    forall|id: Seq<char>, parent: Seq<char>|
        #![trigger seen.contains(id), revisions[id].parents.contains(parent)]
        seen.contains(id) && revisions[id].parents.contains(parent) ==> seen.contains(parent)
            || waiting.contains(parent)
}

proof fn lemma_parent_is_ancestor(
    revisions: Map<Seq<char>, AgentRevisionView>,
    start: Seq<char>,
    id: Seq<char>,
    parent: Seq<char>,
)
    requires
        is_ancestor(revisions, start, id),
        revisions.contains_key(id),
        revisions[id].parents.contains(parent),
    ensures
        is_ancestor(revisions, start, parent),
{
    let steps = choose|steps: nat| reached(revisions, start, id, steps);
    let path = choose|path: Seq<Seq<char>>| #[trigger]
        is_path(revisions, path, start, id) && path.len() == steps + 1;
    let longer = path.push(parent);
    assert forall|i: int| 0 <= i < longer.len() - 1 implies revisions.contains_key(
        #[trigger] longer[i],
    ) && revisions[longer[i]].parents.contains(longer[i + 1]) by {
        assert(longer[i] == path[i]);
        if i < path.len() - 1 {
            assert(longer[i + 1] == path[i + 1]);
        } else {
            assert(path[i] == id);
        }
    }
    assert(is_path(revisions, longer, start, parent));
    assert(reached(revisions, start, parent, (steps + 1) as nat));
}

proof fn lemma_visited_ancestors(
    revisions: Map<Seq<char>, AgentRevisionView>,
    start: Seq<char>,
    waiting: Seq<Seq<char>>,
    seen: Seq<Seq<char>>,
)
    requires
        revisions.dom().finite(),
        all_ancestors(revisions, start, waiting),
        all_ancestors(revisions, start, seen),
        leaves_nothing_out(revisions, waiting, seen),
        forall|id: Seq<char>| #[trigger] seen.contains(id) ==> revisions.contains_key(id),
    ensures
        match visited(revisions, waiting, seen) {
            Ok(order) => {
                &&& all_ancestors(revisions, start, order)
                &&& leaves_nothing_out(revisions, Seq::empty(), order)
                &&& forall|id: Seq<char>| #[trigger]
                    order.contains(id) ==> revisions.contains_key(id)
                &&& forall|id: Seq<char>|
                    seen.contains(id) || waiting.contains(id) ==> #[trigger] order.contains(id)
            },
            Err(id) => is_ancestor(revisions, start, id) && !revisions.contains_key(id),
        },
    decreases revisions.dom().difference(seen.to_set()).len(), waiting.len(),
{
    if waiting.len() > 0 {
        let id = waiting[0];
        let rest = waiting.drop_first();
        assert(waiting.contains(id));
        assert forall|other: Seq<char>| #[trigger] waiting.contains(other) implies other == id
            || rest.contains(other) by {
            let i = choose|i: int| 0 <= i < waiting.len() && waiting[i] == other;
            if i > 0 {
                assert(rest[i - 1] == other);
            }
        }
        assert forall|i: int| 0 <= i < rest.len() implies is_ancestor(
            revisions,
            start,
            #[trigger] rest[i],
        ) by {
            assert(rest[i] == waiting[i + 1]);
        }
        assert(is_ancestor(revisions, start, waiting[0]));
        if seen.contains(id) {
            lemma_visited_ancestors(revisions, start, rest, seen);
        } else if revisions.contains_key(id) {
            lemma_one_more_seen(revisions, seen, id);
            let more = seen.push(id);
            let next = rest + revisions[id].parents;
            assert forall|other: Seq<char>| #[trigger] more.contains(other) <==> seen.contains(
                other,
            ) || other == id by {
                if seen.contains(other) {
                    let i = choose|i: int| 0 <= i < seen.len() && seen[i] == other;
                    assert(more[i] == other);
                }
                if other == id {
                    assert(more[seen.len() as int] == id);
                }
                if more.contains(other) {
                    let i = choose|i: int| 0 <= i < more.len() && more[i] == other;
                    if i < seen.len() {
                        assert(seen[i] == other);
                    }
                }
            }
            assert forall|other: Seq<char>| rest.contains(other) || revisions[id].parents.contains(
                other,
            ) implies #[trigger] next.contains(other) by {
                if rest.contains(other) {
                    let i = choose|i: int| 0 <= i < rest.len() && rest[i] == other;
                    assert(next[i] == other);
                } else {
                    let i = choose|i: int|
                        0 <= i < revisions[id].parents.len() && revisions[id].parents[i] == other;
                    assert(next[rest.len() + i] == other);
                }
            }
            assert forall|i: int| 0 <= i < next.len() implies is_ancestor(
                revisions,
                start,
                #[trigger] next[i],
            ) by {
                if i >= rest.len() {
                    assert(revisions[id].parents.contains(
                        revisions[id].parents[i - rest.len()],
                    ));
                    lemma_parent_is_ancestor(revisions, start, id, next[i]);
                }
            }
            assert forall|a: Seq<char>, parent: Seq<char>|
                #![trigger more.contains(a), revisions[a].parents.contains(parent)]
                more.contains(a) && revisions[a].parents.contains(parent) implies more.contains(
                parent,
            ) || next.contains(parent) by {
                if a != id {
                    assert(seen.contains(a));
                    assert(seen.contains(parent) || waiting.contains(parent));
                }
            }
            lemma_visited_ancestors(revisions, start, next, more);
            if visited(revisions, waiting, seen) is Ok {
                let order = visited(revisions, waiting, seen)->Ok_0;
                assert forall|other: Seq<char>|
                    seen.contains(other) || waiting.contains(other) implies #[trigger]
                    order.contains(other) by {
                    assert(more.contains(other) || next.contains(other));
                }
            }
        }
    }
}

/// Where every parent is among some revisions, so is every ancestor of one of them.
proof fn lemma_closed(
    revisions: Map<Seq<char>, AgentRevisionView>,
    order: Seq<Seq<char>>,
    path: Seq<Seq<char>>,
    start: Seq<char>,
    id: Seq<char>,
)
    requires
        leaves_nothing_out(revisions, Seq::empty(), order),
        order.contains(start),
        is_path(revisions, path, start, id),
    ensures
        order.contains(id),
    decreases path.len(),
{
    if path.len() > 1 {
        let init = path.drop_last();
        let before = init.last();
        assert forall|i: int| 0 <= i < init.len() - 1 implies revisions.contains_key(
            #[trigger] init[i],
        ) && revisions[init[i]].parents.contains(init[i + 1]) by {
            assert(init[i] == path[i] && init[i + 1] == path[i + 1]);
        }
        assert(is_path(revisions, init, start, before));
        lemma_closed(revisions, order, init, start, before);
        let n = path.len() - 2;
        assert(path[n] == before);
        assert(revisions[path[n]].parents.contains(path[n + 1]));
        assert(!Seq::<Seq<char>>::empty().contains(id));
    }
}

/// The log of a branch lists what the branch points to and every ancestor of it, and nothing else. It
/// fails where the branch is missing, or one of these revisions, which it names.
pub proof fn law_log_lists_the_ancestors(repository: Repository, branch: BranchRefView)
    requires
        repository.revisions.dom().finite(),
    ensures
        match log_outcome(repository, branch) {
            Ok(log) => {
                let start = repository.heads[branch];
                &&& repository.heads.contains_key(branch)
                &&& exists|order: Seq<Seq<char>>|
                    {
                        &&& #[trigger] order.len() == log.len()
                        &&& forall|id: Seq<char>|
                            #![trigger order.contains(id)]
                            order.contains(id) <==> is_ancestor(repository.revisions, start, id)
                        &&& forall|i: int|
                            0 <= i < order.len() ==> repository.revisions.contains_key(
                                #[trigger] order[i],
                            ) && log[i] == repository.revisions[order[i]]
                    }
            },
            Err(error) => if !repository.heads.contains_key(branch) {
                error == RevisionErrorView::BranchNotFound(branch_text(branch))
            } else {
                error is RevisionNotFound && is_ancestor(
                    repository.revisions,
                    repository.heads[branch],
                    error->RevisionNotFound_0,
                ) && !repository.revisions.contains_key(error->RevisionNotFound_0)
            },
        },
{
    if repository.heads.contains_key(branch) {
        let start = repository.heads[branch];
        let revisions = repository.revisions;
        let none = Seq::<Seq<char>>::empty();
        let first = seq![start];
        assert(is_path(revisions, first, start, start));
        assert(reached(revisions, start, start, 0));
        assert(is_ancestor(revisions, start, start));
        assert(first[0] == start);
        lemma_visited_ancestors(revisions, start, first, none);
        if history(revisions, start) is Ok {
            let order = history(revisions, start)->Ok_0;
            assert(first.contains(start));
            assert(order.contains(start));
            assert forall|id: Seq<char>|
                #![trigger order.contains(id)]
                order.contains(id) <==> is_ancestor(revisions, start, id) by {
                if is_ancestor(revisions, start, id) {
                    let steps = choose|steps: nat| reached(revisions, start, id, steps);
                    let path = choose|path: Seq<Seq<char>>| #[trigger]
                        is_path(revisions, path, start, id) && path.len() == steps + 1;
                    lemma_closed(revisions, order, path, start, id);
                }
                if order.contains(id) {
                    let i = choose|i: int| 0 <= i < order.len() && order[i] == id;
                    assert(is_ancestor(revisions, start, order[i]));
                }
            }
            let log = log_outcome(repository, branch)->Ok_0;
            assert forall|i: int| 0 <= i < order.len() implies revisions.contains_key(
                #[trigger] order[i],
            ) && log[i] == revisions[order[i]] by {
                assert(order.contains(order[i]));
            }
            assert(order.len() == log.len());
        }
    }
}

/// A merge starts from a common ancestor than which no other is nearer to both together; of those
/// that are as near, its name comes first.
pub proof fn law_merge_starts_from_the_nearest_ancestor(
    revisions: Map<Seq<char>, AgentRevisionView>,
    ours: Seq<char>,
    theirs: Seq<char>,
    base: Seq<char>,
    other: Seq<char>,
    m: nat,
    n: nat,
    k: nat,
    l: nat,
)
    requires
        merge_base(revisions, ours, theirs) == Some(base),
        is_distance(revisions, ours, base, m),
        is_distance(revisions, theirs, base, n),
        is_distance(revisions, ours, other, k),
        is_distance(revisions, theirs, other, l),
        other != base,
    ensures
        m + n < k + l || m + n == k + l && text_less(base, other),
{
    lemma_distance(revisions, ours, base, m);
    lemma_distance(revisions, theirs, base, n);
    lemma_distance(revisions, ours, other, k);
    lemma_distance(revisions, theirs, other, l);
    assert(is_nearest(revisions, ours, theirs, base));
    assert(is_ancestor(revisions, ours, other) && is_ancestor(revisions, theirs, other));
}

proof fn lemma_distance(
    revisions: Map<Seq<char>, AgentRevisionView>,
    start: Seq<char>,
    id: Seq<char>,
    steps: nat,
)
    requires
        is_distance(revisions, start, id, steps),
    ensures
        distance(revisions, start, id) == steps,
        is_ancestor(revisions, start, id),
{
    let found = distance(revisions, start, id);
    assert(is_distance(revisions, start, id, found));
    if found < steps {
        assert(!reached(revisions, start, id, found));
    }
    if steps < found {
        assert(!reached(revisions, start, id, steps));
    }
    assert(reached(revisions, start, id, steps));
}

/// What a merge starts from is an ancestor of both revisions.
pub proof fn law_merge_starts_from_a_common_ancestor(
    revisions: Map<Seq<char>, AgentRevisionView>,
    ours: Seq<char>,
    theirs: Seq<char>,
)
    ensures
        merge_base(revisions, ours, theirs) matches Some(base) ==> is_ancestor(
            revisions,
            ours,
            base,
        ) && is_ancestor(revisions, theirs, base),
{
    if merge_base(revisions, ours, theirs) is Some {
        let base = merge_base(revisions, ours, theirs)->Some_0;
        assert(is_nearest(revisions, ours, theirs, base));
    }
}

} // verus!
