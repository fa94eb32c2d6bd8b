//! Laws of revision control.

use crate::revision::controller::{
    checkout_outcome, commit_outcome, conflict_paths, create_outcome, log_outcome,
    merge_branches_outcome, parents_from, prepare_outcome, revisions_of, AgentCheckoutView,
};
use crate::revision::error::RevisionErrorView;
use crate::revision::history::{history, lemma_one_more_seen, visited};
use crate::revision::ids::BranchRefView;
use crate::revision::revision::{AgentRevisionView, CommitMessageView};
use crate::revision::spec::AgentSpecView;
use crate::revision::store::{head_of, Repository};
use vstd::prelude::*;

verus! {

/// What is committed to a branch is what the branch is checked out to, and its only parent is what
/// the branch pointed to before.
pub proof fn law_commit_is_checked_out(
    repository: Repository,
    branch: BranchRefView,
    spec: AgentSpecView,
    message: CommitMessageView,
)
    requires
        commit_outcome(repository, branch, spec, message).0 is Ok,
    ensures
        ({
            let (result, after) = commit_outcome(repository, branch, spec, message);
            let revision = result->Ok_0;
            &&& revision.spec == spec
            &&& revision.message == message
            &&& revision.parents == parents_from(head_of(repository, branch))
            &&& checkout_outcome(after, branch) == Ok::<AgentCheckoutView, RevisionErrorView>(
                AgentCheckoutView { branch, revision },
            )
        }),
{
}

/// A commit keeps every revision and leaves every other branch where it is.
pub proof fn law_commit_keeps_the_rest(
    repository: Repository,
    branch: BranchRefView,
    spec: AgentSpecView,
    message: CommitMessageView,
)
    ensures
        ({
            let after = commit_outcome(repository, branch, spec, message).1;
            &&& forall|id: Seq<char>| #[trigger]
                repository.revisions.contains_key(id) ==> after.revisions.contains_key(id)
                    && after.revisions[id] == repository.revisions[id]
            &&& forall|other: BranchRefView|
                other != branch ==> #[trigger] head_of(after, other) == head_of(repository, other)
        }),
{
}

/// A commit, a merge or a new branch that fails changes nothing.
pub proof fn law_failure_changes_nothing(
    repository: Repository,
    source: BranchRefView,
    target: BranchRefView,
    spec: AgentSpecView,
    message: CommitMessageView,
)
    ensures
        commit_outcome(repository, target, spec, message).0 is Err ==> commit_outcome(
            repository,
            target,
            spec,
            message,
        ).1 == repository,
        create_outcome(repository, source, target).0 is Err ==> create_outcome(
            repository,
            source,
            target,
        ).1 == repository,
        merge_branches_outcome(repository, source, target, message).0 is Err
            ==> merge_branches_outcome(repository, source, target, message).1 == repository,
{
}

/// A new branch is checked out to what its source is checked out to.
pub proof fn law_branch_starts_at_its_source(
    repository: Repository,
    source: BranchRefView,
    target: BranchRefView,
)
    requires
        create_outcome(repository, source, target).0 is Ok,
    ensures
        ({
            let (result, after) = create_outcome(repository, source, target);
            &&& head_of(after, target) == head_of(repository, source)
            &&& head_of(after, source) == head_of(repository, source)
            &&& checkout_outcome(after, target) is Ok == checkout_outcome(repository, source) is Ok
            &&& checkout_outcome(after, target) is Ok ==> checkout_outcome(
                after,
                target,
            )->Ok_0.revision
                == checkout_outcome(repository, source)->Ok_0.revision
        }),
{
}

/// A merge with conflicts names them and moves no branch.
pub proof fn law_conflicts_move_no_branch(
    repository: Repository,
    source: BranchRefView,
    target: BranchRefView,
    message: CommitMessageView,
)
    requires
        prepare_outcome(repository, source, target) matches Ok(result)
            && result.conflicts.len() > 0,
    ensures
        merge_branches_outcome(repository, source, target, message) == (
            Err::<AgentRevisionView, RevisionErrorView>(
                RevisionErrorView::MergeConflicts(
                    conflict_paths(prepare_outcome(repository, source, target)->Ok_0.conflicts),
                ),
            ),
            repository,
        ),
{
}

/// A merged revision has two parents, what the target pointed to and what the source points to,
/// and the target is checked out to it.
pub proof fn law_merge_has_two_parents(
    repository: Repository,
    source: BranchRefView,
    target: BranchRefView,
    message: CommitMessageView,
)
    requires
        merge_branches_outcome(repository, source, target, message).0 is Ok,
    ensures
        ({
            let (result, after) = merge_branches_outcome(repository, source, target, message);
            let revision = result->Ok_0;
            &&& revision.parents == seq![
                head_of(repository, target)->Some_0,
                head_of(repository, source)->Some_0,
            ]
            &&& checkout_outcome(after, target) == Ok::<AgentCheckoutView, RevisionErrorView>(
                AgentCheckoutView { branch: target, revision },
            )
            &&& source != target ==> head_of(after, source) == head_of(repository, source)
        }),
{
}

proof fn lemma_visited_shape(
    revisions: Map<Seq<char>, AgentRevisionView>,
    waiting: Seq<Seq<char>>,
    seen: Seq<Seq<char>>,
)
    requires
        revisions.dom().finite(),
        visited(revisions, waiting, seen) is Ok,
        seen.no_duplicates(),
        forall|i: int| 0 <= i < seen.len() ==> revisions.contains_key(#[trigger] seen[i]),
    ensures
        ({
            let order = visited(revisions, waiting, seen)->Ok_0;
            &&& order.len() >= seen.len()
            &&& order.take(seen.len() as int) == seen
            &&& order.no_duplicates()
            &&& forall|i: int| 0 <= i < order.len() ==> revisions.contains_key(#[trigger] order[i])
        }),
    decreases revisions.dom().difference(seen.to_set()).len(), waiting.len(),
{
    if waiting.len() == 0 {
        assert(seen.take(seen.len() as int) =~= seen);
    } else {
        let id = waiting[0];
        if seen.contains(id) {
            lemma_visited_shape(revisions, waiting.drop_first(), seen);
        } else {
            lemma_one_more_seen(revisions, seen, id);
            let more = seen.push(id);
            assert(more.no_duplicates()) by {
                assert forall|i: int, j: int|
                    0 <= i < more.len()
                        && 0 <= j < more.len()
                        && i != j implies more[i] != more[j] by {
                    if i == seen.len() {
                        assert(seen.contains(seen[j]));
                    } else if j == seen.len() {
                        assert(seen.contains(seen[i]));
                    }
                }
            }
            let rest = waiting.drop_first() + revisions[id].parents;
            lemma_visited_shape(revisions, rest, more);
            let order = visited(revisions, rest, more)->Ok_0;
            assert(order.take(seen.len() as int) =~= order.take(more.len() as int).take(
                seen.len() as int,
            ));
            assert(more.take(seen.len() as int) =~= seen);
        }
    }
}

/// The history of a revision begins with it and lists no revision twice.
pub proof fn law_history_begins_with_the_revision(
    revisions: Map<Seq<char>, AgentRevisionView>,
    start: Seq<char>,
)
    requires
        revisions.dom().finite(),
        history(revisions, start) is Ok,
    ensures
        ({
            let order = history(revisions, start)->Ok_0;
            &&& order.len() > 0
            &&& order[0] == start
            &&& order.no_duplicates()
            &&& forall|i: int| 0 <= i < order.len() ==> revisions.contains_key(#[trigger] order[i])
        }),
{
    let none = Seq::<Seq<char>>::empty();
    lemma_visited_shape(revisions, seq![start], none);
    assert(!none.contains(start));
    assert(revisions.contains_key(start));
    let rest = seq![start].drop_first() + revisions[start].parents;
    let first = none.push(start);
    assert(visited(revisions, rest, first) == history(revisions, start));
    lemma_visited_shape(revisions, rest, first);
    let order = history(revisions, start)->Ok_0;
    assert(order.take(1)[0] == first[0]);
}

proof fn lemma_visited_with_one_more(
    revisions: Map<Seq<char>, AgentRevisionView>,
    waiting: Seq<Seq<char>>,
    seen: Seq<Seq<char>>,
    revision: AgentRevisionView,
    id: Seq<char>,
)
    requires
        revisions.dom().finite(),
        visited(revisions, waiting, seen) is Ok,
        !revisions.contains_key(id),
        !seen.contains(id),
    ensures
        visited(revisions.insert(id, revision), waiting, seq![id] + seen) == Ok::<
            Seq<Seq<char>>,
            Seq<char>,
        >(seq![id] + visited(revisions, waiting, seen)->Ok_0),
    decreases revisions.dom().difference(seen.to_set()).len(), waiting.len(),
{
    let after = revisions.insert(id, revision);
    let longer = seq![id] + seen;
    if waiting.len() > 0 {
        let next = waiting[0];
        assert(longer.contains(next) <==> seen.contains(next) || next == id) by {
            assert(longer[0] == id);
            if seen.contains(next) {
                let i = choose|i: int| 0 <= i < seen.len() && seen[i] == next;
                assert(longer[i + 1] == next);
            }
            if longer.contains(next) && next != id {
                let i = choose|i: int| 0 <= i < longer.len() && longer[i] == next;
                assert(seen[i - 1] == next);
            }
        }
        if seen.contains(next) {
            lemma_visited_with_one_more(revisions, waiting.drop_first(), seen, revision, id);
        } else {
            assert(next != id);
            lemma_one_more_seen(revisions, seen, next);
            let rest = waiting.drop_first() + revisions[next].parents;
            let more = seen.push(next);
            assert(!more.contains(id)) by {
                if more.contains(id) {
                    let i = choose|i: int| 0 <= i < more.len() && more[i] == id;
                    assert(seen[i] == id);
                }
            }
            lemma_visited_with_one_more(revisions, rest, more, revision, id);
            assert(longer.push(next) =~= seq![id] + more);
            assert(after[next] == revisions[next]);
        }
    }
}

/// The log of a branch after a commit is the new revision and then the log from before.
pub proof fn law_log_is_newest_first(
    repository: Repository,
    branch: BranchRefView,
    spec: AgentSpecView,
    message: CommitMessageView,
)
    requires
        repository.revisions.dom().finite(),
        commit_outcome(repository, branch, spec, message).0 matches Ok(revision)
            && !repository.revisions.contains_key(revision.revision_id),
        head_of(repository, branch) is Some ==> log_outcome(repository, branch) is Ok,
    ensures
        ({
            let (result, after) = commit_outcome(repository, branch, spec, message);
            let before = if head_of(repository, branch) is Some {
                log_outcome(repository, branch)->Ok_0
            } else {
                Seq::empty()
            };
            log_outcome(after, branch) == Ok::<Seq<AgentRevisionView>, RevisionErrorView>(
                seq![result->Ok_0] + before,
            )
        }),
{
    let (result, after) = commit_outcome(repository, branch, spec, message);
    let revision = result->Ok_0;
    let id = revision.revision_id;
    let known = repository.revisions;
    let grown = after.revisions;
    assert(grown == known.insert(id, revision));
    let none = Seq::<Seq<char>>::empty();
    assert(!none.contains(id));
    assert(grown[id] == revision);
    assert(seq![id].drop_first() + revision.parents =~= revision.parents);
    assert(none.push(id) =~= seq![id]);
    assert(history(grown, id) == visited(grown, revision.parents, seq![id]));
    match head_of(repository, branch) {
        None => {
            assert(revision.parents.len() == 0);
            assert(history(grown, id) == Ok::<Seq<Seq<char>>, Seq<char>>(seq![id]));
            assert(revisions_of(grown, seq![id]) =~= seq![revision] + Seq::empty());
        },
        Some(head) => {
            assert(revision.parents == seq![head]);
            lemma_visited_with_one_more(known, seq![head], none, revision, id);
            assert(seq![id] + none =~= seq![id]);
            let order = history(known, head)->Ok_0;
            law_history_begins_with_the_revision(known, head);
            assert(history(grown, id) == Ok::<Seq<Seq<char>>, Seq<char>>(seq![id] + order));
            assert(revisions_of(grown, seq![id] + order) =~= seq![revision] + revisions_of(known, order)) by {
                assert forall|i: int| 0 <= i < order.len() implies grown[#[trigger] order[i]]
                    == known[order[i]] by {
                    assert(known.contains_key(order[i]));
                }
            }
        },
    }
}

} // verus!
