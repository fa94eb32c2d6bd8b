//! What an operation that succeeded or failed asked of the store, whatever the store is.

use crate::revision::controller::{
    branch_created, committed, head_told, merge_committed, merged, merge_made,
};
use crate::revision::error::RevisionErrorView;
use crate::revision::ids::{branch_text, BranchRefView};
use crate::revision::merge::MergeResultView;
use crate::revision::outcome_laws::is_made_of;
use crate::revision::revision::{
    revision_outcome, AgentRevisionView, CommitMessageView, RevisionMetadataView,
};
use crate::revision::spec::AgentSpecView;
use crate::revision::store::RevisionStore;
use vstd::prelude::*;

verus! {

/// A revision was kept, and the branch that pointed to a head was moved to it.
pub open spec fn is_stored<S: RevisionStore>(
    before: S,
    after: S,
    branch: BranchRefView,
    head: Option<Seq<char>>,
    revision: AgentRevisionView,
) -> bool {
    exists|middle: S| #[trigger]
        before.keeps(revision, middle, Ok(())) && middle.moves(
            branch,
            head,
            revision.revision_id,
            after,
            Ok(true),
        )
}

/// A commit that succeeded asked what the branch pointed to, kept a revision of the specification
/// with that as its parent, and moved the branch from there to it. What it gives back is what it kept.
pub proof fn law_committed_revision_was_stored<S: RevisionStore>(
    before: S,
    after: S,
    branch: BranchRefView,
    spec: AgentSpecView,
    message: CommitMessageView,
    revision: AgentRevisionView,
)
    requires
        committed(before, after, branch, spec, message, Ok(revision)),
    ensures
        exists|head: Option<Seq<char>>| #[trigger]
            before.tells(branch, Ok(head)) && is_made_of(
                revision,
                spec,
                if head is Some {
                    seq![head->Some_0]
                } else {
                    seq![]
                },
                message,
            ) && is_stored(before, after, branch, head, revision),
        branch.agent_id == spec.agent_id,
{
    let head = choose|head: Option<Seq<char>>| #[trigger]
        before.tells(branch, Ok(head)) && crate::revision::controller::updated(
            before,
            after,
            branch,
            head,
            crate::revision::controller::commit_prepared(branch, spec, head, message),
            Ok(revision),
        );
    assert(is_stored(before, after, branch, head, revision));
}

/// A branch that was made points to what its source pointed to: the store told that, said that there
/// was no such branch, and moved it from nothing to there.
pub proof fn law_made_branch_was_stored<S: RevisionStore>(
    before: S,
    after: S,
    source: BranchRefView,
    target: BranchRefView,
    id: Seq<char>,
)
    requires
        branch_created(before, after, source, target, Ok(id)),
    ensures
        source.agent_id == target.agent_id,
        before.tells(source, Ok(Some(id))),
        before.tells(target, Ok(None)),
        before.moves(target, None, id, after, Ok(true)),
{
    assert(head_told(before, source, Ok(id)));
}

/// The commit of a merge that succeeded kept a revision of the specification whose parents are what
/// the target pointed to and the revision that was merged, and moved the target to it.
pub proof fn law_committed_merge_was_stored<S: RevisionStore>(
    before: S,
    after: S,
    target: BranchRefView,
    source_revision: Seq<char>,
    spec: AgentSpecView,
    message: CommitMessageView,
    revision: AgentRevisionView,
)
    requires
        merge_committed(before, after, target, source_revision, spec, message, Ok(revision)),
    ensures
        spec.agent_id == target.agent_id,
        exists|head: Seq<char>|
            #![trigger before.tells(target, Ok(Some(head)))]
            before.tells(target, Ok(Some(head))) && is_made_of(
                revision,
                spec,
                seq![head, source_revision],
                message,
            ) && is_stored(before, after, target, Some(head), revision),
{
    let head = choose|head: Seq<char>| #[trigger]
        head_told(before, target, Ok(head)) && if spec.agent_id != target.agent_id {
            false
        } else {
            crate::revision::controller::merge_put(
                before,
                after,
                target,
                head,
                source_revision,
                spec,
                message,
                Ok(revision),
            )
        };
    assert(before.tells(target, Ok(Some(head))));
    assert(is_stored(before, after, target, Some(head), revision));
}

/// A merge that succeeded committed what the merge of both heads gave, with theirs as the second
/// parent; one with conflicts changed nothing and told where they are.
pub proof fn law_merge_stores_what_was_merged<S: RevisionStore>(
    before: S,
    after: S,
    source: BranchRefView,
    target: BranchRefView,
    message: CommitMessageView,
    revision: AgentRevisionView,
)
    requires
        merged(before, after, source, target, message, Ok(revision)),
    ensures
        exists|result: MergeResultView| #[trigger]
            merge_made(before, source, target, result) && result.spec is Some && revision.spec
                == result.spec->Some_0 && revision.parents.len() == 2 && revision.parents[1]
                == result.theirs && revision.message == message,
{
    let result = choose|result: MergeResultView| #[trigger]
        merge_made(before, source, target, result) && match result.spec {
            None => false,
            Some(spec) => merge_committed(
                before,
                after,
                target,
                result.theirs,
                spec,
                message,
                Ok(revision),
            ),
        };
    law_committed_merge_was_stored(
        before,
        after,
        target,
        result.theirs,
        result.spec->Some_0,
        message,
        revision,
    );
}

/// Why a commit failed: the store did not tell what the branch pointed to, there is no such revision,
/// the store did not keep it, or it did not move the branch, or somebody else had.
pub open spec fn is_why<S: RevisionStore>(
    before: S,
    after: S,
    branch: BranchRefView,
    spec: AgentSpecView,
    message: CommitMessageView,
    error: RevisionErrorView,
) -> bool {
    ||| before.tells(branch, Err(error)) && after == before
    ||| exists|head: Option<Seq<char>>| #[trigger]
        before.tells(branch, Ok(head)) && {
            let parents = if head is Some {
                seq![head->Some_0]
            } else {
                seq![]
            };
            let metadata = RevisionMetadataView { author: None, created_at: None };
            ||| after == before && revision_outcome(spec, parents, message, metadata) == Err::<
                AgentRevisionView,
                RevisionErrorView,
            >(error)
            ||| exists|revision: AgentRevisionView| #[trigger]
                before.keeps(revision, after, Err(error))
            ||| exists|revision: AgentRevisionView, middle: S| #[trigger]
                before.keeps(revision, middle, Ok(())) && {
                    ||| middle.moves(branch, head, revision.revision_id, after, Err(error))
                    ||| middle.moves(branch, head, revision.revision_id, after, Ok(false)) && error
                        == RevisionErrorView::ConcurrentUpdate(branch_text(branch))
                }
        }
}

/// A commit that failed was of another agent's specification or of one that makes no revision, or
/// the store failed, or the branch was moved by somebody else in the meantime; before anything was
/// kept nothing changed.
pub proof fn law_failed_commit_says_why<S: RevisionStore>(
    before: S,
    after: S,
    branch: BranchRefView,
    spec: AgentSpecView,
    message: CommitMessageView,
    error: RevisionErrorView,
)
    requires
        committed(before, after, branch, spec, message, Err(error)),
        branch.agent_id == spec.agent_id,
    ensures
        is_why(before, after, branch, spec, message, error),
{
    if !(before.tells(branch, Err(error)) && after == before) {
        let head = choose|head: Option<Seq<char>>| #[trigger]
            before.tells(branch, Ok(head)) && crate::revision::controller::updated(
                before,
                after,
                branch,
                head,
                crate::revision::controller::commit_prepared(branch, spec, head, message),
                Err(error),
            );
        let prepared = crate::revision::controller::commit_prepared(branch, spec, head, message);
        if prepared is Ok {
            let revision = prepared->Ok_0;
            if !before.keeps(revision, after, Err(error)) {
                let middle = choose|middle: S| #[trigger]
                    before.keeps(revision, middle, Ok(())) && crate::revision::controller::moved(
                        middle,
                        after,
                        branch,
                        head,
                        revision,
                        Err(error),
                    );
                assert(before.keeps(revision, middle, Ok(())));
            }
        }
    }
}

} // verus!
