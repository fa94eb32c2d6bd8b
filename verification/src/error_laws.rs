//! What the texts of errors of evaluations, revisions and commands tell.

use crate::eval::error::{eval_error_text, EvalErrorView};
use crate::revision::error::{revision_error_text, RevisionErrorView};
use crate::runtime::error::error_text;
use crate::runtime::error_laws::{lemma_ends, lemma_mentions, mentions};
use crate::text::join;
use crate::tools::sandbox::{sandbox_error_text, SandboxErrorView};
use vstd::prelude::*;

verus! {

/// The text of an error of an evaluation holds its message, or the text of the error of the agent.
pub proof fn law_evaluation_error_tells_its_message(error: EvalErrorView)
    ensures
        match error {
            EvalErrorView::InvalidTaskGraph(part) => mentions(eval_error_text(error), part),
            EvalErrorView::InvalidEnvironmentAction(part) => mentions(eval_error_text(error), part),
            EvalErrorView::InvalidCommand(part) => mentions(eval_error_text(error), part),
            EvalErrorView::Environment(part) => mentions(eval_error_text(error), part),
            EvalErrorView::Role(part) => mentions(eval_error_text(error), part),
            EvalErrorView::Agent(inner) => mentions(eval_error_text(error), error_text(inner)),
            EvalErrorView::Serialization(part) => mentions(eval_error_text(error), part),
        },
{
    match error {
        EvalErrorView::InvalidTaskGraph(part) => lemma_ends("invalid task graph: "@, part),
        EvalErrorView::InvalidEnvironmentAction(part) => lemma_ends(
            "invalid environment action: "@,
            part,
        ),
        EvalErrorView::InvalidCommand(part) => lemma_ends("invalid command: "@, part),
        EvalErrorView::Environment(part) => lemma_ends("environment failed: "@, part),
        EvalErrorView::Role(part) => lemma_ends("evaluation role failed: "@, part),
        EvalErrorView::Agent(inner) => lemma_ends("agent runtime failed: "@, error_text(inner)),
        EvalErrorView::Serialization(part) => lemma_ends("serialization failed: "@, part),
    }
}

/// A part of joined texts is in them.
proof fn lemma_joined(parts: Seq<Seq<char>>, separator: Seq<char>, i: int) -> (r: (
    Seq<char>,
    Seq<char>,
))
    requires
        0 <= i < parts.len(),
    ensures
        join(parts, separator) == r.0 + parts[i] + r.1,
    decreases parts.len(),
{
    if parts.len() == 1 {
        let r = (Seq::<char>::empty(), Seq::<char>::empty());
        assert(r.0 + parts[i] + r.1 =~= parts[0]);
        r
    } else if i == parts.len() - 1 {
        let r = (join(parts.drop_last(), separator) + separator, Seq::<char>::empty());
        assert(r.0 + parts[i] + r.1 =~= join(parts, separator));
        r
    } else {
        let init = parts.drop_last();
        let (front, back) = lemma_joined(init, separator, i);
        let r = (front, back + separator + parts.last());
        assert(r.0 + parts[i] + r.1 =~= join(parts, separator));
        r
    }
}

/// The text of an error of revision control holds its message, and that of conflicts each of their
/// places.
pub proof fn law_revision_error_tells_its_message(error: RevisionErrorView)
    ensures
        match error {
            RevisionErrorView::InvalidSpec(part) => mentions(revision_error_text(error), part),
            RevisionErrorView::InvalidCommitMessage(part) => mentions(
                revision_error_text(error),
                part,
            ),
            RevisionErrorView::InvalidBranch(part) => mentions(revision_error_text(error), part),
            RevisionErrorView::Serialization(part) => mentions(revision_error_text(error), part),
            RevisionErrorView::Store(part) => mentions(revision_error_text(error), part),
            RevisionErrorView::RevisionNotFound(part) => mentions(revision_error_text(error), part),
            RevisionErrorView::BranchNotFound(part) => mentions(revision_error_text(error), part),
            RevisionErrorView::BranchAlreadyExists(part) => mentions(
                revision_error_text(error),
                part,
            ),
            RevisionErrorView::ConcurrentUpdate(part) => mentions(revision_error_text(error), part),
            RevisionErrorView::NoCommonAncestor(part) => mentions(revision_error_text(error), part),
            RevisionErrorView::NothingToMerge(part) => mentions(revision_error_text(error), part),
            RevisionErrorView::MergeConflicts(paths) => forall|i: int|
                0 <= i < paths.len() ==> mentions(revision_error_text(error), #[trigger] paths[i]),
        },
{
    match error {
        RevisionErrorView::InvalidSpec(part) => lemma_ends("invalid agent spec: "@, part),
        RevisionErrorView::InvalidCommitMessage(part) => lemma_ends(
            "invalid commit message: "@,
            part,
        ),
        RevisionErrorView::InvalidBranch(part) => lemma_ends("invalid branch: "@, part),
        RevisionErrorView::Serialization(part) => lemma_ends("serialization failed: "@, part),
        RevisionErrorView::Store(part) => lemma_ends("revision store failed: "@, part),
        RevisionErrorView::RevisionNotFound(part) => lemma_ends("revision not found: "@, part),
        RevisionErrorView::BranchNotFound(part) => lemma_ends("branch not found: "@, part),
        RevisionErrorView::BranchAlreadyExists(part) => lemma_ends(
            "branch already exists: "@,
            part,
        ),
        RevisionErrorView::ConcurrentUpdate(part) => lemma_ends(
            "branch changed concurrently: "@,
            part,
        ),
        RevisionErrorView::NoCommonAncestor(part) => lemma_ends(
            "branches have no common ancestor: "@,
            part,
        ),
        RevisionErrorView::NothingToMerge(part) => lemma_ends("nothing to merge: "@, part),
        RevisionErrorView::MergeConflicts(paths) => {
            let head = "merge has conflicts at: "@;
            assert forall|i: int| 0 <= i < paths.len() implies mentions(
                revision_error_text(error),
                #[trigger] paths[i],
            ) by {
                let (front, back) = lemma_joined(paths, ", "@, i);
                lemma_mentions(head + front, paths[i], back);
                assert(head + front + paths[i] + back =~= revision_error_text(error));
            }
        },
    }
}

/// The text of an error of a command holds its message.
pub proof fn law_command_error_tells_its_message(error: SandboxErrorView)
    ensures
        match error {
            SandboxErrorView::InvalidRequest(part) => mentions(sandbox_error_text(error), part),
            SandboxErrorView::UnsupportedPolicy(part) => mentions(sandbox_error_text(error), part),
            SandboxErrorView::Launch(part) => mentions(sandbox_error_text(error), part),
            SandboxErrorView::Io(part) => mentions(sandbox_error_text(error), part),
        },
{
    match error {
        SandboxErrorView::InvalidRequest(part) => lemma_ends("invalid sandbox request: "@, part),
        SandboxErrorView::UnsupportedPolicy(part) => lemma_ends(
            "sandbox policy is unsupported: "@,
            part,
        ),
        SandboxErrorView::Launch(part) => lemma_ends("sandbox launch failed: "@, part),
        SandboxErrorView::Io(part) => lemma_ends("sandbox I/O error: "@, part),
    }
}

} // verus!
