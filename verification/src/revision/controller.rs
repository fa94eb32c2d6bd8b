//! Operations on a store of revisions.

use crate::digest::is_digest;
use crate::revision::error::{Result, RevisionError, RevisionErrorView};
use crate::revision::history::{
    ancestors_are, choose_merge_base, collecting, history, is_path, lemma_collect, lemma_collected,
    lemma_collected_before, lemma_merge_base, lemma_one_more_seen, merge_base, reached, visited,
    Waiting,
};
use crate::revision::ids::{branch_text, BranchRef, BranchRefView, RevisionId};
use crate::revision::merge::{
    lookup, merge_outcome, merge_specs, MergeConflict, MergeConflictView, MergeResult,
    MergeResultView,
};
use crate::revision::revision::{
    revision_outcome, AgentRevision, AgentRevisionView, CommitMessage, CommitMessageView,
    RevisionMetadata, RevisionMetadataView,
};
use crate::revision::spec::{AgentSpec, AgentSpecView};
use crate::revision::store::{advanced, head_of, saved, Repository, RevisionStore};
use crate::same::{outcome_of, Replica, Same};
use crate::text::{glue3, glue4};
use crate::text_map::TextMap;
use vstd::prelude::*;

verus! {

/// The revisions that were visited, in order, and how far each is away.
pub struct Walk {
    pub revisions: Vec<AgentRevision>,
    pub distances: TextMap<usize>,
}

/// The revisions of some names.
pub open spec fn revisions_of(
    revisions: Map<Seq<char>, AgentRevisionView>,
    ids: Seq<Seq<char>>,
) -> Seq<AgentRevisionView> {
    Seq::new(ids.len(), |i: int| revisions[ids[i]])
}

/// A revision that is not there.
pub open spec fn not_found(id: Seq<char>) -> RevisionErrorView {
    RevisionErrorView::RevisionNotFound(id)
}

/// The revisions that wait from a place on.
pub open spec fn waiting_from(ids: Seq<Seq<char>>, steps: Seq<usize>, front: int) -> Seq<Waiting> {
    Seq::new((ids.len() - front) as nat, |i: int| (ids[front + i], steps[front + i] as nat))
}

/// What the store gives for a revision, which must be there.
pub open spec fn revision_given<S: RevisionStore>(
    store: S,
    id: Seq<char>,
    r: core::result::Result<AgentRevisionView, RevisionErrorView>,
) -> bool {
    match r {
        Ok(revision) => store.gives(id, Ok(Some(revision))),
        Err(error) => store.gives(id, Err(error)) || (store.gives(id, Ok(None)) && error
            == not_found(id)),
    }
}

/// Some revision could not be had from the store, for this reason.
pub open spec fn read_failed<S: RevisionStore>(store: S, error: RevisionErrorView) -> bool {
    exists|id: Seq<char>| #[trigger] revision_given(store, id, Err(error))
}

/// Visits a revision and its ancestors, nearest first.
pub fn walk_back<S: RevisionStore>(store: &S, start: &RevisionId) -> (r: Result<Walk>)
    ensures
        store.settled() ==> (match history(store.repository().revisions, start.deep_view()) {
            Ok(_) => r is Ok,
            Err(id) => r matches Err(error) && error.deep_view() == not_found(id),
        }),
        r matches Err(error) ==> read_failed(*store, error.deep_view()),
        r matches Ok(walk) ==> {
            let revisions = store.repository().revisions;
            &&& history(revisions, start.deep_view()) is Ok
            &&& walk.revisions.deep_view() == revisions_of(
                revisions,
                history(revisions, start.deep_view())->Ok_0,
            )
            &&& ancestors_are(revisions, start.deep_view(), walk.distances@)
        },
{
    let ghost known = store.repository().revisions;
    let ghost origin = start.deep_view();
    proof {
        store.lemma_finite();
    }
    let mut revisions: Vec<AgentRevision> = Vec::new();
    let mut distances: TextMap<usize> = TextMap::new();
    let ghost mut seen: Seq<Seq<char>> = Seq::empty();
    let mut ids: Vec<RevisionId> = vec![start.replica()];
    let mut steps: Vec<usize> = vec![0];
    let mut front: usize = 0;
    proof {
        assert(ids.deep_view() =~= seq![origin]);
        assert(ids.deep_view().skip(0) =~= seq![origin]);
        let first = waiting_from(ids.deep_view(), steps@, 0);
        assert(first =~= seq![(origin, 0nat)]);
        assert(is_path(known, seq![origin], origin, origin));
        assert(reached(known, origin, origin, 0));
        assert(first[0] == (origin, 0nat));
        let none = distances@.map_values(|distance: usize| distance as nat);
        assert(collecting(known, origin, first, none));
        assert(revisions.deep_view() =~= revisions_of(known, seen));
        assert(seen.to_set() =~= distances@.dom());
    }
    while front < ids.len()
        invariant
            known == store.repository().revisions,
            origin == start.deep_view(),
            known.dom().finite(),
            front <= ids@.len(),
            ids@.len() == steps@.len(),
            revisions@.len() == seen.len(),
            revisions.deep_view() == revisions_of(known, seen),
            forall|id: Seq<char>| #[trigger] seen.contains(id) <==> distances@.contains_key(id),
            forall|i: int| front <= i < steps@.len() ==> #[trigger] steps@[i] <= revisions@.len(),
            visited(known, ids.deep_view().skip(front as int), seen) == history(known, origin),
            collecting(
                known,
                origin,
                waiting_from(ids.deep_view(), steps@, front as int),
                distances@.map_values(|distance: usize| distance as nat),
            ),
        decreases known.dom().difference(seen.to_set()).len(), ids@.len() - front,
    {
        let id = &ids[front];
        let step: usize = steps[front];
        let ghost views = ids.deep_view();
        let ghost waiting = waiting_from(views, steps@, front as int);
        let ghost wide = distances@.map_values(|distance: usize| distance as nat);
        assert(waiting[0] == (id.deep_view(), step as nat));
        assert(views.skip(front as int)[0] == id.deep_view());
        assert(views.skip(front as int).drop_first() =~= views.skip(front + 1));
        assert(waiting.drop_first() =~= waiting_from(views, steps@, front + 1));
        if distances.contains_key(id.0.as_str()) {
            proof {
                assert(wide.contains_key(id.deep_view()));
                lemma_collected_before(known, origin, waiting, wide);
            }
            front = front + 1;
            continue ;
        }
        assert(!seen.contains(id.deep_view()));
        let revision = match store.load_revision(id) {
            Ok(Some(revision)) => revision,
            Ok(None) => {
                assert(revision_given(*store, id.deep_view(), Err(not_found(id.deep_view()))));
                return Err(RevisionError::RevisionNotFound(id.0.clone()));
            },
            Err(error) => {
                assert(revision_given(*store, id.deep_view(), Err(error.deep_view())));
                return Err(error);
            },
        };
        let ghost here = id.deep_view();
        distances.insert(id.0.clone(), step);
        let parents: Vec<RevisionId> = revision.parents.replica();
        let ghost so_far = revisions.deep_view();
        revisions.push(revision);
        let count: usize = revisions.len();
        proof {
            lemma_one_more_seen(known, seen, here);
            let later = seen.push(here);
            assert forall|k: Seq<char>| #[trigger] later.contains(k) <==> distances@.contains_key(k) by {
                if seen.contains(k) {
                    let i = choose|i: int| 0 <= i < seen.len() && seen[i] == k;
                    assert(later[i] == k);
                }
                assert(later[seen.len() as int] == here);
                if later.contains(k) && k != here {
                    let i = choose|i: int| 0 <= i < later.len() && later[i] == k;
                    assert(seen[i] == k);
                }
            }
            assert(revisions.deep_view() =~= so_far.push(known[here]));
            assert(revisions.deep_view() =~= revisions_of(known, later));
            seen = later;
        }
        let ghost more = Seq::new(
            parents@.len(),
            |i: int| (parents.deep_view()[i], step as nat + 1),
        );
        let ghost steps_before = steps@;
        front = front + 1;
        for i in 0..parents.len()
            invariant
                front <= ids@.len(),
                ids@.len() == steps@.len(),
                ids@.len() == views.len() + i,
                count == revisions@.len(),
                step < count,
                views.len() == steps_before.len(),
                views.len() >= front,
                ids.deep_view() == views + parents.deep_view().take(i as int),
                steps@ == steps_before + Seq::new(i as nat, |k: int| (step + 1) as usize),
        {
            let ghost ids_before = ids.deep_view();
            let ghost now = steps@;
            ids.push(parents[i].replica());
            steps.push(step + 1);
            assert(ids.deep_view() =~= ids_before.push(parents.deep_view()[i as int]));
            assert(ids.deep_view() =~= views + parents.deep_view().take(i + 1));
            assert(steps@ =~= steps_before + Seq::new((i + 1) as nat, |k: int| (step + 1) as usize));
        }
        proof {
            assert(parents.deep_view().take(parents@.len() as int) =~= parents.deep_view());
            assert(known[here].parents == parents.deep_view());
            lemma_collect(known, origin, waiting, wide, more);
            assert(waiting_from(ids.deep_view(), steps@, front as int) =~= waiting.drop_first()
                + more);
            assert(distances@.map_values(|distance: usize| distance as nat) =~= wide.insert(
                here,
                step as nat,
            ));
            assert(ids.deep_view().skip(front as int) =~= views.skip(front as int)
                + parents.deep_view());
        }
    }
    proof {
        assert(ids.deep_view().skip(front as int) =~= Seq::<Seq<char>>::empty());
        assert(waiting_from(ids.deep_view(), steps@, front as int) =~= Seq::<Waiting>::empty());
        lemma_collected(known, origin, distances@);
    }
    Ok(Walk { revisions, distances })
}

/// The metadata of a revision that says neither who made it nor when.
pub open spec fn no_metadata() -> RevisionMetadataView {
    RevisionMetadataView { author: None, created_at: None }
}

/// The parent of a revision that continues a branch.
pub open spec fn parents_from(head: Option<Seq<char>>) -> Seq<Seq<char>> {
    match head {
        Some(id) => seq![id],
        None => Seq::empty(),
    }
}

/// The revision that a commit to a branch makes.
pub open spec fn commit_prepared(
    branch: BranchRefView,
    spec: AgentSpecView,
    head: Option<Seq<char>>,
    message: CommitMessageView,
) -> core::result::Result<AgentRevisionView, RevisionErrorView> {
    if branch.agent_id != spec.agent_id {
        Err(
            RevisionErrorView::InvalidSpec(
                "branch "@ + branch.name + " belongs to "@ + branch.agent_id
                    + ", but spec belongs to "@ + spec.agent_id,
            ),
        )
    } else {
        revision_outcome(spec, parents_from(head), message, no_metadata())
    }
}

fn branch_mismatch(branch: &BranchRef, spec: &AgentSpec) -> (r: RevisionError)
    ensures
        r.deep_view() == RevisionErrorView::InvalidSpec(
            "branch "@ + branch.deep_view().name + " belongs to "@ + branch.deep_view().agent_id
                + ", but spec belongs to "@ + spec.deep_view().agent_id,
        ),
{
    let start = glue4(
        "branch ",
        branch.name.0.as_str(),
        " belongs to ",
        branch.agent_id.0.as_str(),
    );
    RevisionError::InvalidSpec(
        glue3(start.as_str(), ", but spec belongs to ", spec.agent_id.0.as_str()),
    )
}

/// Makes the revision of a commit to a branch that points to `head`.
pub fn prepare_commit(
    branch: &BranchRef,
    spec: AgentSpec,
    head: &Option<RevisionId>,
    message: CommitMessage,
) -> (r: Result<AgentRevision>)
    ensures
        outcome_of(r) == commit_prepared(
            branch.deep_view(),
            spec.deep_view(),
            head.deep_view(),
            message.deep_view(),
        ),
        r matches Ok(revision) ==> is_digest(revision.deep_view().revision_id),
{
    if !branch.agent_id.same(&spec.agent_id) {
        return Err(branch_mismatch(branch, &spec));
    }
    let mut parents: Vec<RevisionId> = Vec::new();
    if let Some(id) = head {
        parents.push(id.replica());
    }
    assert(parents.deep_view() =~= parents_from(head.deep_view()));
    AgentRevision::commit(
        spec,
        parents,
        message,
        RevisionMetadata { author: None, created_at: None },
    )
}

/// What an update of a branch to a revision comes to, given whether the branch was moved.
pub open spec fn update_finished(
    branch: BranchRefView,
    revision: AgentRevisionView,
    moved: bool,
) -> core::result::Result<AgentRevisionView, RevisionErrorView> {
    if moved {
        Ok(revision)
    } else {
        Err(RevisionErrorView::ConcurrentUpdate(branch_text(branch)))
    }
}

/// Ends the update of a branch to a revision, given whether the branch was moved.
pub fn finish_update(branch: &BranchRef, revision: AgentRevision, moved: bool) -> (r: Result<
    AgentRevision,
>)
    ensures
        outcome_of(r) == update_finished(branch.deep_view(), revision.deep_view(), moved),
{
    if moved {
        Ok(revision)
    } else {
        Err(RevisionError::ConcurrentUpdate(branch.text()))
    }
}

/// What an update of a branch to a revision comes to, and what the store holds then.
pub open spec fn update_outcome(
    repository: Repository,
    branch: BranchRefView,
    prepared: core::result::Result<AgentRevisionView, RevisionErrorView>,
) -> (core::result::Result<AgentRevisionView, RevisionErrorView>, Repository) {
    match prepared {
        Err(error) => (Err(error), repository),
        Ok(revision) => match saved(repository, revision) {
            Err(error) => (Err(error), repository),
            Ok(after) => (Ok(revision), advanced(after, branch, revision.revision_id)),
        },
    }
}

/// What a commit comes to, and what the store holds then.
pub open spec fn commit_outcome(
    repository: Repository,
    branch: BranchRefView,
    spec: AgentSpecView,
    message: CommitMessageView,
) -> (core::result::Result<AgentRevisionView, RevisionErrorView>, Repository) {
    update_outcome(
        repository,
        branch,
        commit_prepared(branch, spec, head_of(repository, branch), message),
    )
}

/// The revision that a branch points to, which must be there.
pub open spec fn required_head(repository: Repository, branch: BranchRefView) -> core::result::Result<
    Seq<char>,
    RevisionErrorView,
> {
    match head_of(repository, branch) {
        Some(id) => Ok(id),
        None => Err(RevisionErrorView::BranchNotFound(branch_text(branch))),
    }
}

/// A revision that must be there.
pub open spec fn required_revision(repository: Repository, id: Seq<char>) -> core::result::Result<
    AgentRevisionView,
    RevisionErrorView,
> {
    match lookup(repository.revisions, id) {
        Some(revision) => Ok(revision),
        None => Err(not_found(id)),
    }
}

/// Two branches must be of one agent.
pub open spec fn pair_checked(source: BranchRefView, target: BranchRefView) -> core::result::Result<
    (),
    RevisionErrorView,
> {
    if source.agent_id == target.agent_id {
        Ok(())
    } else {
        Err(
            RevisionErrorView::InvalidBranch(
                "source and target branches belong to different agents"@,
            ),
        )
    }
}

/// Rejects two branches that belong to different agents.
pub fn validate_branch_pair(source: &BranchRef, target: &BranchRef) -> (r: Result<()>)
    ensures
        outcome_of(r) == pair_checked(source.deep_view(), target.deep_view()),
{
    if source.agent_id.same(&target.agent_id) {
        Ok(())
    } else {
        Err(
            RevisionError::InvalidBranch(
                "source and target branches belong to different agents".to_owned(),
            ),
        )
    }
}

/// What the creation of a branch comes to, and what the store holds then.
pub open spec fn create_outcome(
    repository: Repository,
    source: BranchRefView,
    target: BranchRefView,
) -> (core::result::Result<Seq<char>, RevisionErrorView>, Repository) {
    match pair_checked(source, target) {
        Err(error) => (Err(error), repository),
        Ok(_) => match required_head(repository, source) {
            Err(error) => (Err(error), repository),
            Ok(id) => if head_of(repository, target) is Some {
                (Err(RevisionErrorView::BranchAlreadyExists(branch_text(target))), repository)
            } else {
                (Ok(id), advanced(repository, target, id))
            },
        },
    }
}

/// A branch and the revision that it points to.
#[derive(Debug)]
pub struct AgentCheckout {
    pub branch: BranchRef,
    pub revision: AgentRevision,
}

/// What an [`AgentCheckout`] holds.
#[verifier::ext_equal]
pub struct AgentCheckoutView {
    pub branch: BranchRefView,
    pub revision: AgentRevisionView,
}

impl DeepView for AgentCheckout {
    type V = AgentCheckoutView;

    open spec fn deep_view(&self) -> Self::V {
        AgentCheckoutView { branch: self.branch.deep_view(), revision: self.revision.deep_view() }
    }
}

impl Clone for AgentCheckout {
    fn clone(&self) -> (r: Self)
        ensures
            r.deep_view() == self.deep_view(),
    {
        AgentCheckout { branch: self.branch.replica(), revision: self.revision.replica() }
    }
}

/// What a checkout of a branch gives.
pub open spec fn checkout_outcome(repository: Repository, branch: BranchRefView) -> core::result::Result<
    AgentCheckoutView,
    RevisionErrorView,
> {
    match required_head(repository, branch) {
        Err(error) => Err(error),
        Ok(id) => match required_revision(repository, id) {
            Err(error) => Err(error),
            Ok(revision) => Ok(AgentCheckoutView { branch, revision }),
        },
    }
}

/// The common ancestor that a merge starts from, which must be there.
pub open spec fn required_base(
    repository: Repository,
    ours: Seq<char>,
    theirs: Seq<char>,
) -> core::result::Result<Seq<char>, RevisionErrorView> {
    match history(repository.revisions, ours) {
        Err(id) => Err(not_found(id)),
        Ok(_) => match history(repository.revisions, theirs) {
            Err(id) => Err(not_found(id)),
            Ok(_) => match merge_base(repository.revisions, ours, theirs) {
                Some(base) => Ok(base),
                None => Err(RevisionErrorView::NoCommonAncestor(ours + " and "@ + theirs)),
            },
        },
    }
}

/// What the preparation of a merge comes to.
pub open spec fn prepare_outcome(
    repository: Repository,
    source: BranchRefView,
    target: BranchRefView,
) -> core::result::Result<MergeResultView, RevisionErrorView> {
    match pair_checked(source, target) {
        Err(error) => Err(error),
        Ok(_) => match required_head(repository, source) {
            Err(error) => Err(error),
            Ok(theirs) => match required_head(repository, target) {
                Err(error) => Err(error),
                Ok(ours) => if theirs == ours {
                    Err(RevisionErrorView::NothingToMerge(branch_text(source)))
                } else {
                    heads_merged(repository, ours, theirs)
                },
            },
        },
    }
}

/// What the merge of two revisions comes to.
pub open spec fn heads_merged(repository: Repository, ours: Seq<char>, theirs: Seq<char>) -> core::result::Result<
    MergeResultView,
    RevisionErrorView,
> {
    match required_base(repository, ours, theirs) {
        Err(error) => Err(error),
        Ok(base) => match required_revision(repository, ours) {
            Err(error) => Err(error),
            Ok(our) => match required_revision(repository, theirs) {
                Err(error) => Err(error),
                Ok(their) => match required_revision(repository, base) {
                    Err(error) => Err(error),
                    Ok(common) => merge_outcome(
                        base,
                        ours,
                        theirs,
                        common.spec,
                        our.spec,
                        their.spec,
                    ),
                },
            },
        },
    }
}

/// The revision that a merge into a branch makes.
pub open spec fn merge_prepared(
    target: BranchRefView,
    head: Seq<char>,
    source_revision: Seq<char>,
    source: AgentRevisionView,
    spec: AgentSpecView,
    message: CommitMessageView,
) -> core::result::Result<AgentRevisionView, RevisionErrorView> {
    if source.agent_id != target.agent_id {
        Err(RevisionErrorView::InvalidSpec("merge source belongs to a different agent"@))
    } else {
        revision_outcome(spec, seq![head, source_revision], message, no_metadata())
    }
}

/// Makes the revision of a merge into a branch that points to `head`.
pub fn prepare_merge_commit(
    target: &BranchRef,
    head: &RevisionId,
    source_revision: &RevisionId,
    source: &AgentRevision,
    spec: AgentSpec,
    message: CommitMessage,
) -> (r: Result<AgentRevision>)
    ensures
        outcome_of(r) == merge_prepared(
            target.deep_view(),
            head.deep_view(),
            source_revision.deep_view(),
            source.deep_view(),
            spec.deep_view(),
            message.deep_view(),
        ),
        r matches Ok(revision) ==> is_digest(revision.deep_view().revision_id),
{
    if !source.agent_id.same(&target.agent_id) {
        return Err(
            RevisionError::InvalidSpec("merge source belongs to a different agent".to_owned()),
        );
    }
    let parents: Vec<RevisionId> = vec![head.replica(), source_revision.replica()];
    assert(parents.deep_view() =~= seq![head.deep_view(), source_revision.deep_view()]);
    AgentRevision::commit(
        spec,
        parents,
        message,
        RevisionMetadata { author: None, created_at: None },
    )
}

/// The error for the merge of a specification of one agent into a branch of another.
pub open spec fn merge_mismatch(target: BranchRefView, spec: AgentSpecView) -> RevisionErrorView {
    RevisionErrorView::InvalidSpec(
        "merge spec belongs to "@ + spec.agent_id + ", but target branch belongs to "@
            + target.agent_id,
    )
}

/// What the commit of a merge comes to, and what the store holds then.
pub open spec fn commit_merge_outcome(
    repository: Repository,
    target: BranchRefView,
    source_revision: Seq<char>,
    spec: AgentSpecView,
    message: CommitMessageView,
) -> (core::result::Result<AgentRevisionView, RevisionErrorView>, Repository) {
    match required_head(repository, target) {
        Err(error) => (Err(error), repository),
        Ok(head) => if spec.agent_id != target.agent_id {
            (Err(merge_mismatch(target, spec)), repository)
        } else {
            match required_revision(repository, source_revision) {
                Err(error) => (Err(error), repository),
                Ok(source) => update_outcome(
                    repository,
                    target,
                    merge_prepared(target, head, source_revision, source, spec, message),
                ),
            }
        },
    }
}

/// Where values are in conflict.
pub open spec fn conflict_paths(conflicts: Seq<MergeConflictView>) -> Seq<Seq<char>> {
    conflicts.map_values(|conflict: MergeConflictView| conflict.path)
}

fn paths_of(conflicts: &Vec<MergeConflict>) -> (r: Vec<String>)
    ensures
        r.deep_view() == conflict_paths(conflicts.deep_view()),
{
    let ghost want = conflict_paths(conflicts.deep_view());
    let mut r: Vec<String> = Vec::new();
    assert(r.deep_view() =~= want.take(0));
    for i in 0..conflicts.len()
        invariant
            want == conflict_paths(conflicts.deep_view()),
            r.deep_view() == want.take(i as int),
    {
        let ghost before = r.deep_view();
        r.push(conflicts[i].path.clone());
        assert(r.deep_view() =~= before.push(want[i as int]));
        assert(want.take(i + 1) =~= want.take(i as int).push(want[i as int]));
    }
    assert(want.take(conflicts.len() as int) =~= want);
    r
}

/// What a merge comes to, and what the store holds then.
pub open spec fn merge_branches_outcome(
    repository: Repository,
    source: BranchRefView,
    target: BranchRefView,
    message: CommitMessageView,
) -> (core::result::Result<AgentRevisionView, RevisionErrorView>, Repository) {
    match prepare_outcome(repository, source, target) {
        Err(error) => (Err(error), repository),
        Ok(result) => match result.spec {
            None => (
                Err(RevisionErrorView::MergeConflicts(conflict_paths(result.conflicts))),
                repository,
            ),
            Some(spec) => commit_merge_outcome(repository, target, result.theirs, spec, message),
        },
    }
}

/// The parents of a revision, which must be there.
pub open spec fn parents_outcome(repository: Repository, ids: Seq<Seq<char>>) -> core::result::Result<
    Seq<AgentRevisionView>,
    RevisionErrorView,
>
    decreases ids.len(),
{
    if ids.len() == 0 {
        Ok(Seq::empty())
    } else {
        match parents_outcome(repository, ids.drop_last()) {
            Err(error) => Err(error),
            Ok(done) => match required_revision(repository, ids.last()) {
                Err(error) => Err(error),
                Ok(revision) => Ok(done.push(revision)),
            },
        }
    }
}

proof fn lemma_parents_prefix(repository: Repository, ids: Seq<Seq<char>>, n: int)
    requires
        0 <= n <= ids.len(),
        parents_outcome(repository, ids.take(n)) is Err,
    ensures
        parents_outcome(repository, ids) == parents_outcome(repository, ids.take(n)),
    decreases ids.len() - n,
{
    if n < ids.len() {
        assert(ids.take(n + 1).drop_last() =~= ids.take(n));
        lemma_parents_prefix(repository, ids, n + 1);
    } else {
        assert(ids.take(n) =~= ids);
    }
}

/// The revisions of a branch, newest first.
pub open spec fn log_outcome(repository: Repository, branch: BranchRefView) -> core::result::Result<
    Seq<AgentRevisionView>,
    RevisionErrorView,
> {
    match required_head(repository, branch) {
        Err(error) => Err(error),
        Ok(id) => match history(repository.revisions, id) {
            Err(missing) => Err(not_found(missing)),
            Ok(ids) => Ok(revisions_of(repository.revisions, ids)),
        },
    }
}

/// What the store says a branch points to, which must be there.
pub open spec fn head_told<S: RevisionStore>(
    store: S,
    branch: BranchRefView,
    r: core::result::Result<Seq<char>, RevisionErrorView>,
) -> bool {
    match r {
        Ok(id) => store.tells(branch, Ok(Some(id))),
        Err(error) => store.tells(branch, Err(error)) || (store.tells(branch, Ok(None)) && error
            == RevisionErrorView::BranchNotFound(branch_text(branch))),
    }
}

/// A prepared revision was kept and the branch moved to it, or it is said what stood against it: the
/// preparation, the store, or somebody else who moved the branch.
pub open spec fn updated<S: RevisionStore>(
    before: S,
    after: S,
    branch: BranchRefView,
    head: Option<Seq<char>>,
    prepared: core::result::Result<AgentRevisionView, RevisionErrorView>,
    r: core::result::Result<AgentRevisionView, RevisionErrorView>,
) -> bool {
    match prepared {
        Err(error) => r == Err::<AgentRevisionView, RevisionErrorView>(error) && after == before,
        Ok(revision) => {
            ||| exists|error: RevisionErrorView|
                {
                    &&& #[trigger] before.keeps(revision, after, Err(error))
                    &&& r == Err::<AgentRevisionView, RevisionErrorView>(error)
                }
            ||| exists|middle: S| #[trigger]
                before.keeps(revision, middle, Ok(())) && moved(
                    middle,
                    after,
                    branch,
                    head,
                    revision,
                    r,
                )
        },
    }
}

/// A branch was moved to a revision that is kept, or it is said what stood against it.
pub open spec fn moved<S: RevisionStore>(
    before: S,
    after: S,
    branch: BranchRefView,
    head: Option<Seq<char>>,
    revision: AgentRevisionView,
    r: core::result::Result<AgentRevisionView, RevisionErrorView>,
) -> bool {
    exists|answer: core::result::Result<bool, RevisionErrorView>|
        {
            &&& #[trigger] before.moves(branch, head, revision.revision_id, after, answer)
            &&& match answer {
                Err(error) => r == Err::<AgentRevisionView, RevisionErrorView>(error),
                Ok(moved) => r == update_finished(branch, revision, moved),
            }
        }
}

/// A commit came to this: the revision that it makes from what the branch pointed to was kept, and
/// the branch moved to it, or it is said what stood against it.
pub open spec fn committed<S: RevisionStore>(
    before: S,
    after: S,
    branch: BranchRefView,
    spec: AgentSpecView,
    message: CommitMessageView,
    r: core::result::Result<AgentRevisionView, RevisionErrorView>,
) -> bool {
    if branch.agent_id != spec.agent_id {
        r == commit_prepared(branch, spec, None, message) && after == before
    } else {
        ||| r is Err && before.tells(branch, Err(r->Err_0)) && after == before
        ||| exists|head: Option<Seq<char>>|
            {
                &&& #[trigger] before.tells(branch, Ok(head))
                &&& updated(
                    before,
                    after,
                    branch,
                    head,
                    commit_prepared(branch, spec, head, message),
                    r,
                )
            }
    }
}

/// The creation of a branch came to this.
pub open spec fn branch_created<S: RevisionStore>(
    before: S,
    after: S,
    source: BranchRefView,
    target: BranchRefView,
    r: core::result::Result<Seq<char>, RevisionErrorView>,
) -> bool {
    match pair_checked(source, target) {
        Err(error) => r == Err::<Seq<char>, RevisionErrorView>(error) && after == before,
        Ok(_) => {
            ||| r is Err && head_told(before, source, Err(r->Err_0)) && after == before
            ||| exists|id: Seq<char>| #[trigger]
                head_told(before, source, Ok(id)) && branch_put(before, after, target, id, r)
        },
    }
}

/// A branch that was not there was let point to a revision, or it is said what stood against it.
pub open spec fn branch_put<S: RevisionStore>(
    before: S,
    after: S,
    target: BranchRefView,
    id: Seq<char>,
    r: core::result::Result<Seq<char>, RevisionErrorView>,
) -> bool {
    let there = Err::<Seq<char>, RevisionErrorView>(
        RevisionErrorView::BranchAlreadyExists(branch_text(target)),
    );
    ||| r is Err && before.tells(target, Err(r->Err_0)) && after == before
    ||| exists|other: Seq<char>|
        {
            &&& #[trigger] before.tells(target, Ok(Some(other)))
            &&& r == there
            &&& after == before
        }
    ||| before.tells(target, Ok(None)) && branch_let(before, after, target, id, r)
}

/// The store let a new branch point to a revision, or not.
pub open spec fn branch_let<S: RevisionStore>(
    before: S,
    after: S,
    target: BranchRefView,
    id: Seq<char>,
    r: core::result::Result<Seq<char>, RevisionErrorView>,
) -> bool {
    exists|answer: core::result::Result<bool, RevisionErrorView>|
        {
            &&& #[trigger] before.moves(target, None, id, after, answer)
            &&& match answer {
                Err(error) => r == Err::<Seq<char>, RevisionErrorView>(error),
                Ok(fits) => if fits {
                    r == Ok::<Seq<char>, RevisionErrorView>(id)
                } else {
                    r == Err::<Seq<char>, RevisionErrorView>(
                        RevisionErrorView::BranchAlreadyExists(branch_text(target)),
                    )
                },
            }
        }
}

/// The commit of a merge came to this.
pub open spec fn merge_committed<S: RevisionStore>(
    before: S,
    after: S,
    target: BranchRefView,
    source_revision: Seq<char>,
    spec: AgentSpecView,
    message: CommitMessageView,
    r: core::result::Result<AgentRevisionView, RevisionErrorView>,
) -> bool {
    ||| r is Err && head_told(before, target, Err(r->Err_0)) && after == before
    ||| exists|head: Seq<char>| #[trigger]
        head_told(before, target, Ok(head)) && if spec.agent_id != target.agent_id {
            r == Err::<AgentRevisionView, RevisionErrorView>(merge_mismatch(target, spec)) && after
                == before
        } else {
            merge_put(before, after, target, head, source_revision, spec, message, r)
        }
}

/// The revision of a merge was kept and the branch moved to it, or it is said what stood against it.
pub open spec fn merge_put<S: RevisionStore>(
    before: S,
    after: S,
    target: BranchRefView,
    head: Seq<char>,
    source_revision: Seq<char>,
    spec: AgentSpecView,
    message: CommitMessageView,
    r: core::result::Result<AgentRevisionView, RevisionErrorView>,
) -> bool {
    ||| r is Err && revision_given(before, source_revision, Err(r->Err_0)) && after == before
    ||| exists|source: AgentRevisionView|
        {
            &&& #[trigger] revision_given(before, source_revision, Ok(source))
            &&& required_revision(before.repository(), source_revision) == Ok::<
                AgentRevisionView,
                RevisionErrorView,
            >(source)
            &&& updated(
                before,
                after,
                target,
                Some(head),
                merge_prepared(target, head, source_revision, source, spec, message),
                r,
            )
        }
}

/// What two branches point to was merged.
pub open spec fn merge_made<S: RevisionStore>(
    store: S,
    source: BranchRefView,
    target: BranchRefView,
    result: MergeResultView,
) -> bool {
    &&& pair_checked(source, target) is Ok
    &&& exists|theirs: Seq<char>, ours: Seq<char>|
        {
            &&& #[trigger] head_told(store, source, Ok(theirs))
            &&& #[trigger] head_told(store, target, Ok(ours))
            &&& theirs != ours
            &&& heads_merged(store.repository(), ours, theirs) == Ok::<
                MergeResultView,
                RevisionErrorView,
            >(result)
        }
}

/// What two branches point to could not be merged, for this reason: the branches are of two agents,
/// a branch is missing, both point to the same revision, a revision could not be had, there is no
/// common ancestor, or the specifications do not merge into one.
pub open spec fn merge_failed<S: RevisionStore>(
    store: S,
    source: BranchRefView,
    target: BranchRefView,
    error: RevisionErrorView,
) -> bool {
    match pair_checked(source, target) {
        Err(mismatch) => error == mismatch,
        Ok(_) => {
            ||| head_told(store, source, Err(error))
            ||| head_told(store, target, Err(error))
            ||| read_failed(store, error)
            ||| heads_failed(store, source, target, error)
        },
    }
}

/// The revisions that two branches point to could not be merged, for this reason.
pub open spec fn heads_failed<S: RevisionStore>(
    store: S,
    source: BranchRefView,
    target: BranchRefView,
    error: RevisionErrorView,
) -> bool {
    exists|theirs: Seq<char>, ours: Seq<char>|
        {
            &&& #[trigger] head_told(store, source, Ok(theirs))
            &&& #[trigger] head_told(store, target, Ok(ours))
            &&& if theirs == ours {
                error == RevisionErrorView::NothingToMerge(branch_text(source))
            } else {
                heads_merged(store.repository(), ours, theirs) == Err::<
                    MergeResultView,
                    RevisionErrorView,
                >(error)
            }
        }
}

/// The merge of one branch into another came to this: what both point to was merged and committed,
/// or it is in conflict, or something else stood against it.
pub open spec fn merged<S: RevisionStore>(
    before: S,
    after: S,
    source: BranchRefView,
    target: BranchRefView,
    message: CommitMessageView,
    r: core::result::Result<AgentRevisionView, RevisionErrorView>,
) -> bool {
    ||| r is Err && merge_failed(before, source, target, r->Err_0) && after == before
    ||| exists|result: MergeResultView| #[trigger]
        merge_made(before, source, target, result) && match result.spec {
            None => r == Err::<AgentRevisionView, RevisionErrorView>(
                RevisionErrorView::MergeConflicts(conflict_paths(result.conflicts)),
            ) && after == before,
            Some(spec) => merge_committed(
                before,
                after,
                target,
                result.theirs,
                spec,
                message,
                r,
            ),
        }
}

/// Operations on a store of revisions.
pub struct RevisionController<S> {
    store: S,
}

impl<S: RevisionStore> RevisionController<S> {
    /// The store that is operated on.
    pub closed spec fn held(&self) -> S {
        self.store
    }

    /// What the store holds.
    pub open spec fn repository(&self) -> Repository {
        self.held().repository()
    }

    /// The store never fails, and nobody else writes to it.
    pub open spec fn settled(&self) -> bool {
        self.held().settled()
    }

    /// Operations on a store.
    pub fn new(store: S) -> (r: Self)
        ensures
            r.held() == store,
    {
        RevisionController { store }
    }

    /// The store that is operated on.
    pub fn store(&self) -> (r: &S)
        ensures
            *r == self.held(),
    {
        &self.store
    }

    /// Saves a prepared revision and lets a branch point to it.
    fn update(
        &mut self,
        branch: &BranchRef,
        head: &Option<RevisionId>,
        prepared: Result<AgentRevision>,
    ) -> (r: Result<AgentRevision>)
        requires
            old(self).settled() ==> head.deep_view() == head_of(
                old(self).repository(),
                branch.deep_view(),
            ),
        ensures
            old(self).settled() ==> final(self).settled() && (
                outcome_of(r),
                final(self).repository(),
            ) == update_outcome(old(self).repository(), branch.deep_view(), outcome_of(prepared)),
            updated(
                old(self).held(),
                final(self).held(),
                branch.deep_view(),
                head.deep_view(),
                outcome_of(prepared),
                outcome_of(r),
            ),
            r matches Ok(revision) ==> outcome_of(prepared) == Ok::<
                AgentRevisionView,
                RevisionErrorView,
            >(revision.deep_view()) && head_of(final(self).repository(), branch.deep_view())
                == Some(revision.deep_view().revision_id),
    {
        let revision = match prepared {
            Ok(revision) => revision,
            Err(error) => return Err(error),
        };
        match self.store.save_revision(&revision) {
            Ok(_) => {},
            Err(error) => return Err(error),
        }
        match self.store.compare_and_set_branch(branch, head, &revision.revision_id) {
            Ok(moved) => finish_update(branch, revision, moved),
            Err(error) => Err(error),
        }
    }

    /// Commits a specification to a branch.
    pub fn commit(&mut self, branch: &BranchRef, spec: AgentSpec, message: CommitMessage) -> (r: Result<
        AgentRevision,
    >)
        ensures
            old(self).settled() ==> final(self).settled() && (
                outcome_of(r),
                final(self).repository(),
            ) == commit_outcome(
                old(self).repository(),
                branch.deep_view(),
                spec.deep_view(),
                message.deep_view(),
            ),
            committed(
                old(self).held(),
                final(self).held(),
                branch.deep_view(),
                spec.deep_view(),
                message.deep_view(),
                outcome_of(r),
            ),
            r matches Ok(revision) ==> {
                &&& is_digest(revision.deep_view().revision_id)
                &&& head_of(final(self).repository(), branch.deep_view()) == Some(
                    revision.deep_view().revision_id,
                )
                &&& exists|head: Option<Seq<char>>| #[trigger]
                    commit_prepared(
                        branch.deep_view(),
                        spec.deep_view(),
                        head,
                        message.deep_view(),
                    ) == Ok::<AgentRevisionView, RevisionErrorView>(revision.deep_view())
            },
    {
        if !branch.agent_id.same(&spec.agent_id) {
            return Err(branch_mismatch(branch, &spec));
        }
        let head = match self.store.branch_head(branch) {
            Ok(head) => head,
            Err(error) => return Err(error),
        };
        let prepared = prepare_commit(branch, spec, &head, message);
        self.update(branch, &head, prepared)
    }

    /// Lets a new branch point to the revision that another one points to.
    pub fn create_branch(
        &mut self,
        source: &BranchRef,
        target: BranchRef,
    ) -> (r: Result<RevisionId>)
        ensures
            old(self).settled() ==> final(self).settled() && (
                outcome_of(r),
                final(self).repository(),
            ) == create_outcome(old(self).repository(), source.deep_view(), target.deep_view()),
            branch_created(
                old(self).held(),
                final(self).held(),
                source.deep_view(),
                target.deep_view(),
                outcome_of(r),
            ),
            r matches Ok(id) ==> head_of(final(self).repository(), target.deep_view()) == Some(
                id.deep_view(),
            ),
    {
        match validate_branch_pair(source, &target) {
            Ok(_) => {},
            Err(error) => return Err(error),
        }
        let head = match self.branch_head(source) {
            Ok(head) => head,
            Err(error) => return Err(error),
        };
        match self.store.branch_head(&target) {
            Ok(None) => {},
            Ok(Some(_)) => return Err(RevisionError::BranchAlreadyExists(target.text())),
            Err(error) => return Err(error),
        }
        match self.store.compare_and_set_branch(&target, &None, &head) {
            Ok(true) => Ok(head),
            Ok(false) => Err(RevisionError::BranchAlreadyExists(target.text())),
            Err(error) => Err(error),
        }
    }

    /// The revision that a branch points to.
    pub fn checkout(&self, branch: &BranchRef) -> (r: Result<AgentCheckout>)
        ensures
            self.settled() ==> outcome_of(r) == checkout_outcome(
                self.repository(),
                branch.deep_view(),
            ),
            r matches Ok(checkout) ==> {
                &&& checkout.deep_view().branch == branch.deep_view()
                &&& exists|id: Seq<char>|
                    {
                        &&& #[trigger] head_told(self.held(), branch.deep_view(), Ok(id))
                        &&& required_revision(self.repository(), id) == Ok::<
                            AgentRevisionView,
                            RevisionErrorView,
                        >(checkout.deep_view().revision)
                    }
            },
            r matches Err(error) ==> {
                ||| head_told(self.held(), branch.deep_view(), Err(error.deep_view()))
                ||| exists|id: Seq<char>| #[trigger]
                    head_told(self.held(), branch.deep_view(), Ok(id)) && revision_given(
                        self.held(),
                        id,
                        Err(error.deep_view()),
                    )
            },
    {
        let id = match self.branch_head(branch) {
            Ok(id) => id,
            Err(error) => return Err(error),
        };
        match self.load_revision(&id) {
            Ok(revision) => Ok(AgentCheckout { branch: branch.clone(), revision }),
            Err(error) => Err(error),
        }
    }

    /// A revision.
    pub fn load_revision(&self, id: &RevisionId) -> (r: Result<AgentRevision>)
        ensures
            revision_given(self.held(), id.deep_view(), outcome_of(r)),
            r matches Ok(revision) ==> required_revision(self.repository(), id.deep_view()) == Ok::<
                AgentRevisionView,
                RevisionErrorView,
            >(revision.deep_view()),
            self.settled() ==> outcome_of(r) == required_revision(
                self.repository(),
                id.deep_view(),
            ),
    {
        match self.store.load_revision(id) {
            Ok(Some(revision)) => Ok(revision),
            Ok(None) => Err(RevisionError::RevisionNotFound(id.0.clone())),
            Err(error) => Err(error),
        }
    }

    fn branch_head(&self, branch: &BranchRef) -> (r: Result<RevisionId>)
        ensures
            head_told(self.held(), branch.deep_view(), outcome_of(r)),
            self.settled() ==> outcome_of(r)
                == required_head(self.repository(), branch.deep_view()),
    {
        match self.store.branch_head(branch) {
            Ok(Some(id)) => Ok(id),
            Ok(None) => Err(RevisionError::BranchNotFound(branch.text())),
            Err(error) => Err(error),
        }
    }

    /// The common ancestor that a merge of two revisions starts from.
    pub fn find_merge_base(&self, ours: &RevisionId, theirs: &RevisionId) -> (r: Result<RevisionId>)
        ensures
            self.settled() ==> outcome_of(r) == required_base(
                self.repository(),
                ours.deep_view(),
                theirs.deep_view(),
            ),
            r matches Ok(base) ==> required_base(
                self.repository(),
                ours.deep_view(),
                theirs.deep_view(),
            ) == Ok::<Seq<char>, RevisionErrorView>(base.deep_view()),
            r matches Err(error) ==> read_failed(self.held(), error.deep_view()) || required_base(
                self.repository(),
                ours.deep_view(),
                theirs.deep_view(),
            ) == Err::<Seq<char>, RevisionErrorView>(error.deep_view()),
    {
        let our_walk = match walk_back(&self.store, ours) {
            Ok(walk) => walk,
            Err(error) => return Err(error),
        };
        let their_walk = match walk_back(&self.store, theirs) {
            Ok(walk) => walk,
            Err(error) => return Err(error),
        };
        let chosen = choose_merge_base(&our_walk.distances, &their_walk.distances);
        proof {
            lemma_merge_base(
                self.repository().revisions,
                ours.deep_view(),
                theirs.deep_view(),
                our_walk.distances@,
                their_walk.distances@,
                chosen.deep_view(),
            );
        }
        match chosen {
            Some(base) => Ok(base),
            None => Err(
                RevisionError::NoCommonAncestor(
                    glue3(ours.0.as_str(), " and ", theirs.0.as_str()),
                ),
            ),
        }
    }

    /// Merges what two branches point to, without committing it.
    pub fn prepare_merge(&self, source: &BranchRef, target: &BranchRef) -> (r: Result<MergeResult>)
        ensures
            self.settled() ==> outcome_of(r) == prepare_outcome(
                self.repository(),
                source.deep_view(),
                target.deep_view(),
            ),
            pair_checked(source.deep_view(), target.deep_view()) matches Err(error) ==>
                outcome_of(r)
                == Err::<MergeResultView, RevisionErrorView>(error),
            r matches Ok(result) ==> merge_made(
                self.held(),
                source.deep_view(),
                target.deep_view(),
                result.deep_view(),
            ),
            r matches Err(error) ==> merge_failed(
                self.held(),
                source.deep_view(),
                target.deep_view(),
                error.deep_view(),
            ),
            r matches Ok(result) ==> result.deep_view().spec is Some
                == (result.deep_view().conflicts.len() == 0),
    {
        match validate_branch_pair(source, target) {
            Ok(_) => {},
            Err(error) => return Err(error),
        }
        let theirs_id = match self.branch_head(source) {
            Ok(id) => id,
            Err(error) => return Err(error),
        };
        let ours_id = match self.branch_head(target) {
            Ok(id) => id,
            Err(error) => return Err(error),
        };
        if theirs_id.same(&ours_id) {
            return Err(RevisionError::NothingToMerge(source.text()));
        }
        let base_id = match self.find_merge_base(&ours_id, &theirs_id) {
            Ok(id) => id,
            Err(error) => return Err(error),
        };
        let ours = match self.load_revision(&ours_id) {
            Ok(revision) => revision,
            Err(error) => return Err(error),
        };
        let theirs = match self.load_revision(&theirs_id) {
            Ok(revision) => revision,
            Err(error) => return Err(error),
        };
        let base = match self.load_revision(&base_id) {
            Ok(revision) => revision,
            Err(error) => return Err(error),
        };
        merge_specs(base_id, ours_id, theirs_id, &base.spec, &ours.spec, &theirs.spec)
    }

    /// Merges one branch into another.
    pub fn merge(&mut self, source: &BranchRef, target: &BranchRef, message: CommitMessage) -> (r: Result<
        AgentRevision,
    >)
        ensures
            old(self).settled() ==> final(self).settled() && (
                outcome_of(r),
                final(self).repository(),
            ) == merge_branches_outcome(
                old(self).repository(),
                source.deep_view(),
                target.deep_view(),
                message.deep_view(),
            ),
            pair_checked(source.deep_view(), target.deep_view()) matches Err(error) ==>
                outcome_of(r)
                == Err::<AgentRevisionView, RevisionErrorView>(error) && final(self).held() == old(
                self,
            ).held(),
            merged(
                old(self).held(),
                final(self).held(),
                source.deep_view(),
                target.deep_view(),
                message.deep_view(),
                outcome_of(r),
            ),
            r matches Ok(revision) ==> head_of(final(self).repository(), target.deep_view())
                == Some(revision.deep_view().revision_id),
    {
        let result = match self.prepare_merge(source, target) {
            Ok(result) => result,
            Err(error) => return Err(error),
        };
        match result.spec {
            Some(spec) => self.commit_merge(target, &result.theirs, spec, message),
            None => Err(RevisionError::MergeConflicts(paths_of(&result.conflicts))),
        }
    }

    /// Commits a merged specification to a branch, with two parents.
    pub fn commit_merge(
        &mut self,
        target: &BranchRef,
        source_revision: &RevisionId,
        spec: AgentSpec,
        message: CommitMessage,
    ) -> (r: Result<AgentRevision>)
        ensures
            old(self).settled() ==> final(self).settled() && (
                outcome_of(r),
                final(self).repository(),
            ) == commit_merge_outcome(
                old(self).repository(),
                target.deep_view(),
                source_revision.deep_view(),
                spec.deep_view(),
                message.deep_view(),
            ),
            merge_committed(
                old(self).held(),
                final(self).held(),
                target.deep_view(),
                source_revision.deep_view(),
                spec.deep_view(),
                message.deep_view(),
                outcome_of(r),
            ),
            r matches Ok(revision) ==> head_of(final(self).repository(), target.deep_view())
                == Some(revision.deep_view().revision_id),
    {
        let head = match self.branch_head(target) {
            Ok(head) => head,
            Err(error) => return Err(error),
        };
        if !spec.agent_id.same(&target.agent_id) {
            return Err(
                RevisionError::InvalidSpec(
                    glue4(
                        "merge spec belongs to ",
                        spec.agent_id.0.as_str(),
                        ", but target branch belongs to ",
                        target.agent_id.0.as_str(),
                    ),
                ),
            );
        }
        let source = match self.load_revision(source_revision) {
            Ok(source) => source,
            Err(error) => return Err(error),
        };
        let prepared = prepare_merge_commit(
            target,
            &head,
            source_revision,
            &source,
            spec,
            message,
        );
        self.update(target, &Some(head), prepared)
    }

    /// The parents of a revision.
    pub fn parents(&self, id: &RevisionId) -> (r: Result<Vec<AgentRevision>>)
        ensures
            self.settled() ==> outcome_of(r) == (match required_revision(
                self.repository(),
                id.deep_view(),
            ) {
                Ok(revision) => parents_outcome(self.repository(), revision.parents),
                Err(error) => Err(error),
            }),
            r matches Ok(parents) ==> {
                &&& required_revision(self.repository(), id.deep_view()) is Ok
                &&& parents_outcome(
                    self.repository(),
                    required_revision(self.repository(), id.deep_view())->Ok_0.parents,
                ) == Ok::<Seq<AgentRevisionView>, RevisionErrorView>(parents.deep_view())
            },
            r matches Err(error) ==> read_failed(self.held(), error.deep_view()),
    {
        let revision = match self.load_revision(id) {
            Ok(revision) => revision,
            Err(error) => return Err(error),
        };
        let ghost ids = revision.parents.deep_view();
        let ghost repository = self.repository();
        let mut parents: Vec<AgentRevision> = Vec::new();
        assert(ids.take(0) =~= Seq::<Seq<char>>::empty());
        assert(parents.deep_view() =~= Seq::<AgentRevisionView>::empty());
        for i in 0..revision.parents.len()
            invariant
                ids == revision.parents.deep_view(),
                repository == self.repository(),
                required_revision(repository, id.deep_view()) == Ok::<
                    AgentRevisionView,
                    RevisionErrorView,
                >(revision.deep_view()),
                parents_outcome(repository, ids.take(i as int)) == Ok::<
                    Seq<AgentRevisionView>,
                    RevisionErrorView,
                >(parents.deep_view()),
        {
            assert(ids.take(i + 1).drop_last() =~= ids.take(i as int));
            assert(ids.take(i + 1).last() == ids[i as int]);
            let ghost before = parents.deep_view();
            match self.load_revision(&revision.parents[i]) {
                Ok(parent) => {
                    parents.push(parent);
                    assert(parents.deep_view() =~= before.push(parent.deep_view()));
                },
                Err(error) => {
                    proof {
                        if self.settled() {
                            lemma_parents_prefix(repository, ids, i + 1);
                        }
                    }
                    return Err(error);
                },
            }
        }
        assert(ids.take(revision.parents.len() as int) =~= ids);
        Ok(parents)
    }

    /// The revisions of a branch, newest first.
    pub fn log(&self, branch: &BranchRef) -> (r: Result<Vec<AgentRevision>>)
        ensures
            self.settled() ==> outcome_of(r) == log_outcome(self.repository(), branch.deep_view()),
            r matches Ok(revisions) ==> exists|id: Seq<char>|
                {
                    &&& #[trigger] head_told(self.held(), branch.deep_view(), Ok(id))
                    &&& history(self.repository().revisions, id) is Ok
                    &&& revisions.deep_view() == revisions_of(
                        self.repository().revisions,
                        history(self.repository().revisions, id)->Ok_0,
                    )
                },
            r matches Err(error) ==> head_told(
                self.held(),
                branch.deep_view(),
                Err(error.deep_view()),
            ) || read_failed(self.held(), error.deep_view()),
    {
        let id = match self.branch_head(branch) {
            Ok(id) => id,
            Err(error) => return Err(error),
        };
        match walk_back(&self.store, &id) {
            Ok(walk) => Ok(walk.revisions),
            Err(error) => Err(error),
        }
    }
}

} // verus!
