//! Where revisions and branches are kept.

use crate::revision::error::{Result, RevisionError, RevisionErrorView};
use crate::revision::ids::{BranchRef, BranchRefView, RevisionId};
use crate::revision::merge::lookup;
use crate::revision::revision::{AgentRevision, AgentRevisionView};
use crate::same::{outcome_of, Replica, Same};
use crate::text::glue3;
use crate::text_map::TextMap;
use vstd::prelude::*;

verus! {

/// What a store holds: immutable revisions, and the revision that each branch points to.
#[verifier::ext_equal]
pub struct Repository {
    pub revisions: Map<Seq<char>, AgentRevisionView>,
    pub heads: Map<BranchRefView, Seq<char>>,
}

/// The revision that a branch points to.
pub open spec fn head_of(repository: Repository, branch: BranchRefView) -> Option<Seq<char>> {
    if repository.heads.contains_key(branch) {
        Some(repository.heads[branch])
    } else {
        None
    }
}

/// What a store holds once a revision is saved. A revision is never replaced by another one.
pub open spec fn saved(repository: Repository, revision: AgentRevisionView) -> core::result::Result<
    Repository,
    RevisionErrorView,
> {
    let id = revision.revision_id;
    if repository.revisions.contains_key(id) && repository.revisions[id] != revision {
        Err(
            RevisionErrorView::Store(
                "revision object "@ + id + " already contains different data"@,
            ),
        )
    } else {
        Ok(Repository { revisions: repository.revisions.insert(id, revision), ..repository })
    }
}

/// What a store holds once a branch points to a revision.
pub open spec fn advanced(
    repository: Repository,
    branch: BranchRefView,
    next: Seq<char>,
) -> Repository {
    Repository { heads: repository.heads.insert(branch, next), ..repository }
}

/// Persistence contract for immutable revisions and mutable branch refs.
pub trait RevisionStore: Sized {
    /// What the store holds. Every revision that can be loaded is among its revisions.
    spec fn repository(&self) -> Repository;

    /// The store never fails, and nobody else writes to it.
    spec fn settled(&self) -> bool;

    /// The store may answer this when it is asked for a revision.
    spec fn gives(
        &self,
        id: Seq<char>,
        answer: core::result::Result<Option<AgentRevisionView>, RevisionErrorView>,
    ) -> bool;

    /// The store may be like this, and answer this, once a revision was to be kept.
    spec fn keeps(
        &self,
        revision: AgentRevisionView,
        after: Self,
        answer: core::result::Result<(), RevisionErrorView>,
    ) -> bool;

    /// The store may answer this when it is asked what a branch points to.
    spec fn tells(
        &self,
        branch: BranchRefView,
        answer: core::result::Result<Option<Seq<char>>, RevisionErrorView>,
    ) -> bool;

    /// The store may be like this, and answer this, once a branch was to be moved.
    spec fn moves(
        &self,
        branch: BranchRefView,
        expected: Option<Seq<char>>,
        next: Seq<char>,
        after: Self,
        answer: core::result::Result<bool, RevisionErrorView>,
    ) -> bool;

    /// A store holds finitely many revisions.
    proof fn lemma_finite(&self)
        ensures
            self.repository().revisions.dom().finite(),
    ;

    /// The revision of a name.
    fn load_revision(&self, id: &RevisionId) -> (r: Result<Option<AgentRevision>>)
        ensures
            self.gives(id.deep_view(), outcome_of(r)),
            r matches Ok(Some(revision)) ==> lookup(self.repository().revisions, id.deep_view())
                == Some(revision.deep_view()),
            self.settled() ==> outcome_of(r) == Ok::<Option<AgentRevisionView>, RevisionErrorView>(
                lookup(self.repository().revisions, id.deep_view()),
            ),
    ;

    /// Keeps a revision.
    fn save_revision(&mut self, revision: &AgentRevision) -> (r: Result<()>)
        ensures
            old(self).keeps(revision.deep_view(), *final(self), outcome_of(r)),
            old(self).settled() ==> final(self).settled() && (match saved(
                old(self).repository(),
                revision.deep_view(),
            ) {
                Ok(after) => r is Ok && final(self).repository() == after,
                Err(error) => outcome_of(r) == Err::<(), RevisionErrorView>(error)
                    && final(self).repository() == old(self).repository(),
            }),
    ;

    /// The revision that a branch points to.
    fn branch_head(&self, branch: &BranchRef) -> (r: Result<Option<RevisionId>>)
        ensures
            self.tells(branch.deep_view(), outcome_of(r)),
            self.settled() ==> outcome_of(r) == Ok::<Option<Seq<char>>, RevisionErrorView>(
                head_of(self.repository(), branch.deep_view()),
            ),
    ;

    /// Lets a branch point to another revision, unless it points elsewhere than expected.
    fn compare_and_set_branch(
        &mut self,
        branch: &BranchRef,
        expected: &Option<RevisionId>,
        next: &RevisionId,
    ) -> (r: Result<bool>)
        ensures
            old(self).moves(
                branch.deep_view(),
                expected.deep_view(),
                next.deep_view(),
                *final(self),
                outcome_of(r),
            ),
            r matches Ok(moved) ==> moved ==> head_of(
                final(self).repository(),
                branch.deep_view(),
            ) == Some(next.deep_view()),
            old(self).settled() ==> {
                let before = old(self).repository();
                let fits = head_of(before, branch.deep_view()) == expected.deep_view();
                &&& final(self).settled()
                &&& outcome_of(r) == Ok::<bool, RevisionErrorView>(fits)
                &&& final(self).repository() == if fits {
                    advanced(before, branch.deep_view(), next.deep_view())
                } else {
                    before
                }
            },
    ;
}

/// A store in memory.
pub struct MemoryRevisionStore {
    revisions: TextMap<AgentRevision>,
    heads: TextMap<TextMap<RevisionId>>,
}

impl MemoryRevisionStore {
    /// The empty store.
    pub fn new() -> (r: Self)
        ensures
            r.repository() == (Repository { revisions: Map::empty(), heads: Map::empty() }),
            r.settled(),
    {
        let r = MemoryRevisionStore { revisions: TextMap::new(), heads: TextMap::new() };
        assert(r.revisions.deep_view() =~= Map::<Seq<char>, AgentRevisionView>::empty());
        assert(r.repository() =~= Repository { revisions: Map::empty(), heads: Map::empty() });
        r
    }

    closed spec fn has_head(&self, branch: BranchRefView) -> bool {
        self.heads@.contains_key(branch.agent_id) && self.heads@[branch.agent_id]@.contains_key(
            branch.name,
        )
    }
}

impl RevisionStore for MemoryRevisionStore {
    closed spec fn repository(&self) -> Repository {
        Repository {
            revisions: if self.revisions@.dom().finite() {
                self.revisions.deep_view()
            } else {
                Map::empty()
            },
            heads: Map::new(
                |branch: BranchRefView| self.has_head(branch),
                |branch: BranchRefView| self.heads@[branch.agent_id]@[branch.name].deep_view(),
            ),
        }
    }

    closed spec fn settled(&self) -> bool {
        true
    }

    open spec fn gives(
        &self,
        id: Seq<char>,
        answer: core::result::Result<Option<AgentRevisionView>, RevisionErrorView>,
    ) -> bool {
        answer == Ok::<Option<AgentRevisionView>, RevisionErrorView>(
            lookup(self.repository().revisions, id),
        )
    }

    open spec fn keeps(
        &self,
        revision: AgentRevisionView,
        after: Self,
        answer: core::result::Result<(), RevisionErrorView>,
    ) -> bool {
        match saved(self.repository(), revision) {
            Ok(next) => answer == Ok::<(), RevisionErrorView>(()) && after.repository() == next,
            Err(error) => answer == Err::<(), RevisionErrorView>(error) && after.repository()
                == self.repository(),
        }
    }

    open spec fn tells(
        &self,
        branch: BranchRefView,
        answer: core::result::Result<Option<Seq<char>>, RevisionErrorView>,
    ) -> bool {
        answer == Ok::<Option<Seq<char>>, RevisionErrorView>(head_of(self.repository(), branch))
    }

    open spec fn moves(
        &self,
        branch: BranchRefView,
        expected: Option<Seq<char>>,
        next: Seq<char>,
        after: Self,
        answer: core::result::Result<bool, RevisionErrorView>,
    ) -> bool {
        let fits = head_of(self.repository(), branch) == expected;
        &&& answer == Ok::<bool, RevisionErrorView>(fits)
        &&& after.repository() == if fits {
            advanced(self.repository(), branch, next)
        } else {
            self.repository()
        }
    }

    proof fn lemma_finite(&self) {
        assert(self.revisions.deep_view().dom() =~= self.revisions@.dom());
    }

    fn load_revision(&self, id: &RevisionId) -> (r: Result<Option<AgentRevision>>) {
        let n: usize = self.revisions.walk();
        assert(self.revisions@.dom().finite());
        match self.revisions.get(id.0.as_str()) {
            Some(revision) => Ok(Some(revision.replica())),
            None => Ok(None),
        }
    }

    fn save_revision(&mut self, revision: &AgentRevision) -> (r: Result<()>) {
        let n: usize = self.revisions.walk();
        assert(self.revisions@.dom().finite());
        let ghost before = self.repository();
        if let Some(existing) = self.revisions.get(revision.revision_id.0.as_str()) {
            if !existing.same(revision) {
                return Err(
                    RevisionError::Store(
                        glue3(
                            "revision object ",
                            revision.revision_id.0.as_str(),
                            " already contains different data",
                        ),
                    ),
                );
            }
        }
        self.revisions.insert(revision.revision_id.0.clone(), revision.replica());
        assert(self.repository().revisions =~= before.revisions.insert(
            revision.deep_view().revision_id,
            revision.deep_view(),
        ));
        assert(self.repository().heads =~= before.heads);
        Ok(())
    }

    fn branch_head(&self, branch: &BranchRef) -> (r: Result<Option<RevisionId>>) {
        match self.heads.get(branch.agent_id.0.as_str()) {
            Some(names) => match names.get(branch.name.0.as_str()) {
                Some(id) => Ok(Some(id.replica())),
                None => Ok(None),
            },
            None => Ok(None),
        }
    }

    fn compare_and_set_branch(
        &mut self,
        branch: &BranchRef,
        expected: &Option<RevisionId>,
        next: &RevisionId,
    ) -> (r: Result<bool>) {
        let ghost before = *self;
        let actual = match self.branch_head(branch) {
            Ok(actual) => actual,
            Err(error) => return Err(error),
        };
        if !actual.same(expected) {
            return Ok(false);
        }
        let mut names: TextMap<RevisionId> = match self.heads.remove(branch.agent_id.0.as_str()) {
            Some(names) => names,
            None => TextMap::new(),
        };
        names.insert(branch.name.0.clone(), next.replica());
        self.heads.insert(branch.agent_id.0.clone(), names);
        assert(self.repository().heads =~= before.repository().heads.insert(
            branch.deep_view(),
            next.deep_view(),
        ));
        assert(self.repository() =~= advanced(
            before.repository(),
            branch.deep_view(),
            next.deep_view(),
        ));
        Ok(true)
    }
}

} // verus!
