//! Revisions of specifications.

use crate::codec::RecordWriter;
use crate::codec::object_text;
use crate::digest::{digest_text, is_digest, text_digest};
use crate::json::{json_quoted, quoted};
use crate::revision::diff::{diff_outcome, AgentDiff};
use crate::revision::error::{Result, RevisionError, RevisionErrorView};
use crate::revision::ids::{AgentId, RevisionId, SpecDigest};
use crate::revision::revision_codec::{
    commit_message_text, parents_text, revision_metadata_text, write_commit_message, write_parents,
    write_revision_metadata,
};
use crate::revision::spec::{spec_checked, spec_digest, AgentSpec, AgentSpecView};
use crate::same::{outcome_of, Replica, Same};
use crate::text::{blank, contains_char, is_blank, same_text};
use vstd::prelude::*;

verus! {

/// What a revision is about.
#[derive(Debug, PartialEq, Eq)]
pub struct CommitMessage {
    pub subject: String,
    pub body: Option<String>,
}

/// What a [`CommitMessage`] holds.
#[verifier::ext_equal]
pub struct CommitMessageView {
    pub subject: Seq<char>,
    pub body: Option<Seq<char>>,
}

impl DeepView for CommitMessage {
    type V = CommitMessageView;

    open spec fn deep_view(&self) -> Self::V {
        CommitMessageView {
            subject: self.subject.deep_view(),
            body: self.body.deep_view(),
        }
    }
}

impl Replica for CommitMessage {
    fn replica(&self) -> (r: Self) {
        CommitMessage {
            subject: self.subject.replica(),
            body: self.body.replica(),
        }
    }
}

impl Clone for CommitMessage {
    fn clone(&self) -> (r: Self)
        ensures
            r.deep_view() == self.deep_view(),
    {
        self.replica()
    }
}

impl Same for CommitMessage {
    fn same(&self, other: &Self) -> (r: bool) {
        self.subject.same(&other.subject)
            && self.body.same(&other.body)
    }
}

/// Who made a revision, and when.
#[derive(Debug, PartialEq, Eq)]
pub struct RevisionMetadata {
    pub author: Option<String>,
    pub created_at: Option<String>,
}

/// What a [`RevisionMetadata`] holds.
#[verifier::ext_equal]
pub struct RevisionMetadataView {
    pub author: Option<Seq<char>>,
    pub created_at: Option<Seq<char>>,
}

impl DeepView for RevisionMetadata {
    type V = RevisionMetadataView;

    open spec fn deep_view(&self) -> Self::V {
        RevisionMetadataView {
            author: self.author.deep_view(),
            created_at: self.created_at.deep_view(),
        }
    }
}

impl Replica for RevisionMetadata {
    fn replica(&self) -> (r: Self) {
        RevisionMetadata {
            author: self.author.replica(),
            created_at: self.created_at.replica(),
        }
    }
}

impl Clone for RevisionMetadata {
    fn clone(&self) -> (r: Self)
        ensures
            r.deep_view() == self.deep_view(),
    {
        self.replica()
    }
}

impl Same for RevisionMetadata {
    fn same(&self, other: &Self) -> (r: bool) {
        self.author.same(&other.author)
            && self.created_at.same(&other.created_at)
    }
}

/// A specification with its history.
#[derive(Debug, PartialEq, Eq)]
pub struct AgentRevision {
    pub revision_id: RevisionId,
    pub agent_id: AgentId,
    pub spec_digest: SpecDigest,
    pub spec: AgentSpec,
    pub parents: Vec<RevisionId>,
    pub message: CommitMessage,
    pub metadata: RevisionMetadata,
}

/// What an [`AgentRevision`] holds.
#[verifier::ext_equal]
pub struct AgentRevisionView {
    pub revision_id: Seq<char>,
    pub agent_id: Seq<char>,
    pub spec_digest: Seq<char>,
    pub spec: AgentSpecView,
    pub parents: Seq<Seq<char>>,
    pub message: CommitMessageView,
    pub metadata: RevisionMetadataView,
}

impl DeepView for AgentRevision {
    type V = AgentRevisionView;

    open spec fn deep_view(&self) -> Self::V {
        AgentRevisionView {
            revision_id: self.revision_id.deep_view(),
            agent_id: self.agent_id.deep_view(),
            spec_digest: self.spec_digest.deep_view(),
            spec: self.spec.deep_view(),
            parents: self.parents.deep_view(),
            message: self.message.deep_view(),
            metadata: self.metadata.deep_view(),
        }
    }
}

impl Replica for AgentRevision {
    fn replica(&self) -> (r: Self) {
        AgentRevision {
            revision_id: self.revision_id.replica(),
            agent_id: self.agent_id.replica(),
            spec_digest: self.spec_digest.replica(),
            spec: self.spec.replica(),
            parents: self.parents.replica(),
            message: self.message.replica(),
            metadata: self.metadata.replica(),
        }
    }
}

impl Clone for AgentRevision {
    fn clone(&self) -> (r: Self)
        ensures
            r.deep_view() == self.deep_view(),
    {
        self.replica()
    }
}

impl Same for AgentRevision {
    fn same(&self, other: &Self) -> (r: bool) {
        self.revision_id.same(&other.revision_id)
            && self.agent_id.same(&other.agent_id)
            && self.spec_digest.same(&other.spec_digest)
            && self.spec.same(&other.spec)
            && self.parents.same(&other.parents)
            && self.message.same(&other.message)
            && self.metadata.same(&other.metadata)
    }
}

/// What is wrong with the subject of a message.
pub open spec fn subject_checked(
    subject: Seq<char>,
) -> core::result::Result<(), RevisionErrorView> {
    if is_blank(subject) {
        Err(RevisionErrorView::InvalidCommitMessage("subject is empty"@))
    } else if subject.contains('\n') || subject.contains('\r') {
        Err(RevisionErrorView::InvalidCommitMessage("subject must be a single line"@))
    } else {
        Ok(())
    }
}

/// A message, unless its subject is blank or has more than one line.
pub open spec fn message_made(subject: Seq<char>, body: Option<Seq<char>>) -> core::result::Result<
    CommitMessageView,
    RevisionErrorView,
> {
    match subject_checked(subject) {
        Ok(_) => Ok(CommitMessageView { subject, body }),
        Err(error) => Err(error),
    }
}

impl CommitMessage {
    /// A message without a body.
    pub fn new(subject: &str) -> (r: Result<Self>)
        ensures
            outcome_of(r) == message_made(subject@, None),
    {
        Self::with_body(subject, None)
    }

    /// A message.
    pub fn with_body(subject: &str, body: Option<String>) -> (r: Result<Self>)
        ensures
            outcome_of(r) == message_made(subject@, body.deep_view()),
    {
        if blank(subject) {
            return Err(RevisionError::InvalidCommitMessage("subject is empty".to_owned()));
        }
        if contains_char(subject, '\n') || contains_char(subject, '\r') {
            return Err(
                RevisionError::InvalidCommitMessage("subject must be a single line".to_owned()),
            );
        }
        Ok(CommitMessage { subject: subject.to_owned(), body })
    }
}

/// The first parent that is blank or was there before, if any.
pub open spec fn parents_checked(parents: Seq<Seq<char>>) -> core::result::Result<
    (),
    RevisionErrorView,
>
    decreases parents.len(),
{
    if parents.len() == 0 {
        Ok(())
    } else {
        match parents_checked(parents.drop_last()) {
            Err(error) => Err(error),
            Ok(_) => if is_blank(parents.last()) {
                Err(RevisionErrorView::InvalidSpec("parent revision ID is empty"@))
            } else if parents.drop_last().contains(parents.last()) {
                Err(RevisionErrorView::InvalidSpec("duplicate parent revision ID"@))
            } else {
                Ok(())
            },
        }
    }
}

proof fn lemma_parents_prefix(parents: Seq<Seq<char>>, n: int)
    requires
        0 <= n <= parents.len(),
        parents_checked(parents.take(n)) is Err,
    ensures
        parents_checked(parents) == parents_checked(parents.take(n)),
    decreases parents.len() - n,
{
    if n < parents.len() {
        assert(parents.take(n + 1).drop_last() =~= parents.take(n));
        lemma_parents_prefix(parents, n + 1);
    } else {
        assert(parents.take(n) =~= parents);
    }
}

/// Rejects a parent that is blank or named twice.
pub fn validate_parents(parents: &Vec<RevisionId>) -> (r: Result<()>)
    ensures
        outcome_of(r) == parents_checked(parents.deep_view()),
{
    let ghost ids = parents.deep_view();
    assert(ids.take(0) =~= Seq::<Seq<char>>::empty());
    for i in 0..parents.len()
        invariant
            ids == parents.deep_view(),
            parents_checked(ids.take(i as int)) is Ok,
    {
        let parent = parents[i].0.as_str();
        let ghost before = ids.take(i as int);
        assert(ids.take(i + 1).drop_last() =~= before);
        assert(ids.take(i + 1).last() == parent@);
        if blank(parent) {
            proof {
                lemma_parents_prefix(ids, i + 1);
            }
            return Err(RevisionError::InvalidSpec("parent revision ID is empty".to_owned()));
        }
        for j in 0..i
            invariant
                ids == parents.deep_view(),
                before == ids.take(i as int),
                i < parents@.len(),
                parents_checked(before) is Ok,
                ids.take(i + 1).drop_last() == before,
                ids.take(i + 1).last() == parent@,
                !is_blank(parent@),
                forall|k: int| 0 <= k < j ==> #[trigger] before[k] != parent@,
        {
            if same_text(parents[j].0.as_str(), parent) {
                proof {
                    assert(before[j as int] == parent@);
                    lemma_parents_prefix(ids, i + 1);
                }
                return Err(RevisionError::InvalidSpec("duplicate parent revision ID".to_owned()));
            }
        }
        assert(!before.contains(parent@));
    }
    assert(ids.take(parents.len() as int) =~= ids);
    Ok(())
}

/// What identifies a revision.
#[verifier::ext_equal]
pub struct RevisionIdentity {
    pub agent_id: Seq<char>,
    pub spec_digest: Seq<char>,
    pub parents: Seq<Seq<char>>,
    pub message: CommitMessageView,
    pub metadata: RevisionMetadataView,
}

/// The text of what identifies a revision, its fields in order.
pub open spec fn identity_text(identity: RevisionIdentity) -> Seq<char> {
    object_text(
        seq![
            ("agent_id"@, json_quoted(identity.agent_id)),
            ("spec_digest"@, json_quoted(identity.spec_digest)),
            ("parents"@, parents_text(identity.parents)),
            ("message"@, commit_message_text(identity.message)),
            ("metadata"@, revision_metadata_text(identity.metadata)),
        ],
    )
}

/// A revision: it is named by the digest of what identifies it.
pub open spec fn revision_made(
    spec: AgentSpecView,
    parents: Seq<Seq<char>>,
    message: CommitMessageView,
    metadata: RevisionMetadataView,
) -> AgentRevisionView {
    AgentRevisionView {
        revision_id: text_digest(
            identity_text(
                RevisionIdentity {
                    agent_id: spec.agent_id,
                    spec_digest: spec_digest(spec),
                    parents,
                    message,
                    metadata,
                },
            ),
        ),
        agent_id: spec.agent_id,
        spec_digest: spec_digest(spec),
        spec,
        parents,
        message,
        metadata,
    }
}

/// A revision, unless its specification or its parents are not as they should be.
pub open spec fn revision_outcome(
    spec: AgentSpecView,
    parents: Seq<Seq<char>>,
    message: CommitMessageView,
    metadata: RevisionMetadataView,
) -> core::result::Result<AgentRevisionView, RevisionErrorView> {
    match spec_checked(spec) {
        Err(error) => Err(error),
        Ok(_) => match parents_checked(parents) {
            Err(error) => Err(error),
            Ok(_) => Ok(revision_made(spec, parents, message, metadata)),
        },
    }
}

impl AgentRevision {
    /// Makes a revision of a specification.
    pub fn commit(
        spec: AgentSpec,
        parents: Vec<RevisionId>,
        message: CommitMessage,
        metadata: RevisionMetadata,
    ) -> (r: Result<Self>)
        ensures
            outcome_of(r) == revision_outcome(
                spec.deep_view(),
                parents.deep_view(),
                message.deep_view(),
                metadata.deep_view(),
            ),
            r matches Ok(revision) ==> is_digest(revision.deep_view().revision_id) && is_digest(
                revision.deep_view().spec_digest,
            ),
    {
        match spec.validate() {
            Ok(_) => {},
            Err(error) => return Err(error),
        }
        match validate_parents(&parents) {
            Ok(_) => {},
            Err(error) => return Err(error),
        }
        let digest = match spec.digest() {
            Ok(digest) => digest,
            Err(error) => return Err(error),
        };
        let writer = RecordWriter::new().field(
            "agent_id",
            quoted(spec.agent_id.0.as_str()).as_str(),
        ).field("spec_digest", quoted(digest.0.as_str()).as_str()).field(
            "parents",
            write_parents(&parents).as_str(),
        ).field("message", write_commit_message(&message).as_str()).field(
            "metadata",
            write_revision_metadata(&metadata).as_str(),
        );
        let ghost identity = RevisionIdentity {
            agent_id: spec.deep_view().agent_id,
            spec_digest: digest.deep_view(),
            parents: parents.deep_view(),
            message: message.deep_view(),
            metadata: metadata.deep_view(),
        };
        assert(writer.fields() =~= seq![
            ("agent_id"@, json_quoted(identity.agent_id)),
            ("spec_digest"@, json_quoted(identity.spec_digest)),
            ("parents"@, parents_text(identity.parents)),
            ("message"@, commit_message_text(identity.message)),
            ("metadata"@, revision_metadata_text(identity.metadata)),
        ]);
        let revision_id = RevisionId(digest_text(writer.finish().as_str()));
        Ok(
            AgentRevision {
                revision_id,
                agent_id: spec.agent_id.clone(),
                spec_digest: digest,
                spec,
                parents,
                message,
                metadata,
            },
        )
    }

    /// What changed from this revision to another.
    pub fn diff(&self, other: &Self) -> (r: Result<AgentDiff>)
        ensures
            outcome_of(r) == diff_outcome(self.deep_view().spec, other.deep_view().spec),
    {
        self.spec.diff(&other.spec)
    }
}

/// No parent of a revision is blank, and none is named twice.
pub proof fn law_parents_are_distinct(parents: Seq<Seq<char>>)
    ensures
        parents_checked(parents) is Ok <==> parents.no_duplicates() && forall|i: int|
            0 <= i < parents.len() ==> !is_blank(#[trigger] parents[i]),
    decreases parents.len(),
{
    if parents.len() > 0 {
        let init = parents.drop_last();
        law_parents_are_distinct(init);
        if parents.no_duplicates() && forall|i: int|
            0 <= i < parents.len() ==> !is_blank(#[trigger] parents[i]) {
            assert(forall|i: int| 0 <= i < init.len() ==> #[trigger] init[i] == parents[i]);
            assert(!is_blank(parents[parents.len() - 1]));
        }
        if parents_checked(parents) is Ok {
            assert forall|i: int, j: int|
                0 <= i < parents.len() && 0 <= j < parents.len() && i != j implies parents[i]
                != parents[j] by {
                if i < init.len() && j < init.len() {
                    assert(init[i] == parents[i] && init[j] == parents[j]);
                } else if i < init.len() {
                    assert(init[i] == parents[i]);
                } else {
                    assert(init[j] == parents[j]);
                }
            }
            assert forall|i: int| 0 <= i < parents.len() implies !is_blank(#[trigger] parents[i]) by {
                if i < init.len() {
                    assert(init[i] == parents[i]);
                }
            }
        }
    }
}

} // verus!
