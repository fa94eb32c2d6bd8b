//! Errors of revisions.

use crate::same::Replica;
use crate::text::{glue2, join, join_texts};
use vstd::prelude::*;

verus! {

/// Why a revision, or a change of one, could not be made.
#[derive(Debug, PartialEq, Eq)]
pub enum RevisionError {
    InvalidSpec(String),
    InvalidCommitMessage(String),
    InvalidBranch(String),
    Serialization(String),
    Store(String),
    RevisionNotFound(String),
    BranchNotFound(String),
    BranchAlreadyExists(String),
    ConcurrentUpdate(String),
    NoCommonAncestor(String),
    NothingToMerge(String),
    MergeConflicts(Vec<String>),
}

/// What a [`RevisionError`] holds.
#[verifier::ext_equal]
pub enum RevisionErrorView {
    InvalidSpec(Seq<char>),
    InvalidCommitMessage(Seq<char>),
    InvalidBranch(Seq<char>),
    Serialization(Seq<char>),
    Store(Seq<char>),
    RevisionNotFound(Seq<char>),
    BranchNotFound(Seq<char>),
    BranchAlreadyExists(Seq<char>),
    ConcurrentUpdate(Seq<char>),
    NoCommonAncestor(Seq<char>),
    NothingToMerge(Seq<char>),
    MergeConflicts(Seq<Seq<char>>),
}

impl DeepView for RevisionError {
    type V = RevisionErrorView;

    open spec fn deep_view(&self) -> Self::V {
        match self {
            RevisionError::InvalidSpec(value) => RevisionErrorView::InvalidSpec(value.deep_view()),
            RevisionError::InvalidCommitMessage(value) => RevisionErrorView::InvalidCommitMessage(
                value.deep_view(),
            ),
            RevisionError::InvalidBranch(value) => RevisionErrorView::InvalidBranch(
                value.deep_view(),
            ),
            RevisionError::Serialization(value) => RevisionErrorView::Serialization(
                value.deep_view(),
            ),
            RevisionError::Store(value) => RevisionErrorView::Store(value.deep_view()),
            RevisionError::RevisionNotFound(value) => RevisionErrorView::RevisionNotFound(
                value.deep_view(),
            ),
            RevisionError::BranchNotFound(value) => RevisionErrorView::BranchNotFound(
                value.deep_view(),
            ),
            RevisionError::BranchAlreadyExists(value) => RevisionErrorView::BranchAlreadyExists(
                value.deep_view(),
            ),
            RevisionError::ConcurrentUpdate(value) => RevisionErrorView::ConcurrentUpdate(
                value.deep_view(),
            ),
            RevisionError::NoCommonAncestor(value) => RevisionErrorView::NoCommonAncestor(
                value.deep_view(),
            ),
            RevisionError::NothingToMerge(value) => RevisionErrorView::NothingToMerge(
                value.deep_view(),
            ),
            RevisionError::MergeConflicts(value) => RevisionErrorView::MergeConflicts(
                value.deep_view(),
            ),
        }
    }
}

impl Replica for RevisionError {
    fn replica(&self) -> (r: Self) {
        match self {
            RevisionError::InvalidSpec(value) => RevisionError::InvalidSpec(value.replica()),
            RevisionError::InvalidCommitMessage(value) => RevisionError::InvalidCommitMessage(
                value.replica(),
            ),
            RevisionError::InvalidBranch(value) => RevisionError::InvalidBranch(value.replica()),
            RevisionError::Serialization(value) => RevisionError::Serialization(value.replica()),
            RevisionError::Store(value) => RevisionError::Store(value.replica()),
            RevisionError::RevisionNotFound(value) => RevisionError::RevisionNotFound(
                value.replica(),
            ),
            RevisionError::BranchNotFound(value) => RevisionError::BranchNotFound(value.replica()),
            RevisionError::BranchAlreadyExists(value) => RevisionError::BranchAlreadyExists(
                value.replica(),
            ),
            RevisionError::ConcurrentUpdate(value) => RevisionError::ConcurrentUpdate(
                value.replica(),
            ),
            RevisionError::NoCommonAncestor(value) => RevisionError::NoCommonAncestor(
                value.replica(),
            ),
            RevisionError::NothingToMerge(value) => RevisionError::NothingToMerge(value.replica()),
            RevisionError::MergeConflicts(value) => RevisionError::MergeConflicts(value.replica()),
        }
    }
}

impl Clone for RevisionError {
    fn clone(&self) -> (r: Self)
        ensures
            r.deep_view() == self.deep_view(),
    {
        self.replica()
    }
}

/// The message of an error.
pub open spec fn revision_error_text(error: RevisionErrorView) -> Seq<char> {
    match error {
        RevisionErrorView::InvalidSpec(message) => "invalid agent spec: "@ + message,
        RevisionErrorView::InvalidCommitMessage(message) => "invalid commit message: "@ + message,
        RevisionErrorView::InvalidBranch(message) => "invalid branch: "@ + message,
        RevisionErrorView::Serialization(message) => "serialization failed: "@ + message,
        RevisionErrorView::Store(message) => "revision store failed: "@ + message,
        RevisionErrorView::RevisionNotFound(message) => "revision not found: "@ + message,
        RevisionErrorView::BranchNotFound(message) => "branch not found: "@ + message,
        RevisionErrorView::BranchAlreadyExists(message) => "branch already exists: "@ + message,
        RevisionErrorView::ConcurrentUpdate(message) => "branch changed concurrently: "@ + message,
        RevisionErrorView::NoCommonAncestor(message) => "branches have no common ancestor: "@
            + message,
        RevisionErrorView::NothingToMerge(message) => "nothing to merge: "@ + message,
        RevisionErrorView::MergeConflicts(paths) => "merge has conflicts at: "@
            + join(paths, ", "@),
    }
}

impl RevisionError {
    /// The message of the error.
    pub fn text(&self) -> (r: String)
        ensures
            r@ == revision_error_text(self.deep_view()),
    {
        match self {
            RevisionError::InvalidSpec(message) => glue2("invalid agent spec: ", message.as_str()),
            RevisionError::InvalidCommitMessage(message) => glue2(
                "invalid commit message: ",
                message.as_str(),
            ),
            RevisionError::InvalidBranch(message) => glue2("invalid branch: ", message.as_str()),
            RevisionError::Serialization(message) => glue2(
                "serialization failed: ",
                message.as_str(),
            ),
            RevisionError::Store(message) => glue2("revision store failed: ", message.as_str()),
            RevisionError::RevisionNotFound(message) => glue2(
                "revision not found: ",
                message.as_str(),
            ),
            RevisionError::BranchNotFound(message) => glue2("branch not found: ", message.as_str()),
            RevisionError::BranchAlreadyExists(message) => glue2(
                "branch already exists: ",
                message.as_str(),
            ),
            RevisionError::ConcurrentUpdate(message) => glue2(
                "branch changed concurrently: ",
                message.as_str(),
            ),
            RevisionError::NoCommonAncestor(message) => glue2(
                "branches have no common ancestor: ",
                message.as_str(),
            ),
            RevisionError::NothingToMerge(message) => glue2("nothing to merge: ", message.as_str()),
            RevisionError::MergeConflicts(paths) => glue2(
                "merge has conflicts at: ",
                join_texts(paths, ", ").as_str(),
            ),
        }
    }
}

/// The result of an operation on revisions.
pub type Result<T> = core::result::Result<T, RevisionError>;

} // verus!
