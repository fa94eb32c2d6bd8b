//! Names of agents, branches and revisions.

use crate::revision::error::{Result, RevisionError, RevisionErrorView};
use crate::same::{outcome_of, Replica, Same};
use crate::text::{blank, contains_char, glue2, glue3, is_blank, same_text};
use vstd::prelude::*;

verus! {

/// Names an agent.
#[derive(Debug, PartialEq, Eq, PartialOrd, Ord, Hash)]
pub struct AgentId(pub String);

impl DeepView for AgentId {
    type V = Seq<char>;

    open spec fn deep_view(&self) -> Self::V {
        self.0@
    }
}

impl Replica for AgentId {
    fn replica(&self) -> (r: Self) {
        AgentId(self.0.clone())
    }
}

impl Same for AgentId {
    fn same(&self, other: &Self) -> (r: bool) {
        self.0.same(&other.0)
    }
}

impl Clone for AgentId {
    fn clone(&self) -> (r: Self)
        ensures
            r.deep_view() == self.deep_view(),
    {
        self.replica()
    }
}

impl vstd::std_specs::convert::FromSpecImpl<&str> for AgentId {
    open spec fn obeys_from_spec() -> bool {
        false
    }

    open spec fn from_spec(value: &str) -> Self {
        arbitrary()
    }
}

impl From<&str> for AgentId {
    fn from(value: &str) -> (r: Self)
        ensures
            r.deep_view() == value@,
    {
        AgentId(value.to_owned())
    }
}

/// Names a branch of an agent.
#[derive(Debug, PartialEq, Eq, PartialOrd, Ord, Hash)]
pub struct BranchName(pub String);

impl DeepView for BranchName {
    type V = Seq<char>;

    open spec fn deep_view(&self) -> Self::V {
        self.0@
    }
}

impl Replica for BranchName {
    fn replica(&self) -> (r: Self) {
        BranchName(self.0.clone())
    }
}

impl Same for BranchName {
    fn same(&self, other: &Self) -> (r: bool) {
        self.0.same(&other.0)
    }
}

impl Clone for BranchName {
    fn clone(&self) -> (r: Self)
        ensures
            r.deep_view() == self.deep_view(),
    {
        self.replica()
    }
}

impl vstd::std_specs::convert::FromSpecImpl<&str> for BranchName {
    open spec fn obeys_from_spec() -> bool {
        false
    }

    open spec fn from_spec(value: &str) -> Self {
        arbitrary()
    }
}

impl From<&str> for BranchName {
    fn from(value: &str) -> (r: Self)
        ensures
            r.deep_view() == value@,
    {
        BranchName(value.to_owned())
    }
}

/// A branch of an agent.
#[derive(Debug, PartialEq, Eq, PartialOrd, Ord, Hash)]
pub struct BranchRef {
    pub agent_id: AgentId,
    pub name: BranchName,
}

/// What a [`BranchRef`] holds.
#[verifier::ext_equal]
pub struct BranchRefView {
    pub agent_id: Seq<char>,
    pub name: Seq<char>,
}

impl DeepView for BranchRef {
    type V = BranchRefView;

    open spec fn deep_view(&self) -> Self::V {
        BranchRefView {
            agent_id: self.agent_id.deep_view(),
            name: self.name.deep_view(),
        }
    }
}

impl Replica for BranchRef {
    fn replica(&self) -> (r: Self) {
        BranchRef {
            agent_id: self.agent_id.replica(),
            name: self.name.replica(),
        }
    }
}

impl Clone for BranchRef {
    fn clone(&self) -> (r: Self)
        ensures
            r.deep_view() == self.deep_view(),
    {
        self.replica()
    }
}

impl Same for BranchRef {
    fn same(&self, other: &Self) -> (r: bool) {
        self.agent_id.same(&other.agent_id)
            && self.name.same(&other.name)
    }
}

/// Names a revision by its content.
#[derive(Debug, PartialEq, Eq, PartialOrd, Ord, Hash)]
pub struct RevisionId(pub String);

impl DeepView for RevisionId {
    type V = Seq<char>;

    open spec fn deep_view(&self) -> Self::V {
        self.0@
    }
}

impl Replica for RevisionId {
    fn replica(&self) -> (r: Self) {
        RevisionId(self.0.clone())
    }
}

impl Same for RevisionId {
    fn same(&self, other: &Self) -> (r: bool) {
        self.0.same(&other.0)
    }
}

impl Clone for RevisionId {
    fn clone(&self) -> (r: Self)
        ensures
            r.deep_view() == self.deep_view(),
    {
        self.replica()
    }
}

/// The digest of a specification.
#[derive(Debug, PartialEq, Eq, PartialOrd, Ord, Hash)]
pub struct SpecDigest(pub String);

impl DeepView for SpecDigest {
    type V = Seq<char>;

    open spec fn deep_view(&self) -> Self::V {
        self.0@
    }
}

impl Replica for SpecDigest {
    fn replica(&self) -> (r: Self) {
        SpecDigest(self.0.clone())
    }
}

impl Same for SpecDigest {
    fn same(&self, other: &Self) -> (r: bool) {
        self.0.same(&other.0)
    }
}

impl Clone for SpecDigest {
    fn clone(&self) -> (r: Self)
        ensures
            r.deep_view() == self.deep_view(),
    {
        self.replica()
    }
}

/// What is wrong with a name that becomes part of a path, and how it is called.
pub open spec fn component_checked(kind: Seq<char>, value: Seq<char>) -> core::result::Result<
    (),
    RevisionErrorView,
> {
    if is_blank(value) {
        Err(RevisionErrorView::InvalidBranch(kind + " is empty"@))
    } else if value == "."@ || value == ".."@ || value.contains('/') || value.contains('\\') {
        Err(
            RevisionErrorView::InvalidBranch(
                kind + " contains a path separator or reserved component"@,
            ),
        )
    } else {
        Ok(())
    }
}

/// Rejects a name that cannot be part of a path.
pub fn validate_component(kind: &str, value: &str) -> (r: Result<()>)
    ensures
        outcome_of(r) == component_checked(kind@, value@),
{
    if blank(value) {
        return Err(RevisionError::InvalidBranch(glue2(kind, " is empty")));
    }
    if same_text(value, ".")
        || same_text(value, "..")
        || contains_char(value, '/')
        || contains_char(
        value,
        '\\',
    ) {
        return Err(
            RevisionError::InvalidBranch(
                glue2(kind, " contains a path separator or reserved component"),
            ),
        );
    }
    Ok(())
}

impl AgentId {
    /// An agent's name, unless it cannot be part of a path.
    pub fn new(value: String) -> (r: Result<Self>)
        ensures
            outcome_of(r) == (match component_checked("agent id"@, value@) {
                Ok(_) => Ok::<Seq<char>, RevisionErrorView>(value@),
                Err(error) => Err(error),
            }),
    {
        match validate_component("agent id", value.as_str()) {
            Ok(_) => Ok(AgentId(value)),
            Err(error) => Err(error),
        }
    }
}

impl BranchName {
    /// A branch's name, unless it cannot be part of a path.
    pub fn new(value: String) -> (r: Result<Self>)
        ensures
            outcome_of(r) == (match component_checked("branch name"@, value@) {
                Ok(_) => Ok::<Seq<char>, RevisionErrorView>(value@),
                Err(error) => Err(error),
            }),
    {
        match validate_component("branch name", value.as_str()) {
            Ok(_) => Ok(BranchName(value)),
            Err(error) => Err(error),
        }
    }
}

/// How a branch is written.
pub open spec fn branch_text(branch: BranchRefView) -> Seq<char> {
    branch.agent_id + "/"@ + branch.name
}

impl BranchRef {
    /// The branch of an agent.
    pub fn new(agent_id: AgentId, name: BranchName) -> (r: Self)
        ensures
            r.deep_view()
                == (BranchRefView { agent_id: agent_id.deep_view(), name: name.deep_view() }),
    {
        BranchRef { agent_id, name }
    }

    /// How the branch is written.
    pub fn text(&self) -> (r: String)
        ensures
            r@ == branch_text(self.deep_view()),
    {
        glue3(self.agent_id.0.as_str(), "/", self.name.0.as_str())
    }
}

/// Branches that are written alike are the same, when their names can be part of a path.
pub proof fn law_branch_text_is_unique(a: BranchRefView, b: BranchRefView)
    requires
        component_checked("agent id"@, a.agent_id) is Ok,
        component_checked("agent id"@, b.agent_id) is Ok,
        branch_text(a) == branch_text(b),
    ensures
        a == b,
{
    reveal_strlit("/");
    let s = branch_text(a);
    let n = a.agent_id.len() as int;
    let m = b.agent_id.len() as int;
    assert(s[n] == '/');
    assert(s[m] == '/');
    if n < m {
        assert(b.agent_id[n] == s[n]);
        assert(b.agent_id.contains('/'));
    }
    if m < n {
        assert(a.agent_id[m] == s[m]);
        assert(a.agent_id.contains('/'));
    }
    assert(a.agent_id =~= s.take(n));
    assert(b.agent_id =~= s.take(n));
    assert(a.name =~= s.skip(n + 1));
    assert(b.name =~= s.skip(n + 1));
}

} // verus!
