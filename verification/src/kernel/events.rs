//! Threads, turns and their records.

use crate::json::{Json, JsonView};
use crate::kernel::model::{
    ModelContinuation, ModelContinuationView, ModelFunctionCall, ModelFunctionCallView,
};
use crate::same::{Replica, Same};
use crate::text::same_text;
use vstd::prelude::*;

verus! {

/// Tokens that model requests took.
#[derive(Clone, Copy, Debug, PartialEq, Eq, Structural)]
pub struct TokenUsage {
    pub input_tokens: u64,
    pub cached_input_tokens: u64,
    pub output_tokens: u64,
    pub total_tokens: u64,
}

impl DeepView for TokenUsage {
    type V = TokenUsage;

    open spec fn deep_view(&self) -> Self::V {
        *self
    }
}

impl Replica for TokenUsage {
    fn replica(&self) -> (r: Self) {
        *self
    }
}

impl Same for TokenUsage {
    fn same(&self, other: &Self) -> (r: bool) {
        *self == *other
    }
}

/// How far a goal is.
#[derive(Clone, Copy, Debug, PartialEq, Eq, Structural)]
pub enum GoalStatus {
    Active,
    Complete,
    Blocked,
}

impl DeepView for GoalStatus {
    type V = GoalStatus;

    open spec fn deep_view(&self) -> Self::V {
        *self
    }
}

impl Replica for GoalStatus {
    fn replica(&self) -> (r: Self) {
        *self
    }
}

impl Same for GoalStatus {
    fn same(&self, other: &Self) -> (r: bool) {
        *self == *other
    }
}

/// The explicit goal of a thread.
#[derive(Debug, PartialEq, Eq)]
pub struct GoalState {
    pub objective: String,
    pub status: GoalStatus,
    pub notes: Option<String>,
}

/// What a [`GoalState`] holds.
#[verifier::ext_equal]
pub struct GoalStateView {
    pub objective: Seq<char>,
    pub status: GoalStatus,
    pub notes: Option<Seq<char>>,
}

impl DeepView for GoalState {
    type V = GoalStateView;

    open spec fn deep_view(&self) -> Self::V {
        GoalStateView {
            objective: self.objective.deep_view(),
            status: self.status.deep_view(),
            notes: self.notes.deep_view(),
        }
    }
}

impl Replica for GoalState {
    fn replica(&self) -> (r: Self) {
        GoalState {
            objective: self.objective.replica(),
            status: self.status.replica(),
            notes: self.notes.replica(),
        }
    }
}

impl Clone for GoalState {
    fn clone(&self) -> (r: Self)
        ensures
            r.deep_view() == self.deep_view(),
    {
        self.replica()
    }
}

/// Why a turn is suspended.
#[derive(Clone, Copy, Debug, PartialEq, Eq, Structural)]
pub enum SuspensionKind {
    /// A function left work behind that goes on outside the turn.
    LongRunningJob,
    /// A function was started, and nothing tells whether it ended.
    FunctionRecovery,
}

impl DeepView for SuspensionKind {
    type V = SuspensionKind;

    open spec fn deep_view(&self) -> Self::V {
        *self
    }
}

impl Replica for SuspensionKind {
    fn replica(&self) -> (r: Self) {
        *self
    }
}

impl Same for SuspensionKind {
    fn same(&self, other: &Self) -> (r: bool) {
        *self == *other
    }
}

/// A turn that waits for something outside.
#[derive(Debug, PartialEq, Eq)]
pub struct Suspension {
    pub id: String,
    pub kind: SuspensionKind,
    pub payload: Json,
}

/// What a [`Suspension`] holds.
#[verifier::ext_equal]
pub struct SuspensionView {
    pub id: Seq<char>,
    pub kind: SuspensionKind,
    pub payload: JsonView,
}

impl DeepView for Suspension {
    type V = SuspensionView;

    open spec fn deep_view(&self) -> Self::V {
        SuspensionView {
            id: self.id.deep_view(),
            kind: self.kind.deep_view(),
            payload: self.payload.deep_view(),
        }
    }
}

impl Replica for Suspension {
    fn replica(&self) -> (r: Self) {
        Suspension {
            id: self.id.replica(),
            kind: self.kind.replica(),
            payload: self.payload.replica(),
        }
    }
}

impl Clone for Suspension {
    fn clone(&self) -> (r: Self)
        ensures
            r.deep_view() == self.deep_view(),
    {
        self.replica()
    }
}

/// How a function call ended.
#[derive(Debug, PartialEq, Eq)]
pub enum ToolResult {
    Success { output: Json },
    Error { error: String },
    Aborted { reason: String },
}

/// What a [`ToolResult`] holds.
#[verifier::ext_equal]
pub enum ToolResultView {
    Success { output: JsonView },
    Error { error: Seq<char> },
    Aborted { reason: Seq<char> },
}

impl DeepView for ToolResult {
    type V = ToolResultView;

    open spec fn deep_view(&self) -> Self::V {
        match self {
            ToolResult::Success { output } => ToolResultView::Success {
                output: output.deep_view(),
            },
            ToolResult::Error { error } => ToolResultView::Error {
                error: error.deep_view(),
            },
            ToolResult::Aborted { reason } => ToolResultView::Aborted {
                reason: reason.deep_view(),
            },
        }
    }
}

impl Replica for ToolResult {
    fn replica(&self) -> (r: Self) {
        match self {
            ToolResult::Success { output } => ToolResult::Success {
                output: output.replica(),
            },
            ToolResult::Error { error } => ToolResult::Error {
                error: error.replica(),
            },
            ToolResult::Aborted { reason } => ToolResult::Aborted {
                reason: reason.replica(),
            },
        }
    }
}

impl Clone for ToolResult {
    fn clone(&self) -> (r: Self)
        ensures
            r.deep_view() == self.deep_view(),
    {
        self.replica()
    }
}

/// Where a turn stands.
#[derive(Clone, Copy, Debug, PartialEq, Eq, Structural)]
pub enum TurnStatus {
    Running,
    Completed,
    Suspended,
    Failed,
    Aborted,
}

impl DeepView for TurnStatus {
    type V = TurnStatus;

    open spec fn deep_view(&self) -> Self::V {
        *self
    }
}

impl Replica for TurnStatus {
    fn replica(&self) -> (r: Self) {
        *self
    }
}

impl Same for TurnStatus {
    fn same(&self, other: &Self) -> (r: bool) {
        *self == *other
    }
}

/// Who an item of a turn comes from.
#[derive(Clone, Copy, Debug, PartialEq, Eq, Structural)]
pub enum TurnItemSource {
    User,
    Model,
    Tool,
    Runtime,
}

impl DeepView for TurnItemSource {
    type V = TurnItemSource;

    open spec fn deep_view(&self) -> Self::V {
        *self
    }
}

impl Replica for TurnItemSource {
    fn replica(&self) -> (r: Self) {
        *self
    }
}

impl Same for TurnItemSource {
    fn same(&self, other: &Self) -> (r: bool) {
        *self == *other
    }
}

/// What an item of a turn records.
#[derive(Debug, PartialEq, Eq)]
pub enum TurnItemKind {
    UserInput { text: String, response_to: Option<String> },
    ModelResponse {
        text: Option<String>,
        function_calls: Vec<ModelFunctionCall>,
        continuation: Option<ModelContinuation>,
    },
    FunctionCallStarted { call_id: String, name: String, attempt: u32 },
    ToolOutput { call_id: String, name: String, result: ToolResult },
    SuspensionCreated { suspension: Suspension },
    GoalUpdated { previous: Option<GoalState>, current: GoalState },
    TurnFailed { error: String },
    TurnAborted { reason: String },
}

/// What a [`TurnItemKind`] holds.
#[verifier::ext_equal]
pub enum TurnItemKindView {
    UserInput { text: Seq<char>, response_to: Option<Seq<char>> },
    ModelResponse {
        text: Option<Seq<char>>,
        function_calls: Seq<ModelFunctionCallView>,
        continuation: Option<ModelContinuationView>,
    },
    FunctionCallStarted { call_id: Seq<char>, name: Seq<char>, attempt: u32 },
    ToolOutput { call_id: Seq<char>, name: Seq<char>, result: ToolResultView },
    SuspensionCreated { suspension: SuspensionView },
    GoalUpdated { previous: Option<GoalStateView>, current: GoalStateView },
    TurnFailed { error: Seq<char> },
    TurnAborted { reason: Seq<char> },
}

impl DeepView for TurnItemKind {
    type V = TurnItemKindView;

    open spec fn deep_view(&self) -> Self::V {
        match self {
            TurnItemKind::UserInput { text, response_to } => TurnItemKindView::UserInput {
                text: text.deep_view(),
                response_to: response_to.deep_view(),
            },
            TurnItemKind::ModelResponse { text, function_calls, continuation } =>
                TurnItemKindView::ModelResponse {
                text: text.deep_view(),
                function_calls: function_calls.deep_view(),
                continuation: continuation.deep_view(),
            },
            TurnItemKind::FunctionCallStarted { call_id, name, attempt } =>
                TurnItemKindView::FunctionCallStarted {
                call_id: call_id.deep_view(),
                name: name.deep_view(),
                attempt: attempt.deep_view(),
            },
            TurnItemKind::ToolOutput { call_id, name, result } => TurnItemKindView::ToolOutput {
                call_id: call_id.deep_view(),
                name: name.deep_view(),
                result: result.deep_view(),
            },
            TurnItemKind::SuspensionCreated { suspension } => TurnItemKindView::SuspensionCreated {
                suspension: suspension.deep_view(),
            },
            TurnItemKind::GoalUpdated { previous, current } => TurnItemKindView::GoalUpdated {
                previous: previous.deep_view(),
                current: current.deep_view(),
            },
            TurnItemKind::TurnFailed { error } => TurnItemKindView::TurnFailed {
                error: error.deep_view(),
            },
            TurnItemKind::TurnAborted { reason } => TurnItemKindView::TurnAborted {
                reason: reason.deep_view(),
            },
        }
    }
}

impl Replica for TurnItemKind {
    fn replica(&self) -> (r: Self) {
        match self {
            TurnItemKind::UserInput { text, response_to } => TurnItemKind::UserInput {
                text: text.replica(),
                response_to: response_to.replica(),
            },
            TurnItemKind::ModelResponse { text, function_calls, continuation } =>
                TurnItemKind::ModelResponse {
                text: text.replica(),
                function_calls: function_calls.replica(),
                continuation: continuation.replica(),
            },
            TurnItemKind::FunctionCallStarted { call_id, name, attempt } =>
                TurnItemKind::FunctionCallStarted {
                call_id: call_id.replica(),
                name: name.replica(),
                attempt: attempt.replica(),
            },
            TurnItemKind::ToolOutput { call_id, name, result } => TurnItemKind::ToolOutput {
                call_id: call_id.replica(),
                name: name.replica(),
                result: result.replica(),
            },
            TurnItemKind::SuspensionCreated { suspension } => TurnItemKind::SuspensionCreated {
                suspension: suspension.replica(),
            },
            TurnItemKind::GoalUpdated { previous, current } => TurnItemKind::GoalUpdated {
                previous: previous.replica(),
                current: current.replica(),
            },
            TurnItemKind::TurnFailed { error } => TurnItemKind::TurnFailed {
                error: error.replica(),
            },
            TurnItemKind::TurnAborted { reason } => TurnItemKind::TurnAborted {
                reason: reason.replica(),
            },
        }
    }
}

impl Clone for TurnItemKind {
    fn clone(&self) -> (r: Self)
        ensures
            r.deep_view() == self.deep_view(),
    {
        self.replica()
    }
}

/// A factual record of a turn.
#[derive(Debug, PartialEq, Eq)]
pub struct TurnItem {
    pub source: TurnItemSource,
    pub kind: TurnItemKind,
}

/// What a [`TurnItem`] holds.
#[verifier::ext_equal]
pub struct TurnItemView {
    pub source: TurnItemSource,
    pub kind: TurnItemKindView,
}

impl DeepView for TurnItem {
    type V = TurnItemView;

    open spec fn deep_view(&self) -> Self::V {
        TurnItemView {
            source: self.source.deep_view(),
            kind: self.kind.deep_view(),
        }
    }
}

impl Replica for TurnItem {
    fn replica(&self) -> (r: Self) {
        TurnItem {
            source: self.source.replica(),
            kind: self.kind.replica(),
        }
    }
}

impl Clone for TurnItem {
    fn clone(&self) -> (r: Self)
        ensures
            r.deep_view() == self.deep_view(),
    {
        self.replica()
    }
}

/// One turn of a thread: its records in the order in which they were made.
#[derive(Debug, PartialEq, Eq)]
pub struct Turn {
    pub id: String,
    pub status: TurnStatus,
    pub items: Vec<TurnItem>,
}

/// What a [`Turn`] holds.
#[verifier::ext_equal]
pub struct TurnView {
    pub id: Seq<char>,
    pub status: TurnStatus,
    pub items: Seq<TurnItemView>,
}

impl DeepView for Turn {
    type V = TurnView;

    open spec fn deep_view(&self) -> Self::V {
        TurnView {
            id: self.id.deep_view(),
            status: self.status.deep_view(),
            items: self.items.deep_view(),
        }
    }
}

impl Replica for Turn {
    fn replica(&self) -> (r: Self) {
        Turn {
            id: self.id.replica(),
            status: self.status.replica(),
            items: self.items.replica(),
        }
    }
}

impl Clone for Turn {
    fn clone(&self) -> (r: Self)
        ensures
            r.deep_view() == self.deep_view(),
    {
        self.replica()
    }
}

/// The version of a stored thread.
#[derive(Clone, Copy, Debug, PartialEq, Eq, Structural)]
pub struct RevisionToken {
    pub value: u64,
}

impl DeepView for RevisionToken {
    type V = RevisionToken;

    open spec fn deep_view(&self) -> Self::V {
        *self
    }
}

impl Replica for RevisionToken {
    fn replica(&self) -> (r: Self) {
        *self
    }
}

impl Same for RevisionToken {
    fn same(&self, other: &Self) -> (r: bool) {
        *self == *other
    }
}

/// A thread: its turns in order.
#[derive(Debug, PartialEq, Eq)]
pub struct Thread {
    pub id: String,
    pub turns: Vec<Turn>,
    pub metadata: Json,
    pub token_usage: TokenUsage,
    pub revision: RevisionToken,
}

/// What a [`Thread`] holds.
#[verifier::ext_equal]
pub struct ThreadView {
    pub id: Seq<char>,
    pub turns: Seq<TurnView>,
    pub metadata: JsonView,
    pub token_usage: TokenUsage,
    pub revision: RevisionToken,
}

impl DeepView for Thread {
    type V = ThreadView;

    open spec fn deep_view(&self) -> Self::V {
        ThreadView {
            id: self.id.deep_view(),
            turns: self.turns.deep_view(),
            metadata: self.metadata.deep_view(),
            token_usage: self.token_usage.deep_view(),
            revision: self.revision.deep_view(),
        }
    }
}

impl Replica for Thread {
    fn replica(&self) -> (r: Self) {
        Thread {
            id: self.id.replica(),
            turns: self.turns.replica(),
            metadata: self.metadata.replica(),
            token_usage: self.token_usage.replica(),
            revision: self.revision.replica(),
        }
    }
}

impl Clone for Thread {
    fn clone(&self) -> (r: Self)
        ensures
            r.deep_view() == self.deep_view(),
    {
        self.replica()
    }
}

/// The sum of two counts, at most the largest count.
pub open spec fn capped_sum(a: u64, b: u64) -> u64 {
    if a + b > u64::MAX {
        u64::MAX
    } else {
        (a + b) as u64
    }
}

impl TokenUsage {
    /// The usage of both together.
    pub open spec fn plus(self, other: TokenUsage) -> TokenUsage {
        TokenUsage {
            input_tokens: capped_sum(self.input_tokens, other.input_tokens),
            cached_input_tokens: capped_sum(self.cached_input_tokens, other.cached_input_tokens),
            output_tokens: capped_sum(self.output_tokens, other.output_tokens),
            total_tokens: capped_sum(self.total_tokens, other.total_tokens),
        }
    }

    /// No tokens.
    pub open spec fn zero() -> TokenUsage {
        TokenUsage { input_tokens: 0, cached_input_tokens: 0, output_tokens: 0, total_tokens: 0 }
    }

    /// Adds the tokens of `other`.
    pub fn add_assign(&mut self, other: TokenUsage)
        ensures
            *final(self) == old(self).plus(other),
    {
        self.input_tokens = self.input_tokens.saturating_add(other.input_tokens);
        self.cached_input_tokens = self.cached_input_tokens.saturating_add(
            other.cached_input_tokens,
        );
        self.output_tokens = self.output_tokens.saturating_add(other.output_tokens);
        self.total_tokens = self.total_tokens.saturating_add(other.total_tokens);
    }

    /// Whether no token was taken.
    pub fn is_zero(&self) -> (r: bool)
        ensures
            r == (*self == TokenUsage::zero()),
    {
        self.input_tokens == 0 && self.cached_input_tokens == 0 && self.output_tokens == 0
            && self.total_tokens == 0
    }
}

impl Default for TokenUsage {
    fn default() -> (r: Self)
        ensures
            r == TokenUsage::zero(),
    {
        TokenUsage { input_tokens: 0, cached_input_tokens: 0, output_tokens: 0, total_tokens: 0 }
    }
}

/// The position of the first turn with the given id; the number of turns when there is none.
pub open spec fn turn_position(turns: Seq<TurnView>, id: Seq<char>) -> nat
    decreases turns.len(),
{
    if turns.len() == 0 || turns[0].id == id {
        0
    } else {
        1 + turn_position(turns.drop_first(), id)
    }
}

/// The first turn with an id is where no earlier turn has it.
pub proof fn lemma_turn_position(turns: Seq<TurnView>, id: Seq<char>, i: nat)
    requires
        i <= turns.len(),
        forall|j: int| 0 <= j < i ==> (#[trigger] turns[j]).id != id,
        i < turns.len() ==> turns[i as int].id == id,
    ensures
        turn_position(turns, id) == i,
    decreases i,
{
    if i > 0 {
        let rest = turns.drop_first();
        assert forall|j: int| 0 <= j < i - 1 implies (#[trigger] rest[j]).id != id by {
            assert(rest[j] == turns[j + 1]);
        }
        lemma_turn_position(rest, id, (i - 1) as nat);
    }
}

/// A thread with `items` recorded at the end of one of its turns and, where one is given, a new
/// status for that turn; nothing when the thread has no such turn.
pub open spec fn appended(
    thread: ThreadView,
    turn_id: Seq<char>,
    items: Seq<TurnItemView>,
    status: Option<TurnStatus>,
) -> Option<ThreadView> {
    let i = turn_position(thread.turns, turn_id);
    if i < thread.turns.len() {
        let turn = thread.turns[i as int];
        Some(
            ThreadView {
                turns: thread.turns.update(
                    i as int,
                    TurnView {
                        id: turn.id,
                        status: match status {
                            Some(status) => status,
                            None => turn.status,
                        },
                        items: turn.items + items,
                    },
                ),
                ..thread
            },
        )
    } else {
        None
    }
}

impl Thread {
    /// A thread without turns.
    pub fn new(id: &str) -> (r: Self)
        ensures
            r.deep_view() == (ThreadView {
                id: id@,
                turns: Seq::empty(),
                metadata: JsonView::Null,
                token_usage: TokenUsage::zero(),
                revision: RevisionToken { value: 0 },
            }),
    {
        let r = Thread {
            id: id.to_owned(),
            turns: Vec::new(),
            metadata: Json::Null,
            token_usage: TokenUsage::default(),
            revision: RevisionToken { value: 0 },
        };
        assert(r.turns.deep_view() =~= Seq::empty());
        r
    }

    /// The position of the first turn with the given id.
    pub fn find_turn(&self, id: &str) -> (r: Option<usize>)
        ensures
            match r {
                Some(i) => i < self.turns@.len() && i == turn_position(self.deep_view().turns, id@),
                None => turn_position(self.deep_view().turns, id@) == self.turns@.len(),
            },
    {
        let ghost turns = self.deep_view().turns;
        for i in 0..self.turns.len()
            invariant
                turns == self.turns.deep_view(),
                forall|j: int| 0 <= j < i ==> (#[trigger] turns[j]).id != id@,
        {
            if same_text(self.turns[i].id.as_str(), id) {
                proof {
                    lemma_turn_position(turns, id@, i as nat);
                }
                return Some(i);
            }
            assert(turns[i as int].id != id@);
        }
        proof {
            lemma_turn_position(turns, id@, turns.len());
        }
        None
    }

    /// Records `items` at the end of a turn and gives it a status, where one is given. Without
    /// such a turn nothing changes.
    pub fn append(&mut self, turn_id: &str, items: Vec<TurnItem>, status: Option<TurnStatus>) -> (r:
        bool)
        ensures
            r == (appended(old(self).deep_view(), turn_id@, items.deep_view(), status) is Some),
            match appended(old(self).deep_view(), turn_id@, items.deep_view(), status) {
                Some(thread) => final(self).deep_view() == thread,
                None => final(self).deep_view() == old(self).deep_view(),
            },
    {
        let ghost before = self.deep_view();
        let ghost added = items.deep_view();
        match self.find_turn(turn_id) {
            Some(i) => {
                let mut turn = self.turns.remove(i);
                let ghost turn_before = turn.deep_view();
                let mut items = items;
                turn.items.append(&mut items);
                if let Some(status) = status {
                    turn.status = status;
                }
                proof {
                    assert(turn.items.deep_view() =~= turn_before.items + added);
                    assert(turn_before == before.turns[i as int]);
                }
                let ghost turn_after = turn.deep_view();
                self.turns.insert(i, turn);
                assert(self.turns.deep_view() =~= before.turns.update(i as int, turn_after));
                true
            },
            None => false,
        }
    }
}

} // verus!
