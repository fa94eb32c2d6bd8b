//! What follows from the records of a thread.

use crate::json::{Json, JsonView};
use crate::kernel::events::{
    GoalState, GoalStateView, Suspension, SuspensionView, Thread, ThreadView, TurnItem, TurnItemKind,
    TurnItemKindView, TurnItemView, TurnStatus, TurnView,
};
use crate::kernel::model::{
    ModelContinuation, ModelContinuationView, ModelFunctionCall, ModelFunctionCallView,
};
use crate::same::Replica;
use vstd::prelude::*;

verus! {

/// The suspension that a thread waits on.
#[derive(Debug, PartialEq, Eq)]
pub struct PendingSuspension {
    pub turn_id: String,
    pub suspension: Suspension,
}

/// What a [`PendingSuspension`] holds.
#[verifier::ext_equal]
pub struct PendingSuspensionView {
    pub turn_id: Seq<char>,
    pub suspension: SuspensionView,
}

impl DeepView for PendingSuspension {
    type V = PendingSuspensionView;

    open spec fn deep_view(&self) -> Self::V {
        PendingSuspensionView {
            turn_id: self.turn_id.deep_view(),
            suspension: self.suspension.deep_view(),
        }
    }
}

impl Replica for PendingSuspension {
    fn replica(&self) -> (r: Self) {
        PendingSuspension {
            turn_id: self.turn_id.replica(),
            suspension: self.suspension.replica(),
        }
    }
}

impl Clone for PendingSuspension {
    fn clone(&self) -> (r: Self)
        ensures
            r.deep_view() == self.deep_view(),
    {
        self.replica()
    }
}

/// What a thread amounts to at present.
#[derive(Debug, PartialEq, Eq)]
pub struct ThreadProjection {
    pub goal: Option<GoalState>,
    pub pending_suspension: Option<PendingSuspension>,
    pub active_turn_id: Option<String>,
}

/// What a [`ThreadProjection`] holds.
#[verifier::ext_equal]
pub struct ThreadProjectionView {
    pub goal: Option<GoalStateView>,
    pub pending_suspension: Option<PendingSuspensionView>,
    pub active_turn_id: Option<Seq<char>>,
}

impl DeepView for ThreadProjection {
    type V = ThreadProjectionView;

    open spec fn deep_view(&self) -> Self::V {
        ThreadProjectionView {
            goal: self.goal.deep_view(),
            pending_suspension: self.pending_suspension.deep_view(),
            active_turn_id: self.active_turn_id.deep_view(),
        }
    }
}

impl Replica for ThreadProjection {
    fn replica(&self) -> (r: Self) {
        ThreadProjection {
            goal: self.goal.replica(),
            pending_suspension: self.pending_suspension.replica(),
            active_turn_id: self.active_turn_id.replica(),
        }
    }
}

impl Clone for ThreadProjection {
    fn clone(&self) -> (r: Self)
        ensures
            r.deep_view() == self.deep_view(),
    {
        self.replica()
    }
}

/// A message of the history that a model is shown.
#[derive(Debug, PartialEq, Eq)]
pub enum ChatMessage {
    System { content: String },
    User { content: String },
    Assistant {
        content: Option<String>,
        tool_calls: Vec<ModelFunctionCall>,
        continuation: Option<ModelContinuation>,
    },
    Tool { tool_call_id: String, name: String, content: Json },
}

/// What a [`ChatMessage`] holds.
#[verifier::ext_equal]
pub enum ChatMessageView {
    System { content: Seq<char> },
    User { content: Seq<char> },
    Assistant {
        content: Option<Seq<char>>,
        tool_calls: Seq<ModelFunctionCallView>,
        continuation: Option<ModelContinuationView>,
    },
    Tool { tool_call_id: Seq<char>, name: Seq<char>, content: JsonView },
}

impl DeepView for ChatMessage {
    type V = ChatMessageView;

    open spec fn deep_view(&self) -> Self::V {
        match self {
            ChatMessage::System { content } => ChatMessageView::System {
                content: content.deep_view(),
            },
            ChatMessage::User { content } => ChatMessageView::User {
                content: content.deep_view(),
            },
            ChatMessage::Assistant { content, tool_calls, continuation } =>
                ChatMessageView::Assistant {
                content: content.deep_view(),
                tool_calls: tool_calls.deep_view(),
                continuation: continuation.deep_view(),
            },
            ChatMessage::Tool { tool_call_id, name, content } => ChatMessageView::Tool {
                tool_call_id: tool_call_id.deep_view(),
                name: name.deep_view(),
                content: content.deep_view(),
            },
        }
    }
}

impl Replica for ChatMessage {
    fn replica(&self) -> (r: Self) {
        match self {
            ChatMessage::System { content } => ChatMessage::System {
                content: content.replica(),
            },
            ChatMessage::User { content } => ChatMessage::User {
                content: content.replica(),
            },
            ChatMessage::Assistant { content, tool_calls, continuation } => ChatMessage::Assistant {
                content: content.replica(),
                tool_calls: tool_calls.replica(),
                continuation: continuation.replica(),
            },
            ChatMessage::Tool { tool_call_id, name, content } => ChatMessage::Tool {
                tool_call_id: tool_call_id.replica(),
                name: name.replica(),
                content: content.replica(),
            },
        }
    }
}

impl Clone for ChatMessage {
    fn clone(&self) -> (r: Self)
        ensures
            r.deep_view() == self.deep_view(),
    {
        self.replica()
    }
}

/// The goal that was set last among some records.
pub open spec fn last_goal(items: Seq<TurnItemView>) -> Option<GoalStateView>
    decreases items.len(),
{
    if items.len() == 0 {
        None
    } else {
        match items.last().kind {
            TurnItemKindView::GoalUpdated { previous, current } => Some(current),
            _ => last_goal(items.drop_last()),
        }
    }
}

/// The goal that was set last in some turns.
pub open spec fn current_goal(turns: Seq<TurnView>) -> Option<GoalStateView>
    decreases turns.len(),
{
    if turns.len() == 0 {
        None
    } else {
        match last_goal(turns.last().items) {
            Some(goal) => Some(goal),
            None => current_goal(turns.drop_last()),
        }
    }
}

/// The suspension that was recorded last.
pub open spec fn last_suspension(items: Seq<TurnItemView>) -> Option<SuspensionView>
    decreases items.len(),
{
    if items.len() == 0 {
        None
    } else {
        match items.last().kind {
            TurnItemKindView::SuspensionCreated { suspension } => Some(suspension),
            _ => last_suspension(items.drop_last()),
        }
    }
}

/// The suspension of the last suspended turn.
pub open spec fn pending_suspension(turns: Seq<TurnView>) -> Option<PendingSuspensionView>
    decreases turns.len(),
{
    if turns.len() == 0 {
        None
    } else {
        let turn = turns.last();
        let suspension = last_suspension(turn.items);
        if turn.status == TurnStatus::Suspended && suspension is Some {
            Some(PendingSuspensionView { turn_id: turn.id, suspension: suspension->0 })
        } else {
            pending_suspension(turns.drop_last())
        }
    }
}

/// The last turn that is running.
pub open spec fn active_turn(turns: Seq<TurnView>) -> Option<Seq<char>>
    decreases turns.len(),
{
    if turns.len() == 0 {
        None
    } else if turns.last().status == TurnStatus::Running {
        Some(turns.last().id)
    } else {
        active_turn(turns.drop_last())
    }
}

/// What a thread amounts to.
pub open spec fn projected(thread: ThreadView) -> ThreadProjectionView {
    ThreadProjectionView {
        goal: current_goal(thread.turns),
        pending_suspension: pending_suspension(thread.turns),
        active_turn_id: active_turn(thread.turns),
    }
}

fn find_goal(items: &Vec<TurnItem>) -> (r: Option<GoalState>)
    ensures
        r.deep_view() == last_goal(items.deep_view()),
{
    let ghost views = items.deep_view();
    let mut i: usize = items.len();
    assert(views.take(i as int) =~= views);
    while i > 0
        invariant
            i <= items@.len(),
            views == items.deep_view(),
            last_goal(views) == last_goal(views.take(i as int)),
        decreases i,
    {
        i = i - 1;
        assert(views.take(i + 1).drop_last() =~= views.take(i as int));
        assert(views.take(i + 1).last() == items@[i as int].deep_view());
        if let TurnItemKind::GoalUpdated { current, .. } = &items[i].kind {
            return Some(current.replica());
        }
    }
    None
}

fn find_suspension(items: &Vec<TurnItem>) -> (r: Option<Suspension>)
    ensures
        r.deep_view() == last_suspension(items.deep_view()),
{
    let ghost views = items.deep_view();
    let mut i: usize = items.len();
    assert(views.take(i as int) =~= views);
    while i > 0
        invariant
            i <= items@.len(),
            views == items.deep_view(),
            last_suspension(views) == last_suspension(views.take(i as int)),
        decreases i,
    {
        i = i - 1;
        assert(views.take(i + 1).drop_last() =~= views.take(i as int));
        assert(views.take(i + 1).last() == items@[i as int].deep_view());
        if let TurnItemKind::SuspensionCreated { suspension } = &items[i].kind {
            return Some(suspension.replica());
        }
    }
    None
}

impl ThreadProjection {
    /// What `thread` amounts to.
    pub fn from_thread(thread: &Thread) -> (r: Self)
        ensures
            r.deep_view() == projected(thread.deep_view()),
    {
        ThreadProjection {
            goal: Self::goal_of(thread),
            pending_suspension: Self::pending_of(thread),
            active_turn_id: Self::active_of(thread),
        }
    }

    fn goal_of(thread: &Thread) -> (r: Option<GoalState>)
        ensures
            r.deep_view() == current_goal(thread.deep_view().turns),
    {
        let ghost turns = thread.deep_view().turns;
        let mut i: usize = thread.turns.len();
        assert(turns.take(i as int) =~= turns);
        while i > 0
            invariant
                i <= thread.turns@.len(),
                turns == thread.turns.deep_view(),
                current_goal(turns) == current_goal(turns.take(i as int)),
            decreases i,
        {
            i = i - 1;
            assert(turns.take(i + 1).drop_last() =~= turns.take(i as int));
            assert(turns.take(i + 1).last() == thread.turns@[i as int].deep_view());
            let goal = find_goal(&thread.turns[i].items);
            if goal.is_some() {
                return goal;
            }
        }
        None
    }

    fn pending_of(thread: &Thread) -> (r: Option<PendingSuspension>)
        ensures
            r.deep_view() == pending_suspension(thread.deep_view().turns),
    {
        let ghost turns = thread.deep_view().turns;
        let mut i: usize = thread.turns.len();
        assert(turns.take(i as int) =~= turns);
        while i > 0
            invariant
                i <= thread.turns@.len(),
                turns == thread.turns.deep_view(),
                pending_suspension(turns) == pending_suspension(turns.take(i as int)),
            decreases i,
        {
            i = i - 1;
            assert(turns.take(i + 1).drop_last() =~= turns.take(i as int));
            assert(turns.take(i + 1).last() == thread.turns@[i as int].deep_view());
            let turn = &thread.turns[i];
            if turn.status == TurnStatus::Suspended {
                if let Some(suspension) = find_suspension(&turn.items) {
                    return Some(PendingSuspension { turn_id: turn.id.clone(), suspension });
                }
            }
        }
        None
    }

    fn active_of(thread: &Thread) -> (r: Option<String>)
        ensures
            r.deep_view() == active_turn(thread.deep_view().turns),
    {
        let ghost turns = thread.deep_view().turns;
        let mut i: usize = thread.turns.len();
        assert(turns.take(i as int) =~= turns);
        while i > 0
            invariant
                i <= thread.turns@.len(),
                turns == thread.turns.deep_view(),
                active_turn(turns) == active_turn(turns.take(i as int)),
            decreases i,
        {
            i = i - 1;
            assert(turns.take(i + 1).drop_last() =~= turns.take(i as int));
            assert(turns.take(i + 1).last() == thread.turns@[i as int].deep_view());
            if thread.turns[i].status == TurnStatus::Running {
                return Some(thread.turns[i].id.clone());
            }
        }
        None
    }
}

} // verus!
