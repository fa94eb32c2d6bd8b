//! What a thread amounts to, by its last records.

use crate::kernel::events::{
    GoalStateView, SuspensionView, ThreadView, TurnItemView, TurnStatus, TurnView,
};
use crate::kernel::projection::{
    active_turn, current_goal, last_goal, last_suspension, pending_suspension, projected,
};
use vstd::prelude::*;

verus! {

/// A record sets a goal.
pub open spec fn sets_goal(item: TurnItemView) -> bool {
    item.kind is GoalUpdated
}

/// A record makes a suspension.
pub open spec fn makes_suspension(item: TurnItemView) -> bool {
    item.kind is SuspensionCreated
}

proof fn lemma_last_goal(items: Seq<TurnItemView>)
    ensures
        match last_goal(items) {
            Some(goal) => exists|i: int|
                0 <= i < items.len() && sets_goal(#[trigger] items[i])
                    && items[i].kind->GoalUpdated_current == goal && forall|j: int|
                    i < j < items.len() ==> !sets_goal(#[trigger] items[j]),
            None => forall|j: int| 0 <= j < items.len() ==> !sets_goal(#[trigger] items[j]),
        },
    decreases items.len(),
{
    if items.len() > 0 {
        let init = items.drop_last();
        lemma_last_goal(init);
        if sets_goal(items.last()) {
            assert(sets_goal(items[items.len() - 1]));
        } else if last_goal(init) is Some {
            let goal = last_goal(init)->Some_0;
            let i = choose|i: int|
                0 <= i < init.len() && sets_goal(#[trigger] init[i])
                    && init[i].kind->GoalUpdated_current == goal && forall|j: int|
                    i < j < init.len() ==> !sets_goal(#[trigger] init[j]);
            assert(items[i] == init[i]);
            assert forall|j: int| i < j < items.len() implies !sets_goal(#[trigger] items[j]) by {
                if j < init.len() {
                    assert(items[j] == init[j]);
                }
            }
        } else {
            assert forall|j: int| 0 <= j < items.len() implies !sets_goal(#[trigger] items[j]) by {
                if j < init.len() {
                    assert(items[j] == init[j]);
                }
            }
        }
    }
}

proof fn lemma_last_suspension(items: Seq<TurnItemView>)
    ensures
        match last_suspension(items) {
            Some(suspension) => exists|i: int|
                0 <= i < items.len() && makes_suspension(#[trigger] items[i])
                    && items[i].kind->SuspensionCreated_suspension == suspension && forall|j: int|
                    i < j < items.len() ==> !makes_suspension(#[trigger] items[j]),
            None => forall|j: int| 0 <= j < items.len() ==> !makes_suspension(#[trigger] items[j]),
        },
    decreases items.len(),
{
    if items.len() > 0 {
        let init = items.drop_last();
        lemma_last_suspension(init);
        if makes_suspension(items.last()) {
            assert(makes_suspension(items[items.len() - 1]));
        } else if last_suspension(init) is Some {
            let suspension = last_suspension(init)->Some_0;
            let i = choose|i: int|
                0 <= i < init.len() && makes_suspension(#[trigger] init[i])
                    && init[i].kind->SuspensionCreated_suspension == suspension && forall|j: int|
                    i < j < init.len() ==> !makes_suspension(#[trigger] init[j]);
            assert(items[i] == init[i]);
            assert forall|j: int| i < j < items.len() implies !makes_suspension(
                #[trigger] items[j],
            ) by {
                if j < init.len() {
                    assert(items[j] == init[j]);
                }
            }
        } else {
            assert forall|j: int| 0 <= j < items.len() implies !makes_suspension(
                #[trigger] items[j],
            ) by {
                if j < init.len() {
                    assert(items[j] == init[j]);
                }
            }
        }
    }
}

/// A turn sets a goal.
pub open spec fn has_goal(turn: TurnView) -> bool {
    exists|i: int| 0 <= i < turn.items.len() && sets_goal(#[trigger] turn.items[i])
}

/// The goal at a place is the last that a turn sets.
pub open spec fn is_last_goal(turn: TurnView, i: int, goal: GoalStateView) -> bool {
    &&& 0 <= i < turn.items.len()
    &&& sets_goal(turn.items[i])
    &&& turn.items[i].kind->GoalUpdated_current == goal
    &&& forall|j: int| i < j < turn.items.len() ==> !sets_goal(#[trigger] turn.items[j])
}

/// A turn is stopped by a suspension.
pub open spec fn is_stopped(turn: TurnView) -> bool {
    &&& turn.status == TurnStatus::Suspended
    &&& exists|i: int| 0 <= i < turn.items.len() && makes_suspension(#[trigger] turn.items[i])
}

/// The suspension at a place is the last that a turn makes.
pub open spec fn is_last_suspension(turn: TurnView, i: int, suspension: SuspensionView) -> bool {
    &&& 0 <= i < turn.items.len()
    &&& makes_suspension(turn.items[i])
    &&& turn.items[i].kind->SuspensionCreated_suspension == suspension
    &&& forall|j: int| i < j < turn.items.len() ==> !makes_suspension(#[trigger] turn.items[j])
}

/// The goal of a thread is the one that was set last, in whatever turn; without one it has none.
pub proof fn law_goal_is_the_last_one_set(turns: Seq<TurnView>)
    ensures
        match current_goal(turns) {
            Some(goal) => exists|t: int, i: int|
                0 <= t < turns.len() && #[trigger] is_last_goal(turns[t], i, goal) && forall|u: int|
                    t < u < turns.len() ==> !has_goal(#[trigger] turns[u]),
            None => forall|u: int| 0 <= u < turns.len() ==> !has_goal(#[trigger] turns[u]),
        },
    decreases turns.len(),
{
    if turns.len() > 0 {
        let init = turns.drop_last();
        let last = turns.last();
        law_goal_is_the_last_one_set(init);
        lemma_last_goal(last.items);
        match last_goal(last.items) {
            Some(goal) => {
                let items = last.items;
                let i = choose|i: int|
                    0 <= i < items.len() && sets_goal(#[trigger] items[i])
                        && items[i].kind->GoalUpdated_current == goal && forall|j: int|
                        i < j < items.len() ==> !sets_goal(#[trigger] items[j]);
                assert(is_last_goal(turns[turns.len() - 1], i, goal));
            },
            None => {
                assert(!has_goal(last));
                match current_goal(init) {
                    Some(goal) => {
                        let (t, i) = choose|t: int, i: int|
                            0 <= t < init.len() && #[trigger] is_last_goal(init[t], i, goal)
                                && forall|u: int| t < u < init.len() ==> !has_goal(#[trigger] init[u]);
                        assert(is_last_goal(turns[t], i, goal));
                        assert forall|u: int| t < u < turns.len() implies !has_goal(
                            #[trigger] turns[u],
                        ) by {
                            if u < init.len() {
                                assert(turns[u] == init[u]);
                            }
                        }
                    },
                    None => {
                        assert forall|u: int| 0 <= u < turns.len() implies !has_goal(
                            #[trigger] turns[u],
                        ) by {
                            if u < init.len() {
                                assert(turns[u] == init[u]);
                            }
                        }
                    },
                }
            },
        }
    }
}

/// A thread waits on the last suspension of the last turn that one stopped; without such a turn it
/// waits on none.
pub proof fn law_thread_waits_on_its_last_suspension(turns: Seq<TurnView>)
    ensures
        match pending_suspension(turns) {
            Some(pending) => exists|t: int, i: int|
                0 <= t < turns.len() && turns[t].id == pending.turn_id && turns[t].status
                    == TurnStatus::Suspended && #[trigger] is_last_suspension(
                    turns[t],
                    i,
                    pending.suspension,
                ) && forall|u: int| t < u < turns.len() ==> !is_stopped(#[trigger] turns[u]),
            None => forall|u: int| 0 <= u < turns.len() ==> !is_stopped(#[trigger] turns[u]),
        },
    decreases turns.len(),
{
    if turns.len() > 0 {
        let init = turns.drop_last();
        let last = turns.last();
        law_thread_waits_on_its_last_suspension(init);
        lemma_last_suspension(last.items);
        if last.status == TurnStatus::Suspended && last_suspension(last.items) is Some {
            let suspension = last_suspension(last.items)->Some_0;
            let items = last.items;
            let i = choose|i: int|
                0 <= i < items.len() && makes_suspension(#[trigger] items[i])
                    && items[i].kind->SuspensionCreated_suspension == suspension && forall|j: int|
                    i < j < items.len() ==> !makes_suspension(#[trigger] items[j]);
            assert(is_last_suspension(turns[turns.len() - 1], i, suspension));
        } else {
            assert(!is_stopped(last));
            match pending_suspension(init) {
                Some(pending) => {
                    let (t, i) = choose|t: int, i: int|
                        0 <= t < init.len() && init[t].id == pending.turn_id && init[t].status
                            == TurnStatus::Suspended && #[trigger] is_last_suspension(
                            init[t],
                            i,
                            pending.suspension,
                        ) && forall|u: int| t < u < init.len() ==> !is_stopped(#[trigger] init[u]);
                    assert(is_last_suspension(turns[t], i, pending.suspension));
                    assert forall|u: int| t < u < turns.len() implies !is_stopped(
                        #[trigger] turns[u],
                    ) by {
                        if u < init.len() {
                            assert(turns[u] == init[u]);
                        }
                    }
                },
                None => {
                    assert forall|u: int| 0 <= u < turns.len() implies !is_stopped(
                        #[trigger] turns[u],
                    ) by {
                        if u < init.len() {
                            assert(turns[u] == init[u]);
                        }
                    }
                },
            }
        }
    }
}

/// The active turn of a thread is the last one that is running; without one there is none.
pub proof fn law_active_turn_is_the_last_running_one(turns: Seq<TurnView>)
    ensures
        match active_turn(turns) {
            Some(id) => exists|t: int|
                0 <= t < turns.len() && (#[trigger] turns[t]).id == id && turns[t].status
                    == TurnStatus::Running && forall|u: int|
                    t < u < turns.len() ==> (#[trigger] turns[u]).status != TurnStatus::Running,
            None => forall|u: int|
                0 <= u < turns.len() ==> (#[trigger] turns[u]).status != TurnStatus::Running,
        },
    decreases turns.len(),
{
    if turns.len() > 0 {
        let init = turns.drop_last();
        law_active_turn_is_the_last_running_one(init);
        if turns.last().status == TurnStatus::Running {
            assert(turns[turns.len() - 1].status == TurnStatus::Running);
        } else {
            match active_turn(init) {
                Some(id) => {
                    let t = choose|t: int|
                        0 <= t < init.len() && (#[trigger] init[t]).id == id && init[t].status
                            == TurnStatus::Running && forall|u: int|
                            t < u < init.len() ==> (#[trigger] init[u]).status != TurnStatus::Running;
                    assert(turns[t] == init[t]);
                    assert forall|u: int| t < u < turns.len() implies (#[trigger] turns[u]).status
                        != TurnStatus::Running by {
                        if u < init.len() {
                            assert(turns[u] == init[u]);
                        }
                    }
                },
                None => {
                    assert forall|u: int| 0 <= u < turns.len() implies (#[trigger] turns[u]).status
                        != TurnStatus::Running by {
                        if u < init.len() {
                            assert(turns[u] == init[u]);
                        }
                    }
                },
            }
        }
    }
}

/// A thread is shown by its goal, the suspension that it waits on and its active turn.
pub proof fn law_projection_shows_the_thread(thread: ThreadView)
    ensures
        projected(thread).goal == current_goal(thread.turns),
        projected(thread).pending_suspension == pending_suspension(thread.turns),
        projected(thread).active_turn_id == active_turn(thread.turns),
{
}

} // verus!
