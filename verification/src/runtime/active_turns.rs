//! Which threads have a turn under way, and what the hooks of a call report.

use crate::json::{no_members, Json, JsonView};
use crate::runtime::error::{error_text, AgentError, AgentErrorView, Result};
use crate::runtime::turn::{
    FunctionCallHookContext, FunctionCallHookContextView, RuntimeEvent, RuntimeEventView,
    TurnStreamEvent, TurnStreamEventView,
};
use crate::same::outcome_of;
use crate::text_map::TextMap;
use vstd::prelude::*;

verus! {

/// The turns that are under way: at most one for each thread.
#[derive(Debug, PartialEq, Eq)]
pub struct ActiveTurns {
    turns: TextMap<u64>,
    next: u64,
}

/// The numbers of the turns that are under way, by thread, and the number of the next one.
#[verifier::ext_equal]
pub struct ActiveTurnsView {
    pub turns: Map<Seq<char>, u64>,
    pub next: u64,
}

impl View for ActiveTurns {
    type V = ActiveTurnsView;

    closed spec fn view(&self) -> ActiveTurnsView {
        ActiveTurnsView { turns: self.turns@, next: self.next }
    }
}

/// The number that follows `n`; after the greatest they begin again.
pub open spec fn number_after(n: u64) -> u64 {
    if n == u64::MAX {
        0
    } else {
        (n + 1) as u64
    }
}

/// A turn of a thread begins; it needs that the thread has none.
pub open spec fn registered(active: ActiveTurnsView, thread_id: Seq<char>) -> (
    ActiveTurnsView,
    core::result::Result<u64, AgentErrorView>,
) {
    let next = number_after(active.next);
    if active.turns.contains_key(thread_id) {
        (
            ActiveTurnsView { next, ..active },
            Err(AgentErrorView::TurnAlreadyActive(thread_id)),
        )
    } else {
        (
            ActiveTurnsView { turns: active.turns.insert(thread_id, active.next), next },
            Ok(active.next),
        )
    }
}

/// The turn of a thread with the given number is over; one with another number stays.
pub open spec fn released(
    active: ActiveTurnsView,
    thread_id: Seq<char>,
    number: u64,
) -> ActiveTurnsView {
    if active.turns.contains_key(thread_id) && active.turns[thread_id] == number {
        ActiveTurnsView { turns: active.turns.remove(thread_id), ..active }
    } else {
        active
    }
}

/// The turn of a thread that an abort is for.
pub open spec fn aborted_turn(active: ActiveTurnsView, thread_id: Seq<char>) -> core::result::Result<
    u64,
    AgentErrorView,
> {
    if active.turns.contains_key(thread_id) {
        Ok(active.turns[thread_id])
    } else {
        Err(AgentErrorView::TurnNotActive(thread_id))
    }
}

impl ActiveTurns {
    /// No turn is under way.
    pub fn new() -> (r: Self)
        ensures
            r@ == (ActiveTurnsView { turns: Map::empty(), next: 1 }),
    {
        ActiveTurns { turns: TextMap::new(), next: 1 }
    }

    /// A turn of a thread begins; its number is returned.
    pub fn register_active_turn(&mut self, thread_id: &str) -> (r: Result<u64>)
        ensures
            final(self)@ == registered(old(self)@, thread_id@).0,
            outcome_of(r) == registered(old(self)@, thread_id@).1,
    {
        let number: u64 = self.next;
        self.next = if number == u64::MAX {
            0
        } else {
            number + 1
        };
        if self.turns.contains_key(thread_id) {
            return Err(AgentError::TurnAlreadyActive(thread_id.to_owned()));
        }
        self.turns.insert(thread_id.to_owned(), number);
        Ok(number)
    }

    /// A turn of a thread is over.
    pub fn release(&mut self, thread_id: &str, number: u64)
        ensures
            final(self)@ == released(old(self)@, thread_id@, number),
    {
        let is_current = match self.turns.get(thread_id) {
            Some(current) => *current == number,
            None => false,
        };
        if is_current {
            self.turns.remove(thread_id);
        }
    }

    /// The turn of a thread that is to be aborted.
    pub fn abort(&self, thread_id: &str) -> (r: Result<u64>)
        ensures
            outcome_of(r) == aborted_turn(self@, thread_id@),
    {
        match self.turns.get(thread_id) {
            Some(number) => Ok(*number),
            None => Err(AgentError::TurnNotActive(thread_id.to_owned())),
        }
    }
}

/// While a turn is under way its thread begins no other, and once it is released the thread can
/// begin one again.
pub proof fn law_one_turn_at_a_time(active: ActiveTurnsView, thread_id: Seq<char>)
    requires
        registered(active, thread_id).1 is Ok,
    ensures
        ({
            let (running, number) = registered(active, thread_id);
            &&& registered(running, thread_id).1 == Err::<u64, AgentErrorView>(
                AgentErrorView::TurnAlreadyActive(thread_id),
            )
            &&& aborted_turn(running, thread_id) == number
            &&& registered(released(running, thread_id, number->Ok_0), thread_id).1 is Ok
            &&& released(running, thread_id, number->Ok_0).turns == active.turns
        }),
{
    let (running, number) = registered(active, thread_id);
    assert(released(running, thread_id, number->Ok_0).turns =~= active.turns);
}

/// The end of a turn touches neither another thread nor a later turn of its own.
pub proof fn law_release_is_its_own(
    active: ActiveTurnsView,
    thread_id: Seq<char>,
    number: u64,
    other: Seq<char>,
)
    requires
        other != thread_id || (active.turns.contains_key(thread_id) && active.turns[thread_id]
            != number),
    ensures
        aborted_turn(released(active, thread_id, number), other) == aborted_turn(active, other),
{
}

/// What is reported of a hook that failed after a call: the call goes on.
pub open spec fn hook_failure_event(
    context: FunctionCallHookContextView,
    error: AgentErrorView,
) -> TurnStreamEventView {
    TurnStreamEventView::Runtime(
        RuntimeEventView {
            source: "function_call_hook"@,
            message: "post-hook failed"@,
            metadata: JsonView::Object(
                Map::<Seq<char>, JsonView>::empty().insert(
                    "call_id"@,
                    JsonView::Text(context.call_id),
                ).insert("name"@, JsonView::Text(context.name)).insert(
                    "error"@,
                    JsonView::Text(error_text(error)),
                ),
            ),
        },
    )
}

/// What is reported of a hook that failed after a call.
pub fn make_hook_failure_event(context: &FunctionCallHookContext, error: &AgentError) -> (r:
    TurnStreamEvent)
    ensures
        r.deep_view() == hook_failure_event(context.deep_view(), error.deep_view()),
{
    let members = no_members().with("call_id", Json::text(context.call_id.as_str())).with(
        "name",
        Json::text(context.name.as_str()),
    ).with("error", Json::text(error.text().as_str()));
    TurnStreamEvent::Runtime(
        RuntimeEvent {
            source: "function_call_hook".to_owned(),
            message: "post-hook failed".to_owned(),
            metadata: Json::object(members),
        },
    )
}

/// The hook that is told of a call next, where `entered` of them were passed: each in the order in
/// which they were registered, until one fails.
pub open spec fn hook_after(total: nat, entered: nat, passed: bool) -> Option<nat> {
    if passed && entered < total {
        Some(entered)
    } else {
        None
    }
}

/// The hook that is told of a call next, where `entered` of them were passed and `last` is what the
/// last one that was told has answered. There is none after a failure or after the last hook.
pub fn next_hook(total: usize, entered: usize, last: &Result<()>) -> (r: Option<usize>)
    ensures
        match r {
            Some(position) => hook_after(total as nat, entered as nat, last is Ok) == Some(
                position as nat,
            ),
            None => hook_after(total as nat, entered as nat, last is Ok) is None,
        },
{
    match last {
        Ok(_) => if entered < total {
            Some(entered)
        } else {
            None
        },
        Err(_) => None,
    }
}

/// The hooks that are told before a call, where `passes` says which of them let it pass, from the
/// one that follows `entered`.
pub open spec fn entering_order(passes: Seq<bool>, entered: nat) -> Seq<nat>
    decreases passes.len() - entered,
{
    match hook_after(passes.len(), entered, true) {
        Some(position) => if passes[position as int] {
            seq![position] + entering_order(passes, entered + 1)
        } else {
            seq![position]
        },
        None => Seq::empty(),
    }
}

/// How many of the hooks that are told before a call are passed, from the one that follows
/// `entered`.
pub open spec fn hooks_passed(passes: Seq<bool>, entered: nat) -> nat
    decreases passes.len() - entered,
{
    match hook_after(passes.len(), entered, true) {
        Some(position) => if passes[position as int] {
            hooks_passed(passes, entered + 1)
        } else {
            entered
        },
        None => entered,
    }
}

proof fn lemma_entering(passes: Seq<bool>, entered: nat)
    requires
        entered <= passes.len(),
    ensures
        ({
            let order = entering_order(passes, entered);
            let passed = hooks_passed(passes, entered);
            &&& entered <= passed <= passes.len()
            &&& forall|i: int| entered <= i < passed ==> passes[i]
            &&& passed < passes.len() ==> !passes[passed as int] && order.len() == passed - entered
                + 1
            &&& passed == passes.len() ==> order.len() == passed - entered
            &&& forall|i: int| 0 <= i < order.len() ==> #[trigger] order[i] == entered + i
        }),
    decreases passes.len() - entered,
{
    if entered < passes.len() && passes[entered as int] {
        lemma_entering(passes, entered + 1);
        let rest = entering_order(passes, entered + 1);
        assert(entering_order(passes, entered) == seq![entered] + rest);
        assert forall|i: int| 0 <= i < 1 + rest.len() implies #[trigger] (seq![entered] + rest)[i]
            == entered + i by {
            if i > 0 {
                assert((seq![entered] + rest)[i] == rest[i - 1]);
            }
        }
    }
}

/// Before a call the hooks are told in the order in which they were registered, up to the first
/// that fails. After it those that were passed are told in the opposite order, and no others.
pub proof fn law_hooks_are_stacked(passes: Seq<bool>)
    ensures
        ({
            let told = entering_order(passes, 0);
            let passed = hooks_passed(passes, 0);
            &&& passed <= told.len() <= passes.len()
            &&& forall|i: int| 0 <= i < told.len() ==> #[trigger] told[i] == i
            &&& forall|i: int| 0 <= i < passed ==> passes[i]
            &&& told.len() > passed ==> told.len() == passed + 1 && !passes[passed as int]
            &&& told.len() == passed ==> passed == passes.len()
            &&& leaving_order(passed).len() == passed
            &&& passes.len() <= usize::MAX ==> forall|i: int|
                0 <= i < passed ==> #[trigger] leaving_order(passed)[i] == told[passed - 1 - i]
        }),
{
    lemma_entering(passes, 0);
}

/// The hooks that are told of the end of a call: those that were entered, the last one first.
pub open spec fn leaving_order(entered: nat) -> Seq<usize> {
    Seq::new(entered, |i: int| (entered - 1 - i) as usize)
}

/// The hooks that are told of the end of a call, the last one first.
pub fn hooks_to_leave(entered: usize) -> (r: Vec<usize>)
    ensures
        r@ == leaving_order(entered as nat),
{
    let mut r: Vec<usize> = Vec::new();
    let mut left: usize = entered;
    while left > 0
        invariant
            left <= entered,
            r@ == leaving_order(entered as nat).take(entered - left),
        decreases left,
    {
        left = left - 1;
        r.push(left);
        assert(r@ =~= leaving_order(entered as nat).take(entered - left));
    }
    assert(r@ =~= leaving_order(entered as nat));
    r
}

} // verus!
