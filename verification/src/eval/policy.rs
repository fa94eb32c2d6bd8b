//! Agents as evaluated policies.

use crate::eval::action::{
    AgentAction, AgentActionEvent, AgentActionEventView, AgentActionStatus, AgentActionView,
};
use crate::eval::error::Result;
use crate::eval::state::{
    EnvironmentEvent, EnvironmentEventView, EnvironmentObservation, EnvironmentObservationView,
    EnvironmentSnapshot, EnvironmentSnapshotView,
};
use crate::json::{lemma_object_view, no_members, Json, JsonView};
use crate::kernel::records::{
    function_calls_json, make_function_calls, make_token_usage, token_usage_json,
};
use crate::pretty::pretty;
use crate::runtime::turn::{
    TurnModelEvent, TurnModelEventView, TurnOutcome, TurnOutcomeView, TurnStateEvent,
    TurnStateEventView, TurnStreamEvent, TurnStreamEventView,
};
use crate::same::Replica;
use crate::text::glue3;
use vstd::prelude::*;

verus! {

/// What a referee judges.
#[derive(Debug, PartialEq, Eq)]
pub struct RefereeInput {
    pub snapshot: EnvironmentSnapshot,
    pub trajectory: Vec<EnvironmentEvent>,
}

/// What a [`RefereeInput`] holds.
#[verifier::ext_equal]
pub struct RefereeInputView {
    pub snapshot: EnvironmentSnapshotView,
    pub trajectory: Seq<EnvironmentEventView>,
}

impl DeepView for RefereeInput {
    type V = RefereeInputView;

    open spec fn deep_view(&self) -> Self::V {
        RefereeInputView {
            snapshot: self.snapshot.deep_view(),
            trajectory: self.trajectory.deep_view(),
        }
    }
}

impl Replica for RefereeInput {
    fn replica(&self) -> (r: Self) {
        RefereeInput {
            snapshot: self.snapshot.replica(),
            trajectory: self.trajectory.replica(),
        }
    }
}

impl Clone for RefereeInput {
    fn clone(&self) -> (r: Self)
        ensures
            r.deep_view() == self.deep_view(),
    {
        self.replica()
    }
}

/// The turn of an agent while it goes on.
#[derive(Debug, PartialEq, Eq)]
pub struct ActionCollector {
    pub assistant_text: String,
    pub events: Vec<AgentActionEvent>,
}

/// What an [`ActionCollector`] holds.
#[verifier::ext_equal]
pub struct ActionCollectorView {
    pub assistant_text: Seq<char>,
    pub events: Seq<AgentActionEventView>,
}

impl DeepView for ActionCollector {
    type V = ActionCollectorView;

    open spec fn deep_view(&self) -> Self::V {
        ActionCollectorView {
            assistant_text: self.assistant_text.deep_view(),
            events: self.events.deep_view(),
        }
    }
}

impl Replica for ActionCollector {
    fn replica(&self) -> (r: Self) {
        ActionCollector {
            assistant_text: self.assistant_text.replica(),
            events: self.events.replica(),
        }
    }
}

impl Clone for ActionCollector {
    fn clone(&self) -> (r: Self)
        ensures
            r.deep_view() == self.deep_view(),
    {
        self.replica()
    }
}

/// An agent that is evaluated.
pub trait EvaluatedPolicy {
    fn act(&self, observation: EnvironmentObservation) -> (r: Result<AgentAction>);
}

/// Judges what happened in an environment.
pub trait Referee {
    /// What a judgement says.
    type Report;

    fn evaluate(&self, input: RefereeInput) -> (r: Result<Self::Report>);
}

/// There is something to show.
pub open spec fn has_visible_state(state: JsonView) -> bool {
    match state {
        JsonView::Null => false,
        JsonView::Object(members) => members.dom() != Set::<Seq<char>>::empty(),
        _ => true,
    }
}

/// What an agent is told: the text of the observation, and below it what is to be shown.
pub open spec fn policy_input(observation: EnvironmentObservationView) -> Seq<char> {
    if has_visible_state(observation.visible_state) {
        observation.user_text + "\n\nActive exposed constraints (authoritative):\n"@ + pretty(
            observation.visible_state,
            Seq::empty(),
        )
    } else {
        observation.user_text
    }
}

/// Renders what an agent is told.
pub fn render_policy_input(observation: &EnvironmentObservation) -> (r: String)
    ensures
        r@ == policy_input(observation.deep_view()),
{
    let shown = match &observation.visible_state {
        Json::Null => false,
        Json::Object(members) => {
            proof {
                lemma_object_view(*members);
                assert(members.deep_view().dom() =~= members@.dom());
            }
            !members.is_empty()
        },
        _ => true,
    };
    if !shown {
        return observation.user_text.clone();
    }
    glue3(
        observation.user_text.as_str(),
        "\n\nActive exposed constraints (authoritative):\n",
        observation.visible_state.to_pretty_text().as_str(),
    )
}

/// The metadata of the turn of an agent.
pub open spec fn policy_metadata(observation: EnvironmentObservationView) -> JsonView {
    JsonView::Object(
        Map::<Seq<char>, JsonView>::empty().insert("environment"@, observation.metadata).insert(
            "visible_state"@,
            observation.visible_state,
        ),
    )
}

/// The metadata of the turn of an agent.
pub fn make_policy_metadata(observation: &EnvironmentObservation) -> (r: Json)
    ensures
        r.deep_view() == policy_metadata(observation.deep_view()),
{
    Json::object(
        no_members().with("environment", observation.metadata.replica()).with(
            "visible_state",
            observation.visible_state.replica(),
        ),
    )
}

/// What an event of a turn is recorded as, if it is.
pub open spec fn action_event(event: TurnStreamEventView) -> Option<AgentActionEventView> {
    match event {
        TurnStreamEventView::Model(TurnModelEventView::AssistantMessage { text }) => Some(
            AgentActionEventView::AssistantText { text },
        ),
        TurnStreamEventView::Model(_) => None,
        TurnStreamEventView::State(state) => match state {
            TurnStateEventView::FunctionCallsRequested { calls } => Some(
                AgentActionEventView::FunctionCallsRequested { calls: function_calls_json(calls) },
            ),
            TurnStateEventView::FunctionStarted { call_id, name } => Some(
                AgentActionEventView::FunctionStarted { call_id, name },
            ),
            TurnStateEventView::FunctionCompleted { call_id, name } => Some(
                AgentActionEventView::FunctionCompleted { call_id, name },
            ),
            TurnStateEventView::FunctionFailed { call_id, name, error } => Some(
                AgentActionEventView::FunctionFailed { call_id, name, error },
            ),
            TurnStateEventView::TurnTokenUsage { usage } => Some(
                AgentActionEventView::TokenUsage { usage: token_usage_json(usage) },
            ),
            _ => None,
        },
        TurnStreamEventView::Runtime(runtime) => Some(
            AgentActionEventView::Runtime {
                source: runtime.source,
                message: runtime.message,
                metadata: runtime.metadata,
            },
        ),
    }
}

/// The turn after one more event. The last message is the text of the turn.
pub open spec fn event_collected(
    turn: ActionCollectorView,
    event: TurnStreamEventView,
) -> ActionCollectorView {
    match action_event(event) {
        None => turn,
        Some(AgentActionEventView::AssistantText { text }) => ActionCollectorView {
            assistant_text: text,
            events: turn.events.push(AgentActionEventView::AssistantText { text }),
        },
        Some(action) => ActionCollectorView { events: turn.events.push(action), ..turn },
    }
}

/// How a turn ended.
pub open spec fn outcome_status(outcome: TurnOutcomeView) -> AgentActionStatus {
    match outcome {
        TurnOutcomeView::AssistantMessage { text: _ } => AgentActionStatus::Completed,
        TurnOutcomeView::Suspended { suspension: _ } => AgentActionStatus::Suspended,
        TurnOutcomeView::Failed { error: _ } => AgentActionStatus::Failed,
        TurnOutcomeView::Aborted { reason: _ } => AgentActionStatus::Aborted,
    }
}

/// The whole turn. A turn without a message has the text that it ended with.
pub open spec fn action_made(
    turn: ActionCollectorView,
    outcome: TurnOutcomeView,
) -> AgentActionView {
    AgentActionView {
        status: outcome_status(outcome),
        assistant_text: match outcome {
            TurnOutcomeView::AssistantMessage { text } => if turn.assistant_text.len() == 0 {
                text
            } else {
                turn.assistant_text
            },
            _ => turn.assistant_text,
        },
        events: turn.events,
    }
}

impl ActionCollector {
    /// A turn before anything happened.
    pub fn new() -> (r: Self)
        ensures
            r.deep_view() == (ActionCollectorView {
                assistant_text: Seq::empty(),
                events: Seq::empty(),
            }),
    {
        let r = ActionCollector { assistant_text: String::new(), events: Vec::new() };
        assert(r.deep_view() =~= ActionCollectorView {
            assistant_text: Seq::empty(),
            events: Seq::empty(),
        });
        r
    }

    fn add_event(&mut self, event: AgentActionEvent)
        ensures
            final(self).deep_view() == (ActionCollectorView {
                events: old(self).deep_view().events.push(event.deep_view()),
                ..old(self).deep_view()
            }),
    {
        let ghost before = self.events.deep_view();
        self.events.push(event);
        assert(self.events.deep_view() =~= before.push(event.deep_view()));
    }

    /// Takes one more event of the turn.
    pub fn event(&mut self, event: TurnStreamEvent)
        ensures
            final(self).deep_view() == event_collected(old(self).deep_view(), event.deep_view()),
    {
        match event {
            TurnStreamEvent::Model(model) => {
                if let TurnModelEvent::AssistantMessage { text } = model {
                    self.assistant_text = text.clone();
                    self.add_event(AgentActionEvent::AssistantText { text });
                }
            },
            TurnStreamEvent::State(state) => match state {
                TurnStateEvent::FunctionCallsRequested { calls } => {
                    self.add_event(
                        AgentActionEvent::FunctionCallsRequested {
                            calls: make_function_calls(&calls),
                        },
                    );
                },
                TurnStateEvent::FunctionStarted { call_id, name } => {
                    self.add_event(AgentActionEvent::FunctionStarted { call_id, name });
                },
                TurnStateEvent::FunctionCompleted { call_id, name } => {
                    self.add_event(AgentActionEvent::FunctionCompleted { call_id, name });
                },
                TurnStateEvent::FunctionFailed { call_id, name, error } => {
                    self.add_event(AgentActionEvent::FunctionFailed { call_id, name, error });
                },
                TurnStateEvent::TurnTokenUsage { usage } => {
                    self.add_event(
                        AgentActionEvent::TokenUsage { usage: make_token_usage(&usage) },
                    );
                },
                _ => {},
            },
            TurnStreamEvent::Runtime(runtime) => {
                self.add_event(
                    AgentActionEvent::Runtime {
                        source: runtime.source,
                        message: runtime.message,
                        metadata: runtime.metadata,
                    },
                );
            },
        }
    }

    /// Ends the turn.
    pub fn finish(self, outcome: TurnOutcome) -> (r: AgentAction)
        ensures
            r.deep_view() == action_made(self.deep_view(), outcome.deep_view()),
    {
        let mut assistant_text = self.assistant_text;
        let status = match outcome {
            TurnOutcome::AssistantMessage { text } => {
                if assistant_text.as_str().unicode_len() == 0 {
                    assistant_text = text;
                }
                AgentActionStatus::Completed
            },
            TurnOutcome::Suspended { suspension: _ } => AgentActionStatus::Suspended,
            TurnOutcome::Failed { error: _ } => AgentActionStatus::Failed,
            TurnOutcome::Aborted { reason: _ } => AgentActionStatus::Aborted,
        };
        AgentAction { status, assistant_text, events: self.events }
    }
}

} // verus!
