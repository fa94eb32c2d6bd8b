//! Runs an agent in an environment and lets a referee judge it.

use crate::eval::action::AgentAction;
use crate::eval::error::{EvalError, EvalErrorView, Result};
use crate::eval::graph_environment::EvalEnvironment;
use crate::eval::policy::{EvaluatedPolicy, Referee, RefereeInput};
use crate::eval::state::{
    EnvironmentObservation, EnvironmentObservationView, EnvironmentOutput, EnvironmentOutputView,
    EnvironmentSnapshot, EnvironmentStatus,
};
use crate::same::outcome_of;
use crate::text::{decimal, decimal_text, glue3};
use vstd::prelude::*;

verus! {

/// How long an evaluation may take.
#[derive(Clone, Copy, Debug, PartialEq, Eq, Structural)]
pub struct EvalRunnerConfig {
    pub max_environment_steps: usize,
}

impl Default for EvalRunnerConfig {
    fn default() -> (r: Self)
        ensures
            r == (EvalRunnerConfig { max_environment_steps: 128 }),
    {
        EvalRunnerConfig { max_environment_steps: 128 }
    }
}

/// What a runner does next: nothing when the environment is not running any more, and otherwise it
/// lets the agent act on an observation.
pub open spec fn runner_move(max_steps: usize, steps: usize, output: EnvironmentOutputView) -> core::result::Result<
    Option<EnvironmentObservationView>,
    EvalErrorView,
> {
    if output.status != EnvironmentStatus::Running {
        Ok(None)
    } else if steps >= max_steps {
        Err(
            EvalErrorView::Environment(
                "environment exceeded "@ + decimal(max_steps as nat) + " steps"@,
            ),
        )
    } else {
        match output.observation {
            None => Err(
                EvalErrorView::Environment(
                    "running environment did not produce an observation"@,
                ),
            ),
            Some(observation) => Ok(Some(observation)),
        }
    }
}

/// Says what a runner does next.
pub fn next_move(config: EvalRunnerConfig, steps: usize, output: EnvironmentOutput) -> (r: Result<
    Option<EnvironmentObservation>,
>)
    ensures
        outcome_of(r) == runner_move(config.max_environment_steps, steps, output.deep_view()),
{
    if output.status != EnvironmentStatus::Running {
        return Ok(None);
    }
    if steps >= config.max_environment_steps {
        return Err(
            EvalError::Environment(
                glue3(
                    "environment exceeded ",
                    decimal_text(config.max_environment_steps as u128).as_str(),
                    " steps",
                ),
            ),
        );
    }
    match output.observation {
        None => Err(
            EvalError::Environment(
                "running environment did not produce an observation".to_owned(),
            ),
        ),
        Some(observation) => Ok(Some(observation)),
    }
}

/// Who acts and who judges.
pub struct EvalRunnerComponents<P, R> {
    pub policy: P,
    pub referee: R,
}

impl<P: EvaluatedPolicy, R: Referee> EvalRunnerComponents<P, R> {
    /// Who acts and who judges.
    pub fn new(policy: P, referee: R) -> (r: Self)
        ensures
            r.policy == policy,
            r.referee == referee,
    {
        EvalRunnerComponents { policy, referee }
    }
}

/// The course of an evaluation: how the environment was after each step, what it answered, and what
/// the agent did in between.
pub struct Course<E> {
    pub states: Seq<E>,
    pub outputs: Seq<EnvironmentOutput>,
    pub actions: Seq<AgentAction>,
}

/// In turn `i` the agent was shown an observation, acted on it, and the environment went on from the
/// action.
pub open spec fn is_turn<E: EvalEnvironment, P: EvaluatedPolicy>(
    max_steps: usize,
    policy: P,
    course: Course<E>,
    i: int,
    observation: EnvironmentObservation,
) -> bool {
    &&& runner_move(max_steps, i as usize, course.outputs[i].deep_view()) == Ok::<
        Option<EnvironmentObservationView>,
        EvalErrorView,
    >(Some(observation.deep_view()))
    &&& call_ensures(P::act, (&policy, observation), Ok(course.actions[i]))
    &&& course.states[i].moves(
        course.actions[i],
        course.states[i + 1],
        Ok(course.outputs[i + 1]),
    )
}

/// Some observation was shown in turn `i`.
pub open spec fn has_turn<E: EvalEnvironment, P: EvaluatedPolicy>(
    max_steps: usize,
    policy: P,
    course: Course<E>,
    i: int,
) -> bool {
    exists|observation: EnvironmentObservation| #[trigger]
        is_turn(max_steps, policy, course, i, observation)
}

/// A course begins with a reset, and every turn follows from the one before; there are no more
/// turns than the limit.
pub open spec fn is_course<E: EvalEnvironment, P: EvaluatedPolicy>(
    max_steps: usize,
    before: E,
    policy: P,
    course: Course<E>,
) -> bool {
    &&& course.actions.len() <= max_steps
    &&& course.states.len() == course.actions.len() + 1
    &&& course.outputs.len() == course.actions.len() + 1
    &&& before.starts(course.states[0], Ok(course.outputs[0]))
    &&& forall|i: int|
        0 <= i < course.actions.len() ==> #[trigger] has_turn(max_steps, policy, course, i)
}

/// The agent failed to act on what it was shown last.
pub open spec fn balked<E: EvalEnvironment, P: EvaluatedPolicy>(
    policy: P,
    max_steps: usize,
    course: Course<E>,
    error: EvalError,
) -> bool {
    exists|observation: EnvironmentObservation|
        {
            &&& #[trigger] call_ensures(
                P::act,
                (&policy, observation),
                Err::<AgentAction, EvalError>(error),
            )
            &&& runner_move(
                max_steps,
                course.actions.len() as usize,
                course.outputs.last().deep_view(),
            ) == Ok::<Option<EnvironmentObservationView>, EvalErrorView>(
                Some(observation.deep_view()),
            )
        }
}

/// The environment failed to go on from what the agent did last.
pub open spec fn broke<E: EvalEnvironment, P: EvaluatedPolicy>(
    policy: P,
    max_steps: usize,
    course: Course<E>,
    after: E,
    error: EvalError,
) -> bool {
    exists|observation: EnvironmentObservation, action: AgentAction|
        {
            &&& #[trigger] call_ensures(
                P::act,
                (&policy, observation),
                Ok::<AgentAction, EvalError>(action),
            )
            &&& runner_move(
                max_steps,
                course.actions.len() as usize,
                course.outputs.last().deep_view(),
            ) == Ok::<Option<EnvironmentObservationView>, EvalErrorView>(
                Some(observation.deep_view()),
            )
            &&& course.states.last().moves(action, after, Err(error))
        }
}

/// What comes of a course: the error of the runner, of the agent or of the environment; or, once
/// the environment has ended, what the referee says of it.
pub open spec fn stopped<E: EvalEnvironment, P: EvaluatedPolicy, R: Referee>(
    max_steps: usize,
    after: E,
    people: EvalRunnerComponents<P, R>,
    course: Course<E>,
    r: Result<R::Report>,
) -> bool {
    match runner_move(
        max_steps,
        course.actions.len() as usize,
        course.outputs.last().deep_view(),
    ) {
        Err(error) => after == course.states.last() && r is Err && r->Err_0.deep_view() == error,
        Ok(Some(_)) => {
            &&& r is Err
            &&& {
                ||| after == course.states.last() && balked(
                    people.policy,
                    max_steps,
                    course,
                    r->Err_0,
                )
                ||| broke(people.policy, max_steps, course, after, r->Err_0)
            }
        },
        Ok(None) => {
            &&& after == course.states.last()
            &&& {
                ||| r is Err && call_ensures(
                    E::snapshot,
                    (&after,),
                    Err::<EnvironmentSnapshot, EvalError>(r->Err_0),
                )
                ||| exists|input: RefereeInput| #[trigger] judged(people.referee, after, input, r)
            }
        },
    }
}

/// What an evaluation comes to: the error of the reset, or what comes of a course.
pub open spec fn ran<E: EvalEnvironment, P: EvaluatedPolicy, R: Referee>(
    max_steps: usize,
    before: E,
    after: E,
    people: EvalRunnerComponents<P, R>,
    r: Result<R::Report>,
) -> bool {
    ||| r is Err && before.starts(after, Err(r->Err_0))
    ||| exists|course: Course<E>|
        {
            &&& #[trigger] is_course(max_steps, before, people.policy, course)
            &&& stopped(max_steps, after, people, course, r)
        }
}

/// Runs an agent in an environment.
pub struct EvalRunner<E, P, R> {
    config: EvalRunnerConfig,
    environment: E,
    components: EvalRunnerComponents<P, R>,
}

impl<E: EvalEnvironment, P: EvaluatedPolicy, R: Referee> EvalRunner<E, P, R> {
    /// How long an evaluation may take.
    pub closed spec fn limits(&self) -> EvalRunnerConfig {
        self.config
    }

    /// The environment.
    pub closed spec fn surroundings(&self) -> E {
        self.environment
    }

    /// Who acts and who judges.
    pub closed spec fn people(&self) -> EvalRunnerComponents<P, R> {
        self.components
    }

    /// A runner with the usual limits.
    pub fn new(environment: E, components: EvalRunnerComponents<P, R>) -> (r: Self)
        ensures
            r.limits() == (EvalRunnerConfig { max_environment_steps: 128 }),
            r.surroundings() == environment,
            r.people() == components,
    {
        EvalRunner {
            config: EvalRunnerConfig { max_environment_steps: 128 },
            environment,
            components,
        }
    }

    /// The same runner with other limits.
    pub fn with_config(self, config: EvalRunnerConfig) -> (r: Self)
        ensures
            r.limits() == config,
            r.surroundings() == self.surroundings(),
            r.people() == self.people(),
    {
        let mut r = self;
        r.config = config;
        r
    }

    /// Lets the agent act until the environment ends or the limit is reached, and has what happened
    /// judged.
    pub fn run(&mut self) -> (r: Result<R::Report>)
        ensures
            final(self).limits() == old(self).limits(),
            final(self).people() == old(self).people(),
            ran(
                old(self).limits().max_environment_steps,
                old(self).surroundings(),
                final(self).surroundings(),
                old(self).people(),
                r,
            ),
            r is Ok ==> exists|course: Course<E>, input: RefereeInput|
                {
                    &&& #[trigger] is_course(
                        old(self).limits().max_environment_steps,
                        old(self).surroundings(),
                        old(self).people().policy,
                        course,
                    )
                    &&& course.states.last() == final(self).surroundings()
                    &&& course.outputs.last().status != EnvironmentStatus::Running
                    &&& #[trigger] judged(
                        old(self).people().referee,
                        final(self).surroundings(),
                        input,
                        r,
                    )
                },
    {
        let max: usize = self.config.max_environment_steps;
        let ghost before = self.environment;
        let ghost people = self.components;
        let started = self.environment.reset();
        let mut output = match started {
            Ok(output) => output,
            Err(error) => {
                assert(before.starts(self.environment, Err(error)));
                return Err(error);
            },
        };
        let ghost mut course = Course::<E> {
            states: seq![self.environment],
            outputs: seq![output],
            actions: Seq::empty(),
        };
        let mut steps: usize = 0;
        let mut running = true;
        while running
            invariant
                max == self.config.max_environment_steps,
                self.config == old(self).config,
                self.components == old(self).components,
                before == old(self).environment,
                people == old(self).components,
                steps <= max,
                steps == course.actions.len(),
                is_course(max, before, people.policy, course),
                course.states.last() == self.environment,
                running ==> course.outputs.last() == output,
                !running ==> runner_move(max, steps, course.outputs.last().deep_view()) == Ok::<
                    Option<EnvironmentObservationView>,
                    EvalErrorView,
                >(None),
            decreases (if running { 1nat } else { 0nat }), max - steps,
        {
            let ghost shown = output;
            match next_move(self.config, steps, output) {
                Err(error) => {
                    assert(stopped(max, self.environment, people, course, Err(error)));
                    return Err(error);
                },
                Ok(None) => {
                    running = false;
                    output = EnvironmentOutput {
                        observation: None,
                        status: EnvironmentStatus::Terminated,
                    };
                },
                Ok(Some(observation)) => {
                    let ghost seen = observation;
                    let acted = self.components.policy.act(observation);
                    assert(call_ensures(P::act, (&people.policy, seen), acted));
                    let action = match acted {
                        Ok(action) => action,
                        Err(error) => {
                            assert(balked(people.policy, max, course, error));
                            assert(stopped(max, self.environment, people, course, Err(error)));
                            return Err(error);
                        },
                    };
                    let ghost done = action;
                    let ghost here = self.environment;
                    let stepped = self.environment.step(action);
                    assert(here.moves(done, self.environment, stepped));
                    output = match stepped {
                        Ok(output) => output,
                        Err(error) => {
                            assert(broke(people.policy, max, course, self.environment, error));
                            assert(stopped(max, self.environment, people, course, Err(error)));
                            return Err(error);
                        },
                    };
                    proof {
                        let next = Course::<E> {
                            states: course.states.push(self.environment),
                            outputs: course.outputs.push(output),
                            actions: course.actions.push(done),
                        };
                        assert(is_turn(max, people.policy, next, steps as int, seen));
                        assert forall|i: int| 0 <= i < next.actions.len() implies has_turn(
                            max,
                            people.policy,
                            next,
                            i,
                        ) by {
                            if i < course.actions.len() {
                                assert(has_turn(max, people.policy, course, i));
                                let seen = choose|seen: EnvironmentObservation| #[trigger]
                                    is_turn(max, people.policy, course, i, seen);
                                assert(is_turn(max, people.policy, next, i, seen));
                            }
                        }
                        course = next;
                    }
                    steps = steps + 1;
                },
            }
        }
        let taken = self.environment.snapshot();
        assert(call_ensures(E::snapshot, (&self.environment,), taken));
        let snapshot = match taken {
            Ok(snapshot) => snapshot,
            Err(error) => {
                assert(stopped(max, self.environment, people, course, Err(error)));
                return Err(error);
            },
        };
        let trajectory = self.environment.trajectory();
        let input = RefereeInput { snapshot, trajectory };
        let r = self.components.referee.evaluate(input);
        assert(judged(old(self).people().referee, self.surroundings(), input, r));
        assert(stopped(max, self.environment, people, course, r));
        r
    }

    /// The environment.
    pub fn environment(&self) -> (r: &E)
        ensures
            *r == self.surroundings(),
    {
        &self.environment
    }
}

/// A referee said this on a snapshot and a trajectory that an environment gave.
pub open spec fn judged<E: EvalEnvironment, R: Referee>(
    referee: R,
    environment: E,
    input: RefereeInput,
    report: Result<R::Report>,
) -> bool {
    &&& call_ensures(E::snapshot, (&environment,), Ok(input.snapshot))
    &&& call_ensures(E::trajectory, (&environment,), input.trajectory)
    &&& call_ensures(R::evaluate, (&referee, input), report)
}

} // verus!
