//! What the report of an evaluation is made of.

use crate::eval::graph_environment::EvalEnvironment;
use crate::eval::policy::{EvaluatedPolicy, Referee, RefereeInput};
use crate::eval::runner::{
    has_turn, is_course, is_turn, judged, ran, Course, EvalRunnerComponents,
};
use crate::eval::state::{EnvironmentObservation, EnvironmentStatus};
use vstd::prelude::*;

verus! {

/// A course at whose end the environment is not running any more, with no more actions than there
/// may be.
pub open spec fn has_ended<E: EvalEnvironment, P: EvaluatedPolicy>(
    max_steps: usize,
    before: E,
    policy: P,
    course: Course<E>,
) -> bool {
    &&& is_course(max_steps, before, policy, course)
    &&& course.actions.len() <= max_steps
    &&& course.outputs.last().deep_view().status != EnvironmentStatus::Running
}

/// A report is what the referee says of the environment at the end of a course, once it is not
/// running any more; the referee sees the snapshot and the trajectory that the environment gives.
pub proof fn law_report_is_of_an_ended_environment<
    E: EvalEnvironment,
    P: EvaluatedPolicy,
    R: Referee,
>(
    max_steps: usize,
    before: E,
    after: E,
    people: EvalRunnerComponents<P, R>,
    report: R::Report,
)
    requires
        ran(max_steps, before, after, people, Ok(report)),
    ensures
        exists|course: Course<E>, input: RefereeInput| #[trigger]
            has_ended(max_steps, before, people.policy, course) && after == course.states.last()
                && #[trigger] judged(people.referee, after, input, Ok(report)),
{
    let course = choose|course: Course<E>| #[trigger]
        is_course(max_steps, before, people.policy, course) && crate::eval::runner::stopped(
            max_steps,
            after,
            people,
            course,
            Ok(report),
        );
    let input = choose|input: RefereeInput| #[trigger]
        judged(people.referee, after, input, Ok(report));
    assert(has_ended(max_steps, before, people.policy, course));
    assert(judged(people.referee, after, input, Ok(report)));
}

/// In every turn of a course the environment was running and showed an observation, the agent acted
/// on that observation, and the environment went on from that action.
pub proof fn law_agent_acts_on_what_it_is_shown<E: EvalEnvironment, P: EvaluatedPolicy>(
    max_steps: usize,
    before: E,
    policy: P,
    course: Course<E>,
    i: int,
)
    requires
        is_course(max_steps, before, policy, course),
        0 <= i < course.actions.len(),
    ensures
        course.outputs[i].deep_view().status == EnvironmentStatus::Running,
        i < max_steps,
        exists|observation: EnvironmentObservation| #[trigger]
            is_turn(max_steps, policy, course, i, observation)
                && course.outputs[i].deep_view().observation == Some(observation.deep_view()),
        course.states[i].moves(
            course.actions[i],
            course.states[i + 1],
            Ok(course.outputs[i + 1]),
        ),
        before.starts(course.states[0], Ok(course.outputs[0])),
{
    assert(has_turn(max_steps, policy, course, i));
    let observation = choose|observation: EnvironmentObservation| #[trigger]
        is_turn(max_steps, policy, course, i, observation);
    assert(is_turn(max_steps, policy, course, i, observation));
}

} // verus!
