//! The run loop as a state machine.
//!
//! A run alternates between work that only the caller can do (advancing the
//! system, writing files, drawing) and decisions about what is due next. The
//! decisions are made here: [`run_simulation`] takes the state of the run and
//! the outcome of the last activity, and answers with the next state and the
//! next activity. The caller performs the activity and comes back.
use crate::config::Config;
use crate::duration::{duration_text, format_time};
use crate::ratio::{hundredths, rounded_hundredths};
use crate::text::{push_two_decimals, two_decimals};
use vstd::arithmetic::div_mod::{lemma_fundamental_div_mod, lemma_fundamental_div_mod_converse};
use vstd::prelude::*;
use vstd::string::StringExecFns;

verus! {

/// What can be due at a step, in the order in which it is due.
#[derive(Clone, Copy, Debug, PartialEq, Eq, Structural)]
pub enum Activity {
    /// Advance the system by one timestep, which brings it to this step.
    Integrate,
    /// Keep one sample of the system for the chart.
    Sample,
    /// Export the system's aggregated parameters.
    ExportParameters,
    /// Export a snapshot of the whole system.
    ExportSnapshot,
    /// Export each body's state to its history.
    ExportBodies,
    /// Report progress.
    Report,
}

/// How a run ended.
#[derive(Clone, Copy, Debug, PartialEq, Eq, Structural)]
pub enum RunStatus {
    /// All steps were taken and all output was produced.
    Completed,
    /// All steps were taken and all exports were made, but the chart could
    /// not be drawn.
    PlotFailed,
    /// An activity failed; nothing was done after it.
    Aborted { step: i64, activity: Activity },
}

/// Where a run stands.
#[derive(Clone, Copy, Debug, PartialEq, Eq, Structural)]
pub enum RunState {
    /// Nothing has been asked for yet.
    Ready,
    /// The activity of this step has been asked for.
    Running { step: i64, activity: Activity },
    /// The chart has been asked for.
    Rendering,
    /// The run is over.
    Finished(RunStatus),
}

/// How the activity that was asked for last went.
#[derive(Clone, Copy, Debug, PartialEq, Eq, Structural)]
pub enum Outcome {
    Succeeded,
    Failed,
}

/// What the caller is asked to do next.
#[derive(Clone, Copy, Debug, PartialEq, Eq, Structural)]
pub enum Action {
    /// Perform the activity for the step.
    Perform { step: i64, activity: Activity },
    /// Draw the chart from the samples kept.
    Render,
    /// Stop: the run is over.
    Stop(RunStatus),
}

impl Activity {
    /// Place of the activity in the order of a step.
    pub open spec fn rank(self) -> int {
        match self {
            Activity::Integrate => 0,
            Activity::Sample => 1,
            Activity::ExportParameters => 2,
            Activity::ExportSnapshot => 3,
            Activity::ExportBodies => 4,
            Activity::Report => 5,
        }
    }

    /// The activity with the given rank.
    pub open spec fn at(rank: int) -> Activity {
        if rank <= 0 {
            Activity::Integrate
        } else if rank == 1 {
            Activity::Sample
        } else if rank == 2 {
            Activity::ExportParameters
        } else if rank == 3 {
            Activity::ExportSnapshot
        } else if rank == 4 {
            Activity::ExportBodies
        } else {
            Activity::Report
        }
    }

    /// Whether the activity is due at `step` of a run.
    ///
    /// Step 0 is the initial state: it is not integrated, and it is exported
    /// but neither sampled nor reported. Every later step is integrated.
    /// Telemetry is due at the steps that are multiples of the cadence:
    /// there the system is sampled if a chart is wanted, each export that is
    /// switched on is made, and progress is reported.
    pub open spec fn due(self, config: Config, step: int) -> bool {
        match self {
            Activity::Integrate => step >= 1,
            Activity::Sample => step >= 1 && config.is_tick(step) && config.plot_system,
            Activity::ExportParameters => config.is_tick(step)
                && config.export_system_parameters_history,
            Activity::ExportSnapshot => config.is_tick(step) && config.export_system_state,
            Activity::ExportBodies => config.is_tick(step) && config.export_body_history,
            Activity::Report => step >= 1 && config.is_tick(step),
        }
    }
}

/// The first activity due at `step` whose rank is at least `from`, if any.
pub open spec fn due_from(config: Config, step: int, from: int) -> Option<Activity>
    decreases 6 - from,
{
    if from >= 6 {
        None
    } else if Activity::at(from).due(config, step) {
        Some(Activity::at(from))
    } else {
        due_from(config, step, from + 1)
    }
}

/// What follows once everything up to rank `from - 1` of `step` is done: the
/// next activity due at this step, else the integration that leads to the
/// next step, else, after the last step, the chart if one is wanted, else
/// the end of the run.
pub open spec fn proceed(config: Config, step: int, from: int) -> (RunState, Action) {
    match due_from(config, step, from) {
        Some(activity) => (
            RunState::Running { step: step as i64, activity },
            Action::Perform { step: step as i64, activity },
        ),
        None => if step < config.steps {
            (
                RunState::Running { step: (step + 1) as i64, activity: Activity::Integrate },
                Action::Perform { step: (step + 1) as i64, activity: Activity::Integrate },
            )
        } else if config.plot_system {
            (RunState::Rendering, Action::Render)
        } else {
            (RunState::Finished(RunStatus::Completed), Action::Stop(RunStatus::Completed))
        },
    }
}

/// The next state of a run and the next thing to do.
///
/// A run begins with whatever is due first at step 0. While it runs, success
/// leads on to what is due next, and a failure ends the run at once: nothing
/// further is asked for, not even the chart. A chart that cannot be drawn
/// ends the run too, but is told apart from an aborted run. A run that is
/// over stays over.
pub open spec fn transition(config: Config, state: RunState, outcome: Outcome) -> (
    RunState,
    Action,
) {
    match state {
        RunState::Ready => proceed(config, 0, 0),
        RunState::Running { step, activity } => match outcome {
            Outcome::Succeeded => proceed(config, step as int, activity.rank() + 1),
            Outcome::Failed => {
                let status = RunStatus::Aborted { step, activity };
                (RunState::Finished(status), Action::Stop(status))
            },
        },
        RunState::Rendering => match outcome {
            Outcome::Succeeded => (
                RunState::Finished(RunStatus::Completed),
                Action::Stop(RunStatus::Completed),
            ),
            Outcome::Failed => (
                RunState::Finished(RunStatus::PlotFailed),
                Action::Stop(RunStatus::PlotFailed),
            ),
        },
        RunState::Finished(status) => (RunState::Finished(status), Action::Stop(status)),
    }
}

impl RunState {
    /// A run stands at a step between 0 and its last step.
    pub open spec fn wf(self, config: Config) -> bool {
        match self {
            RunState::Running { step, activity } => 0 <= step <= config.steps,
            _ => true,
        }
    }

    /// Whether the run is over.
    pub fn is_finished(&self) -> (finished: bool)
        ensures
            finished == (*self is Finished),
    {
        match self {
            RunState::Finished(_) => true,
            _ => false,
        }
    }
}

/// Tests [`Config::is_tick`].
fn is_tick(config: &Config, step: i64) -> (tick: bool)
    requires
        config.wf(),
        step >= 0,
    ensures
        tick == config.is_tick(step as int),
{
    step % config.export_step == 0
}

/// Tests [`Activity::due`].
fn is_due(activity: Activity, config: &Config, step: i64) -> (due: bool)
    requires
        config.wf(),
        step >= 0,
    ensures
        due == activity.due(*config, step as int),
{
    match activity {
        Activity::Integrate => step >= 1,
        Activity::Sample => step >= 1 && is_tick(config, step) && config.plot_system,
        Activity::ExportParameters => is_tick(config, step)
            && config.export_system_parameters_history,
        Activity::ExportSnapshot => is_tick(config, step) && config.export_system_state,
        Activity::ExportBodies => is_tick(config, step) && config.export_body_history,
        Activity::Report => step >= 1 && is_tick(config, step),
    }
}

/// Computes [`Activity::at`] for the ranks of activities.
fn activity_at(rank: u8) -> (activity: Activity)
    ensures
        activity == Activity::at(rank as int),
{
    if rank == 0 {
        Activity::Integrate
    } else if rank == 1 {
        Activity::Sample
    } else if rank == 2 {
        Activity::ExportParameters
    } else if rank == 3 {
        Activity::ExportSnapshot
    } else if rank == 4 {
        Activity::ExportBodies
    } else {
        Activity::Report
    }
}

/// Computes [`Activity::rank`].
fn rank_of(activity: Activity) -> (rank: u8)
    ensures
        rank == activity.rank(),
{
    match activity {
        Activity::Integrate => 0,
        Activity::Sample => 1,
        Activity::ExportParameters => 2,
        Activity::ExportSnapshot => 3,
        Activity::ExportBodies => 4,
        Activity::Report => 5,
    }
}

/// Computes [`proceed`].
fn proceed_from(config: &Config, step: i64, from: u8) -> (next: (RunState, Action))
    requires
        config.wf(),
        0 <= step <= config.steps,
        from <= 6,
    ensures
        next == proceed(*config, step as int, from as int),
        next.0.wf(*config),
{
    let mut rank: u8 = from;
    while rank < 6
        invariant
            from <= rank <= 6,
            config.wf(),
            0 <= step <= config.steps,
            due_from(*config, step as int, rank as int) == due_from(
                *config,
                step as int,
                from as int,
            ),
        decreases 6 - rank,
    {
        let activity = activity_at(rank);
        if is_due(activity, config, step) {
            return (RunState::Running { step, activity }, Action::Perform { step, activity });
        }
        rank = rank + 1;
    }
    if step < config.steps {
        (
            RunState::Running { step: step + 1, activity: Activity::Integrate },
            Action::Perform { step: step + 1, activity: Activity::Integrate },
        )
    } else if config.plot_system {
        (RunState::Rendering, Action::Render)
    } else {
        (RunState::Finished(RunStatus::Completed), Action::Stop(RunStatus::Completed))
    }
}

/// Decides how a run goes on: given where the run stands and how the
/// activity that was asked for last went, the state that the run is in now
/// and what to do next.
///
/// In the state [`RunState::Ready`] nothing has been asked for, and the
/// outcome is not looked at.
pub fn run_simulation(config: &Config, state: RunState, outcome: Outcome) -> (next: (
    RunState,
    Action,
))
    requires
        config.wf(),
        state.wf(*config),
    ensures
        next == transition(*config, state, outcome),
        next.0.wf(*config),
{
    match state {
        RunState::Ready => proceed_from(config, 0, 0),
        RunState::Running { step, activity } => match outcome {
            Outcome::Succeeded => proceed_from(config, step, rank_of(activity) + 1),
            Outcome::Failed => {
                let status = RunStatus::Aborted { step, activity };
                (RunState::Finished(status), Action::Stop(status))
            },
        },
        RunState::Rendering => match outcome {
            Outcome::Succeeded => (
                RunState::Finished(RunStatus::Completed),
                Action::Stop(RunStatus::Completed),
            ),
            Outcome::Failed => (
                RunState::Finished(RunStatus::PlotFailed),
                Action::Stop(RunStatus::PlotFailed),
            ),
        },
        RunState::Finished(status) => (RunState::Finished(status), Action::Stop(status)),
    }
}

/// The progress line after the telemetry of `step` in a run of `steps`
/// steps, `seconds` of simulated time into the run: the share of the steps
/// taken, in percent with two decimals, and the simulated time in words.
pub open spec fn progress_text(step: nat, steps: nat, seconds: nat) -> Seq<char> {
    "Progress: "@ + two_decimals(hundredths(100 * step, steps)) + "%, time: "@ + duration_text(
        seconds,
    )
}

/// Writes the progress line of a telemetry tick.
pub fn progress_message(step: i64, steps: i64, seconds: u64) -> (line: String)
    requires
        0 <= step,
        0 < steps,
    ensures
        line@ == progress_text(step as nat, steps as nat, seconds as nat),
{
    let mut line = String::from_str("Progress: ");
    push_two_decimals(&mut line, rounded_hundredths((step as u128) * 100, steps as u64));
    line.append("%, time: ");
    line.append(format_time(seconds).as_str());
    line
}

/// The state of a run after `n` activities have been asked for and none has
/// failed.
pub open spec fn state_after(config: Config, n: nat) -> RunState
    decreases n,
{
    if n == 0 {
        RunState::Ready
    } else {
        transition(config, state_after(config, (n - 1) as nat), Outcome::Succeeded).0
    }
}

/// The `n`-th thing that a run in which nothing fails asks for, counted
/// from 0.
pub open spec fn action_at(config: Config, n: nat) -> Action {
    transition(config, state_after(config, n), Outcome::Succeeded).1
}

/// The steps for which `activity` is among the first `n` things that a run
/// in which nothing fails asks for, in the order of asking.
pub open spec fn performed(config: Config, activity: Activity, n: nat) -> Seq<int>
    decreases n,
{
    if n == 0 {
        Seq::empty()
    } else {
        let before = performed(config, activity, (n - 1) as nat);
        match action_at(config, (n - 1) as nat) {
            Action::Perform { step, activity: a } if a == activity => before.push(step as int),
            _ => before,
        }
    }
}

/// The steps below `upto`, from 0 on, at which `activity` is due, in
/// ascending order.
pub open spec fn due_steps(config: Config, activity: Activity, upto: int) -> Seq<int>
    decreases upto,
{
    if upto <= 0 {
        Seq::empty()
    } else if activity.due(config, upto - 1) {
        due_steps(config, activity, upto - 1).push(upto - 1)
    } else {
        due_steps(config, activity, upto - 1)
    }
}

/// What [`due_from`] finds is due, not before `from`, and the first such.
proof fn lemma_due_from(config: Config, step: int, from: int)
    requires
        0 <= from <= 6,
    ensures
        match due_from(config, step, from) {
            Some(found) => {
                &&& found.due(config, step)
                &&& from <= found.rank()
                &&& forall|a: Activity| from <= a.rank() < found.rank() ==> !a.due(config, step)
            },
            None => forall|a: Activity| from <= a.rank() ==> !a.due(config, step),
        },
    decreases 6 - from,
{
    if from < 6 {
        lemma_due_from(config, step, from + 1);
        assert forall|a: Activity| a.rank() == from implies a == Activity::at(from) by {}
    }
}

/// What has been performed when a run stands at a state: everything that
/// was due at earlier steps and, at the step of the state, what is due up to
/// the activity that has been asked for.
spec fn on_course(config: Config, activity: Activity, n: nat) -> bool {
    match state_after(config, n) {
        RunState::Ready => n == 0,
        RunState::Running { step, activity: current } => {
            &&& 0 <= step <= config.steps
            &&& current.due(config, step as int)
            &&& step * 6 + current.rank() + 1 >= n
            &&& performed(config, activity, n) == done_before(
                config,
                activity,
                step as int,
                current.rank() + 1,
            )
        },
        RunState::Rendering => {
            &&& config.plot_system
            &&& performed(config, activity, n) == due_steps(config, activity, config.steps + 1)
        },
        RunState::Finished(status) => {
            &&& status == RunStatus::Completed
            &&& performed(config, activity, n) == due_steps(config, activity, config.steps + 1)
        },
    }
}

/// A run in which nothing fails is on course after any number of activities.
proof fn lemma_on_course(config: Config, activity: Activity, n: nat)
    requires
        config.wf(),
    ensures
        on_course(config, activity, n),
    decreases n,
{
    if n > 0 {
        let m = (n - 1) as nat;
        lemma_on_course(config, activity, m);
        let before = state_after(config, m);
        let next = transition(config, before, Outcome::Succeeded);
        assert(state_after(config, n) == next.0);
        assert(action_at(config, m) == next.1);
        match before {
            RunState::Ready => {
                lemma_proceed_on_course(config, activity, 0, 0);
                assert(performed(config, activity, m) == due_steps(config, activity, 0));
            },
            RunState::Running { step, activity: current } => {
                lemma_proceed_on_course(config, activity, step as int, current.rank() + 1);
            },
            _ => {},
        }
    }
}

/// What has been performed of `activity` once everything due at `step`
/// below rank `from` has been.
spec fn done_before(config: Config, activity: Activity, step: int, from: int) -> Seq<int> {
    if activity.rank() < from && activity.due(config, step) {
        due_steps(config, activity, step).push(step)
    } else {
        due_steps(config, activity, step)
    }
}

/// One step of [`lemma_on_course`]: how [`proceed`] carries on.
proof fn lemma_proceed_on_course(config: Config, activity: Activity, step: int, from: int)
    requires
        config.wf(),
        0 <= step <= config.steps,
        0 <= from <= 6,
    ensures
        ({
            let next = proceed(config, step, from);
            let now = match next.1 {
                Action::Perform { step: at, activity: a } if a == activity => done_before(
                    config,
                    activity,
                    step,
                    from,
                ).push(at as int),
                _ => done_before(config, activity, step, from),
            };
            match next.0 {
                RunState::Ready => false,
                RunState::Running { step: at, activity: current } => {
                    &&& step <= at <= config.steps
                    &&& at == step ==> from <= current.rank()
                    &&& current.due(config, at as int)
                    &&& now == done_before(config, activity, at as int, current.rank() + 1)
                },
                RunState::Rendering => {
                    &&& config.plot_system
                    &&& now == due_steps(config, activity, config.steps + 1)
                },
                RunState::Finished(status) => {
                    &&& status == RunStatus::Completed
                    &&& now == due_steps(config, activity, config.steps + 1)
                },
            }
        }),
{
    lemma_due_from(config, step, from);
    assert(due_steps(config, activity, step + 1) == if activity.due(config, step) {
        due_steps(config, activity, step).push(step)
    } else {
        due_steps(config, activity, step)
    });
    match due_from(config, step, from) {
        Some(found) => {
            if activity.due(config, step) && from <= activity.rank() && activity.rank()
                <= found.rank() {
                assert(activity.rank() == found.rank());
                assert(activity == found);
            }
        },
        None => {
            if step < config.steps {
                assert(due_steps(config, activity, step + 1 + 1) == if activity.due(
                    config,
                    step + 1,
                ) {
                    due_steps(config, activity, step + 1).push(step + 1)
                } else {
                    due_steps(config, activity, step + 1)
                });
            }
        },
    }
}

/// In a run in which nothing fails, each activity is performed at exactly
/// the steps from 0 to the last at which it is due, once each and in
/// ascending order; and such a run ends as completed.
pub proof fn lemma_run_performs_what_is_due(config: Config, activity: Activity, n: nat)
    requires
        config.wf(),
        state_after(config, n) is Finished,
    ensures
        state_after(config, n) == RunState::Finished(RunStatus::Completed),
        performed(config, activity, n) == due_steps(config, activity, config.steps + 1),
{
    lemma_on_course(config, activity, n);
}

/// A run in which nothing fails is over after at most six activities per
/// step, from step 0 to the last, and the chart.
pub proof fn lemma_run_finishes(config: Config)
    requires
        config.wf(),
    ensures
        state_after(config, (6 * (config.steps + 1) + 2) as nat) is Finished,
{
    let n = (6 * (config.steps + 1) + 1) as nat;
    lemma_on_course(config, Activity::Integrate, n);
    assert(state_after(config, n) is Rendering || state_after(config, n) is Finished);
}

/// The telemetry ticks of a run: the multiples of the cadence from 0 to the
/// last step, in ascending order. There are `steps / export_step + 1` of
/// them.
pub open spec fn ticks(config: Config) -> Seq<int> {
    Seq::new((config.steps / config.export_step + 1) as nat, |k: int| k * config.export_step)
}

/// The multiples of `cadence` below `upto`, from 0 on.
spec fn multiples_below(cadence: int, upto: int) -> Seq<int> {
    Seq::new(((upto + cadence - 1) / cadence) as nat, |k: int| k * cadence)
}

/// Adding the divisor to a number adds one to the quotient.
proof fn lemma_quotient_of_next(cadence: int, last: int)
    requires
        cadence > 0,
        last >= 0,
    ensures
        (last + cadence) / cadence == last / cadence + 1,
        last / cadence >= 0,
{
    let q = last / cadence;
    let r = last % cadence;
    lemma_fundamental_div_mod(last, cadence);
    assert(last + cadence == (q + 1) * cadence + r) by (nonlinear_arith)
        requires
            last == cadence * q + r,
    ;
    assert(q >= 0) by (nonlinear_arith)
        requires
            last == cadence * q + r,
            last >= 0,
            0 <= r < cadence,
            cadence > 0,
    ;
    lemma_fundamental_div_mod_converse(last + cadence, cadence, q + 1, r);
}

/// How many multiples of `cadence` lie below `upto + 1`, given how many lie
/// below `upto`.
proof fn lemma_count_multiples(cadence: int, upto: int)
    requires
        cadence > 0,
        upto >= 0,
    ensures
        (upto + cadence - 1) / cadence >= 0,
        upto % cadence == 0 ==> (upto + cadence - 1) / cadence * cadence == upto && (upto
            + cadence) / cadence == (upto + cadence - 1) / cadence + 1,
        upto % cadence != 0 ==> (upto + cadence) / cadence == (upto + cadence - 1) / cadence,
{
    let q = upto / cadence;
    let r = upto % cadence;
    lemma_fundamental_div_mod(upto, cadence);
    assert(upto == q * cadence + r) by (nonlinear_arith)
        requires
            upto == cadence * q + r,
    ;
    assert(q >= 0) by (nonlinear_arith)
        requires
            upto == q * cadence + r,
            upto >= 0,
            0 <= r < cadence,
    ;
    assert((q + 1) * cadence == q * cadence + cadence) by (nonlinear_arith);
    if r == 0 {
        lemma_fundamental_div_mod_converse(upto + cadence - 1, cadence, q, cadence - 1);
        lemma_fundamental_div_mod_converse(upto + cadence, cadence, q + 1, 0);
    } else {
        lemma_fundamental_div_mod_converse(upto + cadence - 1, cadence, q + 1, r - 1);
        lemma_fundamental_div_mod_converse(upto + cadence, cadence, q + 1, r);
    }
}

/// The steps below `upto` at which an export that is switched on is due are
/// the multiples of the cadence below `upto`.
proof fn lemma_due_steps_of_export(config: Config, activity: Activity, upto: int)
    requires
        config.wf(),
        upto >= 0,
        activity.due(config, 0),
        activity == Activity::ExportParameters || activity == Activity::ExportSnapshot || activity
            == Activity::ExportBodies,
    ensures
        due_steps(config, activity, upto) == multiples_below(config.export_step as int, upto),
    decreases upto,
{
    let cadence = config.export_step as int;
    if upto == 0 {
        lemma_fundamental_div_mod_converse(cadence - 1, cadence, 0, cadence - 1);
        assert(due_steps(config, activity, upto) =~= multiples_below(cadence, upto));
    } else {
        lemma_due_steps_of_export(config, activity, upto - 1);
        lemma_count_multiples(cadence, upto - 1);
        assert(activity.due(config, upto - 1) == ((upto - 1) % cadence == 0));
        assert(due_steps(config, activity, upto) =~= multiples_below(cadence, upto));
    }
}

/// An export that is switched on is due at the telemetry ticks of the run
/// and at no other step; one that is switched off is never due.
pub proof fn lemma_exports_are_due_at_ticks(config: Config, activity: Activity)
    requires
        config.wf(),
        activity == Activity::ExportParameters || activity == Activity::ExportSnapshot || activity
            == Activity::ExportBodies,
    ensures
        due_steps(config, activity, config.steps + 1) == if activity.due(config, 0) {
            ticks(config)
        } else {
            Seq::empty()
        },
        activity.due(config, 0) == match activity {
            Activity::ExportParameters => config.export_system_parameters_history,
            Activity::ExportSnapshot => config.export_system_state,
            _ => config.export_body_history,
        },
{
    let cadence = config.export_step as int;
    lemma_fundamental_div_mod_converse(0, cadence, 0, 0);
    if activity.due(config, 0) {
        lemma_due_steps_of_export(config, activity, config.steps + 1);
        lemma_quotient_of_next(cadence, config.steps as int);
        assert(multiples_below(cadence, config.steps + 1) =~= ticks(config));
    } else {
        lemma_never_due(config, activity, config.steps + 1);
    }
}

/// An export that is switched off is due at no step.
proof fn lemma_never_due(config: Config, activity: Activity, upto: int)
    requires
        !activity.due(config, 0),
        0int % (config.export_step as int) == 0,
        activity == Activity::ExportParameters || activity == Activity::ExportSnapshot || activity
            == Activity::ExportBodies,
    ensures
        due_steps(config, activity, upto) == Seq::<int>::empty(),
    decreases upto,
{
    if upto > 0 {
        lemma_never_due(config, activity, upto - 1);
    }
}

/// In a run in which nothing fails, the aggregated parameters are exported
/// at the telemetry ticks, in ascending order, and at no other step: if the
/// export is switched on, once for each multiple of the cadence from step 0
/// to the last step, which makes `steps / export_step + 1` exports.
pub proof fn lemma_parameters_are_exported_at_ticks(config: Config, n: nat)
    requires
        config.wf(),
        state_after(config, n) is Finished,
    ensures
        config.export_system_parameters_history ==> performed(
            config,
            Activity::ExportParameters,
            n,
        ) == ticks(config),
        !config.export_system_parameters_history ==> performed(
            config,
            Activity::ExportParameters,
            n,
        ) == Seq::<int>::empty(),
        ticks(config).len() == config.steps / config.export_step + 1,
        forall|k: int| 0 <= k < ticks(config).len() ==> #[trigger] ticks(config)[k] == k
            * config.export_step,
{
    lemma_run_performs_what_is_due(config, Activity::ExportParameters, n);
    lemma_exports_are_due_at_ticks(config, Activity::ExportParameters);
    lemma_quotient_of_next(config.export_step as int, config.steps as int);
}

/// At every moment of a run in which nothing fails, an export has been
/// made at the first telemetry ticks and at no other step: the `k`-th export
/// so far was made at step `k * export_step`. An export that is switched off
/// has not been made at all.
pub proof fn lemma_exports_so_far(config: Config, activity: Activity, n: nat)
    requires
        config.wf(),
        activity == Activity::ExportParameters || activity == Activity::ExportSnapshot || activity
            == Activity::ExportBodies,
    ensures
        forall|k: int|
            0 <= k < performed(config, activity, n).len() ==> #[trigger] performed(
                config,
                activity,
                n,
            )[k] == k * config.export_step,
        performed(config, activity, n).len() <= config.steps / config.export_step + 1,
        !activity.due(config, 0) ==> performed(config, activity, n).len() == 0,
{
    let cadence = config.export_step as int;
    lemma_on_course(config, activity, n);
    lemma_fundamental_div_mod_converse(0, cadence, 0, 0);
    lemma_quotient_of_next(cadence, config.steps as int);
    let reached: int = match state_after(config, n) {
        RunState::Ready => 0,
        RunState::Running { step, activity: current } => if activity.rank() < current.rank() + 1
            && activity.due(config, step as int) {
            step + 1
        } else {
            step as int
        },
        _ => config.steps + 1,
    };
    assert(performed(config, activity, n) == due_steps(config, activity, reached));
    if activity.due(config, 0) {
        lemma_due_steps_of_export(config, activity, reached);
        lemma_multiples_grow(cadence, reached, config.steps + 1);
    } else {
        lemma_never_due(config, activity, reached);
    }
}

/// Below a greater bound lie at least as many multiples.
proof fn lemma_multiples_grow(cadence: int, low: int, high: int)
    requires
        cadence > 0,
        0 <= low <= high,
    ensures
        (low + cadence - 1) / cadence <= (high + cadence - 1) / cadence,
    decreases high - low,
{
    if low < high {
        lemma_multiples_grow(cadence, low, high - 1);
        lemma_count_multiples(cadence, high - 1);
    }
}

/// Where a run in which nothing has failed stands, and what it has
/// performed by then.
///
/// While the run is running it stands at a step from 0 to the last, at an
/// activity that is due there. Of each activity it has performed, once each
/// and in ascending order, what was due at the earlier steps and, if the
/// activity is due at this step and comes no later in the order of a step
/// than the one asked for, this step. So each step up to this one has been
/// integrated exactly once, and no telemetry tick has been left out or
/// served twice.
pub proof fn lemma_course_of_run(config: Config, activity: Activity, n: nat)
    requires
        config.wf(),
    ensures
        state_after(config, n) matches RunState::Running { step, activity: current } ==> {
            &&& 0 <= step <= config.steps
            &&& current.due(config, step as int)
            &&& performed(config, activity, n) == if activity.rank() <= current.rank()
                && activity.due(config, step as int) {
                due_steps(config, activity, step as int).push(step as int)
            } else {
                due_steps(config, activity, step as int)
            }
        },
        state_after(config, n) is Ready ==> n == 0,
        state_after(config, n) matches RunState::Finished(status) ==> status
            == RunStatus::Completed,
{
    lemma_on_course(config, activity, n);
}

/// The state of a run after `n` activities have been asked for, where the
/// one asked for as number `failing`, counted from 0, fails and the others
/// succeed.
pub open spec fn state_after_failure(config: Config, failing: nat, n: nat) -> RunState
    decreases n,
{
    if n == 0 {
        RunState::Ready
    } else {
        transition(
            config,
            state_after_failure(config, failing, (n - 1) as nat),
            if n == failing + 2 {
                Outcome::Failed
            } else {
                Outcome::Succeeded
            },
        ).0
    }
}

/// What a run asks for as number `n`, counted from 0, where the activity
/// asked for as number `failing` fails and the others succeed.
pub open spec fn action_after_failure(config: Config, failing: nat, n: nat) -> Action {
    transition(
        config,
        state_after_failure(config, failing, n),
        if n == failing + 1 {
            Outcome::Failed
        } else {
            Outcome::Succeeded
        },
    ).1
}

/// A failure ends a run at once.
///
/// Up to the activity that fails, the run asks for what a run without
/// failure asks for. When that activity has failed, the run is aborted at
/// its step, and from then on the run asks for nothing but to stop: no
/// further step is taken, no further export is made and no chart is drawn.
pub proof fn lemma_failure_ends_run(config: Config, failing: nat, n: nat)
    requires
        config.wf(),
        state_after(config, failing + 1) is Running,
    ensures
        n <= failing + 1 ==> state_after_failure(config, failing, n) == state_after(config, n),
        n <= failing ==> action_after_failure(config, failing, n) == action_at(config, n),
        n > failing + 1 ==> state_after_failure(config, failing, n) == RunState::Finished(
            RunStatus::Aborted {
                step: state_after(config, failing + 1)->step,
                activity: state_after(config, failing + 1)->activity,
            },
        ),
        n > failing ==> action_after_failure(config, failing, n) == Action::Stop(
            RunStatus::Aborted {
                step: state_after(config, failing + 1)->step,
                activity: state_after(config, failing + 1)->activity,
            },
        ),
    decreases n,
{
    if n > 0 {
        lemma_failure_ends_run(config, failing, (n - 1) as nat);
    }
}

} // verus!
