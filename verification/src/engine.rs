//! The execution engine: what running a step comes to, and the order in which
//! the steps of the selected scenarios are handed to the browser session.
//!
//! The engine performs nothing itself. It is asked for the next action, the
//! caller carries the action out and comes back with what happened.

use crate::cli::{job_of, Cmd, Job, JobView};
use crate::config::E2eYaml;
use crate::registry::value_of;
use crate::scenario::{scenario_views, Scenario, ScenarioError, ScenarioView};
use crate::step::{
    expand_all, expand_steps, step_views, Step, StepError, StepErrorKind, StepErrorView, StepView,
};
use crate::task::{bound_steps, check_registry, Task, TaskError, TaskErrorView, TaskView};
use crate::text::{opt_texts, str_texts, texts};
use crate::var::Vars;
use vstd::prelude::*;
use vstd::string::StringExecFns;

verus! {

/// What running a step comes to.
#[derive(Debug, PartialEq)]
pub enum Work {
    /// The browser session is to carry the step out.
    Act(Step),
    /// The step ran a task: these steps take its place.
    Unfold(Vec<Step>),
}

/// What running a step comes to, as a mathematical value.
pub enum WorkView {
    Act(StepView),
    Unfold(Seq<StepView>),
}

impl View for Work {
    type V = WorkView;

    open spec fn view(&self) -> WorkView {
        match *self {
            Work::Act(step) => WorkView::Act(step@),
            Work::Unfold(steps) => WorkView::Unfold(step_views(steps@)),
        }
    }
}

/// Whether a task takes these arguments: one with parameters takes as many
/// arguments as it has parameters, one without takes whatever it is given.
pub open spec fn takes(task: TaskView, args: Option<Seq<Seq<char>>>) -> bool {
    match task.arg_names {
        Some(names) => args matches Some(values) && values.len() == names.len(),
        None => true,
    }
}

/// The arguments of a run, none where none were given.
pub open spec fn given(args: Option<Seq<Seq<char>>>) -> Seq<Seq<char>> {
    match args {
        Some(values) => values,
        None => Seq::empty(),
    }
}

/// What running `step` comes to under the task registry `tasks` and the
/// variables `vars`.
///
/// A step that runs a task fails where there is no registry or the registry
/// lacks the id, and where the task does not take the arguments. Else the
/// steps of the task take its place, first with the parameters bound to the
/// arguments, then expanded under `vars`. Every other step is for the browser
/// session.
pub open spec fn run_spec(
    step: StepView,
    tasks: Option<Seq<(Seq<char>, TaskView)>>,
    vars: Map<Seq<char>, Seq<char>>,
) -> Result<WorkView, StepErrorView> {
    match step {
        StepView::TaskRun { id, args } => match tasks {
            Some(reg) => match value_of(reg, id) {
                Some(task) => if takes(task, args) {
                    Ok(WorkView::Unfold(expand_steps(bound_steps(task, given(args)), vars)))
                } else {
                    Err(StepErrorView::ArgumentMismatch(id))
                },
                None => Err(StepErrorView::TaskNotFound(id)),
            },
            None => Err(StepErrorView::TaskNotFound(id)),
        },
        _ => Ok(WorkView::Act(step)),
    }
}

/// Borrows each of `list` as a string slice.
fn borrow_each(list: &Vec<String>) -> (r: Vec<&str>)
    ensures
        str_texts(r@) == texts(list@),
{
    let mut out: Vec<&str> = Vec::new();
    let mut i: usize = 0;
    while i < list.len()
        invariant
            i <= list@.len(),
            out@.len() == i,
            forall|k: int| 0 <= k < i ==> out@[k]@ == list@[k]@,
        decreases list@.len() - i,
    {
        out.push(list[i].as_str());
        i += 1;
    }
    assert(str_texts(out@) =~= texts(list@));
    out
}

/// Whether the task takes the arguments.
fn task_takes(task: &Task, args: &Option<Vec<String>>) -> (r: bool)
    ensures
        r == takes(task@, opt_texts(*args)),
{
    match &task.arg_names {
        Some(names) => match args {
            Some(values) => values.len() == names.len(),
            None => false,
        },
        None => true,
    }
}

impl Step {
    /// Decides what running the step comes to; the browser is not touched
    /// here.
    pub fn run(&self, config: &E2eYaml) -> (r: Result<Work, StepError>)
        ensures
            match r {
                Ok(work) => run_spec(self@, config.task_registry(), config.root_bindings())
                    == Ok::<WorkView, StepErrorView>(work@),
                Err(e) => run_spec(self@, config.task_registry(), config.root_bindings())
                    == Err::<WorkView, StepErrorView>(e@),
            },
    {
        match self {
            Step::TaskRun { id, args } => {
                let tasks = match &config.tasks {
                    Some(tasks) => tasks,
                    None => {
                        return Err(StepError { kind: StepErrorKind::TaskNotFound(id.clone()) });
                    },
                };
                let task = match tasks.get(id.as_str()) {
                    Some(task) => task,
                    None => {
                        return Err(StepError { kind: StepErrorKind::TaskNotFound(id.clone()) });
                    },
                };
                if !task_takes(task, args) {
                    return Err(StepError { kind: StepErrorKind::ArgumentMismatch(id.clone()) });
                }
                let none = Vars::empty();
                let root = match &config.vars {
                    Some(vars) => vars,
                    None => &none,
                };
                let bound = match args {
                    Some(values) => {
                        let borrowed = borrow_each(values);
                        task.expand_args(Some(borrowed.as_slice()))
                    },
                    None => task.expand_args(None),
                };
                Ok(Work::Unfold(expand_all(&bound, root)))
            },
            _ => Ok(Work::Act(self.clone())),
        }
    }
}

/// Why a command was not begun.
#[derive(Debug, PartialEq)]
pub enum StartError {
    /// The task registry did not pass its check.
    Task(TaskError),
    /// A scenario was asked for that the configuration does not hold.
    Scenario(ScenarioError),
}

/// What comes before anything is run or printed: the task registry is checked
/// first, and only where it passes is it decided what the command comes to.
/// No browser session is needed before a job has come out of here.
pub fn start(config: &E2eYaml, cmd: &Cmd) -> (r: Result<Job, StartError>)
    ensures
        match r {
            Ok(job) => passes(config.task_registry()) && job_of(*cmd, config.scenarios@) == Ok::<
                JobView,
                ScenarioError,
            >(job@),
            Err(StartError::Task(e)) => config.task_registry() matches Some(reg) && check_registry(
                reg,
            ) == Err::<(), TaskErrorView>(e@),
            Err(StartError::Scenario(e)) => passes(config.task_registry()) && job_of(
                *cmd,
                config.scenarios@,
            ) == Err::<JobView, ScenarioError>(e),
        },
{
    match config.validate() {
        Ok(_) => {},
        Err(e) => {
            return Err(StartError::Task(e));
        },
    }
    match cmd.run(config) {
        Ok(job) => Ok(job),
        Err(e) => Err(StartError::Scenario(e)),
    }
}

/// Whether the task registry, where there is one, passes its check.
pub open spec fn passes(tasks: Option<Seq<(Seq<char>, TaskView)>>) -> bool {
    match tasks {
        Some(reg) => check_registry(reg) is Ok,
        None => true,
    }
}

/// How the browser session failed to carry a step out.
#[derive(Debug, PartialEq)]
pub enum Failure {
    /// The driver reported an error; this is its message.
    Driver(String),
    /// The directory for a screenshot could not be made; this is the message
    /// of the error.
    Io(String),
    /// The element was found and did not come to be displayed in time; this is
    /// what the driver said of it.
    Timeout(String),
}

/// A failure of the session as a mathematical value.
pub enum FailureView {
    Driver(Seq<char>),
    Io(Seq<char>),
    Timeout(Seq<char>),
}

impl View for Failure {
    type V = FailureView;

    open spec fn view(&self) -> FailureView {
        match *self {
            Failure::Driver(message) => FailureView::Driver(message@),
            Failure::Io(message) => FailureView::Io(message@),
            Failure::Timeout(message) => FailureView::Timeout(message@),
        }
    }
}

/// What the caller comes back with.
#[derive(Debug, PartialEq)]
pub enum Event {
    /// The last action was carried out. Where it read a value from the page
    /// this is the value, and `None` where the element has no such value.
    Done(Option<String>),
    /// The last action failed.
    Failed(Failure),
}

/// What the caller comes back with, as a mathematical value.
pub enum EventView {
    Done(Option<Seq<char>>),
    Failed(FailureView),
}

impl View for Event {
    type V = EventView;

    open spec fn view(&self) -> EventView {
        match *self {
            Event::Done(value) => EventView::Done(
                match value {
                    Some(text) => Some(text@),
                    None => None,
                },
            ),
            Event::Failed(failure) => EventView::Failed(failure@),
        }
    }
}

/// What the caller is to do next.
#[derive(Debug, PartialEq)]
pub enum Action {
    /// A scenario begins: this is its name, to be shown.
    Announce(String),
    /// The browser session is to carry this step out.
    Perform(Step),
    /// A task was entered; there is nothing to do but to ask again.
    Continue,
    /// A step failed: the error is to be shown. The rest of the scenario is
    /// not run.
    Report(StepError),
    /// Every scenario has had its turn: the session is to be closed.
    Quit,
}

/// What the caller is to do next, as a mathematical value.
pub enum ActionView {
    Announce(Seq<char>),
    Perform(StepView),
    Continue,
    Report(StepErrorView),
    Quit,
}

impl View for Action {
    type V = ActionView;

    open spec fn view(&self) -> ActionView {
        match *self {
            Action::Announce(name) => ActionView::Announce(name@),
            Action::Perform(step) => ActionView::Perform(step@),
            Action::Continue => ActionView::Continue,
            Action::Report(e) => ActionView::Report(e@),
            Action::Quit => ActionView::Quit,
        }
    }
}

/// The state of a run as a mathematical value.
pub struct RunnerView {
    /// The scenarios of the run, in order.
    pub scenarios: Seq<ScenarioView>,
    /// How many of them have begun.
    pub begun: int,
    /// The steps of the scenario under way that are still to run, the next one
    /// first.
    pub pending: Seq<StepView>,
    /// The step that the session was asked to carry out and has not answered
    /// for.
    pub current: Option<StepView>,
}

/// The error that a failure of the session is reported as. A timeout names the
/// selector that was waited for.
pub open spec fn failure_error(step: StepView, failure: FailureView) -> StepErrorView {
    match failure {
        FailureView::Driver(message) => StepErrorView::WebDriverError(message),
        FailureView::Io(message) => StepErrorView::DirectoryCreateFailed(message),
        FailureView::Timeout(message) => match step {
            StepView::WaitDisplayed { selector, .. } => StepErrorView::WebDriverError(
                "selector: "@ + selector + ", "@ + message,
            ),
            _ => StepErrorView::WebDriverError(message),
        },
    }
}

/// The value that was read: a value that the element lacks counts as empty.
pub open spec fn actual_value(value: Option<Seq<char>>) -> Seq<char> {
    match value {
        Some(text) => text,
        None => Seq::empty(),
    }
}

/// The error, if any, that the answer for the step under way amounts to: a
/// failure of the session, or a value that an assertion did not expect.
pub open spec fn settle(current: Option<StepView>, event: EventView) -> Option<StepErrorView> {
    match current {
        Some(step) => match event {
            EventView::Failed(failure) => Some(failure_error(step, failure)),
            EventView::Done(value) => match step {
                StepView::AssertEq { expected, .. } => if expected == actual_value(value) {
                    None
                } else {
                    Some(StepErrorView::AssertFailed(expected, actual_value(value)))
                },
                _ => None,
            },
        },
        None => None,
    }
}

/// The state in which the scenario under way is given up.
pub open spec fn abandoned(state: RunnerView) -> RunnerView {
    RunnerView { pending: Seq::empty(), current: None, ..state }
}

/// The next action when no step is under way: the next pending step is run;
/// with none pending the next scenario begins; with none left the run is over.
pub open spec fn advance(
    state: RunnerView,
    tasks: Option<Seq<(Seq<char>, TaskView)>>,
    vars: Map<Seq<char>, Seq<char>>,
) -> (RunnerView, ActionView) {
    if state.pending.len() > 0 {
        match run_spec(state.pending[0], tasks, vars) {
            Ok(WorkView::Act(step)) => (
                RunnerView { pending: state.pending.skip(1), current: Some(step), ..state },
                ActionView::Perform(step),
            ),
            Ok(WorkView::Unfold(steps)) => (
                RunnerView { pending: steps + state.pending.skip(1), current: None, ..state },
                ActionView::Continue,
            ),
            Err(e) => (abandoned(state), ActionView::Report(e)),
        }
    } else if 0 <= state.begun < state.scenarios.len() {
        (
            RunnerView {
                begun: state.begun + 1,
                pending: state.scenarios[state.begun].steps,
                current: None,
                ..state
            },
            ActionView::Announce(state.scenarios[state.begun].name),
        )
    } else {
        (RunnerView { current: None, ..state }, ActionView::Quit)
    }
}

/// One move of the engine: the answer for the step under way is settled, and
/// where it amounts to no error the run advances.
pub open spec fn transition(
    state: RunnerView,
    tasks: Option<Seq<(Seq<char>, TaskView)>>,
    vars: Map<Seq<char>, Seq<char>>,
    event: EventView,
) -> (RunnerView, ActionView) {
    match settle(state.current, event) {
        Some(e) => (abandoned(state), ActionView::Report(e)),
        None => advance(RunnerView { current: None, ..state }, tasks, vars),
    }
}

/// A stack of steps read from its top, the last element, down.
pub open spec fn pending_view(stack: Seq<Step>) -> Seq<StepView> {
    Seq::new(stack.len(), |i: int| stack[stack.len() - 1 - i]@)
}

/// Puts `steps` on the stack so that the first of them is on top.
fn push_steps(stack: &mut Vec<Step>, steps: &Vec<Step>)
    ensures
        pending_view(final(stack)@) == step_views(steps@) + pending_view(old(stack)@),
{
    let ghost below = pending_view(stack@);
    let mut j: usize = steps.len();
    assert(step_views(steps@).skip(j as int) + below =~= below);
    while j > 0
        invariant
            j <= steps@.len(),
            pending_view(stack@) == step_views(steps@).skip(j as int) + below,
        decreases j,
    {
        j -= 1;
        let ghost under = pending_view(stack@);
        stack.push(steps[j].clone());
        assert(pending_view(stack@) =~= seq![steps@[j as int]@] + under);
        assert(pending_view(stack@) =~= step_views(steps@).skip(j as int) + below);
    }
    assert(step_views(steps@).skip(0) =~= step_views(steps@));
}

/// The error that the answer for the step under way amounts to, if any.
fn settle_step(step: &Step, event: Event) -> (r: Option<StepError>)
    ensures
        match r {
            Some(e) => settle(Some(step@), event@) == Some(e@),
            None => settle(Some(step@), event@) is None,
        },
{
    match event {
        Event::Failed(failure) => {
            let kind = match failure {
                Failure::Driver(message) => StepErrorKind::WebDriverError(message),
                Failure::Io(message) => StepErrorKind::DirectoryCreateFailed(message),
                Failure::Timeout(message) => match step {
                    Step::WaitDisplayed { selector, timeout: _, interval: _ } => {
                        let mut text = String::from_str("selector: ");
                        text.append(selector.as_str());
                        text.append(", ");
                        text.append(message.as_str());
                        StepErrorKind::WebDriverError(text)
                    },
                    _ => StepErrorKind::WebDriverError(message),
                },
            };
            Some(StepError { kind })
        },
        Event::Done(value) => match step {
            Step::AssertEq { kind: _, expected, selector: _ } => {
                let actual = match value {
                    Some(text) => text,
                    None => String::new(),
                };
                if *expected == actual {
                    None
                } else {
                    Some(StepError { kind: StepErrorKind::AssertFailed(expected.clone(), actual) })
                }
            },
            _ => None,
        },
    }
}

/// A run of scenarios in one browser session.
pub struct Runner {
    scenarios: Vec<Scenario>,
    begun: usize,
    pending: Vec<Step>,
    current: Option<Step>,
}

impl View for Runner {
    type V = RunnerView;

    closed spec fn view(&self) -> RunnerView {
        RunnerView {
            scenarios: scenario_views(self.scenarios@),
            begun: self.begun as int,
            pending: pending_view(self.pending@),
            current: match self.current {
                Some(step) => Some(step@),
                None => None,
            },
        }
    }
}

impl Runner {
    /// A run of `scenarios` of which none has begun.
    pub fn new(scenarios: Vec<Scenario>) -> (r: Runner)
        ensures
            r@ == (RunnerView {
                scenarios: scenario_views(scenarios@),
                begun: 0,
                pending: Seq::empty(),
                current: None,
            }),
    {
        let r = Runner { scenarios, begun: 0, pending: Vec::new(), current: None };
        assert(pending_view(r.pending@) =~= Seq::empty());
        r
    }

    /// Takes what happened to the last action and says what to do next. The
    /// first call, and every call after an action that asks nothing of the
    /// browser session, comes with `Event::Done(None)`.
    pub fn next(&mut self, config: &E2eYaml, event: Event) -> (action: Action)
        ensures
            (final(self)@, action@) == transition(
                old(self)@,
                config.task_registry(),
                config.root_bindings(),
                event@,
            ),
    {
        let in_flight = self.current.take();
        match in_flight {
            Some(step) => {
                match settle_step(&step, event) {
                    Some(e) => {
                        self.pending = Vec::new();
                        assert(pending_view(self.pending@) =~= Seq::empty());
                        return Action::Report(e);
                    },
                    None => {},
                }
            },
            None => {},
        }
        let ghost waiting = pending_view(self.pending@);
        match self.pending.pop() {
            Some(step) => {
                assert(waiting[0] == step@);
                assert(waiting.skip(1) =~= pending_view(self.pending@));
                match step.run(config) {
                    Ok(Work::Act(primitive)) => {
                        self.current = Some(primitive.clone());
                        Action::Perform(primitive)
                    },
                    Ok(Work::Unfold(steps)) => {
                        push_steps(&mut self.pending, &steps);
                        Action::Continue
                    },
                    Err(e) => {
                        self.pending = Vec::new();
                        assert(pending_view(self.pending@) =~= Seq::empty());
                        Action::Report(e)
                    },
                }
            },
            None => {
                assert(waiting =~= Seq::empty());
                if self.begun < self.scenarios.len() {
                    let name = self.scenarios[self.begun].name.clone();
                    let ghost below = pending_view(self.pending@);
                    push_steps(&mut self.pending, &self.scenarios[self.begun].steps);
                    assert(pending_view(self.pending@) =~= step_views(
                        self.scenarios@[self.begun as int].steps@,
                    ));
                    self.begun += 1;
                    Action::Announce(name)
                } else {
                    Action::Quit
                }
            },
        }
    }
}

/// A failure of the session ends the scenario under way and nothing else:
/// the error is reported, the steps that waited are given up, and the move
/// after it begins the next scenario, or ends the run where none is left.
pub proof fn lemma_failure_ends_the_scenario_only(
    state: RunnerView,
    tasks: Option<Seq<(Seq<char>, TaskView)>>,
    vars: Map<Seq<char>, Seq<char>>,
    failure: FailureView,
    then: EventView,
)
    requires
        state.current is Some,
    ensures
        ({
            let (failed, report) = transition(state, tasks, vars, EventView::Failed(failure));
            let (next, action) = transition(failed, tasks, vars, then);
            &&& report == ActionView::Report(failure_error(state.current->0, failure))
            &&& failed == abandoned(state)
            &&& action == if 0 <= state.begun < state.scenarios.len() {
                ActionView::Announce(state.scenarios[state.begun].name)
            } else {
                ActionView::Quit
            }
        }),
{
}

/// The session is never asked to run a task: a step that runs a task is
/// unfolded or fails.
pub proof fn lemma_session_gets_no_task(
    state: RunnerView,
    tasks: Option<Seq<(Seq<char>, TaskView)>>,
    vars: Map<Seq<char>, Seq<char>>,
    event: EventView,
)
    ensures
        transition(state, tasks, vars, event).1 matches ActionView::Perform(step) ==> !(step is TaskRun),
{
}

/// Once the run is over it stays over: with no step under way, none waiting
/// and no scenario left, every move ends the run and changes nothing.
pub proof fn lemma_quit_is_final(
    state: RunnerView,
    tasks: Option<Seq<(Seq<char>, TaskView)>>,
    vars: Map<Seq<char>, Seq<char>>,
    event: EventView,
)
    requires
        state.current is None,
        state.pending.len() == 0,
        !(0 <= state.begun < state.scenarios.len()),
    ensures
        transition(state, tasks, vars, event) == (state, ActionView::Quit),
{
}

} // verus!
