//! The step model: the closed set of browser actions, and how placeholders in
//! their texts are replaced.

use crate::text::{opt_texts, texts};
use crate::var::{expand, expand_one, expand_one_spec, expand_spec, Vars};
use vstd::prelude::*;
use vstd::string::StringExecFns;

verus! {

/// Which value of an element an assertion reads.
#[derive(Debug, PartialEq, Eq, Clone, Copy)]
pub enum ValueKind {
    Text,
    Id,
    Class,
}

/// One atomic browser action or assertion.
#[derive(Debug, PartialEq)]
pub enum Step {
    Goto(String),
    Click(String),
    Focus(String),
    SendKeys { selector: String, value: String },
    ScreenShot(String),
    WaitDisplayed { selector: String, timeout: u64, interval: u64 },
    AcceptAlert,
    TaskRun { id: String, args: Option<Vec<String>> },
    AssertEq { kind: ValueKind, expected: String, selector: String },
}

/// A step as a mathematical value: its texts are sequences of characters.
pub enum StepView {
    Goto(Seq<char>),
    Click(Seq<char>),
    Focus(Seq<char>),
    SendKeys { selector: Seq<char>, value: Seq<char> },
    ScreenShot(Seq<char>),
    WaitDisplayed { selector: Seq<char>, timeout: u64, interval: u64 },
    AcceptAlert,
    TaskRun { id: Seq<char>, args: Option<Seq<Seq<char>>> },
    AssertEq { kind: ValueKind, expected: Seq<char>, selector: Seq<char> },
}

impl View for Step {
    type V = StepView;

    open spec fn view(&self) -> StepView {
        match *self {
            Step::Goto(url) => StepView::Goto(url@),
            Step::Click(selector) => StepView::Click(selector@),
            Step::Focus(selector) => StepView::Focus(selector@),
            Step::SendKeys { selector, value } => StepView::SendKeys {
                selector: selector@,
                value: value@,
            },
            Step::ScreenShot(path) => StepView::ScreenShot(path@),
            Step::WaitDisplayed { selector, timeout, interval } => StepView::WaitDisplayed {
                selector: selector@,
                timeout,
                interval,
            },
            Step::AcceptAlert => StepView::AcceptAlert,
            Step::TaskRun { id, args } => StepView::TaskRun { id: id@, args: opt_texts(args) },
            Step::AssertEq { kind, expected, selector } => StepView::AssertEq {
                kind,
                expected: expected@,
                selector: selector@,
            },
        }
    }
}

/// The views of a sequence of steps.
pub open spec fn step_views(steps: Seq<Step>) -> Seq<StepView> {
    Seq::new(steps.len(), |i: int| steps[i]@)
}

/// Each of `list` expanded under `vars`.
pub open spec fn expand_texts(list: Seq<Seq<char>>, vars: Map<Seq<char>, Seq<char>>) -> Seq<
    Seq<char>,
> {
    Seq::new(list.len(), |i: int| expand_spec(list[i], vars))
}

/// Each of `list` with the placeholders of `name` replaced by `value`.
pub open spec fn bind_texts(list: Seq<Seq<char>>, name: Seq<char>, value: Seq<char>) -> Seq<
    Seq<char>,
> {
    Seq::new(list.len(), |i: int| expand_one_spec(list[i], name, value))
}

/// The step with every text but a task's id expanded under `vars`. The id of a
/// task names an entry of the registry and is no template; numbers and the kind
/// of an assertion stay as they are.
pub open spec fn expand_step(step: StepView, vars: Map<Seq<char>, Seq<char>>) -> StepView {
    match step {
        StepView::Goto(url) => StepView::Goto(expand_spec(url, vars)),
        StepView::Click(selector) => StepView::Click(expand_spec(selector, vars)),
        StepView::Focus(selector) => StepView::Focus(expand_spec(selector, vars)),
        StepView::SendKeys { selector, value } => StepView::SendKeys {
            selector: expand_spec(selector, vars),
            value: expand_spec(value, vars),
        },
        StepView::ScreenShot(path) => StepView::ScreenShot(expand_spec(path, vars)),
        StepView::WaitDisplayed { selector, timeout, interval } => StepView::WaitDisplayed {
            selector: expand_spec(selector, vars),
            timeout,
            interval,
        },
        StepView::AcceptAlert => StepView::AcceptAlert,
        StepView::TaskRun { id, args } => StepView::TaskRun {
            id,
            args: match args {
                Some(list) => Some(expand_texts(list, vars)),
                None => None,
            },
        },
        StepView::AssertEq { kind, expected, selector } => StepView::AssertEq {
            kind,
            expected: expand_spec(expected, vars),
            selector: expand_spec(selector, vars),
        },
    }
}

/// The step with the placeholders of `name` replaced by `value` in every text
/// but a task's id.
pub open spec fn bind_step(step: StepView, name: Seq<char>, value: Seq<char>) -> StepView {
    match step {
        StepView::Goto(url) => StepView::Goto(expand_one_spec(url, name, value)),
        StepView::Click(selector) => StepView::Click(expand_one_spec(selector, name, value)),
        StepView::Focus(selector) => StepView::Focus(expand_one_spec(selector, name, value)),
        StepView::SendKeys { selector, value: keys } => StepView::SendKeys {
            selector: expand_one_spec(selector, name, value),
            value: expand_one_spec(keys, name, value),
        },
        StepView::ScreenShot(path) => StepView::ScreenShot(expand_one_spec(path, name, value)),
        StepView::WaitDisplayed { selector, timeout, interval } => StepView::WaitDisplayed {
            selector: expand_one_spec(selector, name, value),
            timeout,
            interval,
        },
        StepView::AcceptAlert => StepView::AcceptAlert,
        StepView::TaskRun { id, args } => StepView::TaskRun {
            id,
            args: match args {
                Some(list) => Some(bind_texts(list, name, value)),
                None => None,
            },
        },
        StepView::AssertEq { kind, expected, selector } => StepView::AssertEq {
            kind,
            expected: expand_one_spec(expected, name, value),
            selector: expand_one_spec(selector, name, value),
        },
    }
}

/// Each of `steps` expanded under `vars`.
pub open spec fn expand_steps(steps: Seq<StepView>, vars: Map<Seq<char>, Seq<char>>) -> Seq<
    StepView,
> {
    Seq::new(steps.len(), |i: int| expand_step(steps[i], vars))
}

/// Expands each of `list` under `vars`.
fn expand_each(list: &Vec<String>, vars: &Vars) -> (r: Vec<String>)
    ensures
        texts(r@) == expand_texts(texts(list@), vars@),
{
    let mut out: Vec<String> = Vec::new();
    let mut i: usize = 0;
    while i < list.len()
        invariant
            i <= list@.len(),
            out@.len() == i,
            forall|k: int| 0 <= k < i ==> out@[k]@ == expand_spec(list@[k]@, vars@),
        decreases list@.len() - i,
    {
        out.push(expand(list[i].as_str(), vars));
        i += 1;
    }
    assert(texts(out@) =~= expand_texts(texts(list@), vars@));
    out
}

/// Replaces the placeholders of `name` by `value` in each of `list`.
fn bind_each(list: &Vec<String>, name: &str, value: &str) -> (r: Vec<String>)
    ensures
        texts(r@) == bind_texts(texts(list@), name@, value@),
{
    let mut out: Vec<String> = Vec::new();
    let mut i: usize = 0;
    while i < list.len()
        invariant
            i <= list@.len(),
            out@.len() == i,
            forall|k: int| 0 <= k < i ==> out@[k]@ == expand_one_spec(list@[k]@, name@, value@),
        decreases list@.len() - i,
    {
        out.push(expand_one(list[i].as_str(), name, value));
        i += 1;
    }
    assert(texts(out@) =~= bind_texts(texts(list@), name@, value@));
    out
}

/// Copies a list of strings.
fn copy_each(list: &Vec<String>) -> (r: Vec<String>)
    ensures
        texts(r@) == texts(list@),
{
    let mut out: Vec<String> = Vec::new();
    let mut i: usize = 0;
    while i < list.len()
        invariant
            i <= list@.len(),
            out@.len() == i,
            forall|k: int| 0 <= k < i ==> out@[k]@ == list@[k]@,
        decreases list@.len() - i,
    {
        out.push(list[i].clone());
        i += 1;
    }
    assert(texts(out@) =~= texts(list@));
    out
}

impl Clone for Step {
    fn clone(&self) -> (r: Self)
        ensures
            r@ == self@,
    {
        match self {
            Step::Goto(url) => Step::Goto(url.clone()),
            Step::Click(selector) => Step::Click(selector.clone()),
            Step::Focus(selector) => Step::Focus(selector.clone()),
            Step::SendKeys { selector, value } => Step::SendKeys {
                selector: selector.clone(),
                value: value.clone(),
            },
            Step::ScreenShot(path) => Step::ScreenShot(path.clone()),
            Step::WaitDisplayed { selector, timeout, interval } => Step::WaitDisplayed {
                selector: selector.clone(),
                timeout: *timeout,
                interval: *interval,
            },
            Step::AcceptAlert => Step::AcceptAlert,
            Step::TaskRun { id, args } => Step::TaskRun {
                id: id.clone(),
                args: match args {
                    Some(list) => Some(copy_each(list)),
                    None => None,
                },
            },
            Step::AssertEq { kind, expected, selector } => Step::AssertEq {
                kind: *kind,
                expected: expected.clone(),
                selector: selector.clone(),
            },
        }
    }
}

impl Step {
    /// Replaces the placeholders of one name, whatever other placeholders the
    /// step holds: the binding of a task's parameter to its argument.
    pub fn expand_var(&self, name: &str, value: &str) -> (r: Self)
        ensures
            r@ == bind_step(self@, name@, value@),
    {
        match self {
            Step::Goto(url) => Step::Goto(expand_one(url.as_str(), name, value)),
            Step::Click(selector) => Step::Click(expand_one(selector.as_str(), name, value)),
            Step::Focus(selector) => Step::Focus(expand_one(selector.as_str(), name, value)),
            Step::SendKeys { selector, value: keys } => Step::SendKeys {
                selector: expand_one(selector.as_str(), name, value),
                value: expand_one(keys.as_str(), name, value),
            },
            Step::ScreenShot(path) => Step::ScreenShot(expand_one(path.as_str(), name, value)),
            Step::WaitDisplayed { selector, timeout, interval } => Step::WaitDisplayed {
                selector: expand_one(selector.as_str(), name, value),
                timeout: *timeout,
                interval: *interval,
            },
            Step::AcceptAlert => Step::AcceptAlert,
            Step::TaskRun { id, args } => Step::TaskRun {
                id: id.clone(),
                args: match args {
                    Some(list) => Some(bind_each(list, name, value)),
                    None => None,
                },
            },
            Step::AssertEq { kind, expected, selector } => Step::AssertEq {
                kind: *kind,
                expected: expand_one(expected.as_str(), name, value),
                selector: expand_one(selector.as_str(), name, value),
            },
        }
    }

    /// Expands every text of the step under `vars`.
    pub fn expand_vars(&self, vars: &Vars) -> (r: Self)
        ensures
            r@ == expand_step(self@, vars@),
    {
        match self {
            Step::Goto(url) => Step::Goto(expand(url.as_str(), vars)),
            Step::Click(selector) => Step::Click(expand(selector.as_str(), vars)),
            Step::Focus(selector) => Step::Focus(expand(selector.as_str(), vars)),
            Step::SendKeys { selector, value } => Step::SendKeys {
                selector: expand(selector.as_str(), vars),
                value: expand(value.as_str(), vars),
            },
            Step::ScreenShot(path) => Step::ScreenShot(expand(path.as_str(), vars)),
            Step::WaitDisplayed { selector, timeout, interval } => Step::WaitDisplayed {
                selector: expand(selector.as_str(), vars),
                timeout: *timeout,
                interval: *interval,
            },
            Step::AcceptAlert => Step::AcceptAlert,
            Step::TaskRun { id, args } => Step::TaskRun {
                id: id.clone(),
                args: match args {
                    Some(list) => Some(expand_each(list, vars)),
                    None => None,
                },
            },
            Step::AssertEq { kind, expected, selector } => Step::AssertEq {
                kind: *kind,
                expected: expand(expected.as_str(), vars),
                selector: expand(selector.as_str(), vars),
            },
        }
    }
}

/// Expands each of `steps` under `vars`.
pub fn expand_all(steps: &Vec<Step>, vars: &Vars) -> (r: Vec<Step>)
    ensures
        step_views(r@) == expand_steps(step_views(steps@), vars@),
{
    let mut out: Vec<Step> = Vec::new();
    let mut i: usize = 0;
    while i < steps.len()
        invariant
            i <= steps@.len(),
            out@.len() == i,
            forall|k: int| 0 <= k < i ==> (#[trigger] out@[k])@ == expand_step(steps@[k]@, vars@),
        decreases steps@.len() - i,
    {
        out.push(steps[i].expand_vars(vars));
        i += 1;
    }
    assert(step_views(out@) =~= expand_steps(step_views(steps@), vars@));
    out
}

/// Why a step failed.
#[derive(Debug, PartialEq)]
pub enum StepErrorKind {
    /// The browser driver reported an error; this is its message.
    WebDriverError(String),
    /// The directory for a screenshot could not be made; this is the message
    /// of the error.
    DirectoryCreateFailed(String),
    /// An assertion found another value than it expected: the expected value,
    /// then the actual one.
    AssertFailed(String, String),
    /// A task is run that the configuration does not hold.
    TaskNotFound(String),
    /// A task with parameters is run with another number of arguments than it
    /// has parameters.
    ArgumentMismatch(String),
}

/// The error of a step.
#[derive(Debug, PartialEq)]
pub struct StepError {
    pub kind: StepErrorKind,
}

/// The error of a step as a mathematical value.
pub enum StepErrorView {
    WebDriverError(Seq<char>),
    DirectoryCreateFailed(Seq<char>),
    AssertFailed(Seq<char>, Seq<char>),
    TaskNotFound(Seq<char>),
    ArgumentMismatch(Seq<char>),
}

impl View for StepError {
    type V = StepErrorView;

    open spec fn view(&self) -> StepErrorView {
        match self.kind {
            StepErrorKind::WebDriverError(message) => StepErrorView::WebDriverError(message@),
            StepErrorKind::DirectoryCreateFailed(message) => StepErrorView::DirectoryCreateFailed(
                message@,
            ),
            StepErrorKind::AssertFailed(expected, actual) => StepErrorView::AssertFailed(
                expected@,
                actual@,
            ),
            StepErrorKind::TaskNotFound(id) => StepErrorView::TaskNotFound(id@),
            StepErrorKind::ArgumentMismatch(id) => StepErrorView::ArgumentMismatch(id@),
        }
    }
}

/// The line that reports the error of a step.
pub open spec fn step_error_line(e: StepErrorView) -> Seq<char> {
    match e {
        StepErrorView::WebDriverError(message) => message + "\n"@,
        StepErrorView::DirectoryCreateFailed(message) => message + "\n"@,
        StepErrorView::AssertFailed(expected, actual) => "\tassert failed. expected '"@ + expected
            + "', actual '"@ + actual + "'\n"@,
        StepErrorView::TaskNotFound(id) => "task with id '"@ + id
            + "' not found in configuration\n"@,
        StepErrorView::ArgumentMismatch(id) => "task with id '"@ + id
            + "' was run with a wrong number of arguments\n"@,
    }
}

impl StepError {
    /// The line that reports the error, with its line end.
    pub fn message(&self) -> (r: String)
        ensures
            r@ == step_error_line(self@),
    {
        match &self.kind {
            StepErrorKind::WebDriverError(message) => {
                let mut r = message.clone();
                r.append("\n");
                r
            },
            StepErrorKind::DirectoryCreateFailed(message) => {
                let mut r = message.clone();
                r.append("\n");
                r
            },
            StepErrorKind::AssertFailed(expected, actual) => {
                let mut r = String::from_str("\tassert failed. expected '");
                r.append(expected.as_str());
                r.append("', actual '");
                r.append(actual.as_str());
                r.append("'\n");
                r
            },
            StepErrorKind::TaskNotFound(id) => {
                let mut r = String::from_str("task with id '");
                r.append(id.as_str());
                r.append("' not found in configuration\n");
                r
            },
            StepErrorKind::ArgumentMismatch(id) => {
                let mut r = String::from_str("task with id '");
                r.append(id.as_str());
                r.append("' was run with a wrong number of arguments\n");
                r
            },
        }
    }
}

} // verus!
