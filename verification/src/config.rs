//! The root of a configuration: the settings of the browser driver, the
//! variables, the tasks and the scenarios.

use crate::dependency::{acyclic, closed};
use crate::scenario::{Scenario, ScenarioView, Scenarios};
use crate::step::{expand_all, expand_steps};
use crate::task::{TaskError, TaskErrorView, TaskView, Tasks, check_registry};
use crate::var::{no_bindings, Vars};
use vstd::prelude::*;
use vstd::string::StringExecFns;

verus! {

/// The rectangle of the browser window.
#[derive(Debug, PartialEq, Eq, Clone, Copy)]
pub struct Window {
    pub x: i64,
    pub y: i64,
    pub width: u32,
    pub height: u32,
}

/// Where the browser driver listens, and how the browser is to be opened.
#[derive(Debug)]
pub struct Driver {
    pub host: String,
    pub port: String,
    pub headless: bool,
    pub window: Window,
}

impl Driver {
    /// The address of the driver: `http://`, the host, a colon and the port.
    pub fn url(&self) -> (r: String)
        ensures
            r@ == "http://"@ + self.host@ + ":"@ + self.port@,
    {
        let mut r = String::from_str("http://");
        r.append(self.host.as_str());
        r.append(":");
        r.append(self.port.as_str());
        r
    }
}

/// A whole configuration.
#[derive(Debug)]
pub struct E2eYaml {
    pub driver: Driver,
    pub vars: Option<Vars>,
    pub tasks: Option<Tasks>,
    pub scenarios: Scenarios,
}

/// The scenarios with the steps of each expanded under `vars`.
pub open spec fn expand_scenarios(
    entries: Seq<(Seq<char>, ScenarioView)>,
    vars: Map<Seq<char>, Seq<char>>,
) -> Seq<(Seq<char>, ScenarioView)> {
    Seq::new(
        entries.len(),
        |i: int|
            (
                entries[i].0,
                ScenarioView { name: entries[i].1.name, steps: expand_steps(entries[i].1.steps, vars) },
            ),
    )
}

impl E2eYaml {
    /// The variables of the configuration as a mathematical value: a
    /// configuration without variables binds no name.
    pub open spec fn root_bindings(&self) -> Map<Seq<char>, Seq<char>> {
        match self.vars {
            Some(vars) => vars@,
            None => no_bindings(),
        }
    }

    /// The task registry as a mathematical value, if the configuration has
    /// one.
    pub open spec fn task_registry(&self) -> Option<Seq<(Seq<char>, TaskView)>> {
        match self.tasks {
            Some(tasks) => Some(tasks@),
            None => None,
        }
    }

    /// Expands the steps of every scenario under the variables of the
    /// configuration. Nothing else changes: the scenarios keep their ids, names
    /// and order.
    pub fn expand(self) -> (r: Self)
        ensures
            r.driver == self.driver,
            r.vars == self.vars,
            r.tasks == self.tasks,
            r.scenarios@ == expand_scenarios(self.scenarios@, self.root_bindings()),
    {
        let E2eYaml { driver, vars, tasks, scenarios } = self;
        let mut scenarios = scenarios;
        let none = Vars::empty();
        let root = match &vars {
            Some(v) => v,
            None => &none,
        };
        let ghost before = scenarios@;
        let n = scenarios.len();
        let mut i: usize = 0;
        while i < n
            invariant
                n == before.len(),
                i <= n,
                scenarios@.len() == n,
                forall|k: int| 0 <= k < i ==> scenarios@[k] == expand_scenarios(before, root@)[k],
                forall|k: int| i <= k < n ==> scenarios@[k] == before[k],
            decreases n - i,
        {
            let expanded = match scenarios.get_index(i) {
                Some(entry) => Some(
                    Scenario { name: entry.1.name.clone(), steps: expand_all(&entry.1.steps, root) },
                ),
                None => None,
            };
            match expanded {
                Some(scenario) => {
                    scenarios.set(i, scenario);
                },
                None => {},
            }
            i += 1;
        }
        assert(scenarios@ =~= expand_scenarios(before, root@));
        E2eYaml { driver, vars, tasks, scenarios }
    }

    /// The check that comes before anything runs: in the task registry, where
    /// there is one, every task that is run must be registered and no task may
    /// lead back to itself. The failure is that of
    /// [`Tasks::detect_circular_dependencies`].
    pub fn validate(&self) -> (r: Result<(), TaskError>)
        ensures
            r is Ok <==> (self.task_registry() matches Some(reg) ==> closed(reg) && acyclic(reg)),
            match r {
                Ok(_) => self.task_registry() matches Some(reg) ==> check_registry(reg) is Ok,
                Err(e) => self.task_registry() matches Some(reg) && check_registry(reg) == Err::<
                    (),
                    TaskErrorView,
                >(e@),
            },
    {
        match &self.tasks {
            Some(tasks) => tasks.detect_circular_dependencies(),
            None => Ok(()),
        }
    }
}

} // verus!
