//! The commands of the program, and what each of them comes to.

use crate::config::E2eYaml;
use crate::registry::{has_key, value_of, values_of};
use crate::scenario::{
    all_registered, scenario_views, selection, Scenario, ScenarioError, ScenarioErrorKind,
    ScenarioView,
};
use crate::text::texts;
use vstd::prelude::*;

verus! {

/// A section of the configuration.
#[derive(Debug, PartialEq, Eq, Clone, Copy)]
pub enum ConfigSection {
    Driver,
    Vars,
    Tasks,
    Scenarios,
}

/// The arguments of the command that runs scenarios.
#[derive(Debug, PartialEq)]
pub struct RunArgs {
    /// The ids of the scenarios to run, in order; without them all run.
    pub names: Option<Vec<String>>,
}

/// The arguments of the command that prints the configuration.
#[derive(Debug, PartialEq)]
pub struct ConfigArgs {
    /// The section to print; without it the whole configuration.
    pub key: Option<ConfigSection>,
}

/// A command of the program.
#[derive(Debug, PartialEq)]
pub enum Cmd {
    /// Runs scenarios.
    Run(RunArgs),
    /// Prints the configuration as it was read.
    Config(ConfigArgs),
}

/// What a command comes to, once the configuration is known.
#[derive(Debug, PartialEq)]
pub enum Job {
    /// These scenarios are to be run, in this order, in one browser session.
    Run(Vec<Scenario>),
    /// This section is to be printed, or all of the configuration.
    Print(Option<ConfigSection>),
}

/// A job as a mathematical value.
pub enum JobView {
    Run(Seq<ScenarioView>),
    Print(Option<ConfigSection>),
}

impl View for Job {
    type V = JobView;

    open spec fn view(&self) -> JobView {
        match *self {
            Job::Run(scenarios) => JobView::Run(scenario_views(scenarios@)),
            Job::Print(key) => JobView::Print(key),
        }
    }
}

/// What a command comes to under a registry of scenarios: the scenarios asked
/// for by id, in the order asked, and none at all where an id is unknown; every
/// scenario of the registry, in its order, where none is asked for by id.
pub open spec fn job_of(cmd: Cmd, entries: Seq<(Seq<char>, ScenarioView)>) -> Result<
    JobView,
    ScenarioError,
> {
    match cmd {
        Cmd::Run(args) => match args.names {
            Some(names) => if all_registered(entries, texts(names@)) {
                Ok(JobView::Run(selection(entries, texts(names@))))
            } else {
                Err(ScenarioError { kind: ScenarioErrorKind::NotFound })
            },
            None => Ok(JobView::Run(values_of(entries))),
        },
        Cmd::Config(args) => Ok(JobView::Print(args.key)),
    }
}

impl Cmd {
    /// Decides what the command comes to; nothing is run or printed here.
    pub fn run(&self, e2e_yaml: &E2eYaml) -> (r: Result<Job, ScenarioError>)
        ensures
            match r {
                Ok(job) => job_of(*self, e2e_yaml.scenarios@) == Ok::<JobView, ScenarioError>(
                    job@,
                ),
                Err(e) => job_of(*self, e2e_yaml.scenarios@) == Err::<JobView, ScenarioError>(e),
            },
    {
        match self {
            Cmd::Run(args) => {
                let mut selected: Vec<Scenario> = Vec::new();
                match &args.names {
                    Some(names) => {
                        let mut i: usize = 0;
                        while i < names.len()
                            invariant
                                *self == Cmd::Run(*args),
                                args.names == Some(*names),
                                i <= names@.len(),
                                selected@.len() == i,
                                forall|k: int|
                                    0 <= k < i ==> has_key(
                                        e2e_yaml.scenarios@,
                                        #[trigger] texts(names@)[k],
                                    ),
                                forall|k: int|
                                    0 <= k < i ==> value_of(
                                        e2e_yaml.scenarios@,
                                        texts(names@)[k],
                                    ) == Some((#[trigger] selected@[k])@),
                            decreases names@.len() - i,
                        {
                            match e2e_yaml.scenarios.get(names[i].as_str()) {
                                Some(scenario) => {
                                    selected.push(scenario.clone());
                                },
                                None => {
                                    assert(!has_key(
                                        e2e_yaml.scenarios@,
                                        texts(names@)[i as int],
                                    ));
                                    return Err(ScenarioError { kind: ScenarioErrorKind::NotFound });
                                },
                            }
                            i += 1;
                        }
                        assert(scenario_views(selected@) =~= selection(
                            e2e_yaml.scenarios@,
                            texts(names@),
                        ));
                    },
                    None => {
                        let n = e2e_yaml.scenarios.len();
                        let mut i: usize = 0;
                        while i < n
                            invariant
                                n == e2e_yaml.scenarios@.len(),
                                i <= n,
                                selected@.len() == i,
                                forall|k: int|
                                    0 <= k < i ==> (#[trigger] selected@[k])@
                                        == e2e_yaml.scenarios@[k].1,
                            decreases n - i,
                        {
                            match e2e_yaml.scenarios.get_index(i) {
                                Some(entry) => {
                                    selected.push(entry.1.clone());
                                },
                                None => {},
                            }
                            i += 1;
                        }
                        assert(scenario_views(selected@) =~= values_of(e2e_yaml.scenarios@));
                    },
                }
                Ok(Job::Run(selected))
            },
            Cmd::Config(args) => Ok(Job::Print(args.key)),
        }
    }
}

} // verus!
