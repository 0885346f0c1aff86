//! The scenario registry: named step sequences, found by id in the order in
//! which the caller asks for them.

use crate::registry::{has_key, value_of};
use crate::step::{step_views, Step, StepView};
use crate::text::str_texts;
use indexmap::IndexMap;
use vstd::prelude::*;
use vstd::string::StringExecFns;

verus! {

/// Why a selection of scenarios failed.
#[derive(Debug, PartialEq, Eq, Clone, Copy)]
pub enum ScenarioErrorKind {
    /// An id was asked for that the registry does not hold.
    NotFound,
}

/// The error of a selection of scenarios.
#[derive(Debug, PartialEq, Eq, Clone, Copy)]
pub struct ScenarioError {
    pub kind: ScenarioErrorKind,
}

impl ScenarioError {
    /// The word that reports the error.
    pub fn message(&self) -> (r: String)
        ensures
            r@ == "NotFound"@,
    {
        match self.kind {
            ScenarioErrorKind::NotFound => String::from_str("NotFound"),
        }
    }
}

/// One test case: a display name and the steps to run.
#[derive(Debug, PartialEq)]
pub struct Scenario {
    pub name: String,
    pub steps: Vec<Step>,
}

/// A scenario as a mathematical value.
pub struct ScenarioView {
    pub name: Seq<char>,
    pub steps: Seq<StepView>,
}

impl View for Scenario {
    type V = ScenarioView;

    open spec fn view(&self) -> ScenarioView {
        ScenarioView { name: self.name@, steps: step_views(self.steps@) }
    }
}

impl Clone for Scenario {
    fn clone(&self) -> (r: Self)
        ensures
            r@ == self@,
    {
        let mut steps: Vec<Step> = Vec::new();
        let mut i: usize = 0;
        while i < self.steps.len()
            invariant
                i <= self.steps@.len(),
                steps@.len() == i,
                forall|k: int| 0 <= k < i ==> (#[trigger] steps@[k])@ == self.steps@[k]@,
            decreases self.steps@.len() - i,
        {
            steps.push(self.steps[i].clone());
            i += 1;
        }
        assert(step_views(steps@) =~= step_views(self.steps@));
        Scenario { name: self.name.clone(), steps }
    }
}

/// The entries of the scenario registry: each id with its scenario, in the
/// order in which they were registered.
pub uninterp spec fn scenario_entries(m: IndexMap<String, Scenario>) -> Seq<
    (Seq<char>, ScenarioView),
>;

/// The registry of scenarios, by id.
#[derive(Debug, PartialEq)]
pub struct Scenarios(pub IndexMap<String, Scenario>);

impl View for Scenarios {
    type V = Seq<(Seq<char>, ScenarioView)>;

    open spec fn view(&self) -> Seq<(Seq<char>, ScenarioView)> {
        scenario_entries(self.0)
    }
}

/// The entries with the scenario at `index` replaced; its id stays.
pub open spec fn with_scenario(
    entries: Seq<(Seq<char>, ScenarioView)>,
    index: int,
    scenario: ScenarioView,
) -> Seq<(Seq<char>, ScenarioView)> {
    entries.update(index, (entries[index].0, scenario))
}

/// [`IndexMap::len`] returns the number of entries.
#[verifier::external_body]
fn scenarios_len(m: &IndexMap<String, Scenario>) -> (n: usize)
    ensures
        n == scenario_entries(*m).len(),
{
    m.len()
}

/// [`IndexMap::get_index`] returns the key and the value of the entry at
/// `index`, and `None` where `index` is not below the number of entries.
#[verifier::external_body]
fn scenarios_get_index<'a>(m: &'a IndexMap<String, Scenario>, index: usize) -> (r: Option<
    (&'a String, &'a Scenario),
>)
    ensures
        r is Some <==> index < scenario_entries(*m).len(),
        r matches Some(entry) ==> entry.0@ == scenario_entries(*m)[index as int].0,
        r matches Some(entry) ==> entry.1@ == scenario_entries(*m)[index as int].1,
{
    m.get_index(index)
}

/// [`IndexMap::get`] returns the value of the entry whose key equals `key`,
/// and `None` where no entry has that key. No two entries of a map have the
/// same key, so every entry with that key holds the value returned.
#[verifier::external_body]
fn scenarios_get<'a>(m: &'a IndexMap<String, Scenario>, key: &str) -> (r: Option<&'a Scenario>)
    ensures
        r is Some <==> has_key(scenario_entries(*m), key@),
        r matches Some(scenario) ==> forall|i: int|
            0 <= i < scenario_entries(*m).len() && (#[trigger] scenario_entries(*m)[i]).0 == key@
                ==> scenario_entries(*m)[i].1 == scenario@,
{
    m.get(key)
}

/// Indexing an [`IndexMap`] by a position, as a place to assign to, reaches
/// the value of the entry at that position: the assignment replaces that value
/// and nothing else. It panics where the position is not below the number of
/// entries.
#[verifier::external_body]
fn scenarios_set(m: &mut IndexMap<String, Scenario>, index: usize, scenario: Scenario)
    requires
        index < scenario_entries(*old(m)).len(),
    ensures
        scenario_entries(*final(m)) == with_scenario(
            scenario_entries(*old(m)),
            index as int,
            scenario@,
        ),
{
    m[index] = scenario;
}

/// The scenarios registered under each of `ids`, where all of them are
/// registered.
pub open spec fn selection(entries: Seq<(Seq<char>, ScenarioView)>, ids: Seq<Seq<char>>) -> Seq<
    ScenarioView,
> {
    Seq::new(ids.len(), |i: int| value_of(entries, ids[i])->0)
}

/// Whether each of `ids` is registered.
pub open spec fn all_registered(entries: Seq<(Seq<char>, ScenarioView)>, ids: Seq<Seq<char>>) -> bool {
    forall|i: int| 0 <= i < ids.len() ==> has_key(entries, #[trigger] ids[i])
}

/// The views of scenarios.
pub open spec fn scenario_views(list: Seq<Scenario>) -> Seq<ScenarioView> {
    Seq::new(list.len(), |i: int| list[i]@)
}

/// The views of borrowed scenarios.
pub open spec fn borrowed_views(list: Seq<&Scenario>) -> Seq<ScenarioView> {
    Seq::new(list.len(), |i: int| list[i]@)
}

impl Scenarios {
    /// The number of scenarios.
    pub fn len(&self) -> (n: usize)
        ensures
            n == self@.len(),
    {
        scenarios_len(&self.0)
    }

    /// The id and the scenario at a position of the registry.
    pub fn get_index(&self, index: usize) -> (r: Option<(&String, &Scenario)>)
        ensures
            r is Some <==> index < self@.len(),
            r matches Some(entry) ==> entry.0@ == self@[index as int].0 && entry.1@
                == self@[index as int].1,
    {
        scenarios_get_index(&self.0, index)
    }

    /// The scenario registered under `id`.
    pub fn get(&self, id: &str) -> (r: Option<&Scenario>)
        ensures
            match r {
                Some(scenario) => value_of(self@, id@) == Some(scenario@),
                None => value_of(self@, id@) is None,
            },
    {
        scenarios_get(&self.0, id)
    }

    /// Replaces the scenario at a position of the registry; its id stays.
    pub(crate) fn set(&mut self, index: usize, scenario: Scenario)
        requires
            index < old(self)@.len(),
        ensures
            final(self)@ == with_scenario(old(self)@, index as int, scenario@),
    {
        scenarios_set(&mut self.0, index, scenario);
    }

    /// The scenarios registered under the ids of `id`, in the order of `id`.
    /// Where one of the ids is not registered nothing is selected.
    pub fn find(&self, id: &[&str]) -> (r: Result<Vec<&Scenario>, ScenarioError>)
        ensures
            match r {
                Ok(found) => all_registered(self@, str_texts(id@)) && borrowed_views(found@)
                    == selection(self@, str_texts(id@)),
                Err(e) => !all_registered(self@, str_texts(id@)) && e.kind
                    == ScenarioErrorKind::NotFound,
            },
    {
        let mut result: Vec<&Scenario> = Vec::new();
        let mut i: usize = 0;
        while i < id.len()
            invariant
                i <= id@.len(),
                result@.len() == i,
                forall|k: int| 0 <= k < i ==> has_key(self@, #[trigger] str_texts(id@)[k]),
                forall|k: int|
                    0 <= k < i ==> value_of(self@, str_texts(id@)[k]) == Some(
                        (#[trigger] result@[k])@,
                    ),
            decreases id@.len() - i,
        {
            match self.get(id[i]) {
                Some(scenario) => {
                    result.push(scenario);
                },
                None => {
                    assert(!has_key(self@, str_texts(id@)[i as int]));
                    return Err(ScenarioError { kind: ScenarioErrorKind::NotFound });
                },
            }
            i += 1;
        }
        assert(borrowed_views(result@) =~= selection(self@, str_texts(id@)));
        Ok(result)
    }
}

} // verus!
