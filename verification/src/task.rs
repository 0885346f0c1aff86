//! The task registry: named, parameterised step sequences, and the check that
//! every task that is run is registered and that no task leads back to itself.

use crate::dependency::{
    acyclic, closed, failing_root, is_chain, lemma_check_passes_exactly, lemma_refusal,
};
use crate::registry::{has_key, keys_of, value_of};
use crate::step::{bind_step, step_views, Step, StepView};
use crate::text::{opt_texts, str_texts, texts};
use indexmap::{IndexMap, IndexSet};
use vstd::prelude::*;
use vstd::string::StringExecFns;

verus! {

/// A reusable sequence of steps, with the names of its parameters.
#[derive(Debug, PartialEq)]
pub struct Task {
    pub arg_names: Option<Vec<String>>,
    pub steps: Vec<Step>,
}

/// A task as a mathematical value.
pub struct TaskView {
    pub arg_names: Option<Seq<Seq<char>>>,
    pub steps: Seq<StepView>,
}

impl View for Task {
    type V = TaskView;

    open spec fn view(&self) -> TaskView {
        TaskView { arg_names: opt_texts(self.arg_names), steps: step_views(self.steps@) }
    }
}

/// The ids of the tasks that `steps` run, in step order; an id occurs as often
/// as it is run.
pub open spec fn dependencies(steps: Seq<StepView>) -> Seq<Seq<char>>
    decreases steps.len(),
{
    if steps.len() == 0 {
        Seq::empty()
    } else {
        match steps.last() {
            StepView::TaskRun { id, .. } => dependencies(steps.drop_last()).push(id),
            _ => dependencies(steps.drop_last()),
        }
    }
}

/// The step after each of `names` has been bound, in order, to the value at
/// its position.
pub open spec fn bind_all(step: StepView, names: Seq<Seq<char>>, values: Seq<Seq<char>>) -> StepView
    decreases names.len(),
{
    if names.len() == 0 || values.len() == 0 {
        step
    } else {
        bind_all(bind_step(step, names[0], values[0]), names.skip(1), values.skip(1))
    }
}

/// The steps of a task with its parameters bound to `values`; a task without
/// parameters gives its steps as they are.
pub open spec fn bound_steps(task: TaskView, values: Seq<Seq<char>>) -> Seq<StepView> {
    match task.arg_names {
        Some(names) => Seq::new(task.steps.len(), |i: int| bind_all(task.steps[i], names, values)),
        None => task.steps,
    }
}

impl Task {
    /// The ids of the tasks that it runs directly, in step order, or
    /// `None` where it runs none.
    pub fn list_dependencies(&self) -> (r: Option<Vec<&str>>)
        ensures
            match r {
                Some(ids) => ids@.len() > 0 && str_texts(ids@) == dependencies(self@.steps),
                None => dependencies(self@.steps).len() == 0,
            },
    {
        let mut deps: Vec<&str> = Vec::new();
        let mut i: usize = 0;
        while i < self.steps.len()
            invariant
                i <= self.steps@.len(),
                str_texts(deps@) == dependencies(self@.steps.take(i as int)),
            decreases self.steps@.len() - i,
        {
            let ghost before = str_texts(deps@);
            assert(self@.steps.take(i + 1).drop_last() =~= self@.steps.take(i as int));
            assert(self@.steps.take(i + 1).last() == self.steps@[i as int]@);
            match &self.steps[i] {
                Step::TaskRun { id, args: _ } => {
                    deps.push(id.as_str());
                    assert(str_texts(deps@) =~= before.push(id@));
                },
                _ => {},
            }
            i += 1;
        }
        assert(self@.steps.take(i as int) =~= self@.steps);
        if deps.len() == 0 {
            None
        } else {
            Some(deps)
        }
    }

    /// The steps of the task with each parameter bound to the argument at its
    /// position. A task with parameters takes as many arguments as it has
    /// parameters.
    pub fn expand_args(&self, args: Option<&[&str]>) -> (r: Vec<Step>)
        requires
            self.arg_names matches Some(names) ==> (args matches Some(values) && values@.len()
                == names@.len()),
        ensures
            step_views(r@) == bound_steps(
                self@,
                match args {
                    Some(values) => str_texts(values@),
                    None => Seq::empty(),
                },
            ),
    {
        let mut result: Vec<Step> = Vec::new();
        let mut i: usize = 0;
        while i < self.steps.len()
            invariant
                i <= self.steps@.len(),
                result@.len() == i,
                self.arg_names matches Some(names) ==> (args matches Some(values) && values@.len()
                    == names@.len()),
                forall|k: int|
                    0 <= k < i ==> (#[trigger] result@[k])@ == (match self@.arg_names {
                        Some(names) => bind_all(
                            self@.steps[k],
                            names,
                            match args {
                                Some(values) => str_texts(values@),
                                None => Seq::empty(),
                            },
                        ),
                        None => self@.steps[k],
                    }),
            decreases self.steps@.len() - i,
        {
            let mut bound = self.steps[i].clone();
            match (&self.arg_names, args) {
                (Some(names), Some(values)) => {
                    let ghost all_names = texts(names@);
                    let ghost all_values = str_texts(values@);
                    let mut j: usize = 0;
                    assert(all_names.skip(0) =~= all_names);
                    assert(all_values.skip(0) =~= all_values);
                    while j < names.len()
                        invariant
                            j <= names@.len(),
                            names@.len() == values@.len(),
                            all_names == texts(names@),
                            all_values == str_texts(values@),
                            bind_all(bound@, all_names.skip(j as int), all_values.skip(j as int))
                                == bind_all(self.steps@[i as int]@, all_names, all_values),
                        decreases names@.len() - j,
                    {
                        assert(all_names.skip(j as int)[0] == names@[j as int]@);
                        assert(all_values.skip(j as int)[0] == values@[j as int]@);
                        assert(all_names.skip(j as int).skip(1) =~= all_names.skip(j + 1));
                        assert(all_values.skip(j as int).skip(1) =~= all_values.skip(j + 1));
                        bound = bound.expand_var(names[j].as_str(), values[j]);
                        j += 1;
                    }
                },
                _ => {},
            }
            result.push(bound);
            i += 1;
        }
        assert(step_views(result@) =~= bound_steps(
            self@,
            match args {
                Some(values) => str_texts(values@),
                None => Seq::empty(),
            },
        ));
        result
    }
}

/// Why the task registry was refused.
#[derive(Debug, PartialEq)]
pub enum TaskErrorKind {
    /// The tasks from the root of the walk down to the one that runs a task
    /// of this path again, each run by the one before it, and that task once
    /// more at the end.
    CircularDependenciesDetected(Vec<String>),
    /// A task is run that the registry does not hold.
    TaskNotFound(String),
}

/// The error of the check of the task registry.
#[derive(Debug, PartialEq)]
pub struct TaskError {
    pub kind: TaskErrorKind,
}

/// The error of the check as a mathematical value.
pub enum TaskErrorView {
    CircularDependenciesDetected(Seq<Seq<char>>),
    TaskNotFound(Seq<char>),
}

impl View for TaskError {
    type V = TaskErrorView;

    open spec fn view(&self) -> TaskErrorView {
        match self.kind {
            TaskErrorKind::CircularDependenciesDetected(path) => {
                TaskErrorView::CircularDependenciesDetected(texts(path@))
            },
            TaskErrorKind::TaskNotFound(id) => TaskErrorView::TaskNotFound(id@),
        }
    }
}

/// `parts` in one line, with `sep` between each two of them.
pub open spec fn joined(parts: Seq<Seq<char>>, sep: Seq<char>) -> Seq<char>
    decreases parts.len(),
{
    if parts.len() == 0 {
        Seq::empty()
    } else if parts.len() == 1 {
        parts[0]
    } else {
        joined(parts.drop_last(), sep) + sep + parts.last()
    }
}

/// The line that reports the error of the check.
pub open spec fn task_error_line(e: TaskErrorView) -> Seq<char> {
    match e {
        TaskErrorView::CircularDependenciesDetected(path) => "circular dependencies detected. "@
            + joined(path, " -> "@) + "\n"@,
        TaskErrorView::TaskNotFound(id) => "task with id '"@ + id
            + "' not found  in configuration\n"@,
    }
}

impl TaskError {
    /// The line that reports the error, with its line end.
    pub fn message(&self) -> (r: String)
        ensures
            r@ == task_error_line(self@),
    {
        match &self.kind {
            TaskErrorKind::CircularDependenciesDetected(path) => {
                let mut r = String::from_str("circular dependencies detected. ");
                let ghost head = r@;
                let mut i: usize = 0;
                assert(texts(path@).take(0) =~= Seq::<Seq<char>>::empty());
                assert(r@ =~= head + joined(texts(path@).take(0), " -> "@));
                while i < path.len()
                    invariant
                        i <= path@.len(),
                        r@ == head + joined(texts(path@).take(i as int), " -> "@),
                    decreases path@.len() - i,
                {
                    let ghost sofar = joined(texts(path@).take(i as int), " -> "@);
                    assert(texts(path@).take(i + 1).drop_last() =~= texts(path@).take(i as int));
                    assert(texts(path@).take(i + 1).last() == path@[i as int]@);
                    if i > 0 {
                        r.append(" -> ");
                    } else {
                        assert(sofar =~= Seq::<char>::empty());
                    }
                    r.append(path[i].as_str());
                    assert(r@ =~= head + joined(texts(path@).take(i + 1), " -> "@));
                    i += 1;
                }
                assert(texts(path@).take(i as int) =~= texts(path@));
                r.append("\n");
                r
            },
            TaskErrorKind::TaskNotFound(id) => {
                let mut r = String::from_str("task with id '");
                r.append(id.as_str());
                r.append("' not found  in configuration\n");
                r
            },
        }
    }
}

/// The entries of the task registry: each id with its task, in the order in
/// which they were registered.
pub uninterp spec fn task_entries(m: IndexMap<String, Task>) -> Seq<(Seq<char>, TaskView)>;

/// The ids on the path of a walk, from its root down to the task that it is
/// in.
pub uninterp spec fn path_ids(s: IndexSet<String>) -> Seq<Seq<char>>;

/// The registry of tasks, by id.
#[derive(Debug)]
pub struct Tasks(pub IndexMap<String, Task>);

impl View for Tasks {
    type V = Seq<(Seq<char>, TaskView)>;

    open spec fn view(&self) -> Seq<(Seq<char>, TaskView)> {
        task_entries(self.0)
    }
}

/// [`IndexMap::len`] returns the number of entries.
#[verifier::external_body]
fn tasks_len(m: &IndexMap<String, Task>) -> (n: usize)
    ensures
        n == task_entries(*m).len(),
{
    m.len()
}

/// [`IndexMap::get_index`] returns the key and the value of the entry at
/// `index`, and `None` where `index` is not below the number of entries.
#[verifier::external_body]
fn tasks_get_index<'a>(m: &'a IndexMap<String, Task>, index: usize) -> (r: Option<
    (&'a String, &'a Task),
>)
    ensures
        r is Some <==> index < task_entries(*m).len(),
        r matches Some(entry) ==> entry.0@ == task_entries(*m)[index as int].0,
        r matches Some(entry) ==> entry.1@ == task_entries(*m)[index as int].1,
{
    m.get_index(index)
}

/// [`IndexMap::get`] returns the value of the entry whose key equals `key`,
/// and `None` where no entry has that key. No two entries of a map have the
/// same key, so every entry with that key holds the value returned.
#[verifier::external_body]
fn tasks_get<'a>(m: &'a IndexMap<String, Task>, key: &str) -> (r: Option<&'a Task>)
    ensures
        r is Some <==> has_key(task_entries(*m), key@),
        r matches Some(task) ==> forall|i: int|
            0 <= i < task_entries(*m).len() && (#[trigger] task_entries(*m)[i]).0 == key@
                ==> task_entries(*m)[i].1 == task@,
{
    m.get(key)
}

/// [`IndexSet::new`] creates a set that holds nothing.
#[verifier::external_body]
fn path_new() -> (created: IndexSet<String>)
    ensures
        path_ids(created).len() == 0,
{
    IndexSet::new()
}

/// [`IndexSet::insert`] puts a value that the set does not hold behind the
/// values that it holds and returns `true`; it leaves the set as it is and
/// returns `false` where the set holds the value already.
#[verifier::external_body]
fn path_insert(s: &mut IndexSet<String>, id: String) -> (fresh: bool)
    ensures
        fresh == !path_ids(*old(s)).contains(id@),
        fresh ==> path_ids(*final(s)) == path_ids(*old(s)).push(id@),
        !fresh ==> path_ids(*final(s)) == path_ids(*old(s)),
{
    s.insert(id)
}

/// [`IndexSet::pop`] takes the last value out of the set and returns it; the
/// values before it stay in their order. Of a set that holds nothing it
/// returns `None` and changes nothing.
#[verifier::external_body]
fn path_pop(s: &mut IndexSet<String>) -> (last: Option<String>)
    ensures
        last is Some <==> path_ids(*old(s)).len() > 0,
        last matches Some(id) ==> id@ == path_ids(*old(s)).last(),
        last is Some ==> path_ids(*final(s)) == path_ids(*old(s)).drop_last(),
        last is None ==> path_ids(*final(s)) == path_ids(*old(s)),
{
    s.pop()
}

/// [`IndexSet::iter`] hands out the values of the set in their order; each is
/// copied into the list.
#[verifier::external_body]
fn path_list(s: &IndexSet<String>) -> (list: Vec<String>)
    ensures
        texts(list@) == path_ids(*s),
{
    s.iter().cloned().collect()
}

/// What the path of a walk is made of: ids of the registry, none of them
/// twice.
pub open spec fn walk_ready(reg: Seq<(Seq<char>, TaskView)>, path: Seq<Seq<char>>) -> bool {
    path.no_duplicates() && forall|k: int| 0 <= k < path.len() ==> has_key(reg, #[trigger] path[k])
}

/// Ids of the registry, none of them twice, are no more than the registry has
/// entries.
pub proof fn lemma_path_bound(reg: Seq<(Seq<char>, TaskView)>, path: Seq<Seq<char>>)
    requires
        walk_ready(reg, path),
    ensures
        path.len() <= reg.len(),
{
    let keys = keys_of(reg);
    assert(path.to_set().subset_of(keys.to_set())) by {
        assert forall|id: Seq<char>| path.to_set().contains(id) implies keys.to_set().contains(
            id,
        ) by {
            let k = choose|k: int| 0 <= k < path.len() && path[k] == id;
            assert(has_key(reg, path[k]));
            let i = choose|i: int| 0 <= i < reg.len() && (#[trigger] reg[i]).0 == id;
            assert(keys[i] == id);
        }
    }
    path.unique_seq_to_set();
    keys.lemma_cardinality_of_set();
    vstd::seq_lib::seq_to_set_is_finite(keys);
    vstd::set_lib::lemma_len_subset(path.to_set(), keys.to_set());
}

/// A registered task that is not on the path may be entered: the path with it
/// is one of registered ids again, none of them twice.
pub proof fn lemma_enter(reg: Seq<(Seq<char>, TaskView)>, path: Seq<Seq<char>>, id: Seq<char>)
    requires
        walk_ready(reg, path),
        has_key(reg, id),
        !path.contains(id),
    ensures
        walk_ready(reg, path.push(id)),
{
    let next = path.push(id);
    assert forall|a: int, b: int| 0 <= a < next.len() && 0 <= b < next.len() && a != b implies next[a]
        != next[b] by {
        if a < path.len() && b < path.len() {
        } else if a < path.len() {
            assert(path.contains(path[a]));
        } else {
            assert(path.contains(path[b]));
        }
    }
}

/// The steps of the task registered under `id`.
pub open spec fn steps_of(reg: Seq<(Seq<char>, TaskView)>, id: Seq<char>) -> Seq<StepView> {
    match value_of(reg, id) {
        Some(task) => task.steps,
        None => Seq::empty(),
    }
}

/// The ids that the task registered under `id` runs, in step order.
pub open spec fn runs(reg: Seq<(Seq<char>, TaskView)>, id: Seq<char>) -> Seq<Seq<char>> {
    dependencies(steps_of(reg, id))
}

/// The walk into the task `id`, come to by the tasks of `path`, each run by
/// the one before it.
///
/// A task that the registry lacks ends the walk. So does a task that is on the
/// path already: the walk has come back to it, and the error holds the path
/// and that id once more. Else the task is entered, the tasks that it runs are
/// walked in step order with the task on the path, and the first of their
/// failures is the failure of the walk. When they are done the task leaves the
/// path: a task that is come to again by another way is walked again.
pub open spec fn walk(reg: Seq<(Seq<char>, TaskView)>, id: Seq<char>, path: Seq<Seq<char>>) -> Result<
    (),
    TaskErrorView,
>
    decreases reg.len() - path.len(), 0int,
    when walk_ready(reg, path)
{
    if !has_key(reg, id) {
        Err(TaskErrorView::TaskNotFound(id))
    } else if path.contains(id) {
        Err(TaskErrorView::CircularDependenciesDetected(path.push(id)))
    } else {
        proof {
            lemma_enter(reg, path, id);
            lemma_path_bound(reg, path.push(id));
        }
        walk_each(reg, runs(reg, id), 0, path.push(id))
    }
}

/// The walks into the tasks `ids` from position `i` on, one after the other,
/// all come to by `path`: the first that fails ends them.
pub open spec fn walk_each(
    reg: Seq<(Seq<char>, TaskView)>,
    ids: Seq<Seq<char>>,
    i: int,
    path: Seq<Seq<char>>,
) -> Result<(), TaskErrorView>
    decreases reg.len() - path.len(), 1 + ids.len() - i,
    when walk_ready(reg, path)
{
    if i < 0 || i >= ids.len() {
        Ok(())
    } else {
        match walk(reg, ids[i], path) {
            Ok(_) => walk_each(reg, ids, i + 1, path),
            Err(e) => Err(e),
        }
    }
}

/// The walk that starts at `root` with nothing on the path.
pub open spec fn walk_from(reg: Seq<(Seq<char>, TaskView)>, root: Seq<char>) -> Result<
    (),
    TaskErrorView,
> {
    walk(reg, root, Seq::empty())
}

/// The check of the registry from its entry `i` on: the first walk that
/// fails, taking each entry in turn as the root of a walk of its own.
pub open spec fn check_from(reg: Seq<(Seq<char>, TaskView)>, i: int) -> Result<(), TaskErrorView>
    decreases reg.len() - i,
{
    if i < 0 || i >= reg.len() {
        Ok(())
    } else {
        match walk_from(reg, reg[i].0) {
            Ok(_) => check_from(reg, i + 1),
            Err(e) => Err(e),
        }
    }
}

/// The check of the whole registry.
pub open spec fn check_registry(reg: Seq<(Seq<char>, TaskView)>) -> Result<(), TaskErrorView> {
    check_from(reg, 0)
}

impl Tasks {
    /// The task registered under `id`.
    pub fn get(&self, id: &str) -> (r: Option<&Task>)
        ensures
            match r {
                Some(task) => value_of(self@, id@) == Some(task@),
                None => value_of(self@, id@) is None,
            },
    {
        tasks_get(&self.0, id)
    }

    /// Walks into the task `id` and, with it on the path, into the tasks that
    /// it runs. Where the walk comes to its end the path is as it was.
    fn walk_task(&self, id: &str, path: &mut IndexSet<String>) -> (r: Result<(), TaskError>)
        requires
            walk_ready(self@, path_ids(*old(path))),
        ensures
            match r {
                Ok(_) => walk(self@, id@, path_ids(*old(path))) is Ok && path_ids(*final(path))
                    == path_ids(*old(path)),
                Err(e) => walk(self@, id@, path_ids(*old(path))) == Err::<(), TaskErrorView>(e@),
            },
        decreases self@.len() - path_ids(*old(path)).len(),
    {
        let ghost above = path_ids(*path);
        let task = match self.get(id) {
            Some(task) => task,
            None => {
                return Err(TaskError { kind: TaskErrorKind::TaskNotFound(String::from_str(id)) });
            },
        };
        if !path_insert(path, String::from_str(id)) {
            let mut list = path_list(path);
            list.push(String::from_str(id));
            assert(texts(list@) =~= above.push(id@));
            return Err(TaskError { kind: TaskErrorKind::CircularDependenciesDetected(list) });
        }
        proof {
            lemma_enter(self@, above, id@);
            lemma_path_bound(self@, above.push(id@));
        }
        assert(walk(self@, id@, above) == walk_each(self@, runs(self@, id@), 0, above.push(id@)));
        match task.list_dependencies() {
            Some(ids) => {
                let mut j: usize = 0;
                while j < ids.len()
                    invariant
                        j <= ids@.len(),
                        str_texts(ids@) == runs(self@, id@),
                        above == path_ids(*old(path)),
                        walk(self@, id@, above) == walk_each(
                            self@,
                            runs(self@, id@),
                            0,
                            above.push(id@),
                        ),
                        path_ids(*path) == above.push(id@),
                        walk_ready(self@, above.push(id@)),
                        above.len() < self@.len(),
                        walk_each(self@, runs(self@, id@), j as int, above.push(id@)) == walk_each(
                            self@,
                            runs(self@, id@),
                            0,
                            above.push(id@),
                        ),
                    decreases ids@.len() - j,
                {
                    match self.walk_task(ids[j], path) {
                        Ok(_) => {},
                        Err(e) => {
                            return Err(e);
                        },
                    }
                    j += 1;
                }
            },
            None => {},
        }
        path_pop(path);
        assert(path_ids(*path) =~= above);
        Ok(())
    }

    /// Checks the registry before anything runs. It passes exactly where every
    /// task that a task runs is registered and no task leads back to itself.
    /// Else the first failure in depth-first order is returned, the entries
    /// taken in order as roots and the tasks that a task runs in step order: a
    /// task that is run and not registered, or the chain of tasks from the
    /// root down that comes back to one of its tasks, with that task once more
    /// at its end.
    pub fn detect_circular_dependencies(&self) -> (r: Result<(), TaskError>)
        ensures
            r is Ok <==> closed(self@) && acyclic(self@),
            match r {
                Ok(_) => check_registry(self@) is Ok,
                Err(e) => check_registry(self@) == Err::<(), TaskErrorView>(e@),
            },
            r matches Err(e) ==> match e@ {
                TaskErrorView::TaskNotFound(id) => !has_key(self@, id),
                TaskErrorView::CircularDependenciesDetected(path) => {
                    &&& is_chain(self@, path)
                    &&& path[0] == self@[failing_root(self@, 0)].0
                    &&& path.drop_last().no_duplicates()
                    &&& path.drop_last().contains(path.last())
                },
            },
    {
        let r = self.check_entries();
        proof {
            lemma_check_passes_exactly(self@);
            if r is Err {
                lemma_refusal(self@);
            }
        }
        r
    }

    /// Walks from each entry of the registry in turn and returns the first
    /// failure.
    fn check_entries(&self) -> (r: Result<(), TaskError>)
        ensures
            match r {
                Ok(_) => check_registry(self@) is Ok,
                Err(e) => check_registry(self@) == Err::<(), TaskErrorView>(e@),
            },
    {
        let n = tasks_len(&self.0);
        let mut i: usize = 0;
        while i < n
            invariant
                n == self@.len(),
                i <= n,
                check_from(self@, i as int) == check_registry(self@),
            decreases n - i,
        {
            match tasks_get_index(&self.0, i) {
                Some(entry) => {
                    let mut path = path_new();
                    assert(path_ids(path) =~= Seq::empty());
                    match self.walk_task(entry.0.as_str(), &mut path) {
                        Ok(_) => {},
                        Err(e) => {
                            return Err(e);
                        },
                    }
                },
                None => {},
            }
            i += 1;
        }
        Ok(())
    }
}

} // verus!
