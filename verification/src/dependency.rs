//! What the check of the task registry establishes, and what it reports.

use crate::registry::{has_key, position_of};
use crate::step::{bind_step, expand_step, expand_steps, StepView};
use crate::task::{
    bind_all, bound_steps, check_from, check_registry, dependencies, lemma_enter, lemma_path_bound,
    runs, walk, walk_each, walk_from, walk_ready, TaskErrorView, TaskView,
};
use vstd::prelude::*;

verus! {

/// Whether the task registered under `from` runs the task `to`.
pub open spec fn edge(reg: Seq<(Seq<char>, TaskView)>, from: Seq<char>, to: Seq<char>) -> bool {
    has_key(reg, from) && runs(reg, from).contains(to)
}

/// Whether each id of `path` but the last runs the id behind it.
pub open spec fn linked(reg: Seq<(Seq<char>, TaskView)>, path: Seq<Seq<char>>) -> bool {
    forall|k: int| 0 <= k < path.len() - 1 ==> edge(reg, #[trigger] path[k], path[k + 1])
}

/// Whether `path` is a chain of tasks, each running the one behind it.
pub open spec fn is_chain(reg: Seq<(Seq<char>, TaskView)>, path: Seq<Seq<char>>) -> bool {
    path.len() >= 1 && linked(reg, path)
}

/// Whether `path` leads from a task back to that task; a task that runs
/// itself makes the shortest such path.
pub open spec fn is_cycle(reg: Seq<(Seq<char>, TaskView)>, path: Seq<Seq<char>>) -> bool {
    path.len() >= 2 && is_chain(reg, path) && path[0] == path.last()
}

/// Whether every task that a registered task runs is registered.
pub open spec fn closed(reg: Seq<(Seq<char>, TaskView)>) -> bool {
    forall|from: Seq<char>, to: Seq<char>| #[trigger] edge(reg, from, to) ==> has_key(reg, to)
}

/// Whether no task leads back to itself.
pub open spec fn acyclic(reg: Seq<(Seq<char>, TaskView)>) -> bool {
    forall|path: Seq<Seq<char>>| !#[trigger] is_cycle(reg, path)
}

/// Whether `id` may be walked into from `path`: the path is a chain of
/// registered tasks, none of them twice, and its last task runs `id`.
pub open spec fn comes_to(reg: Seq<(Seq<char>, TaskView)>, path: Seq<Seq<char>>, id: Seq<char>) -> bool {
    &&& walk_ready(reg, path)
    &&& linked(reg, path)
    &&& path.len() > 0 ==> edge(reg, path.last(), id)
}

/// Whether each of `ids` may be walked into from the path, which holds a task.
pub open spec fn comes_to_each(
    reg: Seq<(Seq<char>, TaskView)>,
    path: Seq<Seq<char>>,
    ids: Seq<Seq<char>>,
) -> bool {
    &&& walk_ready(reg, path)
    &&& linked(reg, path)
    &&& path.len() > 0
    &&& forall|k: int| 0 <= k < ids.len() ==> edge(reg, path.last(), #[trigger] ids[k])
}

/// With a task entered, the path comes to each task that it runs.
proof fn lemma_entered(reg: Seq<(Seq<char>, TaskView)>, path: Seq<Seq<char>>, id: Seq<char>)
    requires
        comes_to(reg, path, id),
        has_key(reg, id),
        !path.contains(id),
    ensures
        comes_to_each(reg, path.push(id), runs(reg, id)),
{
    let next = path.push(id);
    lemma_enter(reg, path, id);
    assert forall|k: int| 0 <= k < next.len() - 1 implies edge(reg, #[trigger] next[k], next[k + 1]) by {
        if k < path.len() - 1 {
            assert(edge(reg, path[k], path[k + 1]));
        }
    }
    assert forall|k: int| 0 <= k < runs(reg, id).len() implies edge(
        reg,
        next.last(),
        #[trigger] runs(reg, id)[k],
    ) by {
        assert(runs(reg, id).contains(runs(reg, id)[k]));
    }
}

/// Where the walks into `ids` from position `i` on come to their ends, so does
/// the walk into each of them.
proof fn lemma_each_ok(
    reg: Seq<(Seq<char>, TaskView)>,
    ids: Seq<Seq<char>>,
    i: int,
    path: Seq<Seq<char>>,
    k: int,
)
    requires
        walk_ready(reg, path),
        0 <= i <= k < ids.len(),
        walk_each(reg, ids, i, path) is Ok,
    ensures
        walk(reg, ids[k], path) is Ok,
    decreases ids.len() - i,
{
    if i < k {
        lemma_each_ok(reg, ids, i + 1, path, k);
    }
}

/// Where the walk into a task comes to its end, so does the walk into each
/// task that it runs, with the task on the path.
proof fn lemma_step_ok(
    reg: Seq<(Seq<char>, TaskView)>,
    from: Seq<char>,
    to: Seq<char>,
    path: Seq<Seq<char>>,
)
    requires
        walk_ready(reg, path),
        walk(reg, from, path) is Ok,
        edge(reg, from, to),
    ensures
        walk_ready(reg, path.push(from)),
        walk(reg, to, path.push(from)) is Ok,
{
    lemma_enter(reg, path, from);
    let ids = runs(reg, from);
    let k = choose|k: int| 0 <= k < ids.len() && ids[k] == to;
    lemma_each_ok(reg, ids, 0, path.push(from), k);
}

/// Where the walk from the first task of a chain comes to its end, the walk
/// has gone down the chain: into each task of it, with those before it on the
/// path.
proof fn lemma_chain_ok(reg: Seq<(Seq<char>, TaskView)>, chain: Seq<Seq<char>>, k: int)
    requires
        is_chain(reg, chain),
        walk_from(reg, chain[0]) is Ok,
        0 <= k < chain.len(),
    ensures
        walk_ready(reg, chain.take(k)),
        walk(reg, chain[k], chain.take(k)) is Ok,
    decreases k,
{
    if k == 0 {
        assert(chain.take(0) =~= Seq::<Seq<char>>::empty());
    } else {
        lemma_chain_ok(reg, chain, k - 1);
        assert(edge(reg, chain[k - 1], chain[k - 1 + 1]));
        lemma_step_ok(reg, chain[k - 1], chain[k], chain.take(k - 1));
        assert(chain.take(k - 1).push(chain[k - 1]) =~= chain.take(k));
    }
}

/// Where the check passes, the walk from every entry comes to its end.
proof fn lemma_check_ok(reg: Seq<(Seq<char>, TaskView)>, i: int, r: int)
    requires
        0 <= i <= r < reg.len(),
        check_from(reg, i) is Ok,
    ensures
        walk_from(reg, reg[r].0) is Ok,
    decreases reg.len() - i,
{
    if i < r {
        lemma_check_ok(reg, i + 1, r);
    }
}

/// Where the walks from all entries come to their ends, the check passes.
proof fn lemma_check_all(reg: Seq<(Seq<char>, TaskView)>, i: int)
    requires
        0 <= i,
        forall|r: int| i <= r < reg.len() ==> walk_from(reg, (#[trigger] reg[r]).0) is Ok,
    ensures
        check_from(reg, i) is Ok,
    decreases reg.len() - i,
{
    if i < reg.len() {
        assert(walk_from(reg, reg[i].0) is Ok);
        lemma_check_all(reg, i + 1);
    }
}

/// A registry in which a task leads back to itself does not pass the check.
pub proof fn lemma_cycle_is_refused(reg: Seq<(Seq<char>, TaskView)>, cycle: Seq<Seq<char>>)
    requires
        is_cycle(reg, cycle),
    ensures
        check_registry(reg) is Err,
{
    if check_registry(reg) is Ok {
        assert(edge(reg, cycle[0], cycle[0int + 1]));
        let r = position_of(reg, cycle[0]);
        lemma_check_ok(reg, 0, r);
        let n = cycle.len() - 1;
        lemma_chain_ok(reg, cycle, n);
        assert(cycle.take(n)[0] == cycle[n]);
        assert(cycle.take(n).contains(cycle[n]));
        assert(false);
    }
}

/// A registry in which a task runs a task that is not registered does not
/// pass the check.
pub proof fn lemma_missing_task_is_refused(
    reg: Seq<(Seq<char>, TaskView)>,
    from: Seq<char>,
    to: Seq<char>,
)
    requires
        edge(reg, from, to),
        !has_key(reg, to),
    ensures
        check_registry(reg) is Err,
{
    if check_registry(reg) is Ok {
        let r = position_of(reg, from);
        lemma_check_ok(reg, 0, r);
        lemma_step_ok(reg, from, to, Seq::empty());
        assert(false);
    }
}

/// In a closed registry without a cycle the walk into a registered task comes
/// to its end, by whatever chain the task was come to.
proof fn lemma_walk_passes(reg: Seq<(Seq<char>, TaskView)>, id: Seq<char>, path: Seq<Seq<char>>)
    requires
        closed(reg),
        acyclic(reg),
        comes_to(reg, path, id),
        has_key(reg, id),
    ensures
        walk(reg, id, path) is Ok,
    decreases reg.len() - path.len(), 0int,
{
    if path.contains(id) {
        let j = choose|j: int| 0 <= j < path.len() && path[j] == id;
        let cycle = path.skip(j).push(id);
        assert forall|k: int| 0 <= k < cycle.len() - 1 implies edge(
            reg,
            #[trigger] cycle[k],
            cycle[k + 1],
        ) by {
            if k < cycle.len() - 2 {
                assert(edge(reg, path[j + k], path[j + k + 1]));
            } else {
                assert(cycle[k] == path.last());
            }
        }
        assert(is_cycle(reg, cycle));
        assert(false);
    } else {
        lemma_entered(reg, path, id);
        lemma_path_bound(reg, path.push(id));
        lemma_each_passes(reg, runs(reg, id), 0, path.push(id));
    }
}

/// In a closed registry without a cycle the walks into the tasks that the last
/// task of the path runs come to their ends.
proof fn lemma_each_passes(
    reg: Seq<(Seq<char>, TaskView)>,
    ids: Seq<Seq<char>>,
    i: int,
    path: Seq<Seq<char>>,
)
    requires
        closed(reg),
        acyclic(reg),
        comes_to_each(reg, path, ids),
        0 <= i,
    ensures
        walk_each(reg, ids, i, path) is Ok,
    decreases reg.len() - path.len(), 1 + ids.len() - i,
{
    if i < ids.len() {
        assert(edge(reg, path.last(), ids[i]));
        lemma_walk_passes(reg, ids[i], path);
        lemma_each_passes(reg, ids, i + 1, path);
    }
}

/// A registry passes the check exactly where every task that is run is
/// registered and no task leads back to itself. That two tasks run the same
/// task, or that one task runs a task twice, makes no cycle.
pub proof fn lemma_check_passes_exactly(reg: Seq<(Seq<char>, TaskView)>)
    ensures
        check_registry(reg) is Ok <==> closed(reg) && acyclic(reg),
{
    if check_registry(reg) is Ok {
        assert forall|from: Seq<char>, to: Seq<char>| #[trigger] edge(reg, from, to) implies has_key(
            reg,
            to,
        ) by {
            if !has_key(reg, to) {
                lemma_missing_task_is_refused(reg, from, to);
            }
        }
        assert forall|path: Seq<Seq<char>>| !#[trigger] is_cycle(reg, path) by {
            if is_cycle(reg, path) {
                lemma_cycle_is_refused(reg, path);
            }
        }
    }
    if closed(reg) && acyclic(reg) {
        assert forall|r: int| 0 <= r < reg.len() implies walk_from(reg, (#[trigger] reg[r]).0) is Ok by {
            assert(has_key(reg, reg[r].0));
            lemma_walk_passes(reg, reg[r].0, Seq::empty());
        }
        lemma_check_all(reg, 0);
    }
}

/// Whether a walk from `path` reports its failure well. A task that is not
/// found is not registered, and a task on or below the path runs it. A
/// circular path goes on from `path`; it is a chain of registered tasks, each
/// run by the one before it and none of them twice, and at its end stands the
/// one of them that its last task runs.
pub open spec fn well_reported(
    reg: Seq<(Seq<char>, TaskView)>,
    path: Seq<Seq<char>>,
    e: TaskErrorView,
) -> bool {
    match e {
        TaskErrorView::TaskNotFound(id) => !has_key(reg, id) && (path.len() > 0 ==> exists|
            from: Seq<char>,
        | #[trigger] edge(reg, from, id)),
        TaskErrorView::CircularDependenciesDetected(cycle) => {
            &&& cycle.len() >= 2
            &&& cycle.len() > path.len()
            &&& cycle.take(path.len() as int) == path
            &&& is_chain(reg, cycle)
            &&& walk_ready(reg, cycle.drop_last())
            &&& cycle.drop_last().contains(cycle.last())
        },
    }
}

/// The error of a walk that fails.
pub open spec fn failure(r: Result<(), TaskErrorView>) -> TaskErrorView {
    match r {
        Ok(_) => TaskErrorView::TaskNotFound(Seq::empty()),
        Err(e) => e,
    }
}

/// A circular path that goes on from a path with one more task goes on from
/// the path, with that task behind it.
proof fn lemma_goes_on(path: Seq<Seq<char>>, id: Seq<char>, cycle: Seq<Seq<char>>)
    requires
        cycle.len() > path.len() + 1,
        cycle.take(path.len() as int + 1) == path.push(id),
    ensures
        cycle.take(path.len() as int) == path,
        cycle[path.len() as int] == id,
{
    assert(cycle.take(path.len() as int + 1)[path.len() as int] == id);
    assert(cycle.take(path.len() as int) =~= path) by {
        assert forall|k: int| 0 <= k < path.len() implies cycle[k] == path[k] by {
            assert(cycle.take(path.len() as int + 1)[k] == path.push(id)[k]);
        }
    }
}

/// A walk into a task that fails reports its failure well, and a circular
/// path that it reports holds the task behind the path.
proof fn lemma_walk_err(reg: Seq<(Seq<char>, TaskView)>, id: Seq<char>, path: Seq<Seq<char>>)
    requires
        comes_to(reg, path, id),
        walk(reg, id, path) is Err,
    ensures
        well_reported(reg, path, failure(walk(reg, id, path))),
        failure(walk(reg, id, path)) matches TaskErrorView::CircularDependenciesDetected(cycle)
            ==> cycle[path.len() as int] == id,
    decreases reg.len() - path.len(), 0int,
{
    if !has_key(reg, id) {
        if path.len() > 0 {
            assert(edge(reg, path.last(), id));
        }
    } else if path.contains(id) {
        let cycle = path.push(id);
        assert(cycle.drop_last() =~= path);
        assert(cycle.take(path.len() as int) =~= path);
        assert forall|k: int| 0 <= k < cycle.len() - 1 implies edge(
            reg,
            #[trigger] cycle[k],
            cycle[k + 1],
        ) by {
            if k < path.len() - 1 {
                assert(edge(reg, path[k], path[k + 1]));
            }
        }
    } else {
        lemma_entered(reg, path, id);
        lemma_path_bound(reg, path.push(id));
        lemma_each_err(reg, runs(reg, id), 0, path.push(id));
        match failure(walk(reg, id, path)) {
            TaskErrorView::CircularDependenciesDetected(cycle) => {
                lemma_goes_on(path, id, cycle);
            },
            TaskErrorView::TaskNotFound(_) => {},
        }
    }
}

/// Walks into the tasks that the last task of the path runs report well the
/// first failure among them.
proof fn lemma_each_err(
    reg: Seq<(Seq<char>, TaskView)>,
    ids: Seq<Seq<char>>,
    i: int,
    path: Seq<Seq<char>>,
)
    requires
        comes_to_each(reg, path, ids),
        0 <= i,
        walk_each(reg, ids, i, path) is Err,
    ensures
        well_reported(reg, path, failure(walk_each(reg, ids, i, path))),
    decreases reg.len() - path.len(), 1 + ids.len() - i,
{
    assert(edge(reg, path.last(), ids[i]));
    if walk(reg, ids[i], path) is Err {
        lemma_walk_err(reg, ids[i], path);
    } else {
        lemma_each_err(reg, ids, i + 1, path);
    }
}

/// The first entry from `i` on from which the walk fails, or the end of the
/// registry.
pub open spec fn failing_root(reg: Seq<(Seq<char>, TaskView)>, i: int) -> int
    decreases reg.len() - i,
{
    if i < 0 || i >= reg.len() || walk_from(reg, reg[i].0) is Err {
        i
    } else {
        failing_root(reg, i + 1)
    }
}

/// What the check from entry `i` on reports where it fails.
proof fn lemma_check_err(reg: Seq<(Seq<char>, TaskView)>, i: int)
    requires
        0 <= i,
        check_from(reg, i) is Err,
    ensures
        i <= failing_root(reg, i) < reg.len(),
        check_from(reg, i) == walk_from(reg, reg[failing_root(reg, i)].0),
        match check_from(reg, i) {
            Ok(_) => false,
            Err(TaskErrorView::TaskNotFound(id)) => !has_key(reg, id) && exists|from: Seq<char>|
                #[trigger] edge(reg, from, id),
            Err(TaskErrorView::CircularDependenciesDetected(cycle)) => {
                &&& cycle.len() >= 2
                &&& cycle[0] == reg[failing_root(reg, i)].0
                &&& is_chain(reg, cycle)
                &&& cycle.drop_last().no_duplicates()
                &&& cycle.drop_last().contains(cycle.last())
            },
        },
    decreases reg.len() - i,
{
    let root = reg[i].0;
    if walk_from(reg, root) is Ok {
        lemma_check_err(reg, i + 1);
    } else {
        let none = Seq::<Seq<char>>::empty();
        assert(has_key(reg, root));
        assert(!none.contains(root));
        lemma_entered(reg, none, root);
        lemma_path_bound(reg, none.push(root));
        lemma_each_err(reg, runs(reg, root), 0, none.push(root));
        match failure(walk_from(reg, root)) {
            TaskErrorView::CircularDependenciesDetected(cycle) => {
                lemma_goes_on(none, root, cycle);
            },
            TaskErrorView::TaskNotFound(_) => {},
        }
    }
}

/// What the check reports where it refuses the registry: the failure of the
/// walk from the first entry from which the walk fails. A task that is not
/// found is not registered, and a registered task runs it. A circular path
/// starts at that entry, the root of the walk; each task of it runs the one
/// behind it; none stands in it twice but the last, which is the one that the
/// walk came back to.
pub proof fn lemma_refusal(reg: Seq<(Seq<char>, TaskView)>)
    requires
        check_registry(reg) is Err,
    ensures
        0 <= failing_root(reg, 0) < reg.len(),
        check_registry(reg) == walk_from(reg, reg[failing_root(reg, 0)].0),
        match check_registry(reg) {
            Ok(_) => false,
            Err(TaskErrorView::TaskNotFound(id)) => !has_key(reg, id) && exists|from: Seq<char>|
                #[trigger] edge(reg, from, id),
            Err(TaskErrorView::CircularDependenciesDetected(cycle)) => {
                &&& cycle.len() >= 2
                &&& cycle[0] == reg[failing_root(reg, 0)].0
                &&& is_chain(reg, cycle)
                &&& cycle.drop_last().no_duplicates()
                &&& cycle.drop_last().contains(cycle.last())
            },
        },
{
    lemma_check_err(reg, 0);
}

/// The check from entry `i` on is the check from entry `r` on where the walks
/// from the entries between them come to their ends.
proof fn lemma_check_reaches(reg: Seq<(Seq<char>, TaskView)>, i: int, r: int)
    requires
        0 <= i <= r <= reg.len(),
        forall|k: int| i <= k < r ==> walk_from(reg, (#[trigger] reg[k]).0) is Ok,
    ensures
        check_from(reg, i) == check_from(reg, r),
    decreases r - i,
{
    if i < r {
        assert(walk_from(reg, reg[i].0) is Ok);
        lemma_check_reaches(reg, i + 1, r);
    }
}

/// A task that runs itself first of all, in a registry that passes up to it,
/// is reported with its id twice.
pub proof fn lemma_self_cycle(reg: Seq<(Seq<char>, TaskView)>, i: int)
    requires
        0 <= i < reg.len(),
        forall|r: int| 0 <= r < i ==> walk_from(reg, (#[trigger] reg[r]).0) is Ok,
        runs(reg, reg[i].0).len() > 0,
        runs(reg, reg[i].0)[0] == reg[i].0,
    ensures
        check_registry(reg) == Err::<(), TaskErrorView>(
            TaskErrorView::CircularDependenciesDetected(seq![reg[i].0, reg[i].0]),
        ),
{
    let root = reg[i].0;
    let none = Seq::<Seq<char>>::empty();
    let ids = runs(reg, root);
    assert(has_key(reg, root));
    assert(!none.contains(root));
    lemma_enter(reg, none, root);
    lemma_path_bound(reg, none.push(root));
    assert(none.push(root).contains(root)) by {
        assert(none.push(root)[0] == root);
    }
    assert(none.push(root).push(root) =~= seq![root, root]);
    let reported = Err::<(), TaskErrorView>(
        TaskErrorView::CircularDependenciesDetected(seq![root, root]),
    );
    assert(walk(reg, ids[0], none.push(root)) == reported);
    assert(walk_each(reg, ids, 0, none.push(root)) == reported);
    assert(walk_from(reg, root) == reported);
    lemma_check_reaches(reg, 0, i);
}

/// In a registry that passes the check tasks are nested no deeper than the
/// registry has entries: a chain of registered tasks, each running the next,
/// is no longer than that.
pub proof fn lemma_nesting_is_bounded(reg: Seq<(Seq<char>, TaskView)>, path: Seq<Seq<char>>)
    requires
        check_registry(reg) is Ok,
        is_chain(reg, path),
        has_key(reg, path[0]),
    ensures
        path.len() <= reg.len(),
{
    let r = position_of(reg, path[0]);
    lemma_check_ok(reg, 0, r);
    let n = path.len() - 1;
    lemma_chain_ok(reg, path, n);
    lemma_enter(reg, path.take(n), path[n]);
    assert(path.take(n).push(path[n]) =~= path);
    lemma_path_bound(reg, path);
}

/// Whether two steps run the same task, or both run none.
pub open spec fn same_run(a: StepView, b: StepView) -> bool {
    match a {
        StepView::TaskRun { id, .. } => b matches StepView::TaskRun { id: other, .. } && other == id,
        _ => !(b is TaskRun),
    }
}

/// Binding parameters leaves a step running the task that it ran.
proof fn lemma_bind_all_keeps_run(step: StepView, names: Seq<Seq<char>>, values: Seq<Seq<char>>)
    ensures
        same_run(step, bind_all(step, names, values)),
    decreases names.len(),
{
    if names.len() == 0 || values.len() == 0 {
    } else {
        let bound = bind_step(step, names[0], values[0]);
        assert(same_run(step, bound));
        lemma_bind_all_keeps_run(bound, names.skip(1), values.skip(1));
    }
}

/// Steps that run the same tasks, position by position, have the same
/// dependencies.
proof fn lemma_same_runs(a: Seq<StepView>, b: Seq<StepView>)
    requires
        a.len() == b.len(),
        forall|k: int| 0 <= k < a.len() ==> same_run(#[trigger] a[k], b[k]),
    ensures
        dependencies(a) == dependencies(b),
    decreases a.len(),
{
    if a.len() > 0 {
        assert(same_run(a[a.len() - 1], b[a.len() - 1]));
        assert forall|k: int| 0 <= k < a.drop_last().len() implies same_run(
            #[trigger] a.drop_last()[k],
            b.drop_last()[k],
        ) by {
            assert(same_run(a[k], b[k]));
        }
        lemma_same_runs(a.drop_last(), b.drop_last());
    }
}

/// The steps that take the place of a step that runs a task run the tasks that
/// the task was checked with: neither the arguments nor the variables change
/// which tasks are run.
pub proof fn lemma_unfolding_keeps_dependencies(
    task: TaskView,
    values: Seq<Seq<char>>,
    vars: Map<Seq<char>, Seq<char>>,
)
    ensures
        dependencies(expand_steps(bound_steps(task, values), vars)) == dependencies(task.steps),
{
    let bound = bound_steps(task, values);
    let unfolded = expand_steps(bound, vars);
    assert forall|k: int| 0 <= k < task.steps.len() implies same_run(
        #[trigger] task.steps[k],
        unfolded[k],
    ) by {
        match task.arg_names {
            Some(names) => {
                lemma_bind_all_keeps_run(task.steps[k], names, values);
            },
            None => {},
        }
        assert(same_run(bound[k], expand_step(bound[k], vars)));
    }
    lemma_same_runs(task.steps, unfolded);
}

} // verus!
