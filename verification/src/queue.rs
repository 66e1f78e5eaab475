//! The order in which pending tasks wait.
//!
//! Tasks wait in strict order of priority, the highest first; tasks of one
//! priority wait in the order of their creation, and tasks created at the
//! same moment in the order of their arrival.

use crate::task::{Task, TaskView};
use vstd::prelude::*;

verus! {

/// The mathematical value of a list of tasks.
pub open spec fn task_views(tasks: Seq<Task>) -> Seq<TaskView> {
    tasks.map_values(|t: Task| t@)
}

/// Task `a` does not have to wait for task `b`: its priority is higher, or
/// the priorities are equal and it was not created later.
pub open spec fn goes_before(a: TaskView, b: TaskView) -> bool {
    a.priority.level() > b.priority.level() || (a.priority.level() == b.priority.level()
        && a.created_at <= b.created_at)
}

/// Every task of the queue goes before all that stand behind it.
pub open spec fn ordered(queue: Seq<TaskView>) -> bool {
    forall|i: int, j: int|
        0 <= i < j < queue.len() ==> goes_before(#[trigger] queue[i], #[trigger] queue[j])
}

/// Where a new task is put: behind the tasks at the head of the queue that go
/// before it.
pub open spec fn insertion_point(queue: Seq<TaskView>, task: TaskView) -> int
    decreases queue.len(),
{
    if queue.len() == 0 {
        0
    } else if goes_before(queue[0], task) {
        1 + insertion_point(queue.drop_first(), task)
    } else {
        0
    }
}

/// The queue with the task put in its place.
pub open spec fn enqueued(queue: Seq<TaskView>, task: TaskView) -> Seq<TaskView> {
    queue.insert(insertion_point(queue, task), task)
}

/// The tasks before the insertion point go before the new task; the task at
/// the insertion point does not.
pub proof fn lemma_insertion_point(queue: Seq<TaskView>, task: TaskView)
    ensures
        0 <= insertion_point(queue, task) <= queue.len(),
        forall|i: int|
            0 <= i < insertion_point(queue, task) ==> goes_before(#[trigger] queue[i], task),
        insertion_point(queue, task) < queue.len() ==> !goes_before(
            queue[insertion_point(queue, task)],
            task,
        ),
    decreases queue.len(),
{
    if queue.len() > 0 && goes_before(queue[0], task) {
        let rest = queue.drop_first();
        lemma_insertion_point(rest, task);
        assert forall|i: int| 0 <= i < insertion_point(queue, task) implies goes_before(
            #[trigger] queue[i],
            task,
        ) by {
            if i > 0 {
                assert(queue[i] == rest[i - 1]);
            }
        }
        if insertion_point(queue, task) < queue.len() {
            assert(queue[insertion_point(queue, task)] == rest[insertion_point(rest, task)]);
        }
    }
}

/// Putting a task in its place keeps the queue in order.
pub proof fn lemma_enqueued_ordered(queue: Seq<TaskView>, task: TaskView)
    requires
        ordered(queue),
    ensures
        ordered(enqueued(queue, task)),
{
    lemma_insertion_point(queue, task);
    let at = insertion_point(queue, task);
    let after = enqueued(queue, task);
    assert forall|i: int, j: int| 0 <= i < j < after.len() implies goes_before(
        #[trigger] after[i],
        #[trigger] after[j],
    ) by {
        if j < at {
            assert(after[i] == queue[i] && after[j] == queue[j]);
        } else if j == at {
            assert(after[i] == queue[i]);
        } else if i < at {
            assert(after[i] == queue[i] && after[j] == queue[j - 1]);
        } else if i == at {
            assert(after[j] == queue[j - 1]);
            assert(!goes_before(queue[at], task));
            if j - 1 > at {
                assert(goes_before(queue[at], queue[j - 1]));
            }
        } else {
            assert(after[i] == queue[i - 1] && after[j] == queue[j - 1]);
        }
    }
}

/// Taking a task out keeps the queue in order.
pub proof fn lemma_removal_ordered(queue: Seq<TaskView>, at: int)
    requires
        ordered(queue),
        0 <= at < queue.len(),
    ensures
        ordered(queue.remove(at)),
{
    let after = queue.remove(at);
    assert forall|i: int, j: int| 0 <= i < j < after.len() implies goes_before(
        #[trigger] after[i],
        #[trigger] after[j],
    ) by {
        let before_i = if i < at { i } else { i + 1 };
        let before_j = if j < at { j } else { j + 1 };
        assert(after[i] == queue[before_i] && after[j] == queue[before_j]);
    }
}

/// Whether task `a` does not have to wait for task `b`.
pub fn is_before(a: &Task, b: &Task) -> (before: bool)
    ensures
        before == goes_before(a@, b@),
{
    let rank_a = a.priority.rank();
    let rank_b = b.priority.rank();
    rank_a > rank_b || (rank_a == rank_b && a.created_at <= b.created_at)
}

/// Puts a task into the queue, in its place.
pub fn enqueue(queue: &mut Vec<Task>, task: Task)
    ensures
        task_views(final(queue)@) == enqueued(task_views(old(queue)@), task@),
{
    let ghost views = task_views(queue@);
    let mut at: usize = 0;
    assert(views.skip(0) =~= views);
    while at < queue.len() && is_before(&queue[at], &task)
        invariant
            at <= queue@.len(),
            queue@ == old(queue)@,
            views == task_views(queue@),
            insertion_point(views, task@) == at + insertion_point(views.skip(at as int), task@),
        decreases queue@.len() - at,
    {
        proof {
            let rest = views.skip(at as int);
            assert(rest[0] == views[at as int]);
            assert(rest.drop_first() =~= views.skip(at + 1));
        }
        at = at + 1;
    }
    proof {
        let rest = views.skip(at as int);
        if at < queue@.len() {
            assert(rest[0] == views[at as int]);
        }
    }
    queue.insert(at, task);
    assert(task_views(queue@) =~= views.insert(at as int, task@));
}

} // verus!
