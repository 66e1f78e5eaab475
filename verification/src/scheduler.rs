//! Matching tasks to workers.
//!
//! A worker is scored against a task on three counts: how much of what the
//! task requires the worker can do (60 percent), whether the worker is of the
//! type the task prefers (30 percent), and whether the worker is fast enough
//! for the task (10 percent). Among the workers that may take the task at all,
//! the one with the highest score gets it; ties go to the worker with the
//! lower load, then to the one with the lower identifier.

use crate::registry::{WorkerRecord, WorkerRecordView};
use crate::task::{text_views, Task, TaskType, TaskTypeView, TaskView};
use crate::worker::task_type_views;
use vstd::prelude::*;

verus! {

/// The names of the capabilities of a worker.
pub open spec fn capability_names(worker: WorkerRecordView) -> Set<Seq<char>> {
    Set::new(
        |name: Seq<char>|
            exists|k: int|
                0 <= k < worker.capabilities.len() && (#[trigger] worker.capabilities[k]).name
                    == name,
    )
}

/// The names of the capabilities that a task requires.
pub open spec fn required_names(task: TaskView) -> Set<Seq<char>> {
    task.requirements.required_capabilities.to_set()
}

/// The worker has every capability that the task requires.
pub open spec fn covers(worker: WorkerRecordView, task: TaskView) -> bool {
    required_names(task).subset_of(capability_names(worker))
}

/// One of the worker's capabilities lists the given kind of task.
pub open spec fn supports(worker: WorkerRecordView, kind: TaskTypeView) -> bool {
    exists|k: int, j: int|
        0 <= k < worker.capabilities.len() && 0 <= j
            < worker.capabilities[k].supported_task_types.len()
            && #[trigger] worker.capabilities[k].supported_task_types[j] == kind
}

/// The worker could run the task if it were free to: it has what the task
/// requires and supports the task's kind.
pub open spec fn compatible(worker: WorkerRecordView, task: TaskView) -> bool {
    covers(worker, task) && supports(worker, task.task_type)
}

/// The worker may be given the task now: it is compatible with the task, is
/// in service, and has capacity left.
pub open spec fn eligible(worker: WorkerRecordView, task: TaskView) -> bool {
    compatible(worker, task) && worker.status.in_service() && worker.has_capacity()
}

/// The worker is of the type that the task prefers.
pub open spec fn preferred(worker: WorkerRecordView, task: TaskView) -> bool {
    task.requirements.preferred_worker_type == Some(worker.worker_type)
}

/// The worker's average processing time is within what the task allows; a
/// task that sets no limit allows any.
pub open spec fn fast_enough(worker: WorkerRecordView, task: TaskView) -> bool {
    match task.requirements.max_processing_time_ms {
        Some(limit) => worker.performance_profile.avg_processing_time_ms <= limit,
        None => true,
    }
}

/// The denominator of every score for the task: one hundred times the number
/// of capabilities that the task requires, or one hundred if it requires none.
pub open spec fn score_denominator(task: TaskView) -> nat {
    if required_names(task).len() == 0 {
        100
    } else {
        100 * required_names(task).len()
    }
}

/// The numerator of the worker's score for the task. With `r` capabilities
/// required, of which the worker has `c`, the score is
/// `0.60 * c / r + 0.30 * [preferred] + 0.10 * [fast enough]`, the first term
/// being `0.60` where `r` is zero. Over the denominator `100 * r` that is
/// `60 * c + 30 * r * [preferred] + 10 * r * [fast enough]`.
pub open spec fn score_numerator(worker: WorkerRecordView, task: TaskView) -> nat {
    let required = required_names(task).len();
    let covered = required_names(task).intersect(capability_names(worker)).len();
    let scale = if required == 0 {
        1
    } else {
        required
    };
    let coverage = if required == 0 {
        60
    } else {
        60 * covered
    };
    let preference = if preferred(worker, task) {
        30 * scale
    } else {
        0
    };
    let speed = if fast_enough(worker, task) {
        10 * scale
    } else {
        0
    };
    coverage + preference + speed
}

/// The score of a worker for a task, as the exact fraction
/// `numerator / denominator`, a number between 0 and 1.
#[derive(Debug, Clone, Copy, PartialEq, Eq, Structural)]
pub struct Score {
    pub numerator: u128,
    pub denominator: u128,
}

/// Worker `a` is to be chosen over worker `b` for the task: its score is
/// higher, or the scores are equal and its load is lower, or those are equal
/// too and its identifier is lower. Identifiers compare as numbers, which is
/// the order of their canonical texts in the dictionary
/// ([`crate::ident::lemma_id_order_is_text_order`]).
pub open spec fn outranks(a: WorkerRecordView, b: WorkerRecordView, task: TaskView) -> bool {
    let score_a = score_numerator(a, task);
    let score_b = score_numerator(b, task);
    score_a > score_b || (score_a == score_b && (a.current_load < b.current_load || (
    a.current_load == b.current_load && a.id < b.id)))
}

/// The position of the worker to be chosen among the first `n` workers, if
/// any of them is eligible.
pub open spec fn best_among(workers: Seq<WorkerRecordView>, task: TaskView, n: int) -> Option<int>
    decreases n,
{
    if n <= 0 {
        None
    } else {
        let earlier = best_among(workers, task, n - 1);
        if !eligible(workers[n - 1], task) {
            earlier
        } else {
            match earlier {
                Some(best) if !outranks(workers[n - 1], workers[best], task) => earlier,
                _ => Some(n - 1),
            }
        }
    }
}

/// The position of the worker that is given the task, if any worker is
/// eligible.
pub open spec fn best_worker(workers: Seq<WorkerRecordView>, task: TaskView) -> Option<int> {
    best_among(workers, task, workers.len() as int)
}

/// The chosen worker is eligible and no eligible worker outranks it; no
/// worker is chosen only if none is eligible.
pub proof fn lemma_best_among(workers: Seq<WorkerRecordView>, task: TaskView, n: int)
    requires
        0 <= n <= workers.len(),
    ensures
        match best_among(workers, task, n) {
            Some(best) => {
                &&& 0 <= best < n
                &&& eligible(workers[best], task)
                &&& forall|j: int|
                    0 <= j < n && eligible(#[trigger] workers[j], task) ==> !outranks(
                        workers[j],
                        workers[best],
                        task,
                    )
            },
            None => forall|j: int| 0 <= j < n ==> !eligible(#[trigger] workers[j], task),
        },
    decreases n,
{
    if n > 0 {
        lemma_best_among(workers, task, n - 1);
    }
}

/// The sets of the names among the first `n + 1` required capabilities grow
/// by the name at position `n`.
proof fn lemma_prefix_names(names: Seq<Seq<char>>, n: int, have: Set<Seq<char>>)
    requires
        0 <= n < names.len(),
    ensures
        names.subrange(0, n + 1).to_set() == names.subrange(0, n).to_set().insert(names[n]),
        names.subrange(0, n).to_set().finite(),
        names.subrange(0, n).to_set().intersect(have).finite(),
        names.subrange(0, n + 1).to_set().intersect(have) == if have.contains(names[n]) {
            names.subrange(0, n).to_set().intersect(have).insert(names[n])
        } else {
            names.subrange(0, n).to_set().intersect(have)
        },
{
    let shorter = names.subrange(0, n);
    let longer = names.subrange(0, n + 1);
    vstd::seq_lib::seq_to_set_is_finite(shorter);
    assert forall|x: Seq<char>| longer.to_set().contains(x) == shorter.to_set().insert(
        names[n],
    ).contains(x) by {
        if longer.contains(x) {
            let i = choose|i: int| 0 <= i < longer.len() && longer[i] == x;
            if i < n {
                assert(shorter[i] == x);
            }
        }
        if shorter.contains(x) {
            let i = choose|i: int| 0 <= i < shorter.len() && shorter[i] == x;
            assert(longer[i] == x);
        }
        if x == names[n] {
            assert(longer[n] == x);
        }
    }
    assert(longer.to_set() =~= shorter.to_set().insert(names[n]));
    if have.contains(names[n]) {
        assert(longer.to_set().intersect(have) =~= shorter.to_set().intersect(have).insert(
            names[n],
        ));
    } else {
        assert(longer.to_set().intersect(have) =~= shorter.to_set().intersect(have));
    }
}

/// Whether the worker has a capability of the given name.
pub fn has_capability(worker: &WorkerRecord, name: &String) -> (found: bool)
    ensures
        found == capability_names(worker@).contains(name@),
{
    let mut k: usize = 0;
    while k < worker.capabilities.len()
        invariant
            k <= worker.capabilities@.len(),
            forall|i: int| 0 <= i < k ==> (#[trigger] worker@.capabilities[i]).name != name@,
        decreases worker.capabilities@.len() - k,
    {
        if worker.capabilities[k].name == *name {
            assert(worker@.capabilities[k as int].name == name@);
            return true;
        }
        k = k + 1;
    }
    false
}

/// Whether one of the worker's capabilities lists the given kind of task.
pub fn supports_kind(worker: &WorkerRecord, kind: &TaskType) -> (found: bool)
    ensures
        found == supports(worker@, kind@),
{
    let mut k: usize = 0;
    while k < worker.capabilities.len()
        invariant
            k <= worker.capabilities@.len(),
            forall|i: int, j: int|
                0 <= i < k && 0 <= j < worker@.capabilities[i].supported_task_types.len()
                    ==> #[trigger] worker@.capabilities[i].supported_task_types[j] != kind@,
        decreases worker.capabilities@.len() - k,
    {
        let kinds = &worker.capabilities[k].supported_task_types;
        assert(worker@.capabilities[k as int].supported_task_types == task_type_views(kinds@));
        let mut j: usize = 0;
        while j < kinds.len()
            invariant
                j <= kinds@.len(),
                k < worker.capabilities@.len(),
                worker@.capabilities[k as int].supported_task_types == task_type_views(kinds@),
                forall|i: int| 0 <= i < j ==> (#[trigger] kinds@[i])@ != kind@,
            decreases kinds@.len() - j,
        {
            if kinds[j].same_as(kind) {
                assert(worker@.capabilities[k as int].supported_task_types[j as int] == kind@);
                return true;
            }
            j = j + 1;
        }
        assert forall|j: int|
            0 <= j < worker@.capabilities[k as int].supported_task_types.len() implies (
        #[trigger] worker@.capabilities[k as int].supported_task_types[j]) != kind@ by {
            assert(kinds@[j]@ != kind@);
        }
        k = k + 1;
    }
    false
}

/// Whether the worker has every capability that the task requires.
pub fn covers_requirements(worker: &WorkerRecord, task: &Task) -> (all: bool)
    ensures
        all == covers(worker@, task@),
{
    let required = &task.requirements.required_capabilities;
    let ghost names = text_views(required@);
    let mut i: usize = 0;
    while i < required.len()
        invariant
            i <= required@.len(),
            names == text_views(required@),
            names == task@.requirements.required_capabilities,
            forall|j: int| 0 <= j < i ==> capability_names(worker@).contains(#[trigger] names[j]),
        decreases required@.len() - i,
    {
        if !has_capability(worker, &required[i]) {
            assert(names[i as int] == required@[i as int]@);
            assert(names.contains(names[i as int]));
            return false;
        }
        assert(names[i as int] == required@[i as int]@);
        i = i + 1;
    }
    assert forall|x: Seq<char>| required_names(task@).contains(x) implies capability_names(
        worker@,
    ).contains(x) by {
        let j = choose|j: int| 0 <= j < names.len() && names[j] == x;
        assert(capability_names(worker@).contains(names[j]));
    }
    true
}

/// Whether the worker may be given the task now.
pub fn is_eligible(worker: &WorkerRecord, task: &Task) -> (b: bool)
    ensures
        b == eligible(worker@, task@),
{
    worker.has_capacity() && worker.status.is_in_service() && supports_kind(
        worker,
        &task.task_type,
    ) && covers_requirements(worker, task)
}

/// How many distinct capabilities the task requires, and how many of those
/// the worker has.
pub fn coverage(worker: &WorkerRecord, task: &Task) -> (counts: (usize, usize))
    ensures
        counts.0 == required_names(task@).intersect(capability_names(worker@)).len(),
        counts.1 == required_names(task@).len(),
        counts.0 <= counts.1,
{
    let required = &task.requirements.required_capabilities;
    let ghost names = text_views(required@);
    let ghost have = capability_names(worker@);
    let mut covered: usize = 0;
    let mut total: usize = 0;
    let mut i: usize = 0;
    assert(names.subrange(0, 0).to_set() =~= Set::<Seq<char>>::empty());
    assert(names.subrange(0, 0).to_set().intersect(have) =~= Set::<Seq<char>>::empty());
    while i < required.len()
        invariant
            i <= required@.len(),
            names == text_views(required@),
            have == capability_names(worker@),
            total == names.subrange(0, i as int).to_set().len(),
            covered == names.subrange(0, i as int).to_set().intersect(have).len(),
            covered <= total <= i,
        decreases required@.len() - i,
    {
        let mut seen = false;
        let mut j: usize = 0;
        while j < i && !seen
            invariant
                j <= i < required@.len(),
                names == text_views(required@),
                seen ==> names.subrange(0, i as int).contains(names[i as int]),
                !seen ==> forall|k: int| 0 <= k < j ==> names[k] != names[i as int],
            decreases i - j + if seen { 0int } else { 1int },
        {
            if required[j] == required[i] {
                assert(names.subrange(0, i as int)[j as int] == names[i as int]);
                seen = true;
            } else {
                j = j + 1;
            }
        }
        proof {
            lemma_prefix_names(names, i as int, have);
            if !seen {
                assert forall|k: int| 0 <= k < names.subrange(0, i as int).len() implies names.subrange(
                    0,
                    i as int,
                )[k] != names[i as int] by {}
                assert(!names.subrange(0, i as int).to_set().contains(names[i as int]));
            }
        }
        let held = has_capability(worker, &required[i]);
        if !seen {
            total = total + 1;
            if held {
                covered = covered + 1;
            }
        }
        i = i + 1;
    }
    assert(names.subrange(0, i as int) =~= names);
    (covered, total)
}

/// Whether the worker is of the type that the task prefers.
pub fn is_preferred(worker: &WorkerRecord, task: &Task) -> (b: bool)
    ensures
        b == preferred(worker@, task@),
{
    match &task.requirements.preferred_worker_type {
        Some(wanted) => wanted.same_as(&worker.worker_type),
        None => false,
    }
}

/// Whether the worker's average processing time is within what the task allows.
pub fn is_fast_enough(worker: &WorkerRecord, task: &Task) -> (b: bool)
    ensures
        b == fast_enough(worker@, task@),
{
    match task.requirements.max_processing_time_ms {
        Some(limit) => worker.performance_profile.avg_processing_time_ms <= limit,
        None => true,
    }
}

/// The score of the worker for the task.
pub fn score(worker: &WorkerRecord, task: &Task) -> (s: Score)
    ensures
        s.numerator == score_numerator(worker@, task@),
        s.denominator == score_denominator(task@),
        0 < s.denominator,
        s.numerator <= s.denominator,
{
    let (covered, required) = coverage(worker, task);
    let scale: u128 = if required == 0 {
        1
    } else {
        required as u128
    };
    let coverage_part: u128 = if required == 0 {
        60
    } else {
        60 * (covered as u128)
    };
    let preference_part: u128 = if is_preferred(worker, task) {
        30 * scale
    } else {
        0
    };
    let speed_part: u128 = if is_fast_enough(worker, task) {
        10 * scale
    } else {
        0
    };
    Score { numerator: coverage_part + preference_part + speed_part, denominator: 100 * scale }
}

/// Whether worker `a` is to be chosen over worker `b` for the task.
pub fn is_better(a: &WorkerRecord, b: &WorkerRecord, task: &Task) -> (better: bool)
    ensures
        better == outranks(a@, b@, task@),
{
    let score_a = score(a, task);
    let score_b = score(b, task);
    if score_a.numerator != score_b.numerator {
        score_a.numerator > score_b.numerator
    } else if a.current_load != b.current_load {
        a.current_load < b.current_load
    } else {
        a.id < b.id
    }
}

/// The position of the worker that is given the task: the eligible worker
/// that no other eligible worker outranks. `None` if no worker is eligible.
pub fn select_worker(workers: &Vec<WorkerRecord>, task: &Task) -> (choice: Option<usize>)
    ensures
        match choice {
            Some(at) => best_worker(crate::registry::record_views(workers@), task@) == Some(
                at as int,
            ),
            None => best_worker(crate::registry::record_views(workers@), task@).is_none(),
        },
{
    let ghost views = crate::registry::record_views(workers@);
    let mut choice: Option<usize> = None;
    let mut n: usize = 0;
    while n < workers.len()
        invariant
            n <= workers@.len(),
            views == crate::registry::record_views(workers@),
            match choice {
                Some(at) => at < n && best_among(views, task@, n as int) == Some(at as int),
                None => best_among(views, task@, n as int).is_none(),
            },
        decreases workers@.len() - n,
    {
        assert(views[n as int] == workers@[n as int]@);
        if is_eligible(&workers[n], task) {
            match choice {
                Some(at) => {
                    assert(views[at as int] == workers@[at as int]@);
                    if is_better(&workers[n], &workers[at], task) {
                        choice = Some(n);
                    }
                },
                None => {
                    choice = Some(n);
                },
            }
        }
        n = n + 1;
    }
    choice
}

} // verus!
