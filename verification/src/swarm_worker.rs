//! The demonstration worker: what it does with a task goes by the name of
//! the kind of the task alone.

use crate::task::text_views;
use crate::text::str_eq;
use vstd::prelude::*;

verus! {

/// The configuration of a demonstration worker.
#[derive(Debug, PartialEq, Eq)]
pub struct WorkerConfig {
    pub max_concurrent_tasks: usize,
    pub worker_type: String,
    pub capabilities: Vec<String>,
}

impl Default for WorkerConfig {
    /// A generic worker with the basic capability that takes ten tasks at a
    /// time.
    fn default() -> (config: Self)
        ensures
            config.max_concurrent_tasks == 10,
            config.worker_type@ == "generic"@,
            text_views(config.capabilities@) == seq!["basic"@],
    {
        let mut capabilities: Vec<String> = Vec::new();
        capabilities.push(String::from_str("basic"));
        assert(text_views(capabilities@) =~= seq!["basic"@]);
        WorkerConfig {
            max_concurrent_tasks: 10,
            worker_type: String::from_str("generic"),
            capabilities,
        }
    }
}

/// What the demonstration worker makes of a task.
#[derive(Debug, PartialEq, Eq)]
pub enum WorkOutcome {
    /// The payload of the task is the result.
    Echo,
    /// The result is this number.
    Number(i64),
    /// The task fails for this reason.
    Failure(String),
}

/// The mathematical value of a [`WorkOutcome`].
pub enum WorkOutcomeView {
    Echo,
    Number(i64),
    Failure(Seq<char>),
}

impl View for WorkOutcome {
    type V = WorkOutcomeView;

    open spec fn view(&self) -> WorkOutcomeView {
        match self {
            WorkOutcome::Echo => WorkOutcomeView::Echo,
            WorkOutcome::Number(n) => WorkOutcomeView::Number(*n),
            WorkOutcome::Failure(reason) => WorkOutcomeView::Failure(reason@),
        }
    }
}

/// A piece of work of the demonstration worker: how long it takes, in
/// milliseconds, and what comes of it.
#[derive(Debug, PartialEq, Eq)]
pub struct Work {
    pub delay_ms: u64,
    pub outcome: WorkOutcome,
}

/// The number that a task gives to compute with: its value, or nought where
/// it has none.
pub open spec fn operand(value: Option<i64>) -> i64 {
    match value {
        Some(v) => v,
        None => 0,
    }
}

/// Whether twice the number is a number of the same width.
pub open spec fn can_double(value: Option<i64>) -> bool {
    i64::MIN <= 2 * operand(value) <= i64::MAX
}

/// How long a task of the given kind takes, in milliseconds.
pub open spec fn delay_for(task_type: Seq<char>) -> u64 {
    if task_type == "echo"@ {
        100
    } else if task_type == "compute"@ {
        200
    } else {
        50
    }
}

/// What comes of a task of the given kind: `echo` gives the payload back,
/// `compute` gives twice the value of the task, `error` fails, and so does
/// every kind that the worker does not know.
pub open spec fn outcome_for(task_type: Seq<char>, value: Option<i64>) -> WorkOutcomeView {
    if task_type == "echo"@ {
        WorkOutcomeView::Echo
    } else if task_type == "compute"@ {
        WorkOutcomeView::Number((2 * operand(value)) as i64)
    } else if task_type == "error"@ {
        WorkOutcomeView::Failure("Simulated processing error"@)
    } else {
        WorkOutcomeView::Failure("Unknown task type: "@ + task_type)
    }
}

/// What the demonstration worker does with a task of the given kind and
/// value. A task that is to be computed must have a value that can be
/// doubled.
pub fn plan_work(task_type: &str, value: Option<i64>) -> (work: Work)
    requires
        task_type@ == "compute"@ ==> can_double(value),
    ensures
        work.delay_ms == delay_for(task_type@),
        work.outcome@ == outcome_for(task_type@, value),
{
    if str_eq(task_type, "echo") {
        Work { delay_ms: 100, outcome: WorkOutcome::Echo }
    } else if str_eq(task_type, "compute") {
        let number: i64 = match value {
            Some(v) => v,
            None => 0,
        };
        Work { delay_ms: 200, outcome: WorkOutcome::Number(number * 2) }
    } else if str_eq(task_type, "error") {
        Work {
            delay_ms: 50,
            outcome: WorkOutcome::Failure(String::from_str("Simulated processing error")),
        }
    } else {
        let mut reason = String::from_str("Unknown task type: ");
        reason.append(task_type);
        Work { delay_ms: 50, outcome: WorkOutcome::Failure(reason) }
    }
}

/// Whether a task can be handed to [`plan_work`]: every task can, but one
/// that is to be computed with a value that cannot be doubled.
pub fn can_plan(task_type: &str, value: Option<i64>) -> (yes: bool)
    ensures
        yes == (task_type@ == "compute"@ ==> can_double(value)),
{
    if !str_eq(task_type, "compute") {
        return true;
    }
    match value {
        Some(v) => v >= i64::MIN / 2 && v <= i64::MAX / 2,
        None => true,
    }
}

} // verus!
