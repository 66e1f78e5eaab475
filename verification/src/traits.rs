//! The interfaces behind which the replaceable parts of a worker stand.
//!
//! The coordination layer never calls them: it deals in records and
//! messages. They are here so that workers of every make agree on what a
//! worker, a task processor and a document processor are.

use crate::document::Document;
use crate::document_processor::DocumentProcessingResult;
use crate::task::{Task, TaskResult, TaskType};
use crate::types::{DocumentType, WorkerId};
use crate::worker::{WorkerCapability, WorkerHealth, WorkerStatus, WorkerType};
use vstd::prelude::*;

verus! {

/// A worker of the swarm.
pub trait Worker {
    /// The identifier of the worker.
    fn id(&self) -> WorkerId;

    /// The name of the worker, for people.
    fn name(&self) -> &str;

    /// The family that the worker belongs to.
    fn worker_type(&self) -> WorkerType;

    /// The state that the worker is in.
    fn status(&self) -> WorkerStatus;

    /// The number of tasks that the worker takes at a time.
    spec fn capacity(&self) -> usize;

    /// The number of tasks that the worker holds.
    spec fn load(&self) -> usize;

    /// How many tasks the worker takes at a time.
    fn max_concurrent_tasks(&self) -> (limit: usize)
        ensures
            limit == self.capacity(),
    ;

    /// How many tasks the worker holds.
    fn current_load(&self) -> (held: usize)
        ensures
            held == self.load(),
    ;

    /// Whether the worker can take one more task: it holds fewer tasks than
    /// it takes at a time.
    fn has_capacity(&self) -> (free: bool)
        ensures
            free == (self.load() < self.capacity()),
    {
        self.current_load() < self.max_concurrent_tasks()
    }

    /// What the worker can do.
    fn capabilities(&self) -> &[WorkerCapability];

    /// Whether the worker takes tasks of the given kind.
    fn can_handle(&self, task_type: &TaskType) -> bool;

    /// Runs a task to its end.
    fn process_task(&mut self, task: Task) -> Result<TaskResult, String>;

    /// Reports on the health of the worker.
    fn health_check(&self) -> Result<WorkerHealth, String>;

    /// Shuts the worker down.
    fn shutdown(&mut self) -> Result<(), String>;
}

/// Something that runs tasks.
pub trait TaskProcessor {
    /// Runs a task to its end.
    fn process(&self, task: &Task) -> Result<TaskResult, String>;

    /// The kinds of task that the processor takes.
    fn supported_task_types(&self) -> &[TaskType];

    /// How long the task is likely to take, in milliseconds.
    fn estimate_processing_time(&self, task: &Task) -> u64;
}

/// Something that processes documents.
pub trait DocumentProcessor {
    /// Processes a document and says what it found.
    fn process_document(&self, document: &Document) -> Result<DocumentProcessingResult, String>;

    /// The formats that the processor takes.
    fn supported_document_types(&self) -> &[DocumentType];

    /// Whether the processor takes documents of the given format.
    fn can_process(&self, document_type: &DocumentType) -> bool;
}

} // verus!
