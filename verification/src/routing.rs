//! Subjects: the addresses of the bus, and the router that hands them out.

use vstd::prelude::*;

verus! {

/// The subjects on which documents travel.
#[derive(Debug, PartialEq, Eq)]
pub struct DocumentSubjects {
    /// Documents that have come in.
    pub incoming: String,
    /// Results of document processing.
    pub results: String,
    /// Errors of document processing.
    pub errors: String,
}

/// The subjects on which tasks travel.
#[derive(Debug, PartialEq, Eq)]
pub struct TaskSubjects {
    /// Tasks on their way to workers.
    pub assignments: String,
    /// Results on their way to the coordinator.
    pub results: String,
    /// Changes of the status of tasks.
    pub status: String,
}

/// The subjects on which workers are heard.
#[derive(Debug, PartialEq, Eq)]
pub struct WorkerSubjects {
    /// Workers that announce themselves.
    pub registration: String,
    /// Reports on the health of workers.
    pub health: String,
    /// Changes of the status of workers.
    pub status: String,
}

/// The subjects of the swarm.
#[derive(Debug, PartialEq, Eq)]
pub struct MessageRoutingConfig {
    /// What every subject of the swarm begins with.
    pub subject_prefix: String,
    pub document_subjects: DocumentSubjects,
    pub task_subjects: TaskSubjects,
    pub worker_subjects: WorkerSubjects,
}

impl Clone for DocumentSubjects {
    fn clone(&self) -> (copy: Self)
        ensures
            copy == *self,
    {
        DocumentSubjects {
            incoming: self.incoming.clone(),
            results: self.results.clone(),
            errors: self.errors.clone(),
        }
    }
}

impl Clone for TaskSubjects {
    fn clone(&self) -> (copy: Self)
        ensures
            copy == *self,
    {
        TaskSubjects {
            assignments: self.assignments.clone(),
            results: self.results.clone(),
            status: self.status.clone(),
        }
    }
}

impl Clone for WorkerSubjects {
    fn clone(&self) -> (copy: Self)
        ensures
            copy == *self,
    {
        WorkerSubjects {
            registration: self.registration.clone(),
            health: self.health.clone(),
            status: self.status.clone(),
        }
    }
}

impl Clone for MessageRoutingConfig {
    fn clone(&self) -> (copy: Self)
        ensures
            copy == *self,
    {
        MessageRoutingConfig {
            subject_prefix: self.subject_prefix.clone(),
            document_subjects: self.document_subjects.clone(),
            task_subjects: self.task_subjects.clone(),
            worker_subjects: self.worker_subjects.clone(),
        }
    }
}

impl Default for MessageRoutingConfig {
    /// The subjects under the prefix `swarm`.
    fn default() -> (config: Self)
        ensures
            config.subject_prefix@ == "swarm"@,
            config.document_subjects.incoming@ == "swarm.documents.incoming"@,
            config.document_subjects.results@ == "swarm.documents.results"@,
            config.document_subjects.errors@ == "swarm.documents.errors"@,
            config.task_subjects.assignments@ == "swarm.tasks.assignments"@,
            config.task_subjects.results@ == "swarm.tasks.results"@,
            config.task_subjects.status@ == "swarm.tasks.status"@,
            config.worker_subjects.registration@ == "swarm.workers.registration"@,
            config.worker_subjects.health@ == "swarm.workers.health"@,
            config.worker_subjects.status@ == "swarm.workers.status"@,
    {
        MessageRoutingConfig {
            subject_prefix: String::from_str("swarm"),
            document_subjects: DocumentSubjects {
                incoming: String::from_str("swarm.documents.incoming"),
                results: String::from_str("swarm.documents.results"),
                errors: String::from_str("swarm.documents.errors"),
            },
            task_subjects: TaskSubjects {
                assignments: String::from_str("swarm.tasks.assignments"),
                results: String::from_str("swarm.tasks.results"),
                status: String::from_str("swarm.tasks.status"),
            },
            worker_subjects: WorkerSubjects {
                registration: String::from_str("swarm.workers.registration"),
                health: String::from_str("swarm.workers.health"),
                status: String::from_str("swarm.workers.status"),
            },
        }
    }
}

/// A subject made of a prefix and components, with a dot before each
/// component.
pub open spec fn dotted(prefix: Seq<char>, components: Seq<Seq<char>>) -> Seq<char>
    decreases components.len(),
{
    if components.len() == 0 {
        prefix
    } else {
        dotted(prefix, components.drop_last()) + "."@ + components.last()
    }
}

/// The characters of each component of a list.
pub open spec fn component_views(components: Seq<&str>) -> Seq<Seq<char>> {
    components.map_values(|c: &str| c@)
}

/// Hands out the subjects of a routing configuration.
pub struct MessageRouter {
    config: MessageRoutingConfig,
}

impl MessageRouter {
    /// The configuration that the router was made with.
    pub closed spec fn config(&self) -> MessageRoutingConfig {
        self.config
    }

    /// A router that goes by the given configuration.
    pub fn new(config: MessageRoutingConfig) -> (router: Self)
        ensures
            router.config() == config,
    {
        MessageRouter { config }
    }

    /// The subject of incoming documents.
    pub fn document_incoming_subject(&self) -> (subject: &str)
        ensures
            subject@ == self.config().document_subjects.incoming@,
    {
        self.config.document_subjects.incoming.as_str()
    }

    /// The subject of the results of document processing.
    pub fn document_results_subject(&self) -> (subject: &str)
        ensures
            subject@ == self.config().document_subjects.results@,
    {
        self.config.document_subjects.results.as_str()
    }

    /// The subject of the errors of document processing.
    pub fn document_errors_subject(&self) -> (subject: &str)
        ensures
            subject@ == self.config().document_subjects.errors@,
    {
        self.config.document_subjects.errors.as_str()
    }

    /// The subject of task assignments.
    pub fn task_assignment_subject(&self) -> (subject: &str)
        ensures
            subject@ == self.config().task_subjects.assignments@,
    {
        self.config.task_subjects.assignments.as_str()
    }

    /// The subject of task results.
    pub fn task_results_subject(&self) -> (subject: &str)
        ensures
            subject@ == self.config().task_subjects.results@,
    {
        self.config.task_subjects.results.as_str()
    }

    /// The subject of task status updates.
    pub fn task_status_subject(&self) -> (subject: &str)
        ensures
            subject@ == self.config().task_subjects.status@,
    {
        self.config.task_subjects.status.as_str()
    }

    /// The subject on which workers register.
    pub fn worker_registration_subject(&self) -> (subject: &str)
        ensures
            subject@ == self.config().worker_subjects.registration@,
    {
        self.config.worker_subjects.registration.as_str()
    }

    /// The subject of worker health reports.
    pub fn worker_health_subject(&self) -> (subject: &str)
        ensures
            subject@ == self.config().worker_subjects.health@,
    {
        self.config.worker_subjects.health.as_str()
    }

    /// The subject of worker status updates.
    pub fn worker_status_subject(&self) -> (subject: &str)
        ensures
            subject@ == self.config().worker_subjects.status@,
    {
        self.config.worker_subjects.status.as_str()
    }

    /// The subject under the router's prefix with the given components, such
    /// as `swarm.custom.subject` for the components `custom` and `subject`.
    pub fn create_subject(&self, components: &[&str]) -> (subject: String)
        ensures
            subject@ == dotted(self.config().subject_prefix@, component_views(components@)),
    {
        let mut subject = self.config.subject_prefix.clone();
        let ghost parts = component_views(components@);
        let mut i: usize = 0;
        assert(parts.subrange(0, 0) =~= Seq::<Seq<char>>::empty());
        while i < components.len()
            invariant
                i <= components@.len(),
                parts == component_views(components@),
                subject@ == dotted(self.config().subject_prefix@, parts.subrange(0, i as int)),
            decreases components@.len() - i,
        {
            proof {
                assert(parts.subrange(0, i + 1).drop_last() =~= parts.subrange(0, i as int));
                assert(parts.subrange(0, i + 1).last() == components@[i as int]@);
            }
            subject.append(".");
            subject.append(components[i]);
            i = i + 1;
        }
        assert(parts.subrange(0, i as int) =~= parts);
        subject
    }
}

} // verus!
