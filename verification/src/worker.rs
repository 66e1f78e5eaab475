//! Workers: what they are, what they can do, and how they fare.

use crate::task::{TaskType, TaskTypeView};
use crate::text::{bracket_list, bracketed, str_views};
use crate::textmap::TextMap;
use crate::types::{DocumentType, TextAnalysisType, Timestamp, VectorIndexType, WorkerId};
use vstd::prelude::*;

verus! {

/// The names of a list of document formats.
pub open spec fn document_type_names(types: Seq<DocumentType>) -> Seq<Seq<char>> {
    types.map_values(|t: DocumentType| t.name())
}

/// The names of a list of text analyses.
pub open spec fn analysis_names(types: Seq<TextAnalysisType>) -> Seq<Seq<char>> {
    types.map_values(|t: TextAnalysisType| t.name())
}

/// The names of a list of vector index kinds.
pub open spec fn index_names(types: Seq<VectorIndexType>) -> Seq<Seq<char>> {
    types.map_values(|t: VectorIndexType| t.name())
}

/// The family a worker belongs to, with what it is built for.
#[derive(Debug, PartialEq, Eq, Hash)]
pub enum WorkerType {
    DocumentProcessor { supported_types: Vec<DocumentType> },
    TextAnalyzer { supported_analyses: Vec<TextAnalysisType> },
    VectorIndexer { supported_indexes: Vec<VectorIndexType> },
    Custom { name: String, version: String },
}

/// The mathematical value of a [`WorkerType`].
pub enum WorkerTypeView {
    DocumentProcessor { supported_types: Seq<DocumentType> },
    TextAnalyzer { supported_analyses: Seq<TextAnalysisType> },
    VectorIndexer { supported_indexes: Seq<VectorIndexType> },
    Custom { name: Seq<char>, version: Seq<char> },
}

impl WorkerTypeView {
    /// The type as it is shown to people, such as `DocumentProcessor([Pdf])`.
    pub open spec fn text(self) -> Seq<char> {
        match self {
            WorkerTypeView::DocumentProcessor { supported_types } => "DocumentProcessor("@
                + bracketed(document_type_names(supported_types)) + ")"@,
            WorkerTypeView::TextAnalyzer { supported_analyses } => "TextAnalyzer("@ + bracketed(
                analysis_names(supported_analyses),
            ) + ")"@,
            WorkerTypeView::VectorIndexer { supported_indexes } => "VectorIndexer("@ + bracketed(
                index_names(supported_indexes),
            ) + ")"@,
            WorkerTypeView::Custom { name, version } => "Custom("@ + name + ", "@ + version
                + ")"@,
        }
    }
}

impl View for WorkerType {
    type V = WorkerTypeView;

    open spec fn view(&self) -> WorkerTypeView {
        match self {
            WorkerType::DocumentProcessor { supported_types } =>
                WorkerTypeView::DocumentProcessor { supported_types: supported_types@ },
            WorkerType::TextAnalyzer { supported_analyses } => WorkerTypeView::TextAnalyzer {
                supported_analyses: supported_analyses@,
            },
            WorkerType::VectorIndexer { supported_indexes } => WorkerTypeView::VectorIndexer {
                supported_indexes: supported_indexes@,
            },
            WorkerType::Custom { name, version } => WorkerTypeView::Custom {
                name: name@,
                version: version@,
            },
        }
    }
}

impl Clone for WorkerType {
    fn clone(&self) -> (copy: Self)
        ensures
            copy@ == self@,
    {
        match self {
            WorkerType::DocumentProcessor { supported_types } => WorkerType::DocumentProcessor {
                supported_types: supported_types.clone(),
            },
            WorkerType::TextAnalyzer { supported_analyses } => WorkerType::TextAnalyzer {
                supported_analyses: supported_analyses.clone(),
            },
            WorkerType::VectorIndexer { supported_indexes } => WorkerType::VectorIndexer {
                supported_indexes: supported_indexes.clone(),
            },
            WorkerType::Custom { name, version } => WorkerType::Custom {
                name: name.clone(),
                version: version.clone(),
            },
        }
    }
}

fn same_document_types(a: &Vec<DocumentType>, b: &Vec<DocumentType>) -> (same: bool)
    ensures
        same == (a@ == b@),
{
    if a.len() != b.len() {
        return false;
    }
    let mut i: usize = 0;
    while i < a.len()
        invariant
            i <= a@.len(),
            a@.len() == b@.len(),
            forall|j: int| 0 <= j < i ==> a@[j] == b@[j],
        decreases a@.len() - i,
    {
        if a[i] != b[i] {
            return false;
        }
        i = i + 1;
    }
    assert(a@ =~= b@);
    true
}

fn same_analyses(a: &Vec<TextAnalysisType>, b: &Vec<TextAnalysisType>) -> (same: bool)
    ensures
        same == (a@ == b@),
{
    if a.len() != b.len() {
        return false;
    }
    let mut i: usize = 0;
    while i < a.len()
        invariant
            i <= a@.len(),
            a@.len() == b@.len(),
            forall|j: int| 0 <= j < i ==> a@[j] == b@[j],
        decreases a@.len() - i,
    {
        if a[i] != b[i] {
            return false;
        }
        i = i + 1;
    }
    assert(a@ =~= b@);
    true
}

fn same_indexes(a: &Vec<VectorIndexType>, b: &Vec<VectorIndexType>) -> (same: bool)
    ensures
        same == (a@ == b@),
{
    if a.len() != b.len() {
        return false;
    }
    let mut i: usize = 0;
    while i < a.len()
        invariant
            i <= a@.len(),
            a@.len() == b@.len(),
            forall|j: int| 0 <= j < i ==> a@[j] == b@[j],
        decreases a@.len() - i,
    {
        if a[i] != b[i] {
            return false;
        }
        i = i + 1;
    }
    assert(a@ =~= b@);
    true
}

impl WorkerType {
    /// Whether two worker types are the same, lists included.
    pub fn same_as(&self, other: &WorkerType) -> (same: bool)
        ensures
            same == (self@ == other@),
    {
        match (self, other) {
            (
                WorkerType::DocumentProcessor { supported_types: a },
                WorkerType::DocumentProcessor { supported_types: b },
            ) => same_document_types(a, b),
            (
                WorkerType::TextAnalyzer { supported_analyses: a },
                WorkerType::TextAnalyzer { supported_analyses: b },
            ) => same_analyses(a, b),
            (
                WorkerType::VectorIndexer { supported_indexes: a },
                WorkerType::VectorIndexer { supported_indexes: b },
            ) => same_indexes(a, b),
            (
                WorkerType::Custom { name: n1, version: v1 },
                WorkerType::Custom { name: n2, version: v2 },
            ) => *n1 == *n2 && *v1 == *v2,
            _ => false,
        }
    }

    /// The family as it is shown to people.
    pub fn to_string(&self) -> (s: String)
        ensures
            s@ == self@.text(),
    {
        match self {
            WorkerType::DocumentProcessor { supported_types } => {
                let mut names: Vec<&'static str> = Vec::new();
                let mut i: usize = 0;
                while i < supported_types.len()
                    invariant
                        i <= supported_types@.len(),
                        names@.len() == i,
                        forall|j: int| 0 <= j < i ==> (#[trigger] names@[j])@ == supported_types@[j].name(),
                    decreases supported_types@.len() - i,
                {
                    names.push(supported_types[i].as_str());
                    i = i + 1;
                }
                assert(str_views(names@) =~= document_type_names(supported_types@));
                let list = bracket_list(&names);
                let mut s = String::from_str("DocumentProcessor(");
                s.append(list.as_str());
                s.append(")");
                s
            },
            WorkerType::TextAnalyzer { supported_analyses } => {
                let mut names: Vec<&'static str> = Vec::new();
                let mut i: usize = 0;
                while i < supported_analyses.len()
                    invariant
                        i <= supported_analyses@.len(),
                        names@.len() == i,
                        forall|j: int| 0 <= j < i ==> (#[trigger] names@[j])@ == supported_analyses@[j].name(),
                    decreases supported_analyses@.len() - i,
                {
                    names.push(supported_analyses[i].as_str());
                    i = i + 1;
                }
                assert(str_views(names@) =~= analysis_names(supported_analyses@));
                let list = bracket_list(&names);
                let mut s = String::from_str("TextAnalyzer(");
                s.append(list.as_str());
                s.append(")");
                s
            },
            WorkerType::VectorIndexer { supported_indexes } => {
                let mut names: Vec<&'static str> = Vec::new();
                let mut i: usize = 0;
                while i < supported_indexes.len()
                    invariant
                        i <= supported_indexes@.len(),
                        names@.len() == i,
                        forall|j: int| 0 <= j < i ==> (#[trigger] names@[j])@ == supported_indexes@[j].name(),
                    decreases supported_indexes@.len() - i,
                {
                    names.push(supported_indexes[i].as_str());
                    i = i + 1;
                }
                assert(str_views(names@) =~= index_names(supported_indexes@));
                let list = bracket_list(&names);
                let mut s = String::from_str("VectorIndexer(");
                s.append(list.as_str());
                s.append(")");
                s
            },
            WorkerType::Custom { name, version } => {
                let mut s = String::from_str("Custom(");
                s.append(name.as_str());
                s.append(", ");
                s.append(version.as_str());
                s.append(")");
                s
            },
        }
    }
}

/// The state a worker is in.
#[derive(Debug, PartialEq, Eq, Hash)]
pub enum WorkerStatus {
    Starting,
    Running,
    Busy,
    Idle,
    Error(String),
    Shutdown,
}

/// The mathematical value of a [`WorkerStatus`].
pub enum WorkerStatusView {
    Starting,
    Running,
    Busy,
    Idle,
    Error(Seq<char>),
    Shutdown,
}

impl WorkerStatusView {
    /// The status as it is shown to people.
    pub open spec fn text(self) -> Seq<char> {
        match self {
            WorkerStatusView::Starting => "Starting"@,
            WorkerStatusView::Running => "Running"@,
            WorkerStatusView::Busy => "Busy"@,
            WorkerStatusView::Idle => "Idle"@,
            WorkerStatusView::Error(message) => "Error("@ + message + ")"@,
            WorkerStatusView::Shutdown => "Shutdown"@,
        }
    }

    /// A worker in service: it has started and is neither in error nor shut
    /// down. Only such a worker is given tasks.
    pub open spec fn in_service(self) -> bool {
        self is Running || self is Idle || self is Busy
    }

    /// The life cycle of a worker. From every state a worker may enter an
    /// error state or shut down; shut down it stays. A starting worker goes
    /// into service when it is first heard of as running or idle, not as
    /// busy. A worker in service moves freely between running, idle and busy.
    /// From an error a worker recovers to running or idle.
    pub open spec fn may_become(self, next: WorkerStatusView) -> bool {
        if next is Shutdown {
            true
        } else if self is Shutdown {
            false
        } else if next is Error {
            true
        } else if self is Error {
            next is Running || next is Idle
        } else if self is Starting {
            next is Starting || next is Running || next is Idle
        } else {
            next.in_service()
        }
    }
}

impl View for WorkerStatus {
    type V = WorkerStatusView;

    open spec fn view(&self) -> WorkerStatusView {
        match self {
            WorkerStatus::Starting => WorkerStatusView::Starting,
            WorkerStatus::Running => WorkerStatusView::Running,
            WorkerStatus::Busy => WorkerStatusView::Busy,
            WorkerStatus::Idle => WorkerStatusView::Idle,
            WorkerStatus::Error(message) => WorkerStatusView::Error(message@),
            WorkerStatus::Shutdown => WorkerStatusView::Shutdown,
        }
    }
}

impl Clone for WorkerStatus {
    fn clone(&self) -> (copy: Self)
        ensures
            copy@ == self@,
    {
        match self {
            WorkerStatus::Starting => WorkerStatus::Starting,
            WorkerStatus::Running => WorkerStatus::Running,
            WorkerStatus::Busy => WorkerStatus::Busy,
            WorkerStatus::Idle => WorkerStatus::Idle,
            WorkerStatus::Error(message) => WorkerStatus::Error(message.clone()),
            WorkerStatus::Shutdown => WorkerStatus::Shutdown,
        }
    }
}

impl WorkerStatus {
    /// The status as it is shown to people.
    pub fn to_string(&self) -> (s: String)
        ensures
            s@ == self@.text(),
    {
        match self {
            WorkerStatus::Starting => String::from_str("Starting"),
            WorkerStatus::Running => String::from_str("Running"),
            WorkerStatus::Busy => String::from_str("Busy"),
            WorkerStatus::Idle => String::from_str("Idle"),
            WorkerStatus::Error(message) => {
                let mut s = String::from_str("Error(");
                s.append(message.as_str());
                s.append(")");
                s
            },
            WorkerStatus::Shutdown => String::from_str("Shutdown"),
        }
    }

    /// Whether a worker in this state is in service.
    pub fn is_in_service(&self) -> (b: bool)
        ensures
            b == self@.in_service(),
    {
        match self {
            WorkerStatus::Running | WorkerStatus::Idle | WorkerStatus::Busy => true,
            _ => false,
        }
    }

    /// Whether the life cycle lets a worker in this state go to `next`.
    pub fn can_become(&self, next: &WorkerStatus) -> (b: bool)
        ensures
            b == self@.may_become(next@),
    {
        match next {
            WorkerStatus::Shutdown => true,
            WorkerStatus::Error(_) => match self {
                WorkerStatus::Shutdown => false,
                _ => true,
            },
            WorkerStatus::Starting => match self {
                WorkerStatus::Starting => true,
                _ => false,
            },
            WorkerStatus::Busy => match self {
                WorkerStatus::Running | WorkerStatus::Idle | WorkerStatus::Busy => true,
                _ => false,
            },
            WorkerStatus::Running | WorkerStatus::Idle => match self {
                WorkerStatus::Shutdown => false,
                _ => true,
            },
        }
    }
}

/// How a worker performs on average. The CPU intensity (between 0 and 1) and
/// the throughput per second are single-precision numbers, held here as their
/// bit patterns.
#[derive(Debug, Clone, Copy, PartialEq, Eq, Structural)]
pub struct PerformanceProfile {
    pub avg_processing_time_ms: u64,
    pub memory_usage_mb: u64,
    pub cpu_intensity_bits: u32,
    pub throughput_per_second_bits: u32,
}

/// The mathematical value of a list of task kinds.
pub open spec fn task_type_views(kinds: Seq<TaskType>) -> Seq<TaskTypeView> {
    kinds.map_values(|k: TaskType| k@)
}

/// Something a worker can do: a named, versioned skill with the task kinds it
/// covers.
#[derive(Debug, PartialEq, Eq)]
pub struct WorkerCapability {
    pub name: String,
    pub version: String,
    pub supported_task_types: Vec<TaskType>,
    pub max_concurrent_tasks: usize,
    pub performance_profile: PerformanceProfile,
    /// Free-form metadata; each value is a JSON text.
    pub metadata: TextMap,
}

/// The mathematical value of a [`WorkerCapability`].
pub struct WorkerCapabilityView {
    pub name: Seq<char>,
    pub version: Seq<char>,
    pub supported_task_types: Seq<TaskTypeView>,
    pub max_concurrent_tasks: usize,
    pub performance_profile: PerformanceProfile,
    pub metadata: Seq<(Seq<char>, Seq<char>)>,
}

impl View for WorkerCapability {
    type V = WorkerCapabilityView;

    open spec fn view(&self) -> WorkerCapabilityView {
        WorkerCapabilityView {
            name: self.name@,
            version: self.version@,
            supported_task_types: task_type_views(self.supported_task_types@),
            max_concurrent_tasks: self.max_concurrent_tasks,
            performance_profile: self.performance_profile,
            metadata: self.metadata@,
        }
    }
}

impl Clone for WorkerCapability {
    fn clone(&self) -> (copy: Self)
        ensures
            copy@ == self@,
    {
        let kinds = self.supported_task_types.clone();
        assert(task_type_views(kinds@) =~= task_type_views(self.supported_task_types@));
        WorkerCapability {
            name: self.name.clone(),
            version: self.version.clone(),
            supported_task_types: kinds,
            max_concurrent_tasks: self.max_concurrent_tasks,
            performance_profile: self.performance_profile,
            metadata: self.metadata.clone(),
        }
    }
}

/// The mathematical value of a list of capabilities.
pub open spec fn capability_views(capabilities: Seq<WorkerCapability>) -> Seq<WorkerCapabilityView> {
    capabilities.map_values(|c: WorkerCapability| c@)
}

/// A copy of a list of capabilities.
pub fn clone_capabilities(capabilities: &Vec<WorkerCapability>) -> (copy: Vec<WorkerCapability>)
    ensures
        capability_views(copy@) == capability_views(capabilities@),
{
    let copy = capabilities.clone();
    assert(capability_views(copy@) =~= capability_views(capabilities@));
    copy
}

/// What a worker declares of itself when it joins the swarm.
#[derive(Debug, PartialEq, Eq)]
pub struct WorkerConfig {
    pub id: WorkerId,
    pub name: String,
    pub worker_type: WorkerType,
    pub max_concurrent_tasks: usize,
    pub capabilities: Vec<WorkerCapability>,
    pub performance_profile: PerformanceProfile,
    pub health_check_interval_ms: u64,
    pub shutdown_timeout_ms: u64,
    /// Free-form metadata; each value is a JSON text.
    pub metadata: TextMap,
}

/// The mathematical value of a [`WorkerConfig`].
pub struct WorkerConfigView {
    pub id: WorkerId,
    pub name: Seq<char>,
    pub worker_type: WorkerTypeView,
    pub max_concurrent_tasks: usize,
    pub capabilities: Seq<WorkerCapabilityView>,
    pub performance_profile: PerformanceProfile,
    pub health_check_interval_ms: u64,
    pub shutdown_timeout_ms: u64,
    pub metadata: Seq<(Seq<char>, Seq<char>)>,
}

impl View for WorkerConfig {
    type V = WorkerConfigView;

    open spec fn view(&self) -> WorkerConfigView {
        WorkerConfigView {
            id: self.id,
            name: self.name@,
            worker_type: self.worker_type@,
            max_concurrent_tasks: self.max_concurrent_tasks,
            capabilities: capability_views(self.capabilities@),
            performance_profile: self.performance_profile,
            health_check_interval_ms: self.health_check_interval_ms,
            shutdown_timeout_ms: self.shutdown_timeout_ms,
            metadata: self.metadata@,
        }
    }
}

impl Clone for WorkerConfig {
    fn clone(&self) -> (copy: Self)
        ensures
            copy@ == self@,
    {
        WorkerConfig {
            id: self.id,
            name: self.name.clone(),
            worker_type: self.worker_type.clone(),
            max_concurrent_tasks: self.max_concurrent_tasks,
            capabilities: clone_capabilities(&self.capabilities),
            performance_profile: self.performance_profile,
            health_check_interval_ms: self.health_check_interval_ms,
            shutdown_timeout_ms: self.shutdown_timeout_ms,
            metadata: self.metadata.clone(),
        }
    }
}

/// What a worker reports of itself in a heartbeat. The CPU usage in percent
/// is a single-precision number, held here as its bit pattern.
#[derive(Debug, PartialEq, Eq)]
pub struct WorkerHealth {
    pub worker_id: WorkerId,
    pub status: WorkerStatus,
    pub current_load: usize,
    pub max_capacity: usize,
    pub memory_usage_mb: u64,
    pub cpu_usage_percent_bits: u32,
    pub last_heartbeat: Timestamp,
    pub error_count: u32,
    pub success_count: u32,
}

/// The mathematical value of a [`WorkerHealth`].
pub struct WorkerHealthView {
    pub worker_id: WorkerId,
    pub status: WorkerStatusView,
    pub current_load: usize,
    pub max_capacity: usize,
    pub memory_usage_mb: u64,
    pub cpu_usage_percent_bits: u32,
    pub last_heartbeat: Timestamp,
    pub error_count: u32,
    pub success_count: u32,
}

impl View for WorkerHealth {
    type V = WorkerHealthView;

    open spec fn view(&self) -> WorkerHealthView {
        WorkerHealthView {
            worker_id: self.worker_id,
            status: self.status@,
            current_load: self.current_load,
            max_capacity: self.max_capacity,
            memory_usage_mb: self.memory_usage_mb,
            cpu_usage_percent_bits: self.cpu_usage_percent_bits,
            last_heartbeat: self.last_heartbeat,
            error_count: self.error_count,
            success_count: self.success_count,
        }
    }
}

impl Clone for WorkerHealth {
    fn clone(&self) -> (copy: Self)
        ensures
            copy@ == self@,
    {
        WorkerHealth {
            worker_id: self.worker_id,
            status: self.status.clone(),
            current_load: self.current_load,
            max_capacity: self.max_capacity,
            memory_usage_mb: self.memory_usage_mb,
            cpu_usage_percent_bits: self.cpu_usage_percent_bits,
            last_heartbeat: self.last_heartbeat,
            error_count: self.error_count,
            success_count: self.success_count,
        }
    }
}

} // verus!
