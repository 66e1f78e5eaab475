//! Tasks, the unit of work, and the results that workers return for them.

use crate::document::{clone_optional_text, optional_text, Document, DocumentProcessingOptions, DocumentView};
use crate::text::{debug_quoted, quoted};
use crate::textmap::TextMap;
use crate::types::{
    DocumentProcessingType, DocumentType, TaskId, TaskPriority, TaskStatus, TextAnalysisType,
    Timestamp, VectorIndexType,
};
use crate::worker::{WorkerType, WorkerTypeView};
use vstd::prelude::*;

verus! {

/// The kind of work a task asks for.
#[derive(Debug, PartialEq, Eq, Hash)]
pub enum TaskType {
    DocumentProcessing { document_type: DocumentType, processing_type: DocumentProcessingType },
    TextAnalysis { analysis_type: TextAnalysisType },
    VectorIndexing { index_type: VectorIndexType },
    Custom { name: String, version: String },
}

/// The mathematical value of a [`TaskType`].
pub enum TaskTypeView {
    DocumentProcessing { document_type: DocumentType, processing_type: DocumentProcessingType },
    TextAnalysis { analysis_type: TextAnalysisType },
    VectorIndexing { index_type: VectorIndexType },
    Custom { name: Seq<char>, version: Seq<char> },
}

impl TaskTypeView {
    /// The kind as it is shown to people, such as
    /// `DocumentProcessing(Pdf, TextExtraction)`.
    pub open spec fn text(self) -> Seq<char> {
        match self {
            TaskTypeView::DocumentProcessing { document_type, processing_type } =>
                "DocumentProcessing("@ + document_type.name() + ", "@ + processing_type.name()
                    + ")"@,
            TaskTypeView::TextAnalysis { analysis_type } => "TextAnalysis("@
                + analysis_type.name() + ")"@,
            TaskTypeView::VectorIndexing { index_type } => "VectorIndexing("@ + index_type.name()
                + ")"@,
            TaskTypeView::Custom { name, version } => "Custom("@ + name + ", "@ + version + ")"@,
        }
    }

    /// The kind as it is written in the `task-type` header of a message, with
    /// its fields named and its texts quoted.
    pub open spec fn header_text(self) -> Seq<char> {
        match self {
            TaskTypeView::DocumentProcessing { document_type, processing_type } =>
                "DocumentProcessing { document_type: "@ + document_type.name()
                    + ", processing_type: "@ + processing_type.name() + " }"@,
            TaskTypeView::TextAnalysis { analysis_type } => "TextAnalysis { analysis_type: "@
                + analysis_type.name() + " }"@,
            TaskTypeView::VectorIndexing { index_type } => "VectorIndexing { index_type: "@
                + index_type.name() + " }"@,
            TaskTypeView::Custom { name, version } => "Custom { name: "@ + debug_quoted(name)
                + ", version: "@ + debug_quoted(version) + " }"@,
        }
    }
}

impl View for TaskType {
    type V = TaskTypeView;

    open spec fn view(&self) -> TaskTypeView {
        match self {
            TaskType::DocumentProcessing { document_type, processing_type } =>
                TaskTypeView::DocumentProcessing {
                    document_type: *document_type,
                    processing_type: *processing_type,
                },
            TaskType::TextAnalysis { analysis_type } => TaskTypeView::TextAnalysis {
                analysis_type: *analysis_type,
            },
            TaskType::VectorIndexing { index_type } => TaskTypeView::VectorIndexing {
                index_type: *index_type,
            },
            TaskType::Custom { name, version } => TaskTypeView::Custom {
                name: name@,
                version: version@,
            },
        }
    }
}

impl Clone for TaskType {
    fn clone(&self) -> (copy: Self)
        ensures
            copy@ == self@,
    {
        match self {
            TaskType::DocumentProcessing { document_type, processing_type } =>
                TaskType::DocumentProcessing {
                    document_type: *document_type,
                    processing_type: *processing_type,
                },
            TaskType::TextAnalysis { analysis_type } => TaskType::TextAnalysis {
                analysis_type: *analysis_type,
            },
            TaskType::VectorIndexing { index_type } => TaskType::VectorIndexing {
                index_type: *index_type,
            },
            TaskType::Custom { name, version } => TaskType::Custom {
                name: name.clone(),
                version: version.clone(),
            },
        }
    }
}

impl TaskType {
    /// Whether two kinds are the same kind.
    pub fn same_as(&self, other: &TaskType) -> (same: bool)
        ensures
            same == (self@ == other@),
    {
        match (self, other) {
            (
                TaskType::DocumentProcessing { document_type: d1, processing_type: p1 },
                TaskType::DocumentProcessing { document_type: d2, processing_type: p2 },
            ) => *d1 == *d2 && *p1 == *p2,
            (
                TaskType::TextAnalysis { analysis_type: a1 },
                TaskType::TextAnalysis { analysis_type: a2 },
            ) => *a1 == *a2,
            (
                TaskType::VectorIndexing { index_type: i1 },
                TaskType::VectorIndexing { index_type: i2 },
            ) => *i1 == *i2,
            (
                TaskType::Custom { name: n1, version: v1 },
                TaskType::Custom { name: n2, version: v2 },
            ) => *n1 == *n2 && *v1 == *v2,
            _ => false,
        }
    }

    /// The kind as it is shown to people.
    pub fn to_string(&self) -> (s: String)
        ensures
            s@ == self@.text(),
    {
        match self {
            TaskType::DocumentProcessing { document_type, processing_type } => {
                let mut s = String::from_str("DocumentProcessing(");
                s.append(document_type.as_str());
                s.append(", ");
                s.append(processing_type.as_str());
                s.append(")");
                s
            },
            TaskType::TextAnalysis { analysis_type } => {
                let mut s = String::from_str("TextAnalysis(");
                s.append(analysis_type.as_str());
                s.append(")");
                s
            },
            TaskType::VectorIndexing { index_type } => {
                let mut s = String::from_str("VectorIndexing(");
                s.append(index_type.as_str());
                s.append(")");
                s
            },
            TaskType::Custom { name, version } => {
                let mut s = String::from_str("Custom(");
                s.append(name.as_str());
                s.append(", ");
                s.append(version.as_str());
                s.append(")");
                s
            },
        }
    }

    /// The kind as it is written in the `task-type` header of a message.
    pub fn header_value(&self) -> (s: String)
        ensures
            s@ == self@.header_text(),
    {
        match self {
            TaskType::DocumentProcessing { document_type, processing_type } => {
                let mut s = String::from_str("DocumentProcessing { document_type: ");
                s.append(document_type.as_str());
                s.append(", processing_type: ");
                s.append(processing_type.as_str());
                s.append(" }");
                s
            },
            TaskType::TextAnalysis { analysis_type } => {
                let mut s = String::from_str("TextAnalysis { analysis_type: ");
                s.append(analysis_type.as_str());
                s.append(" }");
                s
            },
            TaskType::VectorIndexing { index_type } => {
                let mut s = String::from_str("VectorIndexing { index_type: ");
                s.append(index_type.as_str());
                s.append(" }");
                s
            },
            TaskType::Custom { name, version } => {
                let quoted_name = quoted(name.as_str());
                let quoted_version = quoted(version.as_str());
                let mut s = String::from_str("Custom { name: ");
                s.append(quoted_name.as_str());
                s.append(", version: ");
                s.append(quoted_version.as_str());
                s.append(" }");
                s
            },
        }
    }
}

/// How a text is to be analysed. The sentiment threshold is a
/// single-precision number, held here as its bit pattern.
#[derive(Debug, PartialEq, Eq)]
pub struct TextAnalysisOptions {
    pub language: Option<String>,
    pub max_keywords: usize,
    pub min_keyword_length: usize,
    pub sentiment_threshold_bits: u32,
}

/// The mathematical value of a [`TextAnalysisOptions`].
pub struct TextAnalysisOptionsView {
    pub language: Option<Seq<char>>,
    pub max_keywords: usize,
    pub min_keyword_length: usize,
    pub sentiment_threshold_bits: u32,
}

impl View for TextAnalysisOptions {
    type V = TextAnalysisOptionsView;

    open spec fn view(&self) -> TextAnalysisOptionsView {
        TextAnalysisOptionsView {
            language: optional_text(self.language),
            max_keywords: self.max_keywords,
            min_keyword_length: self.min_keyword_length,
            sentiment_threshold_bits: self.sentiment_threshold_bits,
        }
    }
}

impl Clone for TextAnalysisOptions {
    fn clone(&self) -> (copy: Self)
        ensures
            copy@ == self@,
    {
        TextAnalysisOptions {
            language: clone_optional_text(&self.language),
            max_keywords: self.max_keywords,
            min_keyword_length: self.min_keyword_length,
            sentiment_threshold_bits: self.sentiment_threshold_bits,
        }
    }
}

/// Bit pattern of the single-precision number 0.1, the default sentiment
/// threshold.
pub const DEFAULT_SENTIMENT_THRESHOLD_BITS: u32 = 0x3DCC_CCCD;

impl Default for TextAnalysisOptions {
    /// No fixed language, at most ten keywords of at least three characters,
    /// and a sentiment threshold of one tenth.
    fn default() -> (options: Self)
        ensures
            options@ == (TextAnalysisOptionsView {
                language: None,
                max_keywords: 10,
                min_keyword_length: 3,
                sentiment_threshold_bits: DEFAULT_SENTIMENT_THRESHOLD_BITS,
            }),
    {
        TextAnalysisOptions {
            language: None,
            max_keywords: 10,
            min_keyword_length: 3,
            sentiment_threshold_bits: DEFAULT_SENTIMENT_THRESHOLD_BITS,
        }
    }
}

/// The data a task works on.
#[derive(Debug, PartialEq, Eq)]
pub enum TaskPayload {
    /// A document and what to do with it.
    Document { document: Document, processing_options: DocumentProcessingOptions },
    /// A text to analyse.
    Text { content: String, analysis_options: TextAnalysisOptions },
    /// Vectors to index. Each component is a single-precision number, held as
    /// its bit pattern.
    Vector { vectors: Vec<Vec<u32>>, metadata: TextMap },
    /// Bytes in a named format.
    Custom { data: Vec<u8>, format: String },
}

/// The mathematical value of a [`TaskPayload`].
pub enum TaskPayloadView {
    Document { document: DocumentView, processing_options: DocumentProcessingOptions },
    Text { content: Seq<char>, analysis_options: TextAnalysisOptionsView },
    Vector { vectors: Seq<Seq<u32>>, metadata: Seq<(Seq<char>, Seq<char>)> },
    Custom { data: Seq<u8>, format: Seq<char> },
}

impl TaskPayloadView {
    /// Whether the payload is of the form that tasks of the given kind carry:
    /// a document for document processing, a text for text analysis, vectors
    /// for vector indexing, and bytes for custom work.
    pub open spec fn fits(self, kind: TaskTypeView) -> bool {
        match (self, kind) {
            (TaskPayloadView::Document { .. }, TaskTypeView::DocumentProcessing { .. }) => true,
            (TaskPayloadView::Text { .. }, TaskTypeView::TextAnalysis { .. }) => true,
            (TaskPayloadView::Vector { .. }, TaskTypeView::VectorIndexing { .. }) => true,
            (TaskPayloadView::Custom { .. }, TaskTypeView::Custom { .. }) => true,
            _ => false,
        }
    }
}

impl View for TaskPayload {
    type V = TaskPayloadView;

    open spec fn view(&self) -> TaskPayloadView {
        match self {
            TaskPayload::Document { document, processing_options } => TaskPayloadView::Document {
                document: document@,
                processing_options: *processing_options,
            },
            TaskPayload::Text { content, analysis_options } => TaskPayloadView::Text {
                content: content@,
                analysis_options: analysis_options@,
            },
            TaskPayload::Vector { vectors, metadata } => TaskPayloadView::Vector {
                vectors: vectors@.map_values(|v: Vec<u32>| v@),
                metadata: metadata@,
            },
            TaskPayload::Custom { data, format } => TaskPayloadView::Custom {
                data: data@,
                format: format@,
            },
        }
    }
}

impl Clone for TaskPayload {
    fn clone(&self) -> (copy: Self)
        ensures
            copy@ == self@,
    {
        match self {
            TaskPayload::Document { document, processing_options } => TaskPayload::Document {
                document: document.clone(),
                processing_options: *processing_options,
            },
            TaskPayload::Text { content, analysis_options } => TaskPayload::Text {
                content: content.clone(),
                analysis_options: analysis_options.clone(),
            },
            TaskPayload::Vector { vectors, metadata } => {
                let copied = vectors.clone();
                assert(copied@.map_values(|v: Vec<u32>| v@) =~= vectors@.map_values(
                    |v: Vec<u32>| v@,
                ));
                TaskPayload::Vector { vectors: copied, metadata: metadata.clone() }
            },
            TaskPayload::Custom { data, format } => TaskPayload::Custom {
                data: data.clone(),
                format: format.clone(),
            },
        }
    }
}

impl TaskPayload {
    /// Whether the payload is of the form that tasks of the given kind carry.
    pub fn matches_kind(&self, kind: &TaskType) -> (fits: bool)
        ensures
            fits == self@.fits(kind@),
    {
        match (self, kind) {
            (TaskPayload::Document { .. }, TaskType::DocumentProcessing { .. }) => true,
            (TaskPayload::Text { .. }, TaskType::TextAnalysis { .. }) => true,
            (TaskPayload::Vector { .. }, TaskType::VectorIndexing { .. }) => true,
            (TaskPayload::Custom { .. }, TaskType::Custom { .. }) => true,
            _ => false,
        }
    }
}

/// The characters of each text of a list.
pub open spec fn text_views(texts: Seq<String>) -> Seq<Seq<char>> {
    texts.map_values(|t: String| t@)
}

/// What a task asks of the worker that is to run it.
#[derive(Debug, PartialEq, Eq)]
pub struct TaskRequirements {
    /// Names of the capabilities the worker must have. The list stands for a
    /// set: a name that occurs twice counts once.
    pub required_capabilities: Vec<String>,
    /// A worker of this type is preferred.
    pub preferred_worker_type: Option<WorkerType>,
    /// A worker whose average processing time is within this limit is preferred.
    pub max_processing_time_ms: Option<u64>,
    /// Memory the task needs, in megabytes.
    pub min_memory_mb: Option<u64>,
}

/// The mathematical value of a [`TaskRequirements`].
pub struct TaskRequirementsView {
    pub required_capabilities: Seq<Seq<char>>,
    pub preferred_worker_type: Option<WorkerTypeView>,
    pub max_processing_time_ms: Option<u64>,
    pub min_memory_mb: Option<u64>,
}

/// The mathematical value of an optional worker type.
pub open spec fn optional_worker_type(worker_type: Option<WorkerType>) -> Option<WorkerTypeView> {
    match worker_type {
        Some(t) => Some(t@),
        None => None,
    }
}

impl View for TaskRequirements {
    type V = TaskRequirementsView;

    open spec fn view(&self) -> TaskRequirementsView {
        TaskRequirementsView {
            required_capabilities: text_views(self.required_capabilities@),
            preferred_worker_type: optional_worker_type(self.preferred_worker_type),
            max_processing_time_ms: self.max_processing_time_ms,
            min_memory_mb: self.min_memory_mb,
        }
    }
}

impl Clone for TaskRequirements {
    fn clone(&self) -> (copy: Self)
        ensures
            copy@ == self@,
    {
        let capabilities = self.required_capabilities.clone();
        assert(text_views(capabilities@) =~= text_views(self.required_capabilities@));
        let preferred = match &self.preferred_worker_type {
            Some(t) => Some(t.clone()),
            None => None,
        };
        TaskRequirements {
            required_capabilities: capabilities,
            preferred_worker_type: preferred,
            max_processing_time_ms: self.max_processing_time_ms,
            min_memory_mb: self.min_memory_mb,
        }
    }
}

impl TaskRequirements {
    /// Requirements that every worker meets.
    pub fn none() -> (requirements: Self)
        ensures
            requirements@ == (TaskRequirementsView {
                required_capabilities: Seq::empty(),
                preferred_worker_type: None,
                max_processing_time_ms: None,
                min_memory_mb: None,
            }),
    {
        let requirements = TaskRequirements {
            required_capabilities: Vec::new(),
            preferred_worker_type: None,
            max_processing_time_ms: None,
            min_memory_mb: None,
        };
        assert(text_views(requirements.required_capabilities@) =~= Seq::<Seq<char>>::empty());
        requirements
    }
}

/// A unit of work.
#[derive(Debug, PartialEq, Eq)]
pub struct Task {
    pub id: TaskId,
    pub task_type: TaskType,
    pub priority: TaskPriority,
    pub status: TaskStatus,
    pub payload: TaskPayload,
    pub requirements: TaskRequirements,
    pub created_at: Timestamp,
    /// The moment after which the task is given up if it is still pending.
    pub deadline: Option<Timestamp>,
    pub retry_count: u32,
    pub max_retries: u32,
    /// Free-form metadata; each value is a JSON text.
    pub metadata: TextMap,
}

/// The mathematical value of a [`Task`].
pub struct TaskView {
    pub id: TaskId,
    pub task_type: TaskTypeView,
    pub priority: TaskPriority,
    pub status: TaskStatus,
    pub payload: TaskPayloadView,
    pub requirements: TaskRequirementsView,
    pub created_at: Timestamp,
    pub deadline: Option<Timestamp>,
    pub retry_count: u32,
    pub max_retries: u32,
    pub metadata: Seq<(Seq<char>, Seq<char>)>,
}

impl View for Task {
    type V = TaskView;

    open spec fn view(&self) -> TaskView {
        TaskView {
            id: self.id,
            task_type: self.task_type@,
            priority: self.priority,
            status: self.status,
            payload: self.payload@,
            requirements: self.requirements@,
            created_at: self.created_at,
            deadline: self.deadline,
            retry_count: self.retry_count,
            max_retries: self.max_retries,
            metadata: self.metadata@,
        }
    }
}

impl Clone for Task {
    fn clone(&self) -> (copy: Self)
        ensures
            copy@ == self@,
    {
        Task {
            id: self.id,
            task_type: self.task_type.clone(),
            priority: self.priority,
            status: self.status,
            payload: self.payload.clone(),
            requirements: self.requirements.clone(),
            created_at: self.created_at,
            deadline: self.deadline,
            retry_count: self.retry_count,
            max_retries: self.max_retries,
            metadata: self.metadata.clone(),
        }
    }
}

/// What kind of result a worker hands back.
#[derive(Debug, Clone, Copy, PartialEq, Eq, Hash, Structural)]
pub enum ResultKind {
    DocumentProcessing,
    TextAnalysis,
    VectorIndexing,
    Custom,
}

/// The outcome of a task's work: an encoded record of the given kind.
#[derive(Debug, PartialEq, Eq)]
pub struct TaskResultData {
    pub kind: ResultKind,
    pub data: Vec<u8>,
    pub format: String,
}

/// The mathematical value of a [`TaskResultData`].
pub struct TaskResultDataView {
    pub kind: ResultKind,
    pub data: Seq<u8>,
    pub format: Seq<char>,
}

impl View for TaskResultData {
    type V = TaskResultDataView;

    open spec fn view(&self) -> TaskResultDataView {
        TaskResultDataView { kind: self.kind, data: self.data@, format: self.format@ }
    }
}

impl Clone for TaskResultData {
    fn clone(&self) -> (copy: Self)
        ensures
            copy@ == self@,
    {
        TaskResultData { kind: self.kind, data: self.data.clone(), format: self.format.clone() }
    }
}

/// The mathematical value of an optional result record.
pub open spec fn optional_result_data(data: Option<TaskResultData>) -> Option<TaskResultDataView> {
    match data {
        Some(d) => Some(d@),
        None => None,
    }
}

/// What a worker reports when it is done with a task.
#[derive(Debug, PartialEq, Eq)]
pub struct TaskResult {
    pub task_id: TaskId,
    pub status: TaskStatus,
    pub result: Option<TaskResultData>,
    pub error: Option<String>,
    pub processing_time_ms: u64,
    pub completed_at: Timestamp,
    /// Free-form metadata; each value is a JSON text.
    pub metadata: TextMap,
}

/// The mathematical value of a [`TaskResult`].
pub struct TaskResultView {
    pub task_id: TaskId,
    pub status: TaskStatus,
    pub result: Option<TaskResultDataView>,
    pub error: Option<Seq<char>>,
    pub processing_time_ms: u64,
    pub completed_at: Timestamp,
    pub metadata: Seq<(Seq<char>, Seq<char>)>,
}

impl View for TaskResult {
    type V = TaskResultView;

    open spec fn view(&self) -> TaskResultView {
        TaskResultView {
            task_id: self.task_id,
            status: self.status,
            result: optional_result_data(self.result),
            error: optional_text(self.error),
            processing_time_ms: self.processing_time_ms,
            completed_at: self.completed_at,
            metadata: self.metadata@,
        }
    }
}

impl Clone for TaskResult {
    fn clone(&self) -> (copy: Self)
        ensures
            copy@ == self@,
    {
        let result = match &self.result {
            Some(d) => Some(d.clone()),
            None => None,
        };
        TaskResult {
            task_id: self.task_id,
            status: self.status,
            result,
            error: clone_optional_text(&self.error),
            processing_time_ms: self.processing_time_ms,
            completed_at: self.completed_at,
            metadata: self.metadata.clone(),
        }
    }
}

} // verus!
