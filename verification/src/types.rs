//! The data model shared by every component of the swarm: identifiers,
//! task and worker classifications, and their textual forms.

use crate::text::{after_last, last_segment, lowercase, str_eq, to_lowercase};
use vstd::prelude::*;

verus! {

/// Identifier of a task: the 128-bit value of its UUID.
pub type TaskId = u128;

/// Identifier of a worker: the 128-bit value of its UUID.
pub type WorkerId = u128;

/// Identifier of a document: the 128-bit value of its UUID.
pub type DocumentId = u128;

/// Identifier of a message: the 128-bit value of its UUID.
pub type MessageId = u128;

/// A point in time, in milliseconds since the Unix epoch.
pub type Timestamp = i64;

/// Urgency of a task. Higher priorities are always dispatched first.
#[derive(Debug, Clone, Copy, PartialEq, Eq, Hash, PartialOrd, Ord, Structural)]
pub enum TaskPriority {
    Low,
    Normal,
    High,
    Critical,
}

impl TaskPriority {
    /// Position of the priority in the total order `Low < Normal < High < Critical`.
    pub open spec fn level(self) -> u8 {
        match self {
            TaskPriority::Low => 1,
            TaskPriority::Normal => 2,
            TaskPriority::High => 3,
            TaskPriority::Critical => 4,
        }
    }

    /// The name of the priority as it is written in message headers.
    pub open spec fn name(self) -> Seq<char> {
        match self {
            TaskPriority::Low => "Low"@,
            TaskPriority::Normal => "Normal"@,
            TaskPriority::High => "High"@,
            TaskPriority::Critical => "Critical"@,
        }
    }

    /// Numeric level of the priority, from 1 (`Low`) to 4 (`Critical`).
    pub fn rank(self) -> (r: u8)
        ensures
            r == self.level(),
    {
        match self {
            TaskPriority::Low => 1,
            TaskPriority::Normal => 2,
            TaskPriority::High => 3,
            TaskPriority::Critical => 4,
        }
    }

    /// The name of the priority.
    pub fn as_str(&self) -> (s: &'static str)
        ensures
            s@ == self.name(),
    {
        match self {
            TaskPriority::Low => "Low",
            TaskPriority::Normal => "Normal",
            TaskPriority::High => "High",
            TaskPriority::Critical => "Critical",
        }
    }

    /// The name of the priority, as a text of its own.
    pub fn to_string(&self) -> (s: String)
        ensures
            s@ == self.name(),
    {
        String::from_str(self.as_str())
    }
}

/// Where a task stands in its life cycle.
#[derive(Debug, Clone, Copy, PartialEq, Eq, Hash, Structural)]
pub enum TaskStatus {
    Pending,
    Assigned,
    Processing,
    Completed,
    Failed,
    Cancelled,
    Retrying,
}

impl TaskStatus {
    /// The name of the status.
    pub open spec fn name(self) -> Seq<char> {
        match self {
            TaskStatus::Pending => "Pending"@,
            TaskStatus::Assigned => "Assigned"@,
            TaskStatus::Processing => "Processing"@,
            TaskStatus::Completed => "Completed"@,
            TaskStatus::Failed => "Failed"@,
            TaskStatus::Cancelled => "Cancelled"@,
            TaskStatus::Retrying => "Retrying"@,
        }
    }

    /// A terminal status is never left again.
    pub open spec fn terminal(self) -> bool {
        self == TaskStatus::Completed || self == TaskStatus::Failed || self
            == TaskStatus::Cancelled
    }

    /// Whether the status is terminal.
    pub fn is_terminal(&self) -> (b: bool)
        ensures
            b == self.terminal(),
    {
        match self {
            TaskStatus::Completed | TaskStatus::Failed | TaskStatus::Cancelled => true,
            _ => false,
        }
    }

    /// The name of the status.
    pub fn as_str(&self) -> (s: &'static str)
        ensures
            s@ == self.name(),
    {
        match self {
            TaskStatus::Pending => "Pending",
            TaskStatus::Assigned => "Assigned",
            TaskStatus::Processing => "Processing",
            TaskStatus::Completed => "Completed",
            TaskStatus::Failed => "Failed",
            TaskStatus::Cancelled => "Cancelled",
            TaskStatus::Retrying => "Retrying",
        }
    }

    /// The name of the status, as a text of its own.
    pub fn to_string(&self) -> (s: String)
        ensures
            s@ == self.name(),
    {
        String::from_str(self.as_str())
    }
}

/// The formats of document the swarm distinguishes.
#[derive(Debug, Clone, Copy, PartialEq, Eq, Hash, Structural)]
pub enum DocumentType {
    Pdf,
    Word,
    Text,
    Html,
    Markdown,
    Excel,
    PowerPoint,
    Image,
    Audio,
    Video,
    Unknown,
}

/// What is to be done with a document.
#[derive(Debug, Clone, Copy, PartialEq, Eq, Hash, Structural)]
pub enum DocumentProcessingType {
    TextExtraction,
    MetadataExtraction,
    LanguageDetection,
    KeywordExtraction,
    SentimentAnalysis,
    Classification,
    VectorEmbedding,
}

impl DocumentProcessingType {
    /// The identifier of the variant.
    pub open spec fn name(self) -> Seq<char> {
        match self {
            DocumentProcessingType::TextExtraction => "TextExtraction"@,
            DocumentProcessingType::MetadataExtraction => "MetadataExtraction"@,
            DocumentProcessingType::LanguageDetection => "LanguageDetection"@,
            DocumentProcessingType::KeywordExtraction => "KeywordExtraction"@,
            DocumentProcessingType::SentimentAnalysis => "SentimentAnalysis"@,
            DocumentProcessingType::Classification => "Classification"@,
            DocumentProcessingType::VectorEmbedding => "VectorEmbedding"@,
        }
    }

    /// The identifier of the variant.
    pub fn as_str(&self) -> (s: &'static str)
        ensures
            s@ == self.name(),
    {
        match self {
            DocumentProcessingType::TextExtraction => "TextExtraction",
            DocumentProcessingType::MetadataExtraction => "MetadataExtraction",
            DocumentProcessingType::LanguageDetection => "LanguageDetection",
            DocumentProcessingType::KeywordExtraction => "KeywordExtraction",
            DocumentProcessingType::SentimentAnalysis => "SentimentAnalysis",
            DocumentProcessingType::Classification => "Classification",
            DocumentProcessingType::VectorEmbedding => "VectorEmbedding",
        }
    }
}

/// The analyses that can be run over a text.
#[derive(Debug, Clone, Copy, PartialEq, Eq, Hash, Structural)]
pub enum TextAnalysisType {
    LanguageDetection,
    KeywordExtraction,
    SentimentAnalysis,
    NamedEntityRecognition,
    TopicModeling,
    Summarization,
}

impl TextAnalysisType {
    /// The identifier of the variant.
    pub open spec fn name(self) -> Seq<char> {
        match self {
            TextAnalysisType::LanguageDetection => "LanguageDetection"@,
            TextAnalysisType::KeywordExtraction => "KeywordExtraction"@,
            TextAnalysisType::SentimentAnalysis => "SentimentAnalysis"@,
            TextAnalysisType::NamedEntityRecognition => "NamedEntityRecognition"@,
            TextAnalysisType::TopicModeling => "TopicModeling"@,
            TextAnalysisType::Summarization => "Summarization"@,
        }
    }

    /// The identifier of the variant.
    pub fn as_str(&self) -> (s: &'static str)
        ensures
            s@ == self.name(),
    {
        match self {
            TextAnalysisType::LanguageDetection => "LanguageDetection",
            TextAnalysisType::KeywordExtraction => "KeywordExtraction",
            TextAnalysisType::SentimentAnalysis => "SentimentAnalysis",
            TextAnalysisType::NamedEntityRecognition => "NamedEntityRecognition",
            TextAnalysisType::TopicModeling => "TopicModeling",
            TextAnalysisType::Summarization => "Summarization",
        }
    }
}

/// The kinds of vector index a task can ask for.
#[derive(Debug, Clone, Copy, PartialEq, Eq, Hash, Structural)]
pub enum VectorIndexType {
    DenseEmbedding,
    SparseEmbedding,
    HybridEmbedding,
    SemanticSearch,
}

impl VectorIndexType {
    /// The identifier of the variant.
    pub open spec fn name(self) -> Seq<char> {
        match self {
            VectorIndexType::DenseEmbedding => "DenseEmbedding"@,
            VectorIndexType::SparseEmbedding => "SparseEmbedding"@,
            VectorIndexType::HybridEmbedding => "HybridEmbedding"@,
            VectorIndexType::SemanticSearch => "SemanticSearch"@,
        }
    }

    /// The identifier of the variant.
    pub fn as_str(&self) -> (s: &'static str)
        ensures
            s@ == self.name(),
    {
        match self {
            VectorIndexType::DenseEmbedding => "DenseEmbedding",
            VectorIndexType::SparseEmbedding => "SparseEmbedding",
            VectorIndexType::HybridEmbedding => "HybridEmbedding",
            VectorIndexType::SemanticSearch => "SemanticSearch",
        }
    }
}

} // verus!

verus! {

impl DocumentType {
    /// The identifier of the variant, as it is written in message headers.
    pub open spec fn name(self) -> Seq<char> {
        match self {
            DocumentType::Pdf => "Pdf"@,
            DocumentType::Word => "Word"@,
            DocumentType::Text => "Text"@,
            DocumentType::Html => "Html"@,
            DocumentType::Markdown => "Markdown"@,
            DocumentType::Excel => "Excel"@,
            DocumentType::PowerPoint => "PowerPoint"@,
            DocumentType::Image => "Image"@,
            DocumentType::Audio => "Audio"@,
            DocumentType::Video => "Video"@,
            DocumentType::Unknown => "Unknown"@,
        }
    }

    /// The name of the format as it is shown to people.
    pub open spec fn label(self) -> Seq<char> {
        match self {
            DocumentType::Pdf => "PDF"@,
            DocumentType::Word => "Word"@,
            DocumentType::Text => "Text"@,
            DocumentType::Html => "HTML"@,
            DocumentType::Markdown => "Markdown"@,
            DocumentType::Excel => "Excel"@,
            DocumentType::PowerPoint => "PowerPoint"@,
            DocumentType::Image => "Image"@,
            DocumentType::Audio => "Audio"@,
            DocumentType::Video => "Video"@,
            DocumentType::Unknown => "Unknown"@,
        }
    }

    /// The media type that goes with the format.
    pub open spec fn media_type(self) -> Seq<char> {
        match self {
            DocumentType::Pdf => "application/pdf"@,
            DocumentType::Word =>
                "application/vnd.openxmlformats-officedocument.wordprocessingml.document"@,
            DocumentType::Text => "text/plain"@,
            DocumentType::Html => "text/html"@,
            DocumentType::Markdown => "text/markdown"@,
            DocumentType::Excel =>
                "application/vnd.openxmlformats-officedocument.spreadsheetml.sheet"@,
            DocumentType::PowerPoint =>
                "application/vnd.openxmlformats-officedocument.presentationml.presentation"@,
            DocumentType::Image => "image/*"@,
            DocumentType::Audio => "audio/*"@,
            DocumentType::Video => "video/*"@,
            DocumentType::Unknown => "application/octet-stream"@,
        }
    }

    /// The format that the built-in extraction worker takes a lower-case file
    /// extension for. It knows five formats; everything else is `Unknown`.
    pub open spec fn of_extension(extension: Seq<char>) -> DocumentType {
        if extension == "pdf"@ {
            DocumentType::Pdf
        } else if extension == "doc"@ || extension == "docx"@ {
            DocumentType::Word
        } else if extension == "txt"@ {
            DocumentType::Text
        } else if extension == "html"@ || extension == "htm"@ {
            DocumentType::Html
        } else if extension == "md"@ || extension == "markdown"@ {
            DocumentType::Markdown
        } else {
            DocumentType::Unknown
        }
    }

    /// Time in milliseconds that the built-in extraction worker allows for a
    /// document of this format.
    pub open spec fn extraction_time_ms(self) -> u64 {
        match self {
            DocumentType::Pdf => 200,
            DocumentType::Word => 150,
            DocumentType::Text => 50,
            DocumentType::Html => 100,
            DocumentType::Markdown => 75,
            _ => 100,
        }
    }

    /// The identifier of the variant.
    pub fn as_str(&self) -> (s: &'static str)
        ensures
            s@ == self.name(),
    {
        match self {
            DocumentType::Pdf => "Pdf",
            DocumentType::Word => "Word",
            DocumentType::Text => "Text",
            DocumentType::Html => "Html",
            DocumentType::Markdown => "Markdown",
            DocumentType::Excel => "Excel",
            DocumentType::PowerPoint => "PowerPoint",
            DocumentType::Image => "Image",
            DocumentType::Audio => "Audio",
            DocumentType::Video => "Video",
            DocumentType::Unknown => "Unknown",
        }
    }

    /// The name of the format as it is shown to people.
    pub fn to_string(&self) -> (s: String)
        ensures
            s@ == self.label(),
    {
        let label: &'static str = match self {
            DocumentType::Pdf => "PDF",
            DocumentType::Word => "Word",
            DocumentType::Text => "Text",
            DocumentType::Html => "HTML",
            DocumentType::Markdown => "Markdown",
            DocumentType::Excel => "Excel",
            DocumentType::PowerPoint => "PowerPoint",
            DocumentType::Image => "Image",
            DocumentType::Audio => "Audio",
            DocumentType::Video => "Video",
            DocumentType::Unknown => "Unknown",
        };
        String::from_str(label)
    }

    /// The format for a file extension that is already in lower case.
    pub fn from_extension(extension: &str) -> (t: DocumentType)
        ensures
            t == DocumentType::of_extension(extension@),
    {
        if str_eq(extension, "pdf") {
            DocumentType::Pdf
        } else if str_eq(extension, "doc") || str_eq(extension, "docx") {
            DocumentType::Word
        } else if str_eq(extension, "txt") {
            DocumentType::Text
        } else if str_eq(extension, "html") || str_eq(extension, "htm") {
            DocumentType::Html
        } else if str_eq(extension, "md") || str_eq(extension, "markdown") {
            DocumentType::Markdown
        } else {
            DocumentType::Unknown
        }
    }

    /// The format of a file, judged by what follows the last dot of its name
    /// (by the whole name where it has no dot), without regard to case.
    pub fn from_filename(filename: &str) -> (t: DocumentType)
        ensures
            t == DocumentType::of_extension(lowercase(after_last(filename@, '.'))),
    {
        let extension = last_segment(filename, '.');
        let lower = to_lowercase(extension);
        DocumentType::from_extension(lower.as_str())
    }

    /// The media type that goes with the format.
    pub fn mime_type(&self) -> (s: &'static str)
        ensures
            s@ == self.media_type(),
    {
        match self {
            DocumentType::Pdf => "application/pdf",
            DocumentType::Word =>
                "application/vnd.openxmlformats-officedocument.wordprocessingml.document",
            DocumentType::Text => "text/plain",
            DocumentType::Html => "text/html",
            DocumentType::Markdown => "text/markdown",
            DocumentType::Excel =>
                "application/vnd.openxmlformats-officedocument.spreadsheetml.sheet",
            DocumentType::PowerPoint =>
                "application/vnd.openxmlformats-officedocument.presentationml.presentation",
            DocumentType::Image => "image/*",
            DocumentType::Audio => "audio/*",
            DocumentType::Video => "video/*",
            DocumentType::Unknown => "application/octet-stream",
        }
    }

    /// Time in milliseconds that the built-in extraction worker allows for a
    /// document of this format.
    pub fn estimated_processing_time_ms(&self) -> (ms: u64)
        ensures
            ms == self.extraction_time_ms(),
    {
        match self {
            DocumentType::Pdf => 200,
            DocumentType::Word => 150,
            DocumentType::Text => 50,
            DocumentType::Html => 100,
            DocumentType::Markdown => 75,
            _ => 100,
        }
    }
}

} // verus!
