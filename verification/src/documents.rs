//! What the swarm knows of documents before it opens them: their format by
//! name, their media type, and how long they are likely to take.

use crate::clock::now_millis;
use crate::document::{Document, DocumentContent, DocumentProcessingOptions, DocumentView};
use crate::ident::fresh_id;
use crate::json::{json_string, quote};
use crate::textmap::{lemma_absent, TextMap};
use crate::task::TextAnalysisOptions;
use crate::text::{decimal, lowercase, str_eq, to_decimal, to_lowercase};
use crate::types::DocumentType;
use vstd::prelude::*;

verus! {

/// The format that a file extension in lower case stands for.
pub open spec fn extension_type(extension: Seq<char>) -> DocumentType {
    if extension == "pdf"@ {
        DocumentType::Pdf
    } else if extension == "doc"@ || extension == "docx"@ {
        DocumentType::Word
    } else if extension == "txt"@ {
        DocumentType::Text
    } else if extension == "html"@ || extension == "htm"@ {
        DocumentType::Html
    } else if extension == "md"@ || extension == "markdown"@ {
        DocumentType::Markdown
    } else if extension == "xls"@ || extension == "xlsx"@ {
        DocumentType::Excel
    } else if extension == "ppt"@ || extension == "pptx"@ {
        DocumentType::PowerPoint
    } else if extension == "jpg"@ || extension == "jpeg"@ || extension == "png"@ || extension
        == "gif"@ || extension == "bmp"@ {
        DocumentType::Image
    } else if extension == "mp3"@ || extension == "wav"@ || extension == "flac"@ {
        DocumentType::Audio
    } else if extension == "mp4"@ || extension == "avi"@ || extension == "mov"@ {
        DocumentType::Video
    } else {
        DocumentType::Unknown
    }
}

/// The format of a file with the given extension, without regard to case; the
/// unknown format for a file without extension.
pub open spec fn type_of_extension(extension: Option<Seq<char>>) -> DocumentType {
    match extension {
        Some(e) => extension_type(lowercase(e)),
        None => DocumentType::Unknown,
    }
}

/// The format that a file extension in lower case stands for.
pub fn document_type_for_extension(extension: &str) -> (kind: DocumentType)
    ensures
        kind == extension_type(extension@),
{
    if str_eq(extension, "pdf") {
        DocumentType::Pdf
    } else if str_eq(extension, "doc") || str_eq(extension, "docx") {
        DocumentType::Word
    } else if str_eq(extension, "txt") {
        DocumentType::Text
    } else if str_eq(extension, "html") || str_eq(extension, "htm") {
        DocumentType::Html
    } else if str_eq(extension, "md") || str_eq(extension, "markdown") {
        DocumentType::Markdown
    } else if str_eq(extension, "xls") || str_eq(extension, "xlsx") {
        DocumentType::Excel
    } else if str_eq(extension, "ppt") || str_eq(extension, "pptx") {
        DocumentType::PowerPoint
    } else if str_eq(extension, "jpg") || str_eq(extension, "jpeg") || str_eq(extension, "png")
        || str_eq(extension, "gif") || str_eq(extension, "bmp") {
        DocumentType::Image
    } else if str_eq(extension, "mp3") || str_eq(extension, "wav") || str_eq(extension, "flac") {
        DocumentType::Audio
    } else if str_eq(extension, "mp4") || str_eq(extension, "avi") || str_eq(extension, "mov") {
        DocumentType::Video
    } else {
        DocumentType::Unknown
    }
}

/// The format of a file with the given extension, if it has one.
pub fn detect_document_type(extension: Option<&str>) -> (kind: DocumentType)
    ensures
        kind == type_of_extension(
            match extension {
                Some(e) => Some(e@),
                None => None,
            },
        ),
{
    match extension {
        Some(e) => {
            let lower = to_lowercase(e);
            document_type_for_extension(lower.as_str())
        },
        None => DocumentType::Unknown,
    }
}

/// Calls `Path::extension` on the path with the given text. What counts as
/// the name of the file, and so as its extension, depends on the platform,
/// so nothing is said of the result.
#[verifier::external_body]
pub(crate) fn path_extension(path: &str) -> (extension: Option<String>) {
    match std::path::Path::new(path).extension() {
        Some(extension) => Some(extension.to_string_lossy().into_owned()),
        None => None,
    }
}

/// Calls `Path::file_name` on the path with the given text. What counts as
/// the name of the file depends on the platform, so nothing is said of the
/// result.
#[verifier::external_body]
pub(crate) fn path_file_name(path: &str) -> (name: Option<String>) {
    match std::path::Path::new(path).file_name() {
        Some(name) => Some(name.to_string_lossy().into_owned()),
        None => None,
    }
}

/// The format of the file at the given path, judged by the extension that the
/// platform sees in the path.
pub fn detect_document_type_from_path(path: &str) -> (kind: DocumentType)
    ensures
        exists|extension: Option<Seq<char>>| kind == #[trigger] type_of_extension(extension),
{
    let extension = path_extension(path);
    match &extension {
        Some(e) => {
            let kind = detect_document_type(Some(e.as_str()));
            assert(kind == type_of_extension(Some(e@)));
            kind
        },
        None => {
            assert(DocumentType::Unknown == type_of_extension(None));
            DocumentType::Unknown
        },
    }
}

/// The media type that goes with a format.
pub fn get_mime_type(document_type: &DocumentType) -> (media_type: &'static str)
    ensures
        media_type@ == document_type.media_type(),
{
    document_type.mime_type()
}

/// The time in milliseconds that a document of the given format takes at
/// least.
pub open spec fn base_time_ms(document_type: DocumentType) -> nat {
    match document_type {
        DocumentType::Pdf => 200,
        DocumentType::Word => 150,
        DocumentType::Text => 10,
        DocumentType::Html => 50,
        DocumentType::Markdown => 25,
        DocumentType::Excel => 300,
        DocumentType::PowerPoint => 250,
        DocumentType::Image => 100,
        DocumentType::Audio => 500,
        DocumentType::Video => 1000,
        DocumentType::Unknown => 100,
    }
}

/// The time in milliseconds that a document of the given format and size is
/// likely to take: the base time of the format and one millisecond for every
/// ten kibibytes, but at most ten seconds.
pub open spec fn estimated_time_ms(document_type: DocumentType, size_bytes: nat) -> nat {
    let total = base_time_ms(document_type) + size_bytes / 10240;
    if total < 10000 {
        total
    } else {
        10000
    }
}

/// The time in milliseconds that a document of the given format and size is
/// likely to take.
pub fn estimate_processing_time(document_type: &DocumentType, size_bytes: usize) -> (ms: u64)
    ensures
        ms == estimated_time_ms(*document_type, size_bytes as nat),
{
    let base: u64 = match document_type {
        DocumentType::Pdf => 200,
        DocumentType::Word => 150,
        DocumentType::Text => 10,
        DocumentType::Html => 50,
        DocumentType::Markdown => 25,
        DocumentType::Excel => 300,
        DocumentType::PowerPoint => 250,
        DocumentType::Image => 100,
        DocumentType::Audio => 500,
        DocumentType::Video => 1000,
        DocumentType::Unknown => 100,
    };
    let by_size: u64 = (size_bytes / 10240) as u64;
    if by_size >= 10000 {
        10000
    } else {
        let total = base + by_size;
        if total < 10000 {
            total
        } else {
            10000
        }
    }
}

/// How documents are processed.
#[derive(Debug, PartialEq, Eq)]
pub struct DocumentProcessingConfig {
    /// The largest document that is processed, in bytes.
    pub max_file_size: usize,
    /// The formats that are processed.
    pub supported_types: Vec<DocumentType>,
    pub processing_options: DocumentProcessingOptions,
    pub text_analysis_options: TextAnalysisOptions,
    pub enable_parallel_processing: bool,
    pub max_concurrent_documents: usize,
}

impl Default for DocumentProcessingConfig {
    /// Documents of up to a hundred mebibytes in the five formats of text,
    /// ten at a time.
    fn default() -> (config: Self)
        ensures
            config.max_file_size == 104_857_600,
            config.supported_types@ == seq![
                DocumentType::Pdf,
                DocumentType::Word,
                DocumentType::Text,
                DocumentType::Html,
                DocumentType::Markdown,
            ],
            config.enable_parallel_processing,
            config.max_concurrent_documents == 10,
    {
        let mut supported_types: Vec<DocumentType> = Vec::new();
        supported_types.push(DocumentType::Pdf);
        supported_types.push(DocumentType::Word);
        supported_types.push(DocumentType::Text);
        supported_types.push(DocumentType::Html);
        supported_types.push(DocumentType::Markdown);
        assert(supported_types@ =~= seq![
            DocumentType::Pdf,
            DocumentType::Word,
            DocumentType::Text,
            DocumentType::Html,
            DocumentType::Markdown,
        ]);
        DocumentProcessingConfig {
            max_file_size: 104_857_600,
            supported_types,
            processing_options: DocumentProcessingOptions::default(),
            text_analysis_options: TextAnalysisOptions::default(),
            enable_parallel_processing: true,
            max_concurrent_documents: 10,
        }
    }
}

/// Why a document was not processed.
#[derive(Debug, PartialEq, Eq)]
pub enum DocumentError {
    /// There is no file at the path.
    FileNotFound { path: String },
    /// Documents of this format are not processed.
    UnsupportedDocumentType { document_type: String },
    /// The document could not be processed.
    ProcessingFailed { reason: String },
    /// The file could not be read.
    IoError(String),
    /// The document could not be written or read.
    SerializationError(String),
}

/// The mathematical value of a [`DocumentError`].
pub enum DocumentErrorView {
    FileNotFound { path: Seq<char> },
    UnsupportedDocumentType { document_type: Seq<char> },
    ProcessingFailed { reason: Seq<char> },
    IoError(Seq<char>),
    SerializationError(Seq<char>),
}

impl DocumentErrorView {
    /// The error in words.
    pub open spec fn text(self) -> Seq<char> {
        match self {
            DocumentErrorView::FileNotFound { path } => "File not found: "@ + path,
            DocumentErrorView::UnsupportedDocumentType { document_type } =>
                "Unsupported document type: "@ + document_type,
            DocumentErrorView::ProcessingFailed { reason } => "Processing failed: "@ + reason,
            DocumentErrorView::IoError(message) => "IO error: "@ + message,
            DocumentErrorView::SerializationError(message) => "Serialization error: "@ + message,
        }
    }
}

impl View for DocumentError {
    type V = DocumentErrorView;

    open spec fn view(&self) -> DocumentErrorView {
        match self {
            DocumentError::FileNotFound { path } => DocumentErrorView::FileNotFound { path: path@ },
            DocumentError::UnsupportedDocumentType { document_type } =>
                DocumentErrorView::UnsupportedDocumentType { document_type: document_type@ },
            DocumentError::ProcessingFailed { reason } => DocumentErrorView::ProcessingFailed {
                reason: reason@,
            },
            DocumentError::IoError(message) => DocumentErrorView::IoError(message@),
            DocumentError::SerializationError(message) => DocumentErrorView::SerializationError(
                message@,
            ),
        }
    }
}

impl DocumentError {
    /// The error in words.
    pub fn to_string(&self) -> (text: String)
        ensures
            text@ == self@.text(),
    {
        let (prefix, detail): (&'static str, &String) = match self {
            DocumentError::FileNotFound { path } => ("File not found: ", path),
            DocumentError::UnsupportedDocumentType { document_type } => (
                "Unsupported document type: ",
                document_type,
            ),
            DocumentError::ProcessingFailed { reason } => ("Processing failed: ", reason),
            DocumentError::IoError(message) => ("IO error: ", message),
            DocumentError::SerializationError(message) => ("Serialization error: ", message),
        };
        let mut text = String::from_str(prefix);
        text.append(detail.as_str());
        text
    }
}

/// Why a document is refused, if it is: it is larger than the configuration
/// allows, or its format is not among those that the configuration supports.
/// The size is looked at first.
pub open spec fn document_refusal(
    document: crate::document::DocumentView,
    max_file_size: usize,
    supported_types: Seq<DocumentType>,
) -> Option<DocumentErrorView> {
    if document.size_bytes > max_file_size {
        Some(
            DocumentErrorView::ProcessingFailed {
                reason: "Document too large: "@ + decimal(document.size_bytes as nat)
                    + " bytes (max: "@ + decimal(max_file_size as nat) + " bytes)"@,
            },
        )
    } else if !supported_types.contains(document.document_type) {
        Some(
            DocumentErrorView::UnsupportedDocumentType {
                document_type: document.document_type.name(),
            },
        )
    } else {
        None
    }
}

/// Whether a format is among the given formats.
pub fn contains_type(types: &Vec<DocumentType>, wanted: DocumentType) -> (found: bool)
    ensures
        found == types@.contains(wanted),
{
    let mut i: usize = 0;
    while i < types.len()
        invariant
            i <= types@.len(),
            forall|j: int| 0 <= j < i ==> types@[j] != wanted,
        decreases types@.len() - i,
    {
        if types[i] == wanted {
            return true;
        }
        i = i + 1;
    }
    false
}

/// Checks that a document can be processed under a configuration: it must
/// not be larger than the configuration allows, and its format must be among
/// those that the configuration supports.
pub fn validate_document(document: &Document, config: &DocumentProcessingConfig) -> (outcome: Result<
    (),
    DocumentError,
>)
    ensures
        match outcome {
            Ok(()) => document_refusal(
                document@,
                config.max_file_size,
                config.supported_types@,
            ).is_none(),
            Err(error) => document_refusal(
                document@,
                config.max_file_size,
                config.supported_types@,
            ) == Some(error@),
        },
{
    if document.size_bytes > config.max_file_size {
        let size_text = to_decimal(document.size_bytes as u64);
        let max_text = to_decimal(config.max_file_size as u64);
        let mut reason = String::from_str("Document too large: ");
        reason.append(size_text.as_str());
        reason.append(" bytes (max: ");
        reason.append(max_text.as_str());
        reason.append(" bytes)");
        return Err(DocumentError::ProcessingFailed { reason });
    }
    if !contains_type(&config.supported_types, document.document_type) {
        return Err(
            DocumentError::UnsupportedDocumentType {
                document_type: String::from_str(document.document_type.as_str()),
            },
        );
    }
    Ok(())
}

/// The metadata that a document gets from the file it is made of: the path,
/// the size and the media type, each as a JSON text.
pub open spec fn path_metadata(path: Seq<char>, size_bytes: usize, document_type: DocumentType) -> Seq<
    (Seq<char>, Seq<char>),
> {
    seq![
        ("file_path"@, json_string(path)),
        ("file_size"@, decimal(size_bytes as nat)),
        ("mime_type"@, json_string(document_type.media_type())),
    ]
}

/// Makes a document of a file, given what the file system says of it and
/// what it holds. The format goes by the extension, a file without a name
/// is called `unknown`, and the metadata say where the document came from.
/// The document gets a fresh identifier and counts as made now.
pub fn create_document_from_path(
    path: &str,
    file_name: Option<&str>,
    extension: Option<&str>,
    size_bytes: usize,
    content: DocumentContent,
) -> (document: Document)
    ensures
        document.id != 0,
        document.created_at >= 0,
        document@ == (DocumentView {
            id: document.id,
            filename: match file_name {
                Some(name) => name@,
                None => "unknown"@,
            },
            document_type: type_of_extension(
                match extension {
                    Some(e) => Some(e@),
                    None => None,
                },
            ),
            content: content@,
            metadata: path_metadata(
                path@,
                size_bytes,
                type_of_extension(
                    match extension {
                        Some(e) => Some(e@),
                        None => None,
                    },
                ),
            ),
            created_at: document.created_at,
            size_bytes,
        }),
{
    let document_type = detect_document_type(extension);
    let mut metadata = TextMap::new();
    proof {
        reveal_strlit("file_path");
        reveal_strlit("file_size");
        reveal_strlit("mime_type");
        lemma_absent(metadata@, "file_path"@);
    }
    metadata.push("file_path", quote(path));
    proof {
        assert(metadata@[0].0 == "file_path"@);
        assert("file_path"@[5] == 'p' && "file_size"@[5] == 's');
        lemma_absent(metadata@, "file_size"@);
    }
    metadata.push("file_size", to_decimal(size_bytes as u64));
    proof {
        assert(metadata@[0].0 == "file_path"@ && metadata@[1].0 == "file_size"@);
        assert("mime_type"@[0] == 'm' && "file_path"@[0] == 'f' && "file_size"@[0] == 'f');
        lemma_absent(metadata@, "mime_type"@);
    }
    metadata.push("mime_type", quote(get_mime_type(&document_type)));
    assert(metadata@ =~= path_metadata(path@, size_bytes, document_type));
    Document {
        id: fresh_id(),
        filename: match file_name {
            Some(name) => String::from_str(name),
            None => String::from_str("unknown"),
        },
        document_type,
        content,
        metadata,
        created_at: now_millis(),
        size_bytes,
    }
}

} // verus!
