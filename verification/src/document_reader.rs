//! The document reader: what it takes for a document, what it has read, and
//! what work it plans for a document.
//!
//! The reader does not touch the file system itself. Whoever walks the
//! directories tells it what the file system says of a file, and hands it the
//! content of the files that it wants.

use crate::clock::{rfc3339, timestamp_text};
use crate::document::{Document, DocumentContent, DocumentView};
use crate::documents::{
    detect_document_type, path_extension, type_of_extension, DocumentError, DocumentErrorView,
};
use crate::ident::fresh_id;
use crate::json::{json_string, quote};
use crate::patterns::{
    excluded, included, matches_exclude_patterns, matches_include_patterns, optional_name,
};
use crate::task::text_views;
use crate::text::{decimal, lowercase, to_decimal, to_lowercase};
use crate::textmap::{lemma_absent, TextMap};
use crate::types::{DocumentId, DocumentType, TaskId, Timestamp};
use vstd::prelude::*;

verus! {

/// How documents are looked for.
#[derive(Debug, PartialEq, Eq)]
pub struct DocumentReaderConfig {
    /// The directories in which documents are looked for.
    pub watch_directories: Vec<String>,
    /// The extensions of the files that are taken for documents, in lower
    /// case.
    pub supported_extensions: Vec<String>,
    /// The largest file that is read, in bytes.
    pub max_file_size: usize,
    /// How long to wait between two scans, in milliseconds.
    pub scan_interval_ms: u64,
    /// How many documents are handed on at a time.
    pub batch_size: usize,
    /// Whether directories within the directories are looked into.
    pub recursive_scan: bool,
    /// The patterns of the files that are let in.
    pub include_patterns: Vec<String>,
    /// The patterns of the files that are kept out.
    pub exclude_patterns: Vec<String>,
    /// The subject on which documents are announced.
    pub nats_subject: String,
}

impl Default for DocumentReaderConfig {
    /// Text, Markdown, PDF, Word and HTML files of up to a hundred mebibytes
    /// from `./test-data`, hidden files left out, looked for every second.
    fn default() -> (config: Self)
        ensures
            text_views(config.watch_directories@) == seq!["./test-data"@],
            text_views(config.supported_extensions@) == seq![
                "txt"@,
                "md"@,
                "pdf"@,
                "docx"@,
                "html"@,
            ],
            config.max_file_size == 104_857_600,
            config.scan_interval_ms == 1000,
            config.batch_size == 10,
            config.recursive_scan,
            text_views(config.include_patterns@) == seq!["*"@],
            text_views(config.exclude_patterns@) == seq![".*"@],
            config.nats_subject@ == "swarm.documents.incoming"@,
    {
        let mut watch_directories: Vec<String> = Vec::new();
        watch_directories.push(String::from_str("./test-data"));
        let mut supported_extensions: Vec<String> = Vec::new();
        supported_extensions.push(String::from_str("txt"));
        supported_extensions.push(String::from_str("md"));
        supported_extensions.push(String::from_str("pdf"));
        supported_extensions.push(String::from_str("docx"));
        supported_extensions.push(String::from_str("html"));
        let mut include_patterns: Vec<String> = Vec::new();
        include_patterns.push(String::from_str("*"));
        let mut exclude_patterns: Vec<String> = Vec::new();
        exclude_patterns.push(String::from_str(".*"));
        assert(text_views(watch_directories@) =~= seq!["./test-data"@]);
        assert(text_views(supported_extensions@) =~= seq![
            "txt"@,
            "md"@,
            "pdf"@,
            "docx"@,
            "html"@,
        ]);
        assert(text_views(include_patterns@) =~= seq!["*"@]);
        assert(text_views(exclude_patterns@) =~= seq![".*"@]);
        DocumentReaderConfig {
            watch_directories,
            supported_extensions,
            max_file_size: 104_857_600,
            scan_interval_ms: 1000,
            batch_size: 10,
            recursive_scan: true,
            include_patterns,
            exclude_patterns,
            nats_subject: String::from_str("swarm.documents.incoming"),
        }
    }
}

/// A piece of work that is planned for a document.
#[derive(Debug, PartialEq, Eq)]
pub struct ProcessingTask {
    pub id: TaskId,
    pub task_type: String,
    pub document_id: DocumentId,
    pub estimated_duration_ms: u64,
    pub priority: String,
}

/// A piece of work as it is planned: its kind, the time it is likely to take
/// in milliseconds, and its priority.
pub struct PlannedTask {
    pub task_type: Seq<char>,
    pub estimated_duration_ms: u64,
    pub priority: Seq<char>,
}

impl ProcessingTask {
    /// What the task says of the work.
    pub open spec fn plan(&self) -> PlannedTask {
        PlannedTask {
            task_type: self.task_type@,
            estimated_duration_ms: self.estimated_duration_ms,
            priority: self.priority@,
        }
    }
}

/// The work that is planned for a document of the given format: the text is
/// extracted first; a PDF then has its pages counted, a Word document its
/// formatting analysed, an HTML document its links extracted; last the
/// language is detected and the keywords are extracted.
pub open spec fn planned_tasks(document_type: DocumentType) -> Seq<PlannedTask> {
    let first = seq![
        PlannedTask {
            task_type: "text_extraction"@,
            estimated_duration_ms: document_type.extraction_time_ms(),
            priority: "high"@,
        },
    ];
    let special = match document_type {
        DocumentType::Pdf => seq![
            PlannedTask {
                task_type: "page_counting"@,
                estimated_duration_ms: 50,
                priority: "medium"@,
            },
        ],
        DocumentType::Word => seq![
            PlannedTask {
                task_type: "formatting_analysis"@,
                estimated_duration_ms: 100,
                priority: "medium"@,
            },
        ],
        DocumentType::Html => seq![
            PlannedTask {
                task_type: "link_extraction"@,
                estimated_duration_ms: 75,
                priority: "low"@,
            },
        ],
        _ => Seq::empty(),
    };
    let last = seq![
        PlannedTask {
            task_type: "language_detection"@,
            estimated_duration_ms: 25,
            priority: "medium"@,
        },
        PlannedTask {
            task_type: "keyword_extraction"@,
            estimated_duration_ms: 50,
            priority: "low"@,
        },
    ];
    first + special + last
}

/// The plans of a list of tasks.
pub open spec fn plans(tasks: Seq<ProcessingTask>) -> Seq<PlannedTask> {
    tasks.map_values(|t: ProcessingTask| t.plan())
}

/// A task of the given kind for the given document, with a fresh identifier.
fn planned(document_id: DocumentId, task_type: &str, estimated_duration_ms: u64, priority: &str) -> (task:
    ProcessingTask)
    ensures
        task.id != 0,
        task.document_id == document_id,
        task.plan() == (PlannedTask {
            task_type: task_type@,
            estimated_duration_ms,
            priority: priority@,
        }),
{
    ProcessingTask {
        id: fresh_id(),
        task_type: String::from_str(task_type),
        document_id,
        estimated_duration_ms,
        priority: String::from_str(priority),
    }
}

/// Plans the work for a document. Every task gets a fresh identifier.
pub fn generate_processing_tasks(document: &Document) -> (tasks: Vec<ProcessingTask>)
    ensures
        plans(tasks@) == planned_tasks(document.document_type),
        forall|i: int|
            0 <= i < tasks@.len() ==> (#[trigger] tasks@[i]).id != 0 && tasks@[i].document_id
                == document.id,
{
    let mut tasks: Vec<ProcessingTask> = Vec::new();
    tasks.push(
        planned(
            document.id,
            "text_extraction",
            document.document_type.estimated_processing_time_ms(),
            "high",
        ),
    );
    match document.document_type {
        DocumentType::Pdf => {
            tasks.push(planned(document.id, "page_counting", 50, "medium"));
        },
        DocumentType::Word => {
            tasks.push(planned(document.id, "formatting_analysis", 100, "medium"));
        },
        DocumentType::Html => {
            tasks.push(planned(document.id, "link_extraction", 75, "low"));
        },
        _ => {},
    }
    tasks.push(planned(document.id, "language_detection", 25, "medium"));
    tasks.push(planned(document.id, "keyword_extraction", 50, "low"));
    assert(plans(tasks@) =~= planned_tasks(document.document_type));
    tasks
}

/// What the file system says of a file.
#[derive(Debug, PartialEq, Eq)]
pub struct FileFacts {
    /// The path of the file.
    pub path: String,
    /// The name of the file, if the path has one.
    pub filename: Option<String>,
    /// The extension of the file, if its name has one.
    pub extension: Option<String>,
    pub size_bytes: usize,
    /// When the file was last modified.
    pub modified: Timestamp,
}

/// A file that has been read, and when it had last been modified then.
#[derive(Debug, PartialEq, Eq)]
pub struct ProcessedFile {
    pub path: String,
    pub modified: Timestamp,
}

impl View for ProcessedFile {
    type V = (Seq<char>, Timestamp);

    open spec fn view(&self) -> (Seq<char>, Timestamp) {
        (self.path@, self.modified)
    }
}

/// Position of the first file with the given path, or the number of files
/// where there is none.
pub open spec fn position_of_file(files: Seq<(Seq<char>, Timestamp)>, path: Seq<char>) -> int
    decreases files.len(),
{
    if files.len() == 0 {
        0
    } else if files[0].0 == path {
        0
    } else {
        1 + position_of_file(files.drop_first(), path)
    }
}

/// When the file with the given path had last been modified when it was
/// read, if it has been read.
pub open spec fn last_read(files: Seq<(Seq<char>, Timestamp)>, path: Seq<char>) -> Option<Timestamp> {
    let at = position_of_file(files, path);
    if at < files.len() {
        Some(files[at].1)
    } else {
        None
    }
}

/// The files after one has been read: its line is set, or added at the end.
pub open spec fn with_file(files: Seq<(Seq<char>, Timestamp)>, path: Seq<char>, modified: Timestamp) -> Seq<
    (Seq<char>, Timestamp),
> {
    let at = position_of_file(files, path);
    if at < files.len() {
        files.update(at, (path, modified))
    } else {
        files.push((path, modified))
    }
}

/// The extension is among the given ones, without regard to its case.
pub open spec fn extension_supported(supported: Seq<Seq<char>>, extension: Option<Seq<char>>) -> bool {
    match extension {
        Some(e) => supported.contains(lowercase(e)),
        None => false,
    }
}

/// A file is to be read under a configuration: its extension is supported, a
/// pattern lets it in, and no pattern keeps it out.
pub open spec fn wanted(
    config: DocumentReaderConfig,
    path: Seq<char>,
    file_name: Option<Seq<char>>,
    extension: Option<Seq<char>>,
) -> bool {
    &&& extension_supported(text_views(config.supported_extensions@), extension)
    &&& included(text_views(config.include_patterns@), path)
    &&& !excluded(text_views(config.exclude_patterns@), path, file_name)
}

/// Whether a document of the given format is read as text: plain text, HTML
/// and Markdown are, everything else is read as bytes.
pub open spec fn read_as_text(document_type: DocumentType) -> bool {
    document_type == DocumentType::Text || document_type == DocumentType::Html || document_type
        == DocumentType::Markdown
}

/// The metadata that a document gets from the file it was read from: the
/// path, the size, the time of the last change, the extension and the media
/// type, each as a JSON text. A time that cannot be written as a date is
/// `null`, a missing extension is `unknown`.
pub open spec fn file_metadata(
    path: Seq<char>,
    extension: Option<Seq<char>>,
    size_bytes: usize,
    modified: Timestamp,
    document_type: DocumentType,
) -> Seq<(Seq<char>, Seq<char>)> {
    seq![
        ("file_path"@, json_string(path)),
        ("file_size"@, decimal(size_bytes as nat)),
        (
            "modified_time"@,
            match rfc3339(modified, false) {
                Some(time) => json_string(time),
                None => "null"@,
            },
        ),
        (
            "file_extension"@,
            json_string(
                match extension {
                    Some(e) => e,
                    None => "unknown"@,
                },
            ),
        ),
        ("mime_type"@, json_string(document_type.media_type())),
    ]
}

/// Why a file is too large to be read, in words.
pub open spec fn too_large_text(size_bytes: usize, max_file_size: usize) -> Seq<char> {
    "File too large: "@ + decimal(size_bytes as nat) + " bytes (max: "@ + decimal(
        max_file_size as nat,
    ) + " bytes)"@
}

/// The figures of a document reader.
#[derive(Debug, Clone, Copy, PartialEq, Eq, Structural)]
pub struct DocumentReaderStats {
    /// How many documents have been read.
    pub total_documents_read: u64,
    /// How many files could not be read.
    pub error_count: u64,
    /// When the last document was read.
    pub last_read_time: Option<Timestamp>,
    /// How many different files have been read.
    pub total_files_processed: usize,
    /// How many directories are looked into.
    pub directories_watched: usize,
    /// How many extensions are taken for documents.
    pub supported_extensions: usize,
}

/// The state of a document reader.
pub struct DocumentReaderView {
    /// The files that have been read, in the order of their first reading.
    pub processed: Seq<(Seq<char>, Timestamp)>,
    pub running: bool,
    pub total_documents_read: u64,
    pub error_count: u64,
    pub last_read_time: Option<Timestamp>,
}

/// A reader of documents.
pub struct DocumentReader {
    config: DocumentReaderConfig,
    processed_files: Vec<ProcessedFile>,
    is_running: bool,
    total_documents_read: u64,
    error_count: u64,
    last_read_time: Option<Timestamp>,
}

impl View for DocumentReader {
    type V = DocumentReaderView;

    closed spec fn view(&self) -> DocumentReaderView {
        DocumentReaderView {
            processed: self.processed_files@.map_values(|f: ProcessedFile| f@),
            running: self.is_running,
            total_documents_read: self.total_documents_read,
            error_count: self.error_count,
            last_read_time: self.last_read_time,
        }
    }
}

impl DocumentReader {
    /// The configuration of the reader.
    pub closed spec fn configuration(&self) -> DocumentReaderConfig {
        self.config
    }

    /// A reader that has read nothing.
    pub fn new(config: DocumentReaderConfig) -> (reader: Self)
        ensures
            reader.configuration() == config,
            reader@ == (DocumentReaderView {
                processed: Seq::empty(),
                running: false,
                total_documents_read: 0,
                error_count: 0,
                last_read_time: None,
            }),
    {
        let reader = DocumentReader {
            config,
            processed_files: Vec::new(),
            is_running: false,
            total_documents_read: 0,
            error_count: 0,
            last_read_time: None,
        };
        assert(reader@.processed =~= Seq::<(Seq<char>, Timestamp)>::empty());
        reader
    }

    /// The configuration of the reader.
    pub fn config(&self) -> (config: &DocumentReaderConfig)
        ensures
            *config == self.configuration(),
    {
        &self.config
    }

    /// The figures of the reader.
    pub fn get_stats(&self) -> (stats: DocumentReaderStats)
        ensures
            stats == (DocumentReaderStats {
                total_documents_read: self@.total_documents_read,
                error_count: self@.error_count,
                last_read_time: self@.last_read_time,
                total_files_processed: self@.processed.len() as usize,
                directories_watched: self.configuration().watch_directories@.len() as usize,
                supported_extensions: self.configuration().supported_extensions@.len() as usize,
            }),
    {
        DocumentReaderStats {
            total_documents_read: self.total_documents_read,
            error_count: self.error_count,
            last_read_time: self.last_read_time,
            total_files_processed: self.processed_files.len(),
            directories_watched: self.config.watch_directories.len(),
            supported_extensions: self.config.supported_extensions.len(),
        }
    }

    /// Whether files with the given extension are taken for documents.
    pub fn supports_extension(&self, extension: Option<&str>) -> (yes: bool)
        ensures
            yes == extension_supported(
                text_views(self.configuration().supported_extensions@),
                optional_name(extension),
            ),
    {
        match extension {
            Some(e) => {
                let lower = to_lowercase(e);
                let supported = &self.config.supported_extensions;
                let ghost views = text_views(supported@);
                let mut i: usize = 0;
                while i < supported.len()
                    invariant
                        i <= supported@.len(),
                        views == text_views(supported@),
                        views == text_views(self.configuration().supported_extensions@),
                        lower@ == lowercase(e@),
                        extension == Some(e),
                        forall|j: int| 0 <= j < i ==> views[j] != lower@,
                    decreases supported@.len() - i,
                {
                    assert(views[i as int] == supported@[i as int]@);
                    if supported[i] == lower {
                        assert(views.contains(lower@));
                        return true;
                    }
                    i = i + 1;
                }
                false
            },
            None => false,
        }
    }

    /// Whether the file at the given path is taken for a document, judged by
    /// the extension that the platform sees in the path.
    pub fn is_supported_file(&self, path: &str) -> (yes: bool)
        ensures
            exists|extension: Option<Seq<char>>|
                yes == #[trigger] extension_supported(
                    text_views(self.configuration().supported_extensions@),
                    extension,
                ),
    {
        let extension = path_extension(path);
        match &extension {
            Some(e) => {
                let yes = self.supports_extension(Some(e.as_str()));
                assert(yes == extension_supported(
                    text_views(self.configuration().supported_extensions@),
                    Some(e@),
                ));
                yes
            },
            None => {
                assert(false == extension_supported(
                    text_views(self.configuration().supported_extensions@),
                    None,
                ));
                false
            },
        }
    }

    /// Whether one of the patterns of the configuration lets the path in.
    pub fn matches_include_patterns(&self, path: &str) -> (yes: bool)
        ensures
            yes == included(text_views(self.configuration().include_patterns@), path@),
    {
        matches_include_patterns(&self.config.include_patterns, path)
    }

    /// Whether one of the patterns of the configuration keeps the file out.
    pub fn matches_exclude_patterns(&self, path: &str, file_name: Option<&str>) -> (yes: bool)
        ensures
            yes == excluded(
                text_views(self.configuration().exclude_patterns@),
                path@,
                optional_name(file_name),
            ),
    {
        matches_exclude_patterns(&self.config.exclude_patterns, path, file_name)
    }

    /// Whether a file is to be read: its extension is supported, a pattern
    /// lets it in, and no pattern keeps it out.
    pub fn should_process(&self, path: &str, file_name: Option<&str>, extension: Option<&str>) -> (yes:
        bool)
        ensures
            yes == wanted(
                self.configuration(),
                path@,
                optional_name(file_name),
                optional_name(extension),
            ),
    {
        self.supports_extension(extension) && self.matches_include_patterns(path)
            && !self.matches_exclude_patterns(path, file_name)
    }

    /// Whether the file at the given path is to be read, judged by the name
    /// and the extension that the platform sees in the path.
    pub fn should_process_file(&self, path: &str) -> (yes: bool)
        ensures
            exists|file_name: Option<Seq<char>>, extension: Option<Seq<char>>|
                yes == #[trigger] wanted(self.configuration(), path@, file_name, extension),
    {
        let file_name = crate::documents::path_file_name(path);
        let extension = path_extension(path);
        let name: Option<&str> = match &file_name {
            Some(n) => Some(n.as_str()),
            None => None,
        };
        let ext: Option<&str> = match &extension {
            Some(e) => Some(e.as_str()),
            None => None,
        };
        let yes = self.should_process(path, name, ext);
        assert(yes == wanted(self.configuration(), path@, optional_name(name), optional_name(ext)));
        yes
    }

    fn find(&self, path: &str) -> (at: usize)
        ensures
            at == position_of_file(self@.processed, path@),
            at <= self@.processed.len(),
    {
        let wanted = String::from_str(path);
        let ghost views = self@.processed;
        let mut at: usize = 0;
        assert(views.skip(0) =~= views);
        while at < self.processed_files.len() && !(self.processed_files[at].path == wanted)
            invariant
                at <= self.processed_files@.len(),
                wanted@ == path@,
                views == self@.processed,
                position_of_file(views, path@) == at + position_of_file(
                    views.skip(at as int),
                    path@,
                ),
            decreases self.processed_files@.len() - at,
        {
            proof {
                let rest = views.skip(at as int);
                assert(rest[0] == views[at as int]);
                assert(rest.drop_first() =~= views.skip(at + 1));
            }
            at = at + 1;
        }
        proof {
            let rest = views.skip(at as int);
            if at < self.processed_files@.len() {
                assert(rest[0] == views[at as int]);
            }
        }
        at
    }

    /// Plans the work for a document: the text is extracted first, then
    /// comes what goes with the format, then the language and the keywords.
    /// Every task gets a fresh identifier.
    pub fn generate_processing_tasks(&self, document: &Document) -> (tasks: Vec<ProcessingTask>)
        ensures
            plans(tasks@) == planned_tasks(document.document_type),
            forall|i: int|
                0 <= i < tasks@.len() ==> (#[trigger] tasks@[i]).id != 0 && tasks@[i].document_id
                    == document.id,
    {
        generate_processing_tasks(document)
    }

    /// Whether a file is new to the reader, or has been modified since the
    /// reader read it.
    pub fn is_new_or_modified_file(&self, path: &str, modified: Timestamp) -> (yes: bool)
        ensures
            yes == match last_read(self@.processed, path@) {
                Some(seen) => modified > seen,
                None => true,
            },
    {
        let at = self.find(path);
        if at < self.processed_files.len() {
            modified > self.processed_files[at].modified
        } else {
            true
        }
    }

    /// Whether a document of the given format is read as text.
    pub fn reads_as_text(document_type: DocumentType) -> (yes: bool)
        ensures
            yes == read_as_text(document_type),
    {
        match document_type {
            DocumentType::Text | DocumentType::Html | DocumentType::Markdown => true,
            _ => false,
        }
    }

    /// Makes a document of a file and its content, and takes note that the
    /// file has been read. A file that is larger than the configuration
    /// allows is refused, and nothing is noted. The document gets a fresh
    /// identifier; its format goes by the extension of the file, and its
    /// metadata say where it came from.
    pub fn read_document(&mut self, facts: &FileFacts, content: DocumentContent, now: Timestamp) -> (outcome:
        Result<Document, DocumentError>)
        ensures
            final(self).configuration() == old(self).configuration(),
            facts.size_bytes > old(self).configuration().max_file_size ==> final(self)@ == old(
                self,
            )@ && match outcome {
                Err(error) => error@ == (DocumentErrorView::ProcessingFailed {
                    reason: too_large_text(
                        facts.size_bytes,
                        old(self).configuration().max_file_size,
                    ),
                }),
                Ok(_) => false,
            },
            facts.size_bytes <= old(self).configuration().max_file_size ==> final(self)@ == (
            DocumentReaderView {
                processed: with_file(old(self)@.processed, facts.path@, facts.modified),
                total_documents_read: crate::bus::counted(old(self)@.total_documents_read),
                last_read_time: Some(now),
                ..old(self)@
            }) && match outcome {
                Ok(document) => document.id != 0 && document@ == (DocumentView {
                    id: document.id,
                    filename: match facts.filename {
                        Some(name) => name@,
                        None => "unknown"@,
                    },
                    document_type: type_of_extension(crate::document::optional_text(facts.extension)),
                    content: content@,
                    metadata: file_metadata(
                        facts.path@,
                        crate::document::optional_text(facts.extension),
                        facts.size_bytes,
                        facts.modified,
                        type_of_extension(crate::document::optional_text(facts.extension)),
                    ),
                    created_at: now,
                    size_bytes: facts.size_bytes,
                }),
                Err(_) => false,
            },
    {
        if facts.size_bytes > self.config.max_file_size {
            let size_text = to_decimal(facts.size_bytes as u64);
            let max_text = to_decimal(self.config.max_file_size as u64);
            let mut reason = String::from_str("File too large: ");
            reason.append(size_text.as_str());
            reason.append(" bytes (max: ");
            reason.append(max_text.as_str());
            reason.append(" bytes)");
            return Err(DocumentError::ProcessingFailed { reason });
        }
        let document_type = match &facts.extension {
            Some(e) => detect_document_type(Some(e.as_str())),
            None => detect_document_type(None),
        };
        let filename = match &facts.filename {
            Some(name) => name.clone(),
            None => String::from_str("unknown"),
        };
        let mut metadata = TextMap::new();
        proof {
            reveal_strlit("file_path");
            reveal_strlit("file_size");
            reveal_strlit("modified_time");
            reveal_strlit("file_extension");
            reveal_strlit("mime_type");
            lemma_absent(metadata@, "file_path"@);
        }
        metadata.push("file_path", quote(facts.path.as_str()));
        proof {
            assert(metadata@[0].0 == "file_path"@);
            assert("file_path"@[5] == 'p' && "file_size"@[5] == 's');
            lemma_absent(metadata@, "file_size"@);
        }
        metadata.push("file_size", to_decimal(facts.size_bytes as u64));
        let time_text = match timestamp_text(facts.modified, false) {
            Some(time) => quote(time.as_str()),
            None => String::from_str("null"),
        };
        proof {
            assert(metadata@[0].0 == "file_path"@ && metadata@[1].0 == "file_size"@);
            assert(metadata@[0].0.len() == 9 && metadata@[1].0.len() == 9);
            assert("modified_time"@.len() == 13);
            lemma_absent(metadata@, "modified_time"@);
        }
        metadata.push("modified_time", time_text);
        let extension_text = match &facts.extension {
            Some(e) => quote(e.as_str()),
            None => quote("unknown"),
        };
        proof {
            assert(metadata@[0].0 == "file_path"@ && metadata@[1].0 == "file_size"@
                && metadata@[2].0 == "modified_time"@);
            assert(metadata@[0].0.len() == 9 && metadata@[1].0.len() == 9 && metadata@[2].0.len()
                == 13);
            assert("file_extension"@.len() == 14);
            lemma_absent(metadata@, "file_extension"@);
        }
        metadata.push("file_extension", extension_text);
        proof {
            assert(metadata@[0].0 == "file_path"@ && metadata@[1].0 == "file_size"@
                && metadata@[2].0 == "modified_time"@ && metadata@[3].0 == "file_extension"@);
            assert(metadata@[2].0.len() == 13 && metadata@[3].0.len() == 14);
            assert("mime_type"@.len() == 9);
            assert("mime_type"@[0] == 'm' && "file_path"@[0] == 'f' && "file_size"@[0] == 'f');
            lemma_absent(metadata@, "mime_type"@);
        }
        metadata.push("mime_type", quote(document_type.mime_type()));
        assert(metadata@ =~= file_metadata(
            facts.path@,
            crate::document::optional_text(facts.extension),
            facts.size_bytes,
            facts.modified,
            document_type,
        ));
        let at = self.find(facts.path.as_str());
        if at < self.processed_files.len() {
            let ghost before = self.processed_files@;
            let file = &mut self.processed_files[at];
            file.modified = facts.modified;
            assert(self@.processed =~= old(self)@.processed.update(
                at as int,
                (facts.path@, facts.modified),
            )) by {
                assert forall|j: int| 0 <= j < before.len() && j != at implies self.processed_files@[j]
                    == before[j] by {}
                crate::document_reader::lemma_position_of_file(old(self)@.processed, facts.path@);
            }
        } else {
            self.processed_files.push(
                ProcessedFile { path: facts.path.clone(), modified: facts.modified },
            );
            assert(self@.processed =~= old(self)@.processed.push((facts.path@, facts.modified)));
        }
        if self.total_documents_read < u64::MAX {
            self.total_documents_read = self.total_documents_read + 1;
        }
        self.last_read_time = Some(now);
        Ok(
            Document {
                id: fresh_id(),
                filename,
                document_type,
                content,
                metadata,
                created_at: now,
                size_bytes: facts.size_bytes,
            },
        )
    }

    /// Counts a file that could not be read.
    pub fn note_error(&mut self)
        ensures
            final(self).configuration() == old(self).configuration(),
            final(self)@ == (DocumentReaderView {
                error_count: crate::bus::counted(old(self)@.error_count),
                ..old(self)@
            }),
    {
        if self.error_count < u64::MAX {
            self.error_count = self.error_count + 1;
        }
    }

    /// Takes note that the reader has begun to look for documents.
    pub fn start(&mut self)
        ensures
            final(self).configuration() == old(self).configuration(),
            final(self)@ == (DocumentReaderView { running: true, ..old(self)@ }),
    {
        self.is_running = true;
    }

    /// Takes note that the reader is to stop.
    pub fn stop(&mut self)
        ensures
            final(self).configuration() == old(self).configuration(),
            final(self)@ == (DocumentReaderView { running: false, ..old(self)@ }),
    {
        self.is_running = false;
    }

    /// Whether the reader is looking for documents.
    pub fn is_running(&self) -> (yes: bool)
        ensures
            yes == self@.running,
    {
        self.is_running
    }
}

/// The file with the given path stands where `position_of_file` finds it.
pub proof fn lemma_position_of_file(files: Seq<(Seq<char>, Timestamp)>, path: Seq<char>)
    ensures
        0 <= position_of_file(files, path) <= files.len(),
        position_of_file(files, path) < files.len() ==> files[position_of_file(files, path)].0
            == path,
    decreases files.len(),
{
    if files.len() > 0 && files[0].0 != path {
        lemma_position_of_file(files.drop_first(), path);
    }
}

} // verus!
