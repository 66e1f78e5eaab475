use swarm::document_reader::{
    generate_processing_tasks, DocumentReader, DocumentReaderConfig, DocumentReaderStats,
    FileFacts,
};
use swarm::patterns::{
    is_hidden, matches_exclude_patterns, matches_include_patterns, pattern_hits, strip_stars,
};
use swarm::{Document, DocumentContent, DocumentError, DocumentType};

fn texts(items: &[&str]) -> Vec<String> {
    items.iter().map(|s| s.to_string()).collect()
}

fn create_test_config() -> DocumentReaderConfig {
    DocumentReaderConfig {
        watch_directories: texts(&["./test-data"]),
        supported_extensions: texts(&["txt", "md"]),
        max_file_size: 1024 * 1024,
        scan_interval_ms: 100,
        batch_size: 5,
        recursive_scan: true,
        include_patterns: texts(&["*"]),
        exclude_patterns: texts(&[".*"]),
        nats_subject: "swarm.documents.incoming".to_string(),
    }
}

fn facts(path: &str, name: &str, extension: Option<&str>, size: usize, modified: i64) -> FileFacts {
    FileFacts {
        path: path.to_string(),
        filename: Some(name.to_string()),
        extension: extension.map(|e| e.to_string()),
        size_bytes: size,
        modified,
    }
}

#[test]
fn test_document_reader_config() {
    let config = DocumentReaderConfig::default();
    assert_eq!(config.batch_size, 10);
    assert_eq!(config.scan_interval_ms, 1000);
    assert_eq!(config.nats_subject, "swarm.documents.incoming");
    assert!(config.supported_extensions.contains(&"txt".to_string()));
    assert!(config.supported_extensions.contains(&"md".to_string()));
}

#[test]
fn document_reader_test_document_reader_creation() {
    let config = create_test_config();
    let reader = DocumentReader::new(config);

    assert_eq!(reader.get_stats().total_files_processed, 0);
    assert!(!reader.is_running());
    assert_eq!(reader.get_stats().total_documents_read, 0);
}

#[test]
fn document_reader_test_supported_file_detection() {
    let config = create_test_config();
    let reader = DocumentReader::new(config);

    assert!(reader.is_supported_file("test.txt"));
    assert!(reader.is_supported_file("test.md"));
    assert!(!reader.is_supported_file("test.pdf"));
    assert!(!reader.is_supported_file("test.xyz"));
}

#[test]
fn the_default_reader_takes_the_usual_documents() {
    let reader = DocumentReader::new(DocumentReaderConfig::default());

    assert!(reader.is_supported_file("test.txt"));
    assert!(reader.is_supported_file("test.md"));
    assert!(reader.is_supported_file("test.pdf"));
    assert!(!reader.is_supported_file("test.xyz"));
    assert!(!reader.is_supported_file("test"));
    assert!(reader.is_supported_file("dir/REPORT.PDF"));
    assert!(reader.supports_extension(Some("DocX")));
    assert!(!reader.supports_extension(Some("doc")));
    assert!(!reader.supports_extension(None));
}

#[test]
fn document_reader_test_include_pattern_matching() {
    let config = create_test_config();
    let reader = DocumentReader::new(config);

    assert!(reader.matches_include_patterns("test.txt"));
    assert!(reader.matches_include_patterns("document.md"));
}

#[test]
fn document_reader_test_exclude_pattern_matching() {
    let config = create_test_config();
    let reader = DocumentReader::new(config);

    assert!(reader.matches_exclude_patterns(".hidden.txt", Some(".hidden.txt")));
    assert!(!reader.matches_exclude_patterns("visible.txt", Some("visible.txt")));
}

#[test]
fn test_should_process_file() {
    let config = create_test_config();
    let reader = DocumentReader::new(config);

    assert!(reader.should_process_file("test.txt"));
    assert!(reader.should_process_file("document.md"));
    assert!(!reader.should_process_file("test.pdf"));
    assert!(!reader.should_process_file(".hidden.txt"));
}

#[test]
fn a_file_is_judged_by_its_extension_and_the_patterns() {
    let mut config = create_test_config();
    config.include_patterns = texts(&["*report*", "notes"]);
    config.exclude_patterns = texts(&["*.bak.txt", "draft"]);
    let reader = DocumentReader::new(config);

    assert!(reader.should_process("a/report-1.txt", Some("report-1.txt"), Some("txt")));
    assert!(reader.should_process("notes/x.md", Some("x.md"), Some("MD")));
    // No pattern lets it in.
    assert!(!reader.should_process("a/other.txt", Some("other.txt"), Some("txt")));
    // The extension is not supported.
    assert!(!reader.should_process("a/report.pdf", Some("report.pdf"), Some("pdf")));
    assert!(!reader.should_process("a/report", Some("report"), None));
    // A pattern keeps it out.
    assert!(!reader.should_process("a/report.bak.txt", Some("report.bak.txt"), Some("txt")));
    assert!(!reader.should_process("draft/report.txt", Some("report.txt"), Some("txt")));
}

#[test]
fn patterns_match_what_stands_between_their_stars() {
    let star: Vec<char> = "**.tmp*".chars().collect();
    assert_eq!(strip_stars(&star), ".tmp".chars().collect::<Vec<char>>());
    let inner: Vec<char> = "a*b".chars().collect();
    assert_eq!(strip_stars(&inner), inner);
    let only: Vec<char> = "***".chars().collect();
    assert_eq!(strip_stars(&only), Vec::<char>::new());

    let path: Vec<char> = "dir/file.tmp".chars().collect();
    assert!(pattern_hits(&path, "*.tmp"));
    assert!(pattern_hits(&path, "file"));
    assert!(pattern_hits(&path, "*"));
    assert!(!pattern_hits(&path, "*.txt"));
    assert!(!pattern_hits(&path, "a*b"));

    assert!(is_hidden(Some(".git")));
    assert!(!is_hidden(Some("git.")));
    assert!(!is_hidden(Some("")));
    assert!(!is_hidden(None));

    let none: Vec<String> = Vec::new();
    assert!(!matches_include_patterns(&none, "a.txt"));
    assert!(!matches_exclude_patterns(&none, ".a.txt", Some(".a.txt")));
    assert!(matches_include_patterns(&texts(&["*"]), ""));
    assert!(matches_include_patterns(&texts(&["x", "*.txt"]), "a.txt"));
    assert!(!matches_include_patterns(&texts(&["q", "*.md"]), "a.txt"));
    // The pattern for hidden files goes by the name of the file alone.
    assert!(matches_exclude_patterns(&texts(&[".*"]), "dir/.a", Some(".a")));
    assert!(!matches_exclude_patterns(&texts(&[".*"]), ".dir/a", Some("a")));
    assert!(!matches_exclude_patterns(&texts(&[".*"]), ".a", None));
    assert!(matches_exclude_patterns(&texts(&[".*", "*.tmp"]), "a.tmp", Some("a.tmp")));
}

#[test]
fn document_reader_test_document_reading() {
    let mut reader = DocumentReader::new(create_test_config());
    let content = "This is a test document";
    let file = facts("/data/test.txt", "test.txt", Some("txt"), content.len(), 1_700_000_000_000);

    let document = reader
        .read_document(&file, DocumentContent::Text(content.to_string()), 1_700_000_001_000)
        .unwrap();
    assert_eq!(document.filename, "test.txt");
    assert_eq!(document.content, DocumentContent::Text(content.to_string()));
    assert_eq!(document.document_type, DocumentType::Text);
    assert_eq!(document.size_bytes, 23);
    assert_eq!(document.created_at, 1_700_000_001_000);
    assert_ne!(document.id, 0);
    assert!(document.metadata.contains_key("file_path"));
    assert!(document.metadata.contains_key("file_size"));
    assert!(document.metadata.contains_key("mime_type"));
    assert_eq!(document.metadata.len(), 5);
    assert_eq!(document.metadata.get("file_path"), Some("\"/data/test.txt\""));
    assert_eq!(document.metadata.get("file_size"), Some("23"));
    assert_eq!(document.metadata.get("modified_time"), Some("\"2023-11-14T22:13:20+00:00\""));
    assert_eq!(document.metadata.get("file_extension"), Some("\"txt\""));
    assert_eq!(document.metadata.get("mime_type"), Some("\"text/plain\""));
}

#[test]
fn a_file_without_name_or_extension_is_read_as_unknown() {
    let mut reader = DocumentReader::new(create_test_config());
    let file = FileFacts {
        path: "/".to_string(),
        filename: None,
        extension: None,
        size_bytes: 3,
        modified: 0,
    };
    let document = reader.read_document(&file, DocumentContent::Binary(vec![1, 2, 3]), 9).unwrap();
    assert_eq!(document.filename, "unknown");
    assert_eq!(document.document_type, DocumentType::Unknown);
    assert_eq!(document.metadata.get("file_extension"), Some("\"unknown\""));
    assert_eq!(document.metadata.get("mime_type"), Some("\"application/octet-stream\""));
    assert_eq!(document.metadata.get("modified_time"), Some("\"1970-01-01T00:00:00+00:00\""));
}

#[test]
fn a_file_that_is_too_large_is_refused() {
    let mut config = create_test_config();
    config.max_file_size = 10;
    let mut reader = DocumentReader::new(config);

    let exact = facts("a.txt", "a.txt", Some("txt"), 10, 1);
    assert!(reader.read_document(&exact, DocumentContent::Text("0123456789".to_string()), 5).is_ok());

    let large = facts("b.txt", "b.txt", Some("txt"), 11, 1);
    let refused = reader.read_document(&large, DocumentContent::Text("0123456789a".to_string()), 6);
    assert_eq!(
        refused,
        Err(DocumentError::ProcessingFailed {
            reason: "File too large: 11 bytes (max: 10 bytes)".to_string()
        })
    );
    assert_eq!(
        refused.unwrap_err().to_string(),
        "Processing failed: File too large: 11 bytes (max: 10 bytes)"
    );
    // Nothing is noted of the file that was refused.
    assert!(reader.is_new_or_modified_file("b.txt", 1));
    assert_eq!(reader.get_stats().total_documents_read, 1);
    assert_eq!(reader.get_stats().last_read_time, Some(5));
}

#[test]
fn the_reader_keeps_count_of_what_it_has_read() {
    let mut reader = DocumentReader::new(create_test_config());
    assert!(reader.is_new_or_modified_file("a.txt", 100));

    let first = facts("a.txt", "a.txt", Some("txt"), 1, 100);
    reader.read_document(&first, DocumentContent::Text("a".to_string()), 1_000).unwrap();
    assert!(!reader.is_new_or_modified_file("a.txt", 100));
    assert!(!reader.is_new_or_modified_file("a.txt", 99));
    assert!(reader.is_new_or_modified_file("a.txt", 101));
    assert!(reader.is_new_or_modified_file("b.txt", 0));

    let other = facts("b.txt", "b.txt", Some("txt"), 1, 50);
    reader.read_document(&other, DocumentContent::Text("b".to_string()), 2_000).unwrap();
    let again = facts("a.txt", "a.txt", Some("txt"), 2, 200);
    reader.read_document(&again, DocumentContent::Text("aa".to_string()), 3_000).unwrap();
    assert!(!reader.is_new_or_modified_file("a.txt", 200));
    reader.note_error();

    assert_eq!(
        reader.get_stats(),
        DocumentReaderStats {
            total_documents_read: 3,
            error_count: 1,
            last_read_time: Some(3_000),
            total_files_processed: 2,
            directories_watched: 1,
            supported_extensions: 2,
        }
    );
}

#[test]
fn the_reader_runs_between_start_and_stop() {
    let mut reader = DocumentReader::new(create_test_config());
    assert!(!reader.is_running());
    reader.start();
    assert!(reader.is_running());
    reader.start();
    assert!(reader.is_running());
    reader.stop();
    assert!(!reader.is_running());
    assert_eq!(reader.config().batch_size, 5);
}

#[test]
fn only_texts_are_read_as_text() {
    assert!(DocumentReader::reads_as_text(DocumentType::Text));
    assert!(DocumentReader::reads_as_text(DocumentType::Html));
    assert!(DocumentReader::reads_as_text(DocumentType::Markdown));
    assert!(!DocumentReader::reads_as_text(DocumentType::Pdf));
    assert!(!DocumentReader::reads_as_text(DocumentType::Word));
    assert!(!DocumentReader::reads_as_text(DocumentType::Unknown));
}

#[test]
fn test_task_generation() {
    let config = DocumentReaderConfig::default();
    let reader = DocumentReader::new(config);

    let document = Document::new("test.pdf".to_string(), "PDF content".to_string());
    let tasks = reader.generate_processing_tasks(&document);

    assert!(tasks.len() >= 3);

    let task_types: Vec<&String> = tasks.iter().map(|t| &t.task_type).collect();
    assert!(task_types.contains(&&"text_extraction".to_string()));
    assert!(task_types.contains(&&"language_detection".to_string()));
    assert!(task_types.contains(&&"keyword_extraction".to_string()));

    assert!(task_types.contains(&&"page_counting".to_string()));
}

#[test]
fn the_work_for_a_document_goes_by_its_format() {
    let plan = |name: &str| -> Vec<(String, u64, String)> {
        let document = Document::new(name.to_string(), "x".to_string());
        let tasks = generate_processing_tasks(&document);
        for task in &tasks {
            assert_eq!(task.document_id, document.id);
            assert_ne!(task.id, 0);
        }
        tasks.into_iter().map(|t| (t.task_type, t.estimated_duration_ms, t.priority)).collect()
    };
    let row = |kind: &str, ms: u64, priority: &str| (kind.to_string(), ms, priority.to_string());

    assert_eq!(
        plan("a.pdf"),
        vec![
            row("text_extraction", 200, "high"),
            row("page_counting", 50, "medium"),
            row("language_detection", 25, "medium"),
            row("keyword_extraction", 50, "low"),
        ]
    );
    assert_eq!(
        plan("a.docx"),
        vec![
            row("text_extraction", 150, "high"),
            row("formatting_analysis", 100, "medium"),
            row("language_detection", 25, "medium"),
            row("keyword_extraction", 50, "low"),
        ]
    );
    assert_eq!(
        plan("a.html"),
        vec![
            row("text_extraction", 100, "high"),
            row("link_extraction", 75, "low"),
            row("language_detection", 25, "medium"),
            row("keyword_extraction", 50, "low"),
        ]
    );
    assert_eq!(
        plan("a.txt"),
        vec![
            row("text_extraction", 50, "high"),
            row("language_detection", 25, "medium"),
            row("keyword_extraction", 50, "low"),
        ]
    );
}

/// Reads those of the given files that the reader wants and has not read as
/// they are.
fn scan(reader: &mut DocumentReader, files: &[(&str, &str, i64)]) -> Vec<Document> {
    let mut documents = Vec::new();
    for (name, content, modified) in files {
        let path = format!("/watched/{}", name);
        if !reader.should_process_file(&path) || !reader.is_new_or_modified_file(&path, *modified) {
            continue;
        }
        let extension = name.rsplit_once('.').map(|(_, extension)| extension);
        let file = facts(&path, name, extension, content.len(), *modified);
        match reader.read_document(&file, DocumentContent::Text(content.to_string()), 1_000) {
            Ok(document) => documents.push(document),
            Err(_) => reader.note_error(),
        }
    }
    documents
}

#[test]
fn document_reader_test_directory_scanning() {
    let mut reader = DocumentReader::new(create_test_config());
    let files = [
        ("test1.txt", "Test content 1", 10),
        ("test2.md", "# Test Markdown", 10),
        (".hidden.txt", "Hidden content", 10),
    ];

    let documents = scan(&mut reader, &files);
    assert_eq!(documents.len(), 2);

    let filenames: Vec<&String> = documents.iter().map(|d| &d.filename).collect();
    assert!(filenames.contains(&&"test1.txt".to_string()));
    assert!(filenames.contains(&&"test2.md".to_string()));
}

#[test]
fn test_get_next_document() {
    let mut reader = DocumentReader::new(create_test_config());
    let files = [("test.txt", "Test content", 10)];

    let document = scan(&mut reader, &files).into_iter().next();
    assert!(document.is_some());
    let doc = document.unwrap();
    assert_eq!(doc.filename, "test.txt");

    // Nothing is new the second time.
    let document = scan(&mut reader, &files).into_iter().next();
    assert!(document.is_none());

    // A file that has changed is read again.
    let changed = [("test.txt", "Test content, changed", 11)];
    assert_eq!(scan(&mut reader, &changed).len(), 1);
    assert_eq!(reader.get_stats().total_files_processed, 1);
    assert_eq!(reader.get_stats().total_documents_read, 2);
}

#[test]
fn test_statistics_tracking() {
    let mut reader = DocumentReader::new(create_test_config());
    let first = facts("/watched/test1.txt", "test1.txt", Some("txt"), 14, 10);
    let second = facts("/watched/test2.txt", "test2.txt", Some("txt"), 14, 10);

    let _doc1 = reader
        .read_document(&first, DocumentContent::Text("Test content 1".to_string()), 1_000)
        .unwrap();
    let _doc2 = reader
        .read_document(&second, DocumentContent::Text("Test content 2".to_string()), 2_000)
        .unwrap();

    let stats = reader.get_stats();
    assert_eq!(stats.total_documents_read, 2);
    assert!(stats.last_read_time.is_some());
    assert_eq!(stats.error_count, 0);
}
