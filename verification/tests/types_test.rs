use swarm::{
    DocumentProcessingType, DocumentType, TaskPriority, TaskStatus, TaskType, TextAnalysisType,
    VectorIndexType, WorkerStatus, WorkerType,
};

#[test]
fn test_document_type_from_filename() {
    assert_eq!(DocumentType::from_filename("document.pdf"), DocumentType::Pdf);
    assert_eq!(DocumentType::from_filename("report.docx"), DocumentType::Word);
    assert_eq!(DocumentType::from_filename("notes.txt"), DocumentType::Text);
    assert_eq!(DocumentType::from_filename("page.html"), DocumentType::Html);
    assert_eq!(DocumentType::from_filename("readme.md"), DocumentType::Markdown);
    assert_eq!(DocumentType::from_filename("unknown.xyz"), DocumentType::Unknown);
}

#[test]
fn test_document_type_mime_types() {
    assert_eq!(DocumentType::Pdf.mime_type(), "application/pdf");
    assert_eq!(
        DocumentType::Word.mime_type(),
        "application/vnd.openxmlformats-officedocument.wordprocessingml.document"
    );
    assert_eq!(DocumentType::Text.mime_type(), "text/plain");
    assert_eq!(DocumentType::Html.mime_type(), "text/html");
    assert_eq!(DocumentType::Markdown.mime_type(), "text/markdown");
    assert_eq!(DocumentType::Unknown.mime_type(), "application/octet-stream");
}

#[test]
fn test_document_type_processing_times() {
    assert_eq!(DocumentType::Pdf.estimated_processing_time_ms(), 200);
    assert_eq!(DocumentType::Word.estimated_processing_time_ms(), 150);
    assert_eq!(DocumentType::Text.estimated_processing_time_ms(), 50);
    assert_eq!(DocumentType::Html.estimated_processing_time_ms(), 100);
    assert_eq!(DocumentType::Markdown.estimated_processing_time_ms(), 75);
    assert_eq!(DocumentType::Unknown.estimated_processing_time_ms(), 100);
}

#[test]
fn test_task_type_display() {
    let task_type = TaskType::DocumentProcessing {
        document_type: DocumentType::Pdf,
        processing_type: DocumentProcessingType::TextExtraction,
    };
    assert_eq!(task_type.to_string(), "DocumentProcessing(Pdf, TextExtraction)");
}

#[test]
fn test_worker_type_display() {
    let worker_type = WorkerType::DocumentProcessor { supported_types: vec![DocumentType::Pdf] };
    assert_eq!(worker_type.to_string(), "DocumentProcessor([Pdf])");
}

#[test]
fn test_task_priority_display() {
    assert_eq!(TaskPriority::Low.to_string(), "Low");
    assert_eq!(TaskPriority::High.to_string(), "High");
    assert_eq!(TaskPriority::Critical.to_string(), "Critical");
}

#[test]
fn test_task_status_display() {
    assert_eq!(TaskStatus::Pending.to_string(), "Pending");
    assert_eq!(TaskStatus::Completed.to_string(), "Completed");
    assert_eq!(TaskStatus::Failed.to_string(), "Failed");
}

#[test]
fn test_worker_status_display() {
    assert_eq!(WorkerStatus::Running.to_string(), "Running");
    assert_eq!(WorkerStatus::Busy.to_string(), "Busy");
    assert_eq!(WorkerStatus::Error("test".to_string()).to_string(), "Error(test)");
}

#[test]
fn test_document_type_display() {
    assert_eq!(DocumentType::Pdf.to_string(), "PDF");
    assert_eq!(DocumentType::Text.to_string(), "Text");
    assert_eq!(DocumentType::Word.to_string(), "Word");
}

#[test]
fn document_type_of_a_name_goes_by_what_follows_the_last_dot() {
    assert_eq!(DocumentType::from_filename("archive.tar.PDF"), DocumentType::Pdf);
    assert_eq!(DocumentType::from_filename("page.HTM"), DocumentType::Html);
    assert_eq!(DocumentType::from_filename("notes.Markdown"), DocumentType::Markdown);
    assert_eq!(DocumentType::from_filename("old.doc"), DocumentType::Word);
    assert_eq!(DocumentType::from_filename("trailing."), DocumentType::Unknown);
    assert_eq!(DocumentType::from_filename(""), DocumentType::Unknown);
    // A name without a dot is its own last part.
    assert_eq!(DocumentType::from_filename("pdf"), DocumentType::Pdf);
    // The built-in worker knows five formats only.
    assert_eq!(DocumentType::from_filename("sheet.xlsx"), DocumentType::Unknown);
}

#[test]
fn every_document_type_has_its_texts() {
    let all = [
        (DocumentType::Pdf, "Pdf", "PDF"),
        (DocumentType::Word, "Word", "Word"),
        (DocumentType::Text, "Text", "Text"),
        (DocumentType::Html, "Html", "HTML"),
        (DocumentType::Markdown, "Markdown", "Markdown"),
        (DocumentType::Excel, "Excel", "Excel"),
        (DocumentType::PowerPoint, "PowerPoint", "PowerPoint"),
        (DocumentType::Image, "Image", "Image"),
        (DocumentType::Audio, "Audio", "Audio"),
        (DocumentType::Video, "Video", "Video"),
        (DocumentType::Unknown, "Unknown", "Unknown"),
    ];
    for (kind, name, label) in all {
        assert_eq!(kind.as_str(), name);
        assert_eq!(kind.to_string(), label);
    }
}

#[test]
fn task_types_are_written_in_both_forms() {
    let analysis = TaskType::TextAnalysis { analysis_type: TextAnalysisType::Summarization };
    assert_eq!(analysis.to_string(), "TextAnalysis(Summarization)");
    assert_eq!(analysis.header_value(), "TextAnalysis { analysis_type: Summarization }");
    let indexing = TaskType::VectorIndexing { index_type: VectorIndexType::SemanticSearch };
    assert_eq!(indexing.to_string(), "VectorIndexing(SemanticSearch)");
    assert_eq!(indexing.header_value(), "VectorIndexing { index_type: SemanticSearch }");
    let custom = TaskType::Custom { name: "echo".to_string(), version: "1".to_string() };
    assert_eq!(custom.to_string(), "Custom(echo, 1)");
    assert_eq!(custom.header_value(), "Custom { name: \"echo\", version: \"1\" }");
    let quoted = TaskType::Custom { name: "a\"b".to_string(), version: "\n".to_string() };
    assert_eq!(quoted.header_value(), "Custom { name: \"a\\\"b\", version: \"\\n\" }");
    let document = TaskType::DocumentProcessing {
        document_type: DocumentType::Html,
        processing_type: DocumentProcessingType::KeywordExtraction,
    };
    assert_eq!(
        document.header_value(),
        "DocumentProcessing { document_type: Html, processing_type: KeywordExtraction }"
    );
}

#[test]
fn task_types_compare_by_value() {
    let a = TaskType::Custom { name: "echo".to_string(), version: "1".to_string() };
    let b = TaskType::Custom { name: "echo".to_string(), version: "1".to_string() };
    let c = TaskType::Custom { name: "echo".to_string(), version: "2".to_string() };
    assert!(a.same_as(&b));
    assert!(!a.same_as(&c));
    assert!(a.clone().same_as(&a));
    let d = TaskType::TextAnalysis { analysis_type: TextAnalysisType::TopicModeling };
    assert!(!a.same_as(&d));
    assert!(d.same_as(&d.clone()));
}

#[test]
fn worker_types_are_written_with_their_lists() {
    let none = WorkerType::DocumentProcessor { supported_types: vec![] };
    assert_eq!(none.to_string(), "DocumentProcessor([])");
    let two = WorkerType::DocumentProcessor {
        supported_types: vec![DocumentType::Pdf, DocumentType::Text],
    };
    assert_eq!(two.to_string(), "DocumentProcessor([Pdf, Text])");
    let analyzer = WorkerType::TextAnalyzer {
        supported_analyses: vec![
            TextAnalysisType::LanguageDetection,
            TextAnalysisType::KeywordExtraction,
            TextAnalysisType::SentimentAnalysis,
        ],
    };
    assert_eq!(
        analyzer.to_string(),
        "TextAnalyzer([LanguageDetection, KeywordExtraction, SentimentAnalysis])"
    );
    let indexer = WorkerType::VectorIndexer { supported_indexes: vec![VectorIndexType::DenseEmbedding] };
    assert_eq!(indexer.to_string(), "VectorIndexer([DenseEmbedding])");
    let custom = WorkerType::Custom { name: "gpu".to_string(), version: "2".to_string() };
    assert_eq!(custom.to_string(), "Custom(gpu, 2)");
    assert!(two.same_as(&two.clone()));
    assert!(!two.same_as(&none));
    assert!(!two.same_as(&custom));
}

#[test]
fn priorities_are_totally_ordered() {
    assert!(TaskPriority::Low < TaskPriority::Normal);
    assert!(TaskPriority::Normal < TaskPriority::High);
    assert!(TaskPriority::High < TaskPriority::Critical);
    assert_eq!(TaskPriority::Low.rank(), 1);
    assert_eq!(TaskPriority::Normal.rank(), 2);
    assert_eq!(TaskPriority::High.rank(), 3);
    assert_eq!(TaskPriority::Critical.rank(), 4);
    assert_eq!(TaskPriority::Normal.to_string(), "Normal");
}

#[test]
fn terminal_statuses_are_completed_failed_and_cancelled() {
    assert!(TaskStatus::Completed.is_terminal());
    assert!(TaskStatus::Failed.is_terminal());
    assert!(TaskStatus::Cancelled.is_terminal());
    assert!(!TaskStatus::Pending.is_terminal());
    assert!(!TaskStatus::Assigned.is_terminal());
    assert!(!TaskStatus::Processing.is_terminal());
    assert!(!TaskStatus::Retrying.is_terminal());
    assert_eq!(TaskStatus::Assigned.to_string(), "Assigned");
    assert_eq!(TaskStatus::Processing.to_string(), "Processing");
    assert_eq!(TaskStatus::Cancelled.to_string(), "Cancelled");
    assert_eq!(TaskStatus::Retrying.to_string(), "Retrying");
}

#[test]
fn the_life_cycle_of_a_worker_permits_what_it_should() {
    let starting = WorkerStatus::Starting;
    let running = WorkerStatus::Running;
    let idle = WorkerStatus::Idle;
    let busy = WorkerStatus::Busy;
    let error = WorkerStatus::Error("disk".to_string());
    let shutdown = WorkerStatus::Shutdown;
    assert!(starting.can_become(&running));
    assert!(starting.can_become(&idle));
    assert!(!starting.can_become(&busy));
    assert!(running.can_become(&busy));
    assert!(busy.can_become(&running));
    assert!(idle.can_become(&busy));
    assert!(!running.can_become(&starting));
    for from in [&starting, &running, &idle, &busy, &error] {
        assert!(from.can_become(&error));
        assert!(from.can_become(&shutdown));
    }
    assert!(error.can_become(&running));
    assert!(error.can_become(&idle));
    assert!(!error.can_become(&busy));
    assert!(!error.can_become(&starting));
    for to in [&starting, &running, &idle, &busy, &error] {
        assert!(!shutdown.can_become(to));
    }
    assert!(shutdown.can_become(&shutdown));
    assert!(running.is_in_service() && idle.is_in_service() && busy.is_in_service());
    assert!(!starting.is_in_service() && !error.is_in_service() && !shutdown.is_in_service());
    assert_eq!(WorkerStatus::Starting.to_string(), "Starting");
    assert_eq!(WorkerStatus::Idle.to_string(), "Idle");
    assert_eq!(WorkerStatus::Shutdown.to_string(), "Shutdown");
}

#[test]
fn the_names_of_the_kinds_of_work_are_their_identifiers() {
    assert_eq!(DocumentProcessingType::MetadataExtraction.as_str(), "MetadataExtraction");
    assert_eq!(DocumentProcessingType::VectorEmbedding.as_str(), "VectorEmbedding");
    assert_eq!(TextAnalysisType::NamedEntityRecognition.as_str(), "NamedEntityRecognition");
    assert_eq!(VectorIndexType::HybridEmbedding.as_str(), "HybridEmbedding");
    assert_eq!(TaskPriority::Critical.as_str(), "Critical");
    assert_eq!(TaskStatus::Failed.as_str(), "Failed");
}
