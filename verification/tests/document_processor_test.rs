use swarm::document_processor::{
    analyze_sentiment, clean_html, clean_markdown, detect_language, extract_keywords,
    find_closing, strip_tags,
    process_html, process_markdown, process_pdf, process_text_content, process_word, rank, stamp,
    tally_words, DocumentProcessingStats, Findings, Sentiment, SwarmDocumentProcessor, ONE_BITS,
};
use swarm::{
    Document, DocumentContent, DocumentError, DocumentProcessingConfig, DocumentProcessingOptions,
    DocumentProcessor, DocumentType, TextAnalysisOptions, TextMap,
};

fn create_test_config() -> DocumentProcessingConfig {
    DocumentProcessingConfig {
        max_file_size: 1024 * 1024,
        supported_types: vec![
            DocumentType::Pdf,
            DocumentType::Word,
            DocumentType::Text,
            DocumentType::Html,
            DocumentType::Markdown,
        ],
        processing_options: DocumentProcessingOptions::default(),
        text_analysis_options: TextAnalysisOptions::default(),
        enable_parallel_processing: true,
        max_concurrent_documents: 5,
    }
}

fn create_test_document(document_type: DocumentType, content: &str) -> Document {
    Document {
        id: uuid::Uuid::new_v4().as_u128(),
        filename: "test.txt".to_string(),
        document_type,
        content: DocumentContent::Text(content.to_string()),
        metadata: TextMap::new(),
        created_at: chrono::Utc::now().timestamp_millis(),
        size_bytes: content.len(),
    }
}

fn texts(items: &[&str]) -> Vec<String> {
    items.iter().map(|s| s.to_string()).collect()
}

fn mood(sentiment: Sentiment) -> f32 {
    if sentiment.words == 0 {
        return 0.0;
    }
    ((sentiment.positive as f32 - sentiment.negative as f32) / sentiment.words as f32)
        .clamp(-1.0, 1.0)
}

#[test]
fn test_document_processor_creation() {
    let config = create_test_config();
    let processor = SwarmDocumentProcessor::new(config);

    assert_eq!(processor.supported_document_types().len(), 5);
    assert!(processor.can_process(&DocumentType::Pdf));
    assert!(processor.can_process(&DocumentType::Text));
    assert!(!processor.can_process(&DocumentType::Image));
}

#[test]
fn a_text_is_handed_on_with_its_language_keywords_and_mood() {
    let processor = SwarmDocumentProcessor::new(create_test_config());
    let content = "This is a test document with some content for processing. It contains multiple words and sentences.";
    let document = create_test_document(DocumentType::Text, content);

    let result = processor.process_document(&document).unwrap();

    assert_eq!(result.extracted_text, Some(content.to_string()));
    assert_eq!(result.language, Some("en".to_string()));
    assert_eq!(
        result.keywords,
        texts(&[
            "this", "test", "document", "with", "some", "content", "processing", "contains",
            "multiple", "words"
        ])
    );
    assert_eq!(result.sentiment, Some(Sentiment { positive: 0, negative: 0, words: 16 }));
    assert_eq!(result.classification, None);
    assert_eq!(result.metadata.len(), 0);
    assert_eq!(result.embeddings, None);
    assert_ne!(result.document_id, 0);
    assert_ne!(result.document_id, document.id);
    assert!(result.processed_at > 1_600_000_000_000);
}

#[test]
fn test_pdf_document_processing() {
    let config = create_test_config();
    let processor = SwarmDocumentProcessor::new(config);
    let document =
        create_test_document(DocumentType::Pdf, "This is PDF content that should be processed.");

    let result = processor.process_document(&document).unwrap();

    assert!(result.extracted_text.is_some());
    assert!(result.extracted_text.unwrap().contains("[PDF EXTRACTED]"));
    assert_eq!(result.classification, Some("PDF Document".to_string()));
    assert!(result.metadata.contains_key("page_count"));
}

#[test]
fn every_format_has_its_mark_its_name_and_its_notes() {
    let options = DocumentProcessingOptions::default();
    let text = DocumentContent::Text("le texte".to_string());
    let binary = DocumentContent::Binary(vec![1, 2, 3]);
    let reference = DocumentContent::Reference {
        storage_id: "s3".to_string(),
        path: "a/b".to_string(),
        access_token: None,
    };
    let notes = |found: &Findings| -> Vec<(String, String)> {
        (0..found.metadata.len())
            .map(|i| (found.metadata.key_at(i).to_string(), found.metadata.value_at(i).to_string()))
            .collect()
    };
    let pair = |key: &str, value: &str| (key.to_string(), value.to_string());

    let pdf = process_pdf(&text, &options);
    assert_eq!(pdf.extracted_text, Some("[PDF EXTRACTED] le texte".to_string()));
    assert_eq!(pdf.classification, Some("PDF Document".to_string()));
    assert_eq!(notes(&pdf), vec![pair("page_count", "1"), pair("pdf_version", "\"1.4\"")]);
    assert_eq!(
        process_pdf(&binary, &options).extracted_text,
        Some("[PDF EXTRACTED] Binary PDF content processed".to_string())
    );
    assert_eq!(
        process_pdf(&reference, &options).extracted_text,
        Some("[PDF EXTRACTED] Referenced PDF content processed".to_string())
    );

    let word = process_word(&text, &options);
    assert_eq!(word.extracted_text, Some("[WORD EXTRACTED] le texte".to_string()));
    assert_eq!(word.classification, Some("Word Document".to_string()));
    assert_eq!(notes(&word), vec![pair("word_count", "100"), pair("document_format", "\"docx\"")]);
    assert_eq!(
        process_word(&binary, &options).extracted_text,
        Some("[WORD EXTRACTED] Binary Word document processed".to_string())
    );
    assert_eq!(
        process_word(&reference, &options).extracted_text,
        Some("[WORD EXTRACTED] Referenced Word document processed".to_string())
    );

    let html = process_html(&text, &options);
    assert_eq!(html.extracted_text, Some("[HTML EXTRACTED] le texte".to_string()));
    assert_eq!(html.classification, Some("HTML Document".to_string()));
    assert_eq!(notes(&html), vec![pair("content_type", "\"text/html\"")]);
    assert_eq!(
        process_html(&binary, &options).extracted_text,
        Some("[HTML EXTRACTED] Binary HTML content processed".to_string())
    );
    assert_eq!(
        process_html(&reference, &options).extracted_text,
        Some("[HTML EXTRACTED] Referenced HTML content processed".to_string())
    );

    let markdown = process_markdown(&text, &options);
    assert_eq!(markdown.extracted_text, Some("[MARKDOWN EXTRACTED] le texte".to_string()));
    assert_eq!(markdown.classification, Some("Markdown Document".to_string()));
    assert_eq!(notes(&markdown), vec![pair("content_type", "\"text/markdown\"")]);
    assert_eq!(
        process_markdown(&binary, &options).extracted_text,
        Some("[MARKDOWN EXTRACTED] Binary Markdown content processed".to_string())
    );
    assert_eq!(
        process_markdown(&reference, &options).extracted_text,
        Some("[MARKDOWN EXTRACTED] Referenced Markdown content processed".to_string())
    );
}

#[test]
fn test_html_document_processing() {
    let config = create_test_config();
    let processor = SwarmDocumentProcessor::new(config);
    let document = create_test_document(
        DocumentType::Html,
        "<h1>Title</h1><p>This is <strong>HTML</strong> content with <em>formatting</em>.</p>",
    );

    let result = processor.process_document(&document).unwrap();

    assert!(result.extracted_text.is_some());
    let extracted = result.extracted_text.unwrap();
    assert!(extracted.contains("[HTML EXTRACTED]"));
    assert!(!extracted.contains("<h1>"));
    assert!(!extracted.contains("<strong>"));
    assert_eq!(result.classification, Some("HTML Document".to_string()));
    assert_eq!(extracted, "[HTML EXTRACTED] TitleThis is HTML content with formatting.");
}

#[test]
fn html_loses_its_tags_and_its_entities() {
    assert_eq!(
        clean_html("  <p>Fish &amp; chips&nbsp;&lt;now&gt; &quot;hot&quot; &#39;n&#39; fresh</p>\n"),
        "Fish & chips <now> \"hot\" 'n' fresh"
    );
    // An ampersand that comes out of an entity is not read again.
    assert_eq!(clean_html("&amp;lt;"), "<");
    // A tag ends at the next closing bracket; a bracket that is never closed stays.
    assert_eq!(clean_html("a<b c=\"<\">d</b>e"), "ade");
    assert_eq!(clean_html("a < b"), "a < b");
    assert_eq!(clean_html("a > b <"), "a > b <");
    assert_eq!(clean_html("<<>>"), ">");
    assert_eq!(clean_html("<>"), "");
    assert_eq!(clean_html(""), "");
    let chars: Vec<char> = "x<i>y</i>z<".chars().collect();
    assert_eq!(strip_tags(&chars), "xyz<".chars().collect::<Vec<char>>());
    assert_eq!(find_closing(&chars, 0), 3);
    assert_eq!(find_closing(&chars, 4), 8);
    assert_eq!(find_closing(&chars, 9), 11);
    assert_eq!(find_closing(&chars, 11), 11);
}

#[test]
fn test_markdown_document_processing() {
    let config = create_test_config();
    let processor = SwarmDocumentProcessor::new(config);
    let document = create_test_document(
        DocumentType::Markdown,
        "# Title\n\nThis is **markdown** content with *formatting* and `code`.",
    );

    let result = processor.process_document(&document).unwrap();

    assert!(result.extracted_text.is_some());
    let extracted = result.extracted_text.unwrap();
    assert!(extracted.contains("[MARKDOWN EXTRACTED]"));
    assert!(!extracted.contains("#"));
    assert!(!extracted.contains("**"));
    assert_eq!(result.classification, Some("Markdown Document".to_string()));
    assert_eq!(
        extracted,
        "[MARKDOWN EXTRACTED] Title\n\nThis is markdown content with formatting and code."
    );
}

#[test]
fn markdown_loses_its_marks() {
    assert_eq!(clean_markdown(" # A [link](http://x_y) `c` *b* \n"), "A linkhttp://xy c b");
    assert_eq!(clean_markdown("#*_`[]()"), "");
}

#[test]
fn test_unsupported_document_type() {
    let config = create_test_config();
    let processor = SwarmDocumentProcessor::new(config);
    let document = create_test_document(DocumentType::Image, "This is image content");

    let result = processor.process_document(&document);
    assert!(result.is_err());
    assert_eq!(result.unwrap_err(), "Unsupported document type: Image");
}

#[test]
fn documents_are_refused_for_the_stated_reasons() {
    let mut config = create_test_config();
    config.max_file_size = 10;
    config.supported_types.push(DocumentType::Audio);
    let processor = SwarmDocumentProcessor::new(config);

    let large = create_test_document(DocumentType::Image, "01234567890");
    assert_eq!(
        processor.analyze(&large),
        Err(DocumentError::ProcessingFailed {
            reason: "Document too large: 11 bytes (max: 10 bytes)".to_string()
        })
    );
    let exact = create_test_document(DocumentType::Text, "0123456789");
    assert!(processor.analyze(&exact).is_ok());

    let image = create_test_document(DocumentType::Image, "x");
    assert_eq!(
        processor.analyze(&image),
        Err(DocumentError::UnsupportedDocumentType { document_type: "Image".to_string() })
    );
    // A format that the configuration lets in and the processor does not know.
    let audio = create_test_document(DocumentType::Audio, "x");
    assert_eq!(
        processor.analyze(&audio),
        Err(DocumentError::UnsupportedDocumentType { document_type: "Audio".to_string() })
    );

    let mut bytes = create_test_document(DocumentType::Text, "x");
    bytes.content = DocumentContent::Binary(vec![1]);
    assert_eq!(
        processor.analyze(&bytes),
        Err(DocumentError::ProcessingFailed {
            reason: "Text document must have text content".to_string()
        })
    );
    assert_eq!(
        processor.process_document(&bytes).unwrap_err(),
        "Processing failed: Text document must have text content"
    );
}

#[test]
fn document_processor_test_language_detection() {
    let config = create_test_config();
    let processor = SwarmDocumentProcessor::new(config);

    let english_doc = create_test_document(
        DocumentType::Text,
        "The quick brown fox jumps over the lazy dog. This is a test document.",
    );
    let result = processor.process_document(&english_doc).unwrap();
    assert_eq!(result.language, Some("en".to_string()));

    let swedish_doc = create_test_document(
        DocumentType::Text,
        "Detta är ett test dokument på svenska. Och det innehåller flera ord.",
    );
    let result = processor.process_document(&swedish_doc).unwrap();
    assert_eq!(result.language, Some("sv".to_string()));
}

#[test]
fn the_language_goes_by_the_more_frequent_words() {
    assert_eq!(detect_language(""), "unknown");
    assert_eq!(detect_language("xyz 123"), "unknown");
    assert_eq!(detect_language("THE"), "en");
    // One word of each: Swedish wins a draw.
    assert_eq!(detect_language("by av"), "sv");
    assert_eq!(detect_language("by by av"), "en");
    // Words are counted wherever they occur, inside other words too.
    assert_eq!(detect_language("bathe"), "en");
    assert_eq!(detect_language("PÅ"), "sv");
}

#[test]
fn document_processor_test_keyword_extraction() {
    let config = create_test_config();
    let processor = SwarmDocumentProcessor::new(config);
    let document = create_test_document(
        DocumentType::Text,
        "This is a test document with important keywords. The document contains multiple important words and phrases that should be extracted as keywords.",
    );

    let result = processor.process_document(&document).unwrap();

    assert!(!result.keywords.is_empty());
    assert!(result.keywords.len() <= 10);
    assert!(result.keywords.iter().all(|kw| kw.len() > 3));
    assert_eq!(
        result.keywords,
        texts(&[
            "document", "important", "keywords", "this", "test", "with", "contains", "multiple",
            "words", "phrases"
        ])
    );
}

#[test]
fn keywords_are_ranked_by_how_often_they_occur() {
    assert_eq!(extract_keywords(""), Vec::<String>::new());
    assert_eq!(extract_keywords("a an the of"), Vec::<String>::new());
    assert_eq!(
        extract_keywords("beta alpha, (Alpha) gamma! GAMMA gamma beta... delta"),
        texts(&["gamma", "beta", "alpha", "delta"])
    );
    // Three bytes are not enough, four are; a letter of two bytes counts twice.
    assert_eq!(extract_keywords("abc abcd åbc"), texts(&["abcd", "åbc"]));

    let tally = tally_words("one two three three four four four");
    assert_eq!(tally.len(), 2);
    assert_eq!(tally.get("three"), 2);
    assert_eq!(tally.get("four"), 3);
    let ranking = rank(&tally);
    let rows: Vec<(&str, u64)> = ranking.iter().map(|l| (l.name.as_str(), l.count)).collect();
    assert_eq!(rows, vec![("four", 3), ("three", 2)]);
}

#[test]
fn test_sentiment_analysis() {
    let config = create_test_config();
    let processor = SwarmDocumentProcessor::new(config);

    let positive_doc = create_test_document(
        DocumentType::Text,
        "This is a great document! I love it and it's amazing. Wonderful work!",
    );
    let result = processor.process_document(&positive_doc).unwrap();
    assert!(mood(result.sentiment.unwrap()) > 0.0);
    assert_eq!(result.sentiment, Some(Sentiment { positive: 4, negative: 0, words: 13 }));
    assert_eq!(result.sentiment.unwrap().leaning(), 1);

    let negative_doc = create_test_document(
        DocumentType::Text,
        "This is a terrible document. I hate it and it's awful. Worst work ever!",
    );
    let result = processor.process_document(&negative_doc).unwrap();
    assert!(mood(result.sentiment.unwrap()) < 0.0);
    assert_eq!(result.sentiment, Some(Sentiment { positive: 0, negative: 4, words: 14 }));
    assert_eq!(result.sentiment.unwrap().leaning(), -1);
}

#[test]
fn the_mood_of_a_text_goes_by_its_words_of_praise_and_blame() {
    assert_eq!(analyze_sentiment(""), Sentiment { positive: 0, negative: 0, words: 0 });
    assert_eq!(analyze_sentiment("").leaning(), 0);
    assert_eq!(
        analyze_sentiment("Good, bad"),
        Sentiment { positive: 1, negative: 1, words: 2 }
    );
    assert_eq!(analyze_sentiment("Good, bad").leaning(), 0);
    // "dislike" holds "like".
    assert_eq!(analyze_sentiment("dislike"), Sentiment { positive: 1, negative: 1, words: 1 });
    assert_eq!(
        analyze_sentiment("goodgoodgood"),
        Sentiment { positive: 3, negative: 0, words: 1 }
    );
    assert_eq!(mood(analyze_sentiment("goodgoodgood")), 1.0);
}

#[test]
fn the_options_say_what_is_looked_for() {
    let nothing = DocumentProcessingOptions {
        extract_text: false,
        extract_metadata: false,
        detect_language: false,
        extract_keywords: false,
        generate_embeddings: false,
        preserve_formatting: false,
    };
    let content = "The great great text";

    let bare = process_text_content(content, &nothing);
    assert_eq!(
        bare,
        Findings {
            extracted_text: None,
            metadata: TextMap::new(),
            language: None,
            keywords: vec![],
            sentiment: None,
            classification: None,
        }
    );

    let words_only = DocumentProcessingOptions { detect_language: true, extract_keywords: true, ..nothing };
    let found = process_text_content(content, &words_only);
    assert_eq!(found.extracted_text, None);
    assert_eq!(found.language, Some("en".to_string()));
    assert_eq!(found.keywords, texts(&["great", "text"]));
    assert_eq!(found.sentiment, None);

    // Of a document of a format of its own nothing is said unless its text is extracted.
    let pdf = process_pdf(&DocumentContent::Text(content.to_string()), &words_only);
    assert_eq!(pdf.extracted_text, None);
    assert_eq!(pdf.language, None);
    assert_eq!(pdf.keywords, Vec::<String>::new());
    assert_eq!(pdf.sentiment, None);
    assert_eq!(pdf.classification, Some("PDF Document".to_string()));
    assert_eq!(pdf.metadata.len(), 2);

    let text_only = DocumentProcessingOptions { extract_text: true, ..nothing };
    let pdf = process_pdf(&DocumentContent::Text(content.to_string()), &text_only);
    assert_eq!(pdf.extracted_text, Some("[PDF EXTRACTED] The great great text".to_string()));
    assert_eq!(pdf.language, None);
    assert_eq!(pdf.keywords, Vec::<String>::new());
    assert_eq!(pdf.sentiment, Some(Sentiment { positive: 2, negative: 0, words: 6 }));
}

#[test]
fn a_result_is_stamped_with_the_time_the_work_took() {
    let found = process_text_content("some text", &DocumentProcessingOptions::default());
    let result = stamp(found, 9, 1_000, 1_250);
    assert_eq!(result.document_id, 9);
    assert_eq!(result.processed_at, 1_000);
    assert_eq!(result.processing_time_ms, 250);
    assert_eq!(result.extracted_text, Some("some text".to_string()));
    assert_eq!(result.embeddings, None);

    let found = process_text_content("some text", &DocumentProcessingOptions::default());
    assert_eq!(stamp(found, 9, 1_000, 900).processing_time_ms, 0);
    let found = process_text_content("some text", &DocumentProcessingOptions::default());
    assert_eq!(stamp(found, 9, i64::MIN, i64::MAX).processing_time_ms, u64::MAX);
}

#[test]
fn the_figures_of_a_processor_start_at_nought() {
    let fresh = DocumentProcessingStats {
        total_processed: 0,
        throughput_per_second_bits: 0.0f32.to_bits(),
        average_processing_time_ms_bits: 0.0f32.to_bits(),
        error_count: 0,
        success_rate_bits: 1.0f32.to_bits(),
        documents_by_type: vec![],
        last_processed_at: None,
    };
    assert_eq!(ONE_BITS, 1.0f32.to_bits());
    assert_eq!(DocumentProcessingStats::default(), fresh);
    let mut processor = SwarmDocumentProcessor::new(create_test_config());
    assert_eq!(*processor.get_stats(), fresh);
    processor.reset_stats();
    assert_eq!(*processor.get_stats(), fresh);
}
