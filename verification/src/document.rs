//! Documents, the unit of input that tasks are made from.

use crate::textmap::TextMap;
use crate::types::{DocumentId, DocumentType, Timestamp};
use vstd::prelude::*;

verus! {

/// The characters of an optional text.
pub open spec fn optional_text(text: Option<String>) -> Option<Seq<char>> {
    match text {
        Some(t) => Some(t@),
        None => None,
    }
}

/// A copy of an optional text.
pub fn clone_optional_text(text: &Option<String>) -> (copy: Option<String>)
    ensures
        optional_text(copy) == optional_text(*text),
{
    match text {
        Some(t) => Some(t.clone()),
        None => None,
    }
}

/// What a document holds.
#[derive(Debug, PartialEq, Eq)]
pub enum DocumentContent {
    /// Plain text.
    Text(String),
    /// Raw bytes.
    Binary(Vec<u8>),
    /// A pointer into an external store.
    Reference { storage_id: String, path: String, access_token: Option<String> },
}

/// The mathematical value of a [`DocumentContent`].
pub enum DocumentContentView {
    Text(Seq<char>),
    Binary(Seq<u8>),
    Reference { storage_id: Seq<char>, path: Seq<char>, access_token: Option<Seq<char>> },
}

impl View for DocumentContent {
    type V = DocumentContentView;

    open spec fn view(&self) -> DocumentContentView {
        match self {
            DocumentContent::Text(text) => DocumentContentView::Text(text@),
            DocumentContent::Binary(bytes) => DocumentContentView::Binary(bytes@),
            DocumentContent::Reference { storage_id, path, access_token } =>
                DocumentContentView::Reference {
                    storage_id: storage_id@,
                    path: path@,
                    access_token: optional_text(*access_token),
                },
        }
    }
}

impl Clone for DocumentContent {
    fn clone(&self) -> (copy: Self)
        ensures
            copy@ == self@,
    {
        match self {
            DocumentContent::Text(text) => DocumentContent::Text(text.clone()),
            DocumentContent::Binary(bytes) => DocumentContent::Binary(bytes.clone()),
            DocumentContent::Reference { storage_id, path, access_token } =>
                DocumentContent::Reference {
                    storage_id: storage_id.clone(),
                    path: path.clone(),
                    access_token: clone_optional_text(access_token),
                },
        }
    }
}

/// A document on its way through the swarm.
#[derive(Debug, PartialEq, Eq)]
pub struct Document {
    pub id: DocumentId,
    pub filename: String,
    pub document_type: DocumentType,
    pub content: DocumentContent,
    /// Free-form metadata; each value is a JSON text.
    pub metadata: TextMap,
    pub created_at: Timestamp,
    pub size_bytes: usize,
}

/// The mathematical value of a [`Document`].
pub struct DocumentView {
    pub id: DocumentId,
    pub filename: Seq<char>,
    pub document_type: DocumentType,
    pub content: DocumentContentView,
    pub metadata: Seq<(Seq<char>, Seq<char>)>,
    pub created_at: Timestamp,
    pub size_bytes: usize,
}

impl View for Document {
    type V = DocumentView;

    open spec fn view(&self) -> DocumentView {
        DocumentView {
            id: self.id,
            filename: self.filename@,
            document_type: self.document_type,
            content: self.content@,
            metadata: self.metadata@,
            created_at: self.created_at,
            size_bytes: self.size_bytes,
        }
    }
}

impl Clone for Document {
    fn clone(&self) -> (copy: Self)
        ensures
            copy@ == self@,
    {
        Document {
            id: self.id,
            filename: self.filename.clone(),
            document_type: self.document_type,
            content: self.content.clone(),
            metadata: self.metadata.clone(),
            created_at: self.created_at,
            size_bytes: self.size_bytes,
        }
    }
}

impl Document {
    /// A document of text with the given name. Its format goes by its name,
    /// its size is that of the text in bytes, its identifier is fresh, and it
    /// counts as made now.
    pub fn new(filename: String, content: String) -> (document: Document)
        ensures
            document.id != 0,
            document.created_at >= 0,
            document@ == (DocumentView {
                id: document.id,
                filename: filename@,
                document_type: DocumentType::of_extension(
                    crate::text::lowercase(crate::text::after_last(filename@, '.')),
                ),
                content: DocumentContentView::Text(content@),
                metadata: Seq::empty(),
                created_at: document.created_at,
                size_bytes: crate::message::byte_len(content@) as usize,
            }),
    {
        let document_type = DocumentType::from_filename(filename.as_str());
        let size_bytes = content.as_str().as_bytes().len();
        Document {
            id: crate::ident::fresh_id(),
            filename,
            document_type,
            content: DocumentContent::Text(content),
            metadata: TextMap::new(),
            created_at: crate::clock::now_millis(),
            size_bytes,
        }
    }

    /// The document with the given metadata in place of its own.
    pub fn with_metadata(self, metadata: TextMap) -> (document: Document)
        ensures
            document@ == (DocumentView { metadata: metadata@, ..self@ }),
    {
        let mut document = self;
        document.metadata = metadata;
        document
    }
}

/// Which steps a document-processing task is to carry out.
#[derive(Debug, Clone, Copy, PartialEq, Eq, Structural)]
pub struct DocumentProcessingOptions {
    pub extract_text: bool,
    pub extract_metadata: bool,
    pub detect_language: bool,
    pub extract_keywords: bool,
    pub generate_embeddings: bool,
    pub preserve_formatting: bool,
}

impl Default for DocumentProcessingOptions {
    /// Text, metadata, language and keywords are extracted; embeddings and
    /// formatting are left out.
    fn default() -> (options: Self)
        ensures
            options == (DocumentProcessingOptions {
                extract_text: true,
                extract_metadata: true,
                detect_language: true,
                extract_keywords: true,
                generate_embeddings: false,
                preserve_formatting: false,
            }),
    {
        DocumentProcessingOptions {
            extract_text: true,
            extract_metadata: true,
            detect_language: true,
            extract_keywords: true,
            generate_embeddings: false,
            preserve_formatting: false,
        }
    }
}

} // verus!
