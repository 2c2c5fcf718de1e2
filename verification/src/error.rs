//! What can go wrong in the store.

use vstd::prelude::*;
use vstd::string::*;

use crate::path::ChunkIndices;
use crate::path::Path;

verus! {

/// `serde_json::Error`: why a text is not JSON. Opaque here; it is only
/// carried to the caller.
#[verifier::external_type_specification]
#[verifier::external_body]
pub struct ExJsonError(serde_json::Error);

/// An error that the dataset engine reported. The store does not look into
/// it.
#[derive(Debug, Clone, PartialEq, Eq)]
pub struct DatasetError {
    pub message: String,
}

/// Why a text is not the document that was asked for.
#[derive(Debug)]
pub enum DocumentError {
    /// The text is not JSON.
    Syntax(serde_json::Error),
    /// The text is JSON, but not a document of the kind asked for: a field
    /// is missing or of the wrong type, an envelope has an unknown name, or
    /// the fill value does not suit the data type.
    Format,
}

/// `serde_json::Error` as text, by its `Display`: the parser's message with
/// the line and the column. Nothing is claimed of the text.
#[verifier::external_body]
fn syntax_message(e: &serde_json::Error) -> String {
    e.to_string()
}

impl DocumentError {
    /// The error in words: the parser's own message for a text that is not
    /// JSON, and `not a document of the kind asked for` for JSON that does
    /// not fit.
    pub fn message(&self) -> (r: String)
        ensures
            self is Format ==> r@ == "not a document of the kind asked for"@,
    {
        match self {
            DocumentError::Syntax(e) => syntax_message(e),
            DocumentError::Format => String::from_str("not a document of the kind asked for"),
        }
    }
}

/// Which of the two a document error is.
pub enum DocumentFault {
    Syntax,
    Format,
}

impl View for DocumentError {
    type V = DocumentFault;

    open spec fn view(&self) -> DocumentFault {
        match self {
            DocumentError::Syntax(_) => DocumentFault::Syntax,
            DocumentError::Format => DocumentFault::Format,
        }
    }
}

/// Nothing is stored under a key.
#[derive(Debug, Clone, PartialEq, Eq)]
pub enum KeyNotFoundError {
    /// The array has no chunk at these coordinates.
    ChunkNotFound { key: String, path: Path, coords: ChunkIndices },
    /// There is no node at this path.
    NodeNotFound { path: Path },
}

/// A missing key as a mathematical value.
pub enum KeyNotFoundView {
    ChunkNotFound { key: Seq<char>, path: Seq<u8>, coords: Seq<u64> },
    NodeNotFound { path: Seq<u8> },
}

impl View for KeyNotFoundError {
    type V = KeyNotFoundView;

    open spec fn view(&self) -> KeyNotFoundView {
        match self {
            KeyNotFoundError::ChunkNotFound { key, path, coords } => KeyNotFoundView::ChunkNotFound {
                key: key@,
                path: path@,
                coords: coords@,
            },
            KeyNotFoundError::NodeNotFound { path } => KeyNotFoundView::NodeNotFound { path: path@ },
        }
    }
}

/// The errors of the store's operations.
#[derive(Debug)]
pub enum StoreError {
    /// The key does not follow the key grammar.
    InvalidKey { key: String },
    /// The key is well formed, but nothing is stored under it.
    NotFound(KeyNotFoundError),
    /// The dataset engine refused or failed an operation.
    CannotUpdate(DatasetError),
    /// The payload written under a metadata key is not node metadata.
    BadMetadata(DocumentError),
    /// The named operation is not offered.
    Unimplemented(&'static str),
    /// A listing prefix does not end with `/`.
    BadKeyPrefix(String),
    /// A failure outside the store and the engine, such as a task that could
    /// not be joined.
    Unknown(String),
}

/// An error of the store as a mathematical value. An engine error is held
/// as its message, a metadata error as its kind.
pub enum StoreErrorView {
    InvalidKey { key: Seq<char> },
    NotFound(KeyNotFoundView),
    CannotUpdate(Seq<char>),
    BadMetadata(DocumentFault),
    Unimplemented(Seq<char>),
    BadKeyPrefix(Seq<char>),
    Unknown(Seq<char>),
}

impl View for StoreError {
    type V = StoreErrorView;

    open spec fn view(&self) -> StoreErrorView {
        match self {
            StoreError::InvalidKey { key } => StoreErrorView::InvalidKey { key: key@ },
            StoreError::NotFound(e) => StoreErrorView::NotFound(e@),
            StoreError::CannotUpdate(e) => StoreErrorView::CannotUpdate(e.message@),
            StoreError::BadMetadata(e) => StoreErrorView::BadMetadata(e@),
            StoreError::Unimplemented(name) => StoreErrorView::Unimplemented(name@),
            StoreError::BadKeyPrefix(prefix) => StoreErrorView::BadKeyPrefix(prefix@),
            StoreError::Unknown(message) => StoreErrorView::Unknown(message@),
        }
    }
}

/// The result of a store operation.
pub type StoreResult<A> = Result<A, StoreError>;

} // verus!
