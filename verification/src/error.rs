//! The ways an ingestion run can fail.

use vstd::prelude::*;
use vstd::string::*;

verus! {

/// What went wrong.
#[derive(Clone, Copy, Debug, PartialEq, Eq, Structural)]
pub enum ErrorKind {
    /// A file could not be found, opened or read.
    IoError,
    /// The embedding backend failed, or answered with the wrong number of vectors.
    EmbeddingError,
    /// A file's metadata cannot be used, such as a name that is not text.
    MetadataError,
    /// The vector index refused a batch.
    UpsertError,
    /// The run was set up with values it cannot work with.
    ConfigurationError,
}

/// An error of an ingestion run: its kind, and a message for the caller.
#[derive(Clone, Debug, PartialEq, Eq)]
pub struct IngestError {
    pub kind: ErrorKind,
    pub message: String,
}

/// An error as specifications see it.
pub struct Failure {
    pub kind: ErrorKind,
    pub message: Seq<char>,
}

impl View for IngestError {
    type V = Failure;

    open spec fn view(&self) -> Failure {
        Failure { kind: self.kind, message: self.message@ }
    }
}

/// The message of a configuration whose chunk size is zero.
pub open spec fn zero_chunk_size() -> Seq<char> {
    "chunk_size must be at least 1"@
}

/// The message of a configuration whose batch size is zero.
pub open spec fn zero_batch_size() -> Seq<char> {
    "batch_size must be at least 1"@
}

/// The message of an embedding backend that declares another dimensionality than the index.
pub open spec fn dimension_mismatch() -> Seq<char> {
    "embedding dimensionality differs from the index's vector size"@
}

/// The message of a run whose point counter has no room left.
pub open spec fn ids_exhausted() -> Seq<char> {
    "point id counter would overflow"@
}

/// The message of an embedding answer with another number of vectors than texts.
pub open spec fn vector_count_mismatch() -> Seq<char> {
    "embedding backend returned a different number of vectors than texts"@
}

/// The message of a file whose name is not text.
pub open spec fn missing_file_name() -> Seq<char> {
    "file name is missing or not valid UTF-8"@
}

impl IngestError {
    /// An error of the given kind with the given message.
    pub fn new(kind: ErrorKind, message: &str) -> (e: IngestError)
        ensures
            e@ == (Failure { kind, message: message@ }),
    {
        IngestError { kind, message: String::from_str(message) }
    }

    /// A copy of this error.
    pub fn duplicate(&self) -> (e: IngestError)
        ensures
            e@ == self@,
    {
        IngestError { kind: self.kind, message: self.message.clone() }
    }

    /// The error as one line of text: the kind's name, a colon, and the message.
    pub fn describe(&self) -> (text: String)
        ensures
            text@ == kind_name(self.kind) + ": "@ + self.message@,
    {
        let name = match self.kind {
            ErrorKind::IoError => "IoError",
            ErrorKind::EmbeddingError => "EmbeddingError",
            ErrorKind::MetadataError => "MetadataError",
            ErrorKind::UpsertError => "UpsertError",
            ErrorKind::ConfigurationError => "ConfigurationError",
        };
        let mut text = String::from_str(name);
        text.append(": ");
        text.append(self.message.as_str());
        text
    }
}

/// The name of an error kind.
pub open spec fn kind_name(kind: ErrorKind) -> Seq<char> {
    match kind {
        ErrorKind::IoError => "IoError"@,
        ErrorKind::EmbeddingError => "EmbeddingError"@,
        ErrorKind::MetadataError => "MetadataError"@,
        ErrorKind::UpsertError => "UpsertError"@,
        ErrorKind::ConfigurationError => "ConfigurationError"@,
    }
}

} // verus!
