//! The settings of an ingestion run, and what has to hold of them before it starts.

use crate::error::{
    dimension_mismatch, zero_batch_size, zero_chunk_size, ErrorKind, Failure, IngestError,
};
use crate::text::texts_of;
use vstd::prelude::*;
use vstd::string::*;

verus! {

/// The length of the vectors that the index is created for.
pub const VECTOR_SIZE: usize = 384;

/// The name of the collection that the documents are written to.
pub fn collection_name() -> (name: &'static str)
    ensures
        name@ == "documents"@,
{
    "documents"
}

/// The settings of an ingestion run.
#[derive(Clone, Debug, PartialEq, Eq)]
pub struct ProcessingConfig {
    /// The most lines a chunk may hold.
    pub chunk_size: usize,
    /// The most points one upsert call may carry.
    pub batch_size: usize,
    /// The size of the buffer that files are read through, in bytes.
    pub buffer_size: usize,
    /// The extensions of the files to ingest, without the dot.
    pub file_extensions: Vec<String>,
}

/// The settings as specifications see them.
pub struct ConfigView {
    pub chunk_size: nat,
    pub batch_size: nat,
    pub buffer_size: nat,
    pub file_extensions: Seq<Seq<char>>,
}

impl View for ProcessingConfig {
    type V = ConfigView;

    open spec fn view(&self) -> ConfigView {
        ConfigView {
            chunk_size: self.chunk_size as nat,
            batch_size: self.batch_size as nat,
            buffer_size: self.buffer_size as nat,
            file_extensions: texts_of(self.file_extensions@),
        }
    }
}

/// The settings a run has when nothing else is asked for.
pub open spec fn default_config() -> ConfigView {
    ConfigView {
        chunk_size: 3000,
        batch_size: 5,
        buffer_size: 65536,
        file_extensions: seq!["txt"@, "md"@],
    }
}

/// What is wrong with the sizes of a configuration, if anything. The chunk size is
/// looked at first.
pub open spec fn config_fault(chunk_size: nat, batch_size: nat) -> Option<Failure> {
    if chunk_size == 0 {
        Some(Failure { kind: ErrorKind::ConfigurationError, message: zero_chunk_size() })
    } else if batch_size == 0 {
        Some(Failure { kind: ErrorKind::ConfigurationError, message: zero_batch_size() })
    } else {
        None
    }
}

/// The search pattern for the files of one extension directly under a directory.
pub open spec fn pattern_for(directory: Seq<char>, extension: Seq<char>) -> Seq<char> {
    directory + "/*."@ + extension
}

/// The search patterns for a directory, one for each extension, in their order.
pub open spec fn patterns_for(directory: Seq<char>, extensions: Seq<Seq<char>>) -> Seq<Seq<char>> {
    Seq::new(extensions.len(), |i: int| pattern_for(directory, extensions[i]))
}

impl Default for ProcessingConfig {
    fn default() -> (config: ProcessingConfig)
        ensures
            config@ == default_config(),
    {
        let mut file_extensions: Vec<String> = Vec::new();
        file_extensions.push(String::from_str("txt"));
        file_extensions.push(String::from_str("md"));
        let config = ProcessingConfig {
            chunk_size: 3000,
            batch_size: 5,
            buffer_size: 65536,
            file_extensions,
        };
        assert(config@.file_extensions =~= seq!["txt"@, "md"@]);
        config
    }
}

impl ProcessingConfig {
    /// Checks the sizes: a chunk and a batch must each have room for one item.
    pub fn validate(&self) -> (res: Result<(), IngestError>)
        ensures
            match config_fault(self@.chunk_size, self@.batch_size) {
                Some(fault) => res matches Err(e) && e@ == fault,
                None => res is Ok,
            },
    {
        if self.chunk_size == 0 {
            Err(IngestError::new(ErrorKind::ConfigurationError, "chunk_size must be at least 1"))
        } else if self.batch_size == 0 {
            Err(IngestError::new(ErrorKind::ConfigurationError, "batch_size must be at least 1"))
        } else {
            Ok(())
        }
    }

    /// The patterns under which the files of `directory` are looked for. Searching
    /// them in this order, and keeping the order of what each search finds, gives the
    /// order in which the files are ingested.
    pub fn patterns(&self, directory: &str) -> (patterns: Vec<String>)
        ensures
            texts_of(patterns@) == patterns_for(directory@, self@.file_extensions),
    {
        let mut patterns: Vec<String> = Vec::new();
        let mut i: usize = 0;
        while i < self.file_extensions.len()
            invariant
                0 <= i <= self.file_extensions.len(),
                texts_of(patterns@) == patterns_for(directory@, self@.file_extensions).take(
                    i as int,
                ),
            decreases self.file_extensions.len() - i,
        {
            let mut pattern = String::from_str(directory);
            pattern.append("/*.");
            pattern.append(self.file_extensions[i].as_str());
            let ghost before = texts_of(patterns@);
            patterns.push(pattern);
            assert(texts_of(patterns@) =~= before.push(pattern@));
            assert(texts_of(patterns@) =~= patterns_for(directory@, self@.file_extensions).take(
                i + 1,
            ));
            i = i + 1;
        }
        assert(patterns_for(directory@, self@.file_extensions).take(
            self.file_extensions.len() as int,
        ) =~= patterns_for(directory@, self@.file_extensions));
        patterns
    }
}

/// The embedding backend and the index must agree on the length of a vector; a
/// difference is a configuration error.
pub fn check_dimensions(backend: usize, index: usize) -> (res: Result<(), IngestError>)
    ensures
        backend == index <==> res is Ok,
        res matches Err(e) ==> e@ == (Failure {
            kind: ErrorKind::ConfigurationError,
            message: dimension_mismatch(),
        }),
{
    if backend == index {
        Ok(())
    } else {
        Err(
            IngestError::new(
                ErrorKind::ConfigurationError,
                "embedding dimensionality differs from the index's vector size",
            ),
        )
    }
}

/// Whether the collection `wanted` has still to be created: it is not among the
/// collections that the index lists.
pub fn collection_missing(existing: &Vec<String>, wanted: &str) -> (missing: bool)
    ensures
        missing == !texts_of(existing@).contains(wanted@),
{
    let name = String::from_str(wanted);
    let mut i: usize = 0;
    while i < existing.len()
        invariant
            0 <= i <= existing.len(),
            name@ == wanted@,
            forall|k: int| 0 <= k < i ==> texts_of(existing@)[k] != wanted@,
        decreases existing.len() - i,
    {
        if existing[i] == name {
            assert(texts_of(existing@)[i as int] == wanted@);
            return false;
        }
        i = i + 1;
    }
    true
}

} // verus!
