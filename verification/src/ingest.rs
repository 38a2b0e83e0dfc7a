//! The ingestion run: files are taken one after the other, their lines gathered into
//! chunks, the chunks embedded, the points built and handed to the dispatcher.
//!
//! Reading files, computing embeddings and writing to the index are the caller's
//! part. The run decides: it says what it waits for, takes the outcome as an event,
//! and says what it waits for next.

use crate::batch::{Dispatcher, DispatcherView};
use crate::config::{config_fault, ProcessingConfig};
use crate::error::{missing_file_name, ErrorKind, Failure, IngestError};
use crate::model::{points_view, DocumentMeta, IdPolicy, MetaView, Point};
use crate::points::{build_points, chunk_fault, points_of};
use crate::text::{blank, is_blank, texts_of};
use vstd::prelude::*;

verus! {

/// What the run waits for.
#[derive(Clone, Copy, Debug, PartialEq, Eq, Structural)]
pub enum Request {
    /// The next file is to be opened; `current_path` names it.
    Open,
    /// The next line of the open file is to be read.
    ReadLine,
    /// The lines of `chunk` are to be embedded.
    Embed,
    /// The points of `next_batch` are to be written to the index.
    Upsert,
    /// The run is over and has succeeded.
    Finished,
    /// The run is over and has failed.
    Failed,
}

/// What the caller reports back.
#[derive(Debug)]
pub enum Event<V> {
    /// The file was opened: its name, where the name is text, and the time of its
    /// last change in seconds since the epoch.
    Opened { file_name: Option<String>, last_modified: u64 },
    /// The next line of the file.
    Line(String),
    /// The file has no more lines.
    EndOfFile,
    /// The file could not be opened or read.
    ReadFailed(String),
    /// The vectors for the lines of the chunk, in the order of the lines.
    Embedded(Vec<V>),
    /// The embedding backend failed.
    EmbedFailed(String),
    /// The index took the batch.
    Upserted,
    /// The index refused the batch.
    UpsertFailed(String),
}

/// The file that is being read.
#[derive(Debug)]
pub struct OpenFile {
    meta: DocumentMeta,
    at_eof: bool,
    has_lines: bool,
}

/// The file that is being read, as specifications see it.
pub struct OpenFileView {
    pub meta: MetaView,
    /// Whether the end of the file has been reached.
    pub at_eof: bool,
    /// Whether the file has given a line that is not blank.
    pub has_lines: bool,
}

impl View for OpenFile {
    type V = OpenFileView;

    closed spec fn view(&self) -> OpenFileView {
        OpenFileView { meta: self.meta@, at_eof: self.at_eof, has_lines: self.has_lines }
    }
}

/// One ingestion run.
#[derive(Debug)]
pub struct Ingestion<V> {
    chunk_size: usize,
    policy: IdPolicy,
    files: Vec<String>,
    cursor: usize,
    open: Option<OpenFile>,
    start_id: u64,
    next_id: u64,
    chunk: Vec<String>,
    outbox: Dispatcher<V>,
    skipped: usize,
    failure: Option<IngestError>,
}

/// A run as specifications see it.
pub struct RunView<V> {
    /// The most lines a chunk may hold.
    pub chunk_size: nat,
    pub policy: IdPolicy,
    /// The paths of the files of the run, in the order in which they are ingested.
    pub files: Seq<Seq<char>>,
    /// How many files the run is done with.
    pub cursor: nat,
    /// The file that is being read, if one is.
    pub open: Option<OpenFileView>,
    /// Where the point counter stood when the run began.
    pub start_id: u64,
    /// Where the point counter stands: `start_id` plus the points built so far.
    pub next_id: u64,
    /// The lines gathered for the next chunk.
    pub chunk: Seq<Seq<char>>,
    /// The points that wait to be written.
    pub outbox: DispatcherView<V>,
    /// How many files gave no line at all and were passed over.
    pub skipped: nat,
    /// Why the run has failed, if it has.
    pub failure: Option<Failure>,
}

/// The name of a file as specifications see it.
pub open spec fn name_view(name: Option<String>) -> Option<Seq<char>> {
    match name {
        Some(n) => Some(n@),
        None => None,
    }
}

impl<V> RunView<V> {
    /// What holds of every run.
    pub open spec fn wf(self) -> bool {
        &&& self.chunk_size > 0
        &&& self.outbox.batch_size > 0
        &&& self.cursor <= self.files.len()
        &&& self.skipped <= self.cursor
        &&& self.start_id <= self.next_id
        &&& self.chunk.len() <= self.chunk_size
        &&& match self.open {
            Some(f) => {
                &&& self.cursor < self.files.len()
                &&& f.meta.file_path == self.files[self.cursor as int]
                &&& f.meta.file_name is Some
                &&& f.at_eof ==> self.chunk.len() > 0
                &&& self.chunk.len() > 0 ==> f.has_lines
            },
            None => self.chunk.len() == 0,
        }
    }

    /// The run at its beginning: no file opened, no point built.
    pub open spec fn initial(
        chunk_size: nat,
        batch_size: nat,
        policy: IdPolicy,
        start_id: u64,
        files: Seq<Seq<char>>,
    ) -> Self {
        RunView {
            chunk_size,
            policy,
            files,
            cursor: 0,
            open: None,
            start_id,
            next_id: start_id,
            chunk: Seq::empty(),
            outbox: DispatcherView { pending: Seq::empty(), batch_size },
            skipped: 0,
            failure: None,
        }
    }

    /// What the run waits for. A failed run waits for nothing more. While a file is
    /// open, a full chunk, or the last chunk of a file that has ended, is embedded
    /// first; then a full batch is written; otherwise the next line is read. Between
    /// files a full batch is written first; then the next file is opened; after the
    /// last file what is left in the buffer is written, and then the run is finished.
    pub open spec fn awaiting(self) -> Request {
        if self.failure is Some {
            Request::Failed
        } else {
            match self.open {
                Some(f) => {
                    if f.at_eof || self.chunk.len() >= self.chunk_size {
                        Request::Embed
                    } else if self.outbox.due() {
                        Request::Upsert
                    } else {
                        Request::ReadLine
                    }
                },
                None => {
                    if self.outbox.due() {
                        Request::Upsert
                    } else if self.cursor < self.files.len() {
                        Request::Open
                    } else if self.outbox.pending.len() > 0 {
                        Request::Upsert
                    } else {
                        Request::Finished
                    }
                },
            }
        }
    }

    /// The run after it has failed with `failure`. Nothing else changes: the points
    /// that waited still wait, and none is written any more.
    pub open spec fn failed(self, failure: Failure) -> Self {
        RunView { failure: Some(failure), ..self }
    }

    /// The run after the file at the cursor was opened. A file without a name that
    /// is text fails the run.
    pub open spec fn opened(self, file_name: Option<Seq<char>>, last_modified: u64) -> Self {
        if file_name is None {
            self.failed(Failure { kind: ErrorKind::MetadataError, message: missing_file_name() })
        } else {
            RunView {
                open: Some(
                    OpenFileView {
                        meta: MetaView {
                            file_path: self.files[self.cursor as int],
                            file_name,
                            last_modified,
                        },
                        at_eof: false,
                        has_lines: false,
                    },
                ),
                ..self
            }
        }
    }

    /// The run after the open file is done with. A file that gave no line counts as
    /// passed over.
    pub open spec fn closed(self) -> Self {
        RunView {
            open: None,
            cursor: self.cursor + 1,
            skipped: if self.open->0.has_lines {
                self.skipped
            } else {
                self.skipped + 1
            },
            ..self
        }
    }

    /// The run after a line was read. A blank line changes nothing; another line
    /// joins the chunk as it is.
    pub open spec fn line_read(self, line: Seq<char>) -> Self {
        if is_blank(line) {
            self
        } else {
            RunView {
                chunk: self.chunk.push(line),
                open: Some(OpenFileView { has_lines: true, ..self.open->0 }),
                ..self
            }
        }
    }

    /// The run after the open file has ended. Lines that wait in the chunk are
    /// embedded before the file is done with.
    pub open spec fn file_ended(self) -> Self {
        if self.chunk.len() > 0 {
            RunView { open: Some(OpenFileView { at_eof: true, ..self.open->0 }), ..self }
        } else {
            self.closed()
        }
    }

    /// The run after the chunk was embedded. The points of the chunk join the buffer,
    /// the counter moves on by their number, and the chunk is empty again. An answer
    /// that cannot be used fails the run.
    pub open spec fn embedded(self, vectors: Seq<V>) -> Self {
        let meta = self.open->0.meta;
        match chunk_fault(meta, self.chunk, vectors, self.next_id) {
            Some(fault) => self.failed(fault),
            None => {
                let next = RunView {
                    outbox: self.outbox.extended(
                        points_of(self.policy, meta, self.chunk, vectors, self.next_id),
                    ),
                    next_id: (self.next_id + self.chunk.len()) as u64,
                    chunk: Seq::empty(),
                    ..self
                };
                if self.open->0.at_eof {
                    next.closed()
                } else {
                    next
                }
            },
        }
    }

    /// The run after the index took the batch.
    pub open spec fn upserted(self) -> Self {
        RunView { outbox: self.outbox.flushed(), ..self }
    }

    /// The run after `event`. An event that does not answer what the run waits for
    /// changes nothing.
    pub open spec fn step(self, event: Event<V>) -> Self {
        match (self.awaiting(), event) {
            (Request::Open, Event::Opened { file_name, last_modified }) => self.opened(
                name_view(file_name),
                last_modified,
            ),
            (Request::Open, Event::ReadFailed(message)) => self.failed(
                Failure { kind: ErrorKind::IoError, message: message@ },
            ),
            (Request::ReadLine, Event::Line(line)) => self.line_read(line@),
            (Request::ReadLine, Event::EndOfFile) => self.file_ended(),
            (Request::ReadLine, Event::ReadFailed(message)) => self.failed(
                Failure { kind: ErrorKind::IoError, message: message@ },
            ),
            (Request::Embed, Event::Embedded(vectors)) => self.embedded(vectors@),
            (Request::Embed, Event::EmbedFailed(message)) => self.failed(
                Failure { kind: ErrorKind::EmbeddingError, message: message@ },
            ),
            (Request::Upsert, Event::Upserted) => self.upserted(),
            (Request::Upsert, Event::UpsertFailed(message)) => self.failed(
                Failure { kind: ErrorKind::UpsertError, message: message@ },
            ),
            _ => self,
        }
    }
}

/// A step keeps a run well formed.
pub proof fn lemma_step_wf<V>(s: RunView<V>, event: Event<V>)
    requires
        s.wf(),
    ensures
        s.step(event).wf(),
{
}

impl<V> View for Ingestion<V> {
    type V = RunView<V>;

    closed spec fn view(&self) -> RunView<V> {
        RunView {
            chunk_size: self.chunk_size as nat,
            policy: self.policy,
            files: texts_of(self.files@),
            cursor: self.cursor as nat,
            open: match self.open {
                Some(f) => Some(f@),
                None => None,
            },
            start_id: self.start_id,
            next_id: self.next_id,
            chunk: texts_of(self.chunk@),
            outbox: self.outbox@,
            skipped: self.skipped as nat,
            failure: match self.failure {
                Some(e) => Some(e@),
                None => None,
            },
        }
    }
}

impl<V> Ingestion<V> {
    #[verifier::type_invariant]
    spec fn inv(self) -> bool {
        self@.wf()
    }

    /// A run over `files`, in their order, that numbers its points from `start_id`
    /// on. A chunk size or a batch size of zero is a configuration error.
    pub fn new(config: &ProcessingConfig, policy: IdPolicy, start_id: u64, files: Vec<String>) -> (res:
        Result<Ingestion<V>, IngestError>)
        ensures
            match config_fault(config@.chunk_size, config@.batch_size) {
                Some(fault) => res matches Err(e) && e@ == fault,
                None => res matches Ok(run) && run@ == RunView::<V>::initial(
                    config@.chunk_size,
                    config@.batch_size,
                    policy,
                    start_id,
                    texts_of(files@),
                ) && run@.wf(),
            },
    {
        match config.validate() {
            Err(e) => Err(e),
            Ok(()) => match Dispatcher::new(config.batch_size) {
                Err(e) => Err(e),
                Ok(outbox) => {
                    let chunk: Vec<String> = Vec::new();
                    assert(texts_of(chunk@) =~= Seq::<Seq<char>>::empty());
                    Ok(
                        Ingestion {
                            chunk_size: config.chunk_size,
                            policy,
                            files,
                            cursor: 0,
                            open: None,
                            start_id,
                            next_id: start_id,
                            chunk,
                            outbox,
                            skipped: 0,
                            failure: None,
                        },
                    )
                },
            },
        }
    }

    /// What the run waits for.
    pub fn awaiting(&self) -> (request: Request)
        ensures
            request == self@.awaiting(),
            self@.wf(),
    {
        proof {
            use_type_invariant(self);
        }
        if self.failure.is_some() {
            return Request::Failed;
        }
        match &self.open {
            Some(f) => {
                if f.at_eof || self.chunk.len() >= self.chunk_size {
                    Request::Embed
                } else if self.outbox.flush_due() {
                    Request::Upsert
                } else {
                    Request::ReadLine
                }
            },
            None => {
                if self.outbox.flush_due() {
                    Request::Upsert
                } else if self.cursor < self.files.len() {
                    Request::Open
                } else if !self.outbox.is_empty() {
                    Request::Upsert
                } else {
                    Request::Finished
                }
            },
        }
    }

    /// The path of the file that is open or is to be opened next, if there is one.
    pub fn current_path(&self) -> (path: Option<&String>)
        ensures
            self@.cursor < self@.files.len() <==> path is Some,
            path matches Some(p) ==> p@ == self@.files[self@.cursor as int],
    {
        if self.cursor < self.files.len() {
            Some(&self.files[self.cursor])
        } else {
            None
        }
    }

    /// The lines that wait to be embedded.
    pub fn chunk(&self) -> (lines: &Vec<String>)
        ensures
            texts_of(lines@) == self@.chunk,
    {
        &self.chunk
    }

    /// The points that the next upsert call has to carry.
    pub fn next_batch(&self) -> (batch: &[Point<V>])
        ensures
            points_view(batch@) == self@.outbox.next_batch(),
    {
        self.outbox.next_batch()
    }

    /// Where the point counter stands: the counter's start plus the number of points
    /// built so far. Once the run is finished this is its result.
    pub fn total(&self) -> (n: u64)
        ensures
            n == self@.next_id,
    {
        self.next_id
    }

    /// How many points the run has built.
    pub fn points_built(&self) -> (n: u64)
        ensures
            n == self@.next_id - self@.start_id,
    {
        proof {
            use_type_invariant(self);
        }
        self.next_id - self.start_id
    }

    /// How many files gave no line and were passed over.
    pub fn skipped(&self) -> (n: usize)
        ensures
            n == self@.skipped,
    {
        self.skipped
    }

    /// Whether the run had no file to ingest at all.
    pub fn empty_corpus(&self) -> (b: bool)
        ensures
            b == (self@.files.len() == 0),
    {
        self.files.len() == 0
    }

    /// How the run ended: the final point counter after success, the error after
    /// failure, and nothing while the run still waits for something.
    pub fn outcome(&self) -> (res: Option<Result<u64, IngestError>>)
        ensures
            match self@.awaiting() {
                Request::Finished => res == Some(Ok::<u64, IngestError>(self@.next_id)),
                Request::Failed => res matches Some(Err(e)) && Some(e@) == self@.failure,
                _ => res is None,
            },
    {
        match self.awaiting() {
            Request::Finished => Some(Ok(self.next_id)),
            Request::Failed => match &self.failure {
                Some(e) => Some(Err(e.duplicate())),
                None => None,
            },
            _ => None,
        }
    }
}

impl<V> Ingestion<V> {
    /// Takes the caller's report and says what the run waits for next.
    pub fn step(self, event: Event<V>) -> (res: (Ingestion<V>, Request))
        ensures
            res.0@ == self@.step(event),
            res.1 == res.0@.awaiting(),
            res.0@.wf(),
    {
        proof {
            use_type_invariant(&self);
        }
        let request = self.awaiting();
        let ghost before = self@;
        let ghost want = before.step(event);
        let Ingestion {
            chunk_size,
            policy,
            files,
            cursor,
            open,
            start_id,
            next_id,
            chunk,
            outbox,
            skipped,
            failure,
        } = self;
        assert(before.files.len() == files.len());
        let mut cursor: usize = cursor;
        let mut open = open;
        let mut next_id: u64 = next_id;
        let mut chunk = chunk;
        let mut outbox = outbox;
        let mut skipped: usize = skipped;
        let mut failure = failure;
        match request {
            Request::Open => match event {
                Event::Opened { file_name, last_modified } => match file_name {
                    None => {
                        failure =
                        Some(
                            IngestError::new(
                                ErrorKind::MetadataError,
                                "file name is missing or not valid UTF-8",
                            ),
                        );
                    },
                    Some(name) => {
                        let file_path = files[cursor].clone();
                        open =
                        Some(
                            OpenFile {
                                meta: DocumentMeta {
                                    file_path,
                                    file_name: Some(name),
                                    last_modified,
                                },
                                at_eof: false,
                                has_lines: false,
                            },
                        );
                    },
                },
                Event::ReadFailed(message) => {
                    failure = Some(IngestError { kind: ErrorKind::IoError, message });
                },
                _ => {},
            },
            Request::ReadLine => match event {
                Event::Line(line) => {
                    if !blank(line.as_str()) {
                        let ghost lines = texts_of(chunk@);
                        chunk.push(line);
                        assert(texts_of(chunk@) =~= lines.push(line@));
                        match open {
                            Some(f) => {
                                open =
                                Some(OpenFile { meta: f.meta, at_eof: f.at_eof, has_lines: true });
                            },
                            None => {},
                        }
                    }
                },
                Event::EndOfFile => match open {
                    Some(f) => {
                        if chunk.len() > 0 {
                            open =
                            Some(OpenFile { meta: f.meta, at_eof: true, has_lines: f.has_lines });
                        } else {
                            if !f.has_lines {
                                skipped = skipped + 1;
                            }
                            cursor = cursor + 1;
                            open = None;
                        }
                    },
                    None => {
                        open = None;
                    },
                },
                Event::ReadFailed(message) => {
                    failure = Some(IngestError { kind: ErrorKind::IoError, message });
                },
                _ => {},
            },
            Request::Embed => match event {
                Event::Embedded(vectors) => match open {
                    Some(f) => match build_points(&chunk, vectors, &f.meta, policy, next_id) {
                        Err(e) => {
                            failure = Some(e);
                            open = Some(f);
                        },
                        Ok(points) => {
                            outbox.extend(points);
                            next_id = next_id + (chunk.len() as u64);
                            chunk = Vec::new();
                            assert(texts_of(chunk@) =~= Seq::<Seq<char>>::empty());
                            if f.at_eof {
                                if !f.has_lines {
                                    skipped = skipped + 1;
                                }
                                cursor = cursor + 1;
                                open = None;
                            } else {
                                open = Some(f);
                            }
                        },
                    },
                    None => {
                        open = None;
                    },
                },
                Event::EmbedFailed(message) => {
                    failure = Some(IngestError { kind: ErrorKind::EmbeddingError, message });
                },
                _ => {},
            },
            Request::Upsert => match event {
                Event::Upserted => {
                    let _ = outbox.settle(Ok(()));
                },
                Event::UpsertFailed(message) => {
                    failure = Some(IngestError { kind: ErrorKind::UpsertError, message });
                },
                _ => {},
            },
            Request::Finished => {},
            Request::Failed => {},
        }
        let next = Ingestion {
            chunk_size,
            policy,
            files,
            cursor,
            open,
            start_id,
            next_id,
            chunk,
            outbox,
            skipped,
            failure,
        };
        assert(next@ == want);
        proof {
            lemma_step_wf(before, event);
        }
        let request = next.awaiting();
        (next, request)
    }
}

} // verus!
