//! The records of the pipeline: documents, points and their payloads.

use crate::error::{missing_file_name, ErrorKind, Failure, IngestError};
use crate::ident::{hash_id, path_id};
use crate::text::{blank, is_blank, lines_of, non_blank, non_empty_lines, string_from_chars, texts_of};
use vstd::prelude::*;

verus! {

/// How many characters of a text its preview keeps.
pub const PREVIEW_CHARS: usize = 200;

/// How the points of a run get their identifiers. A run keeps to one policy: the two
/// promise different things and do not mix.
#[derive(Clone, Copy, Debug, PartialEq, Eq, Structural)]
pub enum IdPolicy {
    /// Consecutive numbers from a counter that the run carries from point to point. No
    /// number is given twice in a run, nor in a later run that starts its counter
    /// where this one ended. A run that starts the counter anew writes over the points
    /// of the earlier one.
    Counter,
    /// The hash of the path of the file that the point comes from. Ingesting a file
    /// again writes over what was ingested before instead of adding to it. All points
    /// of one file share the identifier, so the index keeps one point for each file.
    PathHash,
}

/// The identifier of a point.
#[derive(Clone, Debug, PartialEq, Eq)]
pub enum PointId {
    Number(u64),
    Digest(String),
}

/// What a point carries besides its vector.
#[derive(Clone, Debug, PartialEq, Eq)]
pub struct Payload {
    pub title: String,
    pub text: String,
    pub preview: String,
    pub last_modified: u64,
}

/// One record of the vector index.
#[derive(Clone, Debug, PartialEq)]
pub struct Point<V> {
    pub id: PointId,
    pub vector: V,
    pub payload: Payload,
}

/// What is known of a file besides its content.
#[derive(Clone, Debug, PartialEq, Eq)]
pub struct DocumentMeta {
    pub file_path: String,
    /// The last component of the path, where it is text.
    pub file_name: Option<String>,
    /// Seconds since the epoch.
    pub last_modified: u64,
}

/// One source file, read whole.
#[derive(Clone, Debug, PartialEq, Eq)]
pub struct Document {
    pub id: String,
    pub file_path: String,
    pub content: String,
    /// Seconds since the epoch.
    pub last_modified: u64,
}

pub enum PointIdView {
    Number(u64),
    Digest(Seq<char>),
}

pub struct PayloadView {
    pub title: Seq<char>,
    pub text: Seq<char>,
    pub preview: Seq<char>,
    pub last_modified: u64,
}

pub struct PointView<V> {
    pub id: PointIdView,
    pub vector: V,
    pub payload: PayloadView,
}

pub struct MetaView {
    pub file_path: Seq<char>,
    pub file_name: Option<Seq<char>>,
    pub last_modified: u64,
}

pub struct DocumentView {
    pub id: Seq<char>,
    pub file_path: Seq<char>,
    pub content: Seq<char>,
    pub last_modified: u64,
}

impl View for PointId {
    type V = PointIdView;

    open spec fn view(&self) -> PointIdView {
        match self {
            PointId::Number(n) => PointIdView::Number(*n),
            PointId::Digest(d) => PointIdView::Digest(d@),
        }
    }
}

impl View for Payload {
    type V = PayloadView;

    open spec fn view(&self) -> PayloadView {
        PayloadView {
            title: self.title@,
            text: self.text@,
            preview: self.preview@,
            last_modified: self.last_modified,
        }
    }
}

impl<V> View for Point<V> {
    type V = PointView<V>;

    open spec fn view(&self) -> PointView<V> {
        PointView { id: self.id@, vector: self.vector, payload: self.payload@ }
    }
}

impl View for DocumentMeta {
    type V = MetaView;

    open spec fn view(&self) -> MetaView {
        MetaView {
            file_path: self.file_path@,
            file_name: match self.file_name {
                Some(name) => Some(name@),
                None => None,
            },
            last_modified: self.last_modified,
        }
    }
}

impl View for Document {
    type V = DocumentView;

    open spec fn view(&self) -> DocumentView {
        DocumentView {
            id: self.id@,
            file_path: self.file_path@,
            content: self.content@,
            last_modified: self.last_modified,
        }
    }
}

/// What each point of a sequence holds.
pub open spec fn points_view<V>(points: Seq<Point<V>>) -> Seq<PointView<V>> {
    points.map_values(|p: Point<V>| p@)
}

/// The preview of a text: its first two hundred characters, or all of it when it is
/// shorter.
pub open spec fn preview_of(text: Seq<char>) -> Seq<char> {
    if text.len() <= PREVIEW_CHARS {
        text
    } else {
        text.take(PREVIEW_CHARS as int)
    }
}

/// The identifier that `policy` gives to a point of the file at `path` when the
/// counter stands at `number`.
pub open spec fn id_of(policy: IdPolicy, path: Seq<char>, number: u64) -> PointIdView {
    match policy {
        IdPolicy::Counter => PointIdView::Number(number),
        IdPolicy::PathHash => PointIdView::Digest(path_id(path)),
    }
}

/// The payload of the point for `text` in the file named `title`.
pub open spec fn payload_of(title: Seq<char>, last_modified: u64, text: Seq<char>) -> PayloadView {
    PayloadView { title, text, preview: preview_of(text), last_modified }
}

/// The first characters of `text`, at most two hundred.
pub fn preview(text: &str) -> (head: String)
    ensures
        head@ == preview_of(text@),
{
    broadcast use vstd::string::group_string_axioms;

    let mut out: Vec<char> = Vec::new();
    let chars = text.chars();
    for c in it: chars
        invariant
            it.seq() == text@,
            out@ == text@.take(it.index()),
            out@.len() < PREVIEW_CHARS,
    {
        let ghost before = out@;
        out.push(c);
        assert(out@ =~= text@.take(it.index() + 1));
        if out.len() >= PREVIEW_CHARS {
            return string_from_chars(&out);
        }
    }
    assert(text@.take(text@.len() as int) =~= text@);
    string_from_chars(&out)
}

/// The identifier for the next point of the file at `path`.
pub fn assign_id(policy: IdPolicy, path: &str, number: u64) -> (id: PointId)
    ensures
        id@ == id_of(policy, path@, number),
{
    match policy {
        IdPolicy::Counter => PointId::Number(number),
        IdPolicy::PathHash => PointId::Digest(hash_id(path)),
    }
}

/// Builds the point for one text unit of a document. The file must have a name
/// that is text: without one the metadata is malformed.
pub fn build_point<V>(text: String, vector: V, meta: &DocumentMeta, id: PointId) -> (res: Result<
    Point<V>,
    IngestError,
>)
    ensures
        meta@.file_name is None <==> res is Err,
        res matches Err(e) ==> e@ == (Failure {
            kind: ErrorKind::MetadataError,
            message: missing_file_name(),
        }),
        res matches Ok(p) ==> p@ == (PointView {
            id: id@,
            vector,
            payload: payload_of(meta@.file_name->0, meta.last_modified, text@),
        }),
{
    match &meta.file_name {
        None => Err(
            IngestError::new(ErrorKind::MetadataError, "file name is missing or not valid UTF-8"),
        ),
        Some(name) => {
            let head = preview(text.as_str());
            Ok(
                Point {
                    id,
                    vector,
                    payload: Payload {
                        title: name.clone(),
                        text,
                        preview: head,
                        last_modified: meta.last_modified,
                    },
                },
            )
        },
    }
}

impl Document {
    /// The document for a file that was read whole. Its identity is the hash of its
    /// path, so a later run finds the same document under the same identity.
    pub fn new(file_path: String, content: String, last_modified: u64) -> (doc: Document)
        ensures
            doc@ == (DocumentView {
                id: path_id(file_path@),
                file_path: file_path@,
                content: content@,
                last_modified,
            }),
    {
        let id = hash_id(file_path.as_str());
        Document { id, file_path, content, last_modified }
    }

    /// Whether the document holds nothing to ingest: no content, or whitespace only.
    pub fn is_empty(&self) -> (b: bool)
        ensures
            b == is_blank(self@.content),
    {
        blank(self.content.as_str())
    }

    /// The lines of the document that are not blank.
    pub fn lines(&self) -> (lines: Vec<String>)
        ensures
            texts_of(lines@) == non_blank(lines_of(self@.content)),
    {
        non_empty_lines(self.content.as_str())
    }

    /// The first two hundred characters of the content.
    pub fn preview(&self) -> (head: String)
        ensures
            head@ == preview_of(self@.content),
    {
        preview(self.content.as_str())
    }
}

} // verus!
