//! Building the points of one chunk from its lines and their vectors.

use crate::error::{
    ids_exhausted, missing_file_name, vector_count_mismatch, ErrorKind, Failure, IngestError,
};
use crate::model::{
    assign_id, build_point, id_of, payload_of, points_view, DocumentMeta, IdPolicy, MetaView, Point,
    PointView,
};
use crate::text::texts_of;
use vstd::prelude::*;

verus! {

/// The points of a chunk: one for each line, in the order of the lines, the `i`-th
/// with the `i`-th vector and, under the counter policy, the number `start + i + 1`.
pub open spec fn points_of<V>(
    policy: IdPolicy,
    meta: MetaView,
    lines: Seq<Seq<char>>,
    vectors: Seq<V>,
    start: u64,
) -> Seq<PointView<V>> {
    Seq::new(
        lines.len(),
        |i: int|
            PointView {
                id: id_of(policy, meta.file_path, (start + i + 1) as u64),
                vector: vectors[i],
                payload: payload_of(meta.file_name->0, meta.last_modified, lines[i]),
            },
    )
}

/// Why a chunk cannot be turned into points, if it cannot. The checks are made in
/// this order: one vector for each line, a file name, room for the new numbers.
pub open spec fn chunk_fault<V>(
    meta: MetaView,
    lines: Seq<Seq<char>>,
    vectors: Seq<V>,
    start: u64,
) -> Option<Failure> {
    if vectors.len() != lines.len() {
        Some(Failure { kind: ErrorKind::EmbeddingError, message: vector_count_mismatch() })
    } else if meta.file_name is None {
        Some(Failure { kind: ErrorKind::MetadataError, message: missing_file_name() })
    } else if start + lines.len() > u64::MAX {
        Some(Failure { kind: ErrorKind::ConfigurationError, message: ids_exhausted() })
    } else {
        None
    }
}

/// Builds the points of one chunk. `start_id` is the number of points built before
/// this chunk; the chunk's points take the numbers that follow it.
pub fn build_points<V>(
    lines: &Vec<String>,
    vectors: Vec<V>,
    meta: &DocumentMeta,
    policy: IdPolicy,
    start_id: u64,
) -> (res: Result<Vec<Point<V>>, IngestError>)
    ensures
        match chunk_fault(meta@, texts_of(lines@), vectors@, start_id) {
            Some(fault) => res matches Err(e) && e@ == fault,
            None => res matches Ok(points) && points_view(points@) == points_of(
                policy,
                meta@,
                texts_of(lines@),
                vectors@,
                start_id,
            ),
        },
{
    if vectors.len() != lines.len() {
        return Err(
            IngestError::new(
                ErrorKind::EmbeddingError,
                "embedding backend returned a different number of vectors than texts",
            ),
        );
    }
    if meta.file_name.is_none() {
        return Err(
            IngestError::new(ErrorKind::MetadataError, "file name is missing or not valid UTF-8"),
        );
    }
    if lines.len() as u64 > u64::MAX - start_id {
        return Err(
            IngestError::new(ErrorKind::ConfigurationError, "point id counter would overflow"),
        );
    }
    let ghost want = points_of(policy, meta@, texts_of(lines@), vectors@, start_id);
    let mut points: Vec<Point<V>> = Vec::new();
    let mut i: usize = 0;
    for vector in it: vectors
        invariant
            it.seq() == vectors@,
            i == it.index(),
            vectors@.len() == lines@.len(),
            meta@.file_name is Some,
            start_id + lines@.len() <= u64::MAX,
            want == points_of(policy, meta@, texts_of(lines@), vectors@, start_id),
            points_view(points@) == want.take(i as int),
    {
        assert(i < lines.len());
        let number: u64 = start_id + (i as u64) + 1;
        let id = assign_id(policy, meta.file_path.as_str(), number);
        let text = lines[i].clone();
        let ghost before = points_view(points@);
        match build_point(text, vector, meta, id) {
            Ok(point) => {
                points.push(point);
                assert(points_view(points@) =~= before.push(point@));
                assert(point@ == want[i as int]);
                assert(points_view(points@) =~= want.take(i + 1));
            },
            Err(e) => {
                return Err(e);
            },
        }
        i = i + 1;
    }
    assert(want.take(want.len() as int) =~= want);
    Ok(points)
}

} // verus!
