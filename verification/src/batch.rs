//! The dispatcher: points wait in a buffer and leave it in batches of bounded size.
//!
//! The dispatcher does not talk to the vector index itself. It says which points
//! the next upsert call has to carry, and is told afterwards how the call ended.

use crate::error::{zero_batch_size, ErrorKind, Failure, IngestError};
use crate::model::{points_view, Point, PointView};
use vstd::prelude::*;
use vstd::slice::slice_subrange;

verus! {

/// The buffer of points that await an upsert, with the most points one call may carry.
#[derive(Debug)]
pub struct Dispatcher<V> {
    buffer: Vec<Point<V>>,
    batch_size: usize,
}

/// A dispatcher as specifications see it.
pub struct DispatcherView<V> {
    /// The waiting points, oldest first.
    pub pending: Seq<PointView<V>>,
    /// The most points one upsert call may carry.
    pub batch_size: nat,
}

/// How many points the next upsert call carries.
pub open spec fn batch_len(pending: nat, batch_size: nat) -> nat {
    if pending <= batch_size {
        pending
    } else {
        batch_size
    }
}

impl<V> DispatcherView<V> {
    /// The points of the next upsert call: the oldest ones, at most `batch_size`.
    pub open spec fn next_batch(self) -> Seq<PointView<V>> {
        self.pending.take(batch_len(self.pending.len(), self.batch_size) as int)
    }

    /// The dispatcher with one more point.
    pub open spec fn added(self, point: PointView<V>) -> Self {
        DispatcherView { pending: self.pending.push(point), ..self }
    }

    /// The dispatcher with more points.
    pub open spec fn extended(self, points: Seq<PointView<V>>) -> Self {
        DispatcherView { pending: self.pending + points, ..self }
    }

    /// The dispatcher after an upsert call that succeeded: the points of the call are
    /// gone, the others wait on.
    pub open spec fn flushed(self) -> Self {
        DispatcherView {
            pending: self.pending.skip(batch_len(self.pending.len(), self.batch_size) as int),
            ..self
        }
    }

    /// The dispatcher after an upsert call with the given outcome. A failed call
    /// changes nothing.
    pub open spec fn settled(self, ok: bool) -> Self {
        if ok {
            self.flushed()
        } else {
            self
        }
    }

    /// Whether enough points wait to fill an upsert call.
    pub open spec fn due(self) -> bool {
        self.pending.len() >= self.batch_size
    }
}

impl<V> View for Dispatcher<V> {
    type V = DispatcherView<V>;

    closed spec fn view(&self) -> DispatcherView<V> {
        DispatcherView { pending: points_view(self.buffer@), batch_size: self.batch_size as nat }
    }
}

impl<V> Dispatcher<V> {
    /// An empty dispatcher. A batch size of zero is a configuration error.
    pub fn new(batch_size: usize) -> (res: Result<Self, IngestError>)
        ensures
            batch_size == 0 <==> res is Err,
            res matches Err(e) ==> e@ == (Failure {
                kind: ErrorKind::ConfigurationError,
                message: zero_batch_size(),
            }),
            res matches Ok(d) ==> d@ == (DispatcherView::<V> {
                pending: Seq::empty(),
                batch_size: batch_size as nat,
            }),
    {
        if batch_size == 0 {
            return Err(
                IngestError::new(ErrorKind::ConfigurationError, "batch_size must be at least 1"),
            );
        }
        let d = Dispatcher { buffer: Vec::new(), batch_size };
        assert(points_view(d.buffer@) =~= Seq::empty());
        Ok(d)
    }

    /// The most points one upsert call may carry.
    pub fn batch_size(&self) -> (n: usize)
        ensures
            n == self@.batch_size,
    {
        self.batch_size
    }

    /// How many points wait.
    pub fn len(&self) -> (n: usize)
        ensures
            n == self@.pending.len(),
    {
        self.buffer.len()
    }

    /// Whether no point waits.
    pub fn is_empty(&self) -> (b: bool)
        ensures
            b == (self@.pending.len() == 0),
    {
        self.buffer.len() == 0
    }

    /// Whether an upsert call is due: the buffer has reached the batch size.
    pub fn flush_due(&self) -> (b: bool)
        ensures
            b == self@.due(),
    {
        self.buffer.len() >= self.batch_size
    }

    /// Appends a point to the buffer and tells whether an upsert call is now due.
    pub fn add(&mut self, point: Point<V>) -> (due: bool)
        ensures
            final(self)@ == old(self)@.added(point@),
            due == final(self)@.due(),
    {
        let ghost before = points_view(self.buffer@);
        self.buffer.push(point);
        assert(points_view(self.buffer@) =~= before.push(point@));
        self.buffer.len() >= self.batch_size
    }

    /// Appends points to the buffer, in their order.
    pub fn extend(&mut self, points: Vec<Point<V>>)
        ensures
            final(self)@ == old(self)@.extended(points_view(points@)),
    {
        let ghost before = points_view(self.buffer@);
        let ghost added = points_view(points@);
        let mut points = points;
        self.buffer.append(&mut points);
        assert(points_view(self.buffer@) =~= before + added);
    }

    /// The points that the next upsert call has to carry. With an empty buffer there
    /// are none, and no call is to be made.
    pub fn next_batch(&self) -> (batch: &[Point<V>])
        ensures
            points_view(batch@) == self@.next_batch(),
    {
        let n: usize = if self.buffer.len() <= self.batch_size {
            self.buffer.len()
        } else {
            self.batch_size
        };
        let batch = slice_subrange(self.buffer.as_slice(), 0, n);
        assert(points_view(batch@) =~= points_view(self.buffer@).take(n as int));
        batch
    }

    /// Takes note of how the upsert call for `next_batch` ended. After a success the
    /// points of the call leave the buffer and their number is returned. After a
    /// failure the buffer is as it was, so the same call can be made again, and the
    /// failure comes back as an `UpsertError` with the message of the index.
    pub fn settle(&mut self, outcome: Result<(), String>) -> (res: Result<usize, IngestError>)
        ensures
            final(self)@ == old(self)@.settled(outcome is Ok),
            outcome is Ok ==> res == Ok::<usize, IngestError>(
                batch_len(old(self)@.pending.len(), old(self)@.batch_size) as usize,
            ),
            outcome matches Err(message) ==> res matches Err(e) && e@ == (Failure {
                kind: ErrorKind::UpsertError,
                message: message@,
            }),
    {
        match outcome {
            Ok(()) => {
                let n: usize = if self.buffer.len() <= self.batch_size {
                    self.buffer.len()
                } else {
                    self.batch_size
                };
                let ghost before = points_view(self.buffer@);
                let rest = self.buffer.split_off(n);
                self.buffer = rest;
                assert(points_view(self.buffer@) =~= before.skip(n as int));
                Ok(n)
            },
            Err(message) => Err(IngestError { kind: ErrorKind::UpsertError, message }),
        }
    }
}

/// A failed upsert call loses nothing: when the call is made again and succeeds, the
/// same points leave the buffer as would have left it the first time.
pub proof fn lemma_retry_after_failure<V>(d: DispatcherView<V>)
    ensures
        d.settled(false).next_batch() == d.next_batch(),
        d.settled(false).settled(true) == d.settled(true),
{
}

/// An upsert call on an empty buffer carries nothing and changes nothing.
pub proof fn lemma_flush_empty<V>(d: DispatcherView<V>)
    requires
        d.pending.len() == 0,
    ensures
        d.next_batch().len() == 0,
        d.settled(true) == d,
{
    assert(d.flushed().pending =~= d.pending);
}

/// Every batch has at most `batch_size` points, and what is sent and what waits on
/// are together what waited before, in the same order.
pub proof fn lemma_batch_bounded<V>(d: DispatcherView<V>)
    ensures
        d.next_batch().len() <= d.batch_size,
        d.next_batch() + d.flushed().pending == d.pending,
{
    assert(d.next_batch() + d.flushed().pending =~= d.pending);
}

} // verus!
