//! What holds of a run as a whole, whatever the caller reports and in whatever order.

use crate::error::{ErrorKind, Failure};
use crate::ident::path_id;
use crate::ingest::{lemma_step_wf, Event, Request, RunView};
use crate::model::{IdPolicy, MetaView, PointIdView, PointView};
use crate::points::{chunk_fault, points_of};
use crate::text::is_blank;
use vstd::prelude::*;

verus! {

impl<V> RunView<V> {
    /// The run after a series of events.
    pub open spec fn after(self, events: Seq<Event<V>>) -> Self
        decreases events.len(),
    {
        if events.len() == 0 {
            self
        } else {
            self.after(events.drop_last()).step(events.last())
        }
    }

    /// The line that the run takes into its chunk at `event`, if it takes one: the
    /// run waits for a line, and the line is not blank.
    pub open spec fn takes(self, event: Event<V>) -> Option<Seq<char>> {
        match event {
            Event::Line(line) if self.awaiting() == Request::ReadLine && !is_blank(line@) => Some(
                line@,
            ),
            _ => None,
        }
    }

    /// The points that the run builds at `event`: those of the chunk, when the run
    /// waits for its vectors and the answer can be used.
    pub open spec fn builds(self, event: Event<V>) -> Seq<PointView<V>> {
        match event {
            Event::Embedded(vectors) if self.awaiting() == Request::Embed && chunk_fault(
                self.open->0.meta,
                self.chunk,
                vectors@,
                self.next_id,
            ) is None => points_of(
                self.policy,
                self.open->0.meta,
                self.chunk,
                vectors@,
                self.next_id,
            ),
            _ => Seq::empty(),
        }
    }

    /// The points that are written to the index at `event`: the batch, when the run
    /// waits for its upsert and the index took it.
    pub open spec fn writes(self, event: Event<V>) -> Seq<PointView<V>> {
        match event {
            Event::Upserted if self.awaiting() == Request::Upsert => self.outbox.next_batch(),
            _ => Seq::empty(),
        }
    }

    /// The lines that the run takes in over a series of events, in their order.
    pub open spec fn lines_taken(self, events: Seq<Event<V>>) -> Seq<Seq<char>>
        decreases events.len(),
    {
        if events.len() == 0 {
            Seq::empty()
        } else {
            let earlier = self.lines_taken(events.drop_last());
            match self.after(events.drop_last()).takes(events.last()) {
                Some(line) => earlier.push(line),
                None => earlier,
            }
        }
    }

    /// The points that the run builds over a series of events, in their order.
    pub open spec fn points_built(self, events: Seq<Event<V>>) -> Seq<PointView<V>>
        decreases events.len(),
    {
        if events.len() == 0 {
            Seq::empty()
        } else {
            self.points_built(events.drop_last()) + self.after(events.drop_last()).builds(
                events.last(),
            )
        }
    }

    /// The points that are written to the index over a series of events, in their
    /// order.
    pub open spec fn points_written(self, events: Seq<Event<V>>) -> Seq<PointView<V>>
        decreases events.len(),
    {
        if events.len() == 0 {
            Seq::empty()
        } else {
            self.points_written(events.drop_last()) + self.after(events.drop_last()).writes(
                events.last(),
            )
        }
    }
}

/// A run stays well formed, whatever it is told.
pub proof fn lemma_after_wf<V>(s: RunView<V>, events: Seq<Event<V>>)
    requires
        s.wf(),
    ensures
        s.after(events).wf(),
    decreases events.len(),
{
    if events.len() > 0 {
        lemma_after_wf(s, events.drop_last());
        lemma_step_wf(s.after(events.drop_last()), events.last());
    }
}

/// Every line taken in becomes exactly one point: the points built and the lines
/// that still wait in the chunk are together as many as the lines taken in, and the
/// counter has moved on by the number of points built.
pub proof fn lemma_points_match_lines<V>(s: RunView<V>, events: Seq<Event<V>>)
    requires
        s.wf(),
    ensures
        s.points_built(events).len() + s.after(events).chunk.len() == s.chunk.len()
            + s.lines_taken(events).len(),
        s.after(events).next_id == s.next_id + s.points_built(events).len(),
    decreases events.len(),
{
    if events.len() > 0 {
        let earlier = events.drop_last();
        lemma_points_match_lines(s, earlier);
        lemma_after_wf(s, earlier);
    }
}

/// A run that has finished has built one point for each line that was read and is not
/// blank, and returns the counter moved on by their number.
pub proof fn lemma_total_counts_lines<V>(s: RunView<V>, events: Seq<Event<V>>)
    requires
        s.wf(),
        s.chunk.len() == 0,
        s.after(events).awaiting() == Request::Finished,
    ensures
        s.after(events).next_id == s.next_id + s.lines_taken(events).len(),
        s.points_built(events).len() == s.lines_taken(events).len(),
{
    lemma_points_match_lines(s, events);
    lemma_after_wf(s, events);
}

/// Nothing that was built is lost and nothing is written twice: the points that
/// waited at the start and those built since are, in this order, the points written
/// and those that still wait.
pub proof fn lemma_points_conserved<V>(s: RunView<V>, events: Seq<Event<V>>)
    ensures
        s.outbox.pending + s.points_built(events) == s.points_written(events) + s.after(
            events,
        ).outbox.pending,
    decreases events.len(),
{
    if events.len() == 0 {
        assert(s.outbox.pending + s.points_built(events) =~= s.points_written(events) + s.after(
            events,
        ).outbox.pending);
    } else {
        let earlier = events.drop_last();
        let before = s.after(earlier);
        let event = events.last();
        lemma_points_conserved(s, earlier);
        let built = s.points_built(earlier);
        let written = s.points_written(earlier);
        assert(s.outbox.pending + built == written + before.outbox.pending);
        let after = before.step(event);
        assert(before.outbox.pending + before.builds(event) =~= before.writes(event)
            + after.outbox.pending);
        assert(s.outbox.pending + (built + before.builds(event)) =~= (s.outbox.pending + built)
            + before.builds(event));
        assert((written + before.outbox.pending) + before.builds(event) =~= written + (
        before.outbox.pending + before.builds(event)));
        assert(written + (before.writes(event) + after.outbox.pending) =~= (written
            + before.writes(event)) + after.outbox.pending);
    }
}

/// When a run that started with an empty buffer has finished, the points written to
/// the index are exactly the points built, in the order in which they were built.
pub proof fn lemma_finished_run_wrote_all<V>(s: RunView<V>, events: Seq<Event<V>>)
    requires
        s.outbox.pending.len() == 0,
        s.after(events).awaiting() == Request::Finished,
    ensures
        s.points_written(events) == s.points_built(events),
{
    lemma_points_conserved(s, events);
    assert(s.outbox.pending + s.points_built(events) =~= s.points_built(events));
    assert(s.points_written(events) + s.after(events).outbox.pending =~= s.points_written(
        events,
    ));
}

/// No upsert call carries more than `batch_size` points.
pub proof fn lemma_writes_bounded<V>(s: RunView<V>, event: Event<V>)
    ensures
        s.writes(event).len() <= s.outbox.batch_size,
{
}

/// No chunk that is embedded holds more than `chunk_size` lines, and none is empty.
/// A chunk with fewer lines is the last one of its file.
pub proof fn lemma_chunk_bounded<V>(s: RunView<V>)
    requires
        s.wf(),
        s.awaiting() == Request::Embed,
    ensures
        0 < s.chunk.len() <= s.chunk_size,
        s.chunk.len() < s.chunk_size ==> s.open is Some && s.open->0.at_eof,
{
}

/// A chunk never holds lines of two files: when a file is opened the chunk is empty.
pub proof fn lemma_chunk_within_file<V>(s: RunView<V>)
    requires
        s.wf(),
        s.awaiting() == Request::Open,
    ensures
        s.chunk.len() == 0,
{
}

/// The points come in the order of the lines, one for each: the text of the `i`-th
/// point built is the `i`-th of the lines that waited in the chunk and those taken in
/// since.
pub proof fn lemma_points_follow_lines<V>(s: RunView<V>, events: Seq<Event<V>>, i: int)
    requires
        s.wf(),
        0 <= i < s.points_built(events).len(),
    ensures
        i < (s.chunk + s.lines_taken(events)).len(),
        s.points_built(events)[i].payload.text == (s.chunk + s.lines_taken(events))[i],
    decreases events.len(),
{
    lemma_lines_split(s, events);
}

/// The lines that waited in the chunk and those taken in since are, in this order,
/// the texts of the points built and the lines that wait in the chunk now.
pub proof fn lemma_lines_split<V>(s: RunView<V>, events: Seq<Event<V>>)
    requires
        s.wf(),
    ensures
        s.chunk + s.lines_taken(events) == texts_in(s.points_built(events)) + s.after(
            events,
        ).chunk,
    decreases events.len(),
{
    if events.len() == 0 {
        assert(s.chunk + s.lines_taken(events) =~= texts_in(s.points_built(events)) + s.after(
            events,
        ).chunk);
    } else {
        let earlier = events.drop_last();
        let before = s.after(earlier);
        let event = events.last();
        let after = before.step(event);
        lemma_lines_split(s, earlier);
        lemma_after_wf(s, earlier);
        let built = s.points_built(earlier);
        let taken = s.lines_taken(earlier);
        assert(s.chunk + taken == texts_in(built) + before.chunk);
        assert(texts_in(built + before.builds(event)) =~= texts_in(built) + texts_in(
            before.builds(event),
        ));
        match before.takes(event) {
            Some(line) => {
                assert(before.builds(event) =~= Seq::<PointView<V>>::empty());
                assert(after.chunk == before.chunk.push(line));
                assert(s.chunk + taken.push(line) =~= (s.chunk + taken).push(line));
                assert((texts_in(built) + before.chunk).push(line) =~= texts_in(
                    built + before.builds(event),
                ) + after.chunk);
            },
            None => {
                assert(texts_in(before.builds(event)) + after.chunk =~= before.chunk);
                assert(texts_in(built) + before.chunk =~= (texts_in(built) + texts_in(
                    before.builds(event),
                )) + after.chunk);
            },
        }
    }
}

/// The texts of a sequence of points.
pub open spec fn texts_in<V>(points: Seq<PointView<V>>) -> Seq<Seq<char>> {
    points.map_values(|p: PointView<V>| p.payload.text)
}

/// A run without files is finished before it has begun: it waits for nothing, has
/// built no point, and has not failed.
pub proof fn lemma_empty_corpus<V>(
    chunk_size: nat,
    batch_size: nat,
    policy: IdPolicy,
    start_id: u64,
)
    requires
        chunk_size > 0,
        batch_size > 0,
    ensures
        ({
            let s = RunView::<V>::initial(chunk_size, batch_size, policy, start_id, Seq::empty());
            &&& s.wf()
            &&& s.awaiting() == Request::Finished
            &&& s.next_id == start_id
            &&& s.failure is None
        }),
{
}

/// The events for a series of lines.
pub open spec fn line_events<V>(lines: Seq<String>) -> Seq<Event<V>> {
    lines.map_values(|line: String| Event::Line(line))
}

proof fn lemma_blank_lines_ignored<V>(s: RunView<V>, lines: Seq<String>)
    requires
        forall|i: int| 0 <= i < lines.len() ==> is_blank(#[trigger] lines[i]@),
    ensures
        s.after(line_events(lines)) == s,
    decreases lines.len(),
{
    let events = line_events::<V>(lines);
    if lines.len() > 0 {
        assert(events.drop_last() =~= line_events::<V>(lines.drop_last()));
        lemma_blank_lines_ignored(s, lines.drop_last());
        assert(events.last() == Event::<V>::Line(lines.last()));
        assert(is_blank(lines[lines.len() - 1]@));
    }
}

/// A file that is empty, or holds blank lines only, is passed over: once it has been
/// read to its end the run stands where it stood before the file, but for the file
/// being done with and counted as passed over. No point was built and the run has not
/// failed.
pub proof fn lemma_blank_file_skipped<V>(
    s: RunView<V>,
    name: String,
    last_modified: u64,
    lines: Seq<String>,
)
    requires
        s.wf(),
        s.awaiting() == Request::Open,
        forall|i: int| 0 <= i < lines.len() ==> is_blank(#[trigger] lines[i]@),
    ensures
        s.step(Event::Opened { file_name: Some(name), last_modified }).after(
            line_events(lines),
        ).step(Event::EndOfFile) == (RunView {
            cursor: s.cursor + 1,
            skipped: s.skipped + 1,
            ..s
        }),
{
    let opened = s.step(Event::Opened { file_name: Some(name), last_modified });
    lemma_blank_lines_ignored(opened, lines);
}

/// A run that has failed stays as it is, whatever it is told afterwards, and nothing
/// more is written to the index.
pub proof fn lemma_failure_is_final<V>(s: RunView<V>, events: Seq<Event<V>>)
    requires
        s.failure is Some,
    ensures
        s.after(events) == s,
        s.points_written(events).len() == 0,
        s.points_built(events).len() == 0,
    decreases events.len(),
{
    if events.len() > 0 {
        lemma_failure_is_final(s, events.drop_last());
    }
}

/// When the embedding backend fails, the run fails with an `EmbeddingError` that
/// carries the backend's message, and no point is written afterwards: not those of
/// the chunk, which were never built, nor those that waited in the buffer.
pub proof fn lemma_embedding_failure_aborts<V>(
    s: RunView<V>,
    message: String,
    events: Seq<Event<V>>,
)
    requires
        s.awaiting() == Request::Embed,
    ensures
        ({
            let failed = s.step(Event::EmbedFailed(message));
            &&& failed.failure == Some(
                Failure { kind: ErrorKind::EmbeddingError, message: message@ },
            )
            &&& failed.awaiting() == Request::Failed
            &&& failed.after(events) == failed
            &&& failed.points_written(events).len() == 0
        }),
{
    lemma_failure_is_final(s.step(Event::EmbedFailed(message)), events);
}

/// When the index refuses a batch, the run fails with an `UpsertError` that carries
/// the message of the index, and the buffer is as it was: the refused points still
/// wait, in their order.
pub proof fn lemma_upsert_failure_keeps_buffer<V>(s: RunView<V>, message: String)
    requires
        s.awaiting() == Request::Upsert,
    ensures
        ({
            let failed = s.step(Event::UpsertFailed(message));
            &&& failed.failure == Some(Failure { kind: ErrorKind::UpsertError, message: message@ })
            &&& failed.outbox == s.outbox
            &&& failed.outbox.next_batch() == s.outbox.next_batch()
        }),
{
}

/// Under the counter policy the points built get consecutive numbers: the `i`-th
/// point built has the number that follows the counter's start by `i + 1`.
pub proof fn lemma_counter_ids<V>(s: RunView<V>, events: Seq<Event<V>>, i: int)
    requires
        s.wf(),
        s.policy == IdPolicy::Counter,
        0 <= i < s.points_built(events).len(),
    ensures
        s.points_built(events)[i].id == PointIdView::Number((s.next_id + i + 1) as u64),
        s.next_id + i + 1 <= s.after(events).next_id,
    decreases events.len(),
{
    if events.len() > 0 {
        let earlier = events.drop_last();
        let before = s.after(earlier);
        let event = events.last();
        let built = s.points_built(earlier);
        let added = before.builds(event);
        lemma_points_match_lines(s, earlier);
        lemma_points_match_lines(s, events);
        lemma_after_wf(s, earlier);
        assert(s.points_built(events) == built + added);
        if i < built.len() {
            lemma_counter_ids(s, earlier, i);
            assert((built + added)[i] == built[i]);
        } else {
            let k = i - built.len();
            assert((built + added)[i] == added[k]);
            assert(before.policy == IdPolicy::Counter) by {
                lemma_policy_kept(s, earlier);
            }
            assert(before.next_id == s.next_id + built.len());
            assert(added[k].id == PointIdView::Number((before.next_id + k + 1) as u64));
        }
    }
}

/// A run keeps to its policy, its files and its sizes.
pub proof fn lemma_policy_kept<V>(s: RunView<V>, events: Seq<Event<V>>)
    ensures
        s.after(events).policy == s.policy,
        s.after(events).files == s.files,
        s.after(events).chunk_size == s.chunk_size,
        s.after(events).outbox.batch_size == s.outbox.batch_size,
        s.after(events).start_id == s.start_id,
    decreases events.len(),
{
    if events.len() > 0 {
        lemma_policy_kept(s, events.drop_last());
    }
}

/// Two runs under the counter policy give no identifier twice when one of them
/// starts its counter where the other one ended, or beyond.
pub proof fn lemma_counter_runs_disjoint<V>(
    first: RunView<V>,
    first_events: Seq<Event<V>>,
    second: RunView<V>,
    second_events: Seq<Event<V>>,
    i: int,
    j: int,
)
    requires
        first.wf(),
        second.wf(),
        first.policy == IdPolicy::Counter,
        second.policy == IdPolicy::Counter,
        first.after(first_events).next_id <= second.next_id || second.after(
            second_events,
        ).next_id <= first.next_id,
        0 <= i < first.points_built(first_events).len(),
        0 <= j < second.points_built(second_events).len(),
    ensures
        first.points_built(first_events)[i].id != second.points_built(second_events)[j].id,
{
    lemma_counter_ids(first, first_events, i);
    lemma_counter_ids(second, second_events, j);
}

/// Two runs under the counter policy whose ranges of numbers overlap do give an
/// identifier twice: the condition of `lemma_counter_runs_disjoint` cannot be dropped.
pub proof fn lemma_counter_runs_overlap<V>(
    first: RunView<V>,
    first_events: Seq<Event<V>>,
    second: RunView<V>,
    second_events: Seq<Event<V>>,
)
    requires
        first.wf(),
        second.wf(),
        first.policy == IdPolicy::Counter,
        second.policy == IdPolicy::Counter,
        first.next_id < first.after(first_events).next_id,
        second.next_id < second.after(second_events).next_id,
        first.next_id < second.after(second_events).next_id,
        second.next_id < first.after(first_events).next_id,
    ensures
        exists|i: int, j: int|
            0 <= i < first.points_built(first_events).len() && 0 <= j < second.points_built(
                second_events,
            ).len() && #[trigger] first.points_built(first_events)[i].id
                == #[trigger] second.points_built(second_events)[j].id,
{
    lemma_points_match_lines(first, first_events);
    lemma_points_match_lines(second, second_events);
    let low: int = if first.next_id >= second.next_id {
        first.next_id as int
    } else {
        second.next_id as int
    };
    let i = low - first.next_id;
    let j = low - second.next_id;
    lemma_counter_ids(first, first_events, i);
    lemma_counter_ids(second, second_events, j);
}

/// Under the hash policy the identifier of a point is the hash of the path of its
/// file and of nothing else: neither the counter nor the run has a part in it.
pub proof fn lemma_hash_ids_ignore_counter<V>(
    meta: MetaView,
    lines: Seq<Seq<char>>,
    vectors: Seq<V>,
    start: u64,
    other_start: u64,
    i: int,
)
    requires
        0 <= i < lines.len(),
    ensures
        points_of(IdPolicy::PathHash, meta, lines, vectors, start)[i].id == PointIdView::Digest(
            path_id(meta.file_path),
        ),
        points_of(IdPolicy::PathHash, meta, lines, vectors, start) == points_of(
            IdPolicy::PathHash,
            meta,
            lines,
            vectors,
            other_start,
        ),
{
    assert(points_of(IdPolicy::PathHash, meta, lines, vectors, start) =~= points_of(
        IdPolicy::PathHash,
        meta,
        lines,
        vectors,
        other_start,
    ));
}

/// The same run with another counter.
pub open spec fn recounted<V>(s: RunView<V>, start_id: u64, next_id: u64) -> RunView<V> {
    RunView { start_id, next_id, ..s }
}

proof fn lemma_hash_step<V>(a: RunView<V>, b: RunView<V>, event: Event<V>)
    requires
        a.policy == IdPolicy::PathHash,
        b == recounted(a, b.start_id, b.next_id),
        a.step(event).failure is None,
        b.step(event).failure is None,
    ensures
        b.step(event) == recounted(a.step(event), b.start_id, b.step(event).next_id),
        b.builds(event) == a.builds(event),
        b.writes(event) == a.writes(event),
{
    assert(a.awaiting() == b.awaiting());
    assert(a.failure is None && b.failure is None);
    match event {
        Event::Embedded(vectors) => {
            if a.awaiting() == Request::Embed {
                let meta = a.open->0.meta;
                assert(chunk_fault(meta, a.chunk, vectors@, a.next_id) is None);
                assert(chunk_fault(meta, b.chunk, vectors@, b.next_id) is None);
                assert(points_of(IdPolicy::PathHash, meta, a.chunk, vectors@, a.next_id)
                    =~= points_of(IdPolicy::PathHash, meta, a.chunk, vectors@, b.next_id));
            }
        },
        _ => {},
    }
}

/// Ingesting again under the hash policy gives the same points again: two runs that
/// differ in their counters only and are told the same build and write the same
/// points, identifiers included, as long as neither fails.
pub proof fn lemma_hash_runs_repeat<V>(
    s: RunView<V>,
    start_id: u64,
    next_id: u64,
    events: Seq<Event<V>>,
)
    requires
        s.policy == IdPolicy::PathHash,
        s.after(events).failure is None,
        recounted(s, start_id, next_id).after(events).failure is None,
    ensures
        recounted(s, start_id, next_id).points_built(events) == s.points_built(events),
        recounted(s, start_id, next_id).points_written(events) == s.points_written(events),
        recounted(s, start_id, next_id).after(events) == recounted(
            s.after(events),
            start_id,
            recounted(s, start_id, next_id).after(events).next_id,
        ),
    decreases events.len(),
{
    let t = recounted(s, start_id, next_id);
    if events.len() > 0 {
        let earlier = events.drop_last();
        let event = events.last();
        let before = s.after(earlier);
        let other = t.after(earlier);
        assert(before.failure is None);
        assert(other.failure is None);
        lemma_hash_runs_repeat(s, start_id, next_id, earlier);
        lemma_policy_kept(s, earlier);
        lemma_hash_step(before, other, event);
    }
}

impl<V> RunView<V> {
    /// The chunk that is embedded at `event`, if one is: the run waits for the vectors
    /// of its chunk and the answer can be used.
    pub open spec fn embeds(self, event: Event<V>) -> Option<Seq<Seq<char>>> {
        match event {
            Event::Embedded(vectors) if self.awaiting() == Request::Embed && chunk_fault(
                self.open->0.meta,
                self.chunk,
                vectors@,
                self.next_id,
            ) is None => Some(self.chunk),
            _ => None,
        }
    }

    /// The chunks that are embedded over a series of events, in their order.
    pub open spec fn chunks_embedded(self, events: Seq<Event<V>>) -> Seq<Seq<Seq<char>>>
        decreases events.len(),
    {
        if events.len() == 0 {
            Seq::empty()
        } else {
            let earlier = self.chunks_embedded(events.drop_last());
            match self.after(events.drop_last()).embeds(events.last()) {
                Some(chunk) => earlier.push(chunk),
                None => earlier,
            }
        }
    }
}

/// Chunking loses no line and reorders none: the chunks embedded, put end to end, and
/// the lines that wait in the chunk now are the lines that waited at the start and
/// those taken in since. Every chunk embedded holds at least one line and at most
/// `chunk_size`.
pub proof fn lemma_chunks_cover_lines<V>(s: RunView<V>, events: Seq<Event<V>>)
    requires
        s.wf(),
    ensures
        s.chunks_embedded(events).flatten() + s.after(events).chunk == s.chunk + s.lines_taken(
            events,
        ),
        forall|i: int|
            0 <= i < s.chunks_embedded(events).len() ==> 0 < (#[trigger] s.chunks_embedded(
                events,
            )[i]).len() <= s.chunk_size,
    decreases events.len(),
{
    if events.len() == 0 {
        assert(s.chunks_embedded(events).flatten() =~= Seq::<Seq<char>>::empty());
        assert(s.chunks_embedded(events).flatten() + s.after(events).chunk =~= s.chunk
            + s.lines_taken(events));
    } else {
        let earlier = events.drop_last();
        let before = s.after(earlier);
        let event = events.last();
        let after = before.step(event);
        lemma_chunks_cover_lines(s, earlier);
        lemma_after_wf(s, earlier);
        lemma_policy_kept(s, earlier);
        let done = s.chunks_embedded(earlier);
        let taken = s.lines_taken(earlier);
        assert(done.flatten() + before.chunk == s.chunk + taken);
        match before.embeds(event) {
            Some(chunk) => {
                done.lemma_flatten_push(chunk);
                assert(done.push(chunk).flatten() =~= done.flatten() + chunk);
                assert(before.takes(event) is None);
                assert(after.chunk =~= Seq::<Seq<char>>::empty());
                assert((done.flatten() + chunk) + after.chunk =~= done.flatten() + before.chunk);
                assert forall|i: int| 0 <= i < done.push(chunk).len() implies 0 < (
                #[trigger] done.push(chunk)[i]).len() <= s.chunk_size by {
                    if i < done.len() {
                        assert(done.push(chunk)[i] == done[i]);
                    }
                }
            },
            None => {
                match before.takes(event) {
                    Some(line) => {
                        assert(after.chunk == before.chunk.push(line));
                        assert(done.flatten() + before.chunk.push(line) =~= (done.flatten()
                            + before.chunk).push(line));
                        assert(s.chunk + taken.push(line) =~= (s.chunk + taken).push(line));
                    },
                    None => {
                        assert(after.chunk == before.chunk);
                    },
                }
            },
        }
    }
}

} // verus!
