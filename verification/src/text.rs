//! Reading text: whitespace, lines, and the grouping of lines into chunks.

use crate::error::{zero_chunk_size, ErrorKind, Failure, IngestError};
use vstd::prelude::*;

verus! {

/// Whether `c` carries the Unicode `White_Space` property.
pub open spec fn is_whitespace(c: char) -> bool {
    let n = c as u32;
    ||| 0x09 <= n <= 0x0d
    ||| n == 0x20
    ||| n == 0x85
    ||| n == 0xa0
    ||| n == 0x1680
    ||| 0x2000 <= n <= 0x200a
    ||| n == 0x2028
    ||| n == 0x2029
    ||| n == 0x202f
    ||| n == 0x205f
    ||| n == 0x3000
}

/// A text is blank when it is empty or holds nothing but whitespace.
pub open spec fn is_blank(text: Seq<char>) -> bool {
    forall|i: int| 0 <= i < text.len() ==> is_whitespace(#[trigger] text[i])
}

/// Offset of the first line feed in `text`, or the length of `text` when it holds none.
pub open spec fn first_newline(text: Seq<char>) -> nat
    decreases text.len(),
{
    if text.len() == 0 || text[0] == '\n' {
        0
    } else {
        1 + first_newline(text.skip(1))
    }
}

/// A line without the carriage return that may close it.
pub open spec fn strip_cr(line: Seq<char>) -> Seq<char> {
    if line.len() > 0 && line.last() == '\r' {
        line.drop_last()
    } else {
        line
    }
}

/// The lines of a text. A line ends at a line feed; the line feed, and a carriage
/// return directly before it, are not part of the line. What follows the last line
/// feed is a line of its own unless it is empty.
pub open spec fn lines_of(text: Seq<char>) -> Seq<Seq<char>>
    decreases text.len(),
{
    if text.len() == 0 {
        Seq::empty()
    } else {
        let k = first_newline(text);
        if k >= text.len() {
            seq![text]
        } else {
            seq![strip_cr(text.take(k as int))] + lines_of(text.skip(k as int + 1))
        }
    }
}

/// The lines that are not blank, in their order.
pub open spec fn non_blank(lines: Seq<Seq<char>>) -> Seq<Seq<char>> {
    lines.filter(|line: Seq<char>| !is_blank(line))
}

/// What each string of a sequence holds.
pub open spec fn texts_of(strings: Seq<String>) -> Seq<Seq<char>> {
    strings.map_values(|s: String| s@)
}

/// What each vector of a sequence holds.
pub open spec fn rows_of<T>(rows: Seq<Vec<T>>) -> Seq<Seq<T>> {
    rows.map_values(|row: Vec<T>| row@)
}

/// `items` cut into consecutive groups of `size`; only the last group may be shorter,
/// and no group is empty.
pub open spec fn chunks_of<T>(items: Seq<T>, size: nat) -> Seq<Seq<T>>
    decreases items.len(),
{
    if size == 0 || items.len() == 0 {
        Seq::empty()
    } else if items.len() <= size {
        seq![items]
    } else {
        seq![items.take(size as int)] + chunks_of(items.skip(size as int), size)
    }
}

pub proof fn lemma_first_newline_bound(text: Seq<char>)
    ensures
        first_newline(text) <= text.len(),
        first_newline(text) < text.len() ==> text[first_newline(text) as int] == '\n',
        forall|i: int| 0 <= i < first_newline(text) ==> text[i] != '\n',
    decreases text.len(),
{
    if text.len() == 0 || text[0] == '\n' {
    } else {
        let rest = text.skip(1);
        lemma_first_newline_bound(rest);
        assert forall|i: int| 0 <= i < first_newline(text) implies text[i] != '\n' by {
            if i > 0 {
                assert(text[i] == rest[i - 1]);
            }
        }
    }
}

proof fn lemma_first_newline_after(head: Seq<char>, tail: Seq<char>)
    requires
        forall|i: int| 0 <= i < head.len() ==> head[i] != '\n',
    ensures
        first_newline(head + tail) == head.len() + first_newline(tail),
    decreases head.len(),
{
    if head.len() == 0 {
        assert(head + tail =~= tail);
    } else {
        let whole = head + tail;
        assert(whole[0] == head[0]);
        assert(whole.skip(1) =~= head.skip(1) + tail);
        lemma_first_newline_after(head.skip(1), tail);
    }
}

proof fn lemma_lines_break(head: Seq<char>, tail: Seq<char>)
    requires
        forall|i: int| 0 <= i < head.len() ==> head[i] != '\n',
        tail.len() > 0,
        tail[0] == '\n',
    ensures
        lines_of(head + tail) == seq![strip_cr(head)] + lines_of(tail.skip(1)),
{
    let whole = head + tail;
    lemma_first_newline_after(head, tail);
    assert(first_newline(whole) == head.len());
    assert(whole.take(head.len() as int) =~= head);
    assert(whole.skip(head.len() as int + 1) =~= tail.skip(1));
}

proof fn lemma_lines_last(head: Seq<char>)
    requires
        forall|i: int| 0 <= i < head.len() ==> head[i] != '\n',
    ensures
        lines_of(head) == if head.len() == 0 {
            Seq::<Seq<char>>::empty()
        } else {
            seq![head]
        },
{
    lemma_first_newline_bound(head);
    if first_newline(head) < head.len() {
        assert(head[first_newline(head) as int] == '\n');
    }
}

proof fn lemma_chunks_full<T>(head: Seq<T>, tail: Seq<T>, size: nat)
    requires
        size > 0,
        head.len() == size,
    ensures
        chunks_of(head + tail, size) == seq![head] + chunks_of(tail, size),
{
    let whole = head + tail;
    if tail.len() == 0 {
        assert(whole =~= head);
        assert(chunks_of(tail, size) =~= Seq::<Seq<T>>::empty());
    } else {
        assert(whole.take(size as int) =~= head);
        assert(whole.skip(size as int) =~= tail);
    }
}

/// Cutting into chunks loses nothing and reorders nothing: the chunks, put end to
/// end, are the items again.
pub proof fn lemma_chunks_concat<T>(items: Seq<T>, size: nat)
    requires
        size > 0,
    ensures
        chunks_of(items, size).flatten() == items,
    decreases items.len(),
{
    let chunks = chunks_of(items, size);
    if items.len() == 0 {
        assert(chunks.flatten() =~= items);
    } else if items.len() <= size {
        seq![items].lemma_flatten_singleton();
    } else {
        let head = items.take(size as int);
        let tail = items.skip(size as int);
        lemma_chunks_concat(tail, size);
        vstd::seq_lib::lemma_flatten_concat(seq![head], chunks_of(tail, size));
        seq![head].lemma_flatten_singleton();
        assert(head + tail =~= items);
    }
}

/// Every chunk holds at least one item and at most `size`, and every chunk but the
/// last holds exactly `size`.
pub proof fn lemma_chunks_bounded<T>(items: Seq<T>, size: nat)
    requires
        size > 0,
    ensures
        forall|i: int|
            0 <= i < chunks_of(items, size).len() ==> 0 < (#[trigger] chunks_of(items, size)[i]).len()
                <= size,
        forall|i: int|
            0 <= i < chunks_of(items, size).len() - 1 ==> (#[trigger] chunks_of(items, size)[i]).len()
                == size,
    decreases items.len(),
{
    if items.len() == 0 {
    } else if items.len() <= size {
    } else {
        let head = items.take(size as int);
        let tail = items.skip(size as int);
        lemma_chunks_bounded(tail, size);
        let chunks = chunks_of(items, size);
        let rest = chunks_of(tail, size);
        assert(chunks == seq![head] + rest);
        assert forall|i: int| 0 <= i < chunks.len() implies 0 < (#[trigger] chunks[i]).len()
            <= size by {
            if i > 0 {
                assert(chunks[i] == rest[i - 1]);
            }
        }
        assert forall|i: int| 0 <= i < chunks.len() - 1 implies (#[trigger] chunks[i]).len()
            == size by {
            if i > 0 {
                assert(chunks[i] == rest[i - 1]);
            }
        }
    }
}

/// `String::from_iter` over the characters of `chars`: the string made of exactly
/// these characters, in this order.
#[verifier::external_body]
pub(crate) fn string_from_chars(chars: &Vec<char>) -> (s: String)
    ensures
        s@ == chars@,
{
    String::from_iter(chars.iter())
}

/// Tells whether `c` is a whitespace character.
pub fn whitespace(c: char) -> (b: bool)
    ensures
        b == is_whitespace(c),
{
    let n: u32 = c as u32;
    (0x09 <= n && n <= 0x0d) || n == 0x20 || n == 0x85 || n == 0xa0 || n == 0x1680 || (0x2000 <= n
        && n <= 0x200a) || n == 0x2028 || n == 0x2029 || n == 0x202f || n == 0x205f || n == 0x3000
}

/// Tells whether `text` is empty or made of whitespace only.
pub fn blank(text: &str) -> (b: bool)
    ensures
        b == is_blank(text@),
{
    broadcast use vstd::string::group_string_axioms;

    let chars = text.chars();
    for c in it: chars
        invariant
            it.seq() == text@,
            forall|i: int| 0 <= i < it.index() ==> is_whitespace(#[trigger] text@[i]),
    {
        if !whitespace(c) {
            return false;
        }
    }
    true
}

/// Splits `text` into its lines.
pub fn split_lines(text: &str) -> (lines: Vec<String>)
    ensures
        texts_of(lines@) == lines_of(text@),
{
    broadcast use vstd::string::group_string_axioms;

    let mut lines: Vec<String> = Vec::new();
    let mut cur: Vec<char> = Vec::new();
    let chars = text.chars();
    assert(cur@ + text@.skip(0) =~= text@);
    assert(texts_of(lines@) + lines_of(text@) =~= lines_of(text@));
    for c in it: chars
        invariant
            it.seq() == text@,
            forall|i: int| 0 <= i < cur@.len() ==> cur@[i] != '\n',
            lines_of(text@) == texts_of(lines@) + lines_of(cur@ + text@.skip(it.index())),
    {
        let ghost rest = text@.skip(it.index());
        let ghost after = text@.skip(it.index() + 1);
        assert(rest.len() > 0 && rest[0] == c);
        assert(rest.skip(1) =~= after);
        if c == '\n' {
            proof {
                lemma_lines_break(cur@, rest);
            }
            if cur.len() > 0 && cur[cur.len() - 1] == '\r' {
                cur.pop();
            }
            let line = string_from_chars(&cur);
            let ghost before = texts_of(lines@);
            lines.push(line);
            cur.clear();
            assert(texts_of(lines@) =~= before.push(line@));
            assert(cur@ + after =~= after);
            assert(texts_of(lines@) + lines_of(cur@ + after) =~= before + (seq![line@] + lines_of(
                after,
            )));
        } else {
            let ghost old_cur = cur@;
            cur.push(c);
            assert(cur@ + after =~= old_cur + rest);
        }
    }
    proof {
        assert(cur@ + text@.skip(text@.len() as int) =~= cur@);
        lemma_lines_last(cur@);
    }
    if cur.len() > 0 {
        let line = string_from_chars(&cur);
        let ghost before = texts_of(lines@);
        lines.push(line);
        assert(texts_of(lines@) =~= before.push(line@));
        assert(texts_of(lines@) =~= before + seq![cur@]);
    } else {
        assert(texts_of(lines@) + Seq::<Seq<char>>::empty() =~= texts_of(lines@));
    }
    lines
}

/// The lines of `text` that are not blank, each as it stands in the text.
pub fn non_empty_lines(text: &str) -> (lines: Vec<String>)
    ensures
        texts_of(lines@) == non_blank(lines_of(text@)),
{
    let all = split_lines(text);
    let ghost pred = |line: Seq<char>| !is_blank(line);
    let mut kept: Vec<String> = Vec::new();
    assert(texts_of(all@).take(0) =~= Seq::<Seq<char>>::empty());
    assert(texts_of(kept@) =~= Seq::<Seq<char>>::empty());
    assert(Seq::<Seq<char>>::empty().filter(pred) =~= Seq::<Seq<char>>::empty()) by {
        reveal(Seq::filter);
    }
    for line in it: all
        invariant
            it.seq() == all@,
            pred == |line: Seq<char>| !is_blank(line),
            texts_of(kept@) == texts_of(all@).take(it.index()).filter(pred),
    {
        let ghost i = it.index();
        let ghost before = texts_of(all@).take(i);
        let ghost after = texts_of(all@).take(i + 1);
        let ghost old_kept = texts_of(kept@);
        proof {
            assert(after =~= before.push(line@));
            assert(after.drop_last() =~= before);
            reveal(Seq::filter);
        }
        if !blank(line.as_str()) {
            kept.push(line);
            assert(texts_of(kept@) =~= old_kept.push(line@));
        }
    }
    assert(texts_of(all@).take(all@.len() as int) =~= texts_of(all@));
    kept
}

/// Cuts `lines` into chunks of `chunk_size` lines; the last chunk may be shorter.
/// A chunk size of zero is a configuration error.
pub fn chunk_lines(lines: Vec<String>, chunk_size: usize) -> (res: Result<
    Vec<Vec<String>>,
    IngestError,
>)
    ensures
        chunk_size == 0 <==> res is Err,
        res matches Err(e) ==> e@ == (Failure {
            kind: ErrorKind::ConfigurationError,
            message: zero_chunk_size(),
        }),
        res matches Ok(chunks) ==> rows_of(chunks@) == chunks_of(lines@, chunk_size as nat),
{
    if chunk_size == 0 {
        return Err(IngestError::new(ErrorKind::ConfigurationError, "chunk_size must be at least 1"));
    }
    let ghost size = chunk_size as nat;
    let mut chunks: Vec<Vec<String>> = Vec::new();
    let mut cur: Vec<String> = Vec::new();
    assert(cur@ + lines@.skip(0) =~= lines@);
    assert(rows_of(chunks@) + chunks_of(lines@, size) =~= chunks_of(lines@, size));
    for line in it: lines
        invariant
            it.seq() == lines@,
            size == chunk_size as nat,
            size > 0,
            cur@.len() < size,
            chunks_of(lines@, size) == rows_of(chunks@) + chunks_of(
                cur@ + lines@.skip(it.index()),
                size,
            ),
    {
        let ghost rest = lines@.skip(it.index());
        let ghost after = lines@.skip(it.index() + 1);
        let ghost old_cur = cur@;
        assert(rest.len() > 0 && rest[0] == line);
        cur.push(line);
        assert(cur@ + after =~= old_cur + rest);
        if cur.len() >= chunk_size {
            proof {
                lemma_chunks_full(cur@, after, size);
            }
            let ghost before = rows_of(chunks@);
            let ghost full = cur@;
            chunks.push(cur);
            cur = Vec::new();
            assert(rows_of(chunks@) =~= before.push(full));
            assert(cur@ + after =~= after);
            assert(rows_of(chunks@) + chunks_of(cur@ + after, size) =~= before + (seq![full]
                + chunks_of(after, size)));
        }
    }
    assert(cur@ + lines@.skip(lines@.len() as int) =~= cur@);
    if cur.len() > 0 {
        let ghost before = rows_of(chunks@);
        let ghost last = cur@;
        chunks.push(cur);
        assert(rows_of(chunks@) =~= before + seq![last]);
    } else {
        assert(rows_of(chunks@) + Seq::<Seq<String>>::empty() =~= rows_of(chunks@));
    }
    Ok(chunks)
}

} // verus!
