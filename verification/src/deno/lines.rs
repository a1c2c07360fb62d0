//! Line framing of the worker's stdout. The reader hands over one chunk of
//! buffered bytes at a time; these functions decide how much of it a line
//! takes and where the line ends.

use vstd::prelude::*;

verus! {

pub const NEWLINE: u8 = 0x0a;

/// Index of the first newline of `s` at or after `i`, or `s.len()`.
pub open spec fn newline_from(s: Seq<u8>, i: int) -> int
    decreases s.len() - i,
{
    if i >= s.len() {
        s.len() as int
    } else if s[i] == NEWLINE {
        i
    } else {
        newline_from(s, i + 1)
    }
}

/// Index of the first newline of `s`, or `s.len()` when it has none.
pub open spec fn first_newline(s: Seq<u8>) -> int {
    newline_from(s, 0)
}

pub proof fn lemma_newline_from(s: Seq<u8>, i: int)
    requires
        0 <= i <= s.len(),
    ensures
        i <= newline_from(s, i) <= s.len(),
        newline_from(s, i) < s.len() ==> s[newline_from(s, i)] == NEWLINE,
        forall|k: int| i <= k < newline_from(s, i) ==> s[k] != NEWLINE,
    decreases s.len() - i,
{
    if i < s.len() && s[i] != NEWLINE {
        lemma_newline_from(s, i + 1);
    }
}

/// What became of the line after one chunk.
#[derive(Copy, Clone, Debug, PartialEq, Eq)]
pub enum LineStatus {
    /// The chunk ended before a newline; the line goes on in the next one.
    NeedMore,
    /// The newline was copied; the line is complete.
    Complete,
    /// The line does not fit the buffer; the byte that did not fit was not
    /// consumed.
    Overflow,
}

/// How many bytes of a chunk of `avail` bytes one line-reading step takes
/// when `room` bytes of the line buffer are free, and what it means for the
/// line.
pub open spec fn line_step(avail: Seq<u8>, room: int) -> (int, LineStatus) {
    let m = first_newline(avail);
    if m < avail.len() && m < room {
        (m + 1, LineStatus::Complete)
    } else if avail.len() <= room {
        (avail.len() as int, LineStatus::NeedMore)
    } else {
        (room, LineStatus::Overflow)
    }
}

/// One step of reading a line into `buf`: copies bytes of `available` to
/// `buf` from position `written` on, up to and including the first
/// newline, stopping early when the buffer is full. Returns how many bytes
/// of `available` were consumed (all of them were copied) and the line's
/// status.
pub fn line_chunk_step(available: &[u8], buf: &mut Vec<u8>, written: usize) -> (r: (
    usize,
    LineStatus,
))
    requires
        written <= old(buf)@.len(),
    ensures
        (r.0 as int, r.1) == line_step(available@, old(buf)@.len() - written),
        r.0 <= available@.len(),
        written + r.0 <= old(buf)@.len(),
        final(buf)@ == old(buf)@.take(written as int) + available@.take(r.0 as int) + old(
            buf,
        )@.skip(written + r.0),
{
    let ghost m = first_newline(available@);
    proof {
        lemma_newline_from(available@, 0);
    }
    let mut i: usize = 0;
    while i < available.len()
        invariant
            written <= buf@.len(),
            buf@.len() == old(buf)@.len(),
            i <= available@.len(),
            i <= m,
            m == first_newline(available@),
            0 <= m <= available@.len(),
            m < available@.len() ==> available@[m] == NEWLINE,
            forall|k: int| 0 <= k < m ==> available@[k] != NEWLINE,
            written + i <= buf@.len(),
            buf@ == old(buf)@.take(written as int) + available@.take(i as int) + old(buf)@.skip(
                written + i,
            ),
        decreases available.len() - i,
    {
        if i >= buf.len() - written {
            assert(m >= i);
            return (i, LineStatus::Overflow);
        }
        let b = available[i];
        buf.set(written + i, b);
        assert(buf@ =~= old(buf)@.take(written as int) + available@.take(i + 1) + old(
            buf,
        )@.skip(written + i + 1));
        if b == NEWLINE {
            return (i + 1, LineStatus::Complete);
        }
        i = i + 1;
    }
    (i, LineStatus::NeedMore)
}

/// Bytes one drain step consumes from `s`: through the first newline, or
/// all of it.
pub open spec fn drain_len(s: Seq<u8>) -> int {
    if first_newline(s) < s.len() {
        first_newline(s) + 1
    } else {
        s.len() as int
    }
}

proof fn lemma_newline_shift(s: Seq<u8>, k: int, i: int)
    requires
        0 <= k <= i <= s.len(),
        forall|j: int| k <= j < i ==> s[j] != NEWLINE,
    ensures
        newline_from(s, k) == newline_from(s, i),
    decreases i - k,
{
    if k < i {
        lemma_newline_shift(s, k + 1, i);
    }
}

proof fn lemma_newline_skip(s: Seq<u8>, room: int, i: int)
    requires
        0 <= room <= i <= s.len(),
    ensures
        newline_from(s.skip(room), i - room) + room == newline_from(s, i),
    decreases s.len() - i,
{
    if i < s.len() && s[i] != NEWLINE {
        lemma_newline_skip(s, room, i + 1);
    }
}

/// A line that overflows the buffer loses nothing of the stream after it:
/// the step stops at the byte that did not fit, and draining the rest of
/// the chunk consumes exactly through the line's newline (or the whole
/// chunk when the newline is further on).
pub proof fn lemma_overflow_then_drain(avail: Seq<u8>, room: int)
    requires
        0 <= room,
        line_step(avail, room).1 == LineStatus::Overflow,
    ensures
        line_step(avail, room).0 == room,
        room + drain_len(avail.skip(room)) == (if first_newline(avail) < avail.len() {
            first_newline(avail) + 1
        } else {
            avail.len() as int
        }),
{
    lemma_newline_from(avail, 0);
    lemma_newline_shift(avail, 0, room);
    lemma_newline_skip(avail, room, room);
}

/// One step of skipping the rest of an over-long line: how many bytes of
/// `available` to consume (through the first newline, or all of them) and
/// whether the newline was among them.
pub fn drain_to_newline(available: &[u8]) -> (r: (usize, bool))
    ensures
        r.1 == (first_newline(available@) < available@.len()),
        r.1 ==> r.0 == first_newline(available@) + 1,
        !r.1 ==> r.0 == available@.len(),
{
    proof {
        lemma_newline_from(available@, 0);
    }
    let mut i: usize = 0;
    while i < available.len()
        invariant
            i <= available@.len(),
            i <= first_newline(available@) <= available@.len(),
            first_newline(available@) < available@.len() ==> available@[first_newline(
                available@,
            )] == NEWLINE,
            forall|k: int| 0 <= k < first_newline(available@) ==> available@[k] != NEWLINE,
        decreases available.len() - i,
    {
        if available[i] == NEWLINE {
            return (i + 1, true);
        }
        i = i + 1;
    }
    (i, false)
}

} // verus!
