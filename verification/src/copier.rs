//! Streaming copier: moves a bounded byte range from a source to a sink in
//! chunks of at most the buffer size, reporting each chunk's size before the
//! chunk is written.
//!
//! The chunked transfer itself is `copy_disk_to_iso`, which runs against an
//! in-memory sink that can be told to start refusing writes, so both the
//! clean run and the write-failure run are pinned down.  `classify_read`
//! carries the read-outcome policy — end of input finishes, a momentary
//! interruption retries without a report, anything else aborts — for the
//! caller that drives a real device, and `progress_units` turns the running
//! byte count into the fixed-range progress value the display consumes.

use vstd::prelude::*;
use crate::errors::CopyError;
use vstd::arithmetic::div_mod::{lemma_div_is_ordered, lemma_div_multiples_vanish};

verus! {

/// An in-memory byte sink.  `fail_after` of `Some(t)` makes the next `t`
/// writes succeed and every later one fail; `None` never fails.
pub struct MemSink {
    pub data: Vec<u8>,
    pub fail_after: Option<usize>,
}

impl MemSink {
    /// The next `k` writes would all succeed.
    pub open spec fn spec_accepts(&self, k: nat) -> bool {
        match self.fail_after {
            None => true,
            Some(t) => k <= t,
        }
    }

    /// A sink that accepts every write.
    pub fn new() -> (s: MemSink)
        ensures
            s.data@ == Seq::<u8>::empty(),
            s.fail_after is None,
    {
        MemSink { data: Vec::new(), fail_after: None }
    }

    /// A sink whose first `t` writes succeed and whose later writes fail.
    pub fn failing_after(t: usize) -> (s: MemSink)
        ensures
            s.data@ == Seq::<u8>::empty(),
            s.fail_after == Some(t),
    {
        MemSink { data: Vec::new(), fail_after: Some(t) }
    }

    /// Writes `src[from..to]` as one chunk.  A refused write changes
    /// nothing; an accepted one appends the whole chunk — no partial-chunk
    /// writes occur.
    pub fn write_chunk(&mut self, src: &[u8], from: usize, to: usize) -> (ok: bool)
        requires
            from <= to <= src@.len(),
        ensures
            ok == old(self).spec_accepts(1),
            ok ==> final(self).data@ == old(self).data@ + src@.subrange(from as int, to as int),
            ok ==> final(self).fail_after == (match old(self).fail_after {
                None => None::<usize>,
                Some(t) => Some((t - 1) as usize),
            }),
            !ok ==> *final(self) == *old(self),
    {
        match self.fail_after {
            None => {},
            Some(t) => {
                if t == 0 {
                    return false;
                }
                self.fail_after = Some(t - 1);
            },
        }
        let mut i = from;
        while i < to
            invariant
                from <= i <= to <= src@.len(),
                self.data@ == old(self).data@ + src@.subrange(from as int, i as int),
                self.fail_after == (match old(self).fail_after {
                    None => None::<usize>,
                    Some(t) => Some((t - 1) as usize),
                }),
            decreases to - i,
        {
            self.data.push(src[i]);
            proof {
                assert(self.data@ =~= old(self).data@
                    + src@.subrange(from as int, i + 1 as int));
            }
            i = i + 1;
        }
        true
    }
}

/// The chunk sizes a transfer of `goal` bytes uses with buffers of `buf`
/// bytes: full buffers, then the remainder.
pub open spec fn chunk_sizes(goal: int, buf: int) -> Seq<usize>
    decreases goal,
    when 0 < buf
{
    if goal <= 0 {
        seq![]
    } else if goal <= buf {
        seq![goal as usize]
    } else {
        seq![buf as usize] + chunk_sizes(goal - buf, buf)
    }
}

/// Copies at most `length` bytes of `source` into `target` in chunks of at
/// most `buffer_len` bytes, reporting each chunk's size into `progress`
/// before the chunk is written.  A source shorter than `length` ends the
/// copy early with success; the first refused write ends it with a write
/// failure, after the refused chunk was already reported but not written.
pub fn copy_disk_to_iso(source: &[u8], target: &mut MemSink, length: usize, buffer_len: usize,
    progress: &mut Vec<usize>) -> (r: Result<(), CopyError>)
    requires
        buffer_len > 0,
    ensures
        ({
            let goal = if length <= source@.len() { length as int } else { source@.len() as int };
            let cs = chunk_sizes(goal, buffer_len as int);
            if old(target).spec_accepts(cs.len() as nat) {
                &&& r == Ok::<(), CopyError>(())
                &&& final(target).data@ == old(target).data@ + source@.take(goal)
                &&& final(progress)@ == old(progress)@ + cs
            } else {
                let t = old(target).fail_after->Some_0 as int;
                &&& r == Err::<(), CopyError>(CopyError::Write)
                &&& t * buffer_len <= goal
                &&& final(target).data@ == old(target).data@
                    + source@.take(t * buffer_len)
                &&& final(progress)@ == old(progress)@ + cs.take(t + 1)
            }
        }),
{
    let goal: usize = if length <= source.len() { length } else { source.len() };
    let ghost cs = chunk_sizes(goal as int, buffer_len as int);
    let mut pos: usize = 0;
    let ghost w: int = 0;
    while pos < goal
        invariant
            0 < buffer_len,
            pos <= goal <= source@.len(),
            goal == (if length <= source@.len() { length as int } else { source@.len() as int }),
            cs == chunk_sizes(goal as int, buffer_len as int),
            0 <= w <= cs.len(),
            w < cs.len() ==> pos == w * buffer_len,
            w == cs.len() ==> pos == goal,
            chunk_sizes(goal - pos, buffer_len as int) == cs.skip(w),
            progress@ == old(progress)@ + cs.take(w),
            target.data@ == old(target).data@ + source@.take(pos as int),
            target.fail_after == (match old(target).fail_after {
                None => None::<usize>,
                Some(t) => Some((t - w) as usize),
            }),
            old(target).fail_after is Some ==> w <= old(target).fail_after->Some_0,
        decreases goal - pos,
    {
        proof {
            if w == cs.len() {
                assert(pos == goal);
                assert(false);
            }
        }
        let n: usize = if buffer_len <= goal - pos { buffer_len } else { goal - pos };
        proof {
            assert(cs.skip(w) == chunk_sizes(goal - pos, buffer_len as int));
            assert(chunk_sizes(goal - pos, buffer_len as int)[0] == n);
            assert(cs[w] == n);
        }
        progress.push(n);
        proof {
            assert(progress@ =~= old(progress)@ + cs.take(w + 1));
        }
        let ok = target.write_chunk(source, pos, pos + n);
        if !ok {
            proof {
                match old(target).fail_after {
                    None => {
                        assert(target.fail_after is None);
                        assert(target.spec_accepts(1));
                        assert(false);
                    },
                    Some(t0) => {
                        assert(target.fail_after == Some((t0 - w) as usize));
                        assert(!target.spec_accepts(1));
                        assert((t0 - w) as usize == 0);
                        assert(t0 == w);
                        assert(w < cs.len());
                        assert(!old(target).spec_accepts(cs.len() as nat));
                        assert(t0 * buffer_len == pos);
                    },
                }
            }
            return Err(CopyError::Write);
        }
        proof {
            assert(target.data@ =~= old(target).data@ + source@.take(pos + n as int));
            assert(cs.skip(w).skip(1) =~= cs.skip(w + 1));
            if goal - pos <= buffer_len {
                assert(chunk_sizes(goal - pos, buffer_len as int) =~= seq![n]);
                assert(cs.skip(w).len() == 1);
                assert(w + 1 == cs.len());
                assert(goal - (pos + n) == 0);
                assert(chunk_sizes(goal - (pos + n), buffer_len as int) =~= cs.skip(w + 1));
            } else {
                let tail = chunk_sizes(goal - pos - buffer_len, buffer_len as int);
                assert(chunk_sizes(goal - pos, buffer_len as int)
                    == seq![buffer_len as usize] + tail);
                assert((seq![buffer_len as usize] + tail).skip(1) =~= tail);
                assert(n == buffer_len);
                assert(chunk_sizes(goal - (pos + n), buffer_len as int) == tail);
                assert(tail =~= cs.skip(w + 1));
            }
        }
        proof {
            assert((w + 1) * buffer_len == w * buffer_len + buffer_len) by (nonlinear_arith);
        }
        pos = pos + n;
        proof {
            w = w + 1;
        }
    }
    proof {
        if w < cs.len() {
            assert(chunk_sizes(goal - pos, buffer_len as int) == cs.skip(w));
            assert(cs.skip(w).len() == 0);
            assert(false);
        }
        assert(cs.take(w) =~= cs);
        assert(old(target).spec_accepts(cs.len() as nat));
    }
    Ok(())
}

/// The outcome of one read from a real source, as the surrounding process
/// observes it.
#[derive(Clone, Copy, Debug, PartialEq, Eq, Structural)]
pub enum ReadOutcome {
    /// The read returned this many bytes; zero means end of input.
    Data(usize),
    /// The read was momentarily interrupted and returned nothing.
    Interrupted,
    /// The read failed with a non-transient error.
    Failed,
}

/// What the copy loop must do after one read.
#[derive(Clone, Copy, Debug, PartialEq, Eq, Structural)]
pub enum ReadStep {
    /// End of input: the copy finishes successfully.
    Finish,
    /// Report this chunk size, then write the chunk, then read again.
    Write(usize),
    /// Read again without reporting anything.
    Retry,
    /// Stop with a read failure.
    Abort,
}

/// The read-outcome policy of the copy loop: end of input finishes the copy,
/// a delivered chunk is reported and written, a momentary interruption is
/// retried without a report, and any other failure aborts the copy as a
/// read error.
pub fn classify_read(outcome: ReadOutcome) -> (s: ReadStep)
    ensures
        s == (match outcome {
            ReadOutcome::Data(n) => if n == 0 { ReadStep::Finish } else { ReadStep::Write(n) },
            ReadOutcome::Interrupted => ReadStep::Retry,
            ReadOutcome::Failed => ReadStep::Abort,
        }),
{
    match outcome {
        ReadOutcome::Data(n) => {
            if n == 0 {
                ReadStep::Finish
            } else {
                ReadStep::Write(n)
            }
        },
        ReadOutcome::Interrupted => ReadStep::Retry,
        ReadOutcome::Failed => ReadStep::Abort,
    }
}

/// Normalized completion for the display: `copied` of `total` bytes, scaled
/// to the fixed range 0 through 1000.
pub fn progress_units(copied: usize, total: usize) -> (r: usize)
    requires
        1 <= total,
        copied <= total,
    ensures
        r == copied * 1000 / total as int,
        r <= 1000,
{
    let r128: u128 = (copied as u128) * 1000u128 / (total as u128);
    proof {
        lemma_div_is_ordered(copied as int * 1000, total as int * 1000, total as int);
        lemma_div_multiples_vanish(1000, total as int);
    }
    r128 as usize
}

} // verus!
