//! Pull-based cursors over fallible sequences of items: the byte stream
//! used for reads and the listing cursor used for pagination.
//!
//! A cursor distinguishes "here is your last batch of data" from "there is
//! no more data" as two separate observable pulls. It therefore moves
//! through three phases: `Active` while the underlying sequence may still
//! yield items, `ExhaustedPending` once the sequence has ended and the
//! buffered leftovers have been flushed to the caller, and `Exhausted` once
//! a pull has failed with `StreamExhausted`. Every pull in the terminal
//! phase fails with `StreamExhausted` again.

use vstd::prelude::*;
use vstd::seq_lib::*;

use crate::error::ErrorKind;

verus! {

/// The phase of a cursor's three-state exhaustion machine.
#[derive(Clone, Copy, Debug, PartialEq, Eq, Structural)]
pub enum CursorPhase {
    /// The underlying sequence may still yield items.
    Active,
    /// The underlying sequence has ended and its leftovers were flushed.
    ExhaustedPending,
    /// A pull has already failed with `StreamExhausted`.
    Exhausted,
}

/// The default aggregation threshold of a byte stream, in bytes.
pub const DEFAULT_BYTES_CHUNK_SIZE: usize = 10 * 1024 * 1024;

/// The views of a sequence of byte chunks.
pub open spec fn chunk_views(chunks: Seq<Vec<u8>>) -> Seq<Seq<u8>> {
    chunks.map_values(|c: Vec<u8>| c@)
}

/// How many chunks a single aggregating pull consumes: chunks are taken in
/// order until their accumulated byte count reaches `threshold`, or the
/// sequence runs out.
pub open spec fn batch_take(chunks: Seq<Seq<u8>>, threshold: int) -> int
    decreases chunks.len(),
{
    if chunks.len() == 0 {
        0
    } else if chunks.first().len() >= threshold {
        1
    } else {
        1 + batch_take(chunks.drop_first(), threshold - chunks.first().len())
    }
}

/// The batches that repeated aggregating pulls yield over `chunks` with
/// threshold `threshold`, starting with the already-accumulated chunks
/// `acc`: each batch is the concatenation of accumulated chunks, closed as
/// soon as it holds at least `threshold` bytes; the final batch may be
/// shorter, and leftovers are flushed as a final batch only if at least one
/// chunk was accumulated.
pub open spec fn batches_from(chunks: Seq<Seq<u8>>, threshold: int, acc: Seq<Seq<u8>>) -> Seq<
    Seq<u8>,
>
    decreases chunks.len(),
{
    if chunks.len() == 0 {
        if acc.len() == 0 {
            seq![]
        } else {
            seq![acc.flatten()]
        }
    } else {
        let acc2 = acc.push(chunks.first());
        if acc2.flatten().len() >= threshold {
            seq![acc2.flatten()] + batches_from(chunks.drop_first(), threshold, seq![])
        } else {
            batches_from(chunks.drop_first(), threshold, acc2)
        }
    }
}

/// The batches that repeated aggregating pulls yield over a fresh cursor.
pub open spec fn batches(chunks: Seq<Seq<u8>>, threshold: int) -> Seq<Seq<u8>> {
    batches_from(chunks, threshold, seq![])
}

/// A pull-based cursor over a known, in-memory sequence of byte chunks,
/// aggregating chunks into batches of at least a requested size.
pub struct ByteStream {
    chunks: Vec<Vec<u8>>,
    pos: usize,
    phase: CursorPhase,
}

impl ByteStream {
    /// The chunks not yet consumed, oldest first.
    pub closed spec fn remaining(self) -> Seq<Seq<u8>> {
        chunk_views(self.chunks@).skip(self.pos as int)
    }

    /// The cursor's phase in the three-state exhaustion machine.
    pub closed spec fn phase(self) -> CursorPhase {
        self.phase
    }

    /// The cursor is internally consistent: the consumed prefix never
    /// exceeds the source, and a cursor past `Active` has consumed all of
    /// it.
    pub closed spec fn wf(self) -> bool {
        &&& self.pos <= self.chunks.len()
        &&& self.phase != CursorPhase::Active ==> self.pos == self.chunks.len()
    }

    /// The current phase of the exhaustion machine.
    pub fn current_phase(&self) -> (r: CursorPhase)
        ensures
            r == self.phase(),
    {
        self.phase
    }

    /// Open a cursor over a known sequence of chunks.
    pub fn new(chunks: Vec<Vec<u8>>) -> (s: ByteStream)
        ensures
            s.wf(),
            s.remaining() == chunk_views(chunks@),
            s.phase() == CursorPhase::Active,
    {
        let s = ByteStream { chunks, pos: 0, phase: CursorPhase::Active };
        proof {
            assert(s.remaining() =~= chunk_views(s.chunks@));
        }
        s
    }

    /// Pull exactly one raw chunk, or fail with `StreamExhausted` once the
    /// source has ended; after the first such failure the cursor is in its
    /// terminal phase and every further pull fails the same way.
    pub fn pull_one(&mut self) -> (r: Result<Vec<u8>, ErrorKind>)
        requires
            old(self).wf(),
        ensures
            final(self).wf(),
            old(self).remaining().len() == 0 ==> {
                &&& r == Err::<Vec<u8>, ErrorKind>(ErrorKind::StreamExhausted)
                &&& final(self).remaining() == old(self).remaining()
                &&& final(self).phase() == CursorPhase::Exhausted
            },
            old(self).remaining().len() > 0 ==> {
                &&& r is Ok
                &&& r->Ok_0@ == old(self).remaining().first()
                &&& final(self).remaining() == old(self).remaining().drop_first()
                &&& final(self).phase() == CursorPhase::Active
            },
    {
        if self.pos < self.chunks.len() {
            let chunk = self.chunks[self.pos].clone();
            self.pos = self.pos + 1;
            proof {
                assert(chunk@ == old(self).remaining().first());
                assert(self.remaining() =~= old(self).remaining().drop_first());
            }
            self.phase = CursorPhase::Active;
            Ok(chunk)
        } else {
            self.phase = CursorPhase::Exhausted;
            proof {
                assert(self.remaining() =~= old(self).remaining());
            }
            Err(ErrorKind::StreamExhausted)
        }
    }

    /// Pull one aggregated batch: drain chunks until at least `threshold`
    /// bytes have accumulated or the source ends. A partial batch is
    /// returned when the source ends with something accumulated; a pull
    /// with nothing accumulated fails with `StreamExhausted`, and every
    /// pull after that failure fails with `StreamExhausted` as well.
    ///
    /// The returned batch is exactly the head of the batch decomposition of
    /// the remaining chunks, and the cursor afterwards yields exactly its
    /// tail: repeated pulls reassemble the source's bytes in order.
    pub fn pull_batch(&mut self, threshold: usize) -> (r: Result<Vec<u8>, ErrorKind>)
        requires
            old(self).wf(),
        ensures
            final(self).wf(),
            old(self).remaining().len() == 0 ==> {
                &&& r == Err::<Vec<u8>, ErrorKind>(ErrorKind::StreamExhausted)
                &&& final(self).remaining() == old(self).remaining()
                &&& final(self).phase() == CursorPhase::Exhausted
            },
            old(self).remaining().len() > 0 ==> {
                let k = batch_take(old(self).remaining(), threshold as int);
                &&& r is Ok
                &&& r->Ok_0@ == old(self).remaining().take(k).flatten()
                &&& final(self).remaining() == old(self).remaining().skip(k)
                &&& final(self).phase() == (if r->Ok_0@.len() >= threshold {
                    CursorPhase::Active
                } else {
                    CursorPhase::ExhaustedPending
                })
            },
    {
        let ghost rem = old(self).remaining();
        let mut buffers: Vec<Vec<u8>> = Vec::new();
        let mut total: usize = 0;
        proof {
            assert(rem.skip(0) =~= rem);
            assert(rem.take(0) =~= Seq::<Seq<u8>>::empty());
        }
        loop
            invariant
                self.wf(),
                self.chunks == old(self).chunks,
                old(self).pos <= self.pos <= self.chunks.len(),
                rem == old(self).remaining(),
                buffers.len() == self.pos - old(self).pos,
                chunk_views(buffers@) == rem.take(buffers.len() as int),
                total == rem.take(buffers.len() as int).flatten().len(),
                total <= threshold,
                buffers.len() > 0 ==> total < threshold,
                batch_take(rem, threshold as int) == buffers.len() + batch_take(
                    rem.skip(buffers.len() as int),
                    threshold - total,
                ),
            decreases self.chunks.len() - self.pos,
        {
            if self.pos < self.chunks.len() {
                let ghost p = buffers.len() as int;
                let chunk = self.chunks[self.pos].clone();
                proof {
                    assert(chunk@ =~= rem[p]);
                    lemma_batch_take_step(rem, threshold as int, p);
                    lemma_flatten_take_len(rem, p + 1);
                }
                self.pos = self.pos + 1;
                if chunk.len() >= threshold - total {
                    // Threshold met: close the batch without touching the
                    // source again.
                    buffers.push(chunk);
                    proof {
                        assert(chunk_views(buffers@) =~= rem.take(p + 1));
                        assert(batch_take(rem, threshold as int) == p + 1);
                        assert(self.remaining() =~= rem.skip(p + 1));
                        assert(rem.take(p + 1).flatten().len() >= threshold);
                    }
                    let out = concat_chunks(&buffers);
                    self.phase = CursorPhase::Active;
                    return Ok(out);
                } else {
                    total = total + chunk.len();
                    buffers.push(chunk);
                    proof {
                        assert(chunk_views(buffers@) =~= rem.take(p + 1));
                    }
                }
            } else {
                // The source has ended: flush leftovers, or report
                // exhaustion when nothing accumulated.
                if buffers.len() == 0 {
                    self.phase = CursorPhase::Exhausted;
                    proof {
                        assert(rem.len() == 0);
                        assert(self.remaining() =~= rem);
                    }
                    return Err(ErrorKind::StreamExhausted);
                } else {
                    let ghost k = buffers.len() as int;
                    proof {
                        assert(rem.take(k) =~= rem);
                        assert(rem.skip(k) =~= Seq::<Seq<u8>>::empty());
                        assert(batch_take(rem, threshold as int) == k);
                        assert(self.remaining() =~= rem.skip(k));
                    }
                    let out = concat_chunks(&buffers);
                    self.phase = CursorPhase::ExhaustedPending;
                    return Ok(out);
                }
            }
        }
    }

    /// Drain the entire source unconditionally into one contiguous buffer.
    /// Never fails: an empty source yields an empty buffer.
    pub fn materialize_all(&mut self) -> (r: Vec<u8>)
        requires
            old(self).wf(),
        ensures
            final(self).wf(),
            r@ == old(self).remaining().flatten(),
            final(self).remaining().len() == 0,
    {
        let ghost rem = old(self).remaining();
        let mut buffers: Vec<Vec<u8>> = Vec::new();
        proof {
            assert(rem.take(0) =~= Seq::<Seq<u8>>::empty());
        }
        while self.pos < self.chunks.len()
            invariant
                self.wf(),
                self.chunks == old(self).chunks,
                old(self).pos <= self.pos <= self.chunks.len(),
                rem == old(self).remaining(),
                self.phase == old(self).phase,
                buffers.len() == self.pos - old(self).pos,
                chunk_views(buffers@) == rem.take(buffers.len() as int),
            decreases self.chunks.len() - self.pos,
        {
            let ghost p: int = buffers.len() as int;
            let chunk = self.chunks[self.pos].clone();
            proof {
                assert(chunk@ =~= rem[p]);
            }
            self.pos = self.pos + 1;
            buffers.push(chunk);
            proof {
                assert(chunk_views(buffers@) =~= rem.take(p + 1));
            }
        }
        proof {
            assert(rem.take(buffers.len() as int) =~= rem);
            assert(self.remaining() =~= Seq::<Seq<u8>>::empty());
        }
        concat_chunks(&buffers)
    }
}

/// Copy a sequence of accumulated fragments into one contiguous buffer,
/// each fragment exactly once, in order.
pub fn concat_chunks(parts: &Vec<Vec<u8>>) -> (r: Vec<u8>)
    ensures
        r@ == chunk_views(parts@).flatten(),
{
    let mut out: Vec<u8> = Vec::new();
    let mut i: usize = 0;
    while i < parts.len()
        invariant
            i <= parts.len(),
            out@ == chunk_views(parts@).take(i as int).flatten(),
        decreases parts.len() - i,
    {
        out.extend_from_slice(parts[i].as_slice());
        proof {
            lemma_flatten_push_len(chunk_views(parts@).take(i as int), parts@[i as int]@);
            assert(chunk_views(parts@).take(i as int).push(parts@[i as int]@) =~= chunk_views(
                parts@,
            ).take(i + 1));
        }
        i = i + 1;
    }
    proof {
        assert(chunk_views(parts@).take(parts@.len() as int) =~= chunk_views(parts@));
    }
    out
}

/// Appending one more fragment extends the flattened bytes by exactly that
/// fragment.
pub proof fn lemma_flatten_push_len(s: Seq<Seq<u8>>, x: Seq<u8>)
    ensures
        s.push(x).flatten() == s.flatten() + x,
        s.push(x).flatten().len() == s.flatten().len() + x.len(),
{
    s.lemma_flatten_push(x);
}

/// The flattened length of a prefix of `k` chunks.
pub proof fn lemma_flatten_take_len(chunks: Seq<Seq<u8>>, k: int)
    requires
        0 <= k <= chunks.len(),
    ensures
        k > 0 ==> chunks.take(k).flatten().len() == chunks.take(k - 1).flatten().len() + chunks[k
            - 1].len(),
        k == 0 ==> chunks.take(k).flatten().len() == 0,
{
    if k > 0 {
        assert(chunks.take(k) =~= chunks.take(k - 1).push(chunks[k - 1]));
        lemma_flatten_push_len(chunks.take(k - 1), chunks[k - 1]);
        assert(chunks.take(k).flatten() == chunks.take(k - 1).flatten() + chunks[k - 1]);
        assert(chunks.take(k).flatten().len() == chunks.take(k - 1).flatten().len() + chunks[k
            - 1].len());
    } else {
        assert(chunks.take(0) =~= Seq::<Seq<u8>>::empty());
        assert(chunks.take(0).flatten().len() == 0);
    }
}

/// The terminal phase is stable: a cursor that has reported exhaustion
/// has nothing left, so by the pull contracts every further pull fails
/// with `StreamExhausted` again and leaves the cursor in this phase.
pub proof fn lemma_exhausted_is_terminal(s: ByteStream)
    requires
        s.wf(),
        s.phase() == CursorPhase::Exhausted,
    ensures
        s.remaining().len() == 0,
{
}

/// The flattened length of a sequence of single-byte chunks is its length.
pub proof fn lemma_flatten_unit_len(chunks: Seq<Seq<u8>>)
    requires
        forall|i: int| 0 <= i < chunks.len() ==> chunks[i].len() == 1,
    ensures
        chunks.flatten().len() == chunks.len(),
    decreases chunks.len(),
{
    if chunks.len() > 0 {
        lemma_flatten_unit_len(chunks.drop_first());
    }
}

/// One aggregating pull yields exactly the head of the batch decomposition
/// of the source, and leaves a source whose decomposition is its tail.
pub proof fn lemma_batches_head(chunks: Seq<Seq<u8>>, threshold: int)
    requires
        chunks.len() > 0,
        threshold >= 1,
    ensures
        ({
            let k = batch_take(chunks, threshold);
            &&& 1 <= k <= chunks.len()
            &&& batches(chunks, threshold) == seq![chunks.take(k).flatten()] + batches(
                chunks.skip(k),
                threshold,
            )
        }),
{
    let k = batch_take(chunks, threshold);
    lemma_batches_from_head(chunks, threshold, seq![]);
    assert(Seq::<Seq<u8>>::empty().flatten().len() == 0);
    assert(seq![] + chunks.take(k) =~= chunks.take(k));
}

/// Generalization of `lemma_batches_head` to a pull that starts with some
/// chunks already accumulated.
proof fn lemma_batches_from_head(chunks: Seq<Seq<u8>>, threshold: int, acc: Seq<Seq<u8>>)
    requires
        chunks.len() > 0,
        acc.flatten().len() < threshold,
    ensures
        ({
            let k = batch_take(chunks, threshold - acc.flatten().len());
            &&& 1 <= k <= chunks.len()
            &&& batches_from(chunks, threshold, acc) == seq![(acc + chunks.take(k)).flatten()]
                + batches(chunks.skip(k), threshold)
        }),
    decreases chunks.len(),
{
    let t2 = threshold - acc.flatten().len();
    let k = batch_take(chunks, t2);
    let acc2 = acc.push(chunks.first());
    lemma_flatten_push_len(acc, chunks.first());
    if acc2.flatten().len() >= threshold {
        assert(chunks.first().len() >= t2);
        assert(k == 1);
        assert(acc + chunks.take(1) =~= acc2);
        assert(chunks.skip(1) =~= chunks.drop_first());
    } else {
        assert(chunks.first().len() < t2);
        assert(k == 1 + batch_take(chunks.drop_first(), t2 - chunks.first().len()));
        if chunks.len() == 1 {
            // The recursion bottoms out: the one chunk is accumulated and
            // flushed as the final batch.
            assert(chunks.drop_first().len() == 0);
            assert(batch_take(chunks.drop_first(), t2 - chunks.first().len()) == 0);
            assert(k == 1);
            assert(batches_from(chunks, threshold, acc) == batches_from(
                chunks.drop_first(),
                threshold,
                acc2,
            ));
            assert(batches_from(chunks.drop_first(), threshold, acc2) == seq![acc2.flatten()]);
            assert(acc + chunks.take(1) =~= acc2);
            assert(chunks.skip(1) =~= Seq::<Seq<u8>>::empty());
            assert(batches(chunks.skip(1), threshold) == Seq::<Seq<u8>>::empty());
            assert(seq![(acc + chunks.take(k)).flatten()] + batches(chunks.skip(k), threshold)
                =~= seq![acc2.flatten()]);
        } else {
            lemma_batches_from_head(chunks.drop_first(), threshold, acc2);
            let k2 = batch_take(chunks.drop_first(), threshold - acc2.flatten().len());
            assert(t2 - chunks.first().len() == threshold - acc2.flatten().len());
            assert(k == 1 + k2);
            assert(acc + chunks.take(k) =~= acc2 + chunks.drop_first().take(k2));
            assert(chunks.skip(k) =~= chunks.drop_first().skip(k2));
        }
    }
}

/// Concatenating, in order, every batch that repeated aggregating pulls
/// yield over a source reproduces the source's bytes exactly.
pub proof fn lemma_batches_reassemble(chunks: Seq<Seq<u8>>, threshold: int)
    ensures
        batches(chunks, threshold).flatten() == chunks.flatten(),
{
    lemma_batches_from_reassemble(chunks, threshold, seq![]);
    assert(Seq::<Seq<u8>>::empty().flatten() =~= Seq::<u8>::empty());
    assert(Seq::<u8>::empty() + chunks.flatten() =~= chunks.flatten());
}

/// Generalization of `lemma_batches_reassemble` to a pull sequence that
/// starts with some chunks already accumulated.
proof fn lemma_batches_from_reassemble(chunks: Seq<Seq<u8>>, threshold: int, acc: Seq<Seq<u8>>)
    ensures
        batches_from(chunks, threshold, acc).flatten() == acc.flatten() + chunks.flatten(),
    decreases chunks.len(),
{
    if chunks.len() == 0 {
        if acc.len() == 0 {
            assert(batches_from(chunks, threshold, acc).flatten() =~= acc.flatten()
                + chunks.flatten());
        } else {
            seq![acc.flatten()].lemma_flatten_one_element();
            assert(chunks.flatten() =~= Seq::<u8>::empty());
            assert(acc.flatten() + chunks.flatten() =~= acc.flatten());
        }
    } else {
        let acc2 = acc.push(chunks.first());
        lemma_flatten_push_len(acc, chunks.first());
        assert(chunks.flatten() == chunks.first() + chunks.drop_first().flatten());
        if acc2.flatten().len() >= threshold {
            lemma_batches_from_reassemble(chunks.drop_first(), threshold, seq![]);
            lemma_flatten_concat(
                seq![acc2.flatten()],
                batches(chunks.drop_first(), threshold),
            );
            seq![acc2.flatten()].lemma_flatten_one_element();
            assert(Seq::<Seq<u8>>::empty().flatten() =~= Seq::<u8>::empty());
            assert(acc2.flatten() + (Seq::<u8>::empty() + chunks.drop_first().flatten())
                =~= acc.flatten() + chunks.flatten());
        } else {
            lemma_batches_from_reassemble(chunks.drop_first(), threshold, acc2);
            assert(acc2.flatten() + chunks.drop_first().flatten() =~= acc.flatten()
                + chunks.flatten());
        }
    }
}

/// Over a source delivered one byte at a time, with threshold `threshold`,
/// repeated aggregating pulls yield exactly `ceil(n / threshold)` batches,
/// where `n` is the total byte count; an empty source yields none.
pub proof fn lemma_batches_count_unit(chunks: Seq<Seq<u8>>, threshold: int)
    requires
        threshold >= 1,
        forall|i: int| 0 <= i < chunks.len() ==> chunks[i].len() == 1,
    ensures
        batches(chunks, threshold).len() == (chunks.flatten().len() + threshold - 1) / threshold,
{
    lemma_flatten_unit_len(chunks);
    lemma_batches_from_count_unit(chunks, threshold, seq![]);
    assert(Seq::<Seq<u8>>::empty().flatten().len() == 0);
}

/// Generalization of `lemma_batches_count_unit` to a pull sequence that
/// starts with some single-byte chunks already accumulated.
proof fn lemma_batches_from_count_unit(chunks: Seq<Seq<u8>>, threshold: int, acc: Seq<Seq<u8>>)
    requires
        threshold >= 1,
        forall|i: int| 0 <= i < chunks.len() ==> chunks[i].len() == 1,
        forall|i: int| 0 <= i < acc.len() ==> acc[i].len() == 1,
        acc.flatten().len() < threshold,
    ensures
        batches_from(chunks, threshold, acc).len() == (acc.flatten().len() + chunks.len()
            + threshold - 1) / threshold,
    decreases chunks.len(),
{
    let a = acc.flatten().len() as int;
    let t = threshold;
    if chunks.len() == 0 {
        lemma_flatten_unit_len(acc);
        if acc.len() == 0 {
            assert((t - 1) / t == 0) by (nonlinear_arith)
                requires
                    t >= 1,
            ;
        } else {
            assert((a + t - 1) / t == 1) by (nonlinear_arith)
                requires
                    t >= 1,
                    1 <= a < t,
            ;
        }
    } else {
        let acc2 = acc.push(chunks.first());
        lemma_flatten_push_len(acc, chunks.first());
        assert(forall|i: int| 0 <= i < acc2.len() ==> acc2[i].len() == 1);
        assert(forall|i: int|
            0 <= i < chunks.drop_first().len() ==> chunks.drop_first()[i].len() == 1);
        let n = chunks.len() as int;
        if acc2.flatten().len() >= t {
            assert(a + 1 == t);
            assert(Seq::<Seq<u8>>::empty().flatten().len() == 0);
            lemma_batches_from_count_unit(chunks.drop_first(), t, seq![]);
            assert(1 + (n - 1 + t - 1) / t == (a + n + t - 1) / t) by (nonlinear_arith)
                requires
                    t >= 1,
                    a + 1 == t,
                    n >= 1,
            ;
        } else {
            lemma_batches_from_count_unit(chunks.drop_first(), t, acc2);
            assert(a + 1 + (n - 1) + t - 1 == a + n + t - 1);
        }
    }
}

/// Over any source of nonempty chunks holding `n` bytes in all, with
/// threshold `threshold`, repeated aggregating pulls yield at most
/// `ceil(n / threshold)` batches: every batch but the last holds at least
/// `threshold` bytes, and the last is nonempty. Coarser chunks can only
/// lower the count below the bound, since a batch keeps whole chunks and
/// may overshoot the threshold.
pub proof fn lemma_batches_count_upper(chunks: Seq<Seq<u8>>, threshold: int)
    requires
        threshold >= 1,
        forall|i: int| 0 <= i < chunks.len() ==> chunks[i].len() >= 1,
    ensures
        batches(chunks, threshold).len() <= (chunks.flatten().len() + threshold - 1) / threshold,
{
    lemma_batches_from_count_upper(chunks, threshold, seq![]);
    let k = batches(chunks, threshold).len() as int;
    let n = chunks.flatten().len() as int;
    let t = threshold;
    assert(k * t <= n + t - 1);
    vstd::arithmetic::div_mod::lemma_div_is_ordered(k * t, n + t - 1, t);
    vstd::arithmetic::div_mod::lemma_div_by_multiple(k, t);
}

/// Generalization of `lemma_batches_count_upper` to a pull sequence that
/// starts with some nonempty chunks already accumulated.
proof fn lemma_batches_from_count_upper(chunks: Seq<Seq<u8>>, threshold: int, acc: Seq<Seq<u8>>)
    requires
        threshold >= 1,
        forall|i: int| 0 <= i < chunks.len() ==> chunks[i].len() >= 1,
        forall|i: int| 0 <= i < acc.len() ==> acc[i].len() >= 1,
        acc.flatten().len() < threshold,
    ensures
        batches_from(chunks, threshold, acc).len() * threshold <= acc.flatten().len()
            + chunks.flatten().len() + threshold - 1,
    decreases chunks.len(),
{
    let t = threshold;
    let a = acc.flatten().len() as int;
    if chunks.len() == 0 {
        if acc.len() == 0 {
            assert(batches_from(chunks, t, acc).len() * t == 0) by (nonlinear_arith)
                requires
                    batches_from(chunks, t, acc).len() == 0,
            ;
        } else {
            lemma_flatten_first_len(acc);
            assert(batches_from(chunks, t, acc).len() * t == t) by (nonlinear_arith)
                requires
                    batches_from(chunks, t, acc).len() == 1,
            ;
        }
    } else {
        let acc2 = acc.push(chunks.first());
        lemma_flatten_push_len(acc, chunks.first());
        assert(chunks.flatten() == chunks.first() + chunks.drop_first().flatten());
        assert(forall|i: int|
            0 <= i < chunks.drop_first().len() ==> chunks.drop_first()[i].len() >= 1);
        let n = chunks.flatten().len() as int;
        let nrest = chunks.drop_first().flatten().len() as int;
        let f = chunks.first().len() as int;
        if acc2.flatten().len() >= t {
            assert(Seq::<Seq<u8>>::empty().flatten().len() == 0);
            lemma_batches_from_count_upper(chunks.drop_first(), t, seq![]);
            let krest = batches_from(chunks.drop_first(), t, seq![]).len() as int;
            assert((1 + krest) * t == t + krest * t) by (nonlinear_arith);
            assert(t + krest * t <= t + nrest + t - 1);
            assert(t <= a + f);
        } else {
            assert(forall|i: int| 0 <= i < acc2.len() ==> acc2[i].len() >= 1);
            lemma_batches_from_count_upper(chunks.drop_first(), t, acc2);
        }
    }
}

/// A nonempty sequence of nonempty chunks flattens to at least one byte.
proof fn lemma_flatten_first_len(chunks: Seq<Seq<u8>>)
    requires
        chunks.len() > 0,
        forall|i: int| 0 <= i < chunks.len() ==> chunks[i].len() >= 1,
    ensures
        chunks.flatten().len() >= 1,
{
    assert(chunks.flatten() == chunks.first() + chunks.drop_first().flatten());
}

/// Unfolding `batch_take` across a consumed prefix: after `p` chunks have
/// been accumulated without reaching the threshold, the chunks a pull
/// consumes are those `p` plus what a pull over the rest consumes.
proof fn lemma_batch_take_step(chunks: Seq<Seq<u8>>, threshold: int, p: int)
    requires
        0 <= p < chunks.len(),
        batch_take(chunks, threshold) == p + batch_take(
            chunks.skip(p),
            threshold - chunks.take(p).flatten().len(),
        ),
    ensures
        chunks[p].len() >= threshold - chunks.take(p).flatten().len() ==> batch_take(
            chunks,
            threshold,
        ) == p + 1,
        chunks[p].len() < threshold - chunks.take(p).flatten().len() ==> batch_take(
            chunks,
            threshold,
        ) == p + 1 + batch_take(chunks.skip(p + 1), threshold - chunks.take(p + 1).flatten().len()),
{
    let rest = chunks.skip(p);
    let t2 = threshold - chunks.take(p).flatten().len();
    assert(rest.len() > 0);
    assert(rest.first() == chunks[p]);
    lemma_flatten_take_len(chunks, p + 1);
    if chunks[p].len() >= t2 {
        assert(batch_take(rest, t2) == 1);
    } else {
        assert(batch_take(rest, t2) == 1 + batch_take(rest.drop_first(), t2 - rest.first().len()));
        assert(rest.drop_first() =~= chunks.skip(p + 1));
    }
}

} // verus!
