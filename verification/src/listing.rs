//! The listing cursor: a pull-based cursor over object metadata records,
//! aggregating records into pages of a requested size, with the same
//! three-phase exhaustion machine as the byte stream.

use vstd::prelude::*;
use vstd::pervasive::VecAdditionalExecFns;

use crate::cursor::CursorPhase;
use crate::error::ErrorKind;

verus! {

/// The metadata of one stored object, as a record of plain values.
#[derive(Clone, Debug, PartialEq, Eq)]
pub struct ObjectRecord {
    /// The object's full path within the store.
    pub path: String,
    /// The object's size in bytes.
    pub size: u64,
    /// When the object was last modified, in milliseconds since the epoch.
    pub last_modified_ms: i64,
    /// The entity tag of this version of the object, if the store gives one.
    pub e_tag: Option<String>,
    /// The version identifier of the object, if the store gives one.
    pub version: Option<String>,
}

impl ObjectRecord {
    /// A record with every field empty or zero, used as a placeholder when
    /// moving records out of internal storage.
    pub fn placeholder() -> ObjectRecord {
        ObjectRecord {
            path: String::new(),
            size: 0,
            last_modified_ms: 0,
            e_tag: None,
            version: None,
        }
    }
}

/// The default page size of a listing pull.
pub const DEFAULT_PAGE_SIZE: usize = 50;

/// How many records a single page pull consumes out of `available`:
/// records are taken until their count reaches `page_size`, or the
/// sequence runs out; at least one record is always taken.
pub open spec fn page_take(available: int, page_size: int) -> int {
    if page_size < 1 {
        1
    } else if available >= page_size {
        page_size
    } else {
        available
    }
}

/// A pull-based cursor over a known, in-memory sequence of metadata
/// records, aggregating records into pages.
pub struct ListingCursor {
    records: Vec<ObjectRecord>,
    pos: usize,
    phase: CursorPhase,
}

impl ListingCursor {
    /// The records not yet consumed, oldest first.
    pub closed spec fn remaining(self) -> Seq<ObjectRecord> {
        self.records@.skip(self.pos as int)
    }

    /// The cursor's phase in the three-state exhaustion machine.
    pub closed spec fn phase(self) -> CursorPhase {
        self.phase
    }

    /// The cursor is internally consistent.
    pub closed spec fn wf(self) -> bool {
        &&& self.pos <= self.records.len()
        &&& self.phase != CursorPhase::Active ==> self.pos == self.records.len()
    }

    /// The current phase of the exhaustion machine.
    pub fn current_phase(&self) -> (r: CursorPhase)
        ensures
            r == self.phase(),
    {
        self.phase
    }

    /// Open a cursor over a known sequence of records.
    pub fn new(records: Vec<ObjectRecord>) -> (s: ListingCursor)
        ensures
            s.wf(),
            s.remaining() == records@,
            s.phase() == CursorPhase::Active,
    {
        let s = ListingCursor { records, pos: 0, phase: CursorPhase::Active };
        proof {
            assert(s.remaining() =~= s.records@);
        }
        s
    }

    /// Pull exactly one record, or fail with `StreamExhausted` once the
    /// source has ended; after the first such failure every further pull
    /// fails the same way.
    pub fn pull_one(&mut self) -> (r: Result<ObjectRecord, ErrorKind>)
        requires
            old(self).wf(),
        ensures
            final(self).wf(),
            old(self).remaining().len() == 0 ==> {
                &&& r == Err::<ObjectRecord, ErrorKind>(ErrorKind::StreamExhausted)
                &&& final(self).remaining() == old(self).remaining()
                &&& final(self).phase() == CursorPhase::Exhausted
            },
            old(self).remaining().len() > 0 ==> {
                &&& r is Ok
                &&& r->Ok_0 == old(self).remaining().first()
                &&& final(self).remaining() == old(self).remaining().drop_first()
                &&& final(self).phase() == CursorPhase::Active
            },
    {
        if self.pos < self.records.len() {
            proof {
                assert(self.remaining()[0] == self.records@[self.pos as int]);
            }
            let ghost recs0 = self.records@;
            let mut slot = ObjectRecord::placeholder();
            self.records.set_and_swap(self.pos, &mut slot);
            self.pos = self.pos + 1;
            proof {
                assert(slot == old(self).remaining().first());
                assert(self.records@.skip(self.pos as int) =~= recs0.skip(self.pos as int));
                assert(self.remaining() =~= old(self).remaining().drop_first());
            }
            Ok(slot)
        } else {
            self.phase = CursorPhase::Exhausted;
            proof {
                assert(self.remaining() =~= old(self).remaining());
            }
            Err(ErrorKind::StreamExhausted)
        }
    }

    /// Pull one page: drain records until at least `page_size` have
    /// accumulated or the source ends. A partial page is returned when the
    /// source ends with something accumulated; a pull with nothing
    /// accumulated fails with `StreamExhausted`, and every pull after that
    /// failure fails the same way.
    pub fn pull_batch(&mut self, page_size: usize) -> (r: Result<Vec<ObjectRecord>, ErrorKind>)
        requires
            old(self).wf(),
        ensures
            final(self).wf(),
            old(self).remaining().len() == 0 ==> {
                &&& r == Err::<Vec<ObjectRecord>, ErrorKind>(ErrorKind::StreamExhausted)
                &&& final(self).remaining() == old(self).remaining()
                &&& final(self).phase() == CursorPhase::Exhausted
            },
            old(self).remaining().len() > 0 ==> {
                let k = page_take(old(self).remaining().len() as int, page_size as int);
                &&& r is Ok
                &&& r->Ok_0@ == old(self).remaining().take(k)
                &&& final(self).remaining() == old(self).remaining().skip(k)
                &&& final(self).phase() == (if r->Ok_0@.len() >= page_size {
                    CursorPhase::Active
                } else {
                    CursorPhase::ExhaustedPending
                })
            },
    {
        let ghost rem = old(self).remaining();
        let mut page: Vec<ObjectRecord> = Vec::new();
        proof {
            assert(rem.take(0) =~= Seq::<ObjectRecord>::empty());
            assert(rem.skip(0) =~= rem);
        }
        loop
            invariant
                self.wf(),
                self.records.len() == old(self).records.len(),
                old(self).pos <= self.pos <= self.records.len(),
                rem == old(self).remaining(),
                self.remaining() == rem.skip(page.len() as int),
                page.len() == self.pos - old(self).pos,
                page@ == rem.take(page.len() as int),
                page.len() < page_size || (page.len() == 0 && page_size == 0),
            decreases self.records.len() - self.pos,
        {
            if self.pos < self.records.len() {
                let ghost p: int = page.len() as int;
                proof {
                    assert(self.remaining()[0] == self.records@[self.pos as int]);
                    assert(rem.skip(p)[0] == rem[p]);
                }
                let ghost recs0 = self.records@;
                let ghost pos0: int = self.pos as int;
                let mut slot = ObjectRecord::placeholder();
                self.records.set_and_swap(self.pos, &mut slot);
                self.pos = self.pos + 1;
                page.push(slot);
                proof {
                    assert(slot == rem[p]);
                    assert(page@ =~= rem.take(p + 1));
                    assert(recs0.skip(pos0) == rem.skip(p));
                    assert(self.records@.skip(pos0 + 1) =~= recs0.skip(pos0 + 1));
                    assert(recs0.skip(pos0 + 1) =~= recs0.skip(pos0).drop_first());
                    assert(rem.skip(p + 1) =~= rem.skip(p).drop_first());
                    assert(self.remaining() == rem.skip(p + 1));
                }
                if page.len() >= page_size {
                    self.phase = CursorPhase::Active;
                    return Ok(page);
                }
            } else {
                // The source has ended: flush leftovers, or report
                // exhaustion when nothing accumulated.
                if page.len() == 0 {
                    self.phase = CursorPhase::Exhausted;
                    proof {
                        assert(rem.len() == 0);
                        assert(self.remaining() =~= rem);
                    }
                    return Err(ErrorKind::StreamExhausted);
                } else {
                    proof {
                        assert(rem.take(page.len() as int) =~= rem);
                    }
                    self.phase = CursorPhase::ExhaustedPending;
                    return Ok(page);
                }
            }
        }
    }

    /// Drain the entire source unconditionally into one collection.
    /// Never fails: an empty source yields an empty collection.
    pub fn materialize_all(&mut self) -> (r: Vec<ObjectRecord>)
        requires
            old(self).wf(),
        ensures
            final(self).wf(),
            r@ == old(self).remaining(),
            final(self).remaining().len() == 0,
    {
        let ghost rem = old(self).remaining();
        let mut out: Vec<ObjectRecord> = Vec::new();
        proof {
            assert(rem.take(0) =~= Seq::<ObjectRecord>::empty());
            assert(rem.skip(0) =~= rem);
        }
        while self.pos < self.records.len()
            invariant
                self.wf(),
                self.records.len() == old(self).records.len(),
                old(self).pos <= self.pos <= self.records.len(),
                rem == old(self).remaining(),
                self.remaining() == rem.skip(out.len() as int),
                self.phase == old(self).phase,
                out.len() == self.pos - old(self).pos,
                out@ == rem.take(out.len() as int),
            decreases self.records.len() - self.pos,
        {
            let ghost p: int = out.len() as int;
            proof {
                assert(self.remaining()[0] == self.records@[self.pos as int]);
                assert(rem.skip(p)[0] == rem[p]);
            }
            let ghost recs0 = self.records@;
            let ghost pos0: int = self.pos as int;
            let mut slot = ObjectRecord::placeholder();
            self.records.set_and_swap(self.pos, &mut slot);
            self.pos = self.pos + 1;
            out.push(slot);
            proof {
                assert(slot == rem[p]);
                assert(out@ =~= rem.take(p + 1));
                assert(recs0.skip(pos0) == rem.skip(p));
                assert(self.records@.skip(pos0 + 1) =~= recs0.skip(pos0 + 1));
                assert(recs0.skip(pos0 + 1) =~= recs0.skip(pos0).drop_first());
                assert(rem.skip(p + 1) =~= rem.skip(p).drop_first());
                assert(self.remaining() == rem.skip(p + 1));
            }
        }
        proof {
            assert(rem.take(out.len() as int) =~= rem);
            assert(self.remaining() =~= Seq::<ObjectRecord>::empty());
        }
        out
    }
}

/// The terminal phase is stable: a cursor that has reported exhaustion
/// has nothing left, so by the pull contracts every further pull fails
/// with `StreamExhausted` again and leaves the cursor in this phase.
pub proof fn lemma_exhausted_is_terminal(s: ListingCursor)
    requires
        s.wf(),
        s.phase() == CursorPhase::Exhausted,
    ensures
        s.remaining().len() == 0,
{
}

/// The fully materialized result of a delimited listing: the common
/// prefixes found, and the objects directly under the listed prefix.
#[derive(Clone, Debug, PartialEq, Eq)]
pub struct ListPage {
    pub common_prefixes: Vec<String>,
    pub objects: Vec<ObjectRecord>,
}

} // verus!
