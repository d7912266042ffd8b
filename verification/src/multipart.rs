//! The bounded-concurrency multipart upload pipeline, modelled as an
//! explicit state machine over part admission, completion, failure and
//! commit, together with the pure decisions of the write path: how a
//! payload is split into parts and whether multipart mode is used at all.
//!
//! The unverified adapter performs the actual uploads; it drives this
//! machine with one event per observed outcome and obeys its decisions:
//! a part may be admitted only while `can_admit` holds, and the commit
//! request is issued exactly when `finish_decision` says so.

use vstd::prelude::*;

use crate::error::{BackendErrorKind, ErrorKind};
use crate::range::ByteRange;
use crate::text::{lower, str_eq, to_ascii_lower};

verus! {

/// The mode of a whole-object write.
#[derive(Clone, Debug, PartialEq, Eq)]
pub enum WriteMode {
    /// Fail with `AlreadyExists` if the object is already present.
    Create,
    /// Replace the object unconditionally.
    Overwrite,
    /// Replace the object only if it still carries the given tag and
    /// version.
    Update { e_tag: Option<String>, version: Option<String> },
}

impl WriteMode {
    /// Whether this mode is plain overwrite.
    pub open spec fn is_overwrite(self) -> bool {
        self is Overwrite
    }
}

/// Parse the textual form of a write mode, ignoring ASCII case: `create`
/// or `overwrite`. Any other text is rejected with `InvalidInput`; the
/// conditional-update mode is built from its fields, not from text.
pub fn parse_write_mode(s: &str) -> (r: Result<WriteMode, ErrorKind>)
    ensures
        lower(s@) == "create"@ ==> r == Ok::<WriteMode, ErrorKind>(WriteMode::Create),
        lower(s@) == "overwrite"@ ==> r == Ok::<WriteMode, ErrorKind>(WriteMode::Overwrite),
        lower(s@) != "create"@ && lower(s@) != "overwrite"@ ==> r == Err::<WriteMode, ErrorKind>(
            ErrorKind::InvalidInput,
        ),
{
    proof {
        reveal_strlit("create");
        reveal_strlit("overwrite");
        assert("create"@.len() == 6);
        assert("overwrite"@.len() == 9);
        assert("create"@ != "overwrite"@);
    }
    let low = to_ascii_lower(s);
    if str_eq(low.as_str(), "create") {
        Ok(WriteMode::Create)
    } else if str_eq(low.as_str(), "overwrite") {
        Ok(WriteMode::Overwrite)
    } else {
        Err(ErrorKind::InvalidInput)
    }
}

/// Whether a write uses the multipart pipeline: an explicit caller choice
/// wins; otherwise the payload must be larger than the part size; and a
/// write mode other than plain overwrite always forces the single-shot
/// path, which alone can express strict creation or conditional-update
/// semantics.
pub open spec fn spec_multipart_selected(
    nbytes: u64,
    part_size: u64,
    forced: Option<bool>,
    mode: Option<WriteMode>,
) -> bool {
    let chosen = match forced {
        Some(b) => b,
        None => nbytes > part_size,
    };
    match mode {
        Some(m) => m.is_overwrite() && chosen,
        None => chosen,
    }
}

/// Decide whether a write of `nbytes` bytes takes the multipart pipeline
/// or the single-shot whole-body path.
pub fn select_multipart(nbytes: u64, part_size: u64, forced: Option<bool>, mode: &Option<
    WriteMode,
>) -> (r: bool)
    ensures
        r == spec_multipart_selected(nbytes, part_size, forced, *mode),
{
    let chosen = match forced {
        Some(b) => b,
        None => nbytes > part_size,
    };
    match mode {
        Some(WriteMode::Overwrite) => chosen,
        Some(_) => false,
        None => chosen,
    }
}

/// The default part size of a multipart write, in bytes: payloads above
/// this take the multipart pipeline unless the caller chose otherwise.
pub const DEFAULT_PART_SIZE: u64 = 5 * 1024 * 1024;

/// The default cap on concurrently outstanding part uploads.
pub const DEFAULT_MAX_CONCURRENCY: usize = 12;

/// Split a payload of `total` bytes into consecutive parts of `part_size`
/// bytes, the last part holding the remainder. An empty payload yields no
/// parts.
pub fn plan_parts(total: u64, part_size: u64) -> (r: Vec<ByteRange>)
    requires
        part_size >= 1,
    ensures
        r.len() == (total + part_size - 1) as int / (part_size as int),
        forall|i: int| 0 <= i < r.len() ==> planned_part_ok(r[i], i, part_size as int, total as int),
{
    let mut out: Vec<ByteRange> = Vec::new();
    let mut offset: u64 = 0;
    proof {
        assert(out.len() * part_size == 0) by (nonlinear_arith)
            requires
                out.len() == 0,
        ;
    }
    if total == 0 {
        proof {
            vstd::arithmetic::div_mod::lemma_fundamental_div_mod_converse(
                part_size as int - 1,
                part_size as int,
                0,
                part_size as int - 1,
            );
        }
        return out;
    }
    while offset < total
        invariant
            part_size >= 1,
            offset as int == out.len() * part_size || (offset == total && total
                <= out.len() * part_size),
            offset <= total,
            out.len() * part_size < total + part_size,
            forall|i: int|
                0 <= i < out.len() ==> {
                    &&& planned_part_ok(out[i], i, part_size as int, total as int)
                },
        decreases total - offset,
    {
        let ghost n = out.len() as int;
        proof {
            assert(offset as int == n * part_size) by (nonlinear_arith)
                requires
                    offset < total,
                    part_size >= 1,
                    offset as int == n * part_size || (offset == total && total <= n * part_size),
            ;
        }
        let end = if total - offset >= part_size {
            offset + part_size
        } else {
            total
        };
        out.push(ByteRange { start: offset, end });
        proof {
            assert((n + 1) * part_size == n * part_size + part_size) by (nonlinear_arith);
        }
        offset = end;
    }
    proof {
        let n = out.len() as int;
        let t = total as int;
        let p = part_size as int;
        assert(offset == total);
        assert(t <= n * p);
        assert(n * p < t + p);
        vstd::arithmetic::div_mod::lemma_fundamental_div_mod_converse(
            t + p - 1,
            p,
            n,
            t + p - 1 - n * p,
        );
    }
    out
}

/// One planned part is the expected slice of the payload.
pub open spec fn planned_part_ok(r: ByteRange, i: int, part_size: int, total: int) -> bool {
    &&& r.start as int == i * part_size
    &&& r.end as int == (if (i + 1) * part_size <= total {
        (i + 1) * part_size
    } else {
        total
    })
}

/// The bounded-concurrency multipart upload state machine.
///
/// Parts are identified by their logical position, in admission order.
/// At every instant the parts admitted so far are partitioned into the
/// in-flight ones, the completed ones and the failed ones; the number in
/// flight never exceeds the configured concurrency cap.
pub struct MultipartPipeline {
    dest: String,
    cap_limit: usize,
    admitted: usize,
    in_flight: Vec<usize>,
    completed: Vec<usize>,
    failed: Vec<usize>,
    first_fail: Option<BackendErrorKind>,
}

impl MultipartPipeline {
    /// The configured concurrency cap.
    pub closed spec fn capacity(self) -> int {
        self.cap_limit as int
    }

    /// How many parts have been admitted so far.
    pub closed spec fn admitted_count(self) -> int {
        self.admitted as int
    }

    /// The logical positions of the parts currently in flight.
    pub closed spec fn in_flight_parts(self) -> Seq<usize> {
        self.in_flight@
    }

    /// The number of parts currently in flight.
    pub open spec fn in_flight_count(self) -> int {
        self.in_flight_parts().len() as int
    }

    /// The logical positions of the parts that completed successfully, in
    /// completion order; the commit manifest is assembled by logical
    /// position, not from this order.
    pub closed spec fn completed_parts(self) -> Seq<usize> {
        self.completed@
    }

    /// The logical positions of the parts that failed.
    pub closed spec fn failed_parts(self) -> Seq<usize> {
        self.failed@
    }

    /// The first part failure observed, if any.
    pub closed spec fn first_error(self) -> Option<BackendErrorKind> {
        self.first_fail
    }

    /// The destination path of the upload.
    pub closed spec fn destination(self) -> Seq<char> {
        self.dest@
    }

    /// The pipeline's invariant: the in-flight count is bounded by the
    /// cap, and the admitted parts are partitioned into in-flight,
    /// completed and failed.
    pub closed spec fn wf(self) -> bool {
        &&& self.cap_limit >= 1
        &&& self.in_flight@.len() <= self.cap_limit
        &&& self.in_flight@.len() + self.completed@.len() + self.failed@.len() == self.admitted
        &&& (forall|i: int| 0 <= i < self.in_flight@.len() ==> self.in_flight@[i] < self.admitted)
        &&& (forall|i: int| 0 <= i < self.completed@.len() ==> self.completed@[i] < self.admitted)
        &&& (forall|i: int| 0 <= i < self.failed@.len() ==> self.failed@[i] < self.admitted)
        &&& (forall|j: int|
            0 <= j < self.admitted ==> #[trigger] self.in_flight@.contains(j as usize)
                || self.completed@.contains(j as usize) || self.failed@.contains(j as usize))
        &&& (forall|i: int, j: int|
            0 <= i < j < self.in_flight@.len() ==> self.in_flight@[i] != self.in_flight@[j])
        &&& (forall|i: int, j: int|
            0 <= i < j < self.completed@.len() ==> self.completed@[i] != self.completed@[j])
        &&& (forall|i: int, j: int|
            0 <= i < j < self.failed@.len() ==> self.failed@[i] != self.failed@[j])
        &&& (forall|i: int, j: int|
            0 <= i < self.in_flight@.len() && 0 <= j < self.completed@.len() ==> self.in_flight@[i]
                != self.completed@[j])
        &&& (forall|i: int, j: int|
            0 <= i < self.in_flight@.len() && 0 <= j < self.failed@.len() ==> self.in_flight@[i]
                != self.failed@[j])
        &&& (forall|i: int, j: int|
            0 <= i < self.completed@.len() && 0 <= j < self.failed@.len() ==> self.completed@[i]
                != self.failed@[j])
        &&& (self.first_fail is Some <==> self.failed@.len() > 0)
    }

    /// Open a pipeline towards `dest` with the given concurrency cap.
    pub fn new(dest: String, max_concurrency: usize) -> (p: MultipartPipeline)
        requires
            max_concurrency >= 1,
        ensures
            p.wf(),
            p.destination() == dest@,
            p.capacity() == max_concurrency,
            p.admitted_count() == 0,
            p.in_flight_count() == 0,
            p.completed_parts().len() == 0,
            p.failed_parts().len() == 0,
            p.first_error() is None,
    {
        MultipartPipeline {
            dest,
            cap_limit: max_concurrency,
            admitted: 0,
            in_flight: Vec::new(),
            completed: Vec::new(),
            failed: Vec::new(),
            first_fail: None,
        }
    }

    /// Whether a new part may be admitted right now: there must be spare
    /// capacity under the cap, and no part may have failed — after a
    /// failure the pipeline is aborted and admits nothing further.
    pub fn can_admit(&self) -> (r: bool)
        ensures
            r == (self.in_flight_count() < self.capacity() && self.first_error() is None),
    {
        self.in_flight.len() < self.cap_limit && self.first_fail.is_none()
    }

    /// Admit the next part: the admission step of a part write, taken only
    /// once fewer than `capacity` parts are outstanding. Returns the
    /// part's logical position. The caller starts the upload after this.
    pub fn admit_part(&mut self) -> (idx: usize)
        requires
            old(self).wf(),
            old(self).in_flight_count() < old(self).capacity(),
            old(self).first_error() is None,
            old(self).admitted_count() < usize::MAX,
        ensures
            final(self).wf(),
            idx as int == old(self).admitted_count(),
            final(self).admitted_count() == old(self).admitted_count() + 1,
            final(self).in_flight_parts() == old(self).in_flight_parts().push(idx),
            final(self).in_flight_count() == old(self).in_flight_count() + 1,
            forall|x: usize|
                final(self).in_flight_parts().contains(x) == (old(
                    self,
                ).in_flight_parts().contains(x) || x == idx),
            final(self).in_flight_count() <= final(self).capacity(),
            final(self).completed_parts() == old(self).completed_parts(),
            final(self).failed_parts() == old(self).failed_parts(),
            final(self).first_error() == old(self).first_error(),
            final(self).capacity() == old(self).capacity(),
            final(self).destination() == old(self).destination(),
    {
        let idx = self.admitted;
        self.in_flight.push(idx);
        self.admitted = self.admitted + 1;
        proof {
            assert(self.in_flight@ == old(self).in_flight@.push(idx));
            assert forall|x: usize|
                self.in_flight@.contains(x) == (old(self).in_flight@.contains(x) || x
                    == idx) by {
                if old(self).in_flight@.contains(x) {
                    let w = choose|w: int|
                        0 <= w < old(self).in_flight@.len() && old(self).in_flight@[w] == x;
                    assert(self.in_flight@[w] == x);
                }
                if x == idx {
                    assert(self.in_flight@[old(self).in_flight@.len() as int] == idx);
                }
                if self.in_flight@.contains(x) {
                    let w = choose|w: int|
                        0 <= w < self.in_flight@.len() && self.in_flight@[w] == x;
                    if w < old(self).in_flight@.len() {
                        assert(old(self).in_flight@[w] == x);
                    }
                }
            }
            assert forall|j: int| 0 <= j < self.admitted implies #[trigger] self.in_flight@.contains(
                j as usize,
            ) || self.completed@.contains(j as usize) || self.failed@.contains(j as usize) by {
                if j < old(self).admitted {
                    if old(self).in_flight@.contains(j as usize) {
                        let w = choose|w: int|
                            0 <= w < old(self).in_flight@.len() && old(self).in_flight@[w] == (
                            j as usize);
                        assert(self.in_flight@[w] == j as usize);
                    }
                } else {
                    assert(self.in_flight@[old(self).in_flight@.len() as int] == idx);
                }
            }
        }
        idx
    }

    /// Record that the part at logical position `idx` finished uploading
    /// successfully.
    pub fn complete_part(&mut self, idx: usize)
        requires
            old(self).wf(),
            old(self).in_flight_parts().contains(idx),
        ensures
            final(self).wf(),
            final(self).admitted_count() == old(self).admitted_count(),
            final(self).in_flight_count() == old(self).in_flight_count() - 1,
            !final(self).in_flight_parts().contains(idx),
            final(self).completed_parts() == old(self).completed_parts().push(idx),
            final(self).failed_parts() == old(self).failed_parts(),
            final(self).first_error() == old(self).first_error(),
            final(self).capacity() == old(self).capacity(),
            final(self).destination() == old(self).destination(),
            forall|x: usize|
                x != idx ==> final(self).in_flight_parts().contains(x)
                    == old(self).in_flight_parts().contains(x),
    {
        let slot = self.remove_in_flight(idx);
        self.completed.push(slot);
        proof {
            assert(self.completed@ == old(self).completed@.push(idx));
            self.lemma_wf_after_move(*old(self), idx, true);
        }
    }

    /// Record that the part at logical position `idx` failed with `err`.
    /// Only the first failure is kept: later failures are discarded once
    /// the pipeline is already aborted.
    pub fn fail_part(&mut self, idx: usize, err: BackendErrorKind)
        requires
            old(self).wf(),
            old(self).in_flight_parts().contains(idx),
        ensures
            final(self).wf(),
            final(self).admitted_count() == old(self).admitted_count(),
            final(self).in_flight_count() == old(self).in_flight_count() - 1,
            !final(self).in_flight_parts().contains(idx),
            final(self).completed_parts() == old(self).completed_parts(),
            final(self).failed_parts() == old(self).failed_parts().push(idx),
            final(self).first_error() == (if old(self).first_error() is Some {
                old(self).first_error()
            } else {
                Some(err)
            }),
            final(self).capacity() == old(self).capacity(),
            final(self).destination() == old(self).destination(),
            forall|x: usize|
                x != idx ==> final(self).in_flight_parts().contains(x)
                    == old(self).in_flight_parts().contains(x),
    {
        let slot = self.remove_in_flight(idx);
        self.failed.push(slot);
        if self.first_fail.is_none() {
            self.first_fail = Some(err);
        }
        proof {
            assert(self.failed@ == old(self).failed@.push(idx));
            assert(self.failed@[old(self).failed@.len() as int] == idx);
            self.lemma_wf_after_move(*old(self), idx, false);
        }
    }

    /// The number of parts currently outstanding.
    pub fn outstanding(&self) -> (r: usize)
        ensures
            r as int == self.in_flight_count(),
    {
        self.in_flight.len()
    }

    /// The commit decision, taken once every outstanding part has
    /// finished. If any part failed, the result is the first failure
    /// observed and no commit happens — a partial upload is never
    /// committed. Otherwise every admitted part completed, and the result
    /// is the commit manifest: the admitted parts listed by logical
    /// position, in their original order.
    pub fn finish_decision(&self) -> (r: Result<Vec<usize>, BackendErrorKind>)
        requires
            self.wf(),
            self.in_flight_count() == 0,
        ensures
            self.first_error() is Some ==> r == Err::<Vec<usize>, BackendErrorKind>(
                self.first_error()->0,
            ),
            self.first_error() is None ==> {
                &&& r is Ok
                &&& r->Ok_0@.len() == self.admitted_count()
                &&& forall|i: int| 0 <= i < r->Ok_0@.len() ==> r->Ok_0@[i] == i as usize
                &&& forall|i: int|
                    0 <= i < self.admitted_count() ==> #[trigger] self.completed_parts().contains(
                        i as usize,
                    )
            },
    {
        match self.first_fail {
            Some(err) => Err(err),
            None => {
                proof {
                    assert(self.failed@.len() == 0);
                    assert(self.completed@.len() == self.admitted);
                    assert forall|i: int|
                        0 <= i < self.admitted implies #[trigger] self.completed@.contains(
                        i as usize,
                    ) by {
                        assert(self.in_flight@.contains(i as usize) || self.completed@.contains(
                            i as usize,
                        ) || self.failed@.contains(i as usize));
                        if self.in_flight@.contains(i as usize) {
                            let w = choose|w: int|
                                0 <= w < self.in_flight@.len() && self.in_flight@[w] == (
                                i as usize);
                        }
                        if self.failed@.contains(i as usize) {
                            let w = choose|w: int|
                                0 <= w < self.failed@.len() && self.failed@[w] == (i as usize);
                        }
                    }
                }
                let mut manifest: Vec<usize> = Vec::new();
                let mut i: usize = 0;
                while i < self.admitted
                    invariant
                        i <= self.admitted,
                        manifest@.len() == i,
                        forall|j: int| 0 <= j < i ==> manifest@[j] == j as usize,
                    decreases self.admitted - i,
                {
                    manifest.push(i);
                    i = i + 1;
                }
                Ok(manifest)
            },
        }
    }

    /// Remove one occurrence of `idx` from the in-flight list.
    fn remove_in_flight(&mut self, idx: usize) -> (r: usize)
        requires
            old(self).wf(),
            old(self).in_flight_parts().contains(idx),
        ensures
            r == idx,
            final(self).in_flight@.len() == old(self).in_flight@.len() - 1,
            !final(self).in_flight@.contains(idx),
            forall|x: usize|
                x != idx ==> final(self).in_flight@.contains(x) == old(self).in_flight@.contains(
                    x,
                ),
            forall|i: int|
                0 <= i < final(self).in_flight@.len() ==> old(self).in_flight@.contains(
                    final(self).in_flight@[i],
                ),
            forall|i: int, j: int|
                0 <= i < j < final(self).in_flight@.len()
                    ==> final(self).in_flight@[i] != final(self).in_flight@[j],
            final(self).completed == old(self).completed,
            final(self).failed == old(self).failed,
            final(self).first_fail == old(self).first_fail,
            final(self).admitted == old(self).admitted,
            final(self).cap_limit == old(self).cap_limit,
            final(self).dest == old(self).dest,
    {
        let mut i: usize = 0;
        let n = self.in_flight.len();
        while i < n
            invariant
                old(self).wf(),
                n == self.in_flight.len(),
                i <= n,
                *self == *old(self),
                forall|j: int| 0 <= j < i ==> self.in_flight@[j] != idx,
            decreases n - i,
        {
            if self.in_flight[i] == idx {
                let r = self.in_flight.remove(i);
                proof {
                    let fin = self.in_flight@;
                    let orig = old(self).in_flight@;
                    assert(fin =~= orig.take(i as int) + orig.skip(i + 1));
                    assert(forall|w: int| 0 <= w < i ==> fin[w] == orig[w]);
                    assert(forall|w: int| i <= w < fin.len() ==> fin[w] == orig[w + 1]);
                    assert forall|x: usize| x != idx implies fin.contains(x) == orig.contains(
                        x,
                    ) by {
                        if orig.contains(x) {
                            let w = choose|w: int| 0 <= w < orig.len() && orig[w] == x;
                            if w < i {
                                assert(fin[w] == x);
                            } else {
                                assert(orig[w] != idx);
                                assert(w != i);
                                assert(fin[w - 1] == x);
                            }
                        }
                        if fin.contains(x) {
                            let w = choose|w: int| 0 <= w < fin.len() && fin[w] == x;
                            if w < i {
                                assert(orig[w] == x);
                            } else {
                                assert(orig[w + 1] == x);
                            }
                        }
                    }
                    assert(!fin.contains(idx)) by {
                        if fin.contains(idx) {
                            let w = choose|w: int| 0 <= w < fin.len() && fin[w] == idx;
                            if w < i {
                                assert(orig[w] == idx);
                            } else {
                                assert(orig[w + 1] == idx);
                                assert(i < w + 1 < orig.len());
                                assert(orig[i as int] != orig[w + 1]);
                            }
                        }
                    }
                    assert forall|a: int| 0 <= a < fin.len() implies orig.contains(
                        #[trigger] fin[a],
                    ) by {
                        if a < i {
                            assert(orig[a] == fin[a]);
                        } else {
                            assert(orig[a + 1] == fin[a]);
                        }
                    }
                    assert forall|a: int, b: int| 0 <= a < b < fin.len() implies fin[a]
                        != fin[b] by {
                        let a2: int = if a < i { a } else { a + 1 };
                        let b2: int = if b < i { b } else { b + 1 };
                        assert(fin[a] == orig[a2]);
                        assert(fin[b] == orig[b2]);
                        assert(0 <= a2 < b2 < orig.len());
                        assert(orig[a2] != orig[b2]);
                    }
                }
                return r;
            }
            i = i + 1;
        }
        proof {
            let orig = old(self).in_flight@;
            let w = choose|w: int| 0 <= w < orig.len() && orig[w] == idx;
            assert(orig[w] != idx);
        }
        // The precondition puts `idx` in the in-flight list, so the scan
        // cannot fall through.
        vstd::pervasive::unreached()
    }

    /// After moving one part out of the in-flight list into the completed
    /// or the failed list, the pipeline's invariant holds again.
    proof fn lemma_wf_after_move(self, prev: MultipartPipeline, idx: usize, to_completed: bool)
        requires
            prev.wf(),
            prev.in_flight@.contains(idx),
            self.admitted == prev.admitted,
            self.cap_limit == prev.cap_limit,
            self.in_flight@.len() == prev.in_flight@.len() - 1,
            !self.in_flight@.contains(idx),
            forall|x: usize|
                x != idx ==> self.in_flight@.contains(x) == prev.in_flight@.contains(x),
            forall|i: int|
                0 <= i < self.in_flight@.len() ==> prev.in_flight@.contains(
                    #[trigger] self.in_flight@[i],
                ),
            forall|i: int, j: int|
                0 <= i < j < self.in_flight@.len() ==> self.in_flight@[i] != self.in_flight@[j],
            to_completed ==> self.completed@ == prev.completed@.push(idx) && self.failed@
                == prev.failed@,
            !to_completed ==> self.completed@ == prev.completed@ && self.failed@
                == prev.failed@.push(idx),
            self.first_fail is Some <==> self.failed@.len() > 0,
        ensures
            self.wf(),
    {
        let fin = self.in_flight@;
        let prevfl = prev.in_flight@;
        let w0 = choose|w: int| 0 <= w < prevfl.len() && prevfl[w] == idx;
        assert(idx < prev.admitted);
        // No list held `idx` except the in-flight list.
        assert(!prev.completed@.contains(idx)) by {
            if prev.completed@.contains(idx) {
                let v = choose|v: int|
                    0 <= v < prev.completed@.len() && prev.completed@[v] == idx;
                assert(prevfl[w0] != prev.completed@[v]);
            }
        }
        assert(!prev.failed@.contains(idx)) by {
            if prev.failed@.contains(idx) {
                let v = choose|v: int| 0 <= v < prev.failed@.len() && prev.failed@[v] == idx;
                assert(prevfl[w0] != prev.failed@[v]);
            }
        }
        // Bounds for the in-flight survivors.
        assert forall|i: int| 0 <= i < fin.len() implies fin[i] < self.admitted by {
            let v = choose|v: int| 0 <= v < prevfl.len() && prevfl[v] == fin[i];
            assert(prevfl[v] < prev.admitted);
        }
        // Bounds and uniqueness for the extended list.
        if to_completed {
            let cs = self.completed@;
            assert forall|i: int| 0 <= i < cs.len() implies cs[i] < self.admitted by {
                if i < prev.completed@.len() {
                    assert(cs[i] == prev.completed@[i]);
                } else {
                    assert(cs[i] == idx);
                }
            }
            assert forall|i: int, j: int| 0 <= i < j < cs.len() implies cs[i] != cs[j] by {
                if j < prev.completed@.len() {
                } else {
                    assert(cs[j] == idx);
                    assert(cs[i] == prev.completed@[i]);
                    assert(prev.completed@.contains(prev.completed@[i]));
                }
            }
            assert forall|i: int, j: int|
                0 <= i < fin.len() && 0 <= j < cs.len() implies fin[i] != cs[j] by {
                let v = choose|v: int| 0 <= v < prevfl.len() && prevfl[v] == fin[i];
                if j < prev.completed@.len() {
                    assert(prevfl[v] != prev.completed@[j]);
                } else {
                    assert(cs[j] == idx);
                    if fin[i] == idx {
                        assert(self.in_flight@.contains(idx));
                    }
                }
            }
            assert forall|i: int, j: int|
                0 <= i < cs.len() && 0 <= j < self.failed@.len() implies cs[i]
                    != self.failed@[j] by {
                if i < prev.completed@.len() {
                    assert(prev.completed@[i] != prev.failed@[j]);
                } else {
                    assert(cs[i] == idx);
                    assert(prev.failed@.contains(prev.failed@[j]));
                }
            }
        } else {
            let fs = self.failed@;
            assert forall|i: int| 0 <= i < fs.len() implies fs[i] < self.admitted by {
                if i < prev.failed@.len() {
                    assert(fs[i] == prev.failed@[i]);
                } else {
                    assert(fs[i] == idx);
                }
            }
            assert forall|i: int, j: int| 0 <= i < j < fs.len() implies fs[i] != fs[j] by {
                if j < prev.failed@.len() {
                } else {
                    assert(fs[j] == idx);
                    assert(fs[i] == prev.failed@[i]);
                    assert(prev.failed@.contains(prev.failed@[i]));
                }
            }
            assert forall|i: int, j: int|
                0 <= i < fin.len() && 0 <= j < fs.len() implies fin[i] != fs[j] by {
                let v = choose|v: int| 0 <= v < prevfl.len() && prevfl[v] == fin[i];
                if j < prev.failed@.len() {
                    assert(prevfl[v] != prev.failed@[j]);
                } else {
                    assert(fs[j] == idx);
                    if fin[i] == idx {
                        assert(self.in_flight@.contains(idx));
                    }
                }
            }
            assert forall|i: int, j: int|
                0 <= i < self.completed@.len() && 0 <= j < fs.len() implies self.completed@[i]
                    != fs[j] by {
                if j < prev.failed@.len() {
                    assert(prev.completed@[i] != prev.failed@[j]);
                } else {
                    assert(fs[j] == idx);
                    assert(prev.completed@.contains(prev.completed@[i]));
                }
            }
        }
        // Disjointness of the surviving in-flight list with the unchanged
        // other list.
        if to_completed {
            assert forall|i: int, j: int|
                0 <= i < fin.len() && 0 <= j < self.failed@.len() implies fin[i]
                    != self.failed@[j] by {
                let v = choose|v: int| 0 <= v < prevfl.len() && prevfl[v] == fin[i];
                assert(prevfl[v] != prev.failed@[j]);
            }
        } else {
            assert forall|i: int, j: int|
                0 <= i < fin.len() && 0 <= j < self.completed@.len() implies fin[i]
                    != self.completed@[j] by {
                let v = choose|v: int| 0 <= v < prevfl.len() && prevfl[v] == fin[i];
                assert(prevfl[v] != prev.completed@[j]);
            }
        }
        // Every admitted part is still accounted for.
        assert forall|j: int|
            0 <= j < self.admitted implies #[trigger] self.in_flight@.contains(j as usize)
            || self.completed@.contains(j as usize) || self.failed@.contains(j as usize) by {
            let x = j as usize;
            if x == idx {
                if to_completed {
                    assert(self.completed@[prev.completed@.len() as int] == idx);
                    assert(self.completed@.contains(idx));
                } else {
                    assert(self.failed@[prev.failed@.len() as int] == idx);
                    assert(self.failed@.contains(idx));
                }
            } else {
                assert(prev.in_flight@.contains(x) || prev.completed@.contains(x)
                    || prev.failed@.contains(x));
                if prev.completed@.contains(x) {
                    let v = choose|v: int|
                        0 <= v < prev.completed@.len() && prev.completed@[v] == x;
                    assert(self.completed@[v] == x);
                }
                if prev.failed@.contains(x) {
                    let v = choose|v: int| 0 <= v < prev.failed@.len() && prev.failed@[v] == x;
                    assert(self.failed@[v] == x);
                }
            }
        }
    }
}

/// The number of outstanding part uploads never exceeds the configured
/// concurrency cap: it is part of the pipeline's invariant, which every
/// operation preserves.
pub proof fn lemma_concurrency_bounded(p: MultipartPipeline)
    requires
        p.wf(),
    ensures
        p.in_flight_count() <= p.capacity(),
{
}

} // verus!
