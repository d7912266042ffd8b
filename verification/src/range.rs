//! Translation of user-facing range specifications into canonical
//! half-open byte ranges.

use vstd::prelude::*;

use crate::error::ErrorKind;

verus! {

/// A canonical half-open byte range `[start, end)`.
#[derive(Clone, Copy, Debug, PartialEq, Eq, Structural)]
pub struct ByteRange {
    pub start: u64,
    pub end: u64,
}

/// A user-facing byte range request. Exactly one form is active:
/// an explicit `[start, end)` pair, all bytes from an offset on, or
/// the last `suffix` bytes of the object.
#[derive(Clone, Copy, Debug, PartialEq, Eq, Structural)]
pub enum RangeSpec {
    Bounded { start: u64, end: u64 },
    Offset { offset: u64 },
    Suffix { suffix: u64 },
}

/// What a bounded range built from a start plus either an explicit end or an
/// explicit length resolves to. Supplying both or neither is an input error.
pub open spec fn spec_range_from_parts(start: u64, end: Option<u64>, length: Option<u64>) -> Result<
    ByteRange,
    ErrorKind,
> {
    match (end, length) {
        (Some(_), Some(_)) => Err(ErrorKind::InvalidInput),
        (None, None) => Err(ErrorKind::InvalidInput),
        (Some(e), None) => Ok(ByteRange { start, end: e }),
        (None, Some(l)) => Ok(ByteRange { start, end: (start + l) as u64 }),
    }
}

/// Build a bounded range from a start byte plus exactly one of an explicit
/// end or an explicit length.
///
/// Returns `InvalidInput` if and only if both or neither of `end` and
/// `length` are given.
pub fn range_from_parts(start: u64, end: Option<u64>, length: Option<u64>) -> (r: Result<
    ByteRange,
    ErrorKind,
>)
    requires
        end is None && length is Some ==> start + length->0 <= u64::MAX,
    ensures
        r == spec_range_from_parts(start, end, length),
{
    match (end, length) {
        (Some(_), Some(_)) => Err(ErrorKind::InvalidInput),
        (None, None) => Err(ErrorKind::InvalidInput),
        (Some(e), None) => Ok(ByteRange { start, end: e }),
        (None, Some(l)) => Ok(ByteRange { start, end: start + l }),
    }
}

/// Build one bounded range per start byte, paired element-wise with exactly
/// one of a list of explicit ends or a list of explicit lengths.
///
/// Returns `InvalidInput` if and only if both or neither list is given;
/// otherwise pairs are taken in order up to the shorter list.
pub fn ranges_from_parts(
    starts: Vec<u64>,
    ends: Option<Vec<u64>>,
    lengths: Option<Vec<u64>>,
) -> (r: Result<Vec<ByteRange>, ErrorKind>)
    requires
        ends is None && lengths is Some ==> forall|i: int|
            0 <= i < starts.len() && i < lengths->0.len() ==> starts[i] + lengths->0[i]
                <= u64::MAX,
    ensures
        (ends is Some && lengths is Some) ==> r == Err::<Vec<ByteRange>, ErrorKind>(
            ErrorKind::InvalidInput,
        ),
        (ends is None && lengths is None) ==> r == Err::<Vec<ByteRange>, ErrorKind>(
            ErrorKind::InvalidInput,
        ),
        (ends is Some && lengths is None) ==> {
            &&& r is Ok
            &&& r->Ok_0.len() == vstd::math::min(starts.len() as int, ends->0.len() as int)
            &&& forall|i: int|
                0 <= i < r->Ok_0.len() ==> r->Ok_0[i] == (ByteRange {
                    start: starts[i],
                    end: ends->0[i],
                })
        },
        (ends is None && lengths is Some) ==> {
            &&& r is Ok
            &&& r->Ok_0.len() == vstd::math::min(starts.len() as int, lengths->0.len() as int)
            &&& forall|i: int|
                0 <= i < r->Ok_0.len() ==> r->Ok_0[i] == (ByteRange {
                    start: starts[i],
                    end: (starts[i] + lengths->0[i]) as u64,
                })
        },
{
    match (ends, lengths) {
        (Some(_), Some(_)) => Err(ErrorKind::InvalidInput),
        (None, None) => Err(ErrorKind::InvalidInput),
        (Some(ends), None) => {
            let n = if starts.len() <= ends.len() {
                starts.len()
            } else {
                ends.len()
            };
            let mut out: Vec<ByteRange> = Vec::new();
            let mut i: usize = 0;
            while i < n
                invariant
                    n == vstd::math::min(starts.len() as int, ends.len() as int),
                    i <= n,
                    out.len() == i,
                    forall|j: int|
                        0 <= j < i ==> out[j] == (ByteRange { start: starts[j], end: ends[j] }),
                decreases n - i,
            {
                out.push(ByteRange { start: starts[i], end: ends[i] });
                i = i + 1;
            }
            Ok(out)
        },
        (None, Some(lengths)) => {
            let n = if starts.len() <= lengths.len() {
                starts.len()
            } else {
                lengths.len()
            };
            let mut out: Vec<ByteRange> = Vec::new();
            let mut i: usize = 0;
            while i < n
                invariant
                    n == vstd::math::min(starts.len() as int, lengths.len() as int),
                    i <= n,
                    out.len() == i,
                    forall|j: int|
                        0 <= j < n ==> starts[j] + lengths[j] <= u64::MAX,
                    forall|j: int|
                        0 <= j < i ==> out[j] == (ByteRange {
                            start: starts[j],
                            end: (starts[j] + lengths[j]) as u64,
                        }),
                decreases n - i,
            {
                out.push(ByteRange { start: starts[i], end: starts[i] + lengths[i] });
                i = i + 1;
            }
            Ok(out)
        },
    }
}

/// What a range specification resolves to against an object of
/// `object_length` bytes.
///
/// A bounded spec passes through unchanged when well formed; an offset spec
/// `from:K` with `K <= L` yields `[K, L)`; a suffix spec `last:N` with
/// `N <= L` yields `[L - N, L)`, and a suffix longer than the object yields
/// the whole object.
pub open spec fn spec_resolve(s: RangeSpec, object_length: u64) -> Result<ByteRange, ErrorKind> {
    match s {
        RangeSpec::Bounded { start, end } => if start <= end {
            Ok(ByteRange { start, end })
        } else {
            Err(ErrorKind::InvalidInput)
        },
        RangeSpec::Offset { offset } => if offset <= object_length {
            Ok(ByteRange { start: offset, end: object_length })
        } else {
            Err(ErrorKind::InvalidInput)
        },
        RangeSpec::Suffix { suffix } => if suffix <= object_length {
            Ok(ByteRange { start: (object_length - suffix) as u64, end: object_length })
        } else {
            Ok(ByteRange { start: 0, end: object_length })
        },
    }
}

/// Resolve one range specification against an object length.
pub fn resolve(s: RangeSpec, object_length: u64) -> (r: Result<ByteRange, ErrorKind>)
    ensures
        r == spec_resolve(s, object_length),
{
    match s {
        RangeSpec::Bounded { start, end } => if start <= end {
            Ok(ByteRange { start, end })
        } else {
            Err(ErrorKind::InvalidInput)
        },
        RangeSpec::Offset { offset } => if offset <= object_length {
            Ok(ByteRange { start: offset, end: object_length })
        } else {
            Err(ErrorKind::InvalidInput)
        },
        RangeSpec::Suffix { suffix } => if suffix <= object_length {
            Ok(ByteRange { start: object_length - suffix, end: object_length })
        } else {
            Ok(ByteRange { start: 0, end: object_length })
        },
    }
}

/// Resolve a batch of range specifications independently, preserving order,
/// failing fast on the first malformed specification.
pub fn resolve_many(specs: Vec<RangeSpec>, object_length: u64) -> (r: Result<
    Vec<ByteRange>,
    ErrorKind,
>)
    ensures
        r is Ok ==> {
            &&& r->Ok_0.len() == specs.len()
            &&& forall|i: int|
                0 <= i < specs.len() ==> spec_resolve(specs[i], object_length) == Ok::<
                    ByteRange,
                    ErrorKind,
                >(r->Ok_0[i])
        },
        r is Err ==> exists|i: int|
            0 <= i < specs.len() && spec_resolve(specs[i], object_length) == Err::<
                ByteRange,
                ErrorKind,
            >(r->Err_0),
        (forall|i: int| 0 <= i < specs.len() ==> spec_resolve(specs[i], object_length) is Ok)
            ==> r is Ok,
{
    let mut out: Vec<ByteRange> = Vec::new();
    let mut i: usize = 0;
    while i < specs.len()
        invariant
            i <= specs.len(),
            out.len() == i,
            forall|j: int|
                0 <= j < i ==> spec_resolve(specs[j], object_length) == Ok::<ByteRange, ErrorKind>(
                    out[j],
                ),
        decreases specs.len() - i,
    {
        match resolve(specs[i], object_length) {
            Ok(range) => {
                out.push(range);
            },
            Err(e) => {
                return Err(e);
            },
        }
        i = i + 1;
    }
    Ok(out)
}

} // verus!
