//! Inline-capable storage for the per-subtask output buffers, backed by
//! `smallvec::SmallVec`.  The storage is opaque to the verifier; its
//! contents are named by [`smallvec_parts`] and every operation the
//! logic needs is a trusted wrapper whose contract speaks over that
//! name.

use vstd::prelude::*;
use smallvec::SmallVec;

verus! {

/// Ordered storage for per-subtask output buffers.  Buffers for small
/// worker counts live inline rather than behind a second allocation.
#[verifier::external_body]
pub struct PartBuffers {
    inner: SmallVec<[Vec<u8>; 32]>,
}

/// The buffers the storage holds, in order.
pub uninterp spec fn smallvec_parts(v: PartBuffers) -> Seq<Vec<u8>>;

/// Relies on smallvec's `SmallVec::from_vec`: the result holds exactly
/// the vector's elements, in the same order.
#[verifier::external_body]
pub(crate) fn smallvec_from_parts(parts: Vec<Vec<u8>>) -> (v: PartBuffers)
    ensures
        smallvec_parts(v) == parts@,
{
    PartBuffers { inner: SmallVec::from_vec(parts) }
}

/// Relies on smallvec's `SmallVec::into_vec`: the resulting vector
/// holds exactly the storage's elements, in the same order.
#[verifier::external_body]
pub(crate) fn smallvec_take_parts(v: PartBuffers) -> (parts: Vec<Vec<u8>>)
    ensures
        parts@ == smallvec_parts(v),
{
    v.inner.into_vec()
}

} // verus!
