//! The ambient parallelism capability: the worker count, and the
//! concurrent execution of independent units of work with a join-all
//! barrier, backed by `num_cpus` and `rayon`.

use vstd::prelude::*;
use rayon::iter::IndexedParallelIterator;
use rayon::iter::IntoParallelRefIterator;
use rayon::iter::ParallelIterator;
use crate::xor::CopyingXor;
use crate::xor::xor_mask;
use crate::xor::xor_buffer;
use crate::xor::apply_mask;

verus! {

/// Relies on `num_cpus::get`, whose documentation promises: "This will
/// always return at least 1."
#[verifier::external_body]
pub(crate) fn available_workers() -> (n: usize)
    ensures
        1 <= n,
{
    num_cpus::get()
}

/// Relies on rayon's `par_iter`/`map`/`collect_into_vec`: an indexed
/// parallel map collects one result per input item, in the input's
/// order.  Each closure call runs the verified [`xor_buffer`] on its
/// own subtask's range, so each collected element is that subtask's
/// transformed bytes.
#[verifier::external_body]
pub(crate) fn run_subtasks<'a>(tasks: &Vec<CopyingXor<'a>>) -> (outs: Vec<Vec<u8>>)
    ensures
        outs@.len() == tasks@.len(),
        forall|i: int| 0 <= i < tasks@.len() ==> (#[trigger] outs@[i])@ == xor_mask(tasks@[i].0@),
{
    let mut outs = Vec::new();
    tasks.par_iter().map(|t: &CopyingXor<'a>| xor_buffer(t.0)).collect_into_vec(&mut outs);
    outs
}

/// Relies on rayon's `par_iter`/`map`/`collect_into_vec` over a byte
/// slice: one result per input byte, in the input's order.  Each
/// closure call runs the verified [`apply_mask`] on one byte.
#[verifier::external_body]
pub(crate) fn par_xor_bytes(inp: &[u8]) -> (out: Vec<u8>)
    ensures
        out@ == xor_mask(inp@),
{
    let mut out = Vec::new();
    inp.par_iter().map(|b: &u8| apply_mask(*b)).collect_into_vec(&mut out);
    out
}

} // verus!
