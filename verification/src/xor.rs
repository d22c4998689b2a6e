//! The shipped task instantiation: a byte-wise XOR mask over a borrowed
//! byte slice, run through the adaptive compute contract.

use vstd::prelude::*;
use crate::buffers::PartBuffers;
use crate::buffers::smallvec_parts;
use crate::buffers::smallvec_from_parts;
use crate::buffers::smallvec_take_parts;
use crate::chunks::chunk_start;
use crate::chunks::chunk_len;
use crate::chunks::chunk_range;
use crate::chunks::lemma_chunks_cover;
use crate::compute::Compute;
use crate::parallel::available_workers;
use crate::parallel::run_subtasks;
use crate::parallel::par_xor_bytes;
use vstd::slice::slice_subrange;

verus! {

/// The mask every input byte is combined with.
pub const MASK: u8 = 0xFF;

/// The transform's meaning: every byte of `s` XOR-ed with [`MASK`].
pub open spec fn xor_mask(s: Seq<u8>) -> Seq<u8> {
    s.map_values(|b: u8| b ^ MASK)
}

/// A task (or subtask): a borrowed view over a contiguous range of
/// input bytes.  Owns no data.
pub struct CopyingXor<'a>(pub &'a [u8]);

/// An ordered sequence of subtasks paired with the total original
/// size, kept for pre-sizing the output buffer.
pub struct CopyingXorSubtasks<'a> {
    pub total_size: usize,
    pub inner: Vec<CopyingXor<'a>>,
}

/// Applies the mask to one byte.
pub fn apply_mask(b: u8) -> (r: u8)
    ensures
        r == (b ^ MASK),
{
    b ^ MASK
}

/// Left-to-right concatenation of byte sequences.
pub open spec fn concat_bytes(parts: Seq<Seq<u8>>) -> Seq<u8>
    decreases parts.len(),
{
    if parts.len() == 0 {
        Seq::empty()
    } else {
        concat_bytes(parts.drop_last()) + parts.last()
    }
}

/// The borrowed ranges of a sequence of subtasks, in order.
pub open spec fn task_views(tasks: Seq<CopyingXor<'_>>) -> Seq<Seq<u8>> {
    tasks.map_values(|t: CopyingXor<'_>| t.0@)
}

pub proof fn lemma_concat_push(parts: Seq<Seq<u8>>, p: Seq<u8>)
    ensures
        concat_bytes(parts.push(p)) == concat_bytes(parts) + p,
{
    assert(parts.push(p).drop_last() =~= parts);
    assert(parts.push(p).last() == p);
}

/// Applies the whole transform sequentially.
pub fn xor_buffer(inp: &[u8]) -> (out: Vec<u8>)
    ensures
        out@ == xor_mask(inp@),
{
    let n = inp.len();
    let mut out: Vec<u8> = Vec::with_capacity(n);
    let mut k: usize = 0;
    while k < n
        invariant
            n == inp@.len(),
            k <= n,
            out@ == xor_mask(inp@.subrange(0, k as int)),
        decreases n - k,
    {
        let b = *vstd::slice::slice_index_get(inp, k);
        out.push(apply_mask(b));
        proof {
            assert(inp@.subrange(0, k + 1 as int) =~= inp@.subrange(0, k as int).push(inp@[k as int]));
            assert(out@ =~= xor_mask(inp@.subrange(0, k + 1 as int)));
        }
        k += 1;
    }
    proof {
        assert(inp@.subrange(0, inp@.len() as int) =~= inp@);
    }
    out
}

/// The aggregate of all subtask outputs, in original subtask order,
/// paired with the total original size for pre-sizing the final
/// buffer.
pub struct CopyingXorPartials {
    pub total_size: usize,
    pub parts: PartBuffers,
}

/// The byte contents of a sequence of output buffers, in order.
pub open spec fn part_views(parts: Seq<Vec<u8>>) -> Seq<Seq<u8>> {
    parts.map_values(|p: Vec<u8>| p@)
}

pub proof fn lemma_xor_mask_add(a: Seq<u8>, b: Seq<u8>)
    ensures
        xor_mask(a + b) == xor_mask(a) + xor_mask(b),
{
    assert(xor_mask(a + b) =~= xor_mask(a) + xor_mask(b));
}

/// Transforming each piece and concatenating is the same as
/// transforming the concatenation: the mask is applied element-wise,
/// so it commutes with splitting.
pub proof fn lemma_concat_xor(tasks: Seq<Seq<u8>>, outs: Seq<Seq<u8>>)
    requires
        outs.len() == tasks.len(),
        forall|i: int| 0 <= i < tasks.len() ==> outs[i] == xor_mask(tasks[i]),
    ensures
        concat_bytes(outs) == xor_mask(concat_bytes(tasks)),
    decreases tasks.len(),
{
    if tasks.len() == 0 {
        assert(concat_bytes(outs) =~= xor_mask(concat_bytes(tasks)));
    } else {
        lemma_concat_xor(tasks.drop_last(), outs.drop_last());
        lemma_xor_mask_add(concat_bytes(tasks.drop_last()), tasks.last());
    }
}

impl<'a> CopyingXor<'a> {
    /// Splits the task into exactly `n` contiguous subtasks whose
    /// ranges partition the input in order, sized by the balanced
    /// remainder rule of [`chunk_start`] and [`chunk_len`].
    pub fn split_into(self, n: usize) -> (st: CopyingXorSubtasks<'a>)
        requires
            1 <= n,
        ensures
            st.total_size == self.0@.len(),
            st.inner@.len() == n as int,
            forall|i: int|
                0 <= i < n as int ==> (#[trigger] st.inner@[i]).0@ == self.0@.subrange(
                    chunk_start(self.0@.len() as int, n as int, i),
                    chunk_start(self.0@.len() as int, n as int, i) + chunk_len(
                        self.0@.len() as int,
                        n as int,
                        i,
                    ),
                ),
            self.splits_to(st),
    {
        let inp = self.0;
        let len = inp.len();
        let mut inner: Vec<CopyingXor<'a>> = Vec::with_capacity(n);
        let mut i: usize = 0;
        while i < n
            invariant
                1 <= n,
                len == inp@.len(),
                i <= n,
                inner@.len() == i as int,
                forall|j: int|
                    0 <= j < i as int ==> (#[trigger] inner@[j]).0@ == inp@.subrange(
                        chunk_start(len as int, n as int, j),
                        chunk_start(len as int, n as int, j) + chunk_len(len as int, n as int, j),
                    ),
                concat_bytes(task_views(inner@)) == inp@.subrange(
                    0,
                    chunk_start(len as int, n as int, i as int),
                ),
            decreases n - i,
        {
            proof {
                lemma_chunks_cover(len as int, n as int);
            }
            let (start, clen) = chunk_range(len, n, i);
            let piece = slice_subrange(inp, start, start + clen);
            proof {
                let ghost views = task_views(inner@);
                assert(task_views(inner@.push(CopyingXor(piece))) =~= views.push(piece@));
                lemma_concat_push(views, piece@);
                assert(inp@.subrange(0, start as int) + inp@.subrange(
                    start as int,
                    start + clen,
                ) =~= inp@.subrange(0, start + clen));
            }
            inner.push(CopyingXor(piece));
            i += 1;
        }
        proof {
            lemma_chunks_cover(len as int, n as int);
            assert(inp@.subrange(0, len as int) =~= inp@);
        }
        CopyingXorSubtasks { total_size: len, inner }
    }
}

impl<'a> Compute for CopyingXor<'a> {
    type Output = Vec<u8>;

    type Subtasks = CopyingXorSubtasks<'a>;

    type Subtask = CopyingXor<'a>;

    type ComputeSubtaskOutput = Vec<u8>;

    type DistributeOutput = CopyingXorPartials;

    open spec fn complexity_of(&self) -> int {
        self.0@.len() as int
    }

    open spec fn result_matches(&self, r: Vec<u8>) -> bool {
        r@ == xor_mask(self.0@)
    }

    open spec fn splits_to(&self, st: CopyingXorSubtasks<'a>) -> bool {
        &&& st.total_size == self.0@.len()
        &&& concat_bytes(task_views(st.inner@)) == self.0@
    }

    open spec fn distributed_matches(st: CopyingXorSubtasks<'a>, d: CopyingXorPartials) -> bool {
        &&& d.total_size == st.total_size
        &&& concat_bytes(part_views(smallvec_parts(d.parts))) == xor_mask(
            concat_bytes(task_views(st.inner@)),
        )
    }

    open spec fn subtask_matches(s: CopyingXor<'a>, o: Vec<u8>) -> bool {
        o@ == xor_mask(s.0@)
    }

    open spec fn join_matches(d: CopyingXorPartials, r: Vec<u8>) -> bool {
        r@ == concat_bytes(part_views(smallvec_parts(d.parts)))
    }

    proof fn lemma_pipeline(
        &self,
        st: CopyingXorSubtasks<'a>,
        d: CopyingXorPartials,
        r: Vec<u8>,
    ) {
        assert(self.splits_to(st));
        assert(Self::distributed_matches(st, d));
        assert(Self::join_matches(d, r));
        assert(self.result_matches(r));
    }

    fn complexity(&self) -> (c: usize) {
        proof {
            assert(self.complexity_of() == self.0@.len() as int);
        }
        self.0.len()
    }

    fn compute_single_threaded(self) -> (r: Vec<u8>) {
        xor_buffer(self.0)
    }

    /// Splits across the ambient worker count; an empty input becomes
    /// a single empty subtask.
    fn split(self) -> (st: CopyingXorSubtasks<'a>)
        ensures
            st.inner@.len() >= 1,
            self.0@.len() == 0 ==> st.inner@.len() == 1,
    {
        let n = if self.0.len() == 0 {
            1
        } else {
            available_workers()
        };
        self.split_into(n)
    }

    fn distribute(subtasks: CopyingXorSubtasks<'a>) -> (d: CopyingXorPartials) {
        let ghost original = subtasks;
        let CopyingXorSubtasks { total_size, inner } = subtasks;
        let outs = run_subtasks(&inner);
        proof {
            assert(part_views(outs@).len() == task_views(inner@).len());
            assert forall|i: int| 0 <= i < task_views(inner@).len() implies part_views(outs@)[i]
                == xor_mask(task_views(inner@)[i]) by {
                assert(part_views(outs@)[i] == outs@[i]@);
                assert(task_views(inner@)[i] == inner@[i].0@);
            }
            lemma_concat_xor(task_views(inner@), part_views(outs@));
        }
        let parts = smallvec_from_parts(outs);
        let d = CopyingXorPartials { total_size, parts };
        proof {
            assert(Self::distributed_matches(original, d));
        }
        d
    }

    fn compute_subtask(subtask: CopyingXor<'a>) -> (o: Vec<u8>) {
        xor_buffer(subtask.0)
    }

    /// Optional instrumentation hook; the XOR job reassembles everything
    /// in `join`, so there is nothing to record per subtask.
    fn subtask_on_finish(subtask: CopyingXor<'a>, subtask_output: Vec<u8>) {
    }

    fn join(distributed_output: CopyingXorPartials) -> (r: Vec<u8>) {
        let ghost original = distributed_output;
        let CopyingXorPartials { total_size, parts } = distributed_output;
        let bufs = smallvec_take_parts(parts);
        let nb = bufs.len();
        let mut out: Vec<u8> = Vec::with_capacity(total_size);
        let mut k: usize = 0;
        while k < nb
            invariant
                nb == bufs@.len(),
                k <= nb,
                out@ == concat_bytes(part_views(bufs@).subrange(0, k as int)),
            decreases nb - k,
        {
            let buf = &bufs[k];
            let m = buf.len();
            let mut j: usize = 0;
            while j < m
                invariant
                    nb == bufs@.len(),
                    k < nb,
                    buf == bufs@[k as int],
                    m == buf@.len(),
                    j <= m,
                    out@ == concat_bytes(part_views(bufs@).subrange(0, k as int)) + buf@.subrange(
                        0,
                        j as int,
                    ),
                decreases m - j,
            {
                out.push(buf[j]);
                proof {
                    assert(buf@.subrange(0, j + 1 as int) =~= buf@.subrange(0, j as int).push(
                        buf@[j as int],
                    ));
                }
                j += 1;
            }
            proof {
                assert(buf@.subrange(0, m as int) =~= buf@);
                assert(part_views(bufs@).subrange(0, k + 1 as int).drop_last() =~= part_views(
                    bufs@,
                ).subrange(0, k as int));
                assert(part_views(bufs@).subrange(0, k + 1 as int).last() == buf@);
            }
            k += 1;
        }
        proof {
            assert(part_views(bufs@).subrange(0, nb as int) =~= part_views(bufs@));
            assert(Self::join_matches(original, out));
        }
        out
    }
}

/// Equivalence law: any two outputs that meet the computation's
/// contract agree byte for byte, so the result of `compute` — by
/// either path — is exactly the result of `compute_single_threaded`.
pub proof fn lemma_paths_agree(t: CopyingXor<'_>, r1: Vec<u8>, r2: Vec<u8>)
    requires
        t.result_matches(r1),
        t.result_matches(r2),
    ensures
        r1@ == r2@,
{
}

/// Idempotence law: the complexity estimate is a function of the task
/// value alone, so repeated calls on the same unconsumed task return
/// equal scores.
pub proof fn lemma_complexity_stable(t: CopyingXor<'_>, c1: usize, c2: usize)
    requires
        c1 as int == t.complexity_of(),
        c2 as int == t.complexity_of(),
    ensures
        c1 == c2,
{
}

/// The whole transform, dispatching on the input length: below
/// [`THRESHOLD`] a sequential pass, at or above it a parallel one.
pub fn copying_xor(inp: &[u8]) -> (out: Vec<u8>)
    ensures
        out@ == xor_mask(inp@),
{
    if crate::compute::below_threshold(inp.len()) {
        xor_buffer(inp)
    } else {
        par_xor_bytes(inp)
    }
}

} // verus!

