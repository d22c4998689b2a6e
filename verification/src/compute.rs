//! The compute contract: the lifecycle every adaptively computable task
//! supports, with the threshold-based dispatch policy supplied once as
//! default methods.

use vstd::prelude::*;

verus! {

/// Complexity bound below which a task runs single-threaded.
pub const THRESHOLD: usize = 200_000;

/// Dispatch rule: a task runs single-threaded exactly when its
/// complexity score is strictly below [`THRESHOLD`].
pub fn below_threshold(complexity: usize) -> (b: bool)
    ensures
        b <==> complexity < THRESHOLD,
{
    complexity < THRESHOLD
}

/// A task that can estimate its own work, run directly, or split into
/// independent subtasks that are executed apart and joined back.
///
/// The spec functions name the relations the lifecycle preserves:
/// whatever route a result takes — straight through
/// [`Compute::compute_single_threaded`], or through
/// [`Compute::split`], [`Compute::distribute`] and [`Compute::join`] —
/// it satisfies [`Compute::result_matches`], so the parallel path can
/// never be observed to differ from the single-threaded one.
pub trait Compute: Sized {
    type Output;

    type Subtasks;

    type Subtask;

    type ComputeSubtaskOutput;

    type DistributeOutput;

    /// The work estimate as a mathematical function of the task value
    /// alone.
    spec fn complexity_of(&self) -> int;

    /// What it means for `r` to be the result of computing the task.
    spec fn result_matches(&self, r: Self::Output) -> bool;

    /// What it means for `st` to be a faithful decomposition of this
    /// task: joined back in order, the pieces yield the task's result.
    spec fn splits_to(&self, st: Self::Subtasks) -> bool;

    /// What it means for `d` to hold the outputs of every subtask of
    /// `st`, in the subtasks' original order.
    spec fn distributed_matches(st: Self::Subtasks, d: Self::DistributeOutput) -> bool;

    /// What it means for `o` to be the result of one subtask.
    spec fn subtask_matches(s: Self::Subtask, o: Self::ComputeSubtaskOutput) -> bool;

    /// What it means for `r` to be the reassembly of the aggregate `d`.
    spec fn join_matches(d: Self::DistributeOutput, r: Self::Output) -> bool;

    /// The decomposition round trip is faithful: splitting, computing
    /// every subtask, and joining in order yields exactly the result
    /// the task itself defines.
    proof fn lemma_pipeline(&self, st: Self::Subtasks, d: Self::DistributeOutput, r: Self::Output)
        requires
            self.splits_to(st),
            Self::distributed_matches(st, d),
            Self::join_matches(d, r),
        ensures
            self.result_matches(r),
    ;

    /// Pure estimate of the work the task holds; monotonic with the
    /// actual work, so the threshold decision is meaningful.  Repeated
    /// calls on the same task return the same score.
    fn complexity(&self) -> (c: usize)
        ensures
            c as int == self.complexity_of(),
    ;

    /// Consumes the task and produces the result directly, with no
    /// parallelism.  This is the ground truth every other path must
    /// match.
    fn compute_single_threaded(self) -> (r: Self::Output)
        ensures
            self.result_matches(r),
    ;

    /// Consumes the task and returns an ordered collection of subtasks
    /// whose ranges partition the input exactly.
    fn split(self) -> (st: Self::Subtasks)
        ensures
            self.splits_to(st),
    ;

    /// Hands every subtask to a worker and returns the aggregate of
    /// their outputs once all have completed.
    fn distribute(subtasks: Self::Subtasks) -> (d: Self::DistributeOutput)
        ensures
            Self::distributed_matches(subtasks, d),
    ;

    /// The per-subtask unit of work; pure with respect to every other
    /// subtask.
    fn compute_subtask(subtask: Self::Subtask) -> (o: Self::ComputeSubtaskOutput)
        ensures
            Self::subtask_matches(subtask, o),
    ;

    /// Optional bookkeeping hook invoked after one subtask completes.
    fn subtask_on_finish(subtask: Self::Subtask, subtask_output: Self::ComputeSubtaskOutput);

    /// Consumes the aggregate and reconstructs the single result, in
    /// the original input order whatever order the subtasks finished
    /// in.
    fn join(distributed_output: Self::DistributeOutput) -> (r: Self::Output)
        ensures
            Self::join_matches(distributed_output, r),
    ;

    /// The parallel path: split, distribute, join.  Its result is the
    /// same one the single-threaded path defines.
    fn compute_multi_threaded(self) -> (r: Self::Output)
        ensures
            self.result_matches(r),
    {
        let ghost task = self;
        let tasks = self.split();
        let ghost subtasks = tasks;
        let distribute_output = Self::distribute(tasks);
        let ghost distributed = distribute_output;
        let out = Self::join(distribute_output);
        proof {
            task.lemma_pipeline(subtasks, distributed, out);
        }
        out
    }

    /// The entry point: measures complexity and dispatches to the
    /// single-threaded path below [`THRESHOLD`], to the parallel path
    /// at or above it.  Both paths return the task's one result.
    fn compute(self) -> (r: Self::Output)
        ensures
            self.result_matches(r),
    {
        if below_threshold(self.complexity()) {
            self.compute_single_threaded()
        } else {
            self.compute_multi_threaded()
        }
    }
}

} // verus!
