//! The batch-pull contract an upstream operator satisfies.
//!
//! A source abstractly *is* the sequence of batches it will still produce:
//! each pull hands out the head of that sequence and leaves the rest. Once a
//! batch whose drain status is `Drain` (or an error) has been produced, the
//! source must not be pulled again. [`FixedSource`] replays a fixed list of
//! batches and is the upstream operator the tests drive the executor with.

use vstd::prelude::*;

use crate::types::BatchExecuteResult;
use crate::types::BatchV;
use crate::types::ColType;
use crate::types::ExecuteStats;
use crate::types::IntervalRange;

verus! {

/// The pull contract of an upstream batch-producing operator.
pub trait BatchSource: Sized {
    /// What a storage-statistics summary is for this operator family.
    type StorageStats;

    /// The schema of every batch this source produces.
    spec fn schema_spec(&self) -> Seq<ColType>;

    /// The batches this source will still produce, in order.
    spec fn batches(&self) -> Seq<BatchV>;

    /// The schema of the produced batches.
    fn schema(&self) -> (r: &Vec<ColType>)
        ensures
            r@ == self.schema_spec(),
    ;

    /// Produces the next batch. Must not be called once a produced batch has
    /// reported `Drain` or an error.
    fn next_batch(&mut self, scan_rows: usize) -> (r: BatchExecuteResult)
        requires
            old(self).batches().len() > 0,
        ensures
            r@ == old(self).batches()[0],
            final(self).batches() == old(self).batches().drop_first(),
            final(self).schema_spec() == old(self).schema_spec(),
    ;

    /// Merges this operator's execution summaries into `dest`.
    fn collect_exec_stats(&mut self, dest: &mut ExecuteStats)
        ensures
            final(self).batches() == old(self).batches(),
            final(self).schema_spec() == old(self).schema_spec(),
    ;

    /// Merges this operator's storage summaries into `dest`.
    fn collect_storage_stats(&mut self, dest: &mut Self::StorageStats)
        ensures
            final(self).batches() == old(self).batches(),
            final(self).schema_spec() == old(self).schema_spec(),
    ;

    /// Hands out the key range scanned since the last call.
    fn take_scanned_range(&mut self) -> (r: IntervalRange)
        ensures
            final(self).batches() == old(self).batches(),
            final(self).schema_spec() == old(self).schema_spec(),
    ;

    /// Whether the produced data may be cached and replayed.
    spec fn cacheable(&self) -> bool;

    /// Whether the produced data may be cached and replayed.
    fn can_be_cached(&self) -> (r: bool)
        ensures
            r == self.cacheable(),
    ;
}

/// An upstream operator that replays a fixed list of batches.
pub struct FixedSource {
    schema: Vec<ColType>,
    results: Vec<BatchExecuteResult>,
}

impl FixedSource {
    /// A source that will produce exactly `results`, in order, under
    /// `schema`.
    pub fn new(schema: Vec<ColType>, results: Vec<BatchExecuteResult>) -> (r: FixedSource)
        ensures
            r.schema_spec() == schema@,
            r.batches() == results@.map_values(|b: BatchExecuteResult| b@),
    {
        FixedSource { schema, results }
    }
}

impl BatchSource for FixedSource {
    type StorageStats = ();

    closed spec fn schema_spec(&self) -> Seq<ColType> {
        self.schema@
    }

    closed spec fn batches(&self) -> Seq<BatchV> {
        self.results@.map_values(|b: BatchExecuteResult| b@)
    }

    fn schema(&self) -> (r: &Vec<ColType>) {
        &self.schema
    }

    fn next_batch(&mut self, scan_rows: usize) -> (r: BatchExecuteResult) {
        let ghost pre = self.results@;
        let r = self.results.remove(0);
        proof {
            let f = |b: BatchExecuteResult| b@;
            assert(self.results@ == pre.remove(0));
            assert(self.results@.map_values(f) =~= pre.map_values(f).drop_first());
        }
        r
    }

    fn collect_exec_stats(&mut self, dest: &mut ExecuteStats) {
    }

    fn collect_storage_stats(&mut self, dest: &mut Self::StorageStats) {
    }

    fn take_scanned_range(&mut self) -> (r: IntervalRange) {
        IntervalRange { lower_inclusive: Vec::new(), upper_exclusive: Vec::new() }
    }

    closed spec fn cacheable(&self) -> bool {
        false
    }

    fn can_be_cached(&self) -> (r: bool) {
        false
    }
}

} // verus!
