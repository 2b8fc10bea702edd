//! The pull-based Top-N executor.
//!
//! `BatchTopNExecutor` sits between a caller and an upstream source. Each
//! call of [`BatchTopNExecutor::next_batch`] pulls at most one batch from the
//! source, evaluates the ORDER BY expressions over its visible rows, and
//! feeds them to the bounded heap; when the source reports that it is
//! drained, the call returns the fully sorted Top-N survivors in one batch.
//! A zero limit ends the stream at once without ever touching the source,
//! and a limit above the configured paging size turns every call into a
//! verbatim pass-through of the source (the paging bypass).

use vstd::prelude::*;

use std::rc::Rc;
use std::sync::Arc;

use crate::compare::row_cmp;
use crate::compare::KeyMeta;
use crate::expr::check_expr;
use crate::expr::eval_expr;
use crate::expr::eval_expr_column;
use crate::expr::expr_ret_type;
use crate::expr::expr_valid;
use crate::expr::in_bounds_expr;
use crate::expr::lemma_valid_in_bounds;
use crate::expr::ret_type;
use crate::expr::OrderExpr;
use crate::heap::rc_clone;
use crate::heap::row_view;
use crate::heap::row_wf;
use crate::heap::sorted_rows;
use crate::heap::HeapRow;
use crate::heap::PinnedBatch;
use crate::heap::RowV;
use crate::heap::TopNHeap;
use crate::source::BatchSource;
use crate::types::BatchExecuteResult;
use crate::types::BatchV;
use crate::types::ColType;
use crate::types::Column;
use crate::types::DrainState;
use crate::types::EvalWarnings;
use crate::types::ExecError;
use crate::types::ExecuteStats;
use crate::types::IntervalRange;
use crate::types::SortValue;

verus! {

/// The part of the evaluation configuration this operator reads: the
/// configured paging size, if any.
#[derive(Clone, Copy, Debug, PartialEq, Eq, Structural)]
pub struct EvalConfig {
    pub paging_size: Option<u64>,
}

impl Default for EvalConfig {
    /// No paging size configured.
    fn default() -> (r: EvalConfig)
        ensures
            r.paging_size is None,
    {
        EvalConfig { paging_size: Option::None }
    }
}

/// One ORDER BY term of the pushdown descriptor: the expression and its
/// declared direction.
pub struct ByItem {
    pub expr: OrderExpr,
    pub desc: bool,
}

/// The decoded pushdown descriptor this operator is built from: the ordered
/// ORDER BY terms. The row limit arrives separately at construction.
pub struct TopNDescriptor {
    pub order_by: Vec<ByItem>,
}

/// Whether every batch of a remaining stream is well formed for the schema,
/// every batch before the last reports `Remain`, and the last is terminal
/// (`Drain` or an error).
pub open spec fn stream_wf(s: Seq<BatchV>, schema: Seq<ColType>) -> bool {
    &&& s.len() > 0
    &&& forall|i: int| 0 <= i < s.len() ==> (#[trigger] s[i]).wf(schema)
    &&& forall|i: int|
        0 <= i < s.len() - 1 ==> (#[trigger] s[i]).is_drained == Result::<
            DrainState,
            ExecError,
        >::Ok(DrainState::Remain)
    &&& (s.last().is_drained is Err || s.last().is_drained == Result::<
        DrainState,
        ExecError,
    >::Ok(DrainState::Drain))
}

/// Whether every ORDER BY expression evaluates on every visible row of a
/// batch's columns.
pub open spec fn keys_ok(exprs: Seq<OrderExpr>, cols: Seq<crate::types::ColumnV>, lrs: Seq<usize>) -> bool {
    forall|k: int, i: int|
        #![trigger exprs[k], lrs[i]]
        0 <= k < exprs.len() && 0 <= i < lrs.len() ==> eval_expr(
            exprs[k],
            cols,
            lrs[i] as int,
        ) is Some
}

/// The rows a batch contributes, in visible order: per row, the evaluated
/// sort keys and the data cells.
pub open spec fn rows_of(exprs: Seq<OrderExpr>, cols: Seq<crate::types::ColumnV>, lrs: Seq<usize>) -> Seq<RowV> {
    Seq::new(
        lrs.len(),
        |i: int|
            RowV {
                keys: Seq::new(exprs.len(), |k: int| eval_expr(exprs[k], cols, lrs[i] as int)->0),
                data: Seq::new(cols.len(), |c: int| cols[c].cell(lrs[i] as int)),
            },
    )
}

/// What it is for `s` to be a Top-N answer for limit `n` over the rows
/// `all`: `s` holds min(n, |all|) of the rows of `all`, sorted better-first,
/// and no row of `all` outside `s` compares strictly before any row of `s`.
pub open spec fn top_n_output(metas: Seq<KeyMeta>, all: Seq<RowV>, n: int, s: Seq<RowV>) -> bool {
    &&& s.len() == if all.len() < n {
        all.len() as int
    } else {
        n
    }
    &&& sorted_rows(metas, s)
    &&& forall|d: RowV| #[trigger] s.to_multiset().count(d) <= all.to_multiset().count(d)
    &&& forall|d: RowV, i: int|
        #![trigger all.to_multiset().count(d), s[i]]
        all.to_multiset().count(d) > s.to_multiset().count(d) && 0 <= i < s.len() ==> row_cmp(
            metas,
            s[i].keys,
            d.keys,
        ) <= 0
}

/// Whether an output batch presents exactly the rows `s` under `schema`: one
/// column per schema entry of the schema's kind, cell for cell, with the
/// identity visible-row order.
pub open spec fn batch_presents(b: BatchV, schema: Seq<ColType>, s: Seq<RowV>) -> bool {
    &&& b.cols.len() == schema.len()
    &&& forall|c: int|
        0 <= c < schema.len() ==> (#[trigger] b.cols[c]).kind() == schema[c].kind && b.cols[
            c
        ].len() == s.len()
    &&& b.logical_rows == Seq::new(s.len(), |i: int| i as usize)
    &&& forall|c: int, i: int|
        #![trigger b.cols[c].cell(i)]
        0 <= c < schema.len() && 0 <= i < s.len() ==> b.cols[c].cell(i) == s[i].data[c]
}

/// The vectorized Top-N operator: a pull-based state machine over an
/// upstream source.
/// The number of rows asked of the source per internal pull: Top-N must see
/// every row anyway, so it always asks for the engine's largest batch,
/// whatever the caller's own hint was.
pub const BATCH_MAX_SIZE: usize = 1024;

pub struct BatchTopNExecutor<Src: BatchSource> {
    heap: TopNHeap,
    order_exprs: Vec<OrderExpr>,
    order_metas: Vec<KeyMeta>,
    n: usize,
    config: Arc<EvalConfig>,
    warnings: EvalWarnings,
    src: Src,
    is_ended: bool,
}

impl<Src: BatchSource> BatchTopNExecutor<Src> {
    /// The executor's invariant: the heap is well formed and agrees with the
    /// declared keys and the source's schema, and every ORDER BY expression
    /// is valid for that schema with its key metadata derived from it.
    pub closed spec fn wf(self) -> bool {
        &&& self.heap.wf()
        &&& self.heap.capacity() == self.n as int
        &&& self.heap.metas_view() == self.order_metas@
        &&& self.heap.schema_view() == self.src.schema_spec()
        &&& self.order_metas@.len() == self.order_exprs@.len()
        &&& forall|k: int|
            0 <= k < self.order_exprs@.len() ==> expr_valid(
                #[trigger] self.order_exprs@[k],
                self.src.schema_spec(),
            )
        &&& forall|k: int|
            0 <= k < self.order_exprs@.len() ==> (#[trigger] self.order_metas@[k]).ty
                == expr_ret_type(self.order_exprs@[k], self.src.schema_spec())
    }

    /// Whether the state machine has reached its terminal state.
    pub closed spec fn ended(self) -> bool {
        self.is_ended
    }

    /// The row limit N.
    pub closed spec fn limit(self) -> int {
        self.n as int
    }

    /// The configured paging size.
    pub closed spec fn paging(self) -> Option<u64> {
        self.config.paging_size
    }

    /// Whether the paging bypass is in force: a paging size is configured
    /// and the limit exceeds it.
    pub open spec fn bypass(self) -> bool {
        self.paging() matches Option::Some(p) && self.limit() > p as int
    }

    /// The upstream source in its current state.
    pub closed spec fn source(self) -> Src {
        self.src
    }

    /// The declared ORDER BY keys: each expression's result type with its
    /// direction.
    pub closed spec fn keys(self) -> Seq<KeyMeta> {
        self.order_metas@
    }

    /// The compiled ORDER BY expressions.
    pub closed spec fn exprs(self) -> Seq<OrderExpr> {
        self.order_exprs@
    }

    /// Every row the operator has accepted from the source so far, with its
    /// evaluated sort keys.
    pub closed spec fn seen(self) -> Seq<RowV> {
        self.heap.pushed_log()
    }

    /// Builds the executor from already-validated parts.
    fn assemble(config: Arc<EvalConfig>, src: Src, order_exprs: Vec<OrderExpr>, order_is_desc: Vec<
        bool,
    >, n: usize) -> (r: BatchTopNExecutor<Src>)
        requires
            order_exprs@.len() == order_is_desc@.len(),
            forall|k: int|
                0 <= k < order_exprs@.len() ==> expr_valid(
                    #[trigger] order_exprs@[k],
                    src.schema_spec(),
                ),
        ensures
            r.wf(),
            !r.ended(),
            r.limit() == n as int,
            r.paging() == config.paging_size,
            r.source() == src,
            r.seen() == Seq::<RowV>::empty(),
            r.exprs() == order_exprs@,
            forall|k: int|
                0 <= k < order_exprs@.len() ==> (#[trigger] r.keys()[k]).ty == expr_ret_type(
                    order_exprs@[k],
                    src.schema_spec(),
                ) && r.keys()[k].desc == order_is_desc@[k],
            r.keys().len() == order_exprs@.len(),
    {
        let mut order_metas: Vec<KeyMeta> = Vec::new();
        let mut k: usize = 0;
        let schema = src.schema();
        while k < order_exprs.len()
            invariant
                k <= order_exprs@.len(),
                order_exprs@.len() == order_is_desc@.len(),
                schema@ == src.schema_spec(),
                forall|q: int|
                    0 <= q < order_exprs@.len() ==> expr_valid(
                        #[trigger] order_exprs@[q],
                        src.schema_spec(),
                    ),
                order_metas@.len() == k,
                forall|q: int|
                    0 <= q < k ==> (#[trigger] order_metas@[q]).ty == expr_ret_type(
                        order_exprs@[q],
                        src.schema_spec(),
                    ) && order_metas@[q].desc == order_is_desc@[q],
            decreases order_exprs@.len() - k,
        {
            let ty = ret_type(&order_exprs[k], schema);
            order_metas.push(KeyMeta { ty, desc: order_is_desc[k] });
            k = k + 1;
        }
        let heap = TopNHeap::new(n, clone_metas(&order_metas), Ghost(src.schema_spec()));
        BatchTopNExecutor {
            heap,
            order_exprs,
            order_metas,
            n,
            config,
            warnings: EvalWarnings { warning_cnt: 0 },
            src,
            is_ended: false,
        }
    }
}

impl BatchTopNExecutor<crate::source::FixedSource> {
    /// Checks whether a pushdown descriptor can be served by this operator:
    /// it must declare at least one ORDER BY term. (Every expression of
    /// [`OrderExpr`] is representable here; whether it fits the schema is
    /// checked at construction.)
    pub fn check_supported(descriptor: &TopNDescriptor) -> (r: Result<(), ExecError>)
        ensures
            r is Ok <==> descriptor.order_by@.len() > 0,
            r matches Result::Err(e) ==> e == ExecError::UnsupportedPushdown,
    {
        if descriptor.order_by.len() == 0 {
            return Result::Err(ExecError::UnsupportedPushdown);
        }
        Result::Ok(())
    }
}

impl<Src: BatchSource> BatchTopNExecutor<Src> {
    /// Builds the operator, validating every ORDER BY expression against the
    /// source's schema: every column reference must lie inside it and every
    /// addition operand must be of integer kind.
    pub fn new(
        config: Arc<EvalConfig>,
        src: Src,
        order_exprs_def: Vec<OrderExpr>,
        order_is_desc: Vec<bool>,
        n: usize,
    ) -> (r: Result<BatchTopNExecutor<Src>, ExecError>)
        requires
            order_exprs_def@.len() == order_is_desc@.len(),
        ensures
            r is Ok <==> forall|k: int|
                0 <= k < order_exprs_def@.len() ==> expr_valid(
                    #[trigger] order_exprs_def@[k],
                    src.schema_spec(),
                ),
            r matches Result::Err(e) ==> e == ExecError::ExpressionBuild,
            r matches Result::Ok(ex) ==> {
                &&& ex.wf()
                &&& !ex.ended()
                &&& ex.limit() == n as int
                &&& ex.paging() == config.paging_size
                &&& ex.source() == src
                &&& ex.seen() == Seq::<RowV>::empty()
                &&& ex.exprs() == order_exprs_def@
                &&& ex.keys().len() == order_exprs_def@.len()
                &&& forall|k: int|
                    0 <= k < order_exprs_def@.len() ==> (#[trigger] ex.keys()[k]).ty
                        == expr_ret_type(order_exprs_def@[k], src.schema_spec()) && ex.keys()[
                        k
                    ].desc == order_is_desc@[k]
            },
    {
        let mut valid = true;
        let mut k: usize = 0;
        while k < order_exprs_def.len()
            invariant
                k <= order_exprs_def@.len(),
                valid == (forall|q: int|
                    0 <= q < k ==> expr_valid(#[trigger] order_exprs_def@[q], src.schema_spec())),
            decreases order_exprs_def@.len() - k,
        {
            if !check_expr(&order_exprs_def[k], src.schema()) {
                valid = false;
            }
            k = k + 1;
        }
        if !valid {
            return Result::Err(ExecError::ExpressionBuild);
        }
        Result::Ok(Self::assemble(config, src, order_exprs_def, order_is_desc, n))
    }

    /// Evaluates every ORDER BY expression over one batch's visible rows,
    /// pins the batch's data and sort keys behind one shared container, and
    /// feeds each visible row to the heap. An expression failing on any row
    /// is an evaluation error: the heap is left untouched.
    fn process_batch_input(
        &mut self,
        physical_columns: Vec<Column>,
        logical_rows: Vec<usize>,
    ) -> (r: Result<(), ExecError>)
        requires
            old(self).wf(),
            physical_columns@.len() == old(self).src.schema_spec().len(),
            forall|c: int|
                0 <= c < physical_columns@.len() ==> (#[trigger] physical_columns@[c])@.kind()
                    == old(self).src.schema_spec()[c].kind,
            forall|c: int, i: int|
                0 <= c < physical_columns@.len() && 0 <= i < logical_rows@.len() ==> (
                #[trigger] logical_rows@[i]) < (#[trigger] physical_columns@[c])@.len(),
        ensures
            final(self).wf(),
            final(self).is_ended == old(self).is_ended,
            final(self).src == old(self).src,
            final(self).order_exprs == old(self).order_exprs,
            final(self).order_metas == old(self).order_metas,
            final(self).n == old(self).n,
            final(self).config == old(self).config,
            final(self).warnings == old(self).warnings,
            r is Ok <==> keys_ok(
                old(self).order_exprs@,
                physical_columns@.map_values(|c: Column| c@),
                logical_rows@,
            ),
            r is Ok ==> final(self).heap.pushed_log() == old(self).heap.pushed_log() + rows_of(
                old(self).order_exprs@,
                physical_columns@.map_values(|c: Column| c@),
                logical_rows@,
            ),
            r matches Result::Err(e) ==> e == ExecError::Evaluation && final(self).heap == old(
                self,
            ).heap,
    {
        let ghost schema = self.src.schema_spec();
        let ghost colsv = physical_columns@.map_values(|c: Column| c@);
        let ghost lrs = logical_rows@;
        let ghost exprs = self.order_exprs@;
        let mut key_cols: Vec<Vec<SortValue>> = Vec::new();
        let mut k: usize = 0;
        while k < self.order_exprs.len()
            invariant
                *self == *old(self),
                old(self).wf(),
                k <= exprs.len(),
                exprs == self.order_exprs@,
                colsv == physical_columns@.map_values(|c: Column| c@),
                lrs == logical_rows@,
                schema == self.src.schema_spec(),
                physical_columns@.len() == schema.len(),
                forall|c: int, i: int|
                    0 <= c < physical_columns@.len() && 0 <= i < logical_rows@.len() ==> (
                    #[trigger] logical_rows@[i]) < (#[trigger] physical_columns@[c])@.len(),
                key_cols@.len() == k,
                forall|q: int|
                    0 <= q < k ==> (#[trigger] key_cols@[q])@.len() == lrs.len(),
                forall|q: int, i: int|
                    #![trigger key_cols@[q]@[i]]
                    0 <= q < k && 0 <= i < lrs.len() ==> eval_expr(exprs[q], colsv, lrs[i] as int)
                        == Option::Some(key_cols@[q]@[i]@),
            decreases exprs.len() - k,
        {
            proof {
                lemma_valid_in_bounds(self.order_exprs@[k as int], schema);
            }
            match eval_expr_column(&self.order_exprs[k], &physical_columns, &logical_rows) {
                Result::Ok(col) => {
                    key_cols.push(col);
                },
                Result::Err(err) => {
                    proof {
                        let i = choose|i: int|
                            0 <= i < lrs.len() && eval_expr(
                                exprs[k as int],
                                colsv,
                                lrs[i] as int,
                            ) is None;
                        assert(!keys_ok(exprs, colsv, lrs));
                    }
                    return Result::Err(err);
                },
            }
            k = k + 1;
        }
        proof {
            assert forall|q: int, i: int|
                #![trigger exprs[q], lrs[i]]
                0 <= q < exprs.len() && 0 <= i < lrs.len() implies eval_expr(
                exprs[q],
                colsv,
                lrs[i] as int,
            ) is Some by {
                assert(eval_expr(exprs[q], colsv, lrs[i] as int) == Option::Some(
                    key_cols@[q]@[i]@,
                ));
            }
            assert(keys_ok(exprs, colsv, lrs));
        }
        let ghost target_rows = rows_of(exprs, colsv, lrs);
        let ghost old_log = self.heap.pushed_log();
        let total = logical_rows.len();
        let pinned = Rc::new(
            PinnedBatch { physical_columns, logical_rows, sort_key_columns: key_cols },
        );
        let mut i: usize = 0;
        proof {
            assert(target_rows.take(0) =~= Seq::<RowV>::empty());
            assert(old_log + target_rows.take(0) =~= old_log);
        }
        while i < total
            invariant
                i <= total,
                total == lrs.len(),
                exprs == self.order_exprs@,
                schema == self.src.schema_spec(),
                target_rows == rows_of(exprs, colsv, lrs),
                // the executor's non-heap state is untouched
                self.order_exprs == old(self).order_exprs,
                self.order_metas == old(self).order_metas,
                self.n == old(self).n,
                self.config == old(self).config,
                self.warnings == old(self).warnings,
                self.src == old(self).src,
                self.is_ended == old(self).is_ended,
                self.order_metas@.len() == exprs.len(),
                forall|q: int|
                    0 <= q < exprs.len() ==> expr_valid(#[trigger] exprs[q], schema),
                forall|q: int|
                    0 <= q < exprs.len() ==> (#[trigger] self.order_metas@[q]).ty == expr_ret_type(
                        exprs[q],
                        schema,
                    ),
                // the heap advances through the batch's rows
                self.heap.wf(),
                self.heap.capacity() == self.n as int,
                self.heap.metas_view() == self.order_metas@,
                self.heap.schema_view() == schema,
                self.heap.pushed_log() == old_log + target_rows.take(i as int),
                // the pinned container's shape
                pinned.logical_rows@ == lrs,
                pinned.physical_columns@.map_values(|c: Column| c@) == colsv,
                pinned.physical_columns@.len() == schema.len(),
                forall|c: int|
                    0 <= c < schema.len() ==> (#[trigger] pinned.physical_columns@[c])@.kind()
                        == schema[c].kind,
                forall|c: int, q: int|
                    0 <= c < schema.len() && 0 <= q < lrs.len() ==> (#[trigger] lrs[q]) < (
                    #[trigger] pinned.physical_columns@[c])@.len(),
                pinned.sort_key_columns@.len() == exprs.len(),
                forall|q: int|
                    0 <= q < exprs.len() ==> (#[trigger] pinned.sort_key_columns@[q])@.len()
                        == lrs.len(),
                forall|q: int, j: int|
                    #![trigger pinned.sort_key_columns@[q]@[j]]
                    0 <= q < exprs.len() && 0 <= j < lrs.len() ==> eval_expr(
                        exprs[q],
                        colsv,
                        lrs[j] as int,
                    ) == Option::Some(pinned.sort_key_columns@[q]@[j]@),
            decreases total - i,
        {
            let row = HeapRow { source: rc_clone(&pinned), logical_row_index: i };
            proof {
                assert(row_wf(row, self.order_metas@, schema));
                assert(row_view(row) =~= target_rows[i as int]) by {
                    assert(row_view(row).keys =~= target_rows[i as int].keys);
                    assert(row_view(row).data =~= target_rows[i as int].data) by {
                        assert forall|c: int|
                            0 <= c < schema.len() implies row_view(row).data[c]
                            == target_rows[i as int].data[c] by {
                            assert(pinned.physical_columns@[c]@ == colsv[c]);
                        }
                    }
                }
                assert(target_rows.take(i + 1) =~= target_rows.take(i as int).push(
                    target_rows[i as int],
                ));
            }
            self.heap.add_row(row);
            proof {
                assert(self.heap.pushed_log() =~= old_log + target_rows.take(i + 1));
            }
            i = i + 1;
        }
        proof {
            assert(target_rows.take(total as int) =~= target_rows);
        }
        Result::Ok(())
    }

    /// Pulls one batch from the source and drives it through evaluation and
    /// the heap. `Ok(Some(rows))` carries the sorted survivors at end of
    /// stream; `Ok(None)` means the source has more input; an error is
    /// terminal and leaves the heap's history untouched.
    fn handle_next_batch(&mut self) -> (r: Result<Option<Vec<HeapRow>>, ExecError>)
        requires
            old(self).wf(),
            stream_wf(old(self).src.batches(), old(self).src.schema_spec()),
        ensures
            final(self).wf(),
            final(self).order_exprs == old(self).order_exprs,
            final(self).order_metas == old(self).order_metas,
            final(self).n == old(self).n,
            final(self).config == old(self).config,
            final(self).is_ended == old(self).is_ended,
            final(self).src.batches() == old(self).src.batches().drop_first(),
            final(self).src.schema_spec() == old(self).src.schema_spec(),
            final(self).warnings == old(self).src.batches()[0].warnings,
            ({
                let b = old(self).src.batches()[0];
                let all = old(self).heap.pushed_log() + rows_of(
                    old(self).order_exprs@,
                    b.cols,
                    b.logical_rows,
                );
                match r {
                    Result::Err(e) => {
                        &&& final(self).heap.pushed_log() == old(self).heap.pushed_log()
                        &&& match b.is_drained {
                            Result::Err(ue) => e == ue,
                            Result::Ok(_) => e == ExecError::Evaluation && !keys_ok(
                                old(self).order_exprs@,
                                b.cols,
                                b.logical_rows,
                            ),
                        }
                    },
                    Result::Ok(opt) => {
                        &&& b.is_drained is Ok
                        &&& keys_ok(old(self).order_exprs@, b.cols, b.logical_rows)
                        &&& match opt {
                            Option::None => {
                                &&& b.is_drained == Result::<DrainState, ExecError>::Ok(
                                    DrainState::Remain,
                                )
                                &&& final(self).heap.pushed_log() == all
                            },
                            Option::Some(rows) => {
                                &&& b.is_drained == Result::<DrainState, ExecError>::Ok(
                                    DrainState::Drain,
                                )
                                &&& top_n_output(
                                    old(self).order_metas@,
                                    all,
                                    old(self).n as int,
                                    rows@.map_values(|hr: HeapRow| row_view(hr)),
                                )
                                &&& forall|i: int|
                                    0 <= i < rows@.len() ==> row_wf(
                                        #[trigger] rows@[i],
                                        old(self).order_metas@,
                                        old(self).src.schema_spec(),
                                    )
                            },
                        }
                    },
                }
            }),
    {
        broadcast use vstd::seq_lib::group_to_multiset_ensures;

        let ghost b = self.src.batches()[0];
        let ghost exprs = self.order_exprs@;
        let ghost old_log = self.heap.pushed_log();
        let src_result = self.src.next_batch(BATCH_MAX_SIZE);
        self.warnings = src_result.warnings;
        let src_is_drained = match src_result.is_drained {
            Result::Ok(d) => d,
            Result::Err(e) => {
                return Result::Err(e);
            },
        };
        if src_result.logical_rows.len() != 0 {
            proof {
                let schema = self.src.schema_spec();
                assert(b.wf(schema));
                assert(src_result@ == b);
                assert forall|c: int|
                    0 <= c < src_result.physical_columns@.len() implies (
                #[trigger] src_result.physical_columns@[c])@.kind() == schema[c].kind by {
                    assert(b.cols[c] == src_result.physical_columns@[c]@);
                }
                assert forall|c: int, i: int|
                    0 <= c < src_result.physical_columns@.len() && 0 <= i
                        < src_result.logical_rows@.len() implies (
                #[trigger] src_result.logical_rows@[i]) < (
                #[trigger] src_result.physical_columns@[c])@.len() by {
                    assert(b.cols[c] == src_result.physical_columns@[c]@);
                    assert(b.cols[c].len() == b.phys_len());
                    assert(b.logical_rows[i] < b.phys_len());
                }
            }
            match self.process_batch_input(src_result.physical_columns, src_result.logical_rows) {
                Result::Ok(()) => {},
                Result::Err(e) => {
                    return Result::Err(e);
                },
            }
        } else {
            proof {
                assert(rows_of(exprs, b.cols, b.logical_rows) =~= Seq::<RowV>::empty());
                assert(old_log + rows_of(exprs, b.cols, b.logical_rows) =~= old_log);
            }
        }
        if src_is_drained.stop() {
            let rows = self.heap.take_all();
            Result::Ok(Option::Some(rows))
        } else {
            Result::Ok(Option::None)
        }
    }

    /// Hands out the accumulated warnings, leaving none behind.
    fn take_warnings(&mut self) -> (r: EvalWarnings)
        ensures
            r == old(self).warnings,
            *final(self) == (BatchTopNExecutor {
                warnings: EvalWarnings { warning_cnt: 0 },
                ..*old(self)
            }),
    {
        let w = self.warnings;
        self.warnings = EvalWarnings { warning_cnt: 0 };
        w
    }

    /// One pull of the Top-N state machine. Must not be called again once a
    /// batch whose status is `Drain` (or an error) has been returned.
    ///
    /// A zero limit returns a drained empty batch at once and never touches
    /// the source. A limit above the configured paging size forwards the
    /// call verbatim to the source — the paging bypass, under which the
    /// operator deliberately does not bound or order anything. Otherwise one
    /// batch is pulled and folded into the heap; at end of stream the sorted
    /// Top-N survivors come back in one drained batch, and before that every
    /// call returns an empty batch with the `Remain` status.
    #[verifier::rlimit(60)]
    #[verifier::spinoff_prover]
    pub fn next_batch(&mut self, scan_rows: usize) -> (r: BatchExecuteResult)
        requires
            old(self).wf(),
            !old(self).ended(),
            old(self).limit() > 0 && old(self).bypass() ==> old(self).source().batches().len()
                > 0,
            old(self).limit() > 0 && !old(self).bypass() ==> stream_wf(
                old(self).source().batches(),
                old(self).source().schema_spec(),
            ),
        ensures
            final(self).wf(),
            final(self).keys() == old(self).keys(),
            final(self).exprs() == old(self).exprs(),
            final(self).limit() == old(self).limit(),
            final(self).paging() == old(self).paging(),
            // zero limit: an immediate drained empty result, the source
            // never pulled
            old(self).limit() == 0 ==> {
                &&& r@.cols.len() == 0
                &&& r@.logical_rows.len() == 0
                &&& r@.warnings.warning_cnt == 0
                &&& r@.is_drained == Result::<DrainState, ExecError>::Ok(DrainState::Drain)
                &&& final(self).ended()
                &&& final(self).source() == old(self).source()
                &&& final(self).seen() == old(self).seen()
            },
            // paging bypass: a verbatim pass-through of the source
            old(self).limit() > 0 && old(self).bypass() ==> {
                &&& r@ == old(self).source().batches()[0]
                &&& final(self).source().batches() == old(self).source().batches().drop_first()
                &&& final(self).source().schema_spec() == old(self).source().schema_spec()
                &&& final(self).ended() == old(self).ended()
                &&& final(self).seen() == old(self).seen()
            },
            // the Top-N path proper
            old(self).limit() > 0 && !old(self).bypass() ==> {
                let b = old(self).source().batches()[0];
                let all = old(self).seen() + rows_of(old(self).exprs(), b.cols, b.logical_rows);
                &&& final(self).source().batches() == old(self).source().batches().drop_first()
                &&& final(self).source().schema_spec() == old(self).source().schema_spec()
                &&& r@.warnings == b.warnings
                &&& match b.is_drained {
                    Result::Err(ue) => {
                        &&& r@.cols.len() == 0
                        &&& r@.logical_rows.len() == 0
                        &&& r@.is_drained == Result::<DrainState, ExecError>::Err(ue)
                        &&& final(self).ended()
                        &&& final(self).seen() == old(self).seen()
                    },
                    Result::Ok(ds) => {
                        &&& (!keys_ok(old(self).exprs(), b.cols, b.logical_rows) ==> {
                            &&& r@.cols.len() == 0
                            &&& r@.logical_rows.len() == 0
                            &&& r@.is_drained == Result::<DrainState, ExecError>::Err(
                                ExecError::Evaluation,
                            )
                            &&& final(self).ended()
                            &&& final(self).seen() == old(self).seen()
                        })
                        &&& (keys_ok(old(self).exprs(), b.cols, b.logical_rows) && ds
                            == DrainState::Remain ==> {
                            &&& r@.cols.len() == 0
                            &&& r@.logical_rows.len() == 0
                            &&& r@.is_drained == Result::<DrainState, ExecError>::Ok(
                                DrainState::Remain,
                            )
                            &&& !final(self).ended()
                            &&& final(self).seen() == all
                        })
                        &&& (keys_ok(old(self).exprs(), b.cols, b.logical_rows) && ds
                            == DrainState::Drain ==> {
                            &&& final(self).ended()
                            &&& r@.is_drained == Result::<DrainState, ExecError>::Ok(
                                DrainState::Drain,
                            )
                            &&& exists|s: Seq<RowV>|
                                #[trigger] top_n_output(
                                    old(self).keys(),
                                    all,
                                    old(self).limit(),
                                    s,
                                ) && batch_presents(
                                    r@,
                                    old(self).source().schema_spec(),
                                    s,
                                )
                        })
                    },
                }
            },
    {
        if self.n == 0 {
            self.is_ended = true;
            return BatchExecuteResult::empty_with(
                EvalWarnings { warning_cnt: 0 },
                Result::Ok(DrainState::Drain),
            );
        }
        let bypass = match self.config.paging_size {
            Option::Some(p) => (self.n as u64) > p,
            Option::None => false,
        };
        if bypass {
            return self.src.next_batch(scan_rows);
        }
        let ghost b = self.src.batches()[0];
        let result = self.handle_next_batch();
        match result {
            Result::Err(e) => {
                self.is_ended = true;
                let w = self.take_warnings();
                BatchExecuteResult::empty_with(w, Result::Err(e))
            },
            Result::Ok(Option::Some(rows)) => {
                self.is_ended = true;
                let cols = build_output(self.src.schema(), &rows, Ghost(self.order_metas@));
                let logical = identity_rows(rows.len());
                let w = self.take_warnings();
                let out = BatchExecuteResult {
                    physical_columns: cols,
                    logical_rows: logical,
                    warnings: w,
                    is_drained: Result::Ok(DrainState::Drain),
                };
                proof {
                    let s = rows@.map_values(|hr: HeapRow| row_view(hr));
                    let schema = old(self).source().schema_spec();
                    let all = old(self).seen() + rows_of(
                        old(self).exprs(),
                        b.cols,
                        b.logical_rows,
                    );
                    assert(top_n_output(old(self).keys(), all, old(self).limit(), s));
                    assert(batch_presents(out@, schema, s)) by {
                        assert forall|c: int| 0 <= c < schema.len() implies (
                        #[trigger] out@.cols[c]).kind() == schema[c].kind && out@.cols[c].len()
                            == s.len() by {
                            assert(out@.cols[c] == cols@[c]@);
                        }
                        assert forall|c: int, i: int|
                            #![trigger out@.cols[c].cell(i)]
                            0 <= c < schema.len() && 0 <= i < s.len() implies out@.cols[c].cell(i)
                            == s[i].data[c] by {
                            assert(out@.cols[c] == cols@[c]@);
                            assert(s[i] == row_view(rows@[i]));
                        }
                    }
                }
                out
            },
            Result::Ok(Option::None) => {
                let w = self.take_warnings();
                BatchExecuteResult::empty_with(w, Result::Ok(DrainState::Remain))
            },
        }
    }

    /// The output schema: identical to the source's, row for row — this
    /// operator reorders and truncates rows, never their shape.
    pub fn schema(&self) -> (r: &Vec<ColType>)
        ensures
            r@ == self.source().schema_spec(),
    {
        self.src.schema()
    }

    /// Pure pass-through to the source.
    pub fn collect_exec_stats(&mut self, dest: &mut ExecuteStats)
        ensures
            old(self).wf() ==> final(self).wf(),
            final(self).source().batches() == old(self).source().batches(),
            final(self).source().schema_spec() == old(self).source().schema_spec(),
            final(self).keys() == old(self).keys(),
            final(self).exprs() == old(self).exprs(),
            final(self).limit() == old(self).limit(),
            final(self).paging() == old(self).paging(),
            final(self).ended() == old(self).ended(),
            final(self).seen() == old(self).seen(),
    {
        self.src.collect_exec_stats(dest);
    }

    /// Pure pass-through to the source.
    pub fn collect_storage_stats(&mut self, dest: &mut Src::StorageStats)
        ensures
            old(self).wf() ==> final(self).wf(),
            final(self).source().batches() == old(self).source().batches(),
            final(self).source().schema_spec() == old(self).source().schema_spec(),
            final(self).keys() == old(self).keys(),
            final(self).exprs() == old(self).exprs(),
            final(self).limit() == old(self).limit(),
            final(self).paging() == old(self).paging(),
            final(self).ended() == old(self).ended(),
            final(self).seen() == old(self).seen(),
    {
        self.src.collect_storage_stats(dest);
    }

    /// Pure pass-through to the source.
    pub fn take_scanned_range(&mut self) -> (r: IntervalRange)
        ensures
            old(self).wf() ==> final(self).wf(),
            final(self).source().batches() == old(self).source().batches(),
            final(self).source().schema_spec() == old(self).source().schema_spec(),
            final(self).keys() == old(self).keys(),
            final(self).exprs() == old(self).exprs(),
            final(self).limit() == old(self).limit(),
            final(self).paging() == old(self).paging(),
            final(self).ended() == old(self).ended(),
            final(self).seen() == old(self).seen(),
    {
        self.src.take_scanned_range()
    }

    /// Pure pass-through to the source.
    pub fn can_be_cached(&self) -> (r: bool)
        ensures
            r == self.source().cacheable(),
    {
        self.src.can_be_cached()
    }

    /// Builds the operator from expressions already known to fit the
    /// source's schema, with a default configuration.
    pub fn new_for_test(src: Src, order_exprs: Vec<OrderExpr>, order_is_desc: Vec<bool>, n: usize)
        -> (r: BatchTopNExecutor<Src>)
        requires
            order_exprs@.len() == order_is_desc@.len(),
            forall|k: int|
                0 <= k < order_exprs@.len() ==> expr_valid(
                    #[trigger] order_exprs@[k],
                    src.schema_spec(),
                ),
        ensures
            r.wf(),
            !r.ended(),
            r.limit() == n as int,
            r.paging() is None,
            r.source() == src,
            r.seen() == Seq::<RowV>::empty(),
            r.exprs() == order_exprs@,
            r.keys().len() == order_exprs@.len(),
            forall|k: int|
                0 <= k < order_exprs@.len() ==> (#[trigger] r.keys()[k]).ty == expr_ret_type(
                    order_exprs@[k],
                    src.schema_spec(),
                ) && r.keys()[k].desc == order_is_desc@[k],
    {
        Self::assemble(
            Arc::new(EvalConfig { paging_size: Option::None }),
            src,
            order_exprs,
            order_is_desc,
            n,
        )
    }

    /// Builds the operator from expressions already known to fit the
    /// source's schema, under the given configuration.
    pub fn new_for_test_with_config(
        config: Arc<EvalConfig>,
        src: Src,
        order_exprs: Vec<OrderExpr>,
        order_is_desc: Vec<bool>,
        n: usize,
    ) -> (r: BatchTopNExecutor<Src>)
        requires
            order_exprs@.len() == order_is_desc@.len(),
            forall|k: int|
                0 <= k < order_exprs@.len() ==> expr_valid(
                    #[trigger] order_exprs@[k],
                    src.schema_spec(),
                ),
        ensures
            r.wf(),
            !r.ended(),
            r.limit() == n as int,
            r.paging() == config.paging_size,
            r.source() == src,
            r.seen() == Seq::<RowV>::empty(),
            r.exprs() == order_exprs@,
            r.keys().len() == order_exprs@.len(),
            forall|k: int|
                0 <= k < order_exprs@.len() ==> (#[trigger] r.keys()[k]).ty == expr_ret_type(
                    order_exprs@[k],
                    src.schema_spec(),
                ) && r.keys()[k].desc == order_is_desc@[k],
    {
        Self::assemble(config, src, order_exprs, order_is_desc, n)
    }
}

/// Materializes the output columns: one column per schema entry, holding the
/// given rows' data cells in row order.
fn build_output(
    schema: &Vec<ColType>,
    rows: &Vec<HeapRow>,
    Ghost(metas): Ghost<Seq<KeyMeta>>,
) -> (out: Vec<Column>)
    requires
        forall|i: int| 0 <= i < rows@.len() ==> row_wf(#[trigger] rows@[i], metas, schema@),
    ensures
        out@.len() == schema@.len(),
        forall|c: int|
            0 <= c < schema@.len() ==> (#[trigger] out@[c])@.kind() == schema@[c].kind && out@[
                c
            ]@.len() == rows@.len(),
        forall|c: int, i: int|
            #![trigger out@[c]@.cell(i)]
            0 <= c < schema@.len() && 0 <= i < rows@.len() ==> out@[c]@.cell(i) == row_view(
                rows@[i],
            ).data[c],
{
    let mut out: Vec<Column> = Vec::new();
    let mut c: usize = 0;
    while c < schema.len()
        invariant
            c <= schema@.len(),
            forall|i: int| 0 <= i < rows@.len() ==> row_wf(#[trigger] rows@[i], metas, schema@),
            out@.len() == c,
            forall|q: int|
                0 <= q < c ==> (#[trigger] out@[q])@.kind() == schema@[q].kind && out@[q]@.len()
                    == rows@.len(),
            forall|q: int, i: int|
                #![trigger out@[q]@.cell(i)]
                0 <= q < c && 0 <= i < rows@.len() ==> out@[q]@.cell(i) == row_view(
                    rows@[i],
                ).data[q],
        decreases schema@.len() - c,
    {
        let mut col = Column::empty(schema[c].kind);
        let mut i: usize = 0;
        while i < rows.len()
            invariant
                i <= rows@.len(),
                c < schema@.len(),
                forall|q: int| 0 <= q < rows@.len() ==> row_wf(#[trigger] rows@[q], metas, schema@),
                col@.kind() == schema@[c as int].kind,
                col@.len() == i,
                forall|q: int|
                    0 <= q < i ==> col@.cell(q) == row_view(#[trigger] rows@[q]).data[c as int],
            decreases rows@.len() - i,
        {
            let r = &rows[i];
            let phys = r.source.logical_rows[r.logical_row_index];
            let v = r.source.physical_columns[c].cell(phys);
            proof {
                assert(v@ == row_view(rows@[i as int]).data[c as int]);
                assert(v@ is Null || crate::types::value_kind(v@) == col@.kind()) by {
                    let cv = r.source.physical_columns@[c as int]@;
                    assert(v@ == cv.cell(phys as int));
                }
            }
            col.push_cell(v);
            i = i + 1;
        }
        out.push(col);
        c = c + 1;
    }
    out
}

/// The identity visible-row order: `[0, 1, ..., len - 1]`.
fn identity_rows(len: usize) -> (r: Vec<usize>)
    ensures
        r@ == Seq::new(len as nat, |i: int| i as usize),
{
    let mut r: Vec<usize> = Vec::new();
    let mut i: usize = 0;
    while i < len
        invariant
            i <= len,
            r@.len() == i,
            forall|q: int| 0 <= q < i ==> r@[q] == q as usize,
        decreases len - i,
    {
        r.push(i);
        i = i + 1;
    }
    proof {
        assert(r@ =~= Seq::new(len as nat, |q: int| q as usize));
    }
    r
}

/// Structural copy of a key metadata list.
fn clone_metas(metas: &Vec<KeyMeta>) -> (r: Vec<KeyMeta>)
    ensures
        r@ == metas@,
{
    let mut t: Vec<KeyMeta> = Vec::new();
    let mut i: usize = 0;
    while i < metas.len()
        invariant
            i <= metas@.len(),
            t@ == metas@.take(i as int),
        decreases metas@.len() - i,
    {
        t.push(metas[i]);
        proof {
            assert(metas@.take(i + 1) == metas@.take(i as int).push(metas@[i as int]));
        }
        i = i + 1;
    }
    proof {
        assert(metas@.take(metas@.len() as int) == metas@);
    }
    t
}

} // verus!
