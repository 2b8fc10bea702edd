//! The bounded, worst-first Top-N selection structure.
//!
//! A retained batch is pinned once behind a reference-counted, immutable
//! container holding its physical columns, its visible row order, and the
//! evaluated sort-key columns. Each candidate row is a handle to that
//! container plus its logical row index, so retaining a row never copies row
//! data. The heap keeps at most `n` rows; pushing into a full heap either
//! evicts the currently worst row or discards the candidate, so every row it
//! ever discards compares no better than every row it keeps.

use vstd::prelude::*;

use std::rc::Rc;

use crate::compare::row_cmp;
use crate::compare::signed_key_cmp;
use crate::compare::signed_key_cmp_exec;
use crate::compare::lemma_row_cmp_flip;
use crate::compare::lemma_row_cmp_range;
use crate::compare::lemma_row_cmp_trans;
use crate::compare::KeyMeta;
use crate::types::ColType;
use crate::types::Column;
use crate::types::SortValue;
use crate::types::SortValueV;
use vstd::multiset::Multiset;

verus! {

/// The shared, immutable container pinning one retained batch: its decoded
/// physical columns, its visible row order, and the sort-key columns the
/// ORDER BY expressions evaluated to (one per key, aligned with
/// `logical_rows`).
pub struct PinnedBatch {
    pub physical_columns: Vec<Column>,
    pub logical_rows: Vec<usize>,
    pub sort_key_columns: Vec<Vec<SortValue>>,
}

/// One candidate output row: a shared handle to its pinned batch plus the
/// row's position among that batch's logical rows.
pub struct HeapRow {
    pub source: Rc<PinnedBatch>,
    pub logical_row_index: usize,
}

/// The mathematical value of a candidate row: its evaluated sort keys and
/// the data cells of its output columns.
#[verifier::ext_equal]
pub struct RowV {
    pub keys: Seq<SortValueV>,
    pub data: Seq<SortValueV>,
}

/// The evaluated sort keys of a row, one per ORDER BY key.
pub open spec fn row_keys(r: HeapRow) -> Seq<SortValueV> {
    Seq::new(
        r.source.sort_key_columns@.len(),
        |k: int| r.source.sort_key_columns@[k]@[r.logical_row_index as int]@,
    )
}

/// The data cells of a row, one per output column.
pub open spec fn row_data(r: HeapRow) -> Seq<SortValueV> {
    Seq::new(
        r.source.physical_columns@.len(),
        |c: int|
            r.source.physical_columns@[c]@.cell(
                r.source.logical_rows@[r.logical_row_index as int] as int,
            ),
    )
}

/// The mathematical value of a row.
pub open spec fn row_view(r: HeapRow) -> RowV {
    RowV { keys: row_keys(r), data: row_data(r) }
}

/// A row handle is well formed for `metas` and `schema` when its index and
/// its batch's shapes line up: one sort-key column per key, all aligned with
/// the logical rows; one physical column per schema entry, of the schema's
/// kind and long enough for the row's physical index.
pub open spec fn row_wf(r: HeapRow, metas: Seq<KeyMeta>, schema: Seq<ColType>) -> bool {
    &&& r.source.sort_key_columns@.len() == metas.len()
    &&& r.logical_row_index < r.source.logical_rows@.len()
    &&& forall|k: int|
        0 <= k < metas.len() ==> (#[trigger] r.source.sort_key_columns@[k])@.len()
            == r.source.logical_rows@.len()
    &&& r.source.physical_columns@.len() == schema.len()
    &&& forall|c: int|
        0 <= c < schema.len() ==> (#[trigger] r.source.physical_columns@[c])@.kind()
            == schema[c].kind
    &&& forall|c: int|
        0 <= c < schema.len() ==> r.source.logical_rows@[r.logical_row_index as int] < (
        #[trigger] r.source.physical_columns@[c])@.len()
}

/// Relies on `std::rc::Rc::clone`: the clone shares the same allocation, so
/// it carries the same value.
#[verifier::external_body]
pub(crate) fn rc_clone(rc: &Rc<PinnedBatch>) -> (r: Rc<PinnedBatch>)
    ensures
        r == *rc,
{
    Rc::clone(rc)
}

/// Unfolding step for the executable row comparison: a tied key passes the
/// decision to the next key.
proof fn lemma_row_cmp_skip_step(
    metas: Seq<KeyMeta>,
    a: Seq<SortValueV>,
    b: Seq<SortValueV>,
    k: int,
)
    requires
        0 <= k < metas.len(),
        a.len() == metas.len(),
        b.len() == metas.len(),
        signed_key_cmp(metas[k], a[k], b[k]) == 0,
    ensures
        row_cmp(metas.skip(k), a.skip(k), b.skip(k)) == row_cmp(
            metas.skip(k + 1),
            a.skip(k + 1),
            b.skip(k + 1),
        ),
{
    assert(metas.skip(k)[0] == metas[k]);
    assert(a.skip(k)[0] == a[k]);
    assert(b.skip(k)[0] == b[k]);
    assert(metas.skip(k).drop_first() =~= metas.skip(k + 1));
    assert(a.skip(k).drop_first() =~= a.skip(k + 1));
    assert(b.skip(k).drop_first() =~= b.skip(k + 1));
}

/// Three-way comparison of two candidate rows under the declared keys: the
/// better-first order of the final output.
pub fn cmp_heap_rows(metas: &Vec<KeyMeta>, a: &HeapRow, b: &HeapRow) -> (r: i32)
    requires
        a.source.sort_key_columns@.len() == metas@.len(),
        b.source.sort_key_columns@.len() == metas@.len(),
        a.logical_row_index < a.source.logical_rows@.len(),
        b.logical_row_index < b.source.logical_rows@.len(),
        forall|k: int|
            0 <= k < metas@.len() ==> (#[trigger] a.source.sort_key_columns@[k])@.len()
                == a.source.logical_rows@.len(),
        forall|k: int|
            0 <= k < metas@.len() ==> (#[trigger] b.source.sort_key_columns@[k])@.len()
                == b.source.logical_rows@.len(),
    ensures
        r as int == row_cmp(metas@, row_keys(*a), row_keys(*b)),
{
    let ghost ka = row_keys(*a);
    let ghost kb = row_keys(*b);
    proof {
        assert(metas@.skip(0) =~= metas@);
        assert(ka.skip(0) =~= ka);
        assert(kb.skip(0) =~= kb);
    }
    let mut k: usize = 0;
    while k < metas.len()
        invariant
            k <= metas@.len(),
            ka.len() == metas@.len(),
            kb.len() == metas@.len(),
            a.source.sort_key_columns@.len() == metas@.len(),
            b.source.sort_key_columns@.len() == metas@.len(),
            a.logical_row_index < a.source.logical_rows@.len(),
            b.logical_row_index < b.source.logical_rows@.len(),
            forall|q: int|
                0 <= q < metas@.len() ==> (#[trigger] a.source.sort_key_columns@[q])@.len()
                    == a.source.logical_rows@.len(),
            forall|q: int|
                0 <= q < metas@.len() ==> (#[trigger] b.source.sort_key_columns@[q])@.len()
                    == b.source.logical_rows@.len(),
            ka == row_keys(*a),
            kb == row_keys(*b),
            row_cmp(metas@, ka, kb) == row_cmp(
                metas@.skip(k as int),
                ka.skip(k as int),
                kb.skip(k as int),
            ),
        decreases metas@.len() - k,
    {
        let va = &a.source.sort_key_columns[k][a.logical_row_index];
        let vb = &b.source.sort_key_columns[k][b.logical_row_index];
        proof {
            assert(va@ == ka[k as int]);
            assert(vb@ == kb[k as int]);
            assert(metas@.skip(k as int)[0] == metas@[k as int]);
            assert(ka.skip(k as int)[0] == ka[k as int]);
            assert(kb.skip(k as int)[0] == kb[k as int]);
        }
        let c = signed_key_cmp_exec(&metas[k], va, vb);
        if c != 0 {
            return c;
        }
        proof {
            lemma_row_cmp_skip_step(metas@, ka, kb, k as int);
        }
        k = k + 1;
    }
    proof {
        assert(metas@.skip(k as int).len() == 0);
    }
    0
}

/// Adjacent-pair sortedness in the better-first order: no row sorts strictly
/// after its successor.
pub open spec fn sorted_rows(metas: Seq<KeyMeta>, s: Seq<RowV>) -> bool {
    forall|i: int|
        0 <= i && i + 1 < s.len() ==> row_cmp(metas, (#[trigger] s[i]).keys, s[i + 1].keys) <= 0
}

/// Inserts a row into a sorted vector, keeping it sorted.
fn insert_sorted(
    metas: &Vec<KeyMeta>,
    out: &mut Vec<HeapRow>,
    row: HeapRow,
    Ghost(schema): Ghost<Seq<ColType>>,
)
    requires
        row_wf(row, metas@, schema),
        forall|i: int| 0 <= i < old(out)@.len() ==> row_wf(#[trigger] old(out)@[i], metas@, schema),
        sorted_rows(metas@, old(out)@.map_values(|r: HeapRow| row_view(r))),
    ensures
        final(out)@.len() == old(out)@.len() + 1,
        forall|i: int| 0 <= i < final(out)@.len() ==> row_wf(#[trigger] final(out)@[i], metas@, schema),
        sorted_rows(metas@, final(out)@.map_values(|r: HeapRow| row_view(r))),
        final(out)@.map_values(|r: HeapRow| row_view(r)).to_multiset() == old(out)@.map_values(
            |r: HeapRow| row_view(r),
        ).to_multiset().insert(row_view(row)),
{
    broadcast use vstd::seq_lib::group_to_multiset_ensures;
    broadcast use vstd::seq_lib::to_multiset_insert;
    broadcast use vstd::multiset::group_multiset_axioms;

    let ghost f = |r: HeapRow| row_view(r);
    let ghost rv = row_view(row);
    let ghost old_views = out@.map_values(f);
    let ghost m = metas@;
    let mut p: usize = 0;
    while p < out.len()
        invariant
            p <= out@.len(),
            out@ == old(out)@,
            m == metas@,
            row_wf(row, metas@, schema),
            forall|i: int| 0 <= i < out@.len() ==> row_wf(#[trigger] out@[i], metas@, schema),
            forall|q: int|
                0 <= q < p ==> row_cmp(m, row_keys(#[trigger] out@[q]), row_keys(row)) <= 0,
        ensures
            p <= out@.len(),
            out@ == old(out)@,
            forall|q: int|
                0 <= q < p ==> row_cmp(m, row_keys(#[trigger] out@[q]), row_keys(row)) <= 0,
            p < out@.len() ==> row_cmp(m, row_keys(out@[p as int]), row_keys(row)) > 0,
        decreases out@.len() - p,
    {
        let c = cmp_heap_rows(metas, &out[p], &row);
        if c > 0 {
            break ;
        }
        p = p + 1;
    }
    proof {
        if p < out@.len() {
            lemma_row_cmp_flip(m, row_keys(out@[p as int]), row_keys(row));
        }
    }
    let ghost pre = out@;
    out.insert(p, row);
    proof {
        let new_views = out@.map_values(f);
        assert(out@ == pre.insert(p as int, row));
        assert(new_views =~= old_views.insert(p as int, rv)) by {
            assert forall|i: int| 0 <= i < new_views.len() implies new_views[i] == old_views.insert(
                p as int,
                rv,
            )[i] by {
                if i < p {
                    assert(out@[i] == pre[i]);
                } else if i == p {
                    assert(out@[i] == row);
                } else {
                    assert(out@[i] == pre[i - 1]);
                }
            }
        }
        assert forall|i: int| 0 <= i < out@.len() implies row_wf(
            #[trigger] out@[i],
            metas@,
            schema,
        ) by {
            if i < p {
                assert(out@[i] == pre[i]);
            } else if i > p {
                assert(out@[i] == pre[i - 1]);
            }
        }
        assert forall|i: int| 0 <= i && i + 1 < new_views.len() implies row_cmp(
            m,
            (#[trigger] new_views[i]).keys,
            new_views[i + 1].keys,
        ) <= 0 by {
            assert(new_views == old_views.insert(p as int, rv));
            if i + 1 < p {
                assert(new_views[i] == old_views[i] && new_views[i + 1] == old_views[i + 1]);
            } else if i + 1 == p {
                assert(new_views[i] == old_views[i] && new_views[i + 1] == rv);
                assert(old_views[i] == row_view(pre[i]));
                assert(row_cmp(m, row_keys(pre[i]), row_keys(row)) <= 0);
            } else if i == p {
                assert(new_views[i] == rv && new_views[i + 1] == old_views[i]);
                assert(old_views[i] == row_view(pre[i]));
                assert(row_cmp(m, row_keys(row), row_keys(pre[i])) <= 0);
            } else {
                assert(new_views[i] == old_views[i - 1] && new_views[i + 1] == old_views[i]);
            }
        }
    }
}

/// The bounded, worst-first Top-N selection structure: at most `n` candidate
/// rows survive, and every row ever pushed and not kept compares no better
/// than any kept row.
pub struct TopNHeap {
    n: usize,
    metas: Vec<KeyMeta>,
    schema_types: Ghost<Seq<ColType>>,
    rows: Vec<HeapRow>,
    pushed: Ghost<Seq<RowV>>,
}

impl TopNHeap {
    /// The capacity `n` fixed at construction.
    pub closed spec fn capacity(self) -> int {
        self.n as int
    }

    /// The declared ORDER BY keys.
    pub closed spec fn metas_view(self) -> Seq<KeyMeta> {
        self.metas@
    }

    /// The schema the retained rows' data columns follow.
    pub closed spec fn schema_view(self) -> Seq<ColType> {
        self.schema_types@
    }

    /// Every row ever pushed, in arrival order.
    pub closed spec fn pushed_log(self) -> Seq<RowV> {
        self.pushed@
    }

    /// The currently retained rows, in internal order.
    pub closed spec fn kept(self) -> Seq<RowV> {
        self.rows@.map_values(|r: HeapRow| row_view(r))
    }

    /// The retained rows as a multiset.
    pub closed spec fn kept_ms(self) -> Multiset<RowV> {
        self.kept().to_multiset()
    }

    /// Every row ever pushed, as a multiset.
    pub closed spec fn pushed_ms(self) -> Multiset<RowV> {
        self.pushed@.to_multiset()
    }

    /// How many rows are currently retained.
    pub closed spec fn size(self) -> int {
        self.rows@.len() as int
    }

    /// The heap's invariant. The retained rows are among the pushed rows;
    /// their number is the smaller of the capacity and the number of pushes;
    /// while the heap is not full nothing has been discarded; and every
    /// discarded row compares no better than any retained row.
    pub closed spec fn wf(self) -> bool {
        &&& self.size() == if self.pushed@.len() < self.n as nat {
            self.pushed@.len() as int
        } else {
            self.n as int
        }
        &&& forall|i: int|
            0 <= i < self.rows@.len() ==> row_wf(
                #[trigger] self.rows@[i],
                self.metas@,
                self.schema_types@,
            )
        &&& forall|d: RowV| #[trigger] self.kept_ms().count(d) <= self.pushed_ms().count(d)
        &&& self.size() < self.capacity() ==> self.kept_ms() == self.pushed_ms()
        &&& forall|d: RowV, i: int|
            #![trigger self.pushed_ms().count(d), self.rows@[i]]
            self.pushed_ms().count(d) > self.kept_ms().count(d) && 0 <= i < self.rows@.len()
                ==> row_cmp(self.metas@, row_view(self.rows@[i]).keys, d.keys) <= 0
    }

    /// All retained rows are well formed for the declared keys and schema.
    pub closed spec fn rows_wf(self) -> bool {
        forall|i: int|
            0 <= i < self.rows@.len() ==> row_wf(
                #[trigger] self.rows@[i],
                self.metas@,
                self.schema_types@,
            )
    }

    /// The heap never retains more rows than its capacity: at every point
    /// its size is the smaller of the capacity and the number of rows ever
    /// pushed.
    pub proof fn lemma_size_bounded(self)
        requires
            self.wf(),
        ensures
            self.size() <= self.capacity(),
            self.size() == if self.pushed_log().len() < self.capacity() {
                self.pushed_log().len() as int
            } else {
                self.capacity()
            },
    {
    }

    /// An empty heap of capacity `n` for the given keys and schema.
    pub fn new(n: usize, metas: Vec<KeyMeta>, Ghost(schema): Ghost<Seq<ColType>>) -> (r: TopNHeap)
        ensures
            r.wf(),
            r.capacity() == n,
            r.metas_view() == metas@,
            r.schema_view() == schema,
            r.pushed_log() == Seq::<RowV>::empty(),
            r.size() == 0,
    {
        let r = TopNHeap {
            n,
            metas,
            schema_types: Ghost(schema),
            rows: Vec::new(),
            pushed: Ghost(Seq::empty()),
        };
        proof {
            broadcast use vstd::seq_lib::group_to_multiset_ensures;
            broadcast use vstd::multiset::group_multiset_axioms;

            assert(r.kept() =~= Seq::<RowV>::empty());
            assert(r.kept_ms() =~= Multiset::<RowV>::empty());
            assert(r.pushed_ms() =~= Multiset::<RowV>::empty());
        }
        r
    }

    /// The position of the currently worst retained row: no retained row
    /// compares after it.
    fn worst_index(&self) -> (w: usize)
        requires
            self.rows@.len() > 0,
            self.rows_wf(),
        ensures
            w < self.rows@.len(),
            forall|j: int|
                0 <= j < self.rows@.len() ==> row_cmp(
                    self.metas@,
                    row_keys(#[trigger] self.rows@[j]),
                    row_keys(self.rows@[w as int]),
                ) <= 0,
    {
        let mut w: usize = 0;
        let mut j: usize = 1;
        proof {
            lemma_row_cmp_flip(self.metas@, row_keys(self.rows@[0]), row_keys(self.rows@[0]));
        }
        while j < self.rows.len()
            invariant
                w < j,
                j <= self.rows@.len(),
                self.rows_wf(),
                forall|q: int|
                    0 <= q < j ==> row_cmp(
                        self.metas@,
                        row_keys(#[trigger] self.rows@[q]),
                        row_keys(self.rows@[w as int]),
                    ) <= 0,
            decreases self.rows@.len() - j,
        {
            let c = cmp_heap_rows(&self.metas, &self.rows[j], &self.rows[w]);
            if c > 0 {
                proof {
                    let m = self.metas@;
                    lemma_row_cmp_flip(m, row_keys(self.rows@[j as int]), row_keys(self.rows@[w as int]));
                    assert forall|q: int| 0 <= q < j + 1 implies row_cmp(
                        m,
                        row_keys(#[trigger] self.rows@[q]),
                        row_keys(self.rows@[j as int]),
                    ) <= 0 by {
                        if q < j {
                            lemma_row_cmp_trans(
                                m,
                                row_keys(self.rows@[q]),
                                row_keys(self.rows@[w as int]),
                                row_keys(self.rows@[j as int]),
                            );
                        } else {
                            lemma_row_cmp_flip(
                                m,
                                row_keys(self.rows@[j as int]),
                                row_keys(self.rows@[j as int]),
                            );
                        }
                    }
                }
                w = j;
            } else {
                proof {
                    assert(row_cmp(
                        self.metas@,
                        row_keys(self.rows@[j as int]),
                        row_keys(self.rows@[w as int]),
                    ) <= 0);
                }
            }
            j = j + 1;
        }
        w
    }

    /// Insert-or-evict. While the heap is short of its capacity the row is
    /// retained unconditionally; once full, the candidate replaces the worst
    /// retained row when it compares strictly before it and is discarded
    /// otherwise.
    pub fn add_row(&mut self, row: HeapRow)
        requires
            old(self).wf(),
            row_wf(row, old(self).metas_view(), old(self).schema_view()),
        ensures
            final(self).wf(),
            final(self).capacity() == old(self).capacity(),
            final(self).metas_view() == old(self).metas_view(),
            final(self).schema_view() == old(self).schema_view(),
            final(self).pushed_log() == old(self).pushed_log().push(row_view(row)),
    {
        broadcast use vstd::seq_lib::group_to_multiset_ensures;
        broadcast use vstd::multiset::group_multiset_axioms;

        let ghost rv = row_view(row);
        let ghost old_kept = self.kept();
        let ghost old_kept_ms = self.kept_ms();
        let ghost old_pushed_ms = self.pushed_ms();
        let ghost m = self.metas@;
        self.pushed = Ghost(self.pushed@.push(rv));
        proof {
            assert(self.pushed_ms() == old_pushed_ms.insert(rv));
        }
        if self.rows.len() < self.n {
            let ghost old_rows = self.rows@;
            self.rows.push(row);
            proof {
                assert(self.kept() =~= old_kept.push(rv));
                assert(self.kept_ms() == old_kept_ms.insert(rv));
                assert(old_kept_ms == old_pushed_ms);
                assert(self.kept_ms() == self.pushed_ms());
                assert forall|i: int|
                    0 <= i < self.rows@.len() implies row_wf(
                    #[trigger] self.rows@[i],
                    self.metas@,
                    self.schema_types@,
                ) by {
                    if i < old_rows.len() {
                        assert(self.rows@[i] == old_rows[i]);
                    }
                }
            }
        } else if self.n == 0 {
            // capacity zero: every candidate is discarded at once
            proof {
                assert(self.kept() =~= old_kept);
                assert(self.rows@.len() == 0);
            }
        } else {
            let wi = self.worst_index();
            let ghost worst_v = row_view(self.rows@[wi as int]);
            let c = cmp_heap_rows(&self.metas, &row, &self.rows[wi]);
            if c < 0 {
                // the candidate beats the worst retained row: evict and keep
                let ghost old_rows = self.rows@;
                self.rows[wi] = row;
                proof {
                    assert(self.rows@ == old_rows.update(wi as int, row));
                    assert forall|i: int|
                        0 <= i < self.rows@.len() implies row_wf(
                        #[trigger] self.rows@[i],
                        self.metas@,
                        self.schema_types@,
                    ) by {
                        if i != wi {
                            assert(self.rows@[i] == old_rows[i]);
                        }
                    }
                    assert(self.kept() =~= old_kept.update(wi as int, rv));
                    assert(old_kept[wi as int] == worst_v);
                    assert(self.kept_ms() == old_kept_ms.insert(rv).remove(worst_v));
                    // the candidate and the worst differ: a tied candidate is discarded
                    assert(rv != worst_v) by {
                        if rv == worst_v {
                            lemma_row_cmp_flip(m, rv.keys, worst_v.keys);
                        }
                    }
                    let final_ms = self.kept_ms();
                    let final_pms = self.pushed_ms();
                    assert forall|d: RowV| #[trigger] final_ms.count(d) <= final_pms.count(d) by {
                        assert(old_kept_ms.count(d) <= old_pushed_ms.count(d));
                        assert(old_kept_ms.count(worst_v) > 0);
                    }
                    assert(self.size() == self.n as int);
                    assert(old_pushed_ms.count(worst_v) >= old_kept_ms.count(worst_v));
                    // dominance: every kept row is no worse than every discarded row
                    assert forall|d: RowV, i: int|
                        #![trigger final_pms.count(d), self.rows@[i]]
                        final_pms.count(d) > final_ms.count(d) && 0 <= i
                            < self.rows@.len() implies row_cmp(
                        m,
                        row_view(self.rows@[i]).keys,
                        d.keys,
                    ) <= 0 by {
                        let rk = row_view(self.rows@[i]).keys;
                        if d == worst_v {
                            // the evicted row itself
                            if i == wi {
                                assert(rk == rv.keys);
                                lemma_row_cmp_range(m, rv.keys, worst_v.keys);
                            } else {
                                assert(self.rows@[i] == old_rows[i]);
                                assert(row_cmp(m, row_keys(old_rows[i]), row_keys(old_rows[wi as int])) <= 0);
                            }
                        } else {
                            // a row discarded earlier
                            assert(old_pushed_ms.count(d) > old_kept_ms.count(d));
                            assert(row_cmp(m, row_view(old_rows[wi as int]).keys, d.keys) <= 0);
                            if i == wi {
                                lemma_row_cmp_trans(m, rv.keys, worst_v.keys, d.keys);
                            } else {
                                assert(self.rows@[i] == old_rows[i]);
                                assert(row_cmp(m, row_view(old_rows[i]).keys, d.keys) <= 0);
                            }
                        }
                    }
                }
            } else {
                // the candidate compares no better than the worst: discard it
                proof {
                    let final_pms = self.pushed_ms();
                    assert(self.kept_ms() == old_kept_ms);
                    lemma_row_cmp_flip(m, rv.keys, worst_v.keys);
                    assert forall|d: RowV, i: int|
                        #![trigger final_pms.count(d), self.rows@[i]]
                        final_pms.count(d) > self.kept_ms().count(d) && 0 <= i
                            < self.rows@.len() implies row_cmp(
                        m,
                        row_view(self.rows@[i]).keys,
                        d.keys,
                    ) <= 0 by {
                        let rk = row_view(self.rows@[i]).keys;
                        assert(row_cmp(m, rk, worst_v.keys) <= 0);
                        if d == rv && !(old_pushed_ms.count(d) > old_kept_ms.count(d)) {
                            lemma_row_cmp_trans(m, rk, worst_v.keys, rv.keys);
                        } else {
                            assert(old_pushed_ms.count(d) > old_kept_ms.count(d));
                        }
                    }
                }
            }
        }
    }

    /// Drains the heap, returning every retained row in the better-first
    /// order. Called once, at end of stream: afterwards the heap is empty and
    /// its history is reset. The output is exactly the retained rows, sorted;
    /// its length is the smaller of the capacity and the number of rows ever
    /// pushed; and no row ever pushed and not returned compares strictly
    /// before any returned row.
    pub fn take_all(&mut self) -> (out: Vec<HeapRow>)
        requires
            old(self).wf(),
        ensures
            final(self).wf(),
            final(self).capacity() == old(self).capacity(),
            final(self).metas_view() == old(self).metas_view(),
            final(self).schema_view() == old(self).schema_view(),
            final(self).pushed_log() == Seq::<RowV>::empty(),
            final(self).size() == 0,
            out@.len() == if old(self).pushed_log().len() < old(self).capacity() {
                old(self).pushed_log().len() as int
            } else {
                old(self).capacity()
            },
            forall|i: int|
                0 <= i < out@.len() ==> row_wf(
                    #[trigger] out@[i],
                    old(self).metas_view(),
                    old(self).schema_view(),
                ),
            sorted_rows(old(self).metas_view(), out@.map_values(|r: HeapRow| row_view(r))),
            forall|d: RowV|
                out@.map_values(|r: HeapRow| row_view(r)).to_multiset().count(d) <= #[trigger] old(
                    self,
                ).pushed_log().to_multiset().count(d),
            forall|d: RowV, i: int|
                #![trigger old(self).pushed_log().to_multiset().count(d), out@[i]]
                old(self).pushed_log().to_multiset().count(d) > out@.map_values(
                    |r: HeapRow| row_view(r),
                ).to_multiset().count(d) && 0 <= i < out@.len() ==> row_cmp(
                    old(self).metas_view(),
                    row_view(out@[i]).keys,
                    d.keys,
                ) <= 0,
    {
        broadcast use vstd::seq_lib::group_to_multiset_ensures;
        broadcast use vstd::multiset::group_multiset_axioms;

        let ghost f = |r: HeapRow| row_view(r);
        let ghost m = self.metas@;
        let ghost old_kept_ms = self.kept_ms();
        let ghost old_rows_len = self.rows@.len();
        let mut out: Vec<HeapRow> = Vec::new();
        proof {
            assert(out@.map_values(f) =~= Seq::<RowV>::empty());
            assert(out@.map_values(f).to_multiset().add(self.kept_ms()) =~= old_kept_ms);
        }
        loop
            invariant
                m == self.metas@,
                self.rows_wf(),
                forall|i: int| 0 <= i < out@.len() ==> row_wf(#[trigger] out@[i], m, self.schema_types@),
                sorted_rows(m, out@.map_values(|r: HeapRow| row_view(r))),
                out@.map_values(|r: HeapRow| row_view(r)).to_multiset().add(
                    self.rows@.map_values(|r: HeapRow| row_view(r)).to_multiset(),
                ) == old_kept_ms,
                out@.len() + self.rows@.len() == old_rows_len,
                self.n == old(self).n,
                self.metas@ == old(self).metas@,
                self.schema_types@ == old(self).schema_types@,
                self.pushed@ == old(self).pushed@,
            ensures
                self.rows@.len() == 0,
                out@.len() == old_rows_len,
                m == self.metas@,
                forall|i: int| 0 <= i < out@.len() ==> row_wf(#[trigger] out@[i], m, self.schema_types@),
                sorted_rows(m, out@.map_values(|r: HeapRow| row_view(r))),
                out@.map_values(|r: HeapRow| row_view(r)).to_multiset() == old_kept_ms,
                self.n == old(self).n,
                self.metas@ == old(self).metas@,
                self.schema_types@ == old(self).schema_types@,
                self.pushed@ == old(self).pushed@,
            decreases self.rows@.len(),
        {
            broadcast use vstd::seq_lib::group_to_multiset_ensures;
            broadcast use vstd::multiset::group_multiset_axioms;

            let ghost g = |r: HeapRow| row_view(r);
            let ghost pre_rows = self.rows@;
            let popped = self.rows.pop();
            match popped {
                Option::Some(r) => {
                    proof {
                        assert(pre_rows == self.rows@.push(r));
                        assert(pre_rows.map_values(g) =~= self.rows@.map_values(g).push(
                            row_view(r),
                        ));
                        assert(pre_rows.map_values(g).to_multiset() == self.rows@.map_values(
                            g,
                        ).to_multiset().insert(row_view(r)));
                        assert(row_wf(r, m, self.schema_types@)) by {
                            assert(pre_rows[pre_rows.len() - 1] == r);
                        }
                        assert forall|i: int|
                            0 <= i < self.rows@.len() implies row_wf(
                            #[trigger] self.rows@[i],
                            self.metas@,
                            self.schema_types@,
                        ) by {
                            assert(self.rows@[i] == pre_rows[i]);
                        }
                    }
                    insert_sorted(&self.metas, &mut out, r, Ghost(self.schema_types@));
                },
                Option::None => {
                    proof {
                        assert(self.rows@.map_values(g).to_multiset() =~= Multiset::<
                            RowV,
                        >::empty());
                        assert(out@.map_values(g).to_multiset().add(Multiset::<RowV>::empty())
                            =~= out@.map_values(g).to_multiset());
                    }
                    break ;
                },
            }
        }
        let ghost final_out_ms = out@.map_values(f).to_multiset();
        self.pushed = Ghost(Seq::empty());
        proof {
            assert forall|d: RowV| #[trigger] final_out_ms.count(d) <= old(
                self,
            ).pushed_log().to_multiset().count(d) by {
                assert(old(self).kept_ms().count(d) <= old(self).pushed_ms().count(d));
            }
            assert(self.kept() =~= Seq::<RowV>::empty());
            assert(self.kept_ms() =~= Multiset::<RowV>::empty());
            assert(self.pushed_ms() =~= Multiset::<RowV>::empty());
            // the output stays dominated by the old history: each output row
            // is one of the old retained rows
            assert forall|d: RowV, i: int|
                #![trigger old(self).pushed_ms().count(d), out@[i]]
                old(self).pushed_ms().count(d) > final_out_ms.count(d) && 0 <= i
                    < out@.len() implies row_cmp(
                old(self).metas_view(),
                row_view(out@[i]).keys,
                d.keys,
            ) <= 0 by {
                let v = row_view(out@[i]);
                assert(out@.map_values(f)[i] == v);
                assert(out@.map_values(f).contains(v));
                assert(final_out_ms.count(v) > 0);
                assert(old_kept_ms.count(v) > 0);
                let old_kept_seq = old(self).kept();
                assert(old_kept_seq.contains(v));
                let j = choose|j: int| 0 <= j < old_kept_seq.len() && old_kept_seq[j] == v;
                assert(old_kept_seq[j] == row_view(old(self).rows@[j]));
                assert(row_cmp(m, row_view(old(self).rows@[j]).keys, d.keys) <= 0) by {
                    assert(old(self).pushed_ms().count(d) > old(self).kept_ms().count(d));
                }
            }
        }
        out
    }
}

} // verus!
