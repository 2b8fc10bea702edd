//! Ordering laws of the row comparator.
//!
//! The output-ordering law (adjacent output rows never sort strictly out of
//! order) and the row-count law (output size is the smaller of the limit and
//! the number of input rows) are stated directly on the contracts of
//! [`crate::heap::TopNHeap::take_all`] and
//! [`crate::executor::BatchTopNExecutor::next_batch`]; the paging-bypass law
//! is the bypass clause of the latter. This module states the laws that are
//! about the comparator itself.

use vstd::prelude::*;

use crate::compare::key_cmp;
use crate::compare::key_of;
use crate::compare::row_cmp;
use crate::compare::KeyMeta;
use crate::types::ColType;
use crate::types::SortValueV;

verus! {

/// NULL-ordering law: under a single ascending key a row whose key value is
/// missing sorts strictly before every row whose key value is present;
/// under a single descending key it sorts strictly after.
pub proof fn lemma_null_ordering(meta: KeyMeta, v: SortValueV)
    requires
        !(v is Null),
    ensures
        !meta.desc ==> row_cmp(seq![meta], seq![SortValueV::Null], seq![v]) == -1,
        meta.desc ==> row_cmp(seq![meta], seq![SortValueV::Null], seq![v]) == 1,
{
    let m = seq![meta];
    let a = seq![SortValueV::Null];
    let b = seq![v];
    assert(key_of(meta.ty, SortValueV::Null) is NullK);
    assert(!(key_of(meta.ty, v) is NullK));
    assert(key_cmp(key_of(meta.ty, a[0]), key_of(meta.ty, b[0])) == -1);
}

/// Unsigned law: under a column type flagged unsigned, two 64-bit integer
/// values compare exactly as their bit patterns read as unsigned integers.
pub proof fn lemma_unsigned_comparison(ty: ColType, x: i64, y: i64)
    requires
        ty.unsigned,
    ensures
        key_cmp(key_of(ty, SortValueV::Int(x)), key_of(ty, SortValueV::Int(y))) == if (x as u64)
            < (y as u64) {
            -1
        } else if (x as u64) > (y as u64) {
            1
        } else {
            0
        },
{
}

/// The unsigned law on the boundary pattern: the bit pattern of the largest
/// unsigned 64-bit value (all ones, which reads as -1 when signed) sorts
/// strictly above the bit pattern of the largest signed value, even though
/// it is the smaller of the two when read as signed.
pub proof fn lemma_unsigned_boundary(ty: ColType)
    requires
        ty.unsigned,
    ensures
        key_cmp(
            key_of(ty, SortValueV::Int(-1i64)),
            key_of(ty, SortValueV::Int(0x7FFF_FFFF_FFFF_FFFFi64)),
        ) == 1,
{
    assert((-1i64) as u64 == 0xFFFF_FFFF_FFFF_FFFFu64) by (bit_vector);
}

} // verus!
