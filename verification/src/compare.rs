//! The multi-key, direction-aware row comparator.
//!
//! Every sort-key value is mapped, under its column's field type, to a
//! *comparison key*: a missing value becomes the minimum, a numeric value
//! (integer, float bit pattern, temporal, decimal) becomes an integer that
//! orders as the value does, and a byte string becomes its collation weight
//! sequence. Rows compare lexicographically over their key lists, each key's
//! natural comparison negated where that key is declared descending. The
//! resulting relation is a total preorder: ties hold exactly between rows
//! whose comparison keys coincide on every sort key.

use vstd::prelude::*;

use crate::collate::lemma_lex_cmp_eq;
use crate::collate::lemma_lex_cmp_flip;
use crate::collate::lemma_lex_cmp_range;
use crate::collate::lemma_lex_cmp_trans_lt;
use crate::collate::lex_cmp;
use crate::collate::lex_cmp_exec;
use crate::collate::weight_seq;
use crate::collate::weights_of;
use crate::types::ColType;
use crate::types::SortValue;
use crate::types::SortValueV;

verus! {

/// One ORDER BY key: the field type of the evaluated expression and the
/// declared direction.
#[derive(Clone, Copy, Debug, PartialEq, Eq, Structural)]
pub struct KeyMeta {
    pub ty: ColType,
    pub desc: bool,
}

/// The comparison key of one sort-key value.
pub enum KeyV {
    /// A missing value: the minimum.
    NullK,
    /// Any numeric value, reduced to an integer that orders as the value
    /// does.
    NumK(int),
    /// A byte string, reduced to its collation weight sequence.
    StrK(Seq<u32>),
}

/// The integer a float's IEEE-754 bit pattern orders by: the IEEE-754 total
/// order made monotone into the integers.
pub open spec fn real_order_key(bits: u64) -> int {
    if bits >= 0x8000_0000_0000_0000 {
        0xFFFF_FFFF_FFFF_FFFF - bits
    } else {
        bits + 0x8000_0000_0000_0000
    }
}

/// The comparison key a field type gives a value.
pub open spec fn key_of(ty: ColType, v: SortValueV) -> KeyV {
    match v {
        SortValueV::Null => KeyV::NullK,
        SortValueV::Int(x) => KeyV::NumK(
            if ty.unsigned {
                x as u64 as int
            } else {
                x as int
            },
        ),
        SortValueV::Real(bits) => KeyV::NumK(real_order_key(bits)),
        SortValueV::Bytes(s) => KeyV::StrK(weight_seq(ty.collation, s)),
        SortValueV::DateTime(t) => KeyV::NumK(t as int),
        SortValueV::Duration(d) => KeyV::NumK(d as int),
        SortValueV::Decimal(d) => KeyV::NumK(d as int),
    }
}

/// Three-way comparison of comparison keys: -1, 0 or 1. A missing value is
/// the minimum; keys of unlike shapes order by shape, which well-typed
/// columns never exercise.
pub open spec fn key_cmp(a: KeyV, b: KeyV) -> int {
    match (a, b) {
        (KeyV::NullK, KeyV::NullK) => 0,
        (KeyV::NullK, _) => -1,
        (_, KeyV::NullK) => 1,
        (KeyV::NumK(x), KeyV::NumK(y)) => if x < y {
            -1
        } else if x > y {
            1
        } else {
            0
        },
        (KeyV::NumK(_), KeyV::StrK(_)) => -1,
        (KeyV::StrK(_), KeyV::NumK(_)) => 1,
        (KeyV::StrK(x), KeyV::StrK(y)) => lex_cmp(x, y),
    }
}

/// `key_cmp` only takes the values -1, 0 and 1.
pub proof fn lemma_key_cmp_range(a: KeyV, b: KeyV)
    ensures
        -1 <= key_cmp(a, b) <= 1,
{
    if a is StrK && b is StrK {
        lemma_lex_cmp_range(a->StrK_0, b->StrK_0);
    }
}

/// Swapping the arguments negates the comparison.
pub proof fn lemma_key_cmp_flip(a: KeyV, b: KeyV)
    ensures
        key_cmp(a, b) == -key_cmp(b, a),
{
    if a is StrK && b is StrK {
        lemma_lex_cmp_flip(a->StrK_0, b->StrK_0);
    }
}

/// Keys that compare equal are equal.
pub proof fn lemma_key_cmp_eq(a: KeyV, b: KeyV)
    requires
        key_cmp(a, b) == 0,
    ensures
        a == b,
{
    if a is StrK && b is StrK {
        lemma_lex_cmp_eq(a->StrK_0, b->StrK_0);
    }
}

/// The strict key order is transitive.
pub proof fn lemma_key_cmp_trans_lt(a: KeyV, b: KeyV, c: KeyV)
    requires
        key_cmp(a, b) < 0,
        key_cmp(b, c) < 0,
    ensures
        key_cmp(a, c) < 0,
{
    if a is StrK && b is StrK && c is StrK {
        lemma_lex_cmp_trans_lt(a->StrK_0, b->StrK_0, c->StrK_0);
    }
}

/// The comparison one sort key contributes: the natural key comparison,
/// negated where the key is declared descending.
pub open spec fn signed_key_cmp(meta: KeyMeta, a: SortValueV, b: SortValueV) -> int {
    if meta.desc {
        -key_cmp(key_of(meta.ty, a), key_of(meta.ty, b))
    } else {
        key_cmp(key_of(meta.ty, a), key_of(meta.ty, b))
    }
}

/// Three-way comparison of two rows' sort-key lists: the first key whose
/// signed comparison is non-zero decides; rows tie when every key ties.
pub open spec fn row_cmp(metas: Seq<KeyMeta>, a: Seq<SortValueV>, b: Seq<SortValueV>) -> int
    decreases metas.len(),
{
    if metas.len() == 0 {
        0
    } else {
        let c = signed_key_cmp(metas[0], a[0], b[0]);
        if c != 0 {
            c
        } else {
            row_cmp(metas.drop_first(), a.drop_first(), b.drop_first())
        }
    }
}

/// `row_cmp` only takes the values -1, 0 and 1.
pub proof fn lemma_row_cmp_range(metas: Seq<KeyMeta>, a: Seq<SortValueV>, b: Seq<SortValueV>)
    ensures
        -1 <= row_cmp(metas, a, b) <= 1,
    decreases metas.len(),
{
    if metas.len() != 0 {
        lemma_key_cmp_range(key_of(metas[0].ty, a[0]), key_of(metas[0].ty, b[0]));
        lemma_row_cmp_range(metas.drop_first(), a.drop_first(), b.drop_first());
    }
}

/// Swapping the rows negates the comparison.
pub proof fn lemma_row_cmp_flip(metas: Seq<KeyMeta>, a: Seq<SortValueV>, b: Seq<SortValueV>)
    ensures
        row_cmp(metas, a, b) == -row_cmp(metas, b, a),
    decreases metas.len(),
{
    if metas.len() != 0 {
        lemma_key_cmp_flip(key_of(metas[0].ty, a[0]), key_of(metas[0].ty, b[0]));
        lemma_row_cmp_flip(metas.drop_first(), a.drop_first(), b.drop_first());
    }
}

/// The row order is transitive: two non-strict steps compose, and stay
/// strict as soon as either step is strict.
pub proof fn lemma_row_cmp_trans(
    metas: Seq<KeyMeta>,
    a: Seq<SortValueV>,
    b: Seq<SortValueV>,
    c: Seq<SortValueV>,
)
    requires
        row_cmp(metas, a, b) <= 0,
        row_cmp(metas, b, c) <= 0,
    ensures
        row_cmp(metas, a, c) <= 0,
        row_cmp(metas, a, b) < 0 || row_cmp(metas, b, c) < 0 ==> row_cmp(metas, a, c) < 0,
    decreases metas.len(),
{
    if metas.len() != 0 {
        let ka = key_of(metas[0].ty, a[0]);
        let kb = key_of(metas[0].ty, b[0]);
        let kc = key_of(metas[0].ty, c[0]);
        lemma_key_cmp_range(ka, kb);
        lemma_key_cmp_range(kb, kc);
        lemma_key_cmp_range(ka, kc);
        lemma_key_cmp_flip(ka, kb);
        lemma_key_cmp_flip(kb, kc);
        lemma_key_cmp_flip(ka, kc);
        if key_cmp(ka, kb) == 0 {
            lemma_key_cmp_eq(ka, kb);
        }
        if key_cmp(kb, kc) == 0 {
            lemma_key_cmp_eq(kb, kc);
        }
        if key_cmp(ka, kb) < 0 && key_cmp(kb, kc) < 0 {
            lemma_key_cmp_trans_lt(ka, kb, kc);
        }
        if key_cmp(kc, kb) < 0 && key_cmp(kb, ka) < 0 {
            lemma_key_cmp_trans_lt(kc, kb, ka);
        }
        if signed_key_cmp(metas[0], a[0], b[0]) == 0 && signed_key_cmp(metas[0], b[0], c[0])
            == 0 {
            lemma_row_cmp_trans(metas.drop_first(), a.drop_first(), b.drop_first(), c.drop_first());
        }
        lemma_row_cmp_range(metas, a, b);
        lemma_row_cmp_range(metas, b, c);
    }
}

/// The row order is total: one of the two directions always holds.
pub proof fn lemma_row_cmp_total(metas: Seq<KeyMeta>, a: Seq<SortValueV>, b: Seq<SortValueV>)
    ensures
        row_cmp(metas, a, b) <= 0 || row_cmp(metas, b, a) <= 0,
{
    lemma_row_cmp_flip(metas, a, b);
    lemma_row_cmp_range(metas, a, b);
}

/// Three-way comparison of two sort-key values under one key's metadata.
pub fn signed_key_cmp_exec(meta: &KeyMeta, a: &SortValue, b: &SortValue) -> (r: i32)
    ensures
        r as int == signed_key_cmp(*meta, a@, b@),
{
    let natural = key_cmp_exec(&meta.ty, a, b);
    proof {
        lemma_key_cmp_range(key_of(meta.ty, a@), key_of(meta.ty, b@));
    }
    if meta.desc {
        -natural
    } else {
        natural
    }
}

/// Three-way natural comparison of two sort-key values under a field type.
fn key_cmp_exec(ty: &ColType, a: &SortValue, b: &SortValue) -> (r: i32)
    ensures
        r as int == key_cmp(key_of(*ty, a@), key_of(*ty, b@)),
{
    match (a, b) {
        (SortValue::Null, SortValue::Null) => 0,
        (SortValue::Null, _) => -1,
        (_, SortValue::Null) => 1,
        (SortValue::Bytes(x), SortValue::Bytes(y)) => {
            let wx = weights_of(ty.collation, x);
            let wy = weights_of(ty.collation, y);
            lex_cmp_exec(&wx, &wy)
        },
        _ => {
            let rank_a = num_rank(a);
            let rank_b = num_rank(b);
            if rank_a < rank_b {
                -1
            } else if rank_a > rank_b {
                1
            } else {
                let x = num_key(ty, a);
                let y = num_key(ty, b);
                if x < y {
                    -1
                } else if x > y {
                    1
                } else {
                    0
                }
            }
        },
    }
}

/// 0 for a numeric value, 1 for a byte string; matches the shape order of
/// [`key_cmp`] among non-missing values.
fn num_rank(v: &SortValue) -> (r: u8)
    ensures
        r <= 1,
        (r == 1) == (v@ is Bytes),
{
    match v {
        SortValue::Bytes(_) => 1,
        _ => 0,
    }
}

/// The integer a numeric value orders by under a field type.
fn num_key(ty: &ColType, v: &SortValue) -> (r: i128)
    requires
        !(v@ is Null),
        !(v@ is Bytes),
    ensures
        key_of(*ty, v@) matches KeyV::NumK(k) && r as int == k,
{
    match v {
        SortValue::Int(x) => if ty.unsigned {
            (*x as u64) as i128
        } else {
            *x as i128
        },
        SortValue::Real(bits) => {
            let key: u64 = if *bits >= 0x8000_0000_0000_0000 {
                0xFFFF_FFFF_FFFF_FFFF - *bits
            } else {
                *bits + 0x8000_0000_0000_0000
            };
            key as i128
        },
        SortValue::DateTime(t) => *t as i128,
        SortValue::Duration(d) => *d as i128,
        SortValue::Decimal(d) => *d,
        // excluded by the preconditions: missing and byte-string values
        // never reach the numeric comparison
        _ => 0,
    }
}

} // verus!
