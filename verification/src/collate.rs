//! Byte-string collations.
//!
//! A collation orders byte strings by comparing their *weight sequences*
//! lexicographically. Binary collations take each byte as its own weight.
//! The case- and accent-insensitive collation decodes the string as UTF-8
//! and maps each character to a weight: ASCII letters and the Latin-1
//! supplement letters fold to their base upper-case letter, every other
//! character keeps its code point. A byte that does not start a well-formed
//! UTF-8 sequence consumes only itself and is weighted above every code
//! point, so the weighting is total over arbitrary byte strings.

use vstd::prelude::*;

use crate::types::CollationId;

verus! {

/// True for a UTF-8 continuation byte.
pub open spec fn is_cont(b: u8) -> bool {
    0x80 <= b < 0xC0
}

/// How many bytes a well-formed UTF-8 sequence led by `b` has; 0 when `b`
/// cannot lead one.
pub open spec fn head_class(b: u8) -> int {
    if b < 0x80 {
        1
    } else if 0xC0 <= b < 0xE0 {
        2
    } else if 0xE0 <= b < 0xF0 {
        3
    } else if 0xF0 <= b < 0xF8 {
        4
    } else {
        0
    }
}

/// True when a well-formed UTF-8 sequence stands at the front of `s`.
pub open spec fn step_valid(s: Seq<u8>) -> bool {
    let c = head_class(s[0]);
    &&& c >= 1
    &&& c <= s.len()
    &&& forall|j: int| 1 <= j < c ==> is_cont(#[trigger] s[j])
}

/// How many bytes the first weight of `s` consumes (at least 1).
pub open spec fn step_len(s: Seq<u8>) -> int {
    if step_valid(s) {
        head_class(s[0])
    } else {
        1
    }
}

/// The code point of the well-formed UTF-8 sequence at the front of `s`.
pub open spec fn decode_cp(s: Seq<u8>) -> u32
    recommends
        step_valid(s),
{
    let c = head_class(s[0]);
    if c == 1 {
        s[0] as u32
    } else if c == 2 {
        (((s[0] as int - 0xC0) * 0x40) + (s[1] as int - 0x80)) as u32
    } else if c == 3 {
        (((s[0] as int - 0xE0) * 0x1000) + ((s[1] as int - 0x80) * 0x40) + (s[2] as int
            - 0x80)) as u32
    } else {
        (((s[0] as int - 0xF0) * 0x40000) + ((s[1] as int - 0x80) * 0x1000) + ((s[2] as int - 0x80)
            * 0x40) + (s[3] as int - 0x80)) as u32
    }
}

/// The case- and accent-insensitive weight of one code point: ASCII and
/// Latin-1 supplement letters fold to their base upper-case letter, every
/// other code point keeps its own value.
pub open spec fn ci_weight(cp: u32) -> u32 {
    if 0x61 <= cp <= 0x7A {
        (cp - 0x20) as u32  // a..z fold to A..Z
    } else if cp == 0xC6 || cp == 0xE6 {
        0xC6  // AE ligature pairs with its lower case
    } else if cp == 0xD0 || cp == 0xF0 {
        0xD0  // eth pairs with its lower case
    } else if cp == 0xD8 || cp == 0xF8 {
        0xD8  // slashed O pairs with its lower case
    } else if cp == 0xDE || cp == 0xFE {
        0xDE  // thorn pairs with its lower case
    } else if cp == 0xDF {
        0x53  // sharp s folds to S
    } else if (0xC0 <= cp <= 0xC5) || (0xE0 <= cp <= 0xE5) {
        0x41  // accented A variants fold to A
    } else if cp == 0xC7 || cp == 0xE7 {
        0x43  // cedilla C folds to C
    } else if (0xC8 <= cp <= 0xCB) || (0xE8 <= cp <= 0xEB) {
        0x45  // accented E variants fold to E
    } else if (0xCC <= cp <= 0xCF) || (0xEC <= cp <= 0xEF) {
        0x49  // accented I variants fold to I
    } else if cp == 0xD1 || cp == 0xF1 {
        0x4E  // tilde N folds to N
    } else if (0xD2 <= cp <= 0xD6) || (0xF2 <= cp <= 0xF6) {
        0x4F  // accented O variants fold to O
    } else if (0xD9 <= cp <= 0xDC) || (0xF9 <= cp <= 0xFC) {
        0x55  // accented U variants fold to U
    } else if cp == 0xDD || cp == 0xFD || cp == 0xFF {
        0x59  // accented Y variants fold to Y
    } else {
        cp
    }
}

/// The weight of a byte that does not start a well-formed UTF-8 sequence:
/// above every code point, ordered among themselves by byte value.
pub open spec fn invalid_weight(b: u8) -> u32 {
    (0x110000 + b as int) as u32
}

/// The first weight of a non-empty byte string.
pub open spec fn step_weight(s: Seq<u8>) -> u32 {
    if step_valid(s) {
        ci_weight(decode_cp(s))
    } else {
        invalid_weight(s[0])
    }
}

/// The case- and accent-insensitive weight sequence of a byte string.
pub open spec fn ci_weights(s: Seq<u8>) -> Seq<u32>
    decreases s.len(),
{
    if s.len() == 0 {
        Seq::empty()
    } else {
        seq![step_weight(s)] + ci_weights(s.skip(step_len(s)))
    }
}

/// The weight sequence a collation gives a byte string. Both binary
/// collations weight each byte by itself: for well-formed UTF-8 the byte
/// order equals the code-point order.
pub open spec fn weight_seq(coll: CollationId, s: Seq<u8>) -> Seq<u32> {
    match coll {
        CollationId::Binary => s.map_values(|b: u8| b as u32),
        CollationId::Utf8Mb4Bin => s.map_values(|b: u8| b as u32),
        CollationId::Utf8Mb4GeneralCi => ci_weights(s),
    }
}

/// Three-way lexicographic comparison of weight sequences: -1, 0 or 1.
pub open spec fn lex_cmp(a: Seq<u32>, b: Seq<u32>) -> int
    decreases a.len(),
{
    if a.len() == 0 && b.len() == 0 {
        0
    } else if a.len() == 0 {
        -1
    } else if b.len() == 0 {
        1
    } else if a[0] < b[0] {
        -1
    } else if a[0] > b[0] {
        1
    } else {
        lex_cmp(a.drop_first(), b.drop_first())
    }
}

/// `lex_cmp` only takes the values -1, 0 and 1.
pub proof fn lemma_lex_cmp_range(a: Seq<u32>, b: Seq<u32>)
    ensures
        -1 <= lex_cmp(a, b) <= 1,
    decreases a.len(),
{
    if a.len() != 0 && b.len() != 0 && a[0] == b[0] {
        lemma_lex_cmp_range(a.drop_first(), b.drop_first());
    }
}

/// Swapping the arguments negates the comparison.
pub proof fn lemma_lex_cmp_flip(a: Seq<u32>, b: Seq<u32>)
    ensures
        lex_cmp(a, b) == -lex_cmp(b, a),
    decreases a.len(),
{
    if a.len() != 0 && b.len() != 0 && a[0] == b[0] {
        lemma_lex_cmp_flip(a.drop_first(), b.drop_first());
    }
}

/// Sequences that compare equal are equal.
pub proof fn lemma_lex_cmp_eq(a: Seq<u32>, b: Seq<u32>)
    requires
        lex_cmp(a, b) == 0,
    ensures
        a == b,
    decreases a.len(),
{
    if a.len() == 0 && b.len() == 0 {
        assert(a =~= b);
    } else if a.len() != 0 && b.len() != 0 && a[0] == b[0] {
        lemma_lex_cmp_eq(a.drop_first(), b.drop_first());
        assert(a.drop_first() == b.drop_first());
        assert(a.drop_first().len() == b.drop_first().len());
        assert(a.len() == a.drop_first().len() + 1);
        assert(a.len() == b.len());
        assert forall|i: int| 0 <= i < a.len() implies a[i] == b[i] by {
            if i >= 1 {
                assert(a[i] == a.drop_first()[i - 1]);
                assert(b[i] == b.drop_first()[i - 1]);
            }
        }
        assert(a =~= b);
    }
}

/// Strict lexicographic order is transitive.
pub proof fn lemma_lex_cmp_trans_lt(a: Seq<u32>, b: Seq<u32>, c: Seq<u32>)
    requires
        lex_cmp(a, b) < 0,
        lex_cmp(b, c) < 0,
    ensures
        lex_cmp(a, c) < 0,
    decreases a.len(),
{
    if a.len() != 0 && b.len() != 0 && c.len() != 0 && a[0] == b[0] && b[0] == c[0] {
        lemma_lex_cmp_trans_lt(a.drop_first(), b.drop_first(), c.drop_first());
    }
}

/// The executable form of [`ci_weight`].
fn ci_weight_exec(cp: u32) -> (r: u32)
    ensures
        r == ci_weight(cp),
{
    if 0x61 <= cp && cp <= 0x7A {
        cp - 0x20
    } else if cp == 0xC6 || cp == 0xE6 {
        0xC6
    } else if cp == 0xD0 || cp == 0xF0 {
        0xD0
    } else if cp == 0xD8 || cp == 0xF8 {
        0xD8
    } else if cp == 0xDE || cp == 0xFE {
        0xDE
    } else if cp == 0xDF {
        0x53
    } else if (0xC0 <= cp && cp <= 0xC5) || (0xE0 <= cp && cp <= 0xE5) {
        0x41
    } else if cp == 0xC7 || cp == 0xE7 {
        0x43
    } else if (0xC8 <= cp && cp <= 0xCB) || (0xE8 <= cp && cp <= 0xEB) {
        0x45
    } else if (0xCC <= cp && cp <= 0xCF) || (0xEC <= cp && cp <= 0xEF) {
        0x49
    } else if cp == 0xD1 || cp == 0xF1 {
        0x4E
    } else if (0xD2 <= cp && cp <= 0xD6) || (0xF2 <= cp && cp <= 0xF6) {
        0x4F
    } else if (0xD9 <= cp && cp <= 0xDC) || (0xF9 <= cp && cp <= 0xFC) {
        0x55
    } else if cp == 0xDD || cp == 0xFD || cp == 0xFF {
        0x59
    } else {
        cp
    }
}

/// Weights a byte string byte for byte.
fn byte_weights(s: &Vec<u8>) -> (r: Vec<u32>)
    ensures
        r@ == s@.map_values(|b: u8| b as u32),
{
    let mut r: Vec<u32> = Vec::new();
    let mut i: usize = 0;
    while i < s.len()
        invariant
            i <= s.len(),
            r@.len() == i,
            forall|j: int| 0 <= j < i ==> r@[j] == s@[j] as u32,
        decreases s.len() - i,
    {
        r.push(s[i] as u32);
        i = i + 1;
    }
    proof {
        assert(r@ =~= s@.map_values(|b: u8| b as u32));
    }
    r
}

/// True when the `count - 1` bytes after `start` are all UTF-8 continuation
/// bytes.
fn conts_ok(s: &Vec<u8>, start: usize, count: usize) -> (r: bool)
    requires
        start + count <= s@.len(),
    ensures
        r == (forall|q: int| 1 <= q < count ==> is_cont(#[trigger] s@[start + q])),
{
    let slen: usize = s.len();
    let mut j: usize = 1;
    while j < count
        invariant
            1 <= j,
            j <= count || count <= 1,
            start + count <= slen,
            slen == s@.len(),
            forall|q: int| 1 <= q < j ==> is_cont(#[trigger] s@[start + q]),
        decreases count - j,
    {
        let v = s[start + j];
        if !(0x80 <= v && v < 0xC0) {
            proof {
                assert(!is_cont(s@[start + j]));
            }
            return false;
        }
        j = j + 1;
    }
    true
}

/// Computes the case- and accent-insensitive weight sequence.
fn ci_weights_exec(s: &Vec<u8>) -> (r: Vec<u32>)
    ensures
        r@ == ci_weights(s@),
{
    let mut r: Vec<u32> = Vec::new();
    let mut i: usize = 0;
    proof {
        assert(s@.skip(0) =~= s@);
        assert(Seq::<u32>::empty() + ci_weights(s@) =~= ci_weights(s@));
    }
    while i < s.len()
        invariant
            i <= s.len(),
            ci_weights(s@) == r@ + ci_weights(s@.skip(i as int)),
        decreases s.len() - i,
    {
        let ghost t = s@.skip(i as int);
        proof {
            assert(t.len() == s@.len() - i);
            assert(forall|q: int| 0 <= q < t.len() ==> t[q] == s@[i + q]);
        }
        let b = s[i];
        let c: usize = if b < 0x80 {
            1
        } else if 0xC0 <= b && b < 0xE0 {
            2
        } else if 0xE0 <= b && b < 0xF0 {
            3
        } else if 0xF0 <= b && b < 0xF8 {
            4
        } else {
            0
        };
        proof {
            assert(c == head_class(t[0]));
        }
        let ok = if 1 <= c && c <= s.len() - i {
            conts_ok(s, i, c)
        } else {
            false
        };
        proof {
            if ok {
                assert(forall|q: int| 1 <= q < c ==> is_cont(#[trigger] t[q]));
                assert(step_valid(t));
            } else {
                assert(!step_valid(t));
            }
        }
        let w: u32;
        let step: usize;
        if ok {
            let cp: u32 = if c == 1 {
                b as u32
            } else if c == 2 {
                ((b as u32) - 0xC0) * 0x40 + ((s[i + 1] as u32) - 0x80)
            } else if c == 3 {
                ((b as u32) - 0xE0) * 0x1000 + ((s[i + 1] as u32) - 0x80) * 0x40 + ((s[i
                    + 2] as u32) - 0x80)
            } else {
                ((b as u32) - 0xF0) * 0x40000 + ((s[i + 1] as u32) - 0x80) * 0x1000 + ((s[i
                    + 2] as u32) - 0x80) * 0x40 + ((s[i + 3] as u32) - 0x80)
            };
            proof {
                assert(cp == decode_cp(t));
            }
            w = ci_weight_exec(cp);
            step = c;
        } else {
            w = 0x110000 + (b as u32);
            step = 1;
        }
        proof {
            assert(w == step_weight(t));
            assert(step == step_len(t));
            assert(t.skip(step as int) =~= s@.skip(i + step));
            assert(ci_weights(t) == seq![w] + ci_weights(s@.skip(i + step)));
            assert(r@.push(w) + ci_weights(s@.skip(i + step)) =~= r@ + ci_weights(
                s@.skip(i as int),
            ));
        }
        r.push(w);
        i = i + step;
    }
    proof {
        assert(s@.skip(i as int) =~= Seq::<u8>::empty());
        assert(ci_weights(s@.skip(i as int)) == Seq::<u32>::empty());
        assert(r@ + Seq::<u32>::empty() =~= r@);
    }
    r
}

/// The weight sequence of a byte string under a collation.
pub fn weights_of(coll: CollationId, s: &Vec<u8>) -> (r: Vec<u32>)
    ensures
        r@ == weight_seq(coll, s@),
{
    match coll {
        CollationId::Binary => byte_weights(s),
        CollationId::Utf8Mb4Bin => byte_weights(s),
        CollationId::Utf8Mb4GeneralCi => ci_weights_exec(s),
    }
}

/// Three-way lexicographic comparison of two weight vectors.
pub fn lex_cmp_exec(a: &Vec<u32>, b: &Vec<u32>) -> (r: i32)
    ensures
        r as int == lex_cmp(a@, b@),
{
    let mut i: usize = 0;
    proof {
        assert(a@.skip(0) =~= a@);
        assert(b@.skip(0) =~= b@);
    }
    while i < a.len() && i < b.len()
        invariant
            i <= a.len(),
            i <= b.len(),
            lex_cmp(a@, b@) == lex_cmp(a@.skip(i as int), b@.skip(i as int)),
        decreases a.len() - i,
    {
        let x = a[i];
        let y = b[i];
        proof {
            assert(a@.skip(i as int)[0] == a@[i as int]);
            assert(b@.skip(i as int)[0] == b@[i as int]);
        }
        if x < y {
            return -1;
        }
        if x > y {
            return 1;
        }
        proof {
            assert(a@.skip(i as int).drop_first() =~= a@.skip(i + 1));
            assert(b@.skip(i as int).drop_first() =~= b@.skip(i + 1));
        }
        i = i + 1;
    }
    proof {
        if i == a.len() {
            assert(a@.skip(i as int).len() == 0);
        } else {
            assert(b@.skip(i as int).len() == 0);
            assert(a@.skip(i as int).len() > 0);
        }
    }
    if a.len() == i {
        if b.len() == i {
            0
        } else {
            proof {
                assert(b@.skip(i as int).len() > 0);
            }
            -1
        }
    } else {
        1
    }
}

} // verus!
