//! The numeric reading of bit vectors: little-endian, index 0 least
//! significant.  Circuit contracts speak of operand values through
//! `bits_value` applied to the bits carried by wire vectors.

use vstd::prelude::*;
use vstd::arithmetic::power2::{pow2, lemma_pow2_unfold, lemma_pow2_pos, lemma2_to64};

verus! {

/// `pow2(0) == 1`, stated once for the base cases below.
pub proof fn lemma_pow2_zero()
    ensures
        pow2(0) == 1,
{
    lemma2_to64();
}

/// The unsigned integer a little-endian bit vector denotes.
pub open spec fn bits_value(s: Seq<bool>) -> nat
    decreases s.len(),
{
    if s.len() == 0 {
        0
    } else {
        (if s[0] {
            1nat
        } else {
            0nat
        }) + 2 * bits_value(s.skip(1))
    }
}

/// Appending a most-significant bit adds `pow2(len)` when it is set.
pub proof fn lemma_bits_value_snoc(s: Seq<bool>, b: bool)
    ensures
        bits_value(s.push(b)) == bits_value(s) + (if b {
            pow2(s.len())
        } else {
            0nat
        }),
    decreases s.len(),
{
    if s.len() == 0 {
        assert(s.push(b).skip(1) =~= Seq::<bool>::empty());
        assert(s.push(b)[0] == b);
        lemma_pow2_zero();
        assert(bits_value(Seq::<bool>::empty()) == 0);
        assert(bits_value(s.push(b)) == (if b {
            1nat
        } else {
            0nat
        }) + 2 * bits_value(s.push(b).skip(1)));
        assert(bits_value(s) == 0);
    } else {
        assert(s.push(b).skip(1) =~= s.skip(1).push(b));
        lemma_bits_value_snoc(s.skip(1), b);
        lemma_pow2_unfold(s.len());
        assert(s.push(b)[0] == s[0]);
        assert(bits_value(s.push(b)) == (if s[0] {
            1nat
        } else {
            0nat
        }) + 2 * bits_value(s.skip(1).push(b)));
        assert(s.skip(1).len() == s.len() - 1);
        assert(bits_value(s) == (if s[0] {
            1nat
        } else {
            0nat
        }) + 2 * bits_value(s.skip(1)));
        if b {
            assert(pow2(s.skip(1).len()) == pow2((s.len() - 1) as nat));
            assert(bits_value(s.skip(1).push(b)) == bits_value(s.skip(1)) + pow2(
                (s.len() - 1) as nat,
            ));
            assert(bits_value(s.push(b)) == bits_value(s) + pow2(s.len()));
        } else {
            assert(bits_value(s.push(b)) == bits_value(s));
        }
    }
}

/// A bit vector of length `n` denotes a value below `pow2(n)`.
pub proof fn lemma_bits_value_bound(s: Seq<bool>)
    ensures
        bits_value(s) < pow2(s.len()),
    decreases s.len(),
{
    if s.len() == 0 {
        lemma_pow2_pos(0);
    } else {
        lemma_bits_value_bound(s.skip(1));
        lemma_pow2_unfold(s.len());
    }
}

/// Splitting a bit vector at position `k` splits its value.
pub proof fn lemma_bits_value_split(s: Seq<bool>, k: int)
    requires
        0 <= k <= s.len(),
    ensures
        bits_value(s) == bits_value(s.take(k)) + pow2(k as nat) * bits_value(s.skip(k)),
    decreases k,
{
    if k == 0 {
        assert(s.take(0) =~= Seq::<bool>::empty());
        assert(s.skip(0) =~= s);
        lemma_pow2_zero();
        assert(bits_value(s.take(0)) == 0);
        assert(pow2(0) * bits_value(s.skip(0)) == bits_value(s));
    } else {
        assert(s.take(k).skip(1) =~= s.skip(1).take(k - 1));
        assert(s.skip(k) =~= s.skip(1).skip(k - 1));
        lemma_bits_value_split(s.skip(1), k - 1);
        lemma_pow2_unfold(k as nat);
        assert(s.take(k)[0] == s[0]);
        assert(bits_value(s.take(k)) == (if s[0] {
            1nat
        } else {
            0nat
        }) + 2 * bits_value(s.skip(1).take(k - 1)));
        assert(bits_value(s) == (if s[0] {
            1nat
        } else {
            0nat
        }) + 2 * bits_value(s.skip(1)));
        assert(bits_value(s.skip(k)) == bits_value(s.skip(1).skip(k - 1)));
        assert(s.skip(1).len() == s.len() - 1);
        assert(pow2(k as nat) * bits_value(s.skip(k)) == 2 * (pow2((k - 1) as nat) * bits_value(
            s.skip(k),
        ))) by (nonlinear_arith)
            requires
                pow2(k as nat) == 2 * pow2((k - 1) as nat),
        ;
    }
}

/// Two bit vectors of one length denoting one value are equal bitwise.
pub proof fn lemma_bits_value_injective(s: Seq<bool>, t: Seq<bool>)
    requires
        s.len() == t.len(),
        bits_value(s) == bits_value(t),
    ensures
        s =~= t,
    decreases s.len(),
{
    if s.len() > 0 {
        assert(s[0] == t[0]);
        lemma_bits_value_injective(s.skip(1), t.skip(1));
        assert forall|i: int| 0 <= i < s.len() implies s[i] == t[i] by {
            if i > 0 {
                assert(s.skip(1)[i - 1] == t.skip(1)[i - 1]);
            }
        }
    }
}

/// Complementing every bit turns a value `v` into `pow2(len) - 1 - v`.
pub proof fn lemma_bits_value_complement(s: Seq<bool>, t: Seq<bool>)
    requires
        s.len() == t.len(),
        forall|i: int| 0 <= i < s.len() ==> #[trigger] t[i] == !s[i],
    ensures
        bits_value(t) == pow2(s.len()) - 1 - bits_value(s),
    decreases s.len(),
{
    if s.len() == 0 {
        lemma_pow2_zero();
    } else {
        assert(t[0] == !s[0]);
        assert(forall|i: int|
            0 <= i < s.skip(1).len() ==> #[trigger] t.skip(1)[i] == !s.skip(1)[i]);
        lemma_bits_value_complement(s.skip(1), t.skip(1));
        lemma_pow2_unfold(s.len());
        lemma_bits_value_bound(s.skip(1));
    }
}

/// An all-`false` bit vector denotes zero.
pub proof fn lemma_bits_value_zero(s: Seq<bool>)
    requires
        forall|i: int| 0 <= i < s.len() ==> !(#[trigger] s[i]),
    ensures
        bits_value(s) == 0,
    decreases s.len(),
{
    if s.len() > 0 {
        assert(forall|i: int| 0 <= i < s.skip(1).len() ==> !(#[trigger] s.skip(1)[i]));
        lemma_bits_value_zero(s.skip(1));
    }
}

/// The value of a single-bit vector is its bit.
pub proof fn lemma_bits_value_single(s: Seq<bool>)
    requires
        s.len() == 1,
    ensures
        bits_value(s) == (if s[0] {
            1nat
        } else {
            0nat
        }),
{
    assert(s.skip(1) =~= Seq::<bool>::empty());
    assert(bits_value(s.skip(1)) == 0);
}

/// Pointwise exclusive or of two equally long bit vectors.
pub open spec fn bits_xor(x: Seq<bool>, y: Seq<bool>) -> Seq<bool> {
    Seq::new(x.len(), |j: int| x[j] != y[j])
}

/// The pointwise xor of two vectors denotes zero exactly when they are equal.
pub proof fn lemma_bits_xor_value_zero(x: Seq<bool>, y: Seq<bool>)
    requires
        x.len() == y.len(),
    ensures
        (bits_value(bits_xor(x, y)) == 0) == (x == y),
{
    let z = Seq::new(x.len(), |j: int| false);
    lemma_bits_value_zero(z);
    if x == y {
        assert(bits_xor(x, y) =~= z);
    }
    if bits_value(bits_xor(x, y)) == 0 {
        lemma_bits_value_injective(bits_xor(x, y), z);
        assert forall|j: int| 0 <= j < x.len() implies x[j] == y[j] by {
            assert(bits_xor(x, y)[j] == z[j]);
        }
        assert(x =~= y);
    }
}

} // verus!
