//! Base-field circuits: arithmetic modulo the BN254 base-field prime `p` on
//! 254-bit little-endian operands assumed reduced (below `p`).
//!
//! Reduction is by conditional subtraction: a value `t < 2p` is brought back
//! below `p` by adding the constant `pow2(n) - p` and selecting, on the
//! carry-out, between the low bits of that sum (`t - p`) and `t` itself.
//! Every operation carries an exact modular value contract, proved for all
//! input assignments with reduced operands.

use vstd::prelude::*;
use vstd::arithmetic::power2::{pow2, lemma2_to64, lemma_pow2_adds};
use vstd::arithmetic::div_mod::{lemma_small_mod, lemma_add_mod_noop_right, lemma_mod_bound,
    lemma_mul_mod_noop_right, lemma_fundamental_div_mod_converse};

verus! {

use crate::GateKind;
use crate::circuit::{Circuit, Wires, wires_in, subwires, concat_wires, wire_val, wire_vals,
    lemma_extends_refl, lemma_wire_val_extends, lemma_wire_vals_extends};
use crate::bigint::{BigIntImpl, bit_int};
use crate::bits::{bits_value, lemma_bits_value_bound, lemma_bits_value_split,
    lemma_bits_value_single, lemma_bits_value_snoc, lemma_bits_value_complement,
    lemma_bits_value_zero, lemma_pow2_zero};
use crate::arkconst::fq_modulus_bits;

broadcast use crate::circuit::lemma_extends_chain, crate::circuit::lemma_wires_in_mono,
    crate::circuit::lemma_wires_in_subrange, crate::circuit::lemma_wires_in_concat,
    crate::circuit::lemma_wire_vals_subrange;

/// The base-field circuit builders.
pub struct Fq;

/// The BN254 base-field modulus.
pub open spec fn fq_modulus() -> nat {
    21888242871839275222246405745257275088696311157297823662689037894645226208583nat
}

/// Field product of two coefficient values, reduced.
pub open spec fn fq_mul_val(x: nat, y: nat) -> nat {
    (x * y) % fq_modulus()
}

/// Field sum of two coefficient values, reduced.
pub open spec fn fq_add_val(x: nat, y: nat) -> nat {
    (x + y) % fq_modulus()
}

/// Field difference of two coefficient values below the modulus, reduced.
pub open spec fn fq_sub_val(x: nat, y: nat) -> nat {
    (((x + fq_modulus()) - y) % (fq_modulus() as int)) as nat
}

/// Field double of a coefficient value, reduced.
pub open spec fn fq_dbl_val(x: nat) -> nat {
    (2 * x) % fq_modulus()
}

/// Field negation of a coefficient value below the modulus, reduced.
pub open spec fn fq_neg_val(x: nat) -> nat {
    ((fq_modulus() - x) % (fq_modulus() as int)) as nat
}

/// Every reduced-form operation lands below the modulus.
pub proof fn lemma_fq_vals_reduced(x: nat, y: nat)
    ensures
        fq_add_val(x, y) < fq_modulus(),
        fq_sub_val(x, y) < fq_modulus(),
        fq_mul_val(x, y) < fq_modulus(),
        fq_dbl_val(x) < fq_modulus(),
        fq_neg_val(x) < fq_modulus(),
{
    lemma_fq_modulus_bounds();
    lemma_mod_bound((x + y) as int, fq_modulus() as int);
    lemma_mod_bound((x + fq_modulus()) - y, fq_modulus() as int);
    lemma_mod_bound((x * y) as int, fq_modulus() as int);
    lemma_mod_bound((2 * x) as int, fq_modulus() as int);
    lemma_mod_bound(fq_modulus() - x, fq_modulus() as int);
}

/// The value of coefficient `j` of a tower element laid out on `ws`: the
/// 254-bit slice starting at position `254 * j`.
pub open spec fn fq_coeff(c: Circuit, inputs: Seq<bool>, ws: Seq<usize>, j: int) -> nat {
    bits_value(wire_vals(c, inputs, ws).subrange(254 * j, 254 * j + 254))
}

/// A coefficient read off the left part of a concatenation.
pub proof fn lemma_fq_coeff_concat_left(
    c: Circuit,
    inputs: Seq<bool>,
    x: Seq<usize>,
    y: Seq<usize>,
    j: int,
)
    requires
        0 <= j,
        254 * j + 254 <= x.len(),
    ensures
        fq_coeff(c, inputs, x + y, j) == fq_coeff(c, inputs, x, j),
{
    assert(wire_vals(c, inputs, x + y).subrange(254 * j, 254 * j + 254) =~= wire_vals(
        c,
        inputs,
        x,
    ).subrange(254 * j, 254 * j + 254));
}

/// A coefficient read off the right part of a concatenation whose left part
/// holds `m` whole coefficients.
pub proof fn lemma_fq_coeff_concat_right(
    c: Circuit,
    inputs: Seq<bool>,
    x: Seq<usize>,
    y: Seq<usize>,
    m: int,
    j: int,
)
    requires
        0 <= j,
        0 <= m,
        x.len() == 254 * m,
        254 * j + 254 <= y.len(),
    ensures
        fq_coeff(c, inputs, x + y, m + j) == fq_coeff(c, inputs, y, j),
{
    assert(wire_vals(c, inputs, x + y).subrange(254 * (m + j), 254 * (m + j) + 254) =~= wire_vals(
        c,
        inputs,
        y,
    ).subrange(254 * j, 254 * j + 254));
}

/// A coefficient of a slice that starts at a whole-coefficient boundary.
pub proof fn lemma_fq_coeff_slice(
    c: Circuit,
    inputs: Seq<bool>,
    ws: Seq<usize>,
    m: int,
    len: int,
    j: int,
)
    requires
        0 <= j,
        0 <= m,
        254 * j + 254 <= len,
        254 * m + len <= ws.len(),
    ensures
        fq_coeff(c, inputs, ws.subrange(254 * m, 254 * m + len), j) == fq_coeff(
            c,
            inputs,
            ws,
            m + j,
        ),
{
    assert(wire_vals(c, inputs, ws.subrange(254 * m, 254 * m + len)).subrange(
        254 * j,
        254 * j + 254,
    ) =~= wire_vals(c, inputs, ws).subrange(254 * (m + j), 254 * (m + j) + 254));
}

/// The modulus is positive and leaves headroom below `pow2(254)`.
pub proof fn lemma_fq_modulus_bounds()
    ensures
        0 < fq_modulus(),
        fq_modulus() + 1 < pow2(254),
{
    lemma2_to64();
    lemma_pow2_adds(32, 30);
    lemma_pow2_adds(64, 62);
    lemma_pow2_adds(64, 64);
    lemma_pow2_adds(126, 128);
    assert(pow2(62) == 0x4000000000000000nat) by (nonlinear_arith)
        requires
            pow2(62) == pow2(32) * pow2(30),
            pow2(32) == 0x100000000nat,
            pow2(30) == 0x40000000nat,
    ;
    assert(pow2(126) == 0x40000000000000000000000000000000nat) by (nonlinear_arith)
        requires
            pow2(126) == pow2(64) * pow2(62),
            pow2(64) == 0x10000000000000000nat,
            pow2(62) == 0x4000000000000000nat,
    ;
    assert(pow2(128) == 0x100000000000000000000000000000000nat) by (nonlinear_arith)
        requires
            pow2(128) == pow2(64) * pow2(64),
            pow2(64) == 0x10000000000000000nat,
    ;
    assert(pow2(254) == 0x4000000000000000000000000000000000000000000000000000000000000000nat)
        by (nonlinear_arith)
        requires
            pow2(254) == pow2(126) * pow2(128),
            pow2(126) == 0x40000000000000000000000000000000nat,
            pow2(128) == 0x100000000000000000000000000000000nat,
    ;
}

/// A value in `[p, 2p)` reduces modulo `p` by one subtraction.
proof fn lemma_mod_reduce_once(x: nat, p: nat)
    requires
        0 < p <= x < 2 * p,
    ensures
        x % p == x - p,
{
    lemma_fundamental_div_mod_converse(x as int, p as int, 1, x - p);
}

/// Bits of `(pow2(n) - k) mod pow2(n)` for an `n`-bit constant `k`: bitwise
/// complement plus one.
fn twos_complement_bits(k: &Vec<bool>) -> (r: Vec<bool>)
    ensures
        r@.len() == k@.len(),
        bits_value(k@) > 0 ==> bits_value(r@) + bits_value(k@) == pow2(k@.len()),
{
    let mut r: Vec<bool> = Vec::new();
    let mut carry: bool = true;
    proof {
        lemma_pow2_zero();
        assert(k@.take(0) =~= Seq::<bool>::empty());
    }
    let mut i: usize = 0;
    while i < k.len()
        invariant
            i <= k@.len(),
            r@.len() == i,
            bits_value(r@) + pow2(i as nat) * bit_int(carry) == pow2(i as nat) - bits_value(
                k@.take(i as int),
            ),
        decreases k@.len() - i,
    {
        let b = !k[i];
        proof {
            lemma_bits_value_snoc(r@, b != carry);
            lemma_bits_value_snoc(k@.take(i as int), k@[i as int]);
            assert(k@.take(i + 1) =~= k@.take(i as int).push(k@[i as int]));
            vstd::arithmetic::power2::lemma_pow2_unfold((i + 1) as nat);
            lemma_bits_value_bound(k@.take(i as int));
        }
        r.push(b != carry);
        carry = b && carry;
        i += 1;
    }
    proof {
        assert(k@.take(k@.len() as int) =~= k@);
        if bits_value(k@) > 0 {
            lemma_bits_value_bound(r@);
        }
    }
    r
}

/// Bits of `(k + 1) mod pow2(n)` for an `n`-bit constant `k`.
fn increment_bits(k: &Vec<bool>) -> (r: Vec<bool>)
    ensures
        r@.len() == k@.len(),
        bits_value(k@) + 1 < pow2(k@.len()) ==> bits_value(r@) == bits_value(k@) + 1,
{
    let mut r: Vec<bool> = Vec::new();
    let mut carry: bool = true;
    proof {
        lemma_pow2_zero();
        assert(k@.take(0) =~= Seq::<bool>::empty());
    }
    let mut i: usize = 0;
    while i < k.len()
        invariant
            i <= k@.len(),
            r@.len() == i,
            bits_value(r@) + pow2(i as nat) * bit_int(carry) == bits_value(k@.take(i as int))
                + 1,
        decreases k@.len() - i,
    {
        let b = k[i];
        proof {
            lemma_bits_value_snoc(r@, b != carry);
            lemma_bits_value_snoc(k@.take(i as int), k@[i as int]);
            assert(k@.take(i + 1) =~= k@.take(i as int).push(k@[i as int]));
            vstd::arithmetic::power2::lemma_pow2_unfold((i + 1) as nat);
        }
        r.push(b != carry);
        carry = b && carry;
        i += 1;
    }
    proof {
        assert(k@.take(k@.len() as int) =~= k@);
        if bits_value(k@) + 1 < pow2(k@.len()) {
            lemma_bits_value_bound(r@);
        }
    }
    r
}

/// The constant `k` zero-padded at the most significant end to `n` bits.
fn pad_false(k: &Vec<bool>, n: usize) -> (r: Vec<bool>)
    requires
        k@.len() <= n,
    ensures
        r@.len() == n,
        bits_value(r@) == bits_value(k@),
{
    let mut r: Vec<bool> = Vec::new();
    proof {
        assert(k@.take(0) =~= Seq::<bool>::empty());
    }
    let mut i: usize = 0;
    while i < k.len()
        invariant
            i <= k@.len(),
            r@.len() == i,
            bits_value(r@) == bits_value(k@.take(i as int)),
        decreases k@.len() - i,
    {
        proof {
            lemma_bits_value_snoc(r@, k@[i as int]);
            lemma_bits_value_snoc(k@.take(i as int), k@[i as int]);
            assert(k@.take(i + 1) =~= k@.take(i as int).push(k@[i as int]));
        }
        r.push(k[i]);
        i += 1;
    }
    proof {
        assert(k@.take(k@.len() as int) =~= k@);
    }
    while i < n
        invariant
            r@.len() == i,
            i <= n,
            bits_value(r@) == bits_value(k@),
        decreases n - i,
    {
        proof {
            lemma_bits_value_snoc(r@, false);
        }
        r.push(false);
        i += 1;
    }
    r
}

impl Fq {
    /// Reduce a 255-bit value below `2p`: add `pow2(255) - p` and select, on
    /// the carry, between the low bits of the sum (`t - p`) and `t` itself.
    fn reduce_255(c: &mut Circuit, t: &Wires, red: &Vec<bool>) -> (out: Wires)
        requires
            old(c).wf(),
            t@.len() == 255,
            red@.len() == 255,
            bits_value(red@) + fq_modulus() == pow2(255),
            wires_in(t@, old(c).n_wires()),
            old(c).n_wires() + 1783 <= usize::MAX,
        ensures
            final(c).wf(),
            final(c).extends(*old(c)),
            final(c).n_wires() <= old(c).n_wires() + 1783,
            out@.len() == 254,
            wires_in(out@, final(c).n_wires()),
            forall|inputs: Seq<bool>|
                bits_value(wire_vals(*final(c), inputs, t@)) < 2 * fq_modulus()
                    ==> #[trigger] bits_value(wire_vals(*final(c), inputs, out@)) == bits_value(
                    wire_vals(*final(c), inputs, t@),
                ) % fq_modulus(),
    {
        let ghost cp = *c;
        let s = BigIntImpl::<255>::add_constant(c, t, red);
        let carry = s[255];
        let slo = subwires(&s, 0, 254);
        let tlo = subwires(t, 0, 254);
        let ghost c1 = *c;
        let out = BigIntImpl::<254>::select(c, &slo, &tlo, carry);
        proof {
            lemma_fq_modulus_bounds();
            let p = fq_modulus();
            assert forall|inputs: Seq<bool>|
                bits_value(wire_vals(*c, inputs, t@)) < 2 * p implies #[trigger] bits_value(
                wire_vals(*c, inputs, out@),
            ) == bits_value(wire_vals(*c, inputs, t@)) % p by {
                lemma_wire_vals_extends(c1, *c, inputs, s@);
                lemma_wire_vals_extends(c1, *c, inputs, t@);
                let sv = wire_vals(*c, inputs, s@);
                let tv = wire_vals(*c, inputs, t@);
                let tn = bits_value(tv);
                assert(bits_value(sv) == tn + bits_value(red@));
                lemma_bits_value_split(sv, 255);
                lemma_bits_value_single(sv.skip(255));
                lemma_bits_value_bound(sv.take(255));
                assert(sv.skip(255)[0] == sv[255]);
                assert(sv[255] == wire_val(*c, inputs, s@[255] as int));
                assert(wire_vals(*c, inputs, slo@) == sv.subrange(0, 254));
                assert(wire_vals(*c, inputs, tlo@) == tv.subrange(0, 254));
                assert(sv.take(255) =~= sv.subrange(0, 255));
                assert(tv.take(254) =~= tv.subrange(0, 254));
                if wire_val(*c, inputs, carry as int) {
                    // t >= p: the result is the low half of t + pow2(255) - p
                    assert(bits_value(sv.take(255)) == tn - p);
                    lemma_bits_value_split(sv.take(255), 254);
                    lemma_bits_value_single(sv.take(255).skip(254));
                    assert(sv.take(255).take(254) =~= sv.subrange(0, 254));
                    lemma_bits_value_bound(sv.subrange(0, 254));
                    assert(tn - p < p);
                    assert(bits_value(sv.subrange(0, 254)) == tn - p);
                    assert(wire_vals(*c, inputs, out@) == wire_vals(*c, inputs, slo@));
                    lemma_mod_reduce_once(tn, p);
                } else {
                    // t < p: the sum did not carry, keep t
                    assert(bits_value(sv) == bits_value(sv.take(255)));
                    assert(tn < p);
                    lemma_bits_value_split(tv, 254);
                    lemma_bits_value_single(tv.skip(254));
                    lemma_bits_value_bound(tv.take(254));
                    assert(tn < pow2(254));
                    assert(bits_value(tv.subrange(0, 254)) == tn);
                    assert(wire_vals(*c, inputs, out@) == wire_vals(*c, inputs, tlo@));
                    lemma_small_mod(tn, p);
                }
            }
        }
        out
    }

    /// Reduce a 254-bit value below `2p`: add `pow2(254) - p` and select on
    /// the carry.
    fn reduce_254(c: &mut Circuit, t: &Wires, red: &Vec<bool>) -> (out: Wires)
        requires
            old(c).wf(),
            t@.len() == 254,
            red@.len() == 254,
            bits_value(red@) + fq_modulus() == pow2(254),
            wires_in(t@, old(c).n_wires()),
            old(c).n_wires() + 1779 <= usize::MAX,
        ensures
            final(c).wf(),
            final(c).extends(*old(c)),
            final(c).n_wires() <= old(c).n_wires() + 1779,
            out@.len() == 254,
            wires_in(out@, final(c).n_wires()),
            forall|inputs: Seq<bool>|
                bits_value(wire_vals(*final(c), inputs, t@)) < 2 * fq_modulus()
                    ==> #[trigger] bits_value(wire_vals(*final(c), inputs, out@)) == bits_value(
                    wire_vals(*final(c), inputs, t@),
                ) % fq_modulus(),
    {
        let ghost cp = *c;
        let s = BigIntImpl::<254>::add_constant(c, t, red);
        let carry = s[254];
        let slo = subwires(&s, 0, 254);
        let ghost c1 = *c;
        let out = BigIntImpl::<254>::select(c, &slo, t, carry);
        proof {
            lemma_fq_modulus_bounds();
            let p = fq_modulus();
            assert forall|inputs: Seq<bool>|
                bits_value(wire_vals(*c, inputs, t@)) < 2 * p implies #[trigger] bits_value(
                wire_vals(*c, inputs, out@),
            ) == bits_value(wire_vals(*c, inputs, t@)) % p by {
                lemma_wire_vals_extends(c1, *c, inputs, s@);
                lemma_wire_vals_extends(c1, *c, inputs, t@);
                let sv = wire_vals(*c, inputs, s@);
                let tv = wire_vals(*c, inputs, t@);
                let tn = bits_value(tv);
                assert(bits_value(sv) == tn + bits_value(red@));
                lemma_bits_value_split(sv, 254);
                lemma_bits_value_single(sv.skip(254));
                lemma_bits_value_bound(sv.take(254));
                assert(sv.skip(254)[0] == sv[254]);
                assert(sv[254] == wire_val(*c, inputs, s@[254] as int));
                assert(wire_vals(*c, inputs, slo@) == sv.subrange(0, 254));
                assert(sv.take(254) =~= sv.subrange(0, 254));
                if wire_val(*c, inputs, carry as int) {
                    assert(bits_value(sv.subrange(0, 254)) == tn - p);
                    assert(wire_vals(*c, inputs, out@) == wire_vals(*c, inputs, slo@));
                    lemma_mod_reduce_once(tn, p);
                } else {
                    assert(bits_value(sv) == bits_value(sv.take(254)));
                    assert(tn < p);
                    assert(wire_vals(*c, inputs, out@) == tv);
                    lemma_small_mod(tn, p);
                }
            }
        }
        out
    }

    /// Field addition: full adder then one conditional subtraction.  For
    /// reduced operands the result wires denote `(a + b) mod p`.
    pub fn add(c: &mut Circuit, a: &Wires, b: &Wires) -> (out: Wires)
        requires
            old(c).wf(),
            a@.len() == 254,
            b@.len() == 254,
            wires_in(a@, old(c).n_wires()),
            wires_in(b@, old(c).n_wires()),
            old(c).n_wires() + 3054 <= usize::MAX,
        ensures
            final(c).wf(),
            final(c).extends(*old(c)),
            final(c).n_wires() <= old(c).n_wires() + 3054,
            out@.len() == 254,
            wires_in(out@, final(c).n_wires()),
            forall|inputs: Seq<bool>|
                (bits_value(wire_vals(*final(c), inputs, a@)) < fq_modulus() && bits_value(
                    wire_vals(*final(c), inputs, b@),
                ) < fq_modulus()) ==> #[trigger] bits_value(wire_vals(*final(c), inputs, out@))
                    == (bits_value(wire_vals(*final(c), inputs, a@)) + bits_value(
                    wire_vals(*final(c), inputs, b@),
                )) % fq_modulus(),
    {
        let p = fq_modulus_bits();
        proof {
            lemma_fq_modulus_bounds();
        }
        let red = twos_complement_bits(&pad_false(&p, 255));
        let u = BigIntImpl::<254>::add(c, a, b);
        let ghost c1 = *c;
        let out = Self::reduce_255(c, &u, &red);
        proof {
            assert forall|inputs: Seq<bool>|
                (bits_value(wire_vals(*c, inputs, a@)) < fq_modulus() && bits_value(
                    wire_vals(*c, inputs, b@),
                ) < fq_modulus()) implies #[trigger] bits_value(wire_vals(*c, inputs, out@)) == (
            bits_value(wire_vals(*c, inputs, a@)) + bits_value(wire_vals(*c, inputs, b@)))
                % fq_modulus() by {
                lemma_wire_vals_extends(c1, *c, inputs, a@);
                lemma_wire_vals_extends(c1, *c, inputs, b@);
                lemma_wire_vals_extends(c1, *c, inputs, u@);
            }
        }
        out
    }

    /// Field addition of a constant given as its 254 little-endian bits; the
    /// constant must itself be reduced.
    pub fn add_constant(c: &mut Circuit, a: &Wires, k: &Vec<bool>) -> (out: Wires)
        requires
            old(c).wf(),
            a@.len() == 254,
            k@.len() == 254,
            wires_in(a@, old(c).n_wires()),
            old(c).n_wires() + 2800 <= usize::MAX,
        ensures
            final(c).wf(),
            final(c).extends(*old(c)),
            final(c).n_wires() <= old(c).n_wires() + 2800,
            out@.len() == 254,
            wires_in(out@, final(c).n_wires()),
            forall|inputs: Seq<bool>|
                (bits_value(wire_vals(*final(c), inputs, a@)) < fq_modulus() && bits_value(k@)
                    < fq_modulus()) ==> #[trigger] bits_value(wire_vals(*final(c), inputs, out@))
                    == (bits_value(wire_vals(*final(c), inputs, a@)) + bits_value(k@))
                    % fq_modulus(),
    {
        let p = fq_modulus_bits();
        proof {
            lemma_fq_modulus_bounds();
        }
        let red = twos_complement_bits(&pad_false(&p, 255));
        let u = BigIntImpl::<254>::add_constant(c, a, k);
        let ghost c1 = *c;
        let out = Self::reduce_255(c, &u, &red);
        proof {
            assert forall|inputs: Seq<bool>|
                (bits_value(wire_vals(*c, inputs, a@)) < fq_modulus() && bits_value(k@)
                    < fq_modulus()) implies #[trigger] bits_value(wire_vals(*c, inputs, out@))
                == (bits_value(wire_vals(*c, inputs, a@)) + bits_value(k@)) % fq_modulus() by {
                lemma_wire_vals_extends(c1, *c, inputs, a@);
                lemma_wire_vals_extends(c1, *c, inputs, u@);
            }
        }
        out
    }

    /// Field doubling: a one-position shift (no gates) then one reduction.
    pub fn double(c: &mut Circuit, a: &Wires) -> (out: Wires)
        requires
            old(c).wf(),
            a@.len() == 254,
            wires_in(a@, old(c).n_wires()),
            old(c).n_wires() + 1784 <= usize::MAX,
        ensures
            final(c).wf(),
            final(c).extends(*old(c)),
            final(c).n_wires() <= old(c).n_wires() + 1784,
            out@.len() == 254,
            wires_in(out@, final(c).n_wires()),
            forall|inputs: Seq<bool>|
                bits_value(wire_vals(*final(c), inputs, a@)) < fq_modulus()
                    ==> #[trigger] bits_value(wire_vals(*final(c), inputs, out@)) == (2
                    * bits_value(wire_vals(*final(c), inputs, a@))) % fq_modulus(),
    {
        let p = fq_modulus_bits();
        proof {
            lemma_fq_modulus_bounds();
        }
        let red = twos_complement_bits(&pad_false(&p, 255));
        let z = c.emit_false(a[0]);
        let mut zv: Wires = Vec::new();
        zv.push(z);
        let t = concat_wires(&zv, a);
        proof {
            assert forall|j: int| 0 <= j < t@.len() implies (#[trigger] t@[j]) < c.n_wires() by {
                if j > 0 {
                    assert(t@[j] == a@[j - 1]);
                }
            }
        }
        let ghost c1 = *c;
        let out = Self::reduce_255(c, &t, &red);
        proof {
            assert forall|inputs: Seq<bool>|
                bits_value(wire_vals(*c, inputs, a@)) < fq_modulus() implies #[trigger]
            bits_value(wire_vals(*c, inputs, out@)) == (2 * bits_value(
                wire_vals(*c, inputs, a@),
            )) % fq_modulus() by {
                lemma_wire_vals_extends(c1, *c, inputs, a@);
                lemma_wire_vals_extends(c1, *c, inputs, t@);
                let tv = wire_vals(*c, inputs, t@);
                assert(tv[0] == wire_val(*c, inputs, z as int));
                assert(wire_val(c1, inputs, z as int) == false) by {
                    lemma_wire_val_extends(c1, *c, inputs, z as int);
                }
                assert(tv[0] == false);
                assert(tv.skip(1) =~= wire_vals(*c, inputs, a@));
                assert(bits_value(tv) == 2 * bits_value(wire_vals(*c, inputs, a@)));
            }
        }
        out
    }

    /// Field negation: `p - a` computed as `NOT a + (p + 1)` modulo
    /// `pow2(254)`, then one reduction (which maps the `a = 0` case, whose
    /// raw result is `p`, back to zero).
    pub fn neg(c: &mut Circuit, a: &Wires) -> (out: Wires)
        requires
            old(c).wf(),
            a@.len() == 254,
            wires_in(a@, old(c).n_wires()),
            old(c).n_wires() + 3050 <= usize::MAX,
        ensures
            final(c).wf(),
            final(c).extends(*old(c)),
            final(c).n_wires() <= old(c).n_wires() + 3050,
            out@.len() == 254,
            wires_in(out@, final(c).n_wires()),
            forall|inputs: Seq<bool>|
                bits_value(wire_vals(*final(c), inputs, a@)) < fq_modulus()
                    ==> #[trigger] bits_value(wire_vals(*final(c), inputs, out@)) == (fq_modulus()
                    - bits_value(wire_vals(*final(c), inputs, a@))) % (fq_modulus() as int),
    {
        let ghost cp = *c;
        let p = fq_modulus_bits();
        proof {
            lemma_fq_modulus_bounds();
            lemma_bits_value_bound(p@);
        }
        let red = twos_complement_bits(&p);
        let p1 = increment_bits(&p);
        let mut not_a: Wires = Vec::new();
        proof {
            lemma_extends_refl(*c);
        }
        let mut i: usize = 0;
        while i < 254
            invariant
                c.wf(),
                c.extends(cp),
                a@.len() == 254,
                wires_in(a@, cp.n_wires()),
                cp.n_wires() + 3050 <= usize::MAX,
                i <= 254,
                not_a@.len() == i,
                wires_in(not_a@, c.n_wires()),
                cp.n_wires() <= c.n_wires(),
                c.n_wires() <= cp.n_wires() + (i as int),
                forall|inputs: Seq<bool>, j: int|
                    0 <= j < i ==> #[trigger] wire_val(*c, inputs, not_a@[j] as int) == !wire_val(
                        *c,
                        inputs,
                        a@[j] as int,
                    ),
            decreases 254 - i,
        {
            let ghost cq = *c;
            let ghost na_prev = not_a@;
            let w = c.emit(GateKind::Not, a[i], a[i]);
            not_a.push(w);
            proof {
                assert forall|inputs: Seq<bool>, j: int| 0 <= j < i + 1 implies #[trigger]
                    wire_val(*c, inputs, not_a@[j] as int) == !wire_val(
                    *c,
                    inputs,
                    a@[j] as int,
                ) by {
                    if j < i {
                        assert(wire_val(cq, inputs, na_prev[j] as int) == !wire_val(
                            cq,
                            inputs,
                            a@[j] as int,
                        ));
                        lemma_wire_val_extends(cq, *c, inputs, na_prev[j] as int);
                        lemma_wire_val_extends(cq, *c, inputs, a@[j] as int);
                        assert(not_a@[j] == na_prev[j]);
                    } else {
                        assert(wire_val(*c, inputs, w as int) == crate::circuit::gate_eval(
                            GateKind::Not,
                            wire_val(*c, inputs, a@[i as int] as int),
                            wire_val(*c, inputs, a@[i as int] as int),
                        ));
                    }
                }
            }
            i += 1;
        }
        let ghost c1 = *c;
        let v = BigIntImpl::<254>::add_constant(c, &not_a, &p1);
        let t = subwires(&v, 0, 254);
        let ghost c2 = *c;
        let out = Self::reduce_254(c, &t, &red);
        proof {
            let pn = fq_modulus();
            assert forall|inputs: Seq<bool>|
                bits_value(wire_vals(*c, inputs, a@)) < pn implies #[trigger] bits_value(
                wire_vals(*c, inputs, out@),
            ) == (pn - bits_value(wire_vals(*c, inputs, a@))) % (pn as int) by {
                lemma_wire_vals_extends(c2, *c, inputs, v@);
                lemma_wire_vals_extends(c2, *c, inputs, t@);
                lemma_wire_vals_extends(c1, c2, inputs, a@);
                lemma_wire_vals_extends(c2, *c, inputs, a@);
                lemma_wire_vals_extends(c1, c2, inputs, not_a@);
                lemma_wire_vals_extends(c2, *c, inputs, not_a@);
                let av = wire_vals(*c, inputs, a@);
                let nav = wire_vals(*c, inputs, not_a@);
                assert forall|j: int| 0 <= j < 254 implies #[trigger] nav[j] == !av[j] by {
                    assert(wire_val(c1, inputs, not_a@[j] as int) == !wire_val(
                        c1,
                        inputs,
                        a@[j] as int,
                    ));
                    lemma_wire_val_extends(c1, *c, inputs, not_a@[j] as int);
                    lemma_wire_val_extends(c1, *c, inputs, a@[j] as int);
                }
                lemma_bits_value_complement(av, nav);
                let an = bits_value(av);
                let vv = wire_vals(*c, inputs, v@);
                assert(bits_value(vv) == bits_value(nav) + bits_value(p1@));
                assert(bits_value(vv) == pow2(254) + pn - an);
                lemma_bits_value_split(vv, 254);
                lemma_bits_value_single(vv.skip(254));
                lemma_bits_value_bound(vv.take(254));
                assert(vv.take(254) =~= vv.subrange(0, 254));
                assert(wire_vals(*c, inputs, t@) == vv.subrange(0, 254));
                assert(bits_value(vv.take(254)) == pn - an);
                assert(bits_value(wire_vals(*c, inputs, t@)) < 2 * pn);
            }
        }
        out
    }

    /// Field subtraction, lowered as `a + (p - b)`.
    pub fn sub(c: &mut Circuit, a: &Wires, b: &Wires) -> (out: Wires)
        requires
            old(c).wf(),
            a@.len() == 254,
            b@.len() == 254,
            wires_in(a@, old(c).n_wires()),
            wires_in(b@, old(c).n_wires()),
            old(c).n_wires() + 6104 <= usize::MAX,
        ensures
            final(c).wf(),
            final(c).extends(*old(c)),
            final(c).n_wires() <= old(c).n_wires() + 6104,
            out@.len() == 254,
            wires_in(out@, final(c).n_wires()),
            forall|inputs: Seq<bool>|
                (bits_value(wire_vals(*final(c), inputs, a@)) < fq_modulus() && bits_value(
                    wire_vals(*final(c), inputs, b@),
                ) < fq_modulus()) ==> #[trigger] bits_value(wire_vals(*final(c), inputs, out@))
                    == (bits_value(wire_vals(*final(c), inputs, a@)) + fq_modulus() - bits_value(
                    wire_vals(*final(c), inputs, b@),
                )) % (fq_modulus() as int),
    {
        let ghost cp = *c;
        let nb = Self::neg(c, b);
        let ghost c1 = *c;
        let out = Self::add(c, a, &nb);
        proof {
            lemma_fq_modulus_bounds();
            let pn = fq_modulus();
            assert forall|inputs: Seq<bool>|
                (bits_value(wire_vals(*c, inputs, a@)) < pn && bits_value(
                    wire_vals(*c, inputs, b@),
                ) < pn) implies #[trigger] bits_value(wire_vals(*c, inputs, out@)) == (bits_value(
                wire_vals(*c, inputs, a@),
            ) + pn - bits_value(wire_vals(*c, inputs, b@))) % (pn as int) by {
                lemma_wire_vals_extends(c1, *c, inputs, b@);
                lemma_wire_vals_extends(c1, *c, inputs, nb@);
                let an = bits_value(wire_vals(*c, inputs, a@));
                let bn = bits_value(wire_vals(*c, inputs, b@));
                let nn = bits_value(wire_vals(*c, inputs, nb@));
                assert(nn == (pn - bn) % (pn as int));
                vstd::arithmetic::div_mod::lemma_mod_bound((pn - bn) as int, pn as int);
                assert(bits_value(wire_vals(*c, inputs, out@)) == (an + nn) % pn);
                lemma_add_mod_noop_right(an as int, pn - bn, pn as int);
            }
        }
        out
    }

    /// Field multiplication by double-and-add from the most significant bit
    /// of `b` down, reducing after every shift and every conditional add: for
    /// a reduced first operand the result wires denote `(a * b) mod p`.
    pub fn mul(c: &mut Circuit, a: &Wires, b: &Wires) -> (out: Wires)
        requires
            old(c).wf(),
            a@.len() == 254,
            b@.len() == 254,
            wires_in(a@, old(c).n_wires()),
            wires_in(b@, old(c).n_wires()),
            old(c).n_wires() + 1300000 <= usize::MAX,
        ensures
            final(c).wf(),
            final(c).extends(*old(c)),
            final(c).n_wires() <= old(c).n_wires() + 1300000,
            out@.len() == 254,
            wires_in(out@, final(c).n_wires()),
            forall|inputs: Seq<bool>|
                bits_value(wire_vals(*final(c), inputs, a@)) < fq_modulus()
                    ==> #[trigger] bits_value(wire_vals(*final(c), inputs, out@)) == fq_mul_val(
                    bits_value(wire_vals(*final(c), inputs, a@)),
                    bits_value(wire_vals(*final(c), inputs, b@)),
                ),
    {
        let ghost cp = *c;
        let p = fq_modulus_bits();
        proof {
            lemma_fq_modulus_bounds();
        }
        let red = twos_complement_bits(&pad_false(&p, 255));
        let z = c.emit_false(a[0]);
        let mut acc: Wires = Vec::new();
        let mut q: usize = 0;
        while q < 254
            invariant
                q <= 254,
                acc@.len() == q,
                forall|j: int| 0 <= j < q ==> #[trigger] acc@[j] == z,
            decreases 254 - q,
        {
            acc.push(z);
            q += 1;
        }
        proof {
            assert forall|inputs: Seq<bool>|
                bits_value(wire_vals(*c, inputs, a@)) < fq_modulus() implies #[trigger]
            bits_value(wire_vals(*c, inputs, acc@)) == (bits_value(wire_vals(*c, inputs, a@))
                * bits_value(wire_vals(*c, inputs, b@).skip(254 - 0))) % fq_modulus() by {
                assert(wire_vals(*c, inputs, b@).skip(254) =~= Seq::<bool>::empty());
                assert forall|k: int|
                    0 <= k < wire_vals(*c, inputs, acc@).len() implies !(#[trigger] wire_vals(
                    *c,
                    inputs,
                    acc@,
                )[k]) by {
                    assert(acc@[k] == z);
                }
                lemma_bits_value_zero(wire_vals(*c, inputs, acc@));
                lemma_small_mod(0, fq_modulus());
                assert(bits_value(wire_vals(*c, inputs, a@)) * 0nat == 0nat) by (nonlinear_arith);
            }
        }
        let mut i: usize = 0;
        while i < 254
            invariant
                c.wf(),
                c.extends(*old(c)),
                a@.len() == 254,
                b@.len() == 254,
                red@.len() == 255,
                bits_value(red@) + fq_modulus() == pow2(255),
                wires_in(a@, old(c).n_wires()),
                wires_in(b@, old(c).n_wires()),
                old(c).n_wires() + 1300000 <= usize::MAX,
                i <= 254,
                acc@.len() == 254,
                wires_in(acc@, c.n_wires()),
                old(c).n_wires() <= c.n_wires(),
                c.n_wires() <= old(c).n_wires() + 1 + 5100 * (i as int),
                forall|inputs: Seq<bool>|
                    bits_value(wire_vals(*c, inputs, a@)) < fq_modulus() ==> #[trigger]
                    bits_value(wire_vals(*c, inputs, acc@)) == (bits_value(
                        wire_vals(*c, inputs, a@),
                    ) * bits_value(wire_vals(*c, inputs, b@).skip(254 - i))) % fq_modulus(),
            decreases 254 - i,
        {
            let ghost cq = *c;
            let ghost acc_prev = acc@;
            // acc := 2 * acc mod p
            let z2 = c.emit_false(acc[0]);
            let ghost cz = *c;
            let mut zv: Wires = Vec::new();
            zv.push(z2);
            let t = concat_wires(&zv, &acc);
            proof {
                assert forall|j: int| 0 <= j < t@.len() implies (#[trigger] t@[j])
                    < c.n_wires() by {
                    if j > 0 {
                        assert(t@[j] == acc@[j - 1]);
                    }
                }
            }
            acc = Self::reduce_255(c, &t, &red);
            let ghost c1 = *c;
            let ghost acc_mid = acc@;
            // acc := acc + (b_i ? a : 0) mod p
            let m = BigIntImpl::<254>::self_or_zero(c, a, b[253 - i]);
            let ghost c2 = *c;
            let u = BigIntImpl::<254>::add(c, &acc, &m);
            let ghost c3 = *c;
            acc = Self::reduce_255(c, &u, &red);
            proof {
                let pn = fq_modulus();
                assert forall|inputs: Seq<bool>|
                    bits_value(wire_vals(*c, inputs, a@)) < pn implies #[trigger] bits_value(
                    wire_vals(*c, inputs, acc@),
                ) == (bits_value(wire_vals(*c, inputs, a@)) * bits_value(
                    wire_vals(*c, inputs, b@).skip(254 - (i + 1)),
                )) % pn by {
                    lemma_wire_vals_extends(cq, *c, inputs, a@);
                    lemma_wire_vals_extends(cq, *c, inputs, b@);
                    lemma_wire_vals_extends(cq, *c, inputs, acc_prev);
                    lemma_wire_val_extends(cz, *c, inputs, z2 as int);
                    lemma_wire_vals_extends(c1, *c, inputs, t@);
                    lemma_wire_vals_extends(c1, *c, inputs, acc_mid);
                    lemma_wire_vals_extends(c2, *c, inputs, acc_mid);
                    lemma_wire_vals_extends(c2, *c, inputs, m@);
                    lemma_wire_vals_extends(c2, *c, inputs, a@);
                    lemma_wire_val_extends(c2, *c, inputs, b@[253 - i] as int);
                    lemma_wire_vals_extends(c3, *c, inputs, u@);
                    lemma_wire_vals_extends(c3, *c, inputs, m@);
                    lemma_wire_vals_extends(c3, *c, inputs, acc_mid);
                    let av = bits_value(wire_vals(*c, inputs, a@));
                    let hv = bits_value(wire_vals(*c, inputs, b@).skip(254 - i));
                    // the shift denotes twice the accumulator
                    assert(wire_val(cz, inputs, z2 as int) == false);
                    assert(wire_vals(*c, inputs, t@)[0] == wire_val(*c, inputs, z2 as int));
                    assert(wire_vals(*c, inputs, t@).skip(1) =~= wire_vals(*c, inputs, acc_prev));
                    assert(bits_value(wire_vals(*c, inputs, t@)) == 2 * bits_value(
                        wire_vals(*c, inputs, acc_prev),
                    ));
                    // the invariant for the previous prefix of b
                    assert(bits_value(wire_vals(cq, inputs, acc_prev)) == (bits_value(
                        wire_vals(cq, inputs, a@),
                    ) * bits_value(wire_vals(cq, inputs, b@).skip(254 - i))) % pn);
                    lemma_mod_bound((av * hv) as int, pn as int);
                    // first reduction
                    assert(bits_value(wire_vals(*c, inputs, t@)) < 2 * pn);
                    assert(bits_value(wire_vals(c1, inputs, acc_mid)) == bits_value(
                        wire_vals(c1, inputs, t@),
                    ) % pn);
                    lemma_mul_mod_noop_right(2, (av * hv) as int, pn as int);
                    assert(bits_value(wire_vals(*c, inputs, acc_mid)) == (2 * (av * hv)) % pn);
                    lemma_mod_bound((2 * (av * hv)) as int, pn as int);
                    // the masked operand
                    let bitw = wire_val(*c, inputs, b@[253 - i] as int);
                    assert(bits_value(wire_vals(c2, inputs, m@)) == (if wire_val(
                        c2,
                        inputs,
                        b@[253 - i] as int,
                    ) {
                        bits_value(wire_vals(c2, inputs, a@))
                    } else {
                        0nat
                    }));
                    let mv = bits_value(wire_vals(*c, inputs, m@));
                    assert(mv == (if bitw {
                        av
                    } else {
                        0nat
                    }));
                    // conditional add and second reduction
                    assert(bits_value(wire_vals(c3, inputs, u@)) == bits_value(
                        wire_vals(c3, inputs, acc_mid),
                    ) + bits_value(wire_vals(c3, inputs, m@)));
                    assert(bits_value(wire_vals(*c, inputs, u@)) < 2 * pn);
                    assert(bits_value(wire_vals(*c, inputs, acc@)) == bits_value(
                        wire_vals(*c, inputs, u@),
                    ) % pn);
                    assert(bits_value(wire_vals(*c, inputs, acc@)) == (bits_value(
                        wire_vals(*c, inputs, acc_mid),
                    ) + mv) % pn);
                    lemma_add_mod_noop_right(mv as int, (2 * (av * hv)) as int, pn as int);
                    assert(bits_value(wire_vals(*c, inputs, acc@)) == (2 * (av * hv) + mv) % pn);
                    // fold the consumed bit into the running prefix of b
                    let hv2 = bits_value(wire_vals(*c, inputs, b@).skip(254 - (i + 1)));
                    assert(wire_vals(*c, inputs, b@).skip(253 - i)[0] == wire_vals(
                        *c,
                        inputs,
                        b@,
                    )[253 - i]);
                    assert(wire_vals(*c, inputs, b@)[253 - i] == bitw);
                    assert(wire_vals(*c, inputs, b@).skip(253 - i).skip(1) =~= wire_vals(
                        *c,
                        inputs,
                        b@,
                    ).skip(254 - i));
                    assert(hv2 == bit_int(bitw) + 2 * hv);
                    if bitw {
                        assert(2 * (av * hv) + av == av * (2 * hv + 1)) by (nonlinear_arith);
                    } else {
                        assert(2 * (av * hv) == av * (2 * hv)) by (nonlinear_arith);
                    }
                    assert(2 * (av * hv) + mv == av * hv2);
                }
            }
            i += 1;
        }
        proof {
            assert forall|inputs: Seq<bool>|
                bits_value(wire_vals(*c, inputs, a@)) < fq_modulus() implies #[trigger]
            bits_value(wire_vals(*c, inputs, acc@)) == fq_mul_val(
                bits_value(wire_vals(*c, inputs, a@)),
                bits_value(wire_vals(*c, inputs, b@)),
            ) by {
                assert(wire_vals(*c, inputs, b@).skip(0) =~= wire_vals(*c, inputs, b@));
            }
        }
        acc
    }

    /// Field squaring, emitted as a self-multiplication: for a reduced
    /// operand the result wires denote `(a * a) mod p`.
    pub fn square(c: &mut Circuit, a: &Wires) -> (out: Wires)
        requires
            old(c).wf(),
            a@.len() == 254,
            wires_in(a@, old(c).n_wires()),
            old(c).n_wires() + 1300000 <= usize::MAX,
        ensures
            final(c).wf(),
            final(c).extends(*old(c)),
            final(c).n_wires() <= old(c).n_wires() + 1300000,
            out@.len() == 254,
            wires_in(out@, final(c).n_wires()),
            forall|inputs: Seq<bool>|
                bits_value(wire_vals(*final(c), inputs, a@)) < fq_modulus()
                    ==> #[trigger] bits_value(wire_vals(*final(c), inputs, out@)) == fq_mul_val(
                    bits_value(wire_vals(*final(c), inputs, a@)),
                    bits_value(wire_vals(*final(c), inputs, a@)),
                ),
    {
        Self::mul(c, a, a)
    }

    /// Field multiplication by a constant given as its 254 little-endian
    /// bits, by double-and-add with the additions decided at synthesis time:
    /// for a reduced operand the result wires denote `(a * k) mod p`.
    pub fn mul_by_constant(c: &mut Circuit, a: &Wires, k: &Vec<bool>) -> (out: Wires)
        requires
            old(c).wf(),
            a@.len() == 254,
            k@.len() == 254,
            wires_in(a@, old(c).n_wires()),
            old(c).n_wires() + 1300000 <= usize::MAX,
        ensures
            final(c).wf(),
            final(c).extends(*old(c)),
            final(c).n_wires() <= old(c).n_wires() + 1300000,
            out@.len() == 254,
            wires_in(out@, final(c).n_wires()),
            forall|inputs: Seq<bool>|
                bits_value(wire_vals(*final(c), inputs, a@)) < fq_modulus()
                    ==> #[trigger] bits_value(wire_vals(*final(c), inputs, out@)) == fq_mul_val(
                    bits_value(wire_vals(*final(c), inputs, a@)),
                    bits_value(k@),
                ),
    {
        let ghost cp = *c;
        let p = fq_modulus_bits();
        proof {
            lemma_fq_modulus_bounds();
        }
        let red = twos_complement_bits(&pad_false(&p, 255));
        let z = c.emit_false(a[0]);
        let mut acc: Wires = Vec::new();
        let mut q: usize = 0;
        while q < 254
            invariant
                q <= 254,
                acc@.len() == q,
                forall|j: int| 0 <= j < q ==> #[trigger] acc@[j] == z,
            decreases 254 - q,
        {
            acc.push(z);
            q += 1;
        }
        proof {
            assert forall|inputs: Seq<bool>|
                bits_value(wire_vals(*c, inputs, a@)) < fq_modulus() implies #[trigger]
            bits_value(wire_vals(*c, inputs, acc@)) == (bits_value(wire_vals(*c, inputs, a@))
                * bits_value(k@.skip(254 - 0))) % fq_modulus() by {
                assert(k@.skip(254) =~= Seq::<bool>::empty());
                assert forall|kx: int|
                    0 <= kx < wire_vals(*c, inputs, acc@).len() implies !(#[trigger] wire_vals(
                    *c,
                    inputs,
                    acc@,
                )[kx]) by {
                    assert(acc@[kx] == z);
                }
                lemma_bits_value_zero(wire_vals(*c, inputs, acc@));
                lemma_small_mod(0, fq_modulus());
                assert(bits_value(wire_vals(*c, inputs, a@)) * 0nat == 0nat) by (nonlinear_arith);
            }
        }
        let mut i: usize = 0;
        while i < 254
            invariant
                c.wf(),
                c.extends(*old(c)),
                a@.len() == 254,
                k@.len() == 254,
                red@.len() == 255,
                bits_value(red@) + fq_modulus() == pow2(255),
                wires_in(a@, old(c).n_wires()),
                old(c).n_wires() + 1300000 <= usize::MAX,
                i <= 254,
                acc@.len() == 254,
                wires_in(acc@, c.n_wires()),
                old(c).n_wires() <= c.n_wires(),
                c.n_wires() <= old(c).n_wires() + 1 + 5100 * (i as int),
                forall|inputs: Seq<bool>|
                    bits_value(wire_vals(*c, inputs, a@)) < fq_modulus() ==> #[trigger]
                    bits_value(wire_vals(*c, inputs, acc@)) == (bits_value(
                        wire_vals(*c, inputs, a@),
                    ) * bits_value(k@.skip(254 - i))) % fq_modulus(),
            decreases 254 - i,
        {
            let ghost cq = *c;
            let ghost acc_prev = acc@;
            let z2 = c.emit_false(acc[0]);
            let ghost cz = *c;
            let mut zv: Wires = Vec::new();
            zv.push(z2);
            let t = concat_wires(&zv, &acc);
            proof {
                assert forall|j: int| 0 <= j < t@.len() implies (#[trigger] t@[j])
                    < c.n_wires() by {
                    if j > 0 {
                        assert(t@[j] == acc@[j - 1]);
                    }
                }
            }
            acc = Self::reduce_255(c, &t, &red);
            let ghost c1 = *c;
            let ghost acc_mid = acc@;
            if k[253 - i] {
                let u = BigIntImpl::<254>::add(c, &acc, a);
                let ghost c2 = *c;
                acc = Self::reduce_255(c, &u, &red);
                proof {
                    let pn = fq_modulus();
                    assert forall|inputs: Seq<bool>|
                        bits_value(wire_vals(*c, inputs, a@)) < pn implies #[trigger] bits_value(
                        wire_vals(*c, inputs, acc@),
                    ) == (bits_value(wire_vals(*c, inputs, a@)) * bits_value(
                        k@.skip(254 - (i + 1)),
                    )) % pn by {
                        lemma_wire_vals_extends(cq, *c, inputs, a@);
                        lemma_wire_vals_extends(cq, *c, inputs, acc_prev);
                        lemma_wire_val_extends(cz, *c, inputs, z2 as int);
                        lemma_wire_vals_extends(c1, *c, inputs, t@);
                        lemma_wire_vals_extends(c1, *c, inputs, acc_mid);
                        lemma_wire_vals_extends(c2, *c, inputs, acc_mid);
                        lemma_wire_vals_extends(c2, *c, inputs, u@);
                        lemma_wire_vals_extends(c2, *c, inputs, a@);
                        let av = bits_value(wire_vals(*c, inputs, a@));
                        let hv = bits_value(k@.skip(254 - i));
                        assert(wire_val(cz, inputs, z2 as int) == false);
                        assert(wire_vals(*c, inputs, t@)[0] == wire_val(*c, inputs, z2 as int));
                        assert(wire_vals(*c, inputs, t@).skip(1) =~= wire_vals(
                            *c,
                            inputs,
                            acc_prev,
                        ));
                        assert(bits_value(wire_vals(*c, inputs, t@)) == 2 * bits_value(
                            wire_vals(*c, inputs, acc_prev),
                        ));
                        assert(bits_value(wire_vals(cq, inputs, acc_prev)) == (bits_value(
                            wire_vals(cq, inputs, a@),
                        ) * bits_value(k@.skip(254 - i))) % pn);
                        lemma_mod_bound((av * hv) as int, pn as int);
                        assert(bits_value(wire_vals(*c, inputs, t@)) < 2 * pn);
                        assert(bits_value(wire_vals(c1, inputs, acc_mid)) == bits_value(
                            wire_vals(c1, inputs, t@),
                        ) % pn);
                        lemma_mul_mod_noop_right(2, (av * hv) as int, pn as int);
                        assert(bits_value(wire_vals(*c, inputs, acc_mid)) == (2 * (av * hv))
                            % pn);
                        lemma_mod_bound((2 * (av * hv)) as int, pn as int);
                        assert(bits_value(wire_vals(c2, inputs, u@)) == bits_value(
                            wire_vals(c2, inputs, acc_mid),
                        ) + bits_value(wire_vals(c2, inputs, a@)));
                        assert(bits_value(wire_vals(*c, inputs, u@)) < 2 * pn);
                        assert(bits_value(wire_vals(*c, inputs, acc@)) == bits_value(
                            wire_vals(*c, inputs, u@),
                        ) % pn);
                        assert(bits_value(wire_vals(*c, inputs, acc@)) == (bits_value(
                            wire_vals(*c, inputs, acc_mid),
                        ) + av) % pn);
                        lemma_add_mod_noop_right(av as int, (2 * (av * hv)) as int, pn as int);
                        assert(bits_value(wire_vals(*c, inputs, acc@)) == (2 * (av * hv) + av)
                            % pn);
                        let hv2 = bits_value(k@.skip(254 - (i + 1)));
                        assert(k@.skip(253 - i)[0] == k@[253 - i]);
                        assert(k@.skip(253 - i).skip(1) =~= k@.skip(254 - i));
                        assert(hv2 == bit_int(k@[253 - i]) + 2 * hv);
                        assert(2 * (av * hv) + av == av * (2 * hv + 1)) by (nonlinear_arith);
                    }
                }
            } else {
                proof {
                    let pn = fq_modulus();
                    lemma_extends_refl(*c);
                    assert forall|inputs: Seq<bool>|
                        bits_value(wire_vals(*c, inputs, a@)) < pn implies #[trigger] bits_value(
                        wire_vals(*c, inputs, acc@),
                    ) == (bits_value(wire_vals(*c, inputs, a@)) * bits_value(
                        k@.skip(254 - (i + 1)),
                    )) % pn by {
                        lemma_wire_vals_extends(cq, *c, inputs, a@);
                        lemma_wire_vals_extends(cq, *c, inputs, acc_prev);
                        lemma_wire_val_extends(cz, *c, inputs, z2 as int);
                        lemma_wire_vals_extends(c1, *c, inputs, t@);
                        let av = bits_value(wire_vals(*c, inputs, a@));
                        let hv = bits_value(k@.skip(254 - i));
                        assert(wire_val(cz, inputs, z2 as int) == false);
                        assert(wire_vals(*c, inputs, t@)[0] == wire_val(*c, inputs, z2 as int));
                        assert(wire_vals(*c, inputs, t@).skip(1) =~= wire_vals(
                            *c,
                            inputs,
                            acc_prev,
                        ));
                        assert(bits_value(wire_vals(*c, inputs, t@)) == 2 * bits_value(
                            wire_vals(*c, inputs, acc_prev),
                        ));
                        assert(bits_value(wire_vals(cq, inputs, acc_prev)) == (bits_value(
                            wire_vals(cq, inputs, a@),
                        ) * bits_value(k@.skip(254 - i))) % pn);
                        lemma_mod_bound((av * hv) as int, pn as int);
                        assert(bits_value(wire_vals(*c, inputs, t@)) < 2 * pn);
                        assert(bits_value(wire_vals(c1, inputs, acc@)) == bits_value(
                            wire_vals(c1, inputs, t@),
                        ) % pn);
                        lemma_mul_mod_noop_right(2, (av * hv) as int, pn as int);
                        assert(bits_value(wire_vals(*c, inputs, acc@)) == (2 * (av * hv)) % pn);
                        let hv2 = bits_value(k@.skip(254 - (i + 1)));
                        assert(k@.skip(253 - i)[0] == k@[253 - i]);
                        assert(k@.skip(253 - i).skip(1) =~= k@.skip(254 - i));
                        assert(hv2 == bit_int(k@[253 - i]) + 2 * hv);
                        assert(2 * (av * hv) == av * (2 * hv)) by (nonlinear_arith);
                    }
                }
            }
            i += 1;
        }
        proof {
            assert forall|inputs: Seq<bool>|
                bits_value(wire_vals(*c, inputs, a@)) < fq_modulus() implies #[trigger]
            bits_value(wire_vals(*c, inputs, acc@)) == fq_mul_val(
                bits_value(wire_vals(*c, inputs, a@)),
                bits_value(k@),
            ) by {
                assert(k@.skip(0) =~= k@);
            }
        }
        acc
    }
}

} // verus!
