//! Quadratic-extension circuits: `Fq2 = Fq[u]/(u^2 + 1)`, an element laid
//! out as 508 wires, `c0 ‖ c1` with 254 bits each.

use vstd::prelude::*;

verus! {

use crate::circuit::{Circuit, Wires, wires_in, subwires, concat_wires, wire_vals,
    lemma_wire_vals_extends};
use crate::fq::{Fq, fq_modulus, fq_coeff, fq_add_val, fq_sub_val, fq_mul_val, fq_dbl_val,
    fq_neg_val, lemma_fq_coeff_concat_left, lemma_fq_coeff_concat_right};
use vstd::arithmetic::div_mod::lemma_mod_bound;
use crate::bits::bits_value;
use crate::arkconst::fq_modulus_bits;

broadcast use crate::circuit::lemma_extends_chain, crate::circuit::lemma_wires_in_mono,
    crate::circuit::lemma_wires_in_subrange, crate::circuit::lemma_wires_in_concat;

/// The pair of coefficient values an `Fq2` element's wires denote.
pub open spec fn fq2_val(c: Circuit, inputs: Seq<bool>, ws: Seq<usize>) -> (nat, nat) {
    (fq_coeff(c, inputs, ws, 0), fq_coeff(c, inputs, ws, 1))
}

/// The pair of coefficient values a constant bit vector denotes.
pub open spec fn fq2_const_val(k: Seq<bool>) -> (nat, nat) {
    (bits_value(k.subrange(0, 254)), bits_value(k.subrange(254, 508)))
}

/// Whether both coefficients are below the modulus.
pub open spec fn fq2_reduced(x: (nat, nat)) -> bool {
    x.0 < fq_modulus() && x.1 < fq_modulus()
}

/// Componentwise sum in the quadratic extension.
pub open spec fn fq2_add_vals(x: (nat, nat), y: (nat, nat)) -> (nat, nat) {
    (fq_add_val(x.0, y.0), fq_add_val(x.1, y.1))
}

/// Componentwise difference in the quadratic extension.
pub open spec fn fq2_sub_vals(x: (nat, nat), y: (nat, nat)) -> (nat, nat) {
    (fq_sub_val(x.0, y.0), fq_sub_val(x.1, y.1))
}

/// Componentwise negation in the quadratic extension.
pub open spec fn fq2_neg_vals(x: (nat, nat)) -> (nat, nat) {
    (fq_neg_val(x.0), fq_neg_val(x.1))
}

/// Componentwise double in the quadratic extension.
pub open spec fn fq2_dbl_vals(x: (nat, nat)) -> (nat, nat) {
    (fq_dbl_val(x.0), fq_dbl_val(x.1))
}

/// The Karatsuba product in the quadratic extension with `u^2 = -1`:
/// `c0 = x0 y0 - x1 y1`, `c1 = (x0 + x1)(y0 + y1) - x0 y0 - x1 y1`.
pub open spec fn fq2_mul_vals(x: (nat, nat), y: (nat, nat)) -> (nat, nat) {
    (
        fq_sub_val(fq_mul_val(x.0, y.0), fq_mul_val(x.1, y.1)),
        fq_sub_val(
            fq_sub_val(fq_mul_val(fq_add_val(x.0, x.1), fq_add_val(y.0, y.1)), fq_mul_val(x.0, y.0)),
            fq_mul_val(x.1, y.1),
        ),
    )
}

/// `9x` built as `8x + x`, the shape the non-residue circuit emits.
pub open spec fn fq_nine_val(x: nat) -> nat {
    fq_add_val(fq_dbl_val(fq_dbl_val(fq_dbl_val(x))), x)
}

/// Product with the `Fq6` non-residue `xi = 9 + u`:
/// `(9 x0 - x1, x0 + 9 x1)`.
pub open spec fn fq2_nonres_vals(x: (nat, nat)) -> (nat, nat) {
    (fq_sub_val(fq_nine_val(x.0), x.1), fq_add_val(fq_nine_val(x.1), x.0))
}

/// The schoolbook constant product: `c0 = x0 k0 - x1 k1`, `c1 = x0 k1 + x1 k0`.
pub open spec fn fq2_mul_const_vals(x: (nat, nat), k: (nat, nat)) -> (nat, nat) {
    (
        fq_sub_val(fq_mul_val(x.0, k.0), fq_mul_val(x.1, k.1)),
        fq_add_val(fq_mul_val(x.0, k.1), fq_mul_val(x.1, k.0)),
    )
}

/// The `i`-th Frobenius power: conjugation when `i` is odd.
pub open spec fn fq2_frob_vals(x: (nat, nat), i: int) -> (nat, nat) {
    if i % 2 == 0 {
        x
    } else {
        (x.0, fq_neg_val(x.1))
    }
}

/// The componentwise operations land on reduced pairs.
pub proof fn lemma_fq2_vals_reduced(x: (nat, nat), y: (nat, nat))
    ensures
        fq2_reduced(fq2_add_vals(x, y)),
        fq2_reduced(fq2_sub_vals(x, y)),
        fq2_reduced(fq2_neg_vals(x)),
        fq2_reduced(fq2_dbl_vals(x)),
        fq2_reduced(fq2_mul_vals(x, y)),
        fq2_reduced(fq2_nonres_vals(x)),
        fq2_reduced(fq2_mul_const_vals(x, y)),
{
    crate::fq::lemma_fq_vals_reduced(x.0, y.0);
    crate::fq::lemma_fq_vals_reduced(x.1, y.1);
    crate::fq::lemma_fq_vals_reduced(fq_mul_val(x.0, y.0), fq_mul_val(x.1, y.1));
    crate::fq::lemma_fq_vals_reduced(
        fq_mul_val(fq_add_val(x.0, x.1), fq_add_val(y.0, y.1)),
        fq_mul_val(x.0, y.0),
    );
    crate::fq::lemma_fq_vals_reduced(
        fq_sub_val(fq_mul_val(fq_add_val(x.0, x.1), fq_add_val(y.0, y.1)), fq_mul_val(x.0, y.0)),
        fq_mul_val(x.1, y.1),
    );
    crate::fq::lemma_fq_vals_reduced(fq_nine_val(x.0), x.1);
    crate::fq::lemma_fq_vals_reduced(fq_nine_val(x.1), x.0);
    crate::fq::lemma_fq_vals_reduced(fq_mul_val(x.0, y.1), fq_mul_val(x.1, y.0));
}

/// The Frobenius map keeps a reduced pair reduced.
pub proof fn lemma_fq2_frob_reduced(x: (nat, nat), i: int)
    requires
        fq2_reduced(x),
    ensures
        fq2_reduced(fq2_frob_vals(x, i)),
{
    crate::fq::lemma_fq_vals_reduced(x.1, x.1);
}

/// The quadratic-extension circuit builders.
pub struct Fq2;

impl Fq2 {
    /// Componentwise field addition.
    pub fn add(c: &mut Circuit, a: &Wires, b: &Wires) -> (out: Wires)
        requires
            old(c).wf(),
            a@.len() == 508,
            b@.len() == 508,
            wires_in(a@, old(c).n_wires()),
            wires_in(b@, old(c).n_wires()),
            old(c).n_wires() + 6200 <= usize::MAX,
        ensures
            final(c).wf(),
            final(c).extends(*old(c)),
            final(c).n_wires() <= old(c).n_wires() + 6200,
            out@.len() == 508,
            wires_in(out@, final(c).n_wires()),
            forall|inputs: Seq<bool>, j: int|
                (0 <= j < 2 && fq_coeff(*final(c), inputs, a@, j) < fq_modulus() && fq_coeff(
                    *final(c),
                    inputs,
                    b@,
                    j,
                ) < fq_modulus()) ==> #[trigger] fq_coeff(*final(c), inputs, out@, j) == (
                fq_coeff(*final(c), inputs, a@, j) + fq_coeff(*final(c), inputs, b@, j))
                    % fq_modulus(),
    {
        let a0 = subwires(a, 0, 254);
        let a1 = subwires(a, 254, 254);
        let b0 = subwires(b, 0, 254);
        let b1 = subwires(b, 254, 254);
        let r0 = Fq::add(c, &a0, &b0);
        let ghost c1 = *c;
        let r1 = Fq::add(c, &a1, &b1);
        let out = concat_wires(&r0, &r1);
        proof {
            assert forall|inputs: Seq<bool>, j: int|
                (0 <= j < 2 && fq_coeff(*c, inputs, a@, j) < fq_modulus() && fq_coeff(
                    *c,
                    inputs,
                    b@,
                    j,
                ) < fq_modulus()) implies #[trigger] fq_coeff(*c, inputs, out@, j) == (fq_coeff(
                *c,
                inputs,
                a@,
                j,
            ) + fq_coeff(*c, inputs, b@, j)) % fq_modulus() by {
                assert(wire_vals(*c, inputs, a@.subrange(0, 254)) == wire_vals(*c, inputs, a0@));
                assert(wire_vals(*c, inputs, a@.subrange(254, 508)) == wire_vals(*c, inputs, a1@));
                assert(wire_vals(*c, inputs, b@.subrange(0, 254)) == wire_vals(*c, inputs, b0@));
                assert(wire_vals(*c, inputs, b@.subrange(254, 508)) == wire_vals(*c, inputs, b1@));
                assert(wire_vals(*c, inputs, r0@).subrange(0, 254) =~= wire_vals(*c, inputs, r0@));
                assert(wire_vals(*c, inputs, r1@).subrange(0, 254) =~= wire_vals(*c, inputs, r1@));
                if j == 0 {
                    lemma_fq_coeff_concat_left(*c, inputs, r0@, r1@, 0);
                    lemma_wire_vals_extends(c1, *c, inputs, r0@);
                    lemma_wire_vals_extends(c1, *c, inputs, a0@);
                    lemma_wire_vals_extends(c1, *c, inputs, b0@);
                    assert(wire_vals(*c, inputs, a@).subrange(0, 254) == wire_vals(
                        *c,
                        inputs,
                        a0@,
                    ));
                    assert(wire_vals(*c, inputs, b@).subrange(0, 254) == wire_vals(
                        *c,
                        inputs,
                        b0@,
                    ));
                    assert(bits_value(wire_vals(c1, inputs, a0@)) == fq_coeff(*c, inputs, a@, 0));
                    assert(bits_value(wire_vals(c1, inputs, b0@)) == fq_coeff(*c, inputs, b@, 0));
                    assert(bits_value(wire_vals(c1, inputs, r0@)) == (bits_value(
                        wire_vals(c1, inputs, a0@),
                    ) + bits_value(wire_vals(c1, inputs, b0@))) % fq_modulus());
                } else {
                    lemma_fq_coeff_concat_right(*c, inputs, r0@, r1@, 1, 0);
                    assert(wire_vals(*c, inputs, a@).subrange(254, 508) == wire_vals(
                        *c,
                        inputs,
                        a1@,
                    ));
                    assert(wire_vals(*c, inputs, b@).subrange(254, 508) == wire_vals(
                        *c,
                        inputs,
                        b1@,
                    ));
                    assert(bits_value(wire_vals(*c, inputs, a1@)) == fq_coeff(*c, inputs, a@, 1));
                    assert(bits_value(wire_vals(*c, inputs, b1@)) == fq_coeff(*c, inputs, b@, 1));
                    assert(bits_value(wire_vals(*c, inputs, r1@)) == (bits_value(
                        wire_vals(*c, inputs, a1@),
                    ) + bits_value(wire_vals(*c, inputs, b1@))) % fq_modulus());
                }
            }
        }
        out
    }

    /// Componentwise field subtraction.
    pub fn sub(c: &mut Circuit, a: &Wires, b: &Wires) -> (out: Wires)
        requires
            old(c).wf(),
            a@.len() == 508,
            b@.len() == 508,
            wires_in(a@, old(c).n_wires()),
            wires_in(b@, old(c).n_wires()),
            old(c).n_wires() + 12300 <= usize::MAX,
        ensures
            final(c).wf(),
            final(c).extends(*old(c)),
            final(c).n_wires() <= old(c).n_wires() + 12300,
            out@.len() == 508,
            wires_in(out@, final(c).n_wires()),
            forall|inputs: Seq<bool>, j: int|
                (0 <= j < 2 && fq_coeff(*final(c), inputs, a@, j) < fq_modulus() && fq_coeff(
                    *final(c),
                    inputs,
                    b@,
                    j,
                ) < fq_modulus()) ==> #[trigger] fq_coeff(*final(c), inputs, out@, j) == (
                fq_coeff(*final(c), inputs, a@, j) + fq_modulus() - fq_coeff(
                    *final(c),
                    inputs,
                    b@,
                    j,
                )) % (fq_modulus() as int),
    {
        let a0 = subwires(a, 0, 254);
        let a1 = subwires(a, 254, 254);
        let b0 = subwires(b, 0, 254);
        let b1 = subwires(b, 254, 254);
        let r0 = Fq::sub(c, &a0, &b0);
        let ghost c1 = *c;
        let r1 = Fq::sub(c, &a1, &b1);
        let out = concat_wires(&r0, &r1);
        proof {
            assert forall|inputs: Seq<bool>, j: int|
                (0 <= j < 2 && fq_coeff(*c, inputs, a@, j) < fq_modulus() && fq_coeff(
                    *c,
                    inputs,
                    b@,
                    j,
                ) < fq_modulus()) implies #[trigger] fq_coeff(*c, inputs, out@, j) == (fq_coeff(
                *c,
                inputs,
                a@,
                j,
            ) + fq_modulus() - fq_coeff(*c, inputs, b@, j)) % (fq_modulus() as int) by {
                assert(wire_vals(*c, inputs, r0@).subrange(0, 254) =~= wire_vals(*c, inputs, r0@));
                assert(wire_vals(*c, inputs, r1@).subrange(0, 254) =~= wire_vals(*c, inputs, r1@));
                if j == 0 {
                    lemma_fq_coeff_concat_left(*c, inputs, r0@, r1@, 0);
                    lemma_wire_vals_extends(c1, *c, inputs, r0@);
                    lemma_wire_vals_extends(c1, *c, inputs, a0@);
                    lemma_wire_vals_extends(c1, *c, inputs, b0@);
                    assert(wire_vals(*c, inputs, a@).subrange(0, 254) == wire_vals(
                        *c,
                        inputs,
                        a0@,
                    ));
                    assert(wire_vals(*c, inputs, b@).subrange(0, 254) == wire_vals(
                        *c,
                        inputs,
                        b0@,
                    ));
                    assert(bits_value(wire_vals(c1, inputs, a0@)) == fq_coeff(*c, inputs, a@, 0));
                    assert(bits_value(wire_vals(c1, inputs, b0@)) == fq_coeff(*c, inputs, b@, 0));
                    assert(bits_value(wire_vals(c1, inputs, r0@)) == (bits_value(
                        wire_vals(c1, inputs, a0@),
                    ) + fq_modulus() - bits_value(wire_vals(c1, inputs, b0@))) % (
                    fq_modulus() as int));
                } else {
                    lemma_fq_coeff_concat_right(*c, inputs, r0@, r1@, 1, 0);
                    assert(wire_vals(*c, inputs, a@).subrange(254, 508) == wire_vals(
                        *c,
                        inputs,
                        a1@,
                    ));
                    assert(wire_vals(*c, inputs, b@).subrange(254, 508) == wire_vals(
                        *c,
                        inputs,
                        b1@,
                    ));
                    assert(bits_value(wire_vals(*c, inputs, a1@)) == fq_coeff(*c, inputs, a@, 1));
                    assert(bits_value(wire_vals(*c, inputs, b1@)) == fq_coeff(*c, inputs, b@, 1));
                    assert(bits_value(wire_vals(*c, inputs, r1@)) == (bits_value(
                        wire_vals(*c, inputs, a1@),
                    ) + fq_modulus() - bits_value(wire_vals(*c, inputs, b1@))) % (
                    fq_modulus() as int));
                }
            }
        }
        out
    }

    /// Componentwise field negation.
    pub fn neg(c: &mut Circuit, a: &Wires) -> (out: Wires)
        requires
            old(c).wf(),
            a@.len() == 508,
            wires_in(a@, old(c).n_wires()),
            old(c).n_wires() + 6200 <= usize::MAX,
        ensures
            final(c).wf(),
            final(c).extends(*old(c)),
            final(c).n_wires() <= old(c).n_wires() + 6200,
            out@.len() == 508,
            wires_in(out@, final(c).n_wires()),
            forall|inputs: Seq<bool>, j: int|
                (0 <= j < 2 && fq_coeff(*final(c), inputs, a@, j) < fq_modulus())
                    ==> #[trigger] fq_coeff(*final(c), inputs, out@, j) == (fq_modulus()
                    - fq_coeff(*final(c), inputs, a@, j)) % (fq_modulus() as int),
    {
        let a0 = subwires(a, 0, 254);
        let a1 = subwires(a, 254, 254);
        let r0 = Fq::neg(c, &a0);
        let ghost c1 = *c;
        let r1 = Fq::neg(c, &a1);
        let out = concat_wires(&r0, &r1);
        proof {
            assert forall|inputs: Seq<bool>, j: int|
                (0 <= j < 2 && fq_coeff(*c, inputs, a@, j) < fq_modulus()) implies #[trigger]
            fq_coeff(*c, inputs, out@, j) == (fq_modulus() - fq_coeff(*c, inputs, a@, j)) % (
            fq_modulus() as int) by {
                assert(wire_vals(*c, inputs, r0@).subrange(0, 254) =~= wire_vals(*c, inputs, r0@));
                assert(wire_vals(*c, inputs, r1@).subrange(0, 254) =~= wire_vals(*c, inputs, r1@));
                if j == 0 {
                    lemma_fq_coeff_concat_left(*c, inputs, r0@, r1@, 0);
                    lemma_wire_vals_extends(c1, *c, inputs, r0@);
                    lemma_wire_vals_extends(c1, *c, inputs, a0@);
                    assert(wire_vals(*c, inputs, a@).subrange(0, 254) == wire_vals(
                        *c,
                        inputs,
                        a0@,
                    ));
                    assert(bits_value(wire_vals(c1, inputs, a0@)) == fq_coeff(*c, inputs, a@, 0));
                    assert(bits_value(wire_vals(c1, inputs, r0@)) == (fq_modulus() - bits_value(
                        wire_vals(c1, inputs, a0@),
                    )) % (fq_modulus() as int));
                } else {
                    lemma_fq_coeff_concat_right(*c, inputs, r0@, r1@, 1, 0);
                    assert(wire_vals(*c, inputs, a@).subrange(254, 508) == wire_vals(
                        *c,
                        inputs,
                        a1@,
                    ));
                    assert(bits_value(wire_vals(*c, inputs, a1@)) == fq_coeff(*c, inputs, a@, 1));
                    assert(bits_value(wire_vals(*c, inputs, r1@)) == (fq_modulus() - bits_value(
                        wire_vals(*c, inputs, a1@),
                    )) % (fq_modulus() as int));
                }
            }
        }
        out
    }

    /// Componentwise field doubling.
    pub fn double(c: &mut Circuit, a: &Wires) -> (out: Wires)
        requires
            old(c).wf(),
            a@.len() == 508,
            wires_in(a@, old(c).n_wires()),
            old(c).n_wires() + 3600 <= usize::MAX,
        ensures
            final(c).wf(),
            final(c).extends(*old(c)),
            final(c).n_wires() <= old(c).n_wires() + 3600,
            out@.len() == 508,
            wires_in(out@, final(c).n_wires()),
            forall|inputs: Seq<bool>, j: int|
                (0 <= j < 2 && fq_coeff(*final(c), inputs, a@, j) < fq_modulus())
                    ==> #[trigger] fq_coeff(*final(c), inputs, out@, j) == (2 * fq_coeff(
                    *final(c),
                    inputs,
                    a@,
                    j,
                )) % fq_modulus(),
    {
        let a0 = subwires(a, 0, 254);
        let a1 = subwires(a, 254, 254);
        let r0 = Fq::double(c, &a0);
        let ghost c1 = *c;
        let r1 = Fq::double(c, &a1);
        let out = concat_wires(&r0, &r1);
        proof {
            assert forall|inputs: Seq<bool>, j: int|
                (0 <= j < 2 && fq_coeff(*c, inputs, a@, j) < fq_modulus()) implies #[trigger]
            fq_coeff(*c, inputs, out@, j) == (2 * fq_coeff(*c, inputs, a@, j))
                % fq_modulus() by {
                assert(wire_vals(*c, inputs, r0@).subrange(0, 254) =~= wire_vals(*c, inputs, r0@));
                assert(wire_vals(*c, inputs, r1@).subrange(0, 254) =~= wire_vals(*c, inputs, r1@));
                if j == 0 {
                    lemma_fq_coeff_concat_left(*c, inputs, r0@, r1@, 0);
                    lemma_wire_vals_extends(c1, *c, inputs, r0@);
                    lemma_wire_vals_extends(c1, *c, inputs, a0@);
                    assert(wire_vals(*c, inputs, a@).subrange(0, 254) == wire_vals(
                        *c,
                        inputs,
                        a0@,
                    ));
                    assert(bits_value(wire_vals(c1, inputs, a0@)) == fq_coeff(*c, inputs, a@, 0));
                    assert(bits_value(wire_vals(c1, inputs, r0@)) == (2 * bits_value(
                        wire_vals(c1, inputs, a0@),
                    )) % fq_modulus());
                } else {
                    lemma_fq_coeff_concat_right(*c, inputs, r0@, r1@, 1, 0);
                    assert(wire_vals(*c, inputs, a@).subrange(254, 508) == wire_vals(
                        *c,
                        inputs,
                        a1@,
                    ));
                    assert(bits_value(wire_vals(*c, inputs, a1@)) == fq_coeff(*c, inputs, a@, 1));
                    assert(bits_value(wire_vals(*c, inputs, r1@)) == (2 * bits_value(
                        wire_vals(*c, inputs, a1@),
                    )) % fq_modulus());
                }
            }
        }
        out
    }

    /// Componentwise addition of a constant given as 508 little-endian bits.
    pub fn add_constant(c: &mut Circuit, a: &Wires, k: &Vec<bool>) -> (out: Wires)
        requires
            old(c).wf(),
            a@.len() == 508,
            k@.len() == 508,
            wires_in(a@, old(c).n_wires()),
            old(c).n_wires() + 5700 <= usize::MAX,
        ensures
            final(c).wf(),
            final(c).extends(*old(c)),
            final(c).n_wires() <= old(c).n_wires() + 5700,
            out@.len() == 508,
            wires_in(out@, final(c).n_wires()),
            forall|inputs: Seq<bool>|
                (fq2_reduced(fq2_val(*final(c), inputs, a@)) && fq2_reduced(fq2_const_val(k@)))
                    ==> #[trigger] fq2_val(*final(c), inputs, out@) == fq2_add_vals(
                    fq2_val(*final(c), inputs, a@),
                    fq2_const_val(k@),
                ),
    {
        let a0 = subwires(a, 0, 254);
        let a1 = subwires(a, 254, 254);
        let mut k0: Vec<bool> = Vec::new();
        let mut k1: Vec<bool> = Vec::new();
        let mut i: usize = 0;
        while i < 254
            invariant
                k@.len() == 508,
                i <= 254,
                k0@.len() == i,
                k1@.len() == i,
                forall|j: int| 0 <= j < i ==> #[trigger] k0@[j] == k@[j],
                forall|j: int| 0 <= j < i ==> #[trigger] k1@[j] == k@[254 + j],
            decreases 254 - i,
        {
            k0.push(k[i]);
            k1.push(k[254 + i]);
            i += 1;
        }
        proof {
            assert(k0@ =~= k@.subrange(0, 254));
            assert(k1@ =~= k@.subrange(254, 508));
        }
        let r0 = Fq::add_constant(c, &a0, &k0);
        let ghost c1 = *c;
        let r1 = Fq::add_constant(c, &a1, &k1);
        let out = concat_wires(&r0, &r1);
        proof {
            assert forall|inputs: Seq<bool>|
                (fq2_reduced(fq2_val(*c, inputs, a@)) && fq2_reduced(
                    fq2_const_val(k@),
                )) implies #[trigger] fq2_val(*c, inputs, out@) == fq2_add_vals(
                fq2_val(*c, inputs, a@),
                fq2_const_val(k@),
            ) by {
                lemma_wire_vals_extends(c1, *c, inputs, r0@);
                lemma_wire_vals_extends(c1, *c, inputs, a0@);
                assert(wire_vals(*c, inputs, a@).subrange(0, 254) == wire_vals(*c, inputs, a0@));
                assert(wire_vals(*c, inputs, a@).subrange(254, 508) == wire_vals(*c, inputs, a1@));
                let a0v = fq_coeff(*c, inputs, a@, 0);
                let a1v = fq_coeff(*c, inputs, a@, 1);
                assert(bits_value(wire_vals(c1, inputs, r0@)) == fq_add_val(
                    a0v,
                    bits_value(k0@),
                ));
                assert(bits_value(wire_vals(*c, inputs, r1@)) == fq_add_val(
                    a1v,
                    bits_value(k1@),
                ));
                lemma_fq_coeff_concat_left(*c, inputs, r0@, r1@, 0);
                lemma_fq_coeff_concat_right(*c, inputs, r0@, r1@, 1, 0);
                assert(wire_vals(*c, inputs, r0@).subrange(0, 254) =~= wire_vals(*c, inputs, r0@));
                assert(wire_vals(*c, inputs, r1@).subrange(0, 254) =~= wire_vals(*c, inputs, r1@));
            }
        }
        out
    }

    /// Karatsuba product over the quadratic extension: with `u^2 = -1`,
    /// `c0 = a0 b0 - a1 b1` and `c1 = (a0 + a1)(b0 + b1) - a0 b0 - a1 b1`.
    pub fn mul(c: &mut Circuit, a: &Wires, b: &Wires) -> (out: Wires)
        requires
            old(c).wf(),
            a@.len() == 508,
            b@.len() == 508,
            wires_in(a@, old(c).n_wires()),
            wires_in(b@, old(c).n_wires()),
            old(c).n_wires() + 4000000 <= usize::MAX,
        ensures
            final(c).wf(),
            final(c).extends(*old(c)),
            final(c).n_wires() <= old(c).n_wires() + 4000000,
            out@.len() == 508,
            wires_in(out@, final(c).n_wires()),
            forall|inputs: Seq<bool>|
                (fq2_reduced(fq2_val(*final(c), inputs, a@)) && fq2_reduced(
                    fq2_val(*final(c), inputs, b@),
                )) ==> #[trigger] fq2_val(*final(c), inputs, out@) == fq2_mul_vals(
                    fq2_val(*final(c), inputs, a@),
                    fq2_val(*final(c), inputs, b@),
                ),
    {
        let a0 = subwires(a, 0, 254);
        let a1 = subwires(a, 254, 254);
        let b0 = subwires(b, 0, 254);
        let b1 = subwires(b, 254, 254);
        let v0 = Fq::mul(c, &a0, &b0);
        let ghost c1 = *c;
        let v1 = Fq::mul(c, &a1, &b1);
        let ghost c2 = *c;
        let r0 = Fq::sub(c, &v0, &v1);
        let ghost c3 = *c;
        let s1 = Fq::add(c, &a0, &a1);
        let ghost c4 = *c;
        let s2 = Fq::add(c, &b0, &b1);
        let ghost c5 = *c;
        let t = Fq::mul(c, &s1, &s2);
        let ghost c6 = *c;
        let u = Fq::sub(c, &t, &v0);
        let ghost c7 = *c;
        let r1 = Fq::sub(c, &u, &v1);
        let out = concat_wires(&r0, &r1);
        proof {
            let pn = fq_modulus();
            crate::fq::lemma_fq_modulus_bounds();
            assert forall|inputs: Seq<bool>|
                (fq2_reduced(fq2_val(*c, inputs, a@)) && fq2_reduced(
                    fq2_val(*c, inputs, b@),
                )) implies #[trigger] fq2_val(*c, inputs, out@) == fq2_mul_vals(
                fq2_val(*c, inputs, a@),
                fq2_val(*c, inputs, b@),
            ) by {
                lemma_wire_vals_extends(c1, *c, inputs, v0@);
                lemma_wire_vals_extends(c1, *c, inputs, a0@);
                lemma_wire_vals_extends(c1, *c, inputs, b0@);
                lemma_wire_vals_extends(c2, *c, inputs, v1@);
                lemma_wire_vals_extends(c2, *c, inputs, a1@);
                lemma_wire_vals_extends(c2, *c, inputs, b1@);
                lemma_wire_vals_extends(c3, *c, inputs, r0@);
                lemma_wire_vals_extends(c3, *c, inputs, v0@);
                lemma_wire_vals_extends(c3, *c, inputs, v1@);
                lemma_wire_vals_extends(c4, *c, inputs, s1@);
                lemma_wire_vals_extends(c4, *c, inputs, a0@);
                lemma_wire_vals_extends(c4, *c, inputs, a1@);
                lemma_wire_vals_extends(c5, *c, inputs, s2@);
                lemma_wire_vals_extends(c5, *c, inputs, b0@);
                lemma_wire_vals_extends(c5, *c, inputs, b1@);
                lemma_wire_vals_extends(c6, *c, inputs, t@);
                lemma_wire_vals_extends(c6, *c, inputs, s1@);
                lemma_wire_vals_extends(c6, *c, inputs, s2@);
                lemma_wire_vals_extends(c7, *c, inputs, u@);
                lemma_wire_vals_extends(c7, *c, inputs, t@);
                lemma_wire_vals_extends(c7, *c, inputs, v0@);
                // the operand coefficients are the sliced wires' values
                assert(wire_vals(*c, inputs, a@).subrange(0, 254) == wire_vals(*c, inputs, a0@));
                assert(wire_vals(*c, inputs, a@).subrange(254, 508) == wire_vals(*c, inputs, a1@));
                assert(wire_vals(*c, inputs, b@).subrange(0, 254) == wire_vals(*c, inputs, b0@));
                assert(wire_vals(*c, inputs, b@).subrange(254, 508) == wire_vals(*c, inputs, b1@));
                let a0v = fq_coeff(*c, inputs, a@, 0);
                let a1v = fq_coeff(*c, inputs, a@, 1);
                let b0v = fq_coeff(*c, inputs, b@, 0);
                let b1v = fq_coeff(*c, inputs, b@, 1);
                // the value of each intermediate, from its builder's contract
                assert(bits_value(wire_vals(c1, inputs, v0@)) == fq_mul_val(a0v, b0v));
                assert(bits_value(wire_vals(c2, inputs, v1@)) == fq_mul_val(a1v, b1v));
                lemma_mod_bound((a0v * b0v) as int, pn as int);
                lemma_mod_bound((a1v * b1v) as int, pn as int);
                assert(bits_value(wire_vals(c3, inputs, r0@)) == fq_sub_val(
                    fq_mul_val(a0v, b0v),
                    fq_mul_val(a1v, b1v),
                ));
                assert(bits_value(wire_vals(c4, inputs, s1@)) == fq_add_val(a0v, a1v));
                assert(bits_value(wire_vals(c5, inputs, s2@)) == fq_add_val(b0v, b1v));
                lemma_mod_bound((a0v + a1v) as int, pn as int);
                lemma_mod_bound((b0v + b1v) as int, pn as int);
                assert(bits_value(wire_vals(c6, inputs, t@)) == fq_mul_val(
                    fq_add_val(a0v, a1v),
                    fq_add_val(b0v, b1v),
                ));
                lemma_mod_bound((fq_add_val(a0v, a1v) * fq_add_val(b0v, b1v)) as int, pn as int);
                assert(bits_value(wire_vals(c7, inputs, u@)) == fq_sub_val(
                    fq_mul_val(fq_add_val(a0v, a1v), fq_add_val(b0v, b1v)),
                    fq_mul_val(a0v, b0v),
                ));
                lemma_mod_bound(
                    (fq_mul_val(fq_add_val(a0v, a1v), fq_add_val(b0v, b1v)) + pn - fq_mul_val(
                        a0v,
                        b0v,
                    )) as int,
                    pn as int,
                );
                assert(bits_value(wire_vals(*c, inputs, r1@)) == fq_sub_val(
                    fq_sub_val(
                        fq_mul_val(fq_add_val(a0v, a1v), fq_add_val(b0v, b1v)),
                        fq_mul_val(a0v, b0v),
                    ),
                    fq_mul_val(a1v, b1v),
                ));
                // the halves of the result
                lemma_fq_coeff_concat_left(*c, inputs, r0@, r1@, 0);
                lemma_fq_coeff_concat_right(*c, inputs, r0@, r1@, 1, 0);
                assert(wire_vals(*c, inputs, r0@).subrange(0, 254) =~= wire_vals(*c, inputs, r0@));
                assert(wire_vals(*c, inputs, r1@).subrange(0, 254) =~= wire_vals(*c, inputs, r1@));
            }
        }
        out
    }

    /// Squaring, emitted as a self-multiplication.
    pub fn square(c: &mut Circuit, a: &Wires) -> (out: Wires)
        requires
            old(c).wf(),
            a@.len() == 508,
            wires_in(a@, old(c).n_wires()),
            old(c).n_wires() + 4000000 <= usize::MAX,
        ensures
            final(c).wf(),
            final(c).extends(*old(c)),
            final(c).n_wires() <= old(c).n_wires() + 4000000,
            out@.len() == 508,
            wires_in(out@, final(c).n_wires()),
            forall|inputs: Seq<bool>|
                fq2_reduced(fq2_val(*final(c), inputs, a@)) ==> #[trigger] fq2_val(
                    *final(c),
                    inputs,
                    out@,
                ) == fq2_mul_vals(fq2_val(*final(c), inputs, a@), fq2_val(*final(c), inputs, a@)),
    {
        Self::mul(c, a, a)
    }

    /// Schoolbook product against a constant given as 508 bits:
    /// `c0 = a0 k0 - a1 k1`, `c1 = a0 k1 + a1 k0`.
    pub fn mul_by_constant(c: &mut Circuit, a: &Wires, k: &Vec<bool>) -> (out: Wires)
        requires
            old(c).wf(),
            a@.len() == 508,
            k@.len() == 508,
            wires_in(a@, old(c).n_wires()),
            old(c).n_wires() + 5300000 <= usize::MAX,
        ensures
            final(c).wf(),
            final(c).extends(*old(c)),
            final(c).n_wires() <= old(c).n_wires() + 5300000,
            out@.len() == 508,
            wires_in(out@, final(c).n_wires()),
            forall|inputs: Seq<bool>|
                fq2_reduced(fq2_val(*final(c), inputs, a@)) ==> #[trigger] fq2_val(
                    *final(c),
                    inputs,
                    out@,
                ) == fq2_mul_const_vals(fq2_val(*final(c), inputs, a@), fq2_const_val(k@)),
    {
        let a0 = subwires(a, 0, 254);
        let a1 = subwires(a, 254, 254);
        let mut k0: Vec<bool> = Vec::new();
        let mut k1: Vec<bool> = Vec::new();
        let mut i: usize = 0;
        while i < 254
            invariant
                k@.len() == 508,
                i <= 254,
                k0@.len() == i,
                k1@.len() == i,
                forall|j: int| 0 <= j < i ==> #[trigger] k0@[j] == k@[j],
                forall|j: int| 0 <= j < i ==> #[trigger] k1@[j] == k@[254 + j],
            decreases 254 - i,
        {
            k0.push(k[i]);
            k1.push(k[254 + i]);
            i += 1;
        }
        proof {
            assert(k0@ =~= k@.subrange(0, 254));
            assert(k1@ =~= k@.subrange(254, 508));
        }
        let v0 = Fq::mul_by_constant(c, &a0, &k0);
        let ghost c1 = *c;
        let v1 = Fq::mul_by_constant(c, &a1, &k1);
        let ghost c2 = *c;
        let r0 = Fq::sub(c, &v0, &v1);
        let ghost c3 = *c;
        let w0 = Fq::mul_by_constant(c, &a0, &k1);
        let ghost c4 = *c;
        let w1 = Fq::mul_by_constant(c, &a1, &k0);
        let ghost c5 = *c;
        let r1 = Fq::add(c, &w0, &w1);
        let out = concat_wires(&r0, &r1);
        proof {
            let pn = fq_modulus();
            crate::fq::lemma_fq_modulus_bounds();
            assert forall|inputs: Seq<bool>|
                fq2_reduced(fq2_val(*c, inputs, a@)) implies #[trigger] fq2_val(
                *c,
                inputs,
                out@,
            ) == fq2_mul_const_vals(fq2_val(*c, inputs, a@), fq2_const_val(k@)) by {
                lemma_wire_vals_extends(c1, *c, inputs, v0@);
                lemma_wire_vals_extends(c1, *c, inputs, a0@);
                lemma_wire_vals_extends(c2, *c, inputs, v1@);
                lemma_wire_vals_extends(c2, *c, inputs, a1@);
                lemma_wire_vals_extends(c3, *c, inputs, r0@);
                lemma_wire_vals_extends(c3, *c, inputs, v0@);
                lemma_wire_vals_extends(c3, *c, inputs, v1@);
                lemma_wire_vals_extends(c4, *c, inputs, w0@);
                lemma_wire_vals_extends(c4, *c, inputs, a0@);
                lemma_wire_vals_extends(c5, *c, inputs, w1@);
                lemma_wire_vals_extends(c5, *c, inputs, a1@);
                lemma_wire_vals_extends(c5, *c, inputs, w0@);
                assert(wire_vals(*c, inputs, a@).subrange(0, 254) == wire_vals(*c, inputs, a0@));
                assert(wire_vals(*c, inputs, a@).subrange(254, 508) == wire_vals(*c, inputs, a1@));
                let a0v = fq_coeff(*c, inputs, a@, 0);
                let a1v = fq_coeff(*c, inputs, a@, 1);
                let k0v = bits_value(k0@);
                let k1v = bits_value(k1@);
                assert(bits_value(wire_vals(c1, inputs, v0@)) == fq_mul_val(a0v, k0v));
                assert(bits_value(wire_vals(c2, inputs, v1@)) == fq_mul_val(a1v, k1v));
                lemma_mod_bound((a0v * k0v) as int, pn as int);
                lemma_mod_bound((a1v * k1v) as int, pn as int);
                assert(bits_value(wire_vals(c3, inputs, r0@)) == fq_sub_val(
                    fq_mul_val(a0v, k0v),
                    fq_mul_val(a1v, k1v),
                ));
                assert(bits_value(wire_vals(c4, inputs, w0@)) == fq_mul_val(a0v, k1v));
                assert(bits_value(wire_vals(c5, inputs, w1@)) == fq_mul_val(a1v, k0v));
                lemma_mod_bound((a0v * k1v) as int, pn as int);
                lemma_mod_bound((a1v * k0v) as int, pn as int);
                assert(bits_value(wire_vals(*c, inputs, r1@)) == fq_add_val(
                    fq_mul_val(a0v, k1v),
                    fq_mul_val(a1v, k0v),
                ));
                lemma_fq_coeff_concat_left(*c, inputs, r0@, r1@, 0);
                lemma_fq_coeff_concat_right(*c, inputs, r0@, r1@, 1, 0);
                assert(wire_vals(*c, inputs, r0@).subrange(0, 254) =~= wire_vals(*c, inputs, r0@));
                assert(wire_vals(*c, inputs, r1@).subrange(0, 254) =~= wire_vals(*c, inputs, r1@));
            }
        }
        out
    }

    /// Product with the `Fq6` non-residue `xi = 9 + u`:
    /// `(9 a0 - a1) + (a0 + 9 a1) u`, with `9x` built as `8x + x`.
    pub fn mul_by_nonresidue(c: &mut Circuit, a: &Wires) -> (out: Wires)
        requires
            old(c).wf(),
            a@.len() == 508,
            wires_in(a@, old(c).n_wires()),
            old(c).n_wires() + 26000 <= usize::MAX,
        ensures
            final(c).wf(),
            final(c).extends(*old(c)),
            final(c).n_wires() <= old(c).n_wires() + 26000,
            out@.len() == 508,
            wires_in(out@, final(c).n_wires()),
            forall|inputs: Seq<bool>|
                fq2_reduced(fq2_val(*final(c), inputs, a@)) ==> #[trigger] fq2_val(
                    *final(c),
                    inputs,
                    out@,
                ) == fq2_nonres_vals(fq2_val(*final(c), inputs, a@)),
    {
        let a0 = subwires(a, 0, 254);
        let a1 = subwires(a, 254, 254);
        let d1 = Fq::double(c, &a0);
        let ghost c1 = *c;
        let d2 = Fq::double(c, &d1);
        let ghost c2 = *c;
        let d3 = Fq::double(c, &d2);
        let ghost c3 = *c;
        let n0 = Fq::add(c, &d3, &a0);
        let ghost c4 = *c;
        let e1 = Fq::double(c, &a1);
        let ghost c5 = *c;
        let e2 = Fq::double(c, &e1);
        let ghost c6 = *c;
        let e3 = Fq::double(c, &e2);
        let ghost c7 = *c;
        let n1 = Fq::add(c, &e3, &a1);
        let ghost c8 = *c;
        let r0 = Fq::sub(c, &n0, &a1);
        let ghost c9 = *c;
        let r1 = Fq::add(c, &n1, &a0);
        let out = concat_wires(&r0, &r1);
        proof {
            let pn = fq_modulus();
            crate::fq::lemma_fq_modulus_bounds();
            assert forall|inputs: Seq<bool>|
                fq2_reduced(fq2_val(*c, inputs, a@)) implies #[trigger] fq2_val(
                *c,
                inputs,
                out@,
            ) == fq2_nonres_vals(fq2_val(*c, inputs, a@)) by {
                lemma_wire_vals_extends(c1, *c, inputs, d1@);
                lemma_wire_vals_extends(c1, *c, inputs, a0@);
                lemma_wire_vals_extends(c2, *c, inputs, d2@);
                lemma_wire_vals_extends(c2, *c, inputs, d1@);
                lemma_wire_vals_extends(c3, *c, inputs, d3@);
                lemma_wire_vals_extends(c3, *c, inputs, d2@);
                lemma_wire_vals_extends(c4, *c, inputs, n0@);
                lemma_wire_vals_extends(c4, *c, inputs, d3@);
                lemma_wire_vals_extends(c4, *c, inputs, a0@);
                lemma_wire_vals_extends(c5, *c, inputs, e1@);
                lemma_wire_vals_extends(c5, *c, inputs, a1@);
                lemma_wire_vals_extends(c6, *c, inputs, e2@);
                lemma_wire_vals_extends(c6, *c, inputs, e1@);
                lemma_wire_vals_extends(c7, *c, inputs, e3@);
                lemma_wire_vals_extends(c7, *c, inputs, e2@);
                lemma_wire_vals_extends(c8, *c, inputs, n1@);
                lemma_wire_vals_extends(c8, *c, inputs, e3@);
                lemma_wire_vals_extends(c8, *c, inputs, a1@);
                lemma_wire_vals_extends(c9, *c, inputs, r0@);
                lemma_wire_vals_extends(c9, *c, inputs, n0@);
                lemma_wire_vals_extends(c9, *c, inputs, a1@);
                assert(wire_vals(*c, inputs, a@).subrange(0, 254) == wire_vals(*c, inputs, a0@));
                assert(wire_vals(*c, inputs, a@).subrange(254, 508) == wire_vals(*c, inputs, a1@));
                let a0v = fq_coeff(*c, inputs, a@, 0);
                let a1v = fq_coeff(*c, inputs, a@, 1);
                assert(bits_value(wire_vals(c1, inputs, d1@)) == fq_dbl_val(a0v));
                lemma_mod_bound((2 * a0v) as int, pn as int);
                assert(bits_value(wire_vals(c2, inputs, d2@)) == fq_dbl_val(fq_dbl_val(a0v)));
                lemma_mod_bound((2 * fq_dbl_val(a0v)) as int, pn as int);
                assert(bits_value(wire_vals(c3, inputs, d3@)) == fq_dbl_val(
                    fq_dbl_val(fq_dbl_val(a0v)),
                ));
                lemma_mod_bound((2 * fq_dbl_val(fq_dbl_val(a0v))) as int, pn as int);
                assert(bits_value(wire_vals(c4, inputs, n0@)) == fq_nine_val(a0v));
                lemma_mod_bound((fq_dbl_val(fq_dbl_val(fq_dbl_val(a0v))) + a0v) as int, pn as int);
                assert(bits_value(wire_vals(c5, inputs, e1@)) == fq_dbl_val(a1v));
                lemma_mod_bound((2 * a1v) as int, pn as int);
                assert(bits_value(wire_vals(c6, inputs, e2@)) == fq_dbl_val(fq_dbl_val(a1v)));
                lemma_mod_bound((2 * fq_dbl_val(a1v)) as int, pn as int);
                assert(bits_value(wire_vals(c7, inputs, e3@)) == fq_dbl_val(
                    fq_dbl_val(fq_dbl_val(a1v)),
                ));
                lemma_mod_bound((2 * fq_dbl_val(fq_dbl_val(a1v))) as int, pn as int);
                assert(bits_value(wire_vals(c8, inputs, n1@)) == fq_nine_val(a1v));
                lemma_mod_bound((fq_dbl_val(fq_dbl_val(fq_dbl_val(a1v))) + a1v) as int, pn as int);
                assert(bits_value(wire_vals(c9, inputs, r0@)) == fq_sub_val(
                    fq_nine_val(a0v),
                    a1v,
                ));
                assert(bits_value(wire_vals(*c, inputs, r1@)) == fq_add_val(
                    fq_nine_val(a1v),
                    a0v,
                ));
                lemma_fq_coeff_concat_left(*c, inputs, r0@, r1@, 0);
                lemma_fq_coeff_concat_right(*c, inputs, r0@, r1@, 1, 0);
                assert(wire_vals(*c, inputs, r0@).subrange(0, 254) =~= wire_vals(*c, inputs, r0@));
                assert(wire_vals(*c, inputs, r1@).subrange(0, 254) =~= wire_vals(*c, inputs, r1@));
            }
        }
        out
    }

    /// The `i`-th power of the Frobenius map: conjugation when `i` is odd
    /// (the `Fq2` Frobenius coefficients are `1` and `-1`), identity when
    /// `i` is even.
    pub fn frobenius(c: &mut Circuit, a: &Wires, i: usize) -> (out: Wires)
        requires
            old(c).wf(),
            a@.len() == 508,
            wires_in(a@, old(c).n_wires()),
            old(c).n_wires() + 3100 <= usize::MAX,
        ensures
            final(c).wf(),
            final(c).extends(*old(c)),
            final(c).n_wires() <= old(c).n_wires() + 3100,
            out@.len() == 508,
            wires_in(out@, final(c).n_wires()),
            forall|inputs: Seq<bool>|
                fq2_reduced(fq2_val(*final(c), inputs, a@)) ==> #[trigger] fq2_val(
                    *final(c),
                    inputs,
                    out@,
                ) == fq2_frob_vals(fq2_val(*final(c), inputs, a@), i as int),
    {
        let a0 = subwires(a, 0, 254);
        let a1 = subwires(a, 254, 254);
        if i % 2 == 1 {
            let r1 = Fq::neg(c, &a1);
            let out = concat_wires(&a0, &r1);
            proof {
                assert forall|inputs: Seq<bool>|
                    fq2_reduced(fq2_val(*c, inputs, a@)) implies #[trigger] fq2_val(
                    *c,
                    inputs,
                    out@,
                ) == fq2_frob_vals(fq2_val(*c, inputs, a@), i as int) by {
                    assert(wire_vals(*c, inputs, a@).subrange(0, 254) == wire_vals(
                        *c,
                        inputs,
                        a0@,
                    ));
                    assert(wire_vals(*c, inputs, a@).subrange(254, 508) == wire_vals(
                        *c,
                        inputs,
                        a1@,
                    ));
                    assert(bits_value(wire_vals(*c, inputs, r1@)) == fq_neg_val(
                        fq_coeff(*c, inputs, a@, 1),
                    ));
                    lemma_fq_coeff_concat_left(*c, inputs, a0@, r1@, 0);
                    lemma_fq_coeff_concat_right(*c, inputs, a0@, r1@, 1, 0);
                    assert(wire_vals(*c, inputs, a0@).subrange(0, 254) =~= wire_vals(
                        *c,
                        inputs,
                        a0@,
                    ));
                    assert(wire_vals(*c, inputs, r1@).subrange(0, 254) =~= wire_vals(
                        *c,
                        inputs,
                        r1@,
                    ));
                }
            }
            out
        } else {
            proof {
                crate::circuit::lemma_extends_refl(*c);
            }
            let out = concat_wires(&a0, &a1);
            proof {
                assert(out@ =~= a@);
            }
            out
        }
    }
}

} // verus!
