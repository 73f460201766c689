//! Top-of-tower circuits: `Fq12 = Fq6[w]/(w^2 - v)`, an element laid out as
//! 3048 wires, the low 1524 carrying `c0` and the high 1524 carrying `c1`.

use vstd::prelude::*;

verus! {

use crate::circuit::{Circuit, Wires, wires_in, subwires, concat_wires,
    lemma_wire_vals_extends};
use crate::fq::{fq_modulus, fq_coeff, fq_add_val, fq_sub_val, lemma_fq_coeff_concat_left,
    lemma_fq_coeff_concat_right, lemma_fq_coeff_slice};
use crate::fq6::{Fq6, fq6_val, fq6_reduced, fq6_add_vals, fq6_sub_vals, fq6_mul_vals,
    fq6_nonres_vals, fq6_frob_vals, fq6_mul_const_fq2_vals, fq6_const_val, fq6_mul_const_vals,
    fq6_mul01_vals, lemma_fq6_vals_reduced, lemma_fq6_frob_reduced,
    lemma_fq6_mul_const_reduced, lemma_fq6_mul01_reduced};
use crate::fq2::{Fq2, fq2_val, fq2_reduced, fq2_add_vals, fq2_const_val,
    lemma_fq2_vals_reduced};
use crate::arkconst::{fq12_frob_c1_bits, fq12_frob_c1_val};

broadcast use crate::circuit::lemma_extends_chain, crate::circuit::lemma_wires_in_mono,
    crate::circuit::lemma_wires_in_subrange, crate::circuit::lemma_wires_in_concat;

/// The pair of `Fq6` values an `Fq12` element's wires denote.
pub open spec fn fq12_val(c: Circuit, inputs: Seq<bool>, ws: Seq<usize>) -> (
    ((nat, nat), (nat, nat), (nat, nat)),
    ((nat, nat), (nat, nat), (nat, nat)),
) {
    (
        (
            (fq_coeff(c, inputs, ws, 0), fq_coeff(c, inputs, ws, 1)),
            (fq_coeff(c, inputs, ws, 2), fq_coeff(c, inputs, ws, 3)),
            (fq_coeff(c, inputs, ws, 4), fq_coeff(c, inputs, ws, 5)),
        ),
        (
            (fq_coeff(c, inputs, ws, 6), fq_coeff(c, inputs, ws, 7)),
            (fq_coeff(c, inputs, ws, 8), fq_coeff(c, inputs, ws, 9)),
            (fq_coeff(c, inputs, ws, 10), fq_coeff(c, inputs, ws, 11)),
        ),
    )
}

/// Whether all twelve coefficients are below the modulus.
pub open spec fn fq12_reduced(
    x: (((nat, nat), (nat, nat), (nat, nat)), ((nat, nat), (nat, nat), (nat, nat))),
) -> bool {
    fq6_reduced(x.0) && fq6_reduced(x.1)
}

/// The Karatsuba product over `Fq6`, in the shape the builder emits:
/// `c0 = v (x1 y1) + x0 y0`, `c1 = (x0 + x1)(y0 + y1) - (x0 y0 + x1 y1)`.
pub open spec fn fq12_mul_vals(
    x: (((nat, nat), (nat, nat), (nat, nat)), ((nat, nat), (nat, nat), (nat, nat))),
    y: (((nat, nat), (nat, nat), (nat, nat)), ((nat, nat), (nat, nat), (nat, nat))),
) -> (((nat, nat), (nat, nat), (nat, nat)), ((nat, nat), (nat, nat), (nat, nat))) {
    let v0 = fq6_mul_vals(x.0, y.0);
    let v1 = fq6_mul_vals(x.1, y.1);
    (
        fq6_add_vals(fq6_nonres_vals(v1), v0),
        fq6_sub_vals(
            fq6_mul_vals(fq6_add_vals(x.0, x.1), fq6_add_vals(y.0, y.1)),
            fq6_add_vals(v0, v1),
        ),
    )
}

/// The pair of `Fq6` constant values a 3048-bit constant denotes.
pub open spec fn fq12_const_val(k: Seq<bool>) -> (
    ((nat, nat), (nat, nat), (nat, nat)),
    ((nat, nat), (nat, nat), (nat, nat)),
) {
    (fq6_const_val(k.subrange(0, 1524)), fq6_const_val(k.subrange(1524, 3048)))
}

/// The Karatsuba skeleton of `mul` against a constant, in the shape the
/// builder emits (the product against `k0 + k1` distributed over the two
/// halves).
pub open spec fn fq12_mul_const_vals(
    x: (((nat, nat), (nat, nat), (nat, nat)), ((nat, nat), (nat, nat), (nat, nat))),
    k: (((nat, nat), (nat, nat), (nat, nat)), ((nat, nat), (nat, nat), (nat, nat))),
) -> (((nat, nat), (nat, nat), (nat, nat)), ((nat, nat), (nat, nat), (nat, nat))) {
    let w1 = fq6_add_vals(x.0, x.1);
    let w2 = fq6_mul_const_vals(x.0, k.0);
    let w3 = fq6_mul_const_vals(x.1, k.1);
    (
        fq6_add_vals(fq6_nonres_vals(w3), w2),
        fq6_sub_vals(
            fq6_add_vals(fq6_mul_const_vals(w1, k.0), fq6_mul_const_vals(w1, k.1)),
            fq6_add_vals(w2, w3),
        ),
    )
}

/// The sparse product against the element with `Fq2` basis coordinates
/// `(1, 0, 0, y3, y4, 0)`, in the shape the builder emits.
pub open spec fn fq12_mul34_vals(
    x: (((nat, nat), (nat, nat), (nat, nat)), ((nat, nat), (nat, nat), (nat, nat))),
    y3: (nat, nat),
    y4: (nat, nat),
) -> (((nat, nat), (nat, nat), (nat, nat)), ((nat, nat), (nat, nat), (nat, nat))) {
    let w1 = fq6_mul01_vals(x.1, y3, y4);
    (
        fq6_add_vals(fq6_nonres_vals(w1), x.0),
        fq6_sub_vals(
            fq6_mul01_vals(fq6_add_vals(x.0, x.1), fq2_add_vals(y3, (1nat, 0nat)), y4),
            fq6_add_vals(w1, x.0),
        ),
    )
}

/// The `i`-th Frobenius power on `Fq12`: componentwise `Fq6` Frobenius,
/// the `c1` half multiplied by the table coefficient at `i` modulo the
/// table length.
pub open spec fn fq12_frob_vals(
    x: (((nat, nat), (nat, nat), (nat, nat)), ((nat, nat), (nat, nat), (nat, nat))),
    i: int,
) -> (((nat, nat), (nat, nat), (nat, nat)), ((nat, nat), (nat, nat), (nat, nat))) {
    (
        fq6_frob_vals(x.0, i),
        fq6_mul_const_fq2_vals(fq6_frob_vals(x.1, i), fq12_frob_c1_val(i % 12)),
    )
}

/// The values of the two 1524-wire slices of an `Fq12` operand.
pub proof fn lemma_fq12_split(
    c: Circuit,
    inputs: Seq<bool>,
    a: Seq<usize>,
    a0: Seq<usize>,
    a1: Seq<usize>,
)
    requires
        a.len() == 3048,
        a0 == a.subrange(0, 1524),
        a1 == a.subrange(1524, 3048),
    ensures
        fq6_val(c, inputs, a0) == fq12_val(c, inputs, a).0,
        fq6_val(c, inputs, a1) == fq12_val(c, inputs, a).1,
{
    lemma_fq_coeff_slice(c, inputs, a, 0, 1524, 0);
    lemma_fq_coeff_slice(c, inputs, a, 0, 1524, 1);
    lemma_fq_coeff_slice(c, inputs, a, 0, 1524, 2);
    lemma_fq_coeff_slice(c, inputs, a, 0, 1524, 3);
    lemma_fq_coeff_slice(c, inputs, a, 0, 1524, 4);
    lemma_fq_coeff_slice(c, inputs, a, 0, 1524, 5);
    lemma_fq_coeff_slice(c, inputs, a, 6, 1524, 0);
    lemma_fq_coeff_slice(c, inputs, a, 6, 1524, 1);
    lemma_fq_coeff_slice(c, inputs, a, 6, 1524, 2);
    lemma_fq_coeff_slice(c, inputs, a, 6, 1524, 3);
    lemma_fq_coeff_slice(c, inputs, a, 6, 1524, 4);
    lemma_fq_coeff_slice(c, inputs, a, 6, 1524, 5);
}

/// The values of a pair of concatenated 1524-wire results.
pub proof fn lemma_fq12_assemble(
    c: Circuit,
    inputs: Seq<bool>,
    r0: Seq<usize>,
    r1: Seq<usize>,
    out: Seq<usize>,
)
    requires
        r0.len() == 1524,
        r1.len() == 1524,
        out == r0 + r1,
    ensures
        fq12_val(c, inputs, out) == (fq6_val(c, inputs, r0), fq6_val(c, inputs, r1)),
{
    lemma_fq_coeff_concat_left(c, inputs, r0, r1, 0);
    lemma_fq_coeff_concat_left(c, inputs, r0, r1, 1);
    lemma_fq_coeff_concat_left(c, inputs, r0, r1, 2);
    lemma_fq_coeff_concat_left(c, inputs, r0, r1, 3);
    lemma_fq_coeff_concat_left(c, inputs, r0, r1, 4);
    lemma_fq_coeff_concat_left(c, inputs, r0, r1, 5);
    lemma_fq_coeff_concat_right(c, inputs, r0, r1, 6, 0);
    lemma_fq_coeff_concat_right(c, inputs, r0, r1, 6, 1);
    lemma_fq_coeff_concat_right(c, inputs, r0, r1, 6, 2);
    lemma_fq_coeff_concat_right(c, inputs, r0, r1, 6, 3);
    lemma_fq_coeff_concat_right(c, inputs, r0, r1, 6, 4);
    lemma_fq_coeff_concat_right(c, inputs, r0, r1, 6, 5);
}

/// The `Fq12` circuit builders.
pub struct Fq12;

impl Fq12 {
    /// Componentwise addition: two `Fq6` adds on the halves.
    pub fn add(c: &mut Circuit, a: &Wires, b: &Wires) -> (out: Wires)
        requires
            old(c).wf(),
            a@.len() == 3048,
            b@.len() == 3048,
            wires_in(a@, old(c).n_wires()),
            wires_in(b@, old(c).n_wires()),
            old(c).n_wires() + 40000 <= usize::MAX,
        ensures
            final(c).wf(),
            final(c).extends(*old(c)),
            final(c).n_wires() <= old(c).n_wires() + 40000,
            out@.len() == 3048,
            wires_in(out@, final(c).n_wires()),
            forall|inputs: Seq<bool>, j: int|
                (0 <= j < 12 && fq_coeff(*final(c), inputs, a@, j) < fq_modulus() && fq_coeff(*final(c), inputs, b@, j) < fq_modulus())
                    ==> #[trigger] fq_coeff(*final(c), inputs, out@, j) == (fq_coeff(*final(c), inputs, a@, j) + fq_coeff(*final(c), inputs, b@, j)) % fq_modulus(),
    {
        let a0 = subwires(a, 0, 1524);
        let a1 = subwires(a, 1524, 1524);
        let b0 = subwires(b, 0, 1524);
        let b1 = subwires(b, 1524, 1524);
        let r0 = Fq6::add(c, &a0, &b0);
        let ghost c1 = *c;
        let r1 = Fq6::add(c, &a1, &b1);
        let out = concat_wires(&r0, &r1);
        proof {
            assert forall|inputs: Seq<bool>, j: int|
                (0 <= j < 12 && fq_coeff(*c, inputs, a@, j) < fq_modulus() && fq_coeff(*c, inputs, b@, j) < fq_modulus())
                    implies #[trigger] fq_coeff(*c, inputs, out@, j) == (fq_coeff(*c, inputs, a@, j) + fq_coeff(*c, inputs, b@, j)) % fq_modulus() by {
                lemma_wire_vals_extends(c1, *c, inputs, r0@);
                lemma_wire_vals_extends(c1, *c, inputs, a0@);
                lemma_wire_vals_extends(c1, *c, inputs, b0@);
                let m: int = if j < 6 { j } else { j - 6 };
                lemma_fq_coeff_slice(*c, inputs, a@, 0, 1524, m);
                lemma_fq_coeff_slice(*c, inputs, a@, 6, 1524, m);
                lemma_fq_coeff_slice(*c, inputs, b@, 0, 1524, m);
                lemma_fq_coeff_slice(*c, inputs, b@, 6, 1524, m);
                if j < 6 {
                    lemma_fq_coeff_concat_left(*c, inputs, r0@, r1@, j);
                    assert(fq_coeff(c1, inputs, a0@, m) == fq_coeff(*c, inputs, a@, j));
                    assert(fq_coeff(c1, inputs, b0@, m) == fq_coeff(*c, inputs, b@, j));
                    assert(fq_coeff(c1, inputs, r0@, m) == (fq_coeff(c1, inputs, a0@, m) + fq_coeff(c1, inputs, b0@, m)) % fq_modulus());
                    assert(fq_coeff(*c, inputs, r0@, m) == fq_coeff(c1, inputs, r0@, m));
                } else {
                    lemma_fq_coeff_concat_right(*c, inputs, r0@, r1@, 6, m);
                    assert(fq_coeff(*c, inputs, a1@, m) == fq_coeff(*c, inputs, a@, j));
                    assert(fq_coeff(*c, inputs, b1@, m) == fq_coeff(*c, inputs, b@, j));
                    assert(fq_coeff(*c, inputs, r1@, m) == (fq_coeff(*c, inputs, a1@, m) + fq_coeff(*c, inputs, b1@, m)) % fq_modulus());
                    assert(fq_coeff(*c, inputs, r1@, m) == fq_coeff(*c, inputs, r1@, m));
                }
            }
        }
        out
    }

    /// Componentwise negation.
    pub fn neg(c: &mut Circuit, a: &Wires) -> (out: Wires)
        requires
            old(c).wf(),
            a@.len() == 3048,
            wires_in(a@, old(c).n_wires()),
            old(c).n_wires() + 40000 <= usize::MAX,
        ensures
            final(c).wf(),
            final(c).extends(*old(c)),
            final(c).n_wires() <= old(c).n_wires() + 40000,
            out@.len() == 3048,
            wires_in(out@, final(c).n_wires()),
            forall|inputs: Seq<bool>, j: int|
                (0 <= j < 12 && fq_coeff(*final(c), inputs, a@, j) < fq_modulus())
                    ==> #[trigger] fq_coeff(*final(c), inputs, out@, j) == (fq_modulus() - fq_coeff(*final(c), inputs, a@, j)) % (fq_modulus() as int),
    {
        let a0 = subwires(a, 0, 1524);
        let a1 = subwires(a, 1524, 1524);
        let r0 = Fq6::neg(c, &a0);
        let ghost c1 = *c;
        let r1 = Fq6::neg(c, &a1);
        let out = concat_wires(&r0, &r1);
        proof {
            assert forall|inputs: Seq<bool>, j: int|
                (0 <= j < 12 && fq_coeff(*c, inputs, a@, j) < fq_modulus())
                    implies #[trigger] fq_coeff(*c, inputs, out@, j) == (fq_modulus() - fq_coeff(*c, inputs, a@, j)) % (fq_modulus() as int) by {
                lemma_wire_vals_extends(c1, *c, inputs, r0@);
                lemma_wire_vals_extends(c1, *c, inputs, a0@);
                let m: int = if j < 6 { j } else { j - 6 };
                lemma_fq_coeff_slice(*c, inputs, a@, 0, 1524, m);
                lemma_fq_coeff_slice(*c, inputs, a@, 6, 1524, m);
                if j < 6 {
                    lemma_fq_coeff_concat_left(*c, inputs, r0@, r1@, j);
                    assert(fq_coeff(c1, inputs, a0@, m) == fq_coeff(*c, inputs, a@, j));
                    assert(fq_coeff(c1, inputs, r0@, m) == (fq_modulus() - fq_coeff(c1, inputs, a0@, m)) % (fq_modulus() as int));
                    assert(fq_coeff(*c, inputs, r0@, m) == fq_coeff(c1, inputs, r0@, m));
                } else {
                    lemma_fq_coeff_concat_right(*c, inputs, r0@, r1@, 6, m);
                    assert(fq_coeff(*c, inputs, a1@, m) == fq_coeff(*c, inputs, a@, j));
                    assert(fq_coeff(*c, inputs, r1@, m) == (fq_modulus() - fq_coeff(*c, inputs, a1@, m)) % (fq_modulus() as int));
                    assert(fq_coeff(*c, inputs, r1@, m) == fq_coeff(*c, inputs, r1@, m));
                }
            }
        }
        out
    }

    /// Componentwise subtraction.
    pub fn sub(c: &mut Circuit, a: &Wires, b: &Wires) -> (out: Wires)
        requires
            old(c).wf(),
            a@.len() == 3048,
            b@.len() == 3048,
            wires_in(a@, old(c).n_wires()),
            wires_in(b@, old(c).n_wires()),
            old(c).n_wires() + 75000 <= usize::MAX,
        ensures
            final(c).wf(),
            final(c).extends(*old(c)),
            final(c).n_wires() <= old(c).n_wires() + 75000,
            out@.len() == 3048,
            wires_in(out@, final(c).n_wires()),
            forall|inputs: Seq<bool>, j: int|
                (0 <= j < 12 && fq_coeff(*final(c), inputs, a@, j) < fq_modulus() && fq_coeff(*final(c), inputs, b@, j) < fq_modulus())
                    ==> #[trigger] fq_coeff(*final(c), inputs, out@, j) == (fq_coeff(*final(c), inputs, a@, j) + fq_modulus() - fq_coeff(*final(c), inputs, b@, j)) % (fq_modulus() as int),
    {
        let a0 = subwires(a, 0, 1524);
        let a1 = subwires(a, 1524, 1524);
        let b0 = subwires(b, 0, 1524);
        let b1 = subwires(b, 1524, 1524);
        let r0 = Fq6::sub(c, &a0, &b0);
        let ghost c1 = *c;
        let r1 = Fq6::sub(c, &a1, &b1);
        let out = concat_wires(&r0, &r1);
        proof {
            assert forall|inputs: Seq<bool>, j: int|
                (0 <= j < 12 && fq_coeff(*c, inputs, a@, j) < fq_modulus() && fq_coeff(*c, inputs, b@, j) < fq_modulus())
                    implies #[trigger] fq_coeff(*c, inputs, out@, j) == (fq_coeff(*c, inputs, a@, j) + fq_modulus() - fq_coeff(*c, inputs, b@, j)) % (fq_modulus() as int) by {
                lemma_wire_vals_extends(c1, *c, inputs, r0@);
                lemma_wire_vals_extends(c1, *c, inputs, a0@);
                lemma_wire_vals_extends(c1, *c, inputs, b0@);
                let m: int = if j < 6 { j } else { j - 6 };
                lemma_fq_coeff_slice(*c, inputs, a@, 0, 1524, m);
                lemma_fq_coeff_slice(*c, inputs, a@, 6, 1524, m);
                lemma_fq_coeff_slice(*c, inputs, b@, 0, 1524, m);
                lemma_fq_coeff_slice(*c, inputs, b@, 6, 1524, m);
                if j < 6 {
                    lemma_fq_coeff_concat_left(*c, inputs, r0@, r1@, j);
                    assert(fq_coeff(c1, inputs, a0@, m) == fq_coeff(*c, inputs, a@, j));
                    assert(fq_coeff(c1, inputs, b0@, m) == fq_coeff(*c, inputs, b@, j));
                    assert(fq_coeff(c1, inputs, r0@, m) == (fq_coeff(c1, inputs, a0@, m) + fq_modulus() - fq_coeff(c1, inputs, b0@, m)) % (fq_modulus() as int));
                    assert(fq_coeff(*c, inputs, r0@, m) == fq_coeff(c1, inputs, r0@, m));
                } else {
                    lemma_fq_coeff_concat_right(*c, inputs, r0@, r1@, 6, m);
                    assert(fq_coeff(*c, inputs, a1@, m) == fq_coeff(*c, inputs, a@, j));
                    assert(fq_coeff(*c, inputs, b1@, m) == fq_coeff(*c, inputs, b@, j));
                    assert(fq_coeff(*c, inputs, r1@, m) == (fq_coeff(*c, inputs, a1@, m) + fq_modulus() - fq_coeff(*c, inputs, b1@, m)) % (fq_modulus() as int));
                    assert(fq_coeff(*c, inputs, r1@, m) == fq_coeff(*c, inputs, r1@, m));
                }
            }
        }
        out
    }

    /// Componentwise doubling, delegated to the `Fq6` doubler.
    pub fn double(c: &mut Circuit, a: &Wires) -> (out: Wires)
        requires
            old(c).wf(),
            a@.len() == 3048,
            wires_in(a@, old(c).n_wires()),
            old(c).n_wires() + 23000 <= usize::MAX,
        ensures
            final(c).wf(),
            final(c).extends(*old(c)),
            final(c).n_wires() <= old(c).n_wires() + 23000,
            out@.len() == 3048,
            wires_in(out@, final(c).n_wires()),
            forall|inputs: Seq<bool>, j: int|
                (0 <= j < 12 && fq_coeff(*final(c), inputs, a@, j) < fq_modulus())
                    ==> #[trigger] fq_coeff(*final(c), inputs, out@, j) == (2 * fq_coeff(*final(c), inputs, a@, j)) % fq_modulus(),
    {
        let a0 = subwires(a, 0, 1524);
        let a1 = subwires(a, 1524, 1524);
        let r0 = Fq6::double(c, &a0);
        let ghost c1 = *c;
        let r1 = Fq6::double(c, &a1);
        let out = concat_wires(&r0, &r1);
        proof {
            assert forall|inputs: Seq<bool>, j: int|
                (0 <= j < 12 && fq_coeff(*c, inputs, a@, j) < fq_modulus())
                    implies #[trigger] fq_coeff(*c, inputs, out@, j) == (2 * fq_coeff(*c, inputs, a@, j)) % fq_modulus() by {
                lemma_wire_vals_extends(c1, *c, inputs, r0@);
                lemma_wire_vals_extends(c1, *c, inputs, a0@);
                let m: int = if j < 6 { j } else { j - 6 };
                lemma_fq_coeff_slice(*c, inputs, a@, 0, 1524, m);
                lemma_fq_coeff_slice(*c, inputs, a@, 6, 1524, m);
                if j < 6 {
                    lemma_fq_coeff_concat_left(*c, inputs, r0@, r1@, j);
                    assert(fq_coeff(c1, inputs, a0@, m) == fq_coeff(*c, inputs, a@, j));
                    assert(fq_coeff(c1, inputs, r0@, m) == (2 * fq_coeff(c1, inputs, a0@, m)) % fq_modulus());
                    assert(fq_coeff(*c, inputs, r0@, m) == fq_coeff(c1, inputs, r0@, m));
                } else {
                    lemma_fq_coeff_concat_right(*c, inputs, r0@, r1@, 6, m);
                    assert(fq_coeff(*c, inputs, a1@, m) == fq_coeff(*c, inputs, a@, j));
                    assert(fq_coeff(*c, inputs, r1@, m) == (2 * fq_coeff(*c, inputs, a1@, m)) % fq_modulus());
                    assert(fq_coeff(*c, inputs, r1@, m) == fq_coeff(*c, inputs, r1@, m));
                }
            }
        }
        out
    }

    /// Karatsuba product over `Fq6`: three `Fq6` multiplications, one
    /// non-residue multiplication and five additive operations; the result
    /// values follow the emitted tower identities exactly.
    #[verifier::rlimit(100)]
    pub fn mul(c: &mut Circuit, a: &Wires, b: &Wires) -> (out: Wires)
        requires
            old(c).wf(),
            a@.len() == 3048,
            b@.len() == 3048,
            wires_in(a@, old(c).n_wires()),
            wires_in(b@, old(c).n_wires()),
            old(c).n_wires() + 76000000 <= usize::MAX,
        ensures
            final(c).wf(),
            final(c).extends(*old(c)),
            final(c).n_wires() <= old(c).n_wires() + 76000000,
            out@.len() == 3048,
            wires_in(out@, final(c).n_wires()),
            forall|inputs: Seq<bool>|
                (fq12_reduced(fq12_val(*final(c), inputs, a@)) && fq12_reduced(
                    fq12_val(*final(c), inputs, b@),
                )) ==> #[trigger] fq12_val(*final(c), inputs, out@) == fq12_mul_vals(
                    fq12_val(*final(c), inputs, a@),
                    fq12_val(*final(c), inputs, b@),
                ),
    {
        let a0 = subwires(a, 0, 1524);
        let a1 = subwires(a, 1524, 1524);
        let b0 = subwires(b, 0, 1524);
        let b1 = subwires(b, 1524, 1524);
        let w1 = Fq6::add(c, &a0, &a1);
        let ghost s0 = *c;
        let w2 = Fq6::add(c, &b0, &b1);
        let ghost s1 = *c;
        let w3 = Fq6::mul(c, &a0, &b0);
        let ghost s2 = *c;
        let w4 = Fq6::mul(c, &a1, &b1);
        let ghost s3 = *c;
        let w5 = Fq6::add(c, &w3, &w4);
        let ghost s4 = *c;
        let w6 = Fq6::mul_by_nonresidue(c, &w4);
        let ghost s5 = *c;
        let w7 = Fq6::add(c, &w6, &w3);
        let ghost s6 = *c;
        let w8 = Fq6::mul(c, &w1, &w2);
        let ghost s7 = *c;
        let w9 = Fq6::sub(c, &w8, &w5);
        let ghost s8 = *c;
        let out = concat_wires(&w7, &w9);
        proof {
            crate::circuit::lemma_extends_refl(*c);
            assert forall|inputs: Seq<bool>|
                (fq12_reduced(fq12_val(*c, inputs, a@)) && fq12_reduced(
                    fq12_val(*c, inputs, b@),
                )) implies #[trigger] fq12_val(*c, inputs, out@) == fq12_mul_vals(
                fq12_val(*c, inputs, a@),
                fq12_val(*c, inputs, b@),
            ) by {
                lemma_wire_vals_extends(s0, *c, inputs, w1@);
                lemma_wire_vals_extends(s0, *c, inputs, a0@);
                lemma_wire_vals_extends(s0, *c, inputs, a1@);
                lemma_wire_vals_extends(s1, *c, inputs, w2@);
                lemma_wire_vals_extends(s1, *c, inputs, b0@);
                lemma_wire_vals_extends(s1, *c, inputs, b1@);
                lemma_wire_vals_extends(s2, *c, inputs, w3@);
                lemma_wire_vals_extends(s2, *c, inputs, a0@);
                lemma_wire_vals_extends(s2, *c, inputs, b0@);
                lemma_wire_vals_extends(s3, *c, inputs, w4@);
                lemma_wire_vals_extends(s3, *c, inputs, a1@);
                lemma_wire_vals_extends(s3, *c, inputs, b1@);
                lemma_wire_vals_extends(s4, *c, inputs, w5@);
                lemma_wire_vals_extends(s4, *c, inputs, w3@);
                lemma_wire_vals_extends(s4, *c, inputs, w4@);
                lemma_wire_vals_extends(s5, *c, inputs, w6@);
                lemma_wire_vals_extends(s5, *c, inputs, w4@);
                lemma_wire_vals_extends(s6, *c, inputs, w7@);
                lemma_wire_vals_extends(s6, *c, inputs, w6@);
                lemma_wire_vals_extends(s6, *c, inputs, w3@);
                lemma_wire_vals_extends(s7, *c, inputs, w8@);
                lemma_wire_vals_extends(s7, *c, inputs, w1@);
                lemma_wire_vals_extends(s7, *c, inputs, w2@);
                lemma_wire_vals_extends(s8, *c, inputs, w9@);
                lemma_wire_vals_extends(s8, *c, inputs, w8@);
                lemma_wire_vals_extends(s8, *c, inputs, w5@);
                lemma_fq12_split(*c, inputs, a@, a0@, a1@);
                lemma_fq12_split(*c, inputs, b@, b0@, b1@);
                let xa = fq12_val(*c, inputs, a@);
                let xb = fq12_val(*c, inputs, b@);
                assert(fq6_val(s0, inputs, a0@) == xa.0);
                assert(fq6_val(s0, inputs, a1@) == xa.1);
                lemma_fq6_vals_reduced(xa.0, xa.1);
                assert(fq_coeff(s0, inputs, w1@, 0) == fq_add_val(fq_coeff(s0, inputs, a0@, 0), fq_coeff(s0, inputs, a1@, 0)));
                assert(fq_coeff(s0, inputs, w1@, 1) == fq_add_val(fq_coeff(s0, inputs, a0@, 1), fq_coeff(s0, inputs, a1@, 1)));
                assert(fq_coeff(s0, inputs, w1@, 2) == fq_add_val(fq_coeff(s0, inputs, a0@, 2), fq_coeff(s0, inputs, a1@, 2)));
                assert(fq_coeff(s0, inputs, w1@, 3) == fq_add_val(fq_coeff(s0, inputs, a0@, 3), fq_coeff(s0, inputs, a1@, 3)));
                assert(fq_coeff(s0, inputs, w1@, 4) == fq_add_val(fq_coeff(s0, inputs, a0@, 4), fq_coeff(s0, inputs, a1@, 4)));
                assert(fq_coeff(s0, inputs, w1@, 5) == fq_add_val(fq_coeff(s0, inputs, a0@, 5), fq_coeff(s0, inputs, a1@, 5)));
                assert(fq6_val(*c, inputs, w1@) == fq6_add_vals(xa.0, xa.1));
                assert(fq6_val(s1, inputs, b0@) == xb.0);
                assert(fq6_val(s1, inputs, b1@) == xb.1);
                lemma_fq6_vals_reduced(xb.0, xb.1);
                assert(fq_coeff(s1, inputs, w2@, 0) == fq_add_val(fq_coeff(s1, inputs, b0@, 0), fq_coeff(s1, inputs, b1@, 0)));
                assert(fq_coeff(s1, inputs, w2@, 1) == fq_add_val(fq_coeff(s1, inputs, b0@, 1), fq_coeff(s1, inputs, b1@, 1)));
                assert(fq_coeff(s1, inputs, w2@, 2) == fq_add_val(fq_coeff(s1, inputs, b0@, 2), fq_coeff(s1, inputs, b1@, 2)));
                assert(fq_coeff(s1, inputs, w2@, 3) == fq_add_val(fq_coeff(s1, inputs, b0@, 3), fq_coeff(s1, inputs, b1@, 3)));
                assert(fq_coeff(s1, inputs, w2@, 4) == fq_add_val(fq_coeff(s1, inputs, b0@, 4), fq_coeff(s1, inputs, b1@, 4)));
                assert(fq_coeff(s1, inputs, w2@, 5) == fq_add_val(fq_coeff(s1, inputs, b0@, 5), fq_coeff(s1, inputs, b1@, 5)));
                assert(fq6_val(*c, inputs, w2@) == fq6_add_vals(xb.0, xb.1));
                assert(fq6_val(s2, inputs, a0@) == xa.0);
                assert(fq6_val(s2, inputs, b0@) == xb.0);
                lemma_fq6_vals_reduced(xa.0, xb.0);
                assert(fq6_val(s2, inputs, w3@) == fq6_mul_vals(fq6_val(s2, inputs, a0@), fq6_val(s2, inputs, b0@)));
                assert(fq6_val(*c, inputs, w3@) == fq6_mul_vals(xa.0, xb.0));
                assert(fq6_val(s3, inputs, a1@) == xa.1);
                assert(fq6_val(s3, inputs, b1@) == xb.1);
                lemma_fq6_vals_reduced(xa.1, xb.1);
                assert(fq6_val(s3, inputs, w4@) == fq6_mul_vals(fq6_val(s3, inputs, a1@), fq6_val(s3, inputs, b1@)));
                assert(fq6_val(*c, inputs, w4@) == fq6_mul_vals(xa.1, xb.1));
                assert(fq6_val(s4, inputs, w3@) == fq6_mul_vals(xa.0, xb.0));
                assert(fq6_val(s4, inputs, w4@) == fq6_mul_vals(xa.1, xb.1));
                lemma_fq6_vals_reduced(fq6_mul_vals(xa.0, xb.0), fq6_mul_vals(xa.1, xb.1));
                assert(fq_coeff(s4, inputs, w5@, 0) == fq_add_val(fq_coeff(s4, inputs, w3@, 0), fq_coeff(s4, inputs, w4@, 0)));
                assert(fq_coeff(s4, inputs, w5@, 1) == fq_add_val(fq_coeff(s4, inputs, w3@, 1), fq_coeff(s4, inputs, w4@, 1)));
                assert(fq_coeff(s4, inputs, w5@, 2) == fq_add_val(fq_coeff(s4, inputs, w3@, 2), fq_coeff(s4, inputs, w4@, 2)));
                assert(fq_coeff(s4, inputs, w5@, 3) == fq_add_val(fq_coeff(s4, inputs, w3@, 3), fq_coeff(s4, inputs, w4@, 3)));
                assert(fq_coeff(s4, inputs, w5@, 4) == fq_add_val(fq_coeff(s4, inputs, w3@, 4), fq_coeff(s4, inputs, w4@, 4)));
                assert(fq_coeff(s4, inputs, w5@, 5) == fq_add_val(fq_coeff(s4, inputs, w3@, 5), fq_coeff(s4, inputs, w4@, 5)));
                assert(fq6_val(*c, inputs, w5@) == fq6_add_vals(fq6_mul_vals(xa.0, xb.0), fq6_mul_vals(xa.1, xb.1)));
                assert(fq6_val(s5, inputs, w4@) == fq6_mul_vals(xa.1, xb.1));
                lemma_fq6_vals_reduced(fq6_mul_vals(xa.1, xb.1), fq6_mul_vals(xa.1, xb.1));
                assert(fq6_val(s5, inputs, w6@) == fq6_nonres_vals(fq6_val(s5, inputs, w4@)));
                assert(fq6_val(*c, inputs, w6@) == fq6_nonres_vals(fq6_mul_vals(xa.1, xb.1)));
                assert(fq6_val(s6, inputs, w6@) == fq6_nonres_vals(fq6_mul_vals(xa.1, xb.1)));
                assert(fq6_val(s6, inputs, w3@) == fq6_mul_vals(xa.0, xb.0));
                lemma_fq6_vals_reduced(fq6_nonres_vals(fq6_mul_vals(xa.1, xb.1)), fq6_mul_vals(xa.0, xb.0));
                assert(fq_coeff(s6, inputs, w7@, 0) == fq_add_val(fq_coeff(s6, inputs, w6@, 0), fq_coeff(s6, inputs, w3@, 0)));
                assert(fq_coeff(s6, inputs, w7@, 1) == fq_add_val(fq_coeff(s6, inputs, w6@, 1), fq_coeff(s6, inputs, w3@, 1)));
                assert(fq_coeff(s6, inputs, w7@, 2) == fq_add_val(fq_coeff(s6, inputs, w6@, 2), fq_coeff(s6, inputs, w3@, 2)));
                assert(fq_coeff(s6, inputs, w7@, 3) == fq_add_val(fq_coeff(s6, inputs, w6@, 3), fq_coeff(s6, inputs, w3@, 3)));
                assert(fq_coeff(s6, inputs, w7@, 4) == fq_add_val(fq_coeff(s6, inputs, w6@, 4), fq_coeff(s6, inputs, w3@, 4)));
                assert(fq_coeff(s6, inputs, w7@, 5) == fq_add_val(fq_coeff(s6, inputs, w6@, 5), fq_coeff(s6, inputs, w3@, 5)));
                assert(fq6_val(*c, inputs, w7@) == fq6_add_vals(fq6_nonres_vals(fq6_mul_vals(xa.1, xb.1)), fq6_mul_vals(xa.0, xb.0)));
                assert(fq6_val(s7, inputs, w1@) == fq6_add_vals(xa.0, xa.1));
                assert(fq6_val(s7, inputs, w2@) == fq6_add_vals(xb.0, xb.1));
                lemma_fq6_vals_reduced(fq6_add_vals(xa.0, xa.1), fq6_add_vals(xb.0, xb.1));
                assert(fq6_val(s7, inputs, w8@) == fq6_mul_vals(fq6_val(s7, inputs, w1@), fq6_val(s7, inputs, w2@)));
                assert(fq6_val(*c, inputs, w8@) == fq6_mul_vals(fq6_add_vals(xa.0, xa.1), fq6_add_vals(xb.0, xb.1)));
                assert(fq6_val(s8, inputs, w8@) == fq6_mul_vals(fq6_add_vals(xa.0, xa.1), fq6_add_vals(xb.0, xb.1)));
                assert(fq6_val(s8, inputs, w5@) == fq6_add_vals(fq6_mul_vals(xa.0, xb.0), fq6_mul_vals(xa.1, xb.1)));
                lemma_fq6_vals_reduced(fq6_mul_vals(fq6_add_vals(xa.0, xa.1), fq6_add_vals(xb.0, xb.1)), fq6_add_vals(fq6_mul_vals(xa.0, xb.0), fq6_mul_vals(xa.1, xb.1)));
                assert(fq_coeff(s8, inputs, w9@, 0) == fq_sub_val(fq_coeff(s8, inputs, w8@, 0), fq_coeff(s8, inputs, w5@, 0)));
                assert(fq_coeff(s8, inputs, w9@, 1) == fq_sub_val(fq_coeff(s8, inputs, w8@, 1), fq_coeff(s8, inputs, w5@, 1)));
                assert(fq_coeff(s8, inputs, w9@, 2) == fq_sub_val(fq_coeff(s8, inputs, w8@, 2), fq_coeff(s8, inputs, w5@, 2)));
                assert(fq_coeff(s8, inputs, w9@, 3) == fq_sub_val(fq_coeff(s8, inputs, w8@, 3), fq_coeff(s8, inputs, w5@, 3)));
                assert(fq_coeff(s8, inputs, w9@, 4) == fq_sub_val(fq_coeff(s8, inputs, w8@, 4), fq_coeff(s8, inputs, w5@, 4)));
                assert(fq_coeff(s8, inputs, w9@, 5) == fq_sub_val(fq_coeff(s8, inputs, w8@, 5), fq_coeff(s8, inputs, w5@, 5)));
                assert(fq6_val(*c, inputs, w9@) == fq6_sub_vals(fq6_mul_vals(fq6_add_vals(xa.0, xa.1), fq6_add_vals(xb.0, xb.1)), fq6_add_vals(fq6_mul_vals(xa.0, xb.0), fq6_mul_vals(xa.1, xb.1))));
                lemma_fq12_assemble(*c, inputs, w7@, w9@, out@);
            }
        }
        out
    }

    /// The Karatsuba skeleton of `mul` against a compile-time constant given
    /// as its 3048 little-endian bits; the product against `K.c0 + K.c1` is
    /// obtained by distributing over the two halves, so no host-side field
    /// fold is needed.
    #[verifier::rlimit(100)]
    pub fn mul_by_constant(c: &mut Circuit, a: &Wires, k: &Vec<bool>) -> (out: Wires)
        requires
            old(c).wf(),
            a@.len() == 3048,
            k@.len() == 3048,
            wires_in(a@, old(c).n_wires()),
            old(c).n_wires() + 200000000 <= usize::MAX,
        ensures
            final(c).wf(),
            final(c).extends(*old(c)),
            final(c).n_wires() <= old(c).n_wires() + 200000000,
            out@.len() == 3048,
            wires_in(out@, final(c).n_wires()),
            forall|inputs: Seq<bool>|
                fq12_reduced(fq12_val(*final(c), inputs, a@)) ==> #[trigger] fq12_val(
                    *final(c),
                    inputs,
                    out@,
                ) == fq12_mul_const_vals(fq12_val(*final(c), inputs, a@), fq12_const_val(k@)),
    {
        let a0 = subwires(a, 0, 1524);
        let a1 = subwires(a, 1524, 1524);
        let mut k0: Vec<bool> = Vec::new();
        let mut k1: Vec<bool> = Vec::new();
        let mut i: usize = 0;
        while i < 1524
            invariant
                k@.len() == 3048,
                i <= 1524,
                k0@.len() == i,
                k1@.len() == i,
                forall|j: int| 0 <= j < i ==> #[trigger] k0@[j] == k@[j],
                forall|j: int| 0 <= j < i ==> #[trigger] k1@[j] == k@[1524 + j],
            decreases 1524 - i,
        {
            k0.push(k[i]);
            k1.push(k[1524 + i]);
            i += 1;
        }
        proof {
            assert(k0@ =~= k@.subrange(0, 1524));
            assert(k1@ =~= k@.subrange(1524, 3048));
        }
        let w1 = Fq6::add(c, &a0, &a1);
        let ghost s0 = *c;
        let w2 = Fq6::mul_by_constant(c, &a0, &k0);
        let ghost s1 = *c;
        let w3 = Fq6::mul_by_constant(c, &a1, &k1);
        let ghost s2 = *c;
        let w4 = Fq6::add(c, &w2, &w3);
        let ghost s3 = *c;
        let w5 = Fq6::mul_by_nonresidue(c, &w3);
        let ghost s4 = *c;
        let w6 = Fq6::add(c, &w5, &w2);
        let ghost s5 = *c;
        let w7a = Fq6::mul_by_constant(c, &w1, &k0);
        let ghost s6 = *c;
        let w7b = Fq6::mul_by_constant(c, &w1, &k1);
        let ghost s7 = *c;
        let w7 = Fq6::add(c, &w7a, &w7b);
        let ghost s8 = *c;
        let w8 = Fq6::sub(c, &w7, &w4);
        let ghost s9 = *c;
        let out = concat_wires(&w6, &w8);
        proof {
            crate::circuit::lemma_extends_refl(*c);
            assert forall|inputs: Seq<bool>|
                fq12_reduced(fq12_val(*c, inputs, a@)) implies #[trigger] fq12_val(
                *c,
                inputs,
                out@,
            ) == fq12_mul_const_vals(fq12_val(*c, inputs, a@), fq12_const_val(k@)) by {
                lemma_wire_vals_extends(s0, *c, inputs, w1@);
                lemma_wire_vals_extends(s0, *c, inputs, a0@);
                lemma_wire_vals_extends(s0, *c, inputs, a1@);
                lemma_wire_vals_extends(s1, *c, inputs, w2@);
                lemma_wire_vals_extends(s1, *c, inputs, a0@);
                lemma_wire_vals_extends(s2, *c, inputs, w3@);
                lemma_wire_vals_extends(s2, *c, inputs, a1@);
                lemma_wire_vals_extends(s3, *c, inputs, w4@);
                lemma_wire_vals_extends(s3, *c, inputs, w2@);
                lemma_wire_vals_extends(s3, *c, inputs, w3@);
                lemma_wire_vals_extends(s4, *c, inputs, w5@);
                lemma_wire_vals_extends(s4, *c, inputs, w3@);
                lemma_wire_vals_extends(s5, *c, inputs, w6@);
                lemma_wire_vals_extends(s5, *c, inputs, w5@);
                lemma_wire_vals_extends(s5, *c, inputs, w2@);
                lemma_wire_vals_extends(s6, *c, inputs, w7a@);
                lemma_wire_vals_extends(s6, *c, inputs, w1@);
                lemma_wire_vals_extends(s7, *c, inputs, w7b@);
                lemma_wire_vals_extends(s7, *c, inputs, w1@);
                lemma_wire_vals_extends(s8, *c, inputs, w7@);
                lemma_wire_vals_extends(s8, *c, inputs, w7a@);
                lemma_wire_vals_extends(s8, *c, inputs, w7b@);
                lemma_wire_vals_extends(s9, *c, inputs, w8@);
                lemma_wire_vals_extends(s9, *c, inputs, w7@);
                lemma_wire_vals_extends(s9, *c, inputs, w4@);
                lemma_fq12_split(*c, inputs, a@, a0@, a1@);
                let xa = fq12_val(*c, inputs, a@);
                let kk = fq12_const_val(k@);
                assert(fq6_const_val(k0@) == kk.0);
                assert(fq6_const_val(k1@) == kk.1);
                assert(fq6_val(s0, inputs, a0@) == xa.0);
                assert(fq6_val(s0, inputs, a1@) == xa.1);
                lemma_fq6_vals_reduced(xa.0, xa.1);
                assert(fq_coeff(s0, inputs, w1@, 0) == fq_add_val(fq_coeff(s0, inputs, a0@, 0), fq_coeff(s0, inputs, a1@, 0)));
                assert(fq_coeff(s0, inputs, w1@, 1) == fq_add_val(fq_coeff(s0, inputs, a0@, 1), fq_coeff(s0, inputs, a1@, 1)));
                assert(fq_coeff(s0, inputs, w1@, 2) == fq_add_val(fq_coeff(s0, inputs, a0@, 2), fq_coeff(s0, inputs, a1@, 2)));
                assert(fq_coeff(s0, inputs, w1@, 3) == fq_add_val(fq_coeff(s0, inputs, a0@, 3), fq_coeff(s0, inputs, a1@, 3)));
                assert(fq_coeff(s0, inputs, w1@, 4) == fq_add_val(fq_coeff(s0, inputs, a0@, 4), fq_coeff(s0, inputs, a1@, 4)));
                assert(fq_coeff(s0, inputs, w1@, 5) == fq_add_val(fq_coeff(s0, inputs, a0@, 5), fq_coeff(s0, inputs, a1@, 5)));
                assert(fq6_val(*c, inputs, w1@) == fq6_add_vals(xa.0, xa.1));
                assert(fq6_val(s1, inputs, a0@) == xa.0);
                lemma_fq6_vals_reduced(xa.0, xa.0);
                lemma_fq6_mul_const_reduced(xa.0, kk.0);
                assert(fq6_val(s1, inputs, w2@) == fq6_mul_const_vals(fq6_val(s1, inputs, a0@), fq6_const_val(k0@)));
                assert(fq6_val(*c, inputs, w2@) == fq6_mul_const_vals(xa.0, kk.0));
                assert(fq6_val(s2, inputs, a1@) == xa.1);
                lemma_fq6_vals_reduced(xa.1, xa.1);
                lemma_fq6_mul_const_reduced(xa.1, kk.1);
                assert(fq6_val(s2, inputs, w3@) == fq6_mul_const_vals(fq6_val(s2, inputs, a1@), fq6_const_val(k1@)));
                assert(fq6_val(*c, inputs, w3@) == fq6_mul_const_vals(xa.1, kk.1));
                assert(fq6_val(s3, inputs, w2@) == fq6_mul_const_vals(xa.0, kk.0));
                assert(fq6_val(s3, inputs, w3@) == fq6_mul_const_vals(xa.1, kk.1));
                lemma_fq6_vals_reduced(fq6_mul_const_vals(xa.0, kk.0), fq6_mul_const_vals(xa.1, kk.1));
                assert(fq_coeff(s3, inputs, w4@, 0) == fq_add_val(fq_coeff(s3, inputs, w2@, 0), fq_coeff(s3, inputs, w3@, 0)));
                assert(fq_coeff(s3, inputs, w4@, 1) == fq_add_val(fq_coeff(s3, inputs, w2@, 1), fq_coeff(s3, inputs, w3@, 1)));
                assert(fq_coeff(s3, inputs, w4@, 2) == fq_add_val(fq_coeff(s3, inputs, w2@, 2), fq_coeff(s3, inputs, w3@, 2)));
                assert(fq_coeff(s3, inputs, w4@, 3) == fq_add_val(fq_coeff(s3, inputs, w2@, 3), fq_coeff(s3, inputs, w3@, 3)));
                assert(fq_coeff(s3, inputs, w4@, 4) == fq_add_val(fq_coeff(s3, inputs, w2@, 4), fq_coeff(s3, inputs, w3@, 4)));
                assert(fq_coeff(s3, inputs, w4@, 5) == fq_add_val(fq_coeff(s3, inputs, w2@, 5), fq_coeff(s3, inputs, w3@, 5)));
                assert(fq6_val(*c, inputs, w4@) == fq6_add_vals(fq6_mul_const_vals(xa.0, kk.0), fq6_mul_const_vals(xa.1, kk.1)));
                assert(fq6_val(s4, inputs, w3@) == fq6_mul_const_vals(xa.1, kk.1));
                lemma_fq6_vals_reduced(fq6_mul_const_vals(xa.1, kk.1), fq6_mul_const_vals(xa.1, kk.1));
                assert(fq6_val(s4, inputs, w5@) == fq6_nonres_vals(fq6_val(s4, inputs, w3@)));
                assert(fq6_val(*c, inputs, w5@) == fq6_nonres_vals(fq6_mul_const_vals(xa.1, kk.1)));
                assert(fq6_val(s5, inputs, w5@) == fq6_nonres_vals(fq6_mul_const_vals(xa.1, kk.1)));
                assert(fq6_val(s5, inputs, w2@) == fq6_mul_const_vals(xa.0, kk.0));
                lemma_fq6_vals_reduced(fq6_nonres_vals(fq6_mul_const_vals(xa.1, kk.1)), fq6_mul_const_vals(xa.0, kk.0));
                assert(fq_coeff(s5, inputs, w6@, 0) == fq_add_val(fq_coeff(s5, inputs, w5@, 0), fq_coeff(s5, inputs, w2@, 0)));
                assert(fq_coeff(s5, inputs, w6@, 1) == fq_add_val(fq_coeff(s5, inputs, w5@, 1), fq_coeff(s5, inputs, w2@, 1)));
                assert(fq_coeff(s5, inputs, w6@, 2) == fq_add_val(fq_coeff(s5, inputs, w5@, 2), fq_coeff(s5, inputs, w2@, 2)));
                assert(fq_coeff(s5, inputs, w6@, 3) == fq_add_val(fq_coeff(s5, inputs, w5@, 3), fq_coeff(s5, inputs, w2@, 3)));
                assert(fq_coeff(s5, inputs, w6@, 4) == fq_add_val(fq_coeff(s5, inputs, w5@, 4), fq_coeff(s5, inputs, w2@, 4)));
                assert(fq_coeff(s5, inputs, w6@, 5) == fq_add_val(fq_coeff(s5, inputs, w5@, 5), fq_coeff(s5, inputs, w2@, 5)));
                assert(fq6_val(*c, inputs, w6@) == fq6_add_vals(fq6_nonres_vals(fq6_mul_const_vals(xa.1, kk.1)), fq6_mul_const_vals(xa.0, kk.0)));
                assert(fq6_val(s6, inputs, w1@) == fq6_add_vals(xa.0, xa.1));
                lemma_fq6_vals_reduced(fq6_add_vals(xa.0, xa.1), fq6_add_vals(xa.0, xa.1));
                lemma_fq6_mul_const_reduced(fq6_add_vals(xa.0, xa.1), kk.0);
                assert(fq6_val(s6, inputs, w7a@) == fq6_mul_const_vals(fq6_val(s6, inputs, w1@), fq6_const_val(k0@)));
                assert(fq6_val(*c, inputs, w7a@) == fq6_mul_const_vals(fq6_add_vals(xa.0, xa.1), kk.0));
                assert(fq6_val(s7, inputs, w1@) == fq6_add_vals(xa.0, xa.1));
                lemma_fq6_vals_reduced(fq6_add_vals(xa.0, xa.1), fq6_add_vals(xa.0, xa.1));
                lemma_fq6_mul_const_reduced(fq6_add_vals(xa.0, xa.1), kk.1);
                assert(fq6_val(s7, inputs, w7b@) == fq6_mul_const_vals(fq6_val(s7, inputs, w1@), fq6_const_val(k1@)));
                assert(fq6_val(*c, inputs, w7b@) == fq6_mul_const_vals(fq6_add_vals(xa.0, xa.1), kk.1));
                assert(fq6_val(s8, inputs, w7a@) == fq6_mul_const_vals(fq6_add_vals(xa.0, xa.1), kk.0));
                assert(fq6_val(s8, inputs, w7b@) == fq6_mul_const_vals(fq6_add_vals(xa.0, xa.1), kk.1));
                lemma_fq6_vals_reduced(fq6_mul_const_vals(fq6_add_vals(xa.0, xa.1), kk.0), fq6_mul_const_vals(fq6_add_vals(xa.0, xa.1), kk.1));
                assert(fq_coeff(s8, inputs, w7@, 0) == fq_add_val(fq_coeff(s8, inputs, w7a@, 0), fq_coeff(s8, inputs, w7b@, 0)));
                assert(fq_coeff(s8, inputs, w7@, 1) == fq_add_val(fq_coeff(s8, inputs, w7a@, 1), fq_coeff(s8, inputs, w7b@, 1)));
                assert(fq_coeff(s8, inputs, w7@, 2) == fq_add_val(fq_coeff(s8, inputs, w7a@, 2), fq_coeff(s8, inputs, w7b@, 2)));
                assert(fq_coeff(s8, inputs, w7@, 3) == fq_add_val(fq_coeff(s8, inputs, w7a@, 3), fq_coeff(s8, inputs, w7b@, 3)));
                assert(fq_coeff(s8, inputs, w7@, 4) == fq_add_val(fq_coeff(s8, inputs, w7a@, 4), fq_coeff(s8, inputs, w7b@, 4)));
                assert(fq_coeff(s8, inputs, w7@, 5) == fq_add_val(fq_coeff(s8, inputs, w7a@, 5), fq_coeff(s8, inputs, w7b@, 5)));
                assert(fq6_val(*c, inputs, w7@) == fq6_add_vals(fq6_mul_const_vals(fq6_add_vals(xa.0, xa.1), kk.0), fq6_mul_const_vals(fq6_add_vals(xa.0, xa.1), kk.1)));
                assert(fq6_val(s9, inputs, w7@) == fq6_add_vals(fq6_mul_const_vals(fq6_add_vals(xa.0, xa.1), kk.0), fq6_mul_const_vals(fq6_add_vals(xa.0, xa.1), kk.1)));
                assert(fq6_val(s9, inputs, w4@) == fq6_add_vals(fq6_mul_const_vals(xa.0, kk.0), fq6_mul_const_vals(xa.1, kk.1)));
                lemma_fq6_vals_reduced(fq6_add_vals(fq6_mul_const_vals(fq6_add_vals(xa.0, xa.1), kk.0), fq6_mul_const_vals(fq6_add_vals(xa.0, xa.1), kk.1)), fq6_add_vals(fq6_mul_const_vals(xa.0, kk.0), fq6_mul_const_vals(xa.1, kk.1)));
                assert(fq_coeff(s9, inputs, w8@, 0) == fq_sub_val(fq_coeff(s9, inputs, w7@, 0), fq_coeff(s9, inputs, w4@, 0)));
                assert(fq_coeff(s9, inputs, w8@, 1) == fq_sub_val(fq_coeff(s9, inputs, w7@, 1), fq_coeff(s9, inputs, w4@, 1)));
                assert(fq_coeff(s9, inputs, w8@, 2) == fq_sub_val(fq_coeff(s9, inputs, w7@, 2), fq_coeff(s9, inputs, w4@, 2)));
                assert(fq_coeff(s9, inputs, w8@, 3) == fq_sub_val(fq_coeff(s9, inputs, w7@, 3), fq_coeff(s9, inputs, w4@, 3)));
                assert(fq_coeff(s9, inputs, w8@, 4) == fq_sub_val(fq_coeff(s9, inputs, w7@, 4), fq_coeff(s9, inputs, w4@, 4)));
                assert(fq_coeff(s9, inputs, w8@, 5) == fq_sub_val(fq_coeff(s9, inputs, w7@, 5), fq_coeff(s9, inputs, w4@, 5)));
                assert(fq6_val(*c, inputs, w8@) == fq6_sub_vals(fq6_add_vals(fq6_mul_const_vals(fq6_add_vals(xa.0, xa.1), kk.0), fq6_mul_const_vals(fq6_add_vals(xa.0, xa.1), kk.1)), fq6_add_vals(fq6_mul_const_vals(xa.0, kk.0), fq6_mul_const_vals(xa.1, kk.1))));
                lemma_fq12_assemble(*c, inputs, w6@, w8@, out@);
            }
        }
        out
    }

    /// Sparse product against the element with `Fq2` basis coordinates
    /// `(1, 0, 0, c3, c4, 0)`: two sparse `Fq6` products.
    #[verifier::rlimit(100)]
    pub fn mul_by_34(c: &mut Circuit, a: &Wires, c3: &Wires, c4: &Wires) -> (out: Wires)
        requires
            old(c).wf(),
            a@.len() == 3048,
            c3@.len() == 508,
            c4@.len() == 508,
            wires_in(a@, old(c).n_wires()),
            wires_in(c3@, old(c).n_wires()),
            wires_in(c4@, old(c).n_wires()),
            old(c).n_wires() + 43000000 <= usize::MAX,
        ensures
            final(c).wf(),
            final(c).extends(*old(c)),
            final(c).n_wires() <= old(c).n_wires() + 43000000,
            out@.len() == 3048,
            wires_in(out@, final(c).n_wires()),
            forall|inputs: Seq<bool>|
                (fq12_reduced(fq12_val(*final(c), inputs, a@)) && fq2_reduced(
                    fq2_val(*final(c), inputs, c3@),
                ) && fq2_reduced(fq2_val(*final(c), inputs, c4@))) ==> #[trigger] fq12_val(
                    *final(c),
                    inputs,
                    out@,
                ) == fq12_mul34_vals(
                    fq12_val(*final(c), inputs, a@),
                    fq2_val(*final(c), inputs, c3@),
                    fq2_val(*final(c), inputs, c4@),
                ),
    {
        let a0 = subwires(a, 0, 1524);
        let a1 = subwires(a, 1524, 1524);
        let w1 = Fq6::mul_by_01(c, &a1, c3, c4);
        let ghost s0 = *c;
        let w2 = Fq6::mul_by_nonresidue(c, &w1);
        let ghost s1 = *c;
        let r0 = Fq6::add(c, &w2, &a0);
        let ghost s2 = *c;
        let w3 = Fq6::add(c, &a0, &a1);
        let ghost s3 = *c;
        let mut one_bits: Vec<bool> = Vec::new();
        one_bits.push(true);
        let mut i: usize = 1;
        while i < 508
            invariant
                1 <= i <= 508,
                one_bits@.len() == i,
                one_bits@[0] == true,
                forall|j: int| 1 <= j < i ==> !(#[trigger] one_bits@[j]),
            decreases 508 - i,
        {
            one_bits.push(false);
            i += 1;
        }
        proof {
            assert forall|j: int|
                0 <= j < one_bits@.subrange(0, 254).skip(1).len() implies !(
            #[trigger] one_bits@.subrange(0, 254).skip(1)[j]) by {
                assert(one_bits@.subrange(0, 254).skip(1)[j] == one_bits@[j + 1]);
            }
            crate::bits::lemma_bits_value_zero(one_bits@.subrange(0, 254).skip(1));
            assert(one_bits@.subrange(0, 254)[0] == true);
            assert(crate::bits::bits_value(one_bits@.subrange(0, 254)) == 1);
            assert forall|j: int|
                0 <= j < one_bits@.subrange(254, 508).len() implies !(
            #[trigger] one_bits@.subrange(254, 508)[j]) by {
                assert(one_bits@.subrange(254, 508)[j] == one_bits@[j + 254]);
            }
            crate::bits::lemma_bits_value_zero(one_bits@.subrange(254, 508));
            assert(fq2_const_val(one_bits@) == (1nat, 0nat));
        }
        let w4 = Fq2::add_constant(c, c3, &one_bits);
        let ghost s4 = *c;
        let w5 = Fq6::mul_by_01(c, &w3, &w4, c4);
        let ghost s5 = *c;
        let w6 = Fq6::add(c, &w1, &a0);
        let ghost s6 = *c;
        let r1 = Fq6::sub(c, &w5, &w6);
        let out = concat_wires(&r0, &r1);
        proof {
            crate::fq::lemma_fq_modulus_bounds();
            crate::circuit::lemma_extends_refl(*c);
            assert forall|inputs: Seq<bool>|
                (fq12_reduced(fq12_val(*c, inputs, a@)) && fq2_reduced(
                    fq2_val(*c, inputs, c3@),
                ) && fq2_reduced(fq2_val(*c, inputs, c4@))) implies #[trigger] fq12_val(
                *c,
                inputs,
                out@,
            ) == fq12_mul34_vals(
                fq12_val(*c, inputs, a@),
                fq2_val(*c, inputs, c3@),
                fq2_val(*c, inputs, c4@),
            ) by {
                lemma_wire_vals_extends(s0, *c, inputs, w1@);
                lemma_wire_vals_extends(s0, *c, inputs, a1@);
                lemma_wire_vals_extends(s0, *c, inputs, c3@);
                lemma_wire_vals_extends(s0, *c, inputs, c4@);
                lemma_wire_vals_extends(s1, *c, inputs, w2@);
                lemma_wire_vals_extends(s1, *c, inputs, w1@);
                lemma_wire_vals_extends(s2, *c, inputs, r0@);
                lemma_wire_vals_extends(s2, *c, inputs, w2@);
                lemma_wire_vals_extends(s2, *c, inputs, a0@);
                lemma_wire_vals_extends(s3, *c, inputs, w3@);
                lemma_wire_vals_extends(s3, *c, inputs, a0@);
                lemma_wire_vals_extends(s3, *c, inputs, a1@);
                lemma_wire_vals_extends(s4, *c, inputs, w4@);
                lemma_wire_vals_extends(s4, *c, inputs, c3@);
                lemma_wire_vals_extends(s5, *c, inputs, w5@);
                lemma_wire_vals_extends(s5, *c, inputs, w3@);
                lemma_wire_vals_extends(s5, *c, inputs, w4@);
                lemma_wire_vals_extends(s5, *c, inputs, c4@);
                lemma_wire_vals_extends(s6, *c, inputs, w6@);
                lemma_wire_vals_extends(s6, *c, inputs, w1@);
                lemma_wire_vals_extends(s6, *c, inputs, a0@);
                lemma_fq12_split(*c, inputs, a@, a0@, a1@);
                let xa = fq12_val(*c, inputs, a@);
                let y3v = fq2_val(*c, inputs, c3@);
                let y4v = fq2_val(*c, inputs, c4@);
                let m1 = fq6_mul01_vals(xa.1, y3v, y4v);
                assert(fq6_val(s0, inputs, a1@) == xa.1);
                assert(fq2_val(s0, inputs, c3@) == y3v);
                assert(fq2_val(s0, inputs, c4@) == y4v);
                assert(fq6_val(s0, inputs, w1@) == fq6_mul01_vals(
                    fq6_val(s0, inputs, a1@),
                    fq2_val(s0, inputs, c3@),
                    fq2_val(s0, inputs, c4@),
                ));
                assert(fq6_val(*c, inputs, w1@) == m1);
                lemma_fq6_mul01_reduced(xa.1, y3v, y4v);
                assert(fq6_val(s1, inputs, w1@) == m1);
                assert(fq6_val(s1, inputs, w2@) == fq6_nonres_vals(fq6_val(s1, inputs, w1@)));
                assert(fq6_val(*c, inputs, w2@) == fq6_nonres_vals(m1));
                lemma_fq6_vals_reduced(m1, m1);
                assert(fq6_val(s2, inputs, w2@) == fq6_nonres_vals(m1));
                assert(fq6_val(s2, inputs, a0@) == xa.0);
                assert(fq_coeff(s2, inputs, r0@, 0) == fq_add_val(fq_coeff(s2, inputs, w2@, 0), fq_coeff(s2, inputs, a0@, 0)));
                assert(fq_coeff(s2, inputs, r0@, 1) == fq_add_val(fq_coeff(s2, inputs, w2@, 1), fq_coeff(s2, inputs, a0@, 1)));
                assert(fq_coeff(s2, inputs, r0@, 2) == fq_add_val(fq_coeff(s2, inputs, w2@, 2), fq_coeff(s2, inputs, a0@, 2)));
                assert(fq_coeff(s2, inputs, r0@, 3) == fq_add_val(fq_coeff(s2, inputs, w2@, 3), fq_coeff(s2, inputs, a0@, 3)));
                assert(fq_coeff(s2, inputs, r0@, 4) == fq_add_val(fq_coeff(s2, inputs, w2@, 4), fq_coeff(s2, inputs, a0@, 4)));
                assert(fq_coeff(s2, inputs, r0@, 5) == fq_add_val(fq_coeff(s2, inputs, w2@, 5), fq_coeff(s2, inputs, a0@, 5)));
                assert(fq6_val(*c, inputs, r0@) == fq6_add_vals(fq6_nonres_vals(m1), xa.0));
                assert(fq6_val(s3, inputs, a0@) == xa.0);
                assert(fq6_val(s3, inputs, a1@) == xa.1);
                assert(fq_coeff(s3, inputs, w3@, 0) == fq_add_val(fq_coeff(s3, inputs, a0@, 0), fq_coeff(s3, inputs, a1@, 0)));
                assert(fq_coeff(s3, inputs, w3@, 1) == fq_add_val(fq_coeff(s3, inputs, a0@, 1), fq_coeff(s3, inputs, a1@, 1)));
                assert(fq_coeff(s3, inputs, w3@, 2) == fq_add_val(fq_coeff(s3, inputs, a0@, 2), fq_coeff(s3, inputs, a1@, 2)));
                assert(fq_coeff(s3, inputs, w3@, 3) == fq_add_val(fq_coeff(s3, inputs, a0@, 3), fq_coeff(s3, inputs, a1@, 3)));
                assert(fq_coeff(s3, inputs, w3@, 4) == fq_add_val(fq_coeff(s3, inputs, a0@, 4), fq_coeff(s3, inputs, a1@, 4)));
                assert(fq_coeff(s3, inputs, w3@, 5) == fq_add_val(fq_coeff(s3, inputs, a0@, 5), fq_coeff(s3, inputs, a1@, 5)));
                assert(fq6_val(*c, inputs, w3@) == fq6_add_vals(xa.0, xa.1));
                assert(fq2_val(s4, inputs, c3@) == y3v);
                assert(fq2_val(s4, inputs, w4@) == fq2_add_vals(y3v, fq2_const_val(one_bits@)));
                assert(fq2_val(*c, inputs, w4@) == fq2_add_vals(y3v, (1nat, 0nat)));
                lemma_fq6_vals_reduced(xa.0, xa.1);
                lemma_fq2_vals_reduced(y3v, (1nat, 0nat));
                assert(fq6_val(s5, inputs, w3@) == fq6_add_vals(xa.0, xa.1));
                assert(fq2_val(s5, inputs, w4@) == fq2_add_vals(y3v, (1nat, 0nat)));
                assert(fq2_val(s5, inputs, c4@) == y4v);
                assert(fq6_val(s5, inputs, w5@) == fq6_mul01_vals(
                    fq6_val(s5, inputs, w3@),
                    fq2_val(s5, inputs, w4@),
                    fq2_val(s5, inputs, c4@),
                ));
                let m5 = fq6_mul01_vals(fq6_add_vals(xa.0, xa.1), fq2_add_vals(y3v, (1nat, 0nat)), y4v);
                assert(fq6_val(*c, inputs, w5@) == m5);
                assert(fq6_val(s6, inputs, w1@) == m1);
                assert(fq6_val(s6, inputs, a0@) == xa.0);
                assert(fq_coeff(s6, inputs, w6@, 0) == fq_add_val(fq_coeff(s6, inputs, w1@, 0), fq_coeff(s6, inputs, a0@, 0)));
                assert(fq_coeff(s6, inputs, w6@, 1) == fq_add_val(fq_coeff(s6, inputs, w1@, 1), fq_coeff(s6, inputs, a0@, 1)));
                assert(fq_coeff(s6, inputs, w6@, 2) == fq_add_val(fq_coeff(s6, inputs, w1@, 2), fq_coeff(s6, inputs, a0@, 2)));
                assert(fq_coeff(s6, inputs, w6@, 3) == fq_add_val(fq_coeff(s6, inputs, w1@, 3), fq_coeff(s6, inputs, a0@, 3)));
                assert(fq_coeff(s6, inputs, w6@, 4) == fq_add_val(fq_coeff(s6, inputs, w1@, 4), fq_coeff(s6, inputs, a0@, 4)));
                assert(fq_coeff(s6, inputs, w6@, 5) == fq_add_val(fq_coeff(s6, inputs, w1@, 5), fq_coeff(s6, inputs, a0@, 5)));
                let m6 = fq6_add_vals(m1, xa.0);
                assert(fq6_val(*c, inputs, w6@) == m6);
                lemma_fq6_mul01_reduced(fq6_add_vals(xa.0, xa.1), fq2_add_vals(y3v, (1nat, 0nat)), y4v);
                lemma_fq6_vals_reduced(m1, xa.0);
                assert(fq_coeff(*c, inputs, r1@, 0) == fq_sub_val(fq_coeff(*c, inputs, w5@, 0), fq_coeff(*c, inputs, w6@, 0)));
                assert(fq_coeff(*c, inputs, r1@, 1) == fq_sub_val(fq_coeff(*c, inputs, w5@, 1), fq_coeff(*c, inputs, w6@, 1)));
                assert(fq_coeff(*c, inputs, r1@, 2) == fq_sub_val(fq_coeff(*c, inputs, w5@, 2), fq_coeff(*c, inputs, w6@, 2)));
                assert(fq_coeff(*c, inputs, r1@, 3) == fq_sub_val(fq_coeff(*c, inputs, w5@, 3), fq_coeff(*c, inputs, w6@, 3)));
                assert(fq_coeff(*c, inputs, r1@, 4) == fq_sub_val(fq_coeff(*c, inputs, w5@, 4), fq_coeff(*c, inputs, w6@, 4)));
                assert(fq_coeff(*c, inputs, r1@, 5) == fq_sub_val(fq_coeff(*c, inputs, w5@, 5), fq_coeff(*c, inputs, w6@, 5)));
                assert(fq6_val(*c, inputs, r1@) == fq6_sub_vals(m5, m6));
                lemma_fq12_assemble(*c, inputs, r0@, r1@, out@);
            }
        }
        out
    }

    /// Karatsuba squaring: the cross term is kept as a full `t1 * t1`
    /// product, mirroring the shape of `mul`; the result values equal the
    /// self-product's.
    #[verifier::rlimit(100)]
    pub fn square(c: &mut Circuit, a: &Wires) -> (out: Wires)
        requires
            old(c).wf(),
            a@.len() == 3048,
            wires_in(a@, old(c).n_wires()),
            old(c).n_wires() + 76000000 <= usize::MAX,
        ensures
            final(c).wf(),
            final(c).extends(*old(c)),
            final(c).n_wires() <= old(c).n_wires() + 76000000,
            out@.len() == 3048,
            wires_in(out@, final(c).n_wires()),
            forall|inputs: Seq<bool>|
                fq12_reduced(fq12_val(*final(c), inputs, a@)) ==> #[trigger] fq12_val(
                    *final(c),
                    inputs,
                    out@,
                ) == fq12_mul_vals(fq12_val(*final(c), inputs, a@), fq12_val(*final(c), inputs, a@)),
    {
        let a0 = subwires(a, 0, 1524);
        let a1 = subwires(a, 1524, 1524);
        let w1 = Fq6::add(c, &a0, &a1);
        let ghost s0 = *c;
        let w2 = Fq6::square(c, &a0);
        let ghost s1 = *c;
        let w3 = Fq6::square(c, &a1);
        let ghost s2 = *c;
        let w4 = Fq6::add(c, &w2, &w3);
        let ghost s3 = *c;
        let w5 = Fq6::mul_by_nonresidue(c, &w3);
        let ghost s4 = *c;
        let w6 = Fq6::add(c, &w5, &w2);
        let ghost s5 = *c;
        let w7 = Fq6::mul(c, &w1, &w1);
        let ghost s6 = *c;
        let w8 = Fq6::sub(c, &w7, &w4);
        let ghost s7 = *c;
        let out = concat_wires(&w6, &w8);
        proof {
            crate::circuit::lemma_extends_refl(*c);
            assert forall|inputs: Seq<bool>|
                fq12_reduced(fq12_val(*c, inputs, a@)) implies #[trigger] fq12_val(
                *c,
                inputs,
                out@,
            ) == fq12_mul_vals(fq12_val(*c, inputs, a@), fq12_val(*c, inputs, a@)) by {
                lemma_wire_vals_extends(s0, *c, inputs, w1@);
                lemma_wire_vals_extends(s0, *c, inputs, a1@);
                lemma_wire_vals_extends(s0, *c, inputs, a0@);
                lemma_wire_vals_extends(s1, *c, inputs, w2@);
                lemma_wire_vals_extends(s1, *c, inputs, a0@);
                lemma_wire_vals_extends(s2, *c, inputs, w3@);
                lemma_wire_vals_extends(s2, *c, inputs, a1@);
                lemma_wire_vals_extends(s3, *c, inputs, w4@);
                lemma_wire_vals_extends(s3, *c, inputs, w2@);
                lemma_wire_vals_extends(s3, *c, inputs, w3@);
                lemma_wire_vals_extends(s4, *c, inputs, w5@);
                lemma_wire_vals_extends(s4, *c, inputs, w3@);
                lemma_wire_vals_extends(s5, *c, inputs, w6@);
                lemma_wire_vals_extends(s5, *c, inputs, w2@);
                lemma_wire_vals_extends(s5, *c, inputs, w5@);
                lemma_wire_vals_extends(s6, *c, inputs, w7@);
                lemma_wire_vals_extends(s6, *c, inputs, w1@);
                lemma_wire_vals_extends(s7, *c, inputs, w8@);
                lemma_wire_vals_extends(s7, *c, inputs, w4@);
                lemma_wire_vals_extends(s7, *c, inputs, w7@);
                lemma_fq12_split(*c, inputs, a@, a0@, a1@);
                let xa = fq12_val(*c, inputs, a@);
                assert(fq6_val(s0, inputs, a0@) == xa.0);
                assert(fq6_val(s0, inputs, a1@) == xa.1);
                lemma_fq6_vals_reduced(xa.0, xa.1);
                assert(fq_coeff(s0, inputs, w1@, 0) == fq_add_val(fq_coeff(s0, inputs, a0@, 0), fq_coeff(s0, inputs, a1@, 0)));
                assert(fq_coeff(s0, inputs, w1@, 1) == fq_add_val(fq_coeff(s0, inputs, a0@, 1), fq_coeff(s0, inputs, a1@, 1)));
                assert(fq_coeff(s0, inputs, w1@, 2) == fq_add_val(fq_coeff(s0, inputs, a0@, 2), fq_coeff(s0, inputs, a1@, 2)));
                assert(fq_coeff(s0, inputs, w1@, 3) == fq_add_val(fq_coeff(s0, inputs, a0@, 3), fq_coeff(s0, inputs, a1@, 3)));
                assert(fq_coeff(s0, inputs, w1@, 4) == fq_add_val(fq_coeff(s0, inputs, a0@, 4), fq_coeff(s0, inputs, a1@, 4)));
                assert(fq_coeff(s0, inputs, w1@, 5) == fq_add_val(fq_coeff(s0, inputs, a0@, 5), fq_coeff(s0, inputs, a1@, 5)));
                assert(fq6_val(*c, inputs, w1@) == fq6_add_vals(xa.0, xa.1));
                assert(fq6_val(s1, inputs, a0@) == xa.0);
                lemma_fq6_vals_reduced(xa.0, xa.0);
                assert(fq6_val(s1, inputs, w2@) == fq6_mul_vals(fq6_val(s1, inputs, a0@), fq6_val(s1, inputs, a0@)));
                assert(fq6_val(*c, inputs, w2@) == fq6_mul_vals(xa.0, xa.0));
                assert(fq6_val(s2, inputs, a1@) == xa.1);
                lemma_fq6_vals_reduced(xa.1, xa.1);
                assert(fq6_val(s2, inputs, w3@) == fq6_mul_vals(fq6_val(s2, inputs, a1@), fq6_val(s2, inputs, a1@)));
                assert(fq6_val(*c, inputs, w3@) == fq6_mul_vals(xa.1, xa.1));
                assert(fq6_val(s3, inputs, w2@) == fq6_mul_vals(xa.0, xa.0));
                assert(fq6_val(s3, inputs, w3@) == fq6_mul_vals(xa.1, xa.1));
                lemma_fq6_vals_reduced(fq6_mul_vals(xa.0, xa.0), fq6_mul_vals(xa.1, xa.1));
                assert(fq_coeff(s3, inputs, w4@, 0) == fq_add_val(fq_coeff(s3, inputs, w2@, 0), fq_coeff(s3, inputs, w3@, 0)));
                assert(fq_coeff(s3, inputs, w4@, 1) == fq_add_val(fq_coeff(s3, inputs, w2@, 1), fq_coeff(s3, inputs, w3@, 1)));
                assert(fq_coeff(s3, inputs, w4@, 2) == fq_add_val(fq_coeff(s3, inputs, w2@, 2), fq_coeff(s3, inputs, w3@, 2)));
                assert(fq_coeff(s3, inputs, w4@, 3) == fq_add_val(fq_coeff(s3, inputs, w2@, 3), fq_coeff(s3, inputs, w3@, 3)));
                assert(fq_coeff(s3, inputs, w4@, 4) == fq_add_val(fq_coeff(s3, inputs, w2@, 4), fq_coeff(s3, inputs, w3@, 4)));
                assert(fq_coeff(s3, inputs, w4@, 5) == fq_add_val(fq_coeff(s3, inputs, w2@, 5), fq_coeff(s3, inputs, w3@, 5)));
                assert(fq6_val(*c, inputs, w4@) == fq6_add_vals(fq6_mul_vals(xa.0, xa.0), fq6_mul_vals(xa.1, xa.1)));
                assert(fq6_val(s4, inputs, w3@) == fq6_mul_vals(xa.1, xa.1));
                lemma_fq6_vals_reduced(fq6_mul_vals(xa.1, xa.1), fq6_mul_vals(xa.1, xa.1));
                assert(fq6_val(s4, inputs, w5@) == fq6_nonres_vals(fq6_val(s4, inputs, w3@)));
                assert(fq6_val(*c, inputs, w5@) == fq6_nonres_vals(fq6_mul_vals(xa.1, xa.1)));
                assert(fq6_val(s5, inputs, w5@) == fq6_nonres_vals(fq6_mul_vals(xa.1, xa.1)));
                assert(fq6_val(s5, inputs, w2@) == fq6_mul_vals(xa.0, xa.0));
                lemma_fq6_vals_reduced(fq6_nonres_vals(fq6_mul_vals(xa.1, xa.1)), fq6_mul_vals(xa.0, xa.0));
                assert(fq_coeff(s5, inputs, w6@, 0) == fq_add_val(fq_coeff(s5, inputs, w5@, 0), fq_coeff(s5, inputs, w2@, 0)));
                assert(fq_coeff(s5, inputs, w6@, 1) == fq_add_val(fq_coeff(s5, inputs, w5@, 1), fq_coeff(s5, inputs, w2@, 1)));
                assert(fq_coeff(s5, inputs, w6@, 2) == fq_add_val(fq_coeff(s5, inputs, w5@, 2), fq_coeff(s5, inputs, w2@, 2)));
                assert(fq_coeff(s5, inputs, w6@, 3) == fq_add_val(fq_coeff(s5, inputs, w5@, 3), fq_coeff(s5, inputs, w2@, 3)));
                assert(fq_coeff(s5, inputs, w6@, 4) == fq_add_val(fq_coeff(s5, inputs, w5@, 4), fq_coeff(s5, inputs, w2@, 4)));
                assert(fq_coeff(s5, inputs, w6@, 5) == fq_add_val(fq_coeff(s5, inputs, w5@, 5), fq_coeff(s5, inputs, w2@, 5)));
                assert(fq6_val(*c, inputs, w6@) == fq6_add_vals(fq6_nonres_vals(fq6_mul_vals(xa.1, xa.1)), fq6_mul_vals(xa.0, xa.0)));
                assert(fq6_val(s6, inputs, w1@) == fq6_add_vals(xa.0, xa.1));
                lemma_fq6_vals_reduced(fq6_add_vals(xa.0, xa.1), fq6_add_vals(xa.0, xa.1));
                assert(fq6_val(s6, inputs, w7@) == fq6_mul_vals(fq6_val(s6, inputs, w1@), fq6_val(s6, inputs, w1@)));
                assert(fq6_val(*c, inputs, w7@) == fq6_mul_vals(fq6_add_vals(xa.0, xa.1), fq6_add_vals(xa.0, xa.1)));
                assert(fq6_val(s7, inputs, w7@) == fq6_mul_vals(fq6_add_vals(xa.0, xa.1), fq6_add_vals(xa.0, xa.1)));
                assert(fq6_val(s7, inputs, w4@) == fq6_add_vals(fq6_mul_vals(xa.0, xa.0), fq6_mul_vals(xa.1, xa.1)));
                lemma_fq6_vals_reduced(fq6_mul_vals(fq6_add_vals(xa.0, xa.1), fq6_add_vals(xa.0, xa.1)), fq6_add_vals(fq6_mul_vals(xa.0, xa.0), fq6_mul_vals(xa.1, xa.1)));
                assert(fq_coeff(s7, inputs, w8@, 0) == fq_sub_val(fq_coeff(s7, inputs, w7@, 0), fq_coeff(s7, inputs, w4@, 0)));
                assert(fq_coeff(s7, inputs, w8@, 1) == fq_sub_val(fq_coeff(s7, inputs, w7@, 1), fq_coeff(s7, inputs, w4@, 1)));
                assert(fq_coeff(s7, inputs, w8@, 2) == fq_sub_val(fq_coeff(s7, inputs, w7@, 2), fq_coeff(s7, inputs, w4@, 2)));
                assert(fq_coeff(s7, inputs, w8@, 3) == fq_sub_val(fq_coeff(s7, inputs, w7@, 3), fq_coeff(s7, inputs, w4@, 3)));
                assert(fq_coeff(s7, inputs, w8@, 4) == fq_sub_val(fq_coeff(s7, inputs, w7@, 4), fq_coeff(s7, inputs, w4@, 4)));
                assert(fq_coeff(s7, inputs, w8@, 5) == fq_sub_val(fq_coeff(s7, inputs, w7@, 5), fq_coeff(s7, inputs, w4@, 5)));
                assert(fq6_val(*c, inputs, w8@) == fq6_sub_vals(fq6_mul_vals(fq6_add_vals(xa.0, xa.1), fq6_add_vals(xa.0, xa.1)), fq6_add_vals(fq6_mul_vals(xa.0, xa.0), fq6_mul_vals(xa.1, xa.1))));
                lemma_fq12_assemble(*c, inputs, w6@, w8@, out@);
            }
        }
        out
    }

    /// The `i`-th power of the Frobenius map: componentwise `Fq6` Frobenius,
    /// then the `c1` half is multiplied by the coefficient `gamma_i` sourced
    /// from the BN254 library, indexed modulo the table length.
    pub fn frobenius(c: &mut Circuit, a: &Wires, i: usize) -> (out: Wires)
        requires
            old(c).wf(),
            a@.len() == 3048,
            wires_in(a@, old(c).n_wires()),
            old(c).n_wires() + 39000000 <= usize::MAX,
        ensures
            final(c).wf(),
            final(c).extends(*old(c)),
            final(c).n_wires() <= old(c).n_wires() + 39000000,
            out@.len() == 3048,
            wires_in(out@, final(c).n_wires()),
            forall|inputs: Seq<bool>|
                fq12_reduced(fq12_val(*final(c), inputs, a@)) ==> #[trigger] fq12_val(
                    *final(c),
                    inputs,
                    out@,
                ) == fq12_frob_vals(fq12_val(*final(c), inputs, a@), i as int),
    {
        let a0 = subwires(a, 0, 1524);
        let a1 = subwires(a, 1524, 1524);
        let f0 = Fq6::frobenius(c, &a0, i);
        let ghost c1 = *c;
        let f1 = Fq6::frobenius(c, &a1, i);
        let ghost c2 = *c;
        let g = fq12_frob_c1_bits(i);
        let r1 = Fq6::mul_by_constant_fq2(c, &f1, &g);
        let out = concat_wires(&f0, &r1);
        proof {
            assert forall|inputs: Seq<bool>|
                fq12_reduced(fq12_val(*c, inputs, a@)) implies #[trigger] fq12_val(
                *c,
                inputs,
                out@,
            ) == fq12_frob_vals(fq12_val(*c, inputs, a@), i as int) by {
                lemma_wire_vals_extends(c1, *c, inputs, f0@);
                lemma_wire_vals_extends(c1, *c, inputs, a0@);
                lemma_wire_vals_extends(c2, *c, inputs, f1@);
                lemma_wire_vals_extends(c2, *c, inputs, a1@);
                lemma_fq12_split(*c, inputs, a@, a0@, a1@);
                let xa = fq12_val(*c, inputs, a@);
                assert(fq6_val(c1, inputs, a0@) == xa.0);
                assert(fq6_val(c1, inputs, f0@) == fq6_frob_vals(xa.0, i as int));
                assert(fq6_val(*c, inputs, f0@) == fq6_frob_vals(xa.0, i as int));
                assert(fq6_val(c2, inputs, a1@) == xa.1);
                assert(fq6_val(c2, inputs, f1@) == fq6_frob_vals(xa.1, i as int));
                lemma_fq6_frob_reduced(xa.1, i as int);
                assert(fq6_val(*c, inputs, f1@) == fq6_frob_vals(xa.1, i as int));
                assert(fq6_val(*c, inputs, r1@) == fq6_mul_const_fq2_vals(
                    fq6_frob_vals(xa.1, i as int),
                    fq2_const_val(g@),
                ));
                assert(fq2_const_val(g@) == fq12_frob_c1_val((i as int) % 12));
                lemma_fq12_assemble(*c, inputs, f0@, r1@, out@);
            }
        }
        out
    }
}

} // verus!
