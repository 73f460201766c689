//! Cubic-extension circuits: `Fq6 = Fq2[v]/(v^3 - xi)` with `xi = 9 + u`, an
//! element laid out as 1524 wires, `c0 ‖ c1 ‖ c2` with 508 bits each.

use vstd::prelude::*;

verus! {

use crate::circuit::{Circuit, Wires, wires_in, subwires, concat_wires,
    lemma_wire_vals_extends};
use crate::fq::{fq_modulus, fq_coeff, fq_add_val, fq_sub_val, lemma_fq_coeff_concat_left,
    lemma_fq_coeff_concat_right, lemma_fq_coeff_slice};
use crate::fq2::{Fq2, fq2_val, fq2_const_val, fq2_reduced, fq2_add_vals, fq2_sub_vals,
    fq2_mul_vals, fq2_nonres_vals, fq2_mul_const_vals, fq2_frob_vals, lemma_fq2_vals_reduced,
    lemma_fq2_frob_reduced};
use crate::arkconst::{fq6_frob_c1_bits, fq6_frob_c2_bits, fq6_frob_c1_val, fq6_frob_c2_val,
    lemma_frob_coeff_vals_reduced};
use crate::bits::bits_value;

broadcast use crate::circuit::lemma_extends_chain, crate::circuit::lemma_wires_in_mono,
    crate::circuit::lemma_wires_in_subrange, crate::circuit::lemma_wires_in_concat;

/// The triple of `Fq2` coefficient pairs an `Fq6` element's wires denote.
pub open spec fn fq6_val(c: Circuit, inputs: Seq<bool>, ws: Seq<usize>) -> (
    (nat, nat),
    (nat, nat),
    (nat, nat),
) {
    (
        (fq_coeff(c, inputs, ws, 0), fq_coeff(c, inputs, ws, 1)),
        (fq_coeff(c, inputs, ws, 2), fq_coeff(c, inputs, ws, 3)),
        (fq_coeff(c, inputs, ws, 4), fq_coeff(c, inputs, ws, 5)),
    )
}

/// Whether all six coefficients are below the modulus.
pub open spec fn fq6_reduced(x: ((nat, nat), (nat, nat), (nat, nat))) -> bool {
    fq2_reduced(x.0) && fq2_reduced(x.1) && fq2_reduced(x.2)
}

/// The Karatsuba product over the cubic extension, in the shape the builder
/// emits: `c0 = v0 + xi ((x1+x2)(y1+y2) - v1 - v2)`,
/// `c1 = (x0+x1)(y0+y1) - v0 - v1 + xi v2`,
/// `c2 = (x0+x2)(y0+y2) - v0 - v2 + v1`.
pub open spec fn fq6_mul_vals(
    x: ((nat, nat), (nat, nat), (nat, nat)),
    y: ((nat, nat), (nat, nat), (nat, nat)),
) -> ((nat, nat), (nat, nat), (nat, nat)) {
    let v0 = fq2_mul_vals(x.0, y.0);
    let v1 = fq2_mul_vals(x.1, y.1);
    let v2 = fq2_mul_vals(x.2, y.2);
    (
        fq2_add_vals(
            fq2_nonres_vals(
                fq2_sub_vals(
                    fq2_sub_vals(
                        fq2_mul_vals(fq2_add_vals(x.1, x.2), fq2_add_vals(y.1, y.2)),
                        v1,
                    ),
                    v2,
                ),
            ),
            v0,
        ),
        fq2_add_vals(
            fq2_sub_vals(
                fq2_sub_vals(
                    fq2_mul_vals(fq2_add_vals(x.0, x.1), fq2_add_vals(y.0, y.1)),
                    v0,
                ),
                v1,
            ),
            fq2_nonres_vals(v2),
        ),
        fq2_add_vals(
            fq2_sub_vals(
                fq2_sub_vals(
                    fq2_mul_vals(fq2_add_vals(x.0, x.2), fq2_add_vals(y.0, y.2)),
                    v0,
                ),
                v2,
            ),
            v1,
        ),
    )
}

/// Componentwise sum in the cubic extension.
pub open spec fn fq6_add_vals(
    x: ((nat, nat), (nat, nat), (nat, nat)),
    y: ((nat, nat), (nat, nat), (nat, nat)),
) -> ((nat, nat), (nat, nat), (nat, nat)) {
    (fq2_add_vals(x.0, y.0), fq2_add_vals(x.1, y.1), fq2_add_vals(x.2, y.2))
}

/// Componentwise difference in the cubic extension.
pub open spec fn fq6_sub_vals(
    x: ((nat, nat), (nat, nat), (nat, nat)),
    y: ((nat, nat), (nat, nat), (nat, nat)),
) -> ((nat, nat), (nat, nat), (nat, nat)) {
    (fq2_sub_vals(x.0, y.0), fq2_sub_vals(x.1, y.1), fq2_sub_vals(x.2, y.2))
}

/// The componentwise and Karatsuba operations land on reduced triples.
pub proof fn lemma_fq6_vals_reduced(
    x: ((nat, nat), (nat, nat), (nat, nat)),
    y: ((nat, nat), (nat, nat), (nat, nat)),
)
    ensures
        fq6_reduced(fq6_add_vals(x, y)),
        fq6_reduced(fq6_sub_vals(x, y)),
        fq6_reduced(fq6_mul_vals(x, y)),
        fq6_reduced(x) ==> fq6_reduced(fq6_nonres_vals(x)),
{
    lemma_fq2_vals_reduced(x.0, y.0);
    lemma_fq2_vals_reduced(x.1, y.1);
    lemma_fq2_vals_reduced(x.2, y.2);
    let v0 = fq2_mul_vals(x.0, y.0);
    let v1 = fq2_mul_vals(x.1, y.1);
    let v2 = fq2_mul_vals(x.2, y.2);
    lemma_fq2_vals_reduced(fq2_add_vals(x.1, x.2), fq2_add_vals(y.1, y.2));
    lemma_fq2_vals_reduced(
        fq2_mul_vals(fq2_add_vals(x.1, x.2), fq2_add_vals(y.1, y.2)),
        v1,
    );
    lemma_fq2_vals_reduced(
        fq2_sub_vals(fq2_mul_vals(fq2_add_vals(x.1, x.2), fq2_add_vals(y.1, y.2)), v1),
        v2,
    );
    lemma_fq2_vals_reduced(
        fq2_sub_vals(
            fq2_sub_vals(fq2_mul_vals(fq2_add_vals(x.1, x.2), fq2_add_vals(y.1, y.2)), v1),
            v2,
        ),
        v0,
    );
    lemma_fq2_vals_reduced(
        fq2_nonres_vals(
            fq2_sub_vals(
                fq2_sub_vals(fq2_mul_vals(fq2_add_vals(x.1, x.2), fq2_add_vals(y.1, y.2)), v1),
                v2,
            ),
        ),
        v0,
    );
    lemma_fq2_vals_reduced(fq2_add_vals(x.0, x.1), fq2_add_vals(y.0, y.1));
    lemma_fq2_vals_reduced(
        fq2_mul_vals(fq2_add_vals(x.0, x.1), fq2_add_vals(y.0, y.1)),
        v0,
    );
    lemma_fq2_vals_reduced(
        fq2_sub_vals(fq2_mul_vals(fq2_add_vals(x.0, x.1), fq2_add_vals(y.0, y.1)), v0),
        v1,
    );
    lemma_fq2_vals_reduced(v2, v2);
    lemma_fq2_vals_reduced(
        fq2_sub_vals(
            fq2_sub_vals(fq2_mul_vals(fq2_add_vals(x.0, x.1), fq2_add_vals(y.0, y.1)), v0),
            v1,
        ),
        fq2_nonres_vals(v2),
    );
    lemma_fq2_vals_reduced(fq2_add_vals(x.0, x.2), fq2_add_vals(y.0, y.2));
    lemma_fq2_vals_reduced(
        fq2_mul_vals(fq2_add_vals(x.0, x.2), fq2_add_vals(y.0, y.2)),
        v0,
    );
    lemma_fq2_vals_reduced(
        fq2_sub_vals(fq2_mul_vals(fq2_add_vals(x.0, x.2), fq2_add_vals(y.0, y.2)), v0),
        v2,
    );
    lemma_fq2_vals_reduced(
        fq2_sub_vals(
            fq2_sub_vals(fq2_mul_vals(fq2_add_vals(x.0, x.2), fq2_add_vals(y.0, y.2)), v0),
            v2,
        ),
        v1,
    );
}

/// The triple of coefficient pairs a 1524-bit constant denotes.
pub open spec fn fq6_const_val(k: Seq<bool>) -> ((nat, nat), (nat, nat), (nat, nat)) {
    (
        (bits_value(k.subrange(0, 254)), bits_value(k.subrange(254, 508))),
        (bits_value(k.subrange(508, 762)), bits_value(k.subrange(762, 1016))),
        (bits_value(k.subrange(1016, 1270)), bits_value(k.subrange(1270, 1524))),
    )
}

/// The schoolbook constant product over the cubic extension, in the shape
/// the builder emits: `c0 = x0 k0 + xi (x1 k2 + x2 k1)`,
/// `c1 = x0 k1 + xi (x2 k2) + x1 k0`, `c2 = x0 k2 + x1 k1 + x2 k0`.
pub open spec fn fq6_mul_const_vals(
    x: ((nat, nat), (nat, nat), (nat, nat)),
    k: ((nat, nat), (nat, nat), (nat, nat)),
) -> ((nat, nat), (nat, nat), (nat, nat)) {
    (
        fq2_add_vals(
            fq2_mul_const_vals(x.0, k.0),
            fq2_nonres_vals(
                fq2_add_vals(fq2_mul_const_vals(x.1, k.2), fq2_mul_const_vals(x.2, k.1)),
            ),
        ),
        fq2_add_vals(
            fq2_add_vals(
                fq2_mul_const_vals(x.0, k.1),
                fq2_nonres_vals(fq2_mul_const_vals(x.2, k.2)),
            ),
            fq2_mul_const_vals(x.1, k.0),
        ),
        fq2_add_vals(
            fq2_add_vals(fq2_mul_const_vals(x.0, k.2), fq2_mul_const_vals(x.1, k.1)),
            fq2_mul_const_vals(x.2, k.0),
        ),
    )
}

/// The constant product lands on a reduced triple.
pub proof fn lemma_fq6_mul_const_reduced(
    x: ((nat, nat), (nat, nat), (nat, nat)),
    k: ((nat, nat), (nat, nat), (nat, nat)),
)
    ensures
        fq6_reduced(fq6_mul_const_vals(x, k)),
{
    lemma_fq2_vals_reduced(fq2_mul_const_vals(x.1, k.2), fq2_mul_const_vals(x.2, k.1));
    lemma_fq2_vals_reduced(
        fq2_mul_const_vals(x.0, k.0),
        fq2_nonres_vals(
            fq2_add_vals(fq2_mul_const_vals(x.1, k.2), fq2_mul_const_vals(x.2, k.1)),
        ),
    );
    lemma_fq2_vals_reduced(fq2_mul_const_vals(x.2, k.2), fq2_mul_const_vals(x.2, k.2));
    lemma_fq2_vals_reduced(
        fq2_mul_const_vals(x.0, k.1),
        fq2_nonres_vals(fq2_mul_const_vals(x.2, k.2)),
    );
    lemma_fq2_vals_reduced(
        fq2_add_vals(fq2_mul_const_vals(x.0, k.1), fq2_nonres_vals(fq2_mul_const_vals(x.2, k.2))),
        fq2_mul_const_vals(x.1, k.0),
    );
    lemma_fq2_vals_reduced(fq2_mul_const_vals(x.0, k.2), fq2_mul_const_vals(x.1, k.1));
    lemma_fq2_vals_reduced(
        fq2_add_vals(fq2_mul_const_vals(x.0, k.2), fq2_mul_const_vals(x.1, k.1)),
        fq2_mul_const_vals(x.2, k.0),
    );
}

/// The sparse product against an element with `Fq2` coordinates
/// `(y0, y1, 0)`, in the shape the builder emits.
pub open spec fn fq6_mul01_vals(
    x: ((nat, nat), (nat, nat), (nat, nat)),
    y0: (nat, nat),
    y1: (nat, nat),
) -> ((nat, nat), (nat, nat), (nat, nat)) {
    let v0 = fq2_mul_vals(x.0, y0);
    let v1 = fq2_mul_vals(x.1, y1);
    (
        fq2_add_vals(
            fq2_nonres_vals(fq2_sub_vals(fq2_mul_vals(fq2_add_vals(x.1, x.2), y1), v1)),
            v0,
        ),
        fq2_sub_vals(
            fq2_sub_vals(fq2_mul_vals(fq2_add_vals(x.0, x.1), fq2_add_vals(y0, y1)), v0),
            v1,
        ),
        fq2_add_vals(fq2_sub_vals(fq2_mul_vals(fq2_add_vals(x.0, x.2), y0), v0), v1),
    )
}

/// The sparse product lands on a reduced triple.
pub proof fn lemma_fq6_mul01_reduced(
    x: ((nat, nat), (nat, nat), (nat, nat)),
    y0: (nat, nat),
    y1: (nat, nat),
)
    ensures
        fq6_reduced(fq6_mul01_vals(x, y0, y1)),
{
    let v0 = fq2_mul_vals(x.0, y0);
    let v1 = fq2_mul_vals(x.1, y1);
    lemma_fq2_vals_reduced(fq2_mul_vals(fq2_add_vals(x.1, x.2), y1), v1);
    lemma_fq2_vals_reduced(
        fq2_nonres_vals(fq2_sub_vals(fq2_mul_vals(fq2_add_vals(x.1, x.2), y1), v1)),
        v0,
    );
    lemma_fq2_vals_reduced(fq2_mul_vals(fq2_add_vals(x.0, x.1), fq2_add_vals(y0, y1)), v0);
    lemma_fq2_vals_reduced(
        fq2_sub_vals(fq2_mul_vals(fq2_add_vals(x.0, x.1), fq2_add_vals(y0, y1)), v0),
        v1,
    );
    lemma_fq2_vals_reduced(fq2_mul_vals(fq2_add_vals(x.0, x.2), y0), v0);
    lemma_fq2_vals_reduced(
        fq2_sub_vals(fq2_mul_vals(fq2_add_vals(x.0, x.2), y0), v0),
        v1,
    );
}

/// A constant `Fq2` product applied to each of the three coordinates.
pub open spec fn fq6_mul_const_fq2_vals(
    x: ((nat, nat), (nat, nat), (nat, nat)),
    k: (nat, nat),
) -> ((nat, nat), (nat, nat), (nat, nat)) {
    (fq2_mul_const_vals(x.0, k), fq2_mul_const_vals(x.1, k), fq2_mul_const_vals(x.2, k))
}

/// The `i`-th Frobenius power on the cubic extension: componentwise `Fq2`
/// Frobenius, the `c1` and `c2` coordinates multiplied by the table
/// coefficients at `i` modulo the table length.
pub open spec fn fq6_frob_vals(x: ((nat, nat), (nat, nat), (nat, nat)), i: int) -> (
    (nat, nat),
    (nat, nat),
    (nat, nat),
) {
    (
        fq2_frob_vals(x.0, i),
        fq2_mul_const_vals(fq2_frob_vals(x.1, i), fq6_frob_c1_val(i % 6)),
        fq2_mul_const_vals(fq2_frob_vals(x.2, i), fq6_frob_c2_val(i % 6)),
    )
}

/// Product with the non-residue `v`: `(xi * x2, x0, x1)`.
pub open spec fn fq6_nonres_vals(x: ((nat, nat), (nat, nat), (nat, nat))) -> (
    (nat, nat),
    (nat, nat),
    (nat, nat),
) {
    (fq2_nonres_vals(x.2), x.0, x.1)
}

/// The values of a triple of concatenated 508-wire results.
pub proof fn lemma_fq6_assemble(
    c: Circuit,
    inputs: Seq<bool>,
    r0: Seq<usize>,
    r1: Seq<usize>,
    r2: Seq<usize>,
    out: Seq<usize>,
)
    requires
        r0.len() == 508,
        r1.len() == 508,
        r2.len() == 508,
        out == (r0 + r1) + r2,
    ensures
        fq6_val(c, inputs, out) == (
            fq2_val(c, inputs, r0),
            fq2_val(c, inputs, r1),
            fq2_val(c, inputs, r2),
        ),
{
    lemma_fq_coeff_concat_left(c, inputs, r0 + r1, r2, 0);
    lemma_fq_coeff_concat_left(c, inputs, r0 + r1, r2, 1);
    lemma_fq_coeff_concat_left(c, inputs, r0 + r1, r2, 2);
    lemma_fq_coeff_concat_left(c, inputs, r0 + r1, r2, 3);
    lemma_fq_coeff_concat_left(c, inputs, r0, r1, 0);
    lemma_fq_coeff_concat_left(c, inputs, r0, r1, 1);
    lemma_fq_coeff_concat_right(c, inputs, r0, r1, 2, 0);
    lemma_fq_coeff_concat_right(c, inputs, r0, r1, 2, 1);
    lemma_fq_coeff_concat_right(c, inputs, r0 + r1, r2, 4, 0);
    lemma_fq_coeff_concat_right(c, inputs, r0 + r1, r2, 4, 1);
}

/// The values of the three 508-wire slices of an `Fq6` operand.
pub proof fn lemma_fq6_split(
    c: Circuit,
    inputs: Seq<bool>,
    a: Seq<usize>,
    a0: Seq<usize>,
    a1: Seq<usize>,
    a2: Seq<usize>,
)
    requires
        a.len() == 1524,
        a0 == a.subrange(0, 508),
        a1 == a.subrange(508, 1016),
        a2 == a.subrange(1016, 1524),
    ensures
        fq2_val(c, inputs, a0) == fq6_val(c, inputs, a).0,
        fq2_val(c, inputs, a1) == fq6_val(c, inputs, a).1,
        fq2_val(c, inputs, a2) == fq6_val(c, inputs, a).2,
{
    lemma_fq_coeff_slice(c, inputs, a, 0, 508, 0);
    lemma_fq_coeff_slice(c, inputs, a, 0, 508, 1);
    lemma_fq_coeff_slice(c, inputs, a, 2, 508, 0);
    lemma_fq_coeff_slice(c, inputs, a, 2, 508, 1);
    lemma_fq_coeff_slice(c, inputs, a, 4, 508, 0);
    lemma_fq_coeff_slice(c, inputs, a, 4, 508, 1);
}

/// The Frobenius map keeps a reduced triple reduced.
pub proof fn lemma_fq6_frob_reduced(x: ((nat, nat), (nat, nat), (nat, nat)), i: int)
    requires
        fq6_reduced(x),
    ensures
        fq6_reduced(fq6_frob_vals(x, i)),
{
    lemma_fq2_frob_reduced(x.0, i);
    lemma_fq2_vals_reduced(fq2_frob_vals(x.1, i), fq6_frob_c1_val(i % 6));
    lemma_fq2_vals_reduced(fq2_frob_vals(x.2, i), fq6_frob_c2_val(i % 6));
}

/// The cubic-extension circuit builders.
pub struct Fq6;

impl Fq6 {
    /// Componentwise addition.
    pub fn add(c: &mut Circuit, a: &Wires, b: &Wires) -> (out: Wires)
        requires
            old(c).wf(),
            a@.len() == 1524,
            b@.len() == 1524,
            wires_in(a@, old(c).n_wires()),
            wires_in(b@, old(c).n_wires()),
            old(c).n_wires() + 19000 <= usize::MAX,
        ensures
            final(c).wf(),
            final(c).extends(*old(c)),
            final(c).n_wires() <= old(c).n_wires() + 19000,
            out@.len() == 1524,
            wires_in(out@, final(c).n_wires()),
            forall|inputs: Seq<bool>, j: int|
                (0 <= j < 6 && fq_coeff(*final(c), inputs, a@, j) < fq_modulus() && fq_coeff(*final(c), inputs, b@, j) < fq_modulus())
                    ==> #[trigger] fq_coeff(*final(c), inputs, out@, j) == (fq_coeff(*final(c), inputs, a@, j) + fq_coeff(*final(c), inputs, b@, j)) % fq_modulus(),
    {
        let a0 = subwires(a, 0, 508);
        let a1 = subwires(a, 508, 508);
        let a2 = subwires(a, 1016, 508);
        let b0 = subwires(b, 0, 508);
        let b1 = subwires(b, 508, 508);
        let b2 = subwires(b, 1016, 508);
        let r0 = Fq2::add(c, &a0, &b0);
        let ghost c1 = *c;
        let r1 = Fq2::add(c, &a1, &b1);
        let ghost c2 = *c;
        let r2 = Fq2::add(c, &a2, &b2);
        let lo = concat_wires(&r0, &r1);
        let out = concat_wires(&lo, &r2);
        proof {
            assert forall|inputs: Seq<bool>, j: int|
                (0 <= j < 6 && fq_coeff(*c, inputs, a@, j) < fq_modulus() && fq_coeff(*c, inputs, b@, j) < fq_modulus())
                    implies #[trigger] fq_coeff(*c, inputs, out@, j) == (fq_coeff(*c, inputs, a@, j) + fq_coeff(*c, inputs, b@, j)) % fq_modulus() by {
                lemma_wire_vals_extends(c1, *c, inputs, r0@);
                lemma_wire_vals_extends(c1, *c, inputs, a0@);
                lemma_wire_vals_extends(c2, *c, inputs, r1@);
                lemma_wire_vals_extends(c2, *c, inputs, a1@);
                lemma_wire_vals_extends(c1, *c, inputs, b0@);
                lemma_wire_vals_extends(c2, *c, inputs, b1@);
                let m: int = if j < 2 { j } else if j < 4 { j - 2 } else { j - 4 };
                lemma_fq_coeff_slice(*c, inputs, a@, 0, 508, m);
                lemma_fq_coeff_slice(*c, inputs, a@, 2, 508, m);
                lemma_fq_coeff_slice(*c, inputs, a@, 4, 508, m);
                lemma_fq_coeff_slice(*c, inputs, b@, 0, 508, m);
                lemma_fq_coeff_slice(*c, inputs, b@, 2, 508, m);
                lemma_fq_coeff_slice(*c, inputs, b@, 4, 508, m);
                if j < 2 {
                    lemma_fq_coeff_concat_left(*c, inputs, lo@, r2@, j);
                    lemma_fq_coeff_concat_left(*c, inputs, r0@, r1@, j);
                    assert(fq_coeff(c1, inputs, a0@, m) == fq_coeff(*c, inputs, a@, j));
                    assert(fq_coeff(c1, inputs, b0@, m) == fq_coeff(*c, inputs, b@, j));
                    assert(fq_coeff(c1, inputs, r0@, m) == (fq_coeff(c1, inputs, a0@, m) + fq_coeff(c1, inputs, b0@, m)) % fq_modulus());
                    assert(fq_coeff(*c, inputs, r0@, m) == fq_coeff(c1, inputs, r0@, m));
                } else if j < 4 {
                    lemma_fq_coeff_concat_left(*c, inputs, lo@, r2@, j);
                    lemma_fq_coeff_concat_right(*c, inputs, r0@, r1@, 2, m);
                    assert(fq_coeff(c2, inputs, a1@, m) == fq_coeff(*c, inputs, a@, j));
                    assert(fq_coeff(c2, inputs, b1@, m) == fq_coeff(*c, inputs, b@, j));
                    assert(fq_coeff(c2, inputs, r1@, m) == (fq_coeff(c2, inputs, a1@, m) + fq_coeff(c2, inputs, b1@, m)) % fq_modulus());
                    assert(fq_coeff(*c, inputs, r1@, m) == fq_coeff(c2, inputs, r1@, m));
                } else {
                    lemma_fq_coeff_concat_right(*c, inputs, lo@, r2@, 4, m);
                    assert(fq_coeff(*c, inputs, a2@, m) == fq_coeff(*c, inputs, a@, j));
                    assert(fq_coeff(*c, inputs, b2@, m) == fq_coeff(*c, inputs, b@, j));
                    assert(fq_coeff(*c, inputs, r2@, m) == (fq_coeff(*c, inputs, a2@, m) + fq_coeff(*c, inputs, b2@, m)) % fq_modulus());
                    assert(fq_coeff(*c, inputs, r2@, m) == fq_coeff(*c, inputs, r2@, m));
                }
            }
        }
        out
    }

    /// Componentwise subtraction.
    pub fn sub(c: &mut Circuit, a: &Wires, b: &Wires) -> (out: Wires)
        requires
            old(c).wf(),
            a@.len() == 1524,
            b@.len() == 1524,
            wires_in(a@, old(c).n_wires()),
            wires_in(b@, old(c).n_wires()),
            old(c).n_wires() + 37000 <= usize::MAX,
        ensures
            final(c).wf(),
            final(c).extends(*old(c)),
            final(c).n_wires() <= old(c).n_wires() + 37000,
            out@.len() == 1524,
            wires_in(out@, final(c).n_wires()),
            forall|inputs: Seq<bool>, j: int|
                (0 <= j < 6 && fq_coeff(*final(c), inputs, a@, j) < fq_modulus() && fq_coeff(*final(c), inputs, b@, j) < fq_modulus())
                    ==> #[trigger] fq_coeff(*final(c), inputs, out@, j) == (fq_coeff(*final(c), inputs, a@, j) + fq_modulus() - fq_coeff(*final(c), inputs, b@, j)) % (fq_modulus() as int),
    {
        let a0 = subwires(a, 0, 508);
        let a1 = subwires(a, 508, 508);
        let a2 = subwires(a, 1016, 508);
        let b0 = subwires(b, 0, 508);
        let b1 = subwires(b, 508, 508);
        let b2 = subwires(b, 1016, 508);
        let r0 = Fq2::sub(c, &a0, &b0);
        let ghost c1 = *c;
        let r1 = Fq2::sub(c, &a1, &b1);
        let ghost c2 = *c;
        let r2 = Fq2::sub(c, &a2, &b2);
        let lo = concat_wires(&r0, &r1);
        let out = concat_wires(&lo, &r2);
        proof {
            assert forall|inputs: Seq<bool>, j: int|
                (0 <= j < 6 && fq_coeff(*c, inputs, a@, j) < fq_modulus() && fq_coeff(*c, inputs, b@, j) < fq_modulus())
                    implies #[trigger] fq_coeff(*c, inputs, out@, j) == (fq_coeff(*c, inputs, a@, j) + fq_modulus() - fq_coeff(*c, inputs, b@, j)) % (fq_modulus() as int) by {
                lemma_wire_vals_extends(c1, *c, inputs, r0@);
                lemma_wire_vals_extends(c1, *c, inputs, a0@);
                lemma_wire_vals_extends(c2, *c, inputs, r1@);
                lemma_wire_vals_extends(c2, *c, inputs, a1@);
                lemma_wire_vals_extends(c1, *c, inputs, b0@);
                lemma_wire_vals_extends(c2, *c, inputs, b1@);
                let m: int = if j < 2 { j } else if j < 4 { j - 2 } else { j - 4 };
                lemma_fq_coeff_slice(*c, inputs, a@, 0, 508, m);
                lemma_fq_coeff_slice(*c, inputs, a@, 2, 508, m);
                lemma_fq_coeff_slice(*c, inputs, a@, 4, 508, m);
                lemma_fq_coeff_slice(*c, inputs, b@, 0, 508, m);
                lemma_fq_coeff_slice(*c, inputs, b@, 2, 508, m);
                lemma_fq_coeff_slice(*c, inputs, b@, 4, 508, m);
                if j < 2 {
                    lemma_fq_coeff_concat_left(*c, inputs, lo@, r2@, j);
                    lemma_fq_coeff_concat_left(*c, inputs, r0@, r1@, j);
                    assert(fq_coeff(c1, inputs, a0@, m) == fq_coeff(*c, inputs, a@, j));
                    assert(fq_coeff(c1, inputs, b0@, m) == fq_coeff(*c, inputs, b@, j));
                    assert(fq_coeff(c1, inputs, r0@, m) == (fq_coeff(c1, inputs, a0@, m) + fq_modulus() - fq_coeff(c1, inputs, b0@, m)) % (fq_modulus() as int));
                    assert(fq_coeff(*c, inputs, r0@, m) == fq_coeff(c1, inputs, r0@, m));
                } else if j < 4 {
                    lemma_fq_coeff_concat_left(*c, inputs, lo@, r2@, j);
                    lemma_fq_coeff_concat_right(*c, inputs, r0@, r1@, 2, m);
                    assert(fq_coeff(c2, inputs, a1@, m) == fq_coeff(*c, inputs, a@, j));
                    assert(fq_coeff(c2, inputs, b1@, m) == fq_coeff(*c, inputs, b@, j));
                    assert(fq_coeff(c2, inputs, r1@, m) == (fq_coeff(c2, inputs, a1@, m) + fq_modulus() - fq_coeff(c2, inputs, b1@, m)) % (fq_modulus() as int));
                    assert(fq_coeff(*c, inputs, r1@, m) == fq_coeff(c2, inputs, r1@, m));
                } else {
                    lemma_fq_coeff_concat_right(*c, inputs, lo@, r2@, 4, m);
                    assert(fq_coeff(*c, inputs, a2@, m) == fq_coeff(*c, inputs, a@, j));
                    assert(fq_coeff(*c, inputs, b2@, m) == fq_coeff(*c, inputs, b@, j));
                    assert(fq_coeff(*c, inputs, r2@, m) == (fq_coeff(*c, inputs, a2@, m) + fq_modulus() - fq_coeff(*c, inputs, b2@, m)) % (fq_modulus() as int));
                    assert(fq_coeff(*c, inputs, r2@, m) == fq_coeff(*c, inputs, r2@, m));
                }
            }
        }
        out
    }

    /// Componentwise negation.
    pub fn neg(c: &mut Circuit, a: &Wires) -> (out: Wires)
        requires
            old(c).wf(),
            a@.len() == 1524,
            wires_in(a@, old(c).n_wires()),
            old(c).n_wires() + 19000 <= usize::MAX,
        ensures
            final(c).wf(),
            final(c).extends(*old(c)),
            final(c).n_wires() <= old(c).n_wires() + 19000,
            out@.len() == 1524,
            wires_in(out@, final(c).n_wires()),
            forall|inputs: Seq<bool>, j: int|
                (0 <= j < 6 && fq_coeff(*final(c), inputs, a@, j) < fq_modulus())
                    ==> #[trigger] fq_coeff(*final(c), inputs, out@, j) == (fq_modulus() - fq_coeff(*final(c), inputs, a@, j)) % (fq_modulus() as int),
    {
        let a0 = subwires(a, 0, 508);
        let a1 = subwires(a, 508, 508);
        let a2 = subwires(a, 1016, 508);
        let r0 = Fq2::neg(c, &a0);
        let ghost c1 = *c;
        let r1 = Fq2::neg(c, &a1);
        let ghost c2 = *c;
        let r2 = Fq2::neg(c, &a2);
        let lo = concat_wires(&r0, &r1);
        let out = concat_wires(&lo, &r2);
        proof {
            assert forall|inputs: Seq<bool>, j: int|
                (0 <= j < 6 && fq_coeff(*c, inputs, a@, j) < fq_modulus())
                    implies #[trigger] fq_coeff(*c, inputs, out@, j) == (fq_modulus() - fq_coeff(*c, inputs, a@, j)) % (fq_modulus() as int) by {
                lemma_wire_vals_extends(c1, *c, inputs, r0@);
                lemma_wire_vals_extends(c1, *c, inputs, a0@);
                lemma_wire_vals_extends(c2, *c, inputs, r1@);
                lemma_wire_vals_extends(c2, *c, inputs, a1@);
                let m: int = if j < 2 { j } else if j < 4 { j - 2 } else { j - 4 };
                lemma_fq_coeff_slice(*c, inputs, a@, 0, 508, m);
                lemma_fq_coeff_slice(*c, inputs, a@, 2, 508, m);
                lemma_fq_coeff_slice(*c, inputs, a@, 4, 508, m);
                if j < 2 {
                    lemma_fq_coeff_concat_left(*c, inputs, lo@, r2@, j);
                    lemma_fq_coeff_concat_left(*c, inputs, r0@, r1@, j);
                    assert(fq_coeff(c1, inputs, a0@, m) == fq_coeff(*c, inputs, a@, j));
                    assert(fq_coeff(c1, inputs, r0@, m) == (fq_modulus() - fq_coeff(c1, inputs, a0@, m)) % (fq_modulus() as int));
                    assert(fq_coeff(*c, inputs, r0@, m) == fq_coeff(c1, inputs, r0@, m));
                } else if j < 4 {
                    lemma_fq_coeff_concat_left(*c, inputs, lo@, r2@, j);
                    lemma_fq_coeff_concat_right(*c, inputs, r0@, r1@, 2, m);
                    assert(fq_coeff(c2, inputs, a1@, m) == fq_coeff(*c, inputs, a@, j));
                    assert(fq_coeff(c2, inputs, r1@, m) == (fq_modulus() - fq_coeff(c2, inputs, a1@, m)) % (fq_modulus() as int));
                    assert(fq_coeff(*c, inputs, r1@, m) == fq_coeff(c2, inputs, r1@, m));
                } else {
                    lemma_fq_coeff_concat_right(*c, inputs, lo@, r2@, 4, m);
                    assert(fq_coeff(*c, inputs, a2@, m) == fq_coeff(*c, inputs, a@, j));
                    assert(fq_coeff(*c, inputs, r2@, m) == (fq_modulus() - fq_coeff(*c, inputs, a2@, m)) % (fq_modulus() as int));
                    assert(fq_coeff(*c, inputs, r2@, m) == fq_coeff(*c, inputs, r2@, m));
                }
            }
        }
        out
    }

    /// Componentwise doubling.
    pub fn double(c: &mut Circuit, a: &Wires) -> (out: Wires)
        requires
            old(c).wf(),
            a@.len() == 1524,
            wires_in(a@, old(c).n_wires()),
            old(c).n_wires() + 11000 <= usize::MAX,
        ensures
            final(c).wf(),
            final(c).extends(*old(c)),
            final(c).n_wires() <= old(c).n_wires() + 11000,
            out@.len() == 1524,
            wires_in(out@, final(c).n_wires()),
            forall|inputs: Seq<bool>, j: int|
                (0 <= j < 6 && fq_coeff(*final(c), inputs, a@, j) < fq_modulus())
                    ==> #[trigger] fq_coeff(*final(c), inputs, out@, j) == (2 * fq_coeff(*final(c), inputs, a@, j)) % fq_modulus(),
    {
        let a0 = subwires(a, 0, 508);
        let a1 = subwires(a, 508, 508);
        let a2 = subwires(a, 1016, 508);
        let r0 = Fq2::double(c, &a0);
        let ghost c1 = *c;
        let r1 = Fq2::double(c, &a1);
        let ghost c2 = *c;
        let r2 = Fq2::double(c, &a2);
        let lo = concat_wires(&r0, &r1);
        let out = concat_wires(&lo, &r2);
        proof {
            assert forall|inputs: Seq<bool>, j: int|
                (0 <= j < 6 && fq_coeff(*c, inputs, a@, j) < fq_modulus())
                    implies #[trigger] fq_coeff(*c, inputs, out@, j) == (2 * fq_coeff(*c, inputs, a@, j)) % fq_modulus() by {
                lemma_wire_vals_extends(c1, *c, inputs, r0@);
                lemma_wire_vals_extends(c1, *c, inputs, a0@);
                lemma_wire_vals_extends(c2, *c, inputs, r1@);
                lemma_wire_vals_extends(c2, *c, inputs, a1@);
                let m: int = if j < 2 { j } else if j < 4 { j - 2 } else { j - 4 };
                lemma_fq_coeff_slice(*c, inputs, a@, 0, 508, m);
                lemma_fq_coeff_slice(*c, inputs, a@, 2, 508, m);
                lemma_fq_coeff_slice(*c, inputs, a@, 4, 508, m);
                if j < 2 {
                    lemma_fq_coeff_concat_left(*c, inputs, lo@, r2@, j);
                    lemma_fq_coeff_concat_left(*c, inputs, r0@, r1@, j);
                    assert(fq_coeff(c1, inputs, a0@, m) == fq_coeff(*c, inputs, a@, j));
                    assert(fq_coeff(c1, inputs, r0@, m) == (2 * fq_coeff(c1, inputs, a0@, m)) % fq_modulus());
                    assert(fq_coeff(*c, inputs, r0@, m) == fq_coeff(c1, inputs, r0@, m));
                } else if j < 4 {
                    lemma_fq_coeff_concat_left(*c, inputs, lo@, r2@, j);
                    lemma_fq_coeff_concat_right(*c, inputs, r0@, r1@, 2, m);
                    assert(fq_coeff(c2, inputs, a1@, m) == fq_coeff(*c, inputs, a@, j));
                    assert(fq_coeff(c2, inputs, r1@, m) == (2 * fq_coeff(c2, inputs, a1@, m)) % fq_modulus());
                    assert(fq_coeff(*c, inputs, r1@, m) == fq_coeff(c2, inputs, r1@, m));
                } else {
                    lemma_fq_coeff_concat_right(*c, inputs, lo@, r2@, 4, m);
                    assert(fq_coeff(*c, inputs, a2@, m) == fq_coeff(*c, inputs, a@, j));
                    assert(fq_coeff(*c, inputs, r2@, m) == (2 * fq_coeff(*c, inputs, a2@, m)) % fq_modulus());
                    assert(fq_coeff(*c, inputs, r2@, m) == fq_coeff(*c, inputs, r2@, m));
                }
            }
        }
        out
    }

    /// Product with the non-residue `v`: `(c0, c1, c2)` maps to
    /// `(xi * c2, c0, c1)`.
    pub fn mul_by_nonresidue(c: &mut Circuit, a: &Wires) -> (out: Wires)
        requires
            old(c).wf(),
            a@.len() == 1524,
            wires_in(a@, old(c).n_wires()),
            old(c).n_wires() + 30000 <= usize::MAX,
        ensures
            final(c).wf(),
            final(c).extends(*old(c)),
            final(c).n_wires() <= old(c).n_wires() + 30000,
            out@.len() == 1524,
            wires_in(out@, final(c).n_wires()),
            forall|inputs: Seq<bool>|
                fq6_reduced(fq6_val(*final(c), inputs, a@)) ==> #[trigger] fq6_val(
                    *final(c),
                    inputs,
                    out@,
                ) == fq6_nonres_vals(fq6_val(*final(c), inputs, a@)),
    {
        let a0 = subwires(a, 0, 508);
        let a1 = subwires(a, 508, 508);
        let a2 = subwires(a, 1016, 508);
        let r0 = Fq2::mul_by_nonresidue(c, &a2);
        let lo = concat_wires(&r0, &a0);
        let out = concat_wires(&lo, &a1);
        proof {
            crate::circuit::lemma_extends_refl(*c);
            assert forall|inputs: Seq<bool>|
                fq6_reduced(fq6_val(*c, inputs, a@)) implies #[trigger] fq6_val(
                *c,
                inputs,
                out@,
            ) == fq6_nonres_vals(fq6_val(*c, inputs, a@)) by {
                lemma_fq6_split(*c, inputs, a@, a0@, a1@, a2@);
                let xa = fq6_val(*c, inputs, a@);
                assert(fq2_val(*c, inputs, a2@) == xa.2);
                lemma_fq2_vals_reduced(xa.2, xa.2);
                assert(fq2_val(*c, inputs, r0@) == fq2_nonres_vals(xa.2));
                lemma_fq6_assemble(*c, inputs, r0@, a0@, a1@, out@);
            }
        }
        out
    }

    /// Karatsuba product over the cubic extension (six `Fq2` products); the
    /// result values follow the emitted tower identities exactly.
    #[verifier::rlimit(100)]
    pub fn mul(c: &mut Circuit, a: &Wires, b: &Wires) -> (out: Wires)
        requires
            old(c).wf(),
            a@.len() == 1524,
            b@.len() == 1524,
            wires_in(a@, old(c).n_wires()),
            wires_in(b@, old(c).n_wires()),
            old(c).n_wires() + 25000000 <= usize::MAX,
        ensures
            final(c).wf(),
            final(c).extends(*old(c)),
            final(c).n_wires() <= old(c).n_wires() + 25000000,
            out@.len() == 1524,
            wires_in(out@, final(c).n_wires()),
            forall|inputs: Seq<bool>|
                (fq6_reduced(fq6_val(*final(c), inputs, a@)) && fq6_reduced(
                    fq6_val(*final(c), inputs, b@),
                )) ==> #[trigger] fq6_val(*final(c), inputs, out@) == fq6_mul_vals(
                    fq6_val(*final(c), inputs, a@),
                    fq6_val(*final(c), inputs, b@),
                ),
    {
        let a0 = subwires(a, 0, 508);
        let a1 = subwires(a, 508, 508);
        let a2 = subwires(a, 1016, 508);
        let b0 = subwires(b, 0, 508);
        let b1 = subwires(b, 508, 508);
        let b2 = subwires(b, 1016, 508);
        let v0 = Fq2::mul(c, &a0, &b0);
        let ghost s0 = *c;
        let v1 = Fq2::mul(c, &a1, &b1);
        let ghost s1 = *c;
        let v2 = Fq2::mul(c, &a2, &b2);
        let ghost s2 = *c;
        let x0 = Fq2::add(c, &a1, &a2);
        let ghost s3 = *c;
        let y0 = Fq2::add(c, &b1, &b2);
        let ghost s4 = *c;
        let t0a = Fq2::mul(c, &x0, &y0);
        let ghost s5 = *c;
        let t0b = Fq2::sub(c, &t0a, &v1);
        let ghost s6 = *c;
        let t0c = Fq2::sub(c, &t0b, &v2);
        let ghost s7 = *c;
        let t0d = Fq2::mul_by_nonresidue(c, &t0c);
        let ghost s8 = *c;
        let r0 = Fq2::add(c, &t0d, &v0);
        let ghost s9 = *c;
        let x1 = Fq2::add(c, &a0, &a1);
        let ghost s10 = *c;
        let y1 = Fq2::add(c, &b0, &b1);
        let ghost s11 = *c;
        let t1a = Fq2::mul(c, &x1, &y1);
        let ghost s12 = *c;
        let t1b = Fq2::sub(c, &t1a, &v0);
        let ghost s13 = *c;
        let t1c = Fq2::sub(c, &t1b, &v1);
        let ghost s14 = *c;
        let n2 = Fq2::mul_by_nonresidue(c, &v2);
        let ghost s15 = *c;
        let r1 = Fq2::add(c, &t1c, &n2);
        let ghost s16 = *c;
        let x2 = Fq2::add(c, &a0, &a2);
        let ghost s17 = *c;
        let y2 = Fq2::add(c, &b0, &b2);
        let ghost s18 = *c;
        let t2a = Fq2::mul(c, &x2, &y2);
        let ghost s19 = *c;
        let t2b = Fq2::sub(c, &t2a, &v0);
        let ghost s20 = *c;
        let t2c = Fq2::sub(c, &t2b, &v2);
        let ghost s21 = *c;
        let r2 = Fq2::add(c, &t2c, &v1);
        let ghost s22 = *c;
        let lo = concat_wires(&r0, &r1);
        let out = concat_wires(&lo, &r2);
        proof {
            crate::circuit::lemma_extends_refl(*c);
            assert forall|inputs: Seq<bool>|
                (fq6_reduced(fq6_val(*c, inputs, a@)) && fq6_reduced(
                    fq6_val(*c, inputs, b@),
                )) implies #[trigger] fq6_val(*c, inputs, out@) == fq6_mul_vals(
                fq6_val(*c, inputs, a@),
                fq6_val(*c, inputs, b@),
            ) by {
                lemma_wire_vals_extends(s0, *c, inputs, v0@);
                lemma_wire_vals_extends(s0, *c, inputs, a0@);
                lemma_wire_vals_extends(s0, *c, inputs, b0@);
                lemma_wire_vals_extends(s1, *c, inputs, v1@);
                lemma_wire_vals_extends(s1, *c, inputs, a1@);
                lemma_wire_vals_extends(s1, *c, inputs, b1@);
                lemma_wire_vals_extends(s2, *c, inputs, v2@);
                lemma_wire_vals_extends(s2, *c, inputs, a2@);
                lemma_wire_vals_extends(s2, *c, inputs, b2@);
                lemma_wire_vals_extends(s3, *c, inputs, x0@);
                lemma_wire_vals_extends(s3, *c, inputs, a1@);
                lemma_wire_vals_extends(s3, *c, inputs, a2@);
                lemma_wire_vals_extends(s4, *c, inputs, y0@);
                lemma_wire_vals_extends(s4, *c, inputs, b1@);
                lemma_wire_vals_extends(s4, *c, inputs, b2@);
                lemma_wire_vals_extends(s5, *c, inputs, t0a@);
                lemma_wire_vals_extends(s5, *c, inputs, x0@);
                lemma_wire_vals_extends(s5, *c, inputs, y0@);
                lemma_wire_vals_extends(s6, *c, inputs, t0b@);
                lemma_wire_vals_extends(s6, *c, inputs, t0a@);
                lemma_wire_vals_extends(s6, *c, inputs, v1@);
                lemma_wire_vals_extends(s7, *c, inputs, t0c@);
                lemma_wire_vals_extends(s7, *c, inputs, t0b@);
                lemma_wire_vals_extends(s7, *c, inputs, v2@);
                lemma_wire_vals_extends(s8, *c, inputs, t0d@);
                lemma_wire_vals_extends(s8, *c, inputs, t0c@);
                lemma_wire_vals_extends(s9, *c, inputs, r0@);
                lemma_wire_vals_extends(s9, *c, inputs, t0d@);
                lemma_wire_vals_extends(s9, *c, inputs, v0@);
                lemma_wire_vals_extends(s10, *c, inputs, x1@);
                lemma_wire_vals_extends(s10, *c, inputs, a0@);
                lemma_wire_vals_extends(s10, *c, inputs, a1@);
                lemma_wire_vals_extends(s11, *c, inputs, y1@);
                lemma_wire_vals_extends(s11, *c, inputs, b0@);
                lemma_wire_vals_extends(s11, *c, inputs, b1@);
                lemma_wire_vals_extends(s12, *c, inputs, t1a@);
                lemma_wire_vals_extends(s12, *c, inputs, x1@);
                lemma_wire_vals_extends(s12, *c, inputs, y1@);
                lemma_wire_vals_extends(s13, *c, inputs, t1b@);
                lemma_wire_vals_extends(s13, *c, inputs, t1a@);
                lemma_wire_vals_extends(s13, *c, inputs, v0@);
                lemma_wire_vals_extends(s14, *c, inputs, t1c@);
                lemma_wire_vals_extends(s14, *c, inputs, t1b@);
                lemma_wire_vals_extends(s14, *c, inputs, v1@);
                lemma_wire_vals_extends(s15, *c, inputs, n2@);
                lemma_wire_vals_extends(s15, *c, inputs, v2@);
                lemma_wire_vals_extends(s16, *c, inputs, r1@);
                lemma_wire_vals_extends(s16, *c, inputs, t1c@);
                lemma_wire_vals_extends(s16, *c, inputs, n2@);
                lemma_wire_vals_extends(s17, *c, inputs, x2@);
                lemma_wire_vals_extends(s17, *c, inputs, a0@);
                lemma_wire_vals_extends(s17, *c, inputs, a2@);
                lemma_wire_vals_extends(s18, *c, inputs, y2@);
                lemma_wire_vals_extends(s18, *c, inputs, b0@);
                lemma_wire_vals_extends(s18, *c, inputs, b2@);
                lemma_wire_vals_extends(s19, *c, inputs, t2a@);
                lemma_wire_vals_extends(s19, *c, inputs, x2@);
                lemma_wire_vals_extends(s19, *c, inputs, y2@);
                lemma_wire_vals_extends(s20, *c, inputs, t2b@);
                lemma_wire_vals_extends(s20, *c, inputs, t2a@);
                lemma_wire_vals_extends(s20, *c, inputs, v0@);
                lemma_wire_vals_extends(s21, *c, inputs, t2c@);
                lemma_wire_vals_extends(s21, *c, inputs, t2b@);
                lemma_wire_vals_extends(s21, *c, inputs, v2@);
                lemma_wire_vals_extends(s22, *c, inputs, r2@);
                lemma_wire_vals_extends(s22, *c, inputs, t2c@);
                lemma_wire_vals_extends(s22, *c, inputs, v1@);
                lemma_fq6_split(*c, inputs, a@, a0@, a1@, a2@);
                lemma_fq6_split(*c, inputs, b@, b0@, b1@, b2@);
                let xa = fq6_val(*c, inputs, a@);
                let xb = fq6_val(*c, inputs, b@);
                assert(fq2_val(s0, inputs, a0@) == xa.0);
                assert(fq2_val(s0, inputs, b0@) == xb.0);
                lemma_fq2_vals_reduced(xa.0, xb.0);
                assert(fq2_val(s0, inputs, v0@) == fq2_mul_vals(fq2_val(s0, inputs, a0@), fq2_val(s0, inputs, b0@)));
                assert(fq2_val(*c, inputs, v0@) == fq2_mul_vals(xa.0, xb.0));
                assert(fq2_val(s1, inputs, a1@) == xa.1);
                assert(fq2_val(s1, inputs, b1@) == xb.1);
                lemma_fq2_vals_reduced(xa.1, xb.1);
                assert(fq2_val(s1, inputs, v1@) == fq2_mul_vals(fq2_val(s1, inputs, a1@), fq2_val(s1, inputs, b1@)));
                assert(fq2_val(*c, inputs, v1@) == fq2_mul_vals(xa.1, xb.1));
                assert(fq2_val(s2, inputs, a2@) == xa.2);
                assert(fq2_val(s2, inputs, b2@) == xb.2);
                lemma_fq2_vals_reduced(xa.2, xb.2);
                assert(fq2_val(s2, inputs, v2@) == fq2_mul_vals(fq2_val(s2, inputs, a2@), fq2_val(s2, inputs, b2@)));
                assert(fq2_val(*c, inputs, v2@) == fq2_mul_vals(xa.2, xb.2));
                assert(fq2_val(s3, inputs, a1@) == xa.1);
                assert(fq2_val(s3, inputs, a2@) == xa.2);
                lemma_fq2_vals_reduced(xa.1, xa.2);
                assert(fq_coeff(s3, inputs, x0@, 0) == fq_add_val(fq_coeff(s3, inputs, a1@, 0), fq_coeff(s3, inputs, a2@, 0)));
                assert(fq_coeff(s3, inputs, x0@, 1) == fq_add_val(fq_coeff(s3, inputs, a1@, 1), fq_coeff(s3, inputs, a2@, 1)));
                assert(fq2_val(*c, inputs, x0@) == fq2_add_vals(xa.1, xa.2));
                assert(fq2_val(s4, inputs, b1@) == xb.1);
                assert(fq2_val(s4, inputs, b2@) == xb.2);
                lemma_fq2_vals_reduced(xb.1, xb.2);
                assert(fq_coeff(s4, inputs, y0@, 0) == fq_add_val(fq_coeff(s4, inputs, b1@, 0), fq_coeff(s4, inputs, b2@, 0)));
                assert(fq_coeff(s4, inputs, y0@, 1) == fq_add_val(fq_coeff(s4, inputs, b1@, 1), fq_coeff(s4, inputs, b2@, 1)));
                assert(fq2_val(*c, inputs, y0@) == fq2_add_vals(xb.1, xb.2));
                assert(fq2_val(s5, inputs, x0@) == fq2_add_vals(xa.1, xa.2));
                assert(fq2_val(s5, inputs, y0@) == fq2_add_vals(xb.1, xb.2));
                lemma_fq2_vals_reduced(fq2_add_vals(xa.1, xa.2), fq2_add_vals(xb.1, xb.2));
                assert(fq2_val(s5, inputs, t0a@) == fq2_mul_vals(fq2_val(s5, inputs, x0@), fq2_val(s5, inputs, y0@)));
                assert(fq2_val(*c, inputs, t0a@) == fq2_mul_vals(fq2_add_vals(xa.1, xa.2), fq2_add_vals(xb.1, xb.2)));
                assert(fq2_val(s6, inputs, t0a@) == fq2_mul_vals(fq2_add_vals(xa.1, xa.2), fq2_add_vals(xb.1, xb.2)));
                assert(fq2_val(s6, inputs, v1@) == fq2_mul_vals(xa.1, xb.1));
                lemma_fq2_vals_reduced(fq2_mul_vals(fq2_add_vals(xa.1, xa.2), fq2_add_vals(xb.1, xb.2)), fq2_mul_vals(xa.1, xb.1));
                assert(fq_coeff(s6, inputs, t0b@, 0) == fq_sub_val(fq_coeff(s6, inputs, t0a@, 0), fq_coeff(s6, inputs, v1@, 0)));
                assert(fq_coeff(s6, inputs, t0b@, 1) == fq_sub_val(fq_coeff(s6, inputs, t0a@, 1), fq_coeff(s6, inputs, v1@, 1)));
                assert(fq2_val(*c, inputs, t0b@) == fq2_sub_vals(fq2_mul_vals(fq2_add_vals(xa.1, xa.2), fq2_add_vals(xb.1, xb.2)), fq2_mul_vals(xa.1, xb.1)));
                assert(fq2_val(s7, inputs, t0b@) == fq2_sub_vals(fq2_mul_vals(fq2_add_vals(xa.1, xa.2), fq2_add_vals(xb.1, xb.2)), fq2_mul_vals(xa.1, xb.1)));
                assert(fq2_val(s7, inputs, v2@) == fq2_mul_vals(xa.2, xb.2));
                lemma_fq2_vals_reduced(fq2_sub_vals(fq2_mul_vals(fq2_add_vals(xa.1, xa.2), fq2_add_vals(xb.1, xb.2)), fq2_mul_vals(xa.1, xb.1)), fq2_mul_vals(xa.2, xb.2));
                assert(fq_coeff(s7, inputs, t0c@, 0) == fq_sub_val(fq_coeff(s7, inputs, t0b@, 0), fq_coeff(s7, inputs, v2@, 0)));
                assert(fq_coeff(s7, inputs, t0c@, 1) == fq_sub_val(fq_coeff(s7, inputs, t0b@, 1), fq_coeff(s7, inputs, v2@, 1)));
                assert(fq2_val(*c, inputs, t0c@) == fq2_sub_vals(fq2_sub_vals(fq2_mul_vals(fq2_add_vals(xa.1, xa.2), fq2_add_vals(xb.1, xb.2)), fq2_mul_vals(xa.1, xb.1)), fq2_mul_vals(xa.2, xb.2)));
                assert(fq2_val(s8, inputs, t0c@) == fq2_sub_vals(fq2_sub_vals(fq2_mul_vals(fq2_add_vals(xa.1, xa.2), fq2_add_vals(xb.1, xb.2)), fq2_mul_vals(xa.1, xb.1)), fq2_mul_vals(xa.2, xb.2)));
                lemma_fq2_vals_reduced(fq2_sub_vals(fq2_sub_vals(fq2_mul_vals(fq2_add_vals(xa.1, xa.2), fq2_add_vals(xb.1, xb.2)), fq2_mul_vals(xa.1, xb.1)), fq2_mul_vals(xa.2, xb.2)), fq2_sub_vals(fq2_sub_vals(fq2_mul_vals(fq2_add_vals(xa.1, xa.2), fq2_add_vals(xb.1, xb.2)), fq2_mul_vals(xa.1, xb.1)), fq2_mul_vals(xa.2, xb.2)));
                assert(fq2_val(s8, inputs, t0d@) == fq2_nonres_vals(fq2_val(s8, inputs, t0c@)));
                assert(fq2_val(*c, inputs, t0d@) == fq2_nonres_vals(fq2_sub_vals(fq2_sub_vals(fq2_mul_vals(fq2_add_vals(xa.1, xa.2), fq2_add_vals(xb.1, xb.2)), fq2_mul_vals(xa.1, xb.1)), fq2_mul_vals(xa.2, xb.2))));
                assert(fq2_val(s9, inputs, t0d@) == fq2_nonres_vals(fq2_sub_vals(fq2_sub_vals(fq2_mul_vals(fq2_add_vals(xa.1, xa.2), fq2_add_vals(xb.1, xb.2)), fq2_mul_vals(xa.1, xb.1)), fq2_mul_vals(xa.2, xb.2))));
                assert(fq2_val(s9, inputs, v0@) == fq2_mul_vals(xa.0, xb.0));
                lemma_fq2_vals_reduced(fq2_nonres_vals(fq2_sub_vals(fq2_sub_vals(fq2_mul_vals(fq2_add_vals(xa.1, xa.2), fq2_add_vals(xb.1, xb.2)), fq2_mul_vals(xa.1, xb.1)), fq2_mul_vals(xa.2, xb.2))), fq2_mul_vals(xa.0, xb.0));
                assert(fq_coeff(s9, inputs, r0@, 0) == fq_add_val(fq_coeff(s9, inputs, t0d@, 0), fq_coeff(s9, inputs, v0@, 0)));
                assert(fq_coeff(s9, inputs, r0@, 1) == fq_add_val(fq_coeff(s9, inputs, t0d@, 1), fq_coeff(s9, inputs, v0@, 1)));
                assert(fq2_val(*c, inputs, r0@) == fq2_add_vals(fq2_nonres_vals(fq2_sub_vals(fq2_sub_vals(fq2_mul_vals(fq2_add_vals(xa.1, xa.2), fq2_add_vals(xb.1, xb.2)), fq2_mul_vals(xa.1, xb.1)), fq2_mul_vals(xa.2, xb.2))), fq2_mul_vals(xa.0, xb.0)));
                assert(fq2_val(s10, inputs, a0@) == xa.0);
                assert(fq2_val(s10, inputs, a1@) == xa.1);
                lemma_fq2_vals_reduced(xa.0, xa.1);
                assert(fq_coeff(s10, inputs, x1@, 0) == fq_add_val(fq_coeff(s10, inputs, a0@, 0), fq_coeff(s10, inputs, a1@, 0)));
                assert(fq_coeff(s10, inputs, x1@, 1) == fq_add_val(fq_coeff(s10, inputs, a0@, 1), fq_coeff(s10, inputs, a1@, 1)));
                assert(fq2_val(*c, inputs, x1@) == fq2_add_vals(xa.0, xa.1));
                assert(fq2_val(s11, inputs, b0@) == xb.0);
                assert(fq2_val(s11, inputs, b1@) == xb.1);
                lemma_fq2_vals_reduced(xb.0, xb.1);
                assert(fq_coeff(s11, inputs, y1@, 0) == fq_add_val(fq_coeff(s11, inputs, b0@, 0), fq_coeff(s11, inputs, b1@, 0)));
                assert(fq_coeff(s11, inputs, y1@, 1) == fq_add_val(fq_coeff(s11, inputs, b0@, 1), fq_coeff(s11, inputs, b1@, 1)));
                assert(fq2_val(*c, inputs, y1@) == fq2_add_vals(xb.0, xb.1));
                assert(fq2_val(s12, inputs, x1@) == fq2_add_vals(xa.0, xa.1));
                assert(fq2_val(s12, inputs, y1@) == fq2_add_vals(xb.0, xb.1));
                lemma_fq2_vals_reduced(fq2_add_vals(xa.0, xa.1), fq2_add_vals(xb.0, xb.1));
                assert(fq2_val(s12, inputs, t1a@) == fq2_mul_vals(fq2_val(s12, inputs, x1@), fq2_val(s12, inputs, y1@)));
                assert(fq2_val(*c, inputs, t1a@) == fq2_mul_vals(fq2_add_vals(xa.0, xa.1), fq2_add_vals(xb.0, xb.1)));
                assert(fq2_val(s13, inputs, t1a@) == fq2_mul_vals(fq2_add_vals(xa.0, xa.1), fq2_add_vals(xb.0, xb.1)));
                assert(fq2_val(s13, inputs, v0@) == fq2_mul_vals(xa.0, xb.0));
                lemma_fq2_vals_reduced(fq2_mul_vals(fq2_add_vals(xa.0, xa.1), fq2_add_vals(xb.0, xb.1)), fq2_mul_vals(xa.0, xb.0));
                assert(fq_coeff(s13, inputs, t1b@, 0) == fq_sub_val(fq_coeff(s13, inputs, t1a@, 0), fq_coeff(s13, inputs, v0@, 0)));
                assert(fq_coeff(s13, inputs, t1b@, 1) == fq_sub_val(fq_coeff(s13, inputs, t1a@, 1), fq_coeff(s13, inputs, v0@, 1)));
                assert(fq2_val(*c, inputs, t1b@) == fq2_sub_vals(fq2_mul_vals(fq2_add_vals(xa.0, xa.1), fq2_add_vals(xb.0, xb.1)), fq2_mul_vals(xa.0, xb.0)));
                assert(fq2_val(s14, inputs, t1b@) == fq2_sub_vals(fq2_mul_vals(fq2_add_vals(xa.0, xa.1), fq2_add_vals(xb.0, xb.1)), fq2_mul_vals(xa.0, xb.0)));
                assert(fq2_val(s14, inputs, v1@) == fq2_mul_vals(xa.1, xb.1));
                lemma_fq2_vals_reduced(fq2_sub_vals(fq2_mul_vals(fq2_add_vals(xa.0, xa.1), fq2_add_vals(xb.0, xb.1)), fq2_mul_vals(xa.0, xb.0)), fq2_mul_vals(xa.1, xb.1));
                assert(fq_coeff(s14, inputs, t1c@, 0) == fq_sub_val(fq_coeff(s14, inputs, t1b@, 0), fq_coeff(s14, inputs, v1@, 0)));
                assert(fq_coeff(s14, inputs, t1c@, 1) == fq_sub_val(fq_coeff(s14, inputs, t1b@, 1), fq_coeff(s14, inputs, v1@, 1)));
                assert(fq2_val(*c, inputs, t1c@) == fq2_sub_vals(fq2_sub_vals(fq2_mul_vals(fq2_add_vals(xa.0, xa.1), fq2_add_vals(xb.0, xb.1)), fq2_mul_vals(xa.0, xb.0)), fq2_mul_vals(xa.1, xb.1)));
                assert(fq2_val(s15, inputs, v2@) == fq2_mul_vals(xa.2, xb.2));
                lemma_fq2_vals_reduced(fq2_mul_vals(xa.2, xb.2), fq2_mul_vals(xa.2, xb.2));
                assert(fq2_val(s15, inputs, n2@) == fq2_nonres_vals(fq2_val(s15, inputs, v2@)));
                assert(fq2_val(*c, inputs, n2@) == fq2_nonres_vals(fq2_mul_vals(xa.2, xb.2)));
                assert(fq2_val(s16, inputs, t1c@) == fq2_sub_vals(fq2_sub_vals(fq2_mul_vals(fq2_add_vals(xa.0, xa.1), fq2_add_vals(xb.0, xb.1)), fq2_mul_vals(xa.0, xb.0)), fq2_mul_vals(xa.1, xb.1)));
                assert(fq2_val(s16, inputs, n2@) == fq2_nonres_vals(fq2_mul_vals(xa.2, xb.2)));
                lemma_fq2_vals_reduced(fq2_sub_vals(fq2_sub_vals(fq2_mul_vals(fq2_add_vals(xa.0, xa.1), fq2_add_vals(xb.0, xb.1)), fq2_mul_vals(xa.0, xb.0)), fq2_mul_vals(xa.1, xb.1)), fq2_nonres_vals(fq2_mul_vals(xa.2, xb.2)));
                assert(fq_coeff(s16, inputs, r1@, 0) == fq_add_val(fq_coeff(s16, inputs, t1c@, 0), fq_coeff(s16, inputs, n2@, 0)));
                assert(fq_coeff(s16, inputs, r1@, 1) == fq_add_val(fq_coeff(s16, inputs, t1c@, 1), fq_coeff(s16, inputs, n2@, 1)));
                assert(fq2_val(*c, inputs, r1@) == fq2_add_vals(fq2_sub_vals(fq2_sub_vals(fq2_mul_vals(fq2_add_vals(xa.0, xa.1), fq2_add_vals(xb.0, xb.1)), fq2_mul_vals(xa.0, xb.0)), fq2_mul_vals(xa.1, xb.1)), fq2_nonres_vals(fq2_mul_vals(xa.2, xb.2))));
                assert(fq2_val(s17, inputs, a0@) == xa.0);
                assert(fq2_val(s17, inputs, a2@) == xa.2);
                lemma_fq2_vals_reduced(xa.0, xa.2);
                assert(fq_coeff(s17, inputs, x2@, 0) == fq_add_val(fq_coeff(s17, inputs, a0@, 0), fq_coeff(s17, inputs, a2@, 0)));
                assert(fq_coeff(s17, inputs, x2@, 1) == fq_add_val(fq_coeff(s17, inputs, a0@, 1), fq_coeff(s17, inputs, a2@, 1)));
                assert(fq2_val(*c, inputs, x2@) == fq2_add_vals(xa.0, xa.2));
                assert(fq2_val(s18, inputs, b0@) == xb.0);
                assert(fq2_val(s18, inputs, b2@) == xb.2);
                lemma_fq2_vals_reduced(xb.0, xb.2);
                assert(fq_coeff(s18, inputs, y2@, 0) == fq_add_val(fq_coeff(s18, inputs, b0@, 0), fq_coeff(s18, inputs, b2@, 0)));
                assert(fq_coeff(s18, inputs, y2@, 1) == fq_add_val(fq_coeff(s18, inputs, b0@, 1), fq_coeff(s18, inputs, b2@, 1)));
                assert(fq2_val(*c, inputs, y2@) == fq2_add_vals(xb.0, xb.2));
                assert(fq2_val(s19, inputs, x2@) == fq2_add_vals(xa.0, xa.2));
                assert(fq2_val(s19, inputs, y2@) == fq2_add_vals(xb.0, xb.2));
                lemma_fq2_vals_reduced(fq2_add_vals(xa.0, xa.2), fq2_add_vals(xb.0, xb.2));
                assert(fq2_val(s19, inputs, t2a@) == fq2_mul_vals(fq2_val(s19, inputs, x2@), fq2_val(s19, inputs, y2@)));
                assert(fq2_val(*c, inputs, t2a@) == fq2_mul_vals(fq2_add_vals(xa.0, xa.2), fq2_add_vals(xb.0, xb.2)));
                assert(fq2_val(s20, inputs, t2a@) == fq2_mul_vals(fq2_add_vals(xa.0, xa.2), fq2_add_vals(xb.0, xb.2)));
                assert(fq2_val(s20, inputs, v0@) == fq2_mul_vals(xa.0, xb.0));
                lemma_fq2_vals_reduced(fq2_mul_vals(fq2_add_vals(xa.0, xa.2), fq2_add_vals(xb.0, xb.2)), fq2_mul_vals(xa.0, xb.0));
                assert(fq_coeff(s20, inputs, t2b@, 0) == fq_sub_val(fq_coeff(s20, inputs, t2a@, 0), fq_coeff(s20, inputs, v0@, 0)));
                assert(fq_coeff(s20, inputs, t2b@, 1) == fq_sub_val(fq_coeff(s20, inputs, t2a@, 1), fq_coeff(s20, inputs, v0@, 1)));
                assert(fq2_val(*c, inputs, t2b@) == fq2_sub_vals(fq2_mul_vals(fq2_add_vals(xa.0, xa.2), fq2_add_vals(xb.0, xb.2)), fq2_mul_vals(xa.0, xb.0)));
                assert(fq2_val(s21, inputs, t2b@) == fq2_sub_vals(fq2_mul_vals(fq2_add_vals(xa.0, xa.2), fq2_add_vals(xb.0, xb.2)), fq2_mul_vals(xa.0, xb.0)));
                assert(fq2_val(s21, inputs, v2@) == fq2_mul_vals(xa.2, xb.2));
                lemma_fq2_vals_reduced(fq2_sub_vals(fq2_mul_vals(fq2_add_vals(xa.0, xa.2), fq2_add_vals(xb.0, xb.2)), fq2_mul_vals(xa.0, xb.0)), fq2_mul_vals(xa.2, xb.2));
                assert(fq_coeff(s21, inputs, t2c@, 0) == fq_sub_val(fq_coeff(s21, inputs, t2b@, 0), fq_coeff(s21, inputs, v2@, 0)));
                assert(fq_coeff(s21, inputs, t2c@, 1) == fq_sub_val(fq_coeff(s21, inputs, t2b@, 1), fq_coeff(s21, inputs, v2@, 1)));
                assert(fq2_val(*c, inputs, t2c@) == fq2_sub_vals(fq2_sub_vals(fq2_mul_vals(fq2_add_vals(xa.0, xa.2), fq2_add_vals(xb.0, xb.2)), fq2_mul_vals(xa.0, xb.0)), fq2_mul_vals(xa.2, xb.2)));
                assert(fq2_val(s22, inputs, t2c@) == fq2_sub_vals(fq2_sub_vals(fq2_mul_vals(fq2_add_vals(xa.0, xa.2), fq2_add_vals(xb.0, xb.2)), fq2_mul_vals(xa.0, xb.0)), fq2_mul_vals(xa.2, xb.2)));
                assert(fq2_val(s22, inputs, v1@) == fq2_mul_vals(xa.1, xb.1));
                lemma_fq2_vals_reduced(fq2_sub_vals(fq2_sub_vals(fq2_mul_vals(fq2_add_vals(xa.0, xa.2), fq2_add_vals(xb.0, xb.2)), fq2_mul_vals(xa.0, xb.0)), fq2_mul_vals(xa.2, xb.2)), fq2_mul_vals(xa.1, xb.1));
                assert(fq_coeff(s22, inputs, r2@, 0) == fq_add_val(fq_coeff(s22, inputs, t2c@, 0), fq_coeff(s22, inputs, v1@, 0)));
                assert(fq_coeff(s22, inputs, r2@, 1) == fq_add_val(fq_coeff(s22, inputs, t2c@, 1), fq_coeff(s22, inputs, v1@, 1)));
                assert(fq2_val(*c, inputs, r2@) == fq2_add_vals(fq2_sub_vals(fq2_sub_vals(fq2_mul_vals(fq2_add_vals(xa.0, xa.2), fq2_add_vals(xb.0, xb.2)), fq2_mul_vals(xa.0, xb.0)), fq2_mul_vals(xa.2, xb.2)), fq2_mul_vals(xa.1, xb.1)));
                lemma_fq6_assemble(*c, inputs, r0@, r1@, r2@, out@);
            }
        }
        out
    }

    /// Squaring, emitted as a self-multiplication.
    pub fn square(c: &mut Circuit, a: &Wires) -> (out: Wires)
        requires
            old(c).wf(),
            a@.len() == 1524,
            wires_in(a@, old(c).n_wires()),
            old(c).n_wires() + 25000000 <= usize::MAX,
        ensures
            final(c).wf(),
            final(c).extends(*old(c)),
            final(c).n_wires() <= old(c).n_wires() + 25000000,
            out@.len() == 1524,
            wires_in(out@, final(c).n_wires()),
            forall|inputs: Seq<bool>|
                fq6_reduced(fq6_val(*final(c), inputs, a@)) ==> #[trigger] fq6_val(
                    *final(c),
                    inputs,
                    out@,
                ) == fq6_mul_vals(fq6_val(*final(c), inputs, a@), fq6_val(*final(c), inputs, a@)),
    {
        Self::mul(c, a, a)
    }

    /// Sparse product against an element whose `Fq2` coordinates are
    /// `(b0, b1, 0)` (five `Fq2` products).
    #[verifier::rlimit(100)]
    pub fn mul_by_01(c: &mut Circuit, a: &Wires, b0: &Wires, b1: &Wires) -> (out: Wires)
        requires
            old(c).wf(),
            a@.len() == 1524,
            b0@.len() == 508,
            b1@.len() == 508,
            wires_in(a@, old(c).n_wires()),
            wires_in(b0@, old(c).n_wires()),
            wires_in(b1@, old(c).n_wires()),
            old(c).n_wires() + 21000000 <= usize::MAX,
        ensures
            final(c).wf(),
            final(c).extends(*old(c)),
            final(c).n_wires() <= old(c).n_wires() + 21000000,
            out@.len() == 1524,
            wires_in(out@, final(c).n_wires()),
            forall|inputs: Seq<bool>|
                (fq6_reduced(fq6_val(*final(c), inputs, a@)) && fq2_reduced(
                    fq2_val(*final(c), inputs, b0@),
                ) && fq2_reduced(fq2_val(*final(c), inputs, b1@))) ==> #[trigger] fq6_val(
                    *final(c),
                    inputs,
                    out@,
                ) == fq6_mul01_vals(
                    fq6_val(*final(c), inputs, a@),
                    fq2_val(*final(c), inputs, b0@),
                    fq2_val(*final(c), inputs, b1@),
                ),
    {
        let a0 = subwires(a, 0, 508);
        let a1 = subwires(a, 508, 508);
        let a2 = subwires(a, 1016, 508);
        let v0 = Fq2::mul(c, &a0, b0);
        let ghost s0 = *c;
        let v1 = Fq2::mul(c, &a1, b1);
        let ghost s1 = *c;
        let t1 = Fq2::add(c, &a1, &a2);
        let ghost s2 = *c;
        let t2 = Fq2::mul(c, &t1, b1);
        let ghost s3 = *c;
        let t3 = Fq2::sub(c, &t2, &v1);
        let ghost s4 = *c;
        let t4 = Fq2::mul_by_nonresidue(c, &t3);
        let ghost s5 = *c;
        let r0 = Fq2::add(c, &t4, &v0);
        let ghost s6 = *c;
        let u1 = Fq2::add(c, &a0, &a1);
        let ghost s7 = *c;
        let ub = Fq2::add(c, b0, b1);
        let ghost s8 = *c;
        let u2 = Fq2::mul(c, &u1, &ub);
        let ghost s9 = *c;
        let u3 = Fq2::sub(c, &u2, &v0);
        let ghost s10 = *c;
        let r1 = Fq2::sub(c, &u3, &v1);
        let ghost s11 = *c;
        let w1 = Fq2::add(c, &a0, &a2);
        let ghost s12 = *c;
        let w2 = Fq2::mul(c, &w1, b0);
        let ghost s13 = *c;
        let w3 = Fq2::sub(c, &w2, &v0);
        let ghost s14 = *c;
        let r2 = Fq2::add(c, &w3, &v1);
        let ghost s15 = *c;
        let lo = concat_wires(&r0, &r1);
        let out = concat_wires(&lo, &r2);
        proof {
            crate::circuit::lemma_extends_refl(*c);
            assert forall|inputs: Seq<bool>|
                (fq6_reduced(fq6_val(*c, inputs, a@)) && fq2_reduced(
                    fq2_val(*c, inputs, b0@),
                ) && fq2_reduced(fq2_val(*c, inputs, b1@))) implies #[trigger] fq6_val(
                *c,
                inputs,
                out@,
            ) == fq6_mul01_vals(
                fq6_val(*c, inputs, a@),
                fq2_val(*c, inputs, b0@),
                fq2_val(*c, inputs, b1@),
            ) by {
                lemma_wire_vals_extends(s0, *c, inputs, v0@);
                lemma_wire_vals_extends(s0, *c, inputs, a0@);
                lemma_wire_vals_extends(s0, *c, inputs, b0@);
                lemma_wire_vals_extends(s1, *c, inputs, v1@);
                lemma_wire_vals_extends(s1, *c, inputs, a1@);
                lemma_wire_vals_extends(s1, *c, inputs, b1@);
                lemma_wire_vals_extends(s2, *c, inputs, t1@);
                lemma_wire_vals_extends(s2, *c, inputs, a1@);
                lemma_wire_vals_extends(s2, *c, inputs, a2@);
                lemma_wire_vals_extends(s3, *c, inputs, t2@);
                lemma_wire_vals_extends(s3, *c, inputs, t1@);
                lemma_wire_vals_extends(s3, *c, inputs, b1@);
                lemma_wire_vals_extends(s4, *c, inputs, t3@);
                lemma_wire_vals_extends(s4, *c, inputs, t2@);
                lemma_wire_vals_extends(s4, *c, inputs, v1@);
                lemma_wire_vals_extends(s5, *c, inputs, t4@);
                lemma_wire_vals_extends(s5, *c, inputs, t3@);
                lemma_wire_vals_extends(s6, *c, inputs, r0@);
                lemma_wire_vals_extends(s6, *c, inputs, t4@);
                lemma_wire_vals_extends(s6, *c, inputs, v0@);
                lemma_wire_vals_extends(s7, *c, inputs, u1@);
                lemma_wire_vals_extends(s7, *c, inputs, a0@);
                lemma_wire_vals_extends(s7, *c, inputs, a1@);
                lemma_wire_vals_extends(s8, *c, inputs, ub@);
                lemma_wire_vals_extends(s8, *c, inputs, b0@);
                lemma_wire_vals_extends(s8, *c, inputs, b1@);
                lemma_wire_vals_extends(s9, *c, inputs, u2@);
                lemma_wire_vals_extends(s9, *c, inputs, u1@);
                lemma_wire_vals_extends(s9, *c, inputs, ub@);
                lemma_wire_vals_extends(s10, *c, inputs, u3@);
                lemma_wire_vals_extends(s10, *c, inputs, u2@);
                lemma_wire_vals_extends(s10, *c, inputs, v0@);
                lemma_wire_vals_extends(s11, *c, inputs, r1@);
                lemma_wire_vals_extends(s11, *c, inputs, u3@);
                lemma_wire_vals_extends(s11, *c, inputs, v1@);
                lemma_wire_vals_extends(s12, *c, inputs, w1@);
                lemma_wire_vals_extends(s12, *c, inputs, a0@);
                lemma_wire_vals_extends(s12, *c, inputs, a2@);
                lemma_wire_vals_extends(s13, *c, inputs, w2@);
                lemma_wire_vals_extends(s13, *c, inputs, w1@);
                lemma_wire_vals_extends(s13, *c, inputs, b0@);
                lemma_wire_vals_extends(s14, *c, inputs, w3@);
                lemma_wire_vals_extends(s14, *c, inputs, w2@);
                lemma_wire_vals_extends(s14, *c, inputs, v0@);
                lemma_wire_vals_extends(s15, *c, inputs, r2@);
                lemma_wire_vals_extends(s15, *c, inputs, w3@);
                lemma_wire_vals_extends(s15, *c, inputs, v1@);
                lemma_fq6_split(*c, inputs, a@, a0@, a1@, a2@);
                let xa = fq6_val(*c, inputs, a@);
                let y0v = fq2_val(*c, inputs, b0@);
                let y1v = fq2_val(*c, inputs, b1@);
                assert(fq2_val(s0, inputs, a0@) == xa.0);
                assert(fq2_val(s0, inputs, b0@) == y0v);
                lemma_fq2_vals_reduced(xa.0, y0v);
                assert(fq2_val(s0, inputs, v0@) == fq2_mul_vals(fq2_val(s0, inputs, a0@), fq2_val(s0, inputs, b0@)));
                assert(fq2_val(*c, inputs, v0@) == fq2_mul_vals(xa.0, y0v));
                assert(fq2_val(s1, inputs, a1@) == xa.1);
                assert(fq2_val(s1, inputs, b1@) == y1v);
                lemma_fq2_vals_reduced(xa.1, y1v);
                assert(fq2_val(s1, inputs, v1@) == fq2_mul_vals(fq2_val(s1, inputs, a1@), fq2_val(s1, inputs, b1@)));
                assert(fq2_val(*c, inputs, v1@) == fq2_mul_vals(xa.1, y1v));
                assert(fq2_val(s2, inputs, a1@) == xa.1);
                assert(fq2_val(s2, inputs, a2@) == xa.2);
                lemma_fq2_vals_reduced(xa.1, xa.2);
                assert(fq_coeff(s2, inputs, t1@, 0) == fq_add_val(fq_coeff(s2, inputs, a1@, 0), fq_coeff(s2, inputs, a2@, 0)));
                assert(fq_coeff(s2, inputs, t1@, 1) == fq_add_val(fq_coeff(s2, inputs, a1@, 1), fq_coeff(s2, inputs, a2@, 1)));
                assert(fq2_val(*c, inputs, t1@) == fq2_add_vals(xa.1, xa.2));
                assert(fq2_val(s3, inputs, t1@) == fq2_add_vals(xa.1, xa.2));
                assert(fq2_val(s3, inputs, b1@) == y1v);
                lemma_fq2_vals_reduced(fq2_add_vals(xa.1, xa.2), y1v);
                assert(fq2_val(s3, inputs, t2@) == fq2_mul_vals(fq2_val(s3, inputs, t1@), fq2_val(s3, inputs, b1@)));
                assert(fq2_val(*c, inputs, t2@) == fq2_mul_vals(fq2_add_vals(xa.1, xa.2), y1v));
                assert(fq2_val(s4, inputs, t2@) == fq2_mul_vals(fq2_add_vals(xa.1, xa.2), y1v));
                assert(fq2_val(s4, inputs, v1@) == fq2_mul_vals(xa.1, y1v));
                lemma_fq2_vals_reduced(fq2_mul_vals(fq2_add_vals(xa.1, xa.2), y1v), fq2_mul_vals(xa.1, y1v));
                assert(fq_coeff(s4, inputs, t3@, 0) == fq_sub_val(fq_coeff(s4, inputs, t2@, 0), fq_coeff(s4, inputs, v1@, 0)));
                assert(fq_coeff(s4, inputs, t3@, 1) == fq_sub_val(fq_coeff(s4, inputs, t2@, 1), fq_coeff(s4, inputs, v1@, 1)));
                assert(fq2_val(*c, inputs, t3@) == fq2_sub_vals(fq2_mul_vals(fq2_add_vals(xa.1, xa.2), y1v), fq2_mul_vals(xa.1, y1v)));
                assert(fq2_val(s5, inputs, t3@) == fq2_sub_vals(fq2_mul_vals(fq2_add_vals(xa.1, xa.2), y1v), fq2_mul_vals(xa.1, y1v)));
                lemma_fq2_vals_reduced(fq2_sub_vals(fq2_mul_vals(fq2_add_vals(xa.1, xa.2), y1v), fq2_mul_vals(xa.1, y1v)), fq2_sub_vals(fq2_mul_vals(fq2_add_vals(xa.1, xa.2), y1v), fq2_mul_vals(xa.1, y1v)));
                assert(fq2_val(s5, inputs, t4@) == fq2_nonres_vals(fq2_val(s5, inputs, t3@)));
                assert(fq2_val(*c, inputs, t4@) == fq2_nonres_vals(fq2_sub_vals(fq2_mul_vals(fq2_add_vals(xa.1, xa.2), y1v), fq2_mul_vals(xa.1, y1v))));
                assert(fq2_val(s6, inputs, t4@) == fq2_nonres_vals(fq2_sub_vals(fq2_mul_vals(fq2_add_vals(xa.1, xa.2), y1v), fq2_mul_vals(xa.1, y1v))));
                assert(fq2_val(s6, inputs, v0@) == fq2_mul_vals(xa.0, y0v));
                lemma_fq2_vals_reduced(fq2_nonres_vals(fq2_sub_vals(fq2_mul_vals(fq2_add_vals(xa.1, xa.2), y1v), fq2_mul_vals(xa.1, y1v))), fq2_mul_vals(xa.0, y0v));
                assert(fq_coeff(s6, inputs, r0@, 0) == fq_add_val(fq_coeff(s6, inputs, t4@, 0), fq_coeff(s6, inputs, v0@, 0)));
                assert(fq_coeff(s6, inputs, r0@, 1) == fq_add_val(fq_coeff(s6, inputs, t4@, 1), fq_coeff(s6, inputs, v0@, 1)));
                assert(fq2_val(*c, inputs, r0@) == fq2_add_vals(fq2_nonres_vals(fq2_sub_vals(fq2_mul_vals(fq2_add_vals(xa.1, xa.2), y1v), fq2_mul_vals(xa.1, y1v))), fq2_mul_vals(xa.0, y0v)));
                assert(fq2_val(s7, inputs, a0@) == xa.0);
                assert(fq2_val(s7, inputs, a1@) == xa.1);
                lemma_fq2_vals_reduced(xa.0, xa.1);
                assert(fq_coeff(s7, inputs, u1@, 0) == fq_add_val(fq_coeff(s7, inputs, a0@, 0), fq_coeff(s7, inputs, a1@, 0)));
                assert(fq_coeff(s7, inputs, u1@, 1) == fq_add_val(fq_coeff(s7, inputs, a0@, 1), fq_coeff(s7, inputs, a1@, 1)));
                assert(fq2_val(*c, inputs, u1@) == fq2_add_vals(xa.0, xa.1));
                assert(fq2_val(s8, inputs, b0@) == y0v);
                assert(fq2_val(s8, inputs, b1@) == y1v);
                lemma_fq2_vals_reduced(y0v, y1v);
                assert(fq_coeff(s8, inputs, ub@, 0) == fq_add_val(fq_coeff(s8, inputs, b0@, 0), fq_coeff(s8, inputs, b1@, 0)));
                assert(fq_coeff(s8, inputs, ub@, 1) == fq_add_val(fq_coeff(s8, inputs, b0@, 1), fq_coeff(s8, inputs, b1@, 1)));
                assert(fq2_val(*c, inputs, ub@) == fq2_add_vals(y0v, y1v));
                assert(fq2_val(s9, inputs, u1@) == fq2_add_vals(xa.0, xa.1));
                assert(fq2_val(s9, inputs, ub@) == fq2_add_vals(y0v, y1v));
                lemma_fq2_vals_reduced(fq2_add_vals(xa.0, xa.1), fq2_add_vals(y0v, y1v));
                assert(fq2_val(s9, inputs, u2@) == fq2_mul_vals(fq2_val(s9, inputs, u1@), fq2_val(s9, inputs, ub@)));
                assert(fq2_val(*c, inputs, u2@) == fq2_mul_vals(fq2_add_vals(xa.0, xa.1), fq2_add_vals(y0v, y1v)));
                assert(fq2_val(s10, inputs, u2@) == fq2_mul_vals(fq2_add_vals(xa.0, xa.1), fq2_add_vals(y0v, y1v)));
                assert(fq2_val(s10, inputs, v0@) == fq2_mul_vals(xa.0, y0v));
                lemma_fq2_vals_reduced(fq2_mul_vals(fq2_add_vals(xa.0, xa.1), fq2_add_vals(y0v, y1v)), fq2_mul_vals(xa.0, y0v));
                assert(fq_coeff(s10, inputs, u3@, 0) == fq_sub_val(fq_coeff(s10, inputs, u2@, 0), fq_coeff(s10, inputs, v0@, 0)));
                assert(fq_coeff(s10, inputs, u3@, 1) == fq_sub_val(fq_coeff(s10, inputs, u2@, 1), fq_coeff(s10, inputs, v0@, 1)));
                assert(fq2_val(*c, inputs, u3@) == fq2_sub_vals(fq2_mul_vals(fq2_add_vals(xa.0, xa.1), fq2_add_vals(y0v, y1v)), fq2_mul_vals(xa.0, y0v)));
                assert(fq2_val(s11, inputs, u3@) == fq2_sub_vals(fq2_mul_vals(fq2_add_vals(xa.0, xa.1), fq2_add_vals(y0v, y1v)), fq2_mul_vals(xa.0, y0v)));
                assert(fq2_val(s11, inputs, v1@) == fq2_mul_vals(xa.1, y1v));
                lemma_fq2_vals_reduced(fq2_sub_vals(fq2_mul_vals(fq2_add_vals(xa.0, xa.1), fq2_add_vals(y0v, y1v)), fq2_mul_vals(xa.0, y0v)), fq2_mul_vals(xa.1, y1v));
                assert(fq_coeff(s11, inputs, r1@, 0) == fq_sub_val(fq_coeff(s11, inputs, u3@, 0), fq_coeff(s11, inputs, v1@, 0)));
                assert(fq_coeff(s11, inputs, r1@, 1) == fq_sub_val(fq_coeff(s11, inputs, u3@, 1), fq_coeff(s11, inputs, v1@, 1)));
                assert(fq2_val(*c, inputs, r1@) == fq2_sub_vals(fq2_sub_vals(fq2_mul_vals(fq2_add_vals(xa.0, xa.1), fq2_add_vals(y0v, y1v)), fq2_mul_vals(xa.0, y0v)), fq2_mul_vals(xa.1, y1v)));
                assert(fq2_val(s12, inputs, a0@) == xa.0);
                assert(fq2_val(s12, inputs, a2@) == xa.2);
                lemma_fq2_vals_reduced(xa.0, xa.2);
                assert(fq_coeff(s12, inputs, w1@, 0) == fq_add_val(fq_coeff(s12, inputs, a0@, 0), fq_coeff(s12, inputs, a2@, 0)));
                assert(fq_coeff(s12, inputs, w1@, 1) == fq_add_val(fq_coeff(s12, inputs, a0@, 1), fq_coeff(s12, inputs, a2@, 1)));
                assert(fq2_val(*c, inputs, w1@) == fq2_add_vals(xa.0, xa.2));
                assert(fq2_val(s13, inputs, w1@) == fq2_add_vals(xa.0, xa.2));
                assert(fq2_val(s13, inputs, b0@) == y0v);
                lemma_fq2_vals_reduced(fq2_add_vals(xa.0, xa.2), y0v);
                assert(fq2_val(s13, inputs, w2@) == fq2_mul_vals(fq2_val(s13, inputs, w1@), fq2_val(s13, inputs, b0@)));
                assert(fq2_val(*c, inputs, w2@) == fq2_mul_vals(fq2_add_vals(xa.0, xa.2), y0v));
                assert(fq2_val(s14, inputs, w2@) == fq2_mul_vals(fq2_add_vals(xa.0, xa.2), y0v));
                assert(fq2_val(s14, inputs, v0@) == fq2_mul_vals(xa.0, y0v));
                lemma_fq2_vals_reduced(fq2_mul_vals(fq2_add_vals(xa.0, xa.2), y0v), fq2_mul_vals(xa.0, y0v));
                assert(fq_coeff(s14, inputs, w3@, 0) == fq_sub_val(fq_coeff(s14, inputs, w2@, 0), fq_coeff(s14, inputs, v0@, 0)));
                assert(fq_coeff(s14, inputs, w3@, 1) == fq_sub_val(fq_coeff(s14, inputs, w2@, 1), fq_coeff(s14, inputs, v0@, 1)));
                assert(fq2_val(*c, inputs, w3@) == fq2_sub_vals(fq2_mul_vals(fq2_add_vals(xa.0, xa.2), y0v), fq2_mul_vals(xa.0, y0v)));
                assert(fq2_val(s15, inputs, w3@) == fq2_sub_vals(fq2_mul_vals(fq2_add_vals(xa.0, xa.2), y0v), fq2_mul_vals(xa.0, y0v)));
                assert(fq2_val(s15, inputs, v1@) == fq2_mul_vals(xa.1, y1v));
                lemma_fq2_vals_reduced(fq2_sub_vals(fq2_mul_vals(fq2_add_vals(xa.0, xa.2), y0v), fq2_mul_vals(xa.0, y0v)), fq2_mul_vals(xa.1, y1v));
                assert(fq_coeff(s15, inputs, r2@, 0) == fq_add_val(fq_coeff(s15, inputs, w3@, 0), fq_coeff(s15, inputs, v1@, 0)));
                assert(fq_coeff(s15, inputs, r2@, 1) == fq_add_val(fq_coeff(s15, inputs, w3@, 1), fq_coeff(s15, inputs, v1@, 1)));
                assert(fq2_val(*c, inputs, r2@) == fq2_add_vals(fq2_sub_vals(fq2_mul_vals(fq2_add_vals(xa.0, xa.2), y0v), fq2_mul_vals(xa.0, y0v)), fq2_mul_vals(xa.1, y1v)));
                lemma_fq6_assemble(*c, inputs, r0@, r1@, r2@, out@);
            }
        }
        out
    }

    /// Schoolbook product against a constant given as 1524 bits:
    /// `c0 = a0 k0 + xi (a1 k2 + a2 k1)`, `c1 = a0 k1 + a1 k0 + xi (a2 k2)`,
    /// `c2 = a0 k2 + a1 k1 + a2 k0`.
    #[verifier::rlimit(100)]
    pub fn mul_by_constant(c: &mut Circuit, a: &Wires, k: &Vec<bool>) -> (out: Wires)
        requires
            old(c).wf(),
            a@.len() == 1524,
            k@.len() == 1524,
            wires_in(a@, old(c).n_wires()),
            old(c).n_wires() + 48000000 <= usize::MAX,
        ensures
            final(c).wf(),
            final(c).extends(*old(c)),
            final(c).n_wires() <= old(c).n_wires() + 48000000,
            out@.len() == 1524,
            wires_in(out@, final(c).n_wires()),
            forall|inputs: Seq<bool>|
                fq6_reduced(fq6_val(*final(c), inputs, a@)) ==> #[trigger] fq6_val(
                    *final(c),
                    inputs,
                    out@,
                ) == fq6_mul_const_vals(fq6_val(*final(c), inputs, a@), fq6_const_val(k@)),
    {
        let a0 = subwires(a, 0, 508);
        let a1 = subwires(a, 508, 508);
        let a2 = subwires(a, 1016, 508);
        let mut k0: Vec<bool> = Vec::new();
        let mut k1: Vec<bool> = Vec::new();
        let mut k2: Vec<bool> = Vec::new();
        let mut i: usize = 0;
        while i < 508
            invariant
                k@.len() == 1524,
                i <= 508,
                k0@.len() == i,
                k1@.len() == i,
                k2@.len() == i,
                forall|j: int| 0 <= j < i ==> #[trigger] k0@[j] == k@[j],
                forall|j: int| 0 <= j < i ==> #[trigger] k1@[j] == k@[508 + j],
                forall|j: int| 0 <= j < i ==> #[trigger] k2@[j] == k@[1016 + j],
            decreases 508 - i,
        {
            k0.push(k[i]);
            k1.push(k[508 + i]);
            k2.push(k[1016 + i]);
            i += 1;
        }
        proof {
            assert(k0@.subrange(0, 254) =~= k@.subrange(0, 254));
            assert(k0@.subrange(254, 508) =~= k@.subrange(254, 508));
            assert(k1@.subrange(0, 254) =~= k@.subrange(508, 762));
            assert(k1@.subrange(254, 508) =~= k@.subrange(762, 1016));
            assert(k2@.subrange(0, 254) =~= k@.subrange(1016, 1270));
            assert(k2@.subrange(254, 508) =~= k@.subrange(1270, 1524));
        }
        let m00 = Fq2::mul_by_constant(c, &a0, &k0);
        let ghost s0 = *c;
        let m12 = Fq2::mul_by_constant(c, &a1, &k2);
        let ghost s1 = *c;
        let m21 = Fq2::mul_by_constant(c, &a2, &k1);
        let ghost s2 = *c;
        let u0a = Fq2::add(c, &m12, &m21);
        let ghost s3 = *c;
        let u0b = Fq2::mul_by_nonresidue(c, &u0a);
        let ghost s4 = *c;
        let r0 = Fq2::add(c, &m00, &u0b);
        let ghost s5 = *c;
        let m01 = Fq2::mul_by_constant(c, &a0, &k1);
        let ghost s6 = *c;
        let m10 = Fq2::mul_by_constant(c, &a1, &k0);
        let ghost s7 = *c;
        let m22 = Fq2::mul_by_constant(c, &a2, &k2);
        let ghost s8 = *c;
        let u1a = Fq2::mul_by_nonresidue(c, &m22);
        let ghost s9 = *c;
        let u1b = Fq2::add(c, &m01, &u1a);
        let ghost s10 = *c;
        let r1 = Fq2::add(c, &u1b, &m10);
        let ghost s11 = *c;
        let m02 = Fq2::mul_by_constant(c, &a0, &k2);
        let ghost s12 = *c;
        let m11 = Fq2::mul_by_constant(c, &a1, &k1);
        let ghost s13 = *c;
        let m20 = Fq2::mul_by_constant(c, &a2, &k0);
        let ghost s14 = *c;
        let u2a = Fq2::add(c, &m02, &m11);
        let ghost s15 = *c;
        let r2 = Fq2::add(c, &u2a, &m20);
        let ghost s16 = *c;
        let lo = concat_wires(&r0, &r1);
        let out = concat_wires(&lo, &r2);
        proof {
            crate::circuit::lemma_extends_refl(*c);
            assert forall|inputs: Seq<bool>|
                fq6_reduced(fq6_val(*c, inputs, a@)) implies #[trigger] fq6_val(
                *c,
                inputs,
                out@,
            ) == fq6_mul_const_vals(fq6_val(*c, inputs, a@), fq6_const_val(k@)) by {
                lemma_wire_vals_extends(s0, *c, inputs, m00@);
                lemma_wire_vals_extends(s0, *c, inputs, a0@);
                lemma_wire_vals_extends(s1, *c, inputs, m12@);
                lemma_wire_vals_extends(s1, *c, inputs, a1@);
                lemma_wire_vals_extends(s2, *c, inputs, m21@);
                lemma_wire_vals_extends(s2, *c, inputs, a2@);
                lemma_wire_vals_extends(s3, *c, inputs, u0a@);
                lemma_wire_vals_extends(s3, *c, inputs, m12@);
                lemma_wire_vals_extends(s3, *c, inputs, m21@);
                lemma_wire_vals_extends(s4, *c, inputs, u0b@);
                lemma_wire_vals_extends(s4, *c, inputs, u0a@);
                lemma_wire_vals_extends(s5, *c, inputs, r0@);
                lemma_wire_vals_extends(s5, *c, inputs, m00@);
                lemma_wire_vals_extends(s5, *c, inputs, u0b@);
                lemma_wire_vals_extends(s6, *c, inputs, m01@);
                lemma_wire_vals_extends(s6, *c, inputs, a0@);
                lemma_wire_vals_extends(s7, *c, inputs, m10@);
                lemma_wire_vals_extends(s7, *c, inputs, a1@);
                lemma_wire_vals_extends(s8, *c, inputs, m22@);
                lemma_wire_vals_extends(s8, *c, inputs, a2@);
                lemma_wire_vals_extends(s9, *c, inputs, u1a@);
                lemma_wire_vals_extends(s9, *c, inputs, m22@);
                lemma_wire_vals_extends(s10, *c, inputs, u1b@);
                lemma_wire_vals_extends(s10, *c, inputs, m01@);
                lemma_wire_vals_extends(s10, *c, inputs, u1a@);
                lemma_wire_vals_extends(s11, *c, inputs, r1@);
                lemma_wire_vals_extends(s11, *c, inputs, u1b@);
                lemma_wire_vals_extends(s11, *c, inputs, m10@);
                lemma_wire_vals_extends(s12, *c, inputs, m02@);
                lemma_wire_vals_extends(s12, *c, inputs, a0@);
                lemma_wire_vals_extends(s13, *c, inputs, m11@);
                lemma_wire_vals_extends(s13, *c, inputs, a1@);
                lemma_wire_vals_extends(s14, *c, inputs, m20@);
                lemma_wire_vals_extends(s14, *c, inputs, a2@);
                lemma_wire_vals_extends(s15, *c, inputs, u2a@);
                lemma_wire_vals_extends(s15, *c, inputs, m02@);
                lemma_wire_vals_extends(s15, *c, inputs, m11@);
                lemma_wire_vals_extends(s16, *c, inputs, r2@);
                lemma_wire_vals_extends(s16, *c, inputs, u2a@);
                lemma_wire_vals_extends(s16, *c, inputs, m20@);
                lemma_fq6_split(*c, inputs, a@, a0@, a1@, a2@);
                let xa = fq6_val(*c, inputs, a@);
                let kk = fq6_const_val(k@);
                assert(fq2_const_val(k0@) == kk.0);
                assert(fq2_const_val(k1@) == kk.1);
                assert(fq2_const_val(k2@) == kk.2);
                assert(fq2_val(s0, inputs, a0@) == xa.0);
                lemma_fq2_vals_reduced(xa.0, xa.0);
                assert(fq2_val(s0, inputs, m00@) == fq2_mul_const_vals(fq2_val(s0, inputs, a0@), fq2_const_val(k0@)));
                assert(fq2_val(*c, inputs, m00@) == fq2_mul_const_vals(xa.0, kk.0));
                assert(fq2_val(s1, inputs, a1@) == xa.1);
                lemma_fq2_vals_reduced(xa.1, xa.1);
                assert(fq2_val(s1, inputs, m12@) == fq2_mul_const_vals(fq2_val(s1, inputs, a1@), fq2_const_val(k2@)));
                assert(fq2_val(*c, inputs, m12@) == fq2_mul_const_vals(xa.1, kk.2));
                assert(fq2_val(s2, inputs, a2@) == xa.2);
                lemma_fq2_vals_reduced(xa.2, xa.2);
                assert(fq2_val(s2, inputs, m21@) == fq2_mul_const_vals(fq2_val(s2, inputs, a2@), fq2_const_val(k1@)));
                assert(fq2_val(*c, inputs, m21@) == fq2_mul_const_vals(xa.2, kk.1));
                assert(fq2_val(s3, inputs, m12@) == fq2_mul_const_vals(xa.1, kk.2));
                assert(fq2_val(s3, inputs, m21@) == fq2_mul_const_vals(xa.2, kk.1));
                lemma_fq2_vals_reduced(fq2_mul_const_vals(xa.1, kk.2), fq2_mul_const_vals(xa.2, kk.1));
                assert(fq_coeff(s3, inputs, u0a@, 0) == fq_add_val(fq_coeff(s3, inputs, m12@, 0), fq_coeff(s3, inputs, m21@, 0)));
                assert(fq_coeff(s3, inputs, u0a@, 1) == fq_add_val(fq_coeff(s3, inputs, m12@, 1), fq_coeff(s3, inputs, m21@, 1)));
                assert(fq2_val(*c, inputs, u0a@) == fq2_add_vals(fq2_mul_const_vals(xa.1, kk.2), fq2_mul_const_vals(xa.2, kk.1)));
                assert(fq2_val(s4, inputs, u0a@) == fq2_add_vals(fq2_mul_const_vals(xa.1, kk.2), fq2_mul_const_vals(xa.2, kk.1)));
                lemma_fq2_vals_reduced(fq2_add_vals(fq2_mul_const_vals(xa.1, kk.2), fq2_mul_const_vals(xa.2, kk.1)), fq2_add_vals(fq2_mul_const_vals(xa.1, kk.2), fq2_mul_const_vals(xa.2, kk.1)));
                assert(fq2_val(s4, inputs, u0b@) == fq2_nonres_vals(fq2_val(s4, inputs, u0a@)));
                assert(fq2_val(*c, inputs, u0b@) == fq2_nonres_vals(fq2_add_vals(fq2_mul_const_vals(xa.1, kk.2), fq2_mul_const_vals(xa.2, kk.1))));
                assert(fq2_val(s5, inputs, m00@) == fq2_mul_const_vals(xa.0, kk.0));
                assert(fq2_val(s5, inputs, u0b@) == fq2_nonres_vals(fq2_add_vals(fq2_mul_const_vals(xa.1, kk.2), fq2_mul_const_vals(xa.2, kk.1))));
                lemma_fq2_vals_reduced(fq2_mul_const_vals(xa.0, kk.0), fq2_nonres_vals(fq2_add_vals(fq2_mul_const_vals(xa.1, kk.2), fq2_mul_const_vals(xa.2, kk.1))));
                assert(fq_coeff(s5, inputs, r0@, 0) == fq_add_val(fq_coeff(s5, inputs, m00@, 0), fq_coeff(s5, inputs, u0b@, 0)));
                assert(fq_coeff(s5, inputs, r0@, 1) == fq_add_val(fq_coeff(s5, inputs, m00@, 1), fq_coeff(s5, inputs, u0b@, 1)));
                assert(fq2_val(*c, inputs, r0@) == fq2_add_vals(fq2_mul_const_vals(xa.0, kk.0), fq2_nonres_vals(fq2_add_vals(fq2_mul_const_vals(xa.1, kk.2), fq2_mul_const_vals(xa.2, kk.1)))));
                assert(fq2_val(s6, inputs, a0@) == xa.0);
                lemma_fq2_vals_reduced(xa.0, xa.0);
                assert(fq2_val(s6, inputs, m01@) == fq2_mul_const_vals(fq2_val(s6, inputs, a0@), fq2_const_val(k1@)));
                assert(fq2_val(*c, inputs, m01@) == fq2_mul_const_vals(xa.0, kk.1));
                assert(fq2_val(s7, inputs, a1@) == xa.1);
                lemma_fq2_vals_reduced(xa.1, xa.1);
                assert(fq2_val(s7, inputs, m10@) == fq2_mul_const_vals(fq2_val(s7, inputs, a1@), fq2_const_val(k0@)));
                assert(fq2_val(*c, inputs, m10@) == fq2_mul_const_vals(xa.1, kk.0));
                assert(fq2_val(s8, inputs, a2@) == xa.2);
                lemma_fq2_vals_reduced(xa.2, xa.2);
                assert(fq2_val(s8, inputs, m22@) == fq2_mul_const_vals(fq2_val(s8, inputs, a2@), fq2_const_val(k2@)));
                assert(fq2_val(*c, inputs, m22@) == fq2_mul_const_vals(xa.2, kk.2));
                assert(fq2_val(s9, inputs, m22@) == fq2_mul_const_vals(xa.2, kk.2));
                lemma_fq2_vals_reduced(fq2_mul_const_vals(xa.2, kk.2), fq2_mul_const_vals(xa.2, kk.2));
                assert(fq2_val(s9, inputs, u1a@) == fq2_nonres_vals(fq2_val(s9, inputs, m22@)));
                assert(fq2_val(*c, inputs, u1a@) == fq2_nonres_vals(fq2_mul_const_vals(xa.2, kk.2)));
                assert(fq2_val(s10, inputs, m01@) == fq2_mul_const_vals(xa.0, kk.1));
                assert(fq2_val(s10, inputs, u1a@) == fq2_nonres_vals(fq2_mul_const_vals(xa.2, kk.2)));
                lemma_fq2_vals_reduced(fq2_mul_const_vals(xa.0, kk.1), fq2_nonres_vals(fq2_mul_const_vals(xa.2, kk.2)));
                assert(fq_coeff(s10, inputs, u1b@, 0) == fq_add_val(fq_coeff(s10, inputs, m01@, 0), fq_coeff(s10, inputs, u1a@, 0)));
                assert(fq_coeff(s10, inputs, u1b@, 1) == fq_add_val(fq_coeff(s10, inputs, m01@, 1), fq_coeff(s10, inputs, u1a@, 1)));
                assert(fq2_val(*c, inputs, u1b@) == fq2_add_vals(fq2_mul_const_vals(xa.0, kk.1), fq2_nonres_vals(fq2_mul_const_vals(xa.2, kk.2))));
                assert(fq2_val(s11, inputs, u1b@) == fq2_add_vals(fq2_mul_const_vals(xa.0, kk.1), fq2_nonres_vals(fq2_mul_const_vals(xa.2, kk.2))));
                assert(fq2_val(s11, inputs, m10@) == fq2_mul_const_vals(xa.1, kk.0));
                lemma_fq2_vals_reduced(fq2_add_vals(fq2_mul_const_vals(xa.0, kk.1), fq2_nonres_vals(fq2_mul_const_vals(xa.2, kk.2))), fq2_mul_const_vals(xa.1, kk.0));
                assert(fq_coeff(s11, inputs, r1@, 0) == fq_add_val(fq_coeff(s11, inputs, u1b@, 0), fq_coeff(s11, inputs, m10@, 0)));
                assert(fq_coeff(s11, inputs, r1@, 1) == fq_add_val(fq_coeff(s11, inputs, u1b@, 1), fq_coeff(s11, inputs, m10@, 1)));
                assert(fq2_val(*c, inputs, r1@) == fq2_add_vals(fq2_add_vals(fq2_mul_const_vals(xa.0, kk.1), fq2_nonres_vals(fq2_mul_const_vals(xa.2, kk.2))), fq2_mul_const_vals(xa.1, kk.0)));
                assert(fq2_val(s12, inputs, a0@) == xa.0);
                lemma_fq2_vals_reduced(xa.0, xa.0);
                assert(fq2_val(s12, inputs, m02@) == fq2_mul_const_vals(fq2_val(s12, inputs, a0@), fq2_const_val(k2@)));
                assert(fq2_val(*c, inputs, m02@) == fq2_mul_const_vals(xa.0, kk.2));
                assert(fq2_val(s13, inputs, a1@) == xa.1);
                lemma_fq2_vals_reduced(xa.1, xa.1);
                assert(fq2_val(s13, inputs, m11@) == fq2_mul_const_vals(fq2_val(s13, inputs, a1@), fq2_const_val(k1@)));
                assert(fq2_val(*c, inputs, m11@) == fq2_mul_const_vals(xa.1, kk.1));
                assert(fq2_val(s14, inputs, a2@) == xa.2);
                lemma_fq2_vals_reduced(xa.2, xa.2);
                assert(fq2_val(s14, inputs, m20@) == fq2_mul_const_vals(fq2_val(s14, inputs, a2@), fq2_const_val(k0@)));
                assert(fq2_val(*c, inputs, m20@) == fq2_mul_const_vals(xa.2, kk.0));
                assert(fq2_val(s15, inputs, m02@) == fq2_mul_const_vals(xa.0, kk.2));
                assert(fq2_val(s15, inputs, m11@) == fq2_mul_const_vals(xa.1, kk.1));
                lemma_fq2_vals_reduced(fq2_mul_const_vals(xa.0, kk.2), fq2_mul_const_vals(xa.1, kk.1));
                assert(fq_coeff(s15, inputs, u2a@, 0) == fq_add_val(fq_coeff(s15, inputs, m02@, 0), fq_coeff(s15, inputs, m11@, 0)));
                assert(fq_coeff(s15, inputs, u2a@, 1) == fq_add_val(fq_coeff(s15, inputs, m02@, 1), fq_coeff(s15, inputs, m11@, 1)));
                assert(fq2_val(*c, inputs, u2a@) == fq2_add_vals(fq2_mul_const_vals(xa.0, kk.2), fq2_mul_const_vals(xa.1, kk.1)));
                assert(fq2_val(s16, inputs, u2a@) == fq2_add_vals(fq2_mul_const_vals(xa.0, kk.2), fq2_mul_const_vals(xa.1, kk.1)));
                assert(fq2_val(s16, inputs, m20@) == fq2_mul_const_vals(xa.2, kk.0));
                lemma_fq2_vals_reduced(fq2_add_vals(fq2_mul_const_vals(xa.0, kk.2), fq2_mul_const_vals(xa.1, kk.1)), fq2_mul_const_vals(xa.2, kk.0));
                assert(fq_coeff(s16, inputs, r2@, 0) == fq_add_val(fq_coeff(s16, inputs, u2a@, 0), fq_coeff(s16, inputs, m20@, 0)));
                assert(fq_coeff(s16, inputs, r2@, 1) == fq_add_val(fq_coeff(s16, inputs, u2a@, 1), fq_coeff(s16, inputs, m20@, 1)));
                assert(fq2_val(*c, inputs, r2@) == fq2_add_vals(fq2_add_vals(fq2_mul_const_vals(xa.0, kk.2), fq2_mul_const_vals(xa.1, kk.1)), fq2_mul_const_vals(xa.2, kk.0)));
                lemma_fq6_assemble(*c, inputs, r0@, r1@, r2@, out@);
            }
        }
        out
    }

    /// Product against an `Fq2` constant given as 508 bits, applied to each
    /// of the three coordinates.
    pub fn mul_by_constant_fq2(c: &mut Circuit, a: &Wires, k: &Vec<bool>) -> (out: Wires)
        requires
            old(c).wf(),
            a@.len() == 1524,
            k@.len() == 508,
            wires_in(a@, old(c).n_wires()),
            old(c).n_wires() + 16000000 <= usize::MAX,
        ensures
            final(c).wf(),
            final(c).extends(*old(c)),
            final(c).n_wires() <= old(c).n_wires() + 16000000,
            out@.len() == 1524,
            wires_in(out@, final(c).n_wires()),
            forall|inputs: Seq<bool>|
                fq6_reduced(fq6_val(*final(c), inputs, a@)) ==> #[trigger] fq6_val(
                    *final(c),
                    inputs,
                    out@,
                ) == fq6_mul_const_fq2_vals(fq6_val(*final(c), inputs, a@), fq2_const_val(k@)),
    {
        let a0 = subwires(a, 0, 508);
        let a1 = subwires(a, 508, 508);
        let a2 = subwires(a, 1016, 508);
        let r0 = Fq2::mul_by_constant(c, &a0, k);
        let ghost c1 = *c;
        let r1 = Fq2::mul_by_constant(c, &a1, k);
        let ghost c2 = *c;
        let r2 = Fq2::mul_by_constant(c, &a2, k);
        let lo = concat_wires(&r0, &r1);
        let out = concat_wires(&lo, &r2);
        proof {
            assert forall|inputs: Seq<bool>|
                fq6_reduced(fq6_val(*c, inputs, a@)) implies #[trigger] fq6_val(
                *c,
                inputs,
                out@,
            ) == fq6_mul_const_fq2_vals(fq6_val(*c, inputs, a@), fq2_const_val(k@)) by {
                lemma_wire_vals_extends(c1, *c, inputs, r0@);
                lemma_wire_vals_extends(c1, *c, inputs, a0@);
                lemma_wire_vals_extends(c2, *c, inputs, r1@);
                lemma_wire_vals_extends(c2, *c, inputs, a1@);
                lemma_fq6_split(*c, inputs, a@, a0@, a1@, a2@);
                let xa = fq6_val(*c, inputs, a@);
                assert(fq2_val(c1, inputs, a0@) == xa.0);
                assert(fq2_val(c1, inputs, r0@) == fq2_mul_const_vals(xa.0, fq2_const_val(k@)));
                assert(fq2_val(*c, inputs, r0@) == fq2_mul_const_vals(xa.0, fq2_const_val(k@)));
                assert(fq2_val(c2, inputs, a1@) == xa.1);
                assert(fq2_val(c2, inputs, r1@) == fq2_mul_const_vals(xa.1, fq2_const_val(k@)));
                assert(fq2_val(*c, inputs, r1@) == fq2_mul_const_vals(xa.1, fq2_const_val(k@)));
                assert(fq2_val(*c, inputs, a2@) == xa.2);
                assert(fq2_val(*c, inputs, r2@) == fq2_mul_const_vals(xa.2, fq2_const_val(k@)));
                lemma_fq6_assemble(*c, inputs, r0@, r1@, r2@, out@);
            }
        }
        out
    }

    /// The `i`-th power of the Frobenius map: componentwise `Fq2` Frobenius,
    /// then the `c1` and `c2` coordinates are multiplied by the coefficients
    /// sourced from the BN254 library.
    pub fn frobenius(c: &mut Circuit, a: &Wires, i: usize) -> (out: Wires)
        requires
            old(c).wf(),
            a@.len() == 1524,
            wires_in(a@, old(c).n_wires()),
            old(c).n_wires() + 11000000 <= usize::MAX,
        ensures
            final(c).wf(),
            final(c).extends(*old(c)),
            final(c).n_wires() <= old(c).n_wires() + 11000000,
            out@.len() == 1524,
            wires_in(out@, final(c).n_wires()),
            forall|inputs: Seq<bool>|
                fq6_reduced(fq6_val(*final(c), inputs, a@)) ==> #[trigger] fq6_val(
                    *final(c),
                    inputs,
                    out@,
                ) == fq6_frob_vals(fq6_val(*final(c), inputs, a@), i as int),
    {
        let a0 = subwires(a, 0, 508);
        let a1 = subwires(a, 508, 508);
        let a2 = subwires(a, 1016, 508);
        let r0 = Fq2::frobenius(c, &a0, i);
        let ghost c1 = *c;
        let f1 = Fq2::frobenius(c, &a1, i);
        let ghost c2 = *c;
        let f2 = Fq2::frobenius(c, &a2, i);
        let ghost c3 = *c;
        let k1 = fq6_frob_c1_bits(i);
        let k2 = fq6_frob_c2_bits(i);
        let r1 = Fq2::mul_by_constant(c, &f1, &k1);
        let ghost c4 = *c;
        let r2 = Fq2::mul_by_constant(c, &f2, &k2);
        let lo = concat_wires(&r0, &r1);
        let out = concat_wires(&lo, &r2);
        proof {
            assert forall|inputs: Seq<bool>|
                fq6_reduced(fq6_val(*c, inputs, a@)) implies #[trigger] fq6_val(
                *c,
                inputs,
                out@,
            ) == fq6_frob_vals(fq6_val(*c, inputs, a@), i as int) by {
                lemma_wire_vals_extends(c1, *c, inputs, r0@);
                lemma_wire_vals_extends(c1, *c, inputs, a0@);
                lemma_wire_vals_extends(c2, *c, inputs, f1@);
                lemma_wire_vals_extends(c2, *c, inputs, a1@);
                lemma_wire_vals_extends(c3, *c, inputs, f2@);
                lemma_wire_vals_extends(c3, *c, inputs, a2@);
                lemma_wire_vals_extends(c4, *c, inputs, r1@);
                lemma_wire_vals_extends(c4, *c, inputs, f1@);
                lemma_fq6_split(*c, inputs, a@, a0@, a1@, a2@);
                let xa = fq6_val(*c, inputs, a@);
                assert(fq2_val(c1, inputs, a0@) == xa.0);
                assert(fq2_val(c1, inputs, r0@) == fq2_frob_vals(xa.0, i as int));
                assert(fq2_val(*c, inputs, r0@) == fq2_frob_vals(xa.0, i as int));
                assert(fq2_val(c2, inputs, a1@) == xa.1);
                assert(fq2_val(c2, inputs, f1@) == fq2_frob_vals(xa.1, i as int));
                assert(fq2_val(c3, inputs, a2@) == xa.2);
                assert(fq2_val(c3, inputs, f2@) == fq2_frob_vals(xa.2, i as int));
                lemma_fq2_frob_reduced(xa.1, i as int);
                lemma_fq2_frob_reduced(xa.2, i as int);
                assert(fq2_val(c4, inputs, f1@) == fq2_frob_vals(xa.1, i as int));
                assert(fq2_val(c4, inputs, r1@) == fq2_mul_const_vals(
                    fq2_frob_vals(xa.1, i as int),
                    fq2_const_val(k1@),
                ));
                assert(fq2_val(*c, inputs, r1@) == fq2_mul_const_vals(
                    fq2_frob_vals(xa.1, i as int),
                    fq6_frob_c1_val((i as int) % 6),
                ));
                assert(fq2_val(*c, inputs, f2@) == fq2_frob_vals(xa.2, i as int));
                assert(fq2_val(*c, inputs, r2@) == fq2_mul_const_vals(
                    fq2_frob_vals(xa.2, i as int),
                    fq6_frob_c2_val((i as int) % 6),
                ));
                lemma_fq6_assemble(*c, inputs, r0@, r1@, r2@, out@);
            }
        }
        out
    }
}

} // verus!
