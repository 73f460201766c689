//! Big-integer circuits, parametric in the bit width and instantiated at 254
//! bits: ripple-carry addition and the comparison/selection builders.
//!
//! Operands are little-endian wire vectors of length exactly `N_BITS`.  Each
//! builder appends its gates to the circuit under construction and returns
//! the wires that carry its result; the contracts relate the values those
//! wires take, for every assignment of the circuit's input wires, to the
//! numeric values of the operands.

use vstd::prelude::*;
use vstd::arithmetic::power2::{pow2, lemma_pow2_unfold};

verus! {

use crate::GateKind;
use crate::circuit::{
    Circuit, Wires, gate_eval, wire_val, wire_vals, wires_in, lemma_wire_val_extends,
    lemma_wire_vals_extends, lemma_extends_trans, lemma_extends_refl,
};
use crate::bits::{bits_value, lemma_bits_value_snoc, lemma_pow2_zero};

/// The big-integer circuit builders at width `N_BITS`.
pub struct BigIntImpl<const N_BITS: usize>;

/// The width used throughout this crate: the 254-bit operands of BN254.
pub type U254 = BigIntImpl<254>;

/// Numeric reading of a bit, used by the adder invariants.
pub open spec fn bit_int(b: bool) -> int {
    if b {
        1int
    } else {
        0int
    }
}

impl<const N_BITS: usize> BigIntImpl<N_BITS> {
    /// Ripple-carry adder: `N_BITS + 1` result wires; the low `N_BITS` carry
    /// the sum modulo `pow2(N_BITS)` and the top wire is the carry-out, so
    /// the whole vector denotes exactly `a + b`.
    pub fn add(c: &mut Circuit, a: &Wires, b: &Wires) -> (out: Wires)
        requires
            old(c).wf(),
            N_BITS >= 1,
            a@.len() == N_BITS,
            b@.len() == N_BITS,
            wires_in(a@, old(c).n_wires()),
            wires_in(b@, old(c).n_wires()),
            old(c).n_wires() + 5 * (N_BITS as int) + 1 <= usize::MAX,
        ensures
            final(c).wf(),
            final(c).extends(*old(c)),
            final(c).n_wires() <= old(c).n_wires() + 5 * (N_BITS as int) + 1,
            out@.len() == N_BITS + 1,
            wires_in(out@, final(c).n_wires()),
            forall|inputs: Seq<bool>| #[trigger] bits_value(wire_vals(*final(c), inputs, out@))
                == bits_value(wire_vals(*final(c), inputs, a@)) + bits_value(
                wire_vals(*final(c), inputs, b@),
            ),
    {
        let mut out: Wires = Vec::new();
        let mut carry: usize = c.emit_false(a[0]);
        proof {
            lemma_pow2_zero();
        }
        let mut i: usize = 0;
        while i < N_BITS
            invariant
                c.wf(),
                c.extends(*old(c)),
                N_BITS >= 1,
                a@.len() == N_BITS,
                b@.len() == N_BITS,
                wires_in(a@, old(c).n_wires()),
                wires_in(b@, old(c).n_wires()),
                old(c).n_wires() + 5 * (N_BITS as int) + 1 <= usize::MAX,
                i <= N_BITS,
                out@.len() == i,
                wires_in(out@, c.n_wires()),
                (carry as int) < c.n_wires(),
                old(c).n_wires() <= c.n_wires(),
                c.n_wires() <= old(c).n_wires() + 1 + 5 * (i as int),
                forall|inputs: Seq<bool>| #[trigger] bits_value(wire_vals(*c, inputs, out@))
                    + pow2(i as nat) * bit_int(wire_val(*c, inputs, carry as int)) == bits_value(
                    wire_vals(*c, inputs, a@).take(i as int),
                ) + bits_value(wire_vals(*c, inputs, b@).take(i as int)),
            decreases N_BITS - i,
        {
            let ghost cp = *c;
            let ghost carry_prev = carry;
            let ghost out_prev = out@;
            let ai = a[i];
            let bi = b[i];
            let t1 = c.emit(GateKind::Xor, ai, bi);
            let ghost c1 = *c;
            let s = c.emit(GateKind::Xor, t1, carry);
            let ghost c2 = *c;
            let t2 = c.emit(GateKind::And, ai, bi);
            let ghost c3 = *c;
            let t3 = c.emit(GateKind::And, carry, t1);
            let ghost c4 = *c;
            let ncarry = c.emit(GateKind::Xor, t2, t3);
            out.push(s);
            carry = ncarry;
            proof {
                lemma_extends_trans(cp, c1, c2);
                lemma_extends_trans(cp, c2, c3);
                lemma_extends_trans(cp, c3, c4);
                lemma_extends_trans(cp, c4, *c);
                lemma_extends_trans(c1, c2, c3);
                lemma_extends_trans(c1, c3, c4);
                lemma_extends_trans(c1, c4, *c);
                lemma_extends_trans(c2, c3, c4);
                lemma_extends_trans(c2, c4, *c);
                lemma_extends_trans(c3, c4, *c);
                lemma_extends_trans(*old(c), cp, *c);
                lemma_pow2_unfold((i + 1) as nat);
                assert forall|inputs: Seq<bool>| #[trigger] bits_value(
                    wire_vals(*c, inputs, out@),
                ) + pow2((i + 1) as nat) * bit_int(wire_val(*c, inputs, carry as int))
                    == bits_value(wire_vals(*c, inputs, a@).take(i + 1)) + bits_value(
                    wire_vals(*c, inputs, b@).take(i + 1),
                ) by {
                    // values of the five fresh gates under the final circuit
                    assert(wire_val(c1, inputs, t1 as int) == gate_eval(
                        GateKind::Xor,
                        wire_val(c1, inputs, ai as int),
                        wire_val(c1, inputs, bi as int),
                    ));
                    assert(wire_val(c2, inputs, s as int) == gate_eval(
                        GateKind::Xor,
                        wire_val(c2, inputs, t1 as int),
                        wire_val(c2, inputs, carry_prev as int),
                    ));
                    assert(wire_val(c3, inputs, t2 as int) == gate_eval(
                        GateKind::And,
                        wire_val(c3, inputs, ai as int),
                        wire_val(c3, inputs, bi as int),
                    ));
                    assert(wire_val(c4, inputs, t3 as int) == gate_eval(
                        GateKind::And,
                        wire_val(c4, inputs, carry_prev as int),
                        wire_val(c4, inputs, t1 as int),
                    ));
                    assert(wire_val(*c, inputs, ncarry as int) == gate_eval(
                        GateKind::Xor,
                        wire_val(*c, inputs, t2 as int),
                        wire_val(*c, inputs, t3 as int),
                    ));
                    // carry every wire mentioned over to the final circuit state
                    lemma_wire_val_extends(c1, *c, inputs, t1 as int);
                    lemma_wire_val_extends(c2, *c, inputs, s as int);
                    lemma_wire_val_extends(c3, *c, inputs, t2 as int);
                    lemma_wire_val_extends(c4, *c, inputs, t3 as int);
                    lemma_wire_val_extends(c1, *c, inputs, ai as int);
                    lemma_wire_val_extends(c1, *c, inputs, bi as int);
                    lemma_wire_val_extends(c2, *c, inputs, t1 as int);
                    lemma_wire_val_extends(c2, *c, inputs, carry_prev as int);
                    lemma_wire_val_extends(c3, *c, inputs, ai as int);
                    lemma_wire_val_extends(c3, *c, inputs, bi as int);
                    lemma_wire_val_extends(c4, *c, inputs, carry_prev as int);
                    lemma_wire_val_extends(c4, *c, inputs, t1 as int);
                    lemma_wire_val_extends(cp, *c, inputs, ai as int);
                    lemma_wire_val_extends(cp, *c, inputs, bi as int);
                    lemma_wire_val_extends(cp, *c, inputs, carry_prev as int);
                    lemma_wire_vals_extends(cp, *c, inputs, a@);
                    lemma_wire_vals_extends(cp, *c, inputs, b@);
                    lemma_wire_vals_extends(cp, *c, inputs, out_prev);
                    // the single-bit adder identity
                    let x = wire_val(*c, inputs, ai as int);
                    let y = wire_val(*c, inputs, bi as int);
                    let ci = wire_val(*c, inputs, carry_prev as int);
                    let sv = wire_val(*c, inputs, s as int);
                    let cv = wire_val(*c, inputs, carry as int);
                    assert(bit_int(sv) + 2 * bit_int(cv) == bit_int(x) + bit_int(y) + bit_int(
                        ci,
                    ));
                    // extend the three prefixes by one position
                    assert(wire_vals(*c, inputs, out@) =~= wire_vals(*c, inputs, out_prev).push(
                        sv,
                    ));
                    lemma_bits_value_snoc(wire_vals(*c, inputs, out_prev), sv);
                    assert(wire_vals(*c, inputs, a@).take(i + 1) =~= wire_vals(
                        *c,
                        inputs,
                        a@,
                    ).take(i as int).push(x));
                    lemma_bits_value_snoc(wire_vals(*c, inputs, a@).take(i as int), x);
                    assert(wire_vals(*c, inputs, b@).take(i + 1) =~= wire_vals(
                        *c,
                        inputs,
                        b@,
                    ).take(i as int).push(y));
                    lemma_bits_value_snoc(wire_vals(*c, inputs, b@).take(i as int), y);
                    // the invariant for the previous prefix, under the final state
                    assert(bits_value(wire_vals(cp, inputs, out_prev)) + pow2(i as nat) * bit_int(
                        wire_val(cp, inputs, carry_prev as int),
                    ) == bits_value(wire_vals(cp, inputs, a@).take(i as int)) + bits_value(
                        wire_vals(cp, inputs, b@).take(i as int),
                    ));
                    assert(pow2(i as nat) * bit_int(sv) + pow2((i + 1) as nat) * bit_int(cv)
                        == pow2(i as nat) * bit_int(x) + pow2(i as nat) * bit_int(y) + pow2(
                        i as nat,
                    ) * bit_int(ci)) by (nonlinear_arith)
                        requires
                            pow2((i + 1) as nat) == 2 * pow2(i as nat),
                            bit_int(sv) + 2 * bit_int(cv) == bit_int(x) + bit_int(y) + bit_int(
                                ci,
                            ),
                    ;
                }
            }
            i += 1;
        }
        let ghost cfin = *c;
        let ghost out_prev = out@;
        out.push(carry);
        proof {
            assert forall|inputs: Seq<bool>| #[trigger] bits_value(wire_vals(*c, inputs, out@))
                == bits_value(wire_vals(*c, inputs, a@)) + bits_value(
                wire_vals(*c, inputs, b@),
            ) by {
                assert(wire_vals(*c, inputs, a@).take(N_BITS as int) =~= wire_vals(
                    *c,
                    inputs,
                    a@,
                ));
                assert(wire_vals(*c, inputs, b@).take(N_BITS as int) =~= wire_vals(
                    *c,
                    inputs,
                    b@,
                ));
                assert(wire_vals(*c, inputs, out@) =~= wire_vals(*c, inputs, out_prev).push(
                    wire_val(*c, inputs, carry as int),
                ));
                lemma_bits_value_snoc(
                    wire_vals(*c, inputs, out_prev),
                    wire_val(*c, inputs, carry as int),
                );
            }
        }
        out
    }

    /// Ripple-carry addition of a known constant, given as its little-endian
    /// bits: `N_BITS + 1` result wires denoting exactly `a + k`.
    pub fn add_constant(c: &mut Circuit, a: &Wires, k: &Vec<bool>) -> (out: Wires)
        requires
            old(c).wf(),
            N_BITS >= 1,
            a@.len() == N_BITS,
            k@.len() == N_BITS,
            wires_in(a@, old(c).n_wires()),
            old(c).n_wires() + 4 * (N_BITS as int) + 1 <= usize::MAX,
        ensures
            final(c).wf(),
            final(c).extends(*old(c)),
            final(c).n_wires() <= old(c).n_wires() + 4 * (N_BITS as int) + 1,
            out@.len() == N_BITS + 1,
            wires_in(out@, final(c).n_wires()),
            forall|inputs: Seq<bool>| #[trigger] bits_value(wire_vals(*final(c), inputs, out@))
                == bits_value(wire_vals(*final(c), inputs, a@)) + bits_value(k@),
    {
        let mut out: Wires = Vec::new();
        let mut carry: usize = c.emit_false(a[0]);
        proof {
            lemma_pow2_zero();
        }
        let mut i: usize = 0;
        while i < N_BITS
            invariant
                c.wf(),
                c.extends(*old(c)),
                N_BITS >= 1,
                a@.len() == N_BITS,
                k@.len() == N_BITS,
                wires_in(a@, old(c).n_wires()),
                old(c).n_wires() + 4 * (N_BITS as int) + 1 <= usize::MAX,
                i <= N_BITS,
                out@.len() == i,
                wires_in(out@, c.n_wires()),
                (carry as int) < c.n_wires(),
                old(c).n_wires() <= c.n_wires(),
                c.n_wires() <= old(c).n_wires() + 1 + 4 * (i as int),
                forall|inputs: Seq<bool>| #[trigger] bits_value(wire_vals(*c, inputs, out@))
                    + pow2(i as nat) * bit_int(wire_val(*c, inputs, carry as int)) == bits_value(
                    wire_vals(*c, inputs, a@).take(i as int),
                ) + bits_value(k@.take(i as int)),
            decreases N_BITS - i,
        {
            let ghost cp = *c;
            let ghost carry_prev = carry;
            let ghost out_prev = out@;
            let ai = a[i];
            let t1 = c.emit(GateKind::Xor, ai, carry);
            let ghost c1 = *c;
            let t2 = c.emit(GateKind::And, ai, carry);
            let ghost c2 = *c;
            let s: usize;
            let ncarry: usize;
            if k[i] {
                s = c.emit(GateKind::Not, t1, t1);
                let ghost cn = *c;
                ncarry = c.emit(GateKind::Xor, t1, t2);
                proof {
                    lemma_extends_trans(c2, cn, *c);
                    assert forall|inputs: Seq<bool>| #[trigger] wire_val(*c, inputs, s as int)
                        == gate_eval(
                        GateKind::Not,
                        wire_val(*c, inputs, t1 as int),
                        wire_val(*c, inputs, t1 as int),
                    ) by {
                        assert(wire_val(cn, inputs, s as int) == gate_eval(
                            GateKind::Not,
                            wire_val(cn, inputs, t1 as int),
                            wire_val(cn, inputs, t1 as int),
                        ));
                        lemma_wire_val_extends(cn, *c, inputs, s as int);
                        lemma_wire_val_extends(cn, *c, inputs, t1 as int);
                    }
                }
            } else {
                s = t1;
                ncarry = t2;
                proof {
                    lemma_extends_refl(*c);
                }
            }
            out.push(s);
            carry = ncarry;
            proof {
                let ghost c3 = *c;
                lemma_extends_trans(cp, c1, c2);
                lemma_extends_trans(cp, c2, c3);
                lemma_extends_trans(c1, c2, c3);
                lemma_extends_trans(*old(c), cp, c3);
                lemma_pow2_unfold((i + 1) as nat);
                assert forall|inputs: Seq<bool>| #[trigger] bits_value(
                    wire_vals(*c, inputs, out@),
                ) + pow2((i + 1) as nat) * bit_int(wire_val(*c, inputs, carry as int))
                    == bits_value(wire_vals(*c, inputs, a@).take(i + 1)) + bits_value(
                    k@.take(i + 1),
                ) by {
                    assert(wire_val(c1, inputs, t1 as int) == gate_eval(
                        GateKind::Xor,
                        wire_val(c1, inputs, ai as int),
                        wire_val(c1, inputs, carry_prev as int),
                    ));
                    assert(wire_val(c2, inputs, t2 as int) == gate_eval(
                        GateKind::And,
                        wire_val(c2, inputs, ai as int),
                        wire_val(c2, inputs, carry_prev as int),
                    ));
                    lemma_wire_val_extends(c1, *c, inputs, t1 as int);
                    lemma_wire_val_extends(c2, *c, inputs, t2 as int);
                    lemma_wire_val_extends(c1, *c, inputs, ai as int);
                    lemma_wire_val_extends(c1, *c, inputs, carry_prev as int);
                    lemma_wire_val_extends(c2, *c, inputs, ai as int);
                    lemma_wire_val_extends(c2, *c, inputs, carry_prev as int);
                    lemma_wire_val_extends(cp, *c, inputs, ai as int);
                    lemma_wire_val_extends(cp, *c, inputs, carry_prev as int);
                    lemma_wire_vals_extends(cp, *c, inputs, a@);
                    lemma_wire_vals_extends(cp, *c, inputs, out_prev);
                    if k@[i as int] {
                        assert(wire_val(*c, inputs, s as int) == gate_eval(
                            GateKind::Not,
                            wire_val(*c, inputs, t1 as int),
                            wire_val(*c, inputs, t1 as int),
                        ));
                        assert(wire_val(*c, inputs, carry as int) == gate_eval(
                            GateKind::Xor,
                            wire_val(*c, inputs, t1 as int),
                            wire_val(*c, inputs, t2 as int),
                        ));
                    }
                    let x = wire_val(*c, inputs, ai as int);
                    let ci = wire_val(*c, inputs, carry_prev as int);
                    let sv = wire_val(*c, inputs, s as int);
                    let cv = wire_val(*c, inputs, carry as int);
                    assert(bit_int(sv) + 2 * bit_int(cv) == bit_int(x) + bit_int(ci) + bit_int(
                        k@[i as int],
                    ));
                    assert(wire_vals(*c, inputs, out@) =~= wire_vals(*c, inputs, out_prev).push(
                        sv,
                    ));
                    lemma_bits_value_snoc(wire_vals(*c, inputs, out_prev), sv);
                    assert(wire_vals(*c, inputs, a@).take(i + 1) =~= wire_vals(
                        *c,
                        inputs,
                        a@,
                    ).take(i as int).push(x));
                    lemma_bits_value_snoc(wire_vals(*c, inputs, a@).take(i as int), x);
                    assert(k@.take(i + 1) =~= k@.take(i as int).push(k@[i as int]));
                    lemma_bits_value_snoc(k@.take(i as int), k@[i as int]);
                    assert(bits_value(wire_vals(cp, inputs, out_prev)) + pow2(i as nat) * bit_int(
                        wire_val(cp, inputs, carry_prev as int),
                    ) == bits_value(wire_vals(cp, inputs, a@).take(i as int)) + bits_value(
                        k@.take(i as int),
                    ));
                    assert(pow2(i as nat) * bit_int(sv) + pow2((i + 1) as nat) * bit_int(cv)
                        == pow2(i as nat) * bit_int(x) + pow2(i as nat) * bit_int(ci) + pow2(
                        i as nat,
                    ) * bit_int(k@[i as int])) by (nonlinear_arith)
                        requires
                            pow2((i + 1) as nat) == 2 * pow2(i as nat),
                            bit_int(sv) + 2 * bit_int(cv) == bit_int(x) + bit_int(ci) + bit_int(
                                k@[i as int],
                            ),
                    ;
                }
            }
            i += 1;
        }
        let ghost out_prev = out@;
        out.push(carry);
        proof {
            assert forall|inputs: Seq<bool>| #[trigger] bits_value(wire_vals(*c, inputs, out@))
                == bits_value(wire_vals(*c, inputs, a@)) + bits_value(k@) by {
                assert(wire_vals(*c, inputs, a@).take(N_BITS as int) =~= wire_vals(
                    *c,
                    inputs,
                    a@,
                ));
                assert(k@.take(N_BITS as int) =~= k@);
                assert(wire_vals(*c, inputs, out@) =~= wire_vals(*c, inputs, out_prev).push(
                    wire_val(*c, inputs, carry as int),
                ));
                lemma_bits_value_snoc(
                    wire_vals(*c, inputs, out_prev),
                    wire_val(*c, inputs, carry as int),
                );
            }
        }
        out
    }
}

} // verus!
