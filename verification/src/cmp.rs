//! Comparison and selection circuits over `N_BITS`-bit operands.
//!
//! Each builder appends gates to the circuit under construction and returns
//! the wires carrying its result; the contracts state, for every assignment
//! of the circuit's input wires, the exact Boolean or numeric result.

use vstd::prelude::*;
use vstd::arithmetic::power2::pow2;

verus! {

use crate::GateKind;
use crate::circuit::{
    Circuit, Gate, Wires, count_kind, gate_eval, wire_val, wire_vals, wires_in,
    lemma_wire_val_extends, lemma_wire_vals_extends, lemma_extends_trans, lemma_extends_refl,
    lemma_count_kind_push, lemma_count_kind_concat,
};
use crate::bits::{
    bits_value, bits_xor, lemma_bits_value_zero, lemma_bits_value_injective,
    lemma_bits_xor_value_zero, lemma_bits_value_complement, lemma_bits_value_split,
    lemma_bits_value_bound, lemma_bits_value_single,
};
use crate::bigint::{BigIntImpl, bit_int};

/// Whether the first `n` positions of two bit vectors agree.
pub open spec fn bits_eq_prefix(x: Seq<bool>, y: Seq<bool>, n: int) -> bool {
    forall|j: int| 0 <= j < n ==> #[trigger] x[j] == y[j]
}

/// One-bit multiplexer: the result wire carries `a` when `s` is set, else
/// `b`.  Lowered as `b XOR (s AND (a XOR b))`.
pub fn selector(c: &mut Circuit, a: usize, b: usize, s: usize) -> (out: usize)
    requires
        old(c).wf(),
        a < old(c).n_wires(),
        b < old(c).n_wires(),
        s < old(c).n_wires(),
        old(c).n_wires() + 3 <= usize::MAX,
    ensures
        final(c).wf(),
        final(c).extends(*old(c)),
        final(c).n_wires() <= old(c).n_wires() + 3,
        (out as int) < final(c).n_wires(),
        final(c).gates@.len() == old(c).gates@.len() + 3,
        count_kind(final(c).gates@.skip(old(c).gates@.len() as int), GateKind::And) == 1,
        count_kind(final(c).gates@.skip(old(c).gates@.len() as int), GateKind::Xor) == 2,
        count_kind(final(c).gates@.skip(old(c).gates@.len() as int), GateKind::Not) == 0,
        forall|inputs: Seq<bool>| #[trigger] wire_val(*final(c), inputs, out as int) == (if
            wire_val(*final(c), inputs, s as int) {
            wire_val(*final(c), inputs, a as int)
        } else {
            wire_val(*final(c), inputs, b as int)
        }),
{
    let ghost cp = *c;
    let t1 = c.emit(GateKind::Xor, a, b);
    let ghost c1 = *c;
    let t2 = c.emit(GateKind::And, s, t1);
    let ghost c2 = *c;
    let out = c.emit(GateKind::Xor, t2, b);
    proof {
        lemma_extends_trans(cp, c1, c2);
        lemma_extends_trans(cp, c2, *c);
        lemma_extends_trans(c1, c2, *c);
        let ghost base = cp.gates@.len() as int;
        let ghost g1 = c1.gates@.last();
        let ghost g2 = c2.gates@.last();
        let ghost g3 = c.gates@.last();
        assert(c1.gates@.skip(base) =~= Seq::<Gate>::empty().push(g1));
        assert(c2.gates@.skip(base) =~= c1.gates@.skip(base).push(g2));
        assert(c.gates@.skip(base) =~= c2.gates@.skip(base).push(g3));
        lemma_count_kind_push(Seq::<Gate>::empty(), g1, GateKind::And);
        lemma_count_kind_push(Seq::<Gate>::empty(), g1, GateKind::Xor);
        lemma_count_kind_push(Seq::<Gate>::empty(), g1, GateKind::Not);
        lemma_count_kind_push(c1.gates@.skip(base), g2, GateKind::And);
        lemma_count_kind_push(c1.gates@.skip(base), g2, GateKind::Xor);
        lemma_count_kind_push(c1.gates@.skip(base), g2, GateKind::Not);
        lemma_count_kind_push(c2.gates@.skip(base), g3, GateKind::And);
        lemma_count_kind_push(c2.gates@.skip(base), g3, GateKind::Xor);
        lemma_count_kind_push(c2.gates@.skip(base), g3, GateKind::Not);
        assert forall|inputs: Seq<bool>| #[trigger] wire_val(*c, inputs, out as int) == (if
            wire_val(*c, inputs, s as int) {
            wire_val(*c, inputs, a as int)
        } else {
            wire_val(*c, inputs, b as int)
        }) by {
            assert(wire_val(c1, inputs, t1 as int) == gate_eval(
                GateKind::Xor,
                wire_val(c1, inputs, a as int),
                wire_val(c1, inputs, b as int),
            ));
            assert(wire_val(c2, inputs, t2 as int) == gate_eval(
                GateKind::And,
                wire_val(c2, inputs, s as int),
                wire_val(c2, inputs, t1 as int),
            ));
            assert(wire_val(*c, inputs, out as int) == gate_eval(
                GateKind::Xor,
                wire_val(*c, inputs, t2 as int),
                wire_val(*c, inputs, b as int),
            ));
            lemma_wire_val_extends(c1, *c, inputs, t1 as int);
            lemma_wire_val_extends(c2, *c, inputs, t2 as int);
            lemma_wire_val_extends(c1, *c, inputs, a as int);
            lemma_wire_val_extends(c1, *c, inputs, b as int);
            lemma_wire_val_extends(c2, *c, inputs, s as int);
            lemma_wire_val_extends(c2, *c, inputs, t1 as int);
        }
    }
    out
}

impl<const N_BITS: usize> BigIntImpl<N_BITS> {
    /// One result wire carrying whether the operand equals the constant `k`,
    /// given as its little-endian bits: a left-associated AND chain over the
    /// per-position literals (`a_i` where `k_i` is set, `NOT a_i` elsewhere).
    pub fn equal_constant(c: &mut Circuit, a: &Wires, k: &Vec<bool>) -> (out: Wires)
        requires
            old(c).wf(),
            N_BITS >= 1,
            a@.len() == N_BITS,
            k@.len() == N_BITS,
            wires_in(a@, old(c).n_wires()),
            old(c).n_wires() + 2 * (N_BITS as int) <= usize::MAX,
        ensures
            final(c).wf(),
            final(c).extends(*old(c)),
            final(c).n_wires() <= old(c).n_wires() + 2 * (N_BITS as int),
            out@.len() == 1,
            wires_in(out@, final(c).n_wires()),
            forall|inputs: Seq<bool>| #[trigger] wire_val(*final(c), inputs, out@[0] as int) == (
            bits_value(wire_vals(*final(c), inputs, a@)) == bits_value(k@)),
    {
        let mut acc: usize;
        if k[0] {
            acc = a[0];
            proof {
                lemma_extends_refl(*c);
            }
        } else {
            acc = c.emit(GateKind::Not, a[0], a[0]);
        }
        let ghost c0 = *c;
        proof {
            assert forall|inputs: Seq<bool>| #[trigger] wire_val(*c, inputs, acc as int)
                == bits_eq_prefix(wire_vals(*c, inputs, a@), k@, 1) by {
                if !k@[0] {
                    assert(wire_val(*c, inputs, acc as int) == gate_eval(
                        GateKind::Not,
                        wire_val(*c, inputs, a@[0] as int),
                        wire_val(*c, inputs, a@[0] as int),
                    ));
                }
                assert(wire_vals(*c, inputs, a@)[0] == wire_val(*c, inputs, a@[0] as int));
                if wire_vals(*c, inputs, a@)[0] == k@[0] {
                    assert(bits_eq_prefix(wire_vals(*c, inputs, a@), k@, 1));
                }
            }
        }
        let mut i: usize = 1;
        while i < N_BITS
            invariant
                c.wf(),
                c.extends(*old(c)),
                N_BITS >= 1,
                a@.len() == N_BITS,
                k@.len() == N_BITS,
                wires_in(a@, old(c).n_wires()),
                old(c).n_wires() + 2 * (N_BITS as int) <= usize::MAX,
                1 <= i <= N_BITS,
                (acc as int) < c.n_wires(),
                old(c).n_wires() <= c.n_wires(),
                c.n_wires() <= old(c).n_wires() + 2 * (i as int),
                forall|inputs: Seq<bool>| #[trigger] wire_val(*c, inputs, acc as int)
                    == bits_eq_prefix(wire_vals(*c, inputs, a@), k@, i as int),
            decreases N_BITS - i,
        {
            let ghost cp = *c;
            let ghost acc_prev = acc;
            let lit: usize;
            if k[i] {
                lit = a[i];
                proof {
                    lemma_extends_refl(*c);
                }
            } else {
                lit = c.emit(GateKind::Not, a[i], a[i]);
            }
            let ghost c1 = *c;
            acc = c.emit(GateKind::And, acc, lit);
            proof {
                lemma_extends_trans(cp, c1, *c);
                lemma_extends_trans(*old(c), cp, *c);
                assert forall|inputs: Seq<bool>| #[trigger] wire_val(*c, inputs, acc as int)
                    == bits_eq_prefix(wire_vals(*c, inputs, a@), k@, i + 1) by {
                    assert(wire_val(*c, inputs, acc as int) == gate_eval(
                        GateKind::And,
                        wire_val(*c, inputs, acc_prev as int),
                        wire_val(*c, inputs, lit as int),
                    ));
                    lemma_wire_val_extends(cp, *c, inputs, acc_prev as int);
                    lemma_wire_val_extends(cp, *c, inputs, a@[i as int] as int);
                    lemma_wire_vals_extends(cp, *c, inputs, a@);
                    if !k@[i as int] {
                        assert(wire_val(c1, inputs, lit as int) == gate_eval(
                            GateKind::Not,
                            wire_val(c1, inputs, a@[i as int] as int),
                            wire_val(c1, inputs, a@[i as int] as int),
                        ));
                        lemma_wire_val_extends(c1, *c, inputs, lit as int);
                        lemma_wire_val_extends(cp, c1, inputs, a@[i as int] as int);
                    }
                    let x = wire_vals(*c, inputs, a@);
                    assert(x[i as int] == wire_val(*c, inputs, a@[i as int] as int));
                    assert(wire_val(*c, inputs, lit as int) == (x[i as int] == k@[i as int]));
                    let xi = x[i as int];
                    assert(bits_eq_prefix(x, k@, i + 1) == (bits_eq_prefix(x, k@, i as int)
                        && xi == k@[i as int])) by {
                        if bits_eq_prefix(x, k@, i as int) && x[i as int] == k@[i as int] {
                            assert forall|j: int|
                                0 <= j < i + 1 implies #[trigger] x[j] == k@[j] by {}
                        }
                    }
                }
            }
            i += 1;
        }
        let mut out: Wires = Vec::new();
        out.push(acc);
        proof {
            assert forall|inputs: Seq<bool>| #[trigger] wire_val(*c, inputs, out@[0] as int) == (
            bits_value(wire_vals(*c, inputs, a@)) == bits_value(k@)) by {
                let x = wire_vals(*c, inputs, a@);
                if bits_eq_prefix(x, k@, N_BITS as int) {
                    assert(x =~= k@);
                }
                if bits_value(x) == bits_value(k@) {
                    lemma_bits_value_injective(x, k@);
                    assert(bits_eq_prefix(x, k@, N_BITS as int));
                }
            }
        }
        out
    }

    /// One result wire carrying whether the two operands are equal: per-bit
    /// XOR followed by an equality-with-zero test over the xor vector.
    pub fn equal(c: &mut Circuit, a: &Wires, b: &Wires) -> (out: Wires)
        requires
            old(c).wf(),
            N_BITS >= 1,
            a@.len() == N_BITS,
            b@.len() == N_BITS,
            wires_in(a@, old(c).n_wires()),
            wires_in(b@, old(c).n_wires()),
            old(c).n_wires() + 3 * (N_BITS as int) <= usize::MAX,
        ensures
            final(c).wf(),
            final(c).extends(*old(c)),
            final(c).n_wires() <= old(c).n_wires() + 3 * (N_BITS as int),
            out@.len() == 1,
            wires_in(out@, final(c).n_wires()),
            forall|inputs: Seq<bool>| #[trigger] wire_val(*final(c), inputs, out@[0] as int) == (
            bits_value(wire_vals(*final(c), inputs, a@)) == bits_value(
                wire_vals(*final(c), inputs, b@),
            )),
    {
        let mut xors: Wires = Vec::new();
        let mut zeros: Vec<bool> = Vec::new();
        proof {
            lemma_extends_refl(*c);
        }
        let mut i: usize = 0;
        while i < N_BITS
            invariant
                c.wf(),
                c.extends(*old(c)),
                N_BITS >= 1,
                a@.len() == N_BITS,
                b@.len() == N_BITS,
                wires_in(a@, old(c).n_wires()),
                wires_in(b@, old(c).n_wires()),
                old(c).n_wires() + 3 * (N_BITS as int) <= usize::MAX,
                i <= N_BITS,
                xors@.len() == i,
                zeros@.len() == i,
                forall|j: int| 0 <= j < i ==> !(#[trigger] zeros@[j]),
                wires_in(xors@, c.n_wires()),
                old(c).n_wires() <= c.n_wires(),
                c.n_wires() <= old(c).n_wires() + (i as int),
                forall|inputs: Seq<bool>| #[trigger] wire_vals(*c, inputs, xors@) == bits_xor(
                    wire_vals(*c, inputs, a@),
                    wire_vals(*c, inputs, b@),
                ).take(i as int),
            decreases N_BITS - i,
        {
            let ghost cp = *c;
            let ghost xors_prev = xors@;
            let w = c.emit(GateKind::Xor, a[i], b[i]);
            xors.push(w);
            zeros.push(false);
            proof {
                lemma_extends_trans(*old(c), cp, *c);
                assert forall|inputs: Seq<bool>| #[trigger] wire_vals(*c, inputs, xors@)
                    == bits_xor(wire_vals(*c, inputs, a@), wire_vals(*c, inputs, b@)).take(
                    i + 1,
                ) by {
                    assert(wire_val(*c, inputs, w as int) == gate_eval(
                        GateKind::Xor,
                        wire_val(*c, inputs, a@[i as int] as int),
                        wire_val(*c, inputs, b@[i as int] as int),
                    ));
                    lemma_wire_vals_extends(cp, *c, inputs, a@);
                    lemma_wire_vals_extends(cp, *c, inputs, b@);
                    lemma_wire_vals_extends(cp, *c, inputs, xors_prev);
                    let xa = wire_vals(*c, inputs, a@);
                    let xb = wire_vals(*c, inputs, b@);
                    assert(xa[i as int] == wire_val(*c, inputs, a@[i as int] as int));
                    assert(xb[i as int] == wire_val(*c, inputs, b@[i as int] as int));
                    assert(wire_vals(*c, inputs, xors@) =~= wire_vals(*c, inputs, xors_prev).push(
                        wire_val(*c, inputs, w as int),
                    ));
                    assert(bits_xor(xa, xb).take(i + 1) =~= bits_xor(xa, xb).take(i as int).push(
                        bits_xor(xa, xb)[i as int],
                    ));
                }
            }
            i += 1;
        }
        let ghost cx = *c;
        let out = Self::equal_constant(c, &xors, &zeros);
        proof {
            lemma_extends_trans(*old(c), cx, *c);
            lemma_bits_value_zero(zeros@);
            assert forall|inputs: Seq<bool>| #[trigger] wire_val(*c, inputs, out@[0] as int) == (
            bits_value(wire_vals(*c, inputs, a@)) == bits_value(
                wire_vals(*c, inputs, b@),
            )) by {
                lemma_wire_vals_extends(cx, *c, inputs, a@);
                lemma_wire_vals_extends(cx, *c, inputs, b@);
                lemma_wire_vals_extends(cx, *c, inputs, xors@);
                let xa = wire_vals(*c, inputs, a@);
                let xb = wire_vals(*c, inputs, b@);
                assert(bits_xor(xa, xb).take(N_BITS as int) =~= bits_xor(xa, xb));
                assert(wire_vals(*c, inputs, xors@) == bits_xor(xa, xb));
                lemma_bits_xor_value_zero(xa, xb);
                if xa == xb {
                    assert(bits_value(xa) == bits_value(xb));
                }
                if bits_value(xa) == bits_value(xb) {
                    lemma_bits_value_injective(xa, xb);
                }
            }
        }
        out
    }

    /// One result wire carrying whether `a > b`, lowered through the
    /// two's-complement identity: `a > b` iff `a + NOT b` produces a
    /// carry-out, since `NOT b` denotes `pow2(N_BITS) - 1 - b`.
    #[verifier::rlimit(40)]
    pub fn greater_than(c: &mut Circuit, a: &Wires, b: &Wires) -> (out: Wires)
        requires
            old(c).wf(),
            N_BITS >= 1,
            a@.len() == N_BITS,
            b@.len() == N_BITS,
            wires_in(a@, old(c).n_wires()),
            wires_in(b@, old(c).n_wires()),
            old(c).n_wires() + 6 * (N_BITS as int) + 1 <= usize::MAX,
        ensures
            final(c).wf(),
            final(c).extends(*old(c)),
            final(c).n_wires() <= old(c).n_wires() + 6 * (N_BITS as int) + 1,
            out@.len() == 1,
            wires_in(out@, final(c).n_wires()),
            forall|inputs: Seq<bool>| #[trigger] wire_val(*final(c), inputs, out@[0] as int) == (
            bits_value(wire_vals(*final(c), inputs, a@)) > bits_value(
                wire_vals(*final(c), inputs, b@),
            )),
    {
        let mut not_b: Wires = Vec::new();
        proof {
            lemma_extends_refl(*c);
        }
        let mut i: usize = 0;
        while i < N_BITS
            invariant
                c.wf(),
                c.extends(*old(c)),
                N_BITS >= 1,
                b@.len() == N_BITS,
                wires_in(b@, old(c).n_wires()),
                old(c).n_wires() + 6 * (N_BITS as int) + 1 <= usize::MAX,
                i <= N_BITS,
                not_b@.len() == i,
                wires_in(not_b@, c.n_wires()),
                old(c).n_wires() <= c.n_wires(),
                c.n_wires() <= old(c).n_wires() + (i as int),
                forall|inputs: Seq<bool>, j: int|
                    0 <= j < i ==> #[trigger] wire_val(*c, inputs, not_b@[j] as int) == !wire_val(
                        *c,
                        inputs,
                        b@[j] as int,
                    ),
            decreases N_BITS - i,
        {
            let ghost cp = *c;
            let ghost nb_prev = not_b@;
            let w = c.emit(GateKind::Not, b[i], b[i]);
            not_b.push(w);
            proof {
                lemma_extends_trans(*old(c), cp, *c);
                assert forall|inputs: Seq<bool>, j: int| 0 <= j < i + 1 implies #[trigger]
                    wire_val(*c, inputs, not_b@[j] as int) == !wire_val(
                    *c,
                    inputs,
                    b@[j] as int,
                ) by {
                    if j < i {
                        assert(wire_val(cp, inputs, nb_prev[j] as int) == !wire_val(
                            cp,
                            inputs,
                            b@[j] as int,
                        ));
                        lemma_wire_val_extends(cp, *c, inputs, nb_prev[j] as int);
                        lemma_wire_val_extends(cp, *c, inputs, b@[j] as int);
                        assert(not_b@[j] == nb_prev[j]);
                    } else {
                        assert(wire_val(*c, inputs, w as int) == gate_eval(
                            GateKind::Not,
                            wire_val(*c, inputs, b@[i as int] as int),
                            wire_val(*c, inputs, b@[i as int] as int),
                        ));
                    }
                }
            }
            i += 1;
        }
        let ghost cn = *c;
        let sum = Self::add(c, a, &not_b);
        let mut out: Wires = Vec::new();
        out.push(sum[N_BITS]);
        proof {
            lemma_extends_trans(*old(c), cn, *c);
            assert forall|inputs: Seq<bool>| #[trigger] wire_val(*c, inputs, out@[0] as int) == (
            bits_value(wire_vals(*c, inputs, a@)) > bits_value(
                wire_vals(*c, inputs, b@),
            )) by {
                lemma_wire_vals_extends(cn, *c, inputs, b@);
                lemma_wire_vals_extends(cn, *c, inputs, not_b@);
                let xb = wire_vals(*c, inputs, b@);
                let nb = wire_vals(*c, inputs, not_b@);
                assert forall|j: int| 0 <= j < N_BITS implies #[trigger] nb[j] == !xb[j] by {
                    lemma_wire_val_extends(cn, *c, inputs, not_b@[j] as int);
                    lemma_wire_val_extends(cn, *c, inputs, b@[j] as int);
                    assert(wire_val(cn, inputs, not_b@[j] as int) == !wire_val(
                        cn,
                        inputs,
                        b@[j] as int,
                    ));
                }
                lemma_bits_value_complement(xb, nb);
                let t = wire_vals(*c, inputs, sum@);
                lemma_bits_value_split(t, N_BITS as int);
                lemma_bits_value_bound(t.take(N_BITS as int));
                lemma_bits_value_single(t.skip(N_BITS as int));
                assert(t.skip(N_BITS as int)[0] == t[N_BITS as int]);
                assert(t[N_BITS as int] == wire_val(*c, inputs, out@[0] as int));
                let av = bits_value(wire_vals(*c, inputs, a@));
                let bvn = bits_value(xb);
                assert(bits_value(nb) == pow2(N_BITS as nat) - 1 - bvn);
                assert(bits_value(t) == av + bits_value(nb));
                let lo = bits_value(t.take(N_BITS as int));
                assert(bits_value(t) == lo + pow2(N_BITS as nat) * bit_int(t[N_BITS as int]));
                if t[N_BITS as int] {
                    assert(bits_value(t) == lo + pow2(N_BITS as nat));
                    assert(av > bvn);
                } else {
                    assert(bits_value(t) == lo);
                    assert(bits_value(t) < pow2(N_BITS as nat));
                    assert(!(av > bvn));
                }
            }
        }
        out
    }

    /// One result wire carrying whether `a < k` for a constant `k` given as
    /// its little-endian bits, lowered as the carry-out of `NOT a + k`.
    #[verifier::rlimit(40)]
    pub fn less_than_constant(c: &mut Circuit, a: &Wires, k: &Vec<bool>) -> (out: Wires)
        requires
            old(c).wf(),
            N_BITS >= 1,
            a@.len() == N_BITS,
            k@.len() == N_BITS,
            wires_in(a@, old(c).n_wires()),
            old(c).n_wires() + 5 * (N_BITS as int) + 1 <= usize::MAX,
        ensures
            final(c).wf(),
            final(c).extends(*old(c)),
            final(c).n_wires() <= old(c).n_wires() + 5 * (N_BITS as int) + 1,
            out@.len() == 1,
            wires_in(out@, final(c).n_wires()),
            forall|inputs: Seq<bool>| #[trigger] wire_val(*final(c), inputs, out@[0] as int) == (
            bits_value(wire_vals(*final(c), inputs, a@)) < bits_value(k@)),
    {
        let mut not_a: Wires = Vec::new();
        proof {
            lemma_extends_refl(*c);
        }
        let mut i: usize = 0;
        while i < N_BITS
            invariant
                c.wf(),
                c.extends(*old(c)),
                N_BITS >= 1,
                a@.len() == N_BITS,
                wires_in(a@, old(c).n_wires()),
                old(c).n_wires() + 5 * (N_BITS as int) + 1 <= usize::MAX,
                i <= N_BITS,
                not_a@.len() == i,
                wires_in(not_a@, c.n_wires()),
                old(c).n_wires() <= c.n_wires(),
                c.n_wires() <= old(c).n_wires() + (i as int),
                forall|inputs: Seq<bool>, j: int|
                    0 <= j < i ==> #[trigger] wire_val(*c, inputs, not_a@[j] as int) == !wire_val(
                        *c,
                        inputs,
                        a@[j] as int,
                    ),
            decreases N_BITS - i,
        {
            let ghost cp = *c;
            let ghost na_prev = not_a@;
            let w = c.emit(GateKind::Not, a[i], a[i]);
            not_a.push(w);
            proof {
                lemma_extends_trans(*old(c), cp, *c);
                assert forall|inputs: Seq<bool>, j: int| 0 <= j < i + 1 implies #[trigger]
                    wire_val(*c, inputs, not_a@[j] as int) == !wire_val(
                    *c,
                    inputs,
                    a@[j] as int,
                ) by {
                    if j < i {
                        assert(wire_val(cp, inputs, na_prev[j] as int) == !wire_val(
                            cp,
                            inputs,
                            a@[j] as int,
                        ));
                        lemma_wire_val_extends(cp, *c, inputs, na_prev[j] as int);
                        lemma_wire_val_extends(cp, *c, inputs, a@[j] as int);
                        assert(not_a@[j] == na_prev[j]);
                    } else {
                        assert(wire_val(*c, inputs, w as int) == gate_eval(
                            GateKind::Not,
                            wire_val(*c, inputs, a@[i as int] as int),
                            wire_val(*c, inputs, a@[i as int] as int),
                        ));
                    }
                }
            }
            i += 1;
        }
        let ghost cn = *c;
        let sum = Self::add_constant(c, &not_a, k);
        let mut out: Wires = Vec::new();
        out.push(sum[N_BITS]);
        proof {
            lemma_extends_trans(*old(c), cn, *c);
            assert forall|inputs: Seq<bool>| #[trigger] wire_val(*c, inputs, out@[0] as int) == (
            bits_value(wire_vals(*c, inputs, a@)) < bits_value(k@)) by {
                lemma_wire_vals_extends(cn, *c, inputs, a@);
                lemma_wire_vals_extends(cn, *c, inputs, not_a@);
                let xa = wire_vals(*c, inputs, a@);
                let na = wire_vals(*c, inputs, not_a@);
                assert forall|j: int| 0 <= j < N_BITS implies #[trigger] na[j] == !xa[j] by {
                    lemma_wire_val_extends(cn, *c, inputs, not_a@[j] as int);
                    lemma_wire_val_extends(cn, *c, inputs, a@[j] as int);
                    assert(wire_val(cn, inputs, not_a@[j] as int) == !wire_val(
                        cn,
                        inputs,
                        a@[j] as int,
                    ));
                }
                lemma_bits_value_complement(xa, na);
                let t = wire_vals(*c, inputs, sum@);
                lemma_bits_value_split(t, N_BITS as int);
                lemma_bits_value_bound(t.take(N_BITS as int));
                lemma_bits_value_single(t.skip(N_BITS as int));
                assert(t.skip(N_BITS as int)[0] == t[N_BITS as int]);
                assert(t[N_BITS as int] == wire_val(*c, inputs, out@[0] as int));
                let av = bits_value(xa);
                let kv = bits_value(k@);
                assert(bits_value(na) == pow2(N_BITS as nat) - 1 - av);
                assert(bits_value(t) == bits_value(na) + kv);
                let lo = bits_value(t.take(N_BITS as int));
                assert(bits_value(t) == lo + pow2(N_BITS as nat) * bit_int(t[N_BITS as int]));
                if t[N_BITS as int] {
                    assert(bits_value(t) == lo + pow2(N_BITS as nat));
                    assert(av < kv);
                } else {
                    assert(bits_value(t) == lo);
                    assert(bits_value(t) < pow2(N_BITS as nat));
                    assert(!(av < kv));
                }
            }
        }
        out
    }

    /// Bitwise multiplexer: `N_BITS` result wires carrying `a` when the
    /// select wire `s` is set, else `b`.
    pub fn select(c: &mut Circuit, a: &Wires, b: &Wires, s: usize) -> (out: Wires)
        requires
            old(c).wf(),
            a@.len() == N_BITS,
            b@.len() == N_BITS,
            wires_in(a@, old(c).n_wires()),
            wires_in(b@, old(c).n_wires()),
            (s as int) < old(c).n_wires(),
            old(c).n_wires() + 3 * (N_BITS as int) <= usize::MAX,
        ensures
            final(c).wf(),
            final(c).extends(*old(c)),
            final(c).n_wires() <= old(c).n_wires() + 3 * (N_BITS as int),
            out@.len() == N_BITS,
            wires_in(out@, final(c).n_wires()),
            final(c).gates@.len() == old(c).gates@.len() + 3 * (N_BITS as int),
            count_kind(final(c).gates@.skip(old(c).gates@.len() as int), GateKind::And)
                == N_BITS as int,
            count_kind(final(c).gates@.skip(old(c).gates@.len() as int), GateKind::Xor) == 2 * (
            N_BITS as int),
            count_kind(final(c).gates@.skip(old(c).gates@.len() as int), GateKind::Not) == 0,
            forall|inputs: Seq<bool>| #[trigger] wire_vals(*final(c), inputs, out@) == (if
                wire_val(*final(c), inputs, s as int) {
                wire_vals(*final(c), inputs, a@)
            } else {
                wire_vals(*final(c), inputs, b@)
            }),
            forall|inputs: Seq<bool>| #[trigger] bits_value(wire_vals(*final(c), inputs, out@))
                == (if wire_val(*final(c), inputs, s as int) {
                bits_value(wire_vals(*final(c), inputs, a@))
            } else {
                bits_value(wire_vals(*final(c), inputs, b@))
            }),
    {
        let mut out: Wires = Vec::new();
        proof {
            lemma_extends_refl(*c);
            assert(c.gates@.skip(old(c).gates@.len() as int) =~= Seq::<Gate>::empty());
        }
        let mut i: usize = 0;
        while i < N_BITS
            invariant
                c.wf(),
                c.extends(*old(c)),
                a@.len() == N_BITS,
                b@.len() == N_BITS,
                wires_in(a@, old(c).n_wires()),
                wires_in(b@, old(c).n_wires()),
                (s as int) < old(c).n_wires(),
                old(c).n_wires() + 3 * (N_BITS as int) <= usize::MAX,
                i <= N_BITS,
                out@.len() == i,
                wires_in(out@, c.n_wires()),
                old(c).n_wires() <= c.n_wires(),
                c.n_wires() <= old(c).n_wires() + 3 * (i as int),
                c.gates@.len() == old(c).gates@.len() + 3 * (i as int),
                count_kind(c.gates@.skip(old(c).gates@.len() as int), GateKind::And) == i as int,
                count_kind(c.gates@.skip(old(c).gates@.len() as int), GateKind::Xor) == 2 * (
                i as int),
                count_kind(c.gates@.skip(old(c).gates@.len() as int), GateKind::Not) == 0,
                forall|inputs: Seq<bool>| #[trigger] wire_vals(*c, inputs, out@) == (if wire_val(
                    *c,
                    inputs,
                    s as int,
                ) {
                    wire_vals(*c, inputs, a@).take(i as int)
                } else {
                    wire_vals(*c, inputs, b@).take(i as int)
                }),
            decreases N_BITS - i,
        {
            let ghost cp = *c;
            let ghost out_prev = out@;
            let w = selector(c, a[i], b[i], s);
            out.push(w);
            proof {
                lemma_extends_trans(*old(c), cp, *c);
                let ghost base = old(c).gates@.len() as int;
                let ghost mid = cp.gates@.len() as int;
                assert(c.gates@.skip(base) =~= cp.gates@.skip(base) + c.gates@.skip(mid));
                lemma_count_kind_concat(cp.gates@.skip(base), c.gates@.skip(mid), GateKind::And);
                lemma_count_kind_concat(cp.gates@.skip(base), c.gates@.skip(mid), GateKind::Xor);
                lemma_count_kind_concat(cp.gates@.skip(base), c.gates@.skip(mid), GateKind::Not);
                assert forall|inputs: Seq<bool>| #[trigger] wire_vals(*c, inputs, out@) == (if
                    wire_val(*c, inputs, s as int) {
                    wire_vals(*c, inputs, a@).take(i + 1)
                } else {
                    wire_vals(*c, inputs, b@).take(i + 1)
                }) by {
                    lemma_wire_vals_extends(cp, *c, inputs, a@);
                    lemma_wire_vals_extends(cp, *c, inputs, b@);
                    lemma_wire_vals_extends(cp, *c, inputs, out_prev);
                    lemma_wire_val_extends(cp, *c, inputs, s as int);
                    let xa = wire_vals(*c, inputs, a@);
                    let xb = wire_vals(*c, inputs, b@);
                    assert(xa[i as int] == wire_val(*c, inputs, a@[i as int] as int));
                    assert(xb[i as int] == wire_val(*c, inputs, b@[i as int] as int));
                    assert(wire_vals(*c, inputs, out@) =~= wire_vals(*c, inputs, out_prev).push(
                        wire_val(*c, inputs, w as int),
                    ));
                    if wire_val(*c, inputs, s as int) {
                        assert(xa.take(i + 1) =~= xa.take(i as int).push(xa[i as int]));
                    } else {
                        assert(xb.take(i + 1) =~= xb.take(i as int).push(xb[i as int]));
                    }
                }
            }
            i += 1;
        }
        proof {
            assert forall|inputs: Seq<bool>| #[trigger] wire_vals(*c, inputs, out@) == (if
                wire_val(*c, inputs, s as int) {
                wire_vals(*c, inputs, a@)
            } else {
                wire_vals(*c, inputs, b@)
            }) by {
                assert(wire_vals(*c, inputs, a@).take(N_BITS as int) =~= wire_vals(
                    *c,
                    inputs,
                    a@,
                ));
                assert(wire_vals(*c, inputs, b@).take(N_BITS as int) =~= wire_vals(
                    *c,
                    inputs,
                    b@,
                ));
            }
        }
        out
    }

    /// `N_BITS` result wires carrying `a` when `s` is set, else all zeros:
    /// one AND gate per bit.
    pub fn self_or_zero(c: &mut Circuit, a: &Wires, s: usize) -> (out: Wires)
        requires
            old(c).wf(),
            a@.len() == N_BITS,
            wires_in(a@, old(c).n_wires()),
            (s as int) < old(c).n_wires(),
            old(c).n_wires() + (N_BITS as int) <= usize::MAX,
        ensures
            final(c).wf(),
            final(c).extends(*old(c)),
            final(c).n_wires() <= old(c).n_wires() + (N_BITS as int),
            out@.len() == N_BITS,
            wires_in(out@, final(c).n_wires()),
            final(c).gates@.len() == old(c).gates@.len() + N_BITS,
            count_kind(final(c).gates@.skip(old(c).gates@.len() as int), GateKind::And)
                == N_BITS as int,
            count_kind(final(c).gates@.skip(old(c).gates@.len() as int), GateKind::Xor) == 0,
            count_kind(final(c).gates@.skip(old(c).gates@.len() as int), GateKind::Not) == 0,
            forall|j: int| 0 <= j < out@.len() ==> (#[trigger] out@[j]) >= old(c).n_wires(),
            forall|inputs: Seq<bool>| #[trigger] bits_value(wire_vals(*final(c), inputs, out@))
                == (if wire_val(*final(c), inputs, s as int) {
                bits_value(wire_vals(*final(c), inputs, a@))
            } else {
                0nat
            }),
    {
        let mut out: Wires = Vec::new();
        proof {
            lemma_extends_refl(*c);
            assert(c.gates@.skip(old(c).gates@.len() as int) =~= Seq::<Gate>::empty());
        }
        let mut i: usize = 0;
        while i < N_BITS
            invariant
                c.wf(),
                c.extends(*old(c)),
                a@.len() == N_BITS,
                wires_in(a@, old(c).n_wires()),
                (s as int) < old(c).n_wires(),
                old(c).n_wires() + (N_BITS as int) <= usize::MAX,
                i <= N_BITS,
                out@.len() == i,
                wires_in(out@, c.n_wires()),
                old(c).n_wires() <= c.n_wires(),
                c.n_wires() <= old(c).n_wires() + (i as int),
                c.gates@.len() == old(c).gates@.len() + i,
                count_kind(c.gates@.skip(old(c).gates@.len() as int), GateKind::And) == i as int,
                count_kind(c.gates@.skip(old(c).gates@.len() as int), GateKind::Xor) == 0,
                count_kind(c.gates@.skip(old(c).gates@.len() as int), GateKind::Not) == 0,
                forall|j: int| 0 <= j < out@.len() ==> (#[trigger] out@[j]) >= old(c).n_wires(),
                forall|inputs: Seq<bool>| #[trigger] wire_vals(*c, inputs, out@) == (if wire_val(
                    *c,
                    inputs,
                    s as int,
                ) {
                    wire_vals(*c, inputs, a@).take(i as int)
                } else {
                    Seq::new(i as nat, |j: int| false)
                }),
            decreases N_BITS - i,
        {
            let ghost cp = *c;
            let ghost out_prev = out@;
            let w = c.emit(GateKind::And, a[i], s);
            out.push(w);
            proof {
                lemma_extends_trans(*old(c), cp, *c);
                let ghost base = old(c).gates@.len() as int;
                assert(c.gates@.skip(base) =~= cp.gates@.skip(base).push(
                    Gate { kind: GateKind::And, a: a@[i as int], b: s },
                ));
                lemma_count_kind_push(
                    cp.gates@.skip(base),
                    Gate { kind: GateKind::And, a: a@[i as int], b: s },
                    GateKind::And,
                );
                lemma_count_kind_push(
                    cp.gates@.skip(base),
                    Gate { kind: GateKind::And, a: a@[i as int], b: s },
                    GateKind::Xor,
                );
                lemma_count_kind_push(
                    cp.gates@.skip(base),
                    Gate { kind: GateKind::And, a: a@[i as int], b: s },
                    GateKind::Not,
                );
                assert forall|inputs: Seq<bool>| #[trigger] wire_vals(*c, inputs, out@) == (if
                    wire_val(*c, inputs, s as int) {
                    wire_vals(*c, inputs, a@).take(i + 1)
                } else {
                    Seq::new((i + 1) as nat, |j: int| false)
                }) by {
                    assert(wire_val(*c, inputs, w as int) == gate_eval(
                        GateKind::And,
                        wire_val(*c, inputs, a@[i as int] as int),
                        wire_val(*c, inputs, s as int),
                    ));
                    lemma_wire_vals_extends(cp, *c, inputs, a@);
                    lemma_wire_vals_extends(cp, *c, inputs, out_prev);
                    lemma_wire_val_extends(cp, *c, inputs, s as int);
                    let xa = wire_vals(*c, inputs, a@);
                    assert(xa[i as int] == wire_val(*c, inputs, a@[i as int] as int));
                    assert(wire_vals(*c, inputs, out@) =~= wire_vals(*c, inputs, out_prev).push(
                        wire_val(*c, inputs, w as int),
                    ));
                    if wire_val(*c, inputs, s as int) {
                        assert(xa.take(i + 1) =~= xa.take(i as int).push(xa[i as int]));
                    } else {
                        assert(Seq::new((i + 1) as nat, |j: int| false) =~= Seq::new(
                            i as nat,
                            |j: int| false,
                        ).push(false));
                    }
                }
            }
            i += 1;
        }
        proof {
            assert forall|inputs: Seq<bool>| #[trigger] bits_value(wire_vals(*c, inputs, out@))
                == (if wire_val(*c, inputs, s as int) {
                bits_value(wire_vals(*c, inputs, a@))
            } else {
                0nat
            }) by {
                assert(wire_vals(*c, inputs, a@).take(N_BITS as int) =~= wire_vals(
                    *c,
                    inputs,
                    a@,
                ));
                if !wire_val(*c, inputs, s as int) {
                    lemma_bits_value_zero(Seq::new(N_BITS as nat, |j: int| false));
                }
            }
        }
        out
    }
}

} // verus!
