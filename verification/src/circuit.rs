//! The wire/gate/netlist substrate.
//!
//! A circuit owns its wires: wires are plain indices into the circuit's wire
//! space.  Wires `0 .. n_inputs` are the external inputs; the `j`-th emitted
//! gate writes wire `n_inputs + j` and may read any wire below that.  The
//! stored gate order is therefore a valid topological order by construction,
//! and a wire can never be read before its writer has fired.

use vstd::prelude::*;

verus! {

use crate::GateKind;

/// A primitive gate.  `a` and `b` are the indices of the input wires; a `Not`
/// gate reads only `a` (its `b` field is kept equal to `a`).  The output wire
/// is implicit: the `j`-th gate of a circuit writes wire `n_inputs + j`.
pub struct Gate {
    pub kind: GateKind,
    pub a: usize,
    pub b: usize,
}

/// Wire handles, in positional order.
pub type Wires = Vec<usize>;

/// A gate netlist under construction.  Builders append gates and hand back
/// the indices of the wires that carry their results; the caller decides
/// which of those to treat as the outputs of the composed circuit.
pub struct Circuit {
    pub n_inputs: usize,
    pub gates: Vec<Gate>,
}

/// What a single gate computes from its input bits.
pub open spec fn gate_eval(kind: GateKind, x: bool, y: bool) -> bool {
    match kind {
        GateKind::And => x && y,
        GateKind::Xor => x != y,
        GateKind::Not => !x,
    }
}

impl Circuit {
    /// Total number of wires: the inputs followed by one output wire per gate.
    pub open spec fn n_wires(self) -> int {
        self.n_inputs + self.gates@.len()
    }

    /// Every gate reads only wires that precede its own output wire, so
    /// emission order is a valid topological order.
    pub open spec fn wf(self) -> bool {
        forall|j: int|
            0 <= j < self.gates@.len() ==> (#[trigger] self.gates@[j]).a < self.n_inputs + j
                && self.gates@[j].b < self.n_inputs + j
    }

    /// `c2.extends(c1)` holds when `c2` was obtained from `c1` by appending
    /// gates: the inputs and all previously emitted gates are untouched.
    pub open spec fn extends(self, c1: Circuit) -> bool {
        &&& self.n_inputs == c1.n_inputs
        &&& c1.gates@.len() <= self.gates@.len()
        &&& self.gates@.subrange(0, c1.gates@.len() as int) == c1.gates@
    }
}

/// Whether every wire handle in `ws` lies below `bound`.
pub open spec fn wires_in(ws: Seq<usize>, bound: int) -> bool {
    forall|i: int| 0 <= i < ws.len() ==> (#[trigger] ws[i]) < bound
}

/// The bit carried by wire `w` of circuit `c` when the input wires hold
/// `inputs`.  For a well-formed circuit every wire below `c.n_wires()` has a
/// well-defined value; the `false` fallbacks are never reached then.
pub open spec fn wire_val(c: Circuit, inputs: Seq<bool>, w: int) -> bool
    decreases w,
{
    if 0 <= w < c.n_inputs {
        inputs[w]
    } else if c.n_inputs <= w < c.n_wires() {
        let g = c.gates@[w - c.n_inputs];
        if g.a < w && g.b < w {
            gate_eval(g.kind, wire_val(c, inputs, g.a as int), wire_val(c, inputs, g.b as int))
        } else {
            false
        }
    } else {
        false
    }
}

/// The bits carried by a vector of wires, in positional order.
pub open spec fn wire_vals(c: Circuit, inputs: Seq<bool>, ws: Seq<usize>) -> Seq<bool> {
    Seq::new(ws.len(), |i: int| wire_val(c, inputs, ws[i] as int))
}

/// Appending gates never changes the value of an existing wire.
pub proof fn lemma_wire_val_extends(c1: Circuit, c2: Circuit, inputs: Seq<bool>, w: int)
    requires
        c1.wf(),
        c2.extends(c1),
        0 <= w < c1.n_wires(),
    ensures
        wire_val(c2, inputs, w) == wire_val(c1, inputs, w),
    decreases w,
{
    if c1.n_inputs <= w {
        let j = w - c1.n_inputs;
        assert(c2.gates@.subrange(0, c1.gates@.len() as int)[j] == c2.gates@[j]);
        let g = c1.gates@[j];
        lemma_wire_val_extends(c1, c2, inputs, g.a as int);
        lemma_wire_val_extends(c1, c2, inputs, g.b as int);
    }
}

/// Vector form of `lemma_wire_val_extends`.
pub proof fn lemma_wire_vals_extends(c1: Circuit, c2: Circuit, inputs: Seq<bool>, ws: Seq<usize>)
    requires
        c1.wf(),
        c2.extends(c1),
        wires_in(ws, c1.n_wires()),
    ensures
        wire_vals(c2, inputs, ws) == wire_vals(c1, inputs, ws),
{
    assert forall|i: int| 0 <= i < ws.len() implies wire_vals(c2, inputs, ws)[i] == wire_vals(
        c1,
        inputs,
        ws,
    )[i] by {
        lemma_wire_val_extends(c1, c2, inputs, ws[i] as int);
    }
    assert(wire_vals(c2, inputs, ws) =~= wire_vals(c1, inputs, ws));
}

/// `extends` is reflexive.
pub proof fn lemma_extends_refl(c: Circuit)
    ensures
        c.extends(c),
{
    assert(c.gates@.subrange(0, c.gates@.len() as int) =~= c.gates@);
}

/// `extends` is transitive; as an ambient lemma it lets the chain of states
/// a builder walks through collapse without explicit steps.
pub broadcast proof fn lemma_extends_chain(c1: Circuit, c2: Circuit, c3: Circuit)
    requires
        #[trigger] c2.extends(c1),
        #[trigger] c3.extends(c2),
    ensures
        c3.extends(c1),
{
    lemma_extends_trans(c1, c2, c3);
}

/// `extends` is transitive.
pub proof fn lemma_extends_trans(c1: Circuit, c2: Circuit, c3: Circuit)
    requires
        c2.extends(c1),
        c3.extends(c2),
    ensures
        c3.extends(c1),
{
    let l1 = c1.gates@.len() as int;
    let l2 = c2.gates@.len() as int;
    assert forall|i: int| 0 <= i < l1 implies c3.gates@.subrange(0, l1)[i] == c1.gates@[i] by {
        assert(c3.gates@.subrange(0, l2)[i] == c2.gates@[i]);
        assert(c2.gates@.subrange(0, l1)[i] == c1.gates@[i]);
    }
    assert(c3.gates@.subrange(0, l1) =~= c1.gates@);
}

/// Reading the values of a slice of a wire vector is slicing the values.
pub broadcast proof fn lemma_wire_vals_subrange(
    c: Circuit,
    inputs: Seq<bool>,
    ws: Seq<usize>,
    s: int,
    e: int,
)
    requires
        0 <= s <= e <= ws.len(),
    ensures
        #[trigger] wire_vals(c, inputs, ws.subrange(s, e)) == wire_vals(c, inputs, ws).subrange(
            s,
            e,
        ),
{
    assert(wire_vals(c, inputs, ws.subrange(s, e)) =~= wire_vals(c, inputs, ws).subrange(s, e));
}

/// A wire bound can always be weakened upward.
pub broadcast proof fn lemma_wires_in_mono(ws: Seq<usize>, b1: int, b2: int)
    requires
        #[trigger] wires_in(ws, b1),
        b1 <= b2,
    ensures
        #[trigger] wires_in(ws, b2),
{
}

/// A slice of a bounded wire vector is bounded.
pub broadcast proof fn lemma_wires_in_subrange(v: Seq<usize>, s: int, e: int, b: int)
    requires
        wires_in(v, b),
        0 <= s <= e <= v.len(),
    ensures
        #[trigger] wires_in(v.subrange(s, e), b),
{
    assert forall|i: int| 0 <= i < e - s implies (#[trigger] v.subrange(s, e)[i]) < b by {
        assert(v[s + i] < b);
    }
}

/// A concatenation of bounded wire vectors is bounded.
pub broadcast proof fn lemma_wires_in_concat(x: Seq<usize>, y: Seq<usize>, b: int)
    requires
        wires_in(x, b),
        wires_in(y, b),
    ensures
        #[trigger] wires_in(x + y, b),
{
    assert forall|i: int| 0 <= i < (x + y).len() implies (#[trigger] (x + y)[i]) < b by {
        if i < x.len() {
            assert(x[i] < b);
        } else {
            assert(y[i - x.len()] < b);
        }
    }
}

/// Copy of `n` wire handles starting at position `start`: the flat tower
/// layout makes splitting an operand a pure index operation.
pub fn subwires(v: &Wires, start: usize, n: usize) -> (r: Wires)
    requires
        start + n <= v@.len(),
    ensures
        r@ == v@.subrange(start as int, start as int + n),
{
    let mut r: Wires = Vec::new();
    let vl = v.len();
    let mut i: usize = 0;
    while i < n
        invariant
            start + n <= v@.len(),
            v@.len() == vl,
            i <= n,
            r@.len() == i,
            forall|j: int| 0 <= j < i ==> #[trigger] r@[j] == v@[start + j],
        decreases n - i,
    {
        r.push(v[start + i]);
        i += 1;
    }
    proof {
        assert(r@ =~= v@.subrange(start as int, start as int + n));
    }
    r
}

/// Concatenation of two wire vectors, in positional order.
pub fn concat_wires(x: &Wires, y: &Wires) -> (r: Wires)
    ensures
        r@ == x@ + y@,
{
    let mut r: Wires = Vec::new();
    let mut i: usize = 0;
    while i < x.len()
        invariant
            i <= x@.len(),
            r@.len() == i,
            forall|j: int| 0 <= j < i ==> #[trigger] r@[j] == x@[j],
        decreases x@.len() - i,
    {
        r.push(x[i]);
        i += 1;
    }
    let mut k: usize = 0;
    while k < y.len()
        invariant
            k <= y@.len(),
            r@.len() == x@.len() + k,
            forall|j: int| 0 <= j < x@.len() ==> #[trigger] r@[j] == x@[j],
            forall|j: int| 0 <= j < k ==> #[trigger] r@[x@.len() + j] == y@[j],
        decreases y@.len() - k,
    {
        r.push(y[k]);
        k += 1;
    }
    proof {
        assert forall|j: int| 0 <= j < r@.len() implies r@[j] == (x@ + y@)[j] by {
            if j >= x@.len() {
                assert(r@[x@.len() + (j - x@.len())] == y@[j - x@.len()]);
            }
        }
        assert(r@ =~= x@ + y@);
    }
    r
}

/// How many gates of kind `kind` a gate list holds.
pub open spec fn count_kind(gates: Seq<Gate>, kind: GateKind) -> int
    decreases gates.len(),
{
    if gates.len() == 0 {
        0
    } else {
        count_kind(gates.drop_last(), kind) + if gates.last().kind == kind {
            1int
        } else {
            0int
        }
    }
}

/// Appending one gate raises the count of its kind by one.
pub proof fn lemma_count_kind_push(gates: Seq<Gate>, g: Gate, kind: GateKind)
    ensures
        count_kind(gates.push(g), kind) == count_kind(gates, kind) + (if g.kind == kind {
            1int
        } else {
            0int
        }),
{
    assert(gates.push(g).drop_last() =~= gates);
    assert(gates.push(g).last() == g);
}

/// Gate-kind counts add across concatenation.
pub proof fn lemma_count_kind_concat(g1: Seq<Gate>, g2: Seq<Gate>, kind: GateKind)
    ensures
        count_kind(g1 + g2, kind) == count_kind(g1, kind) + count_kind(g2, kind),
    decreases g2.len(),
{
    if g2.len() == 0 {
        assert(g1 + g2 =~= g1);
    } else {
        lemma_count_kind_concat(g1, g2.drop_last(), kind);
        assert((g1 + g2).drop_last() =~= g1 + g2.drop_last());
        assert((g1 + g2).last() == g2.last());
    }
}

impl Circuit {
    /// A fresh circuit with `n` external input wires and no gates.
    pub fn with_inputs(n: usize) -> (c: Circuit)
        ensures
            c.n_inputs == n,
            c.gates@.len() == 0,
            c.wf(),
    {
        Circuit { n_inputs: n, gates: Vec::new() }
    }

    /// Append one gate reading wires `a` and `b`; returns its output wire.
    pub fn emit(&mut self, kind: GateKind, a: usize, b: usize) -> (w: usize)
        requires
            old(self).wf(),
            a < old(self).n_wires(),
            b < old(self).n_wires(),
            old(self).n_wires() < usize::MAX,
        ensures
            final(self).wf(),
            final(self).extends(*old(self)),
            final(self).n_wires() == old(self).n_wires() + 1,
            final(self).gates@.last() == (Gate { kind, a, b }),
            w as int == old(self).n_wires(),
            forall|inputs: Seq<bool>| #[trigger]
                wire_val(*final(self), inputs, w as int) == gate_eval(
                    kind,
                    wire_val(*final(self), inputs, a as int),
                    wire_val(*final(self), inputs, b as int),
                ),
    {
        let w = self.n_inputs + self.gates.len();
        self.gates.push(Gate { kind, a, b });
        proof {
            assert(self.gates@.subrange(0, old(self).gates@.len() as int) =~= old(self).gates@);
            assert forall|inputs: Seq<bool>| #[trigger]
                wire_val(*self, inputs, w as int) == gate_eval(
                    kind,
                    wire_val(*self, inputs, a as int),
                    wire_val(*self, inputs, b as int),
                ) by {
                assert(self.gates@[w - self.n_inputs].a == a);
            }
        }
        w
    }

    /// A wire that always carries `false`, built as `x XOR x` from any
    /// existing wire `x`.
    pub fn emit_false(&mut self, x: usize) -> (w: usize)
        requires
            old(self).wf(),
            x < old(self).n_wires(),
            old(self).n_wires() < usize::MAX,
        ensures
            final(self).wf(),
            final(self).extends(*old(self)),
            final(self).n_wires() == old(self).n_wires() + 1,
            w as int == old(self).n_wires(),
            forall|inputs: Seq<bool>| #[trigger] wire_val(*final(self), inputs, w as int) == false,
    {
        self.emit(GateKind::Xor, x, x)
    }

    /// Evaluate every gate in emission order; returns the value of every
    /// wire, inputs included.
    pub fn evaluate(&self, inputs: &Vec<bool>) -> (vals: Vec<bool>)
        requires
            self.wf(),
            inputs@.len() == self.n_inputs,
        ensures
            vals@.len() == self.n_wires(),
            forall|w: int| 0 <= w < self.n_wires() ==> #[trigger] vals@[w] == wire_val(
                *self,
                inputs@,
                w,
            ),
    {
        let mut vals: Vec<bool> = Vec::new();
        let mut i: usize = 0;
        while i < inputs.len()
            invariant
                i <= inputs@.len(),
                inputs@.len() == self.n_inputs,
                vals@.len() == i,
                forall|w: int| 0 <= w < i ==> #[trigger] vals@[w] == inputs@[w],
            decreases inputs@.len() - i,
        {
            vals.push(inputs[i]);
            i += 1;
        }
        let mut j: usize = 0;
        while j < self.gates.len()
            invariant
                self.wf(),
                inputs@.len() == self.n_inputs,
                j <= self.gates@.len(),
                vals@.len() == self.n_inputs + j,
                forall|w: int| 0 <= w < vals@.len() ==> #[trigger] vals@[w] == wire_val(
                    *self,
                    inputs@,
                    w,
                ),
            decreases self.gates@.len() - j,
        {
            let g = &self.gates[j];
            let x = vals[g.a];
            let y = vals[g.b];
            let v = match g.kind {
                GateKind::And => x && y,
                GateKind::Xor => x != y,
                GateKind::Not => !x,
            };
            vals.push(v);
            j += 1;
        }
        vals
    }

    /// Histogram of gate kinds: `(AND, XOR, NOT)` counts.
    pub fn gate_type_counts(&self) -> (r: (usize, usize, usize))
        ensures
            r.0 == count_kind(self.gates@, GateKind::And),
            r.1 == count_kind(self.gates@, GateKind::Xor),
            r.2 == count_kind(self.gates@, GateKind::Not),
    {
        let mut n_and: usize = 0;
        let mut n_xor: usize = 0;
        let mut n_not: usize = 0;
        let mut j: usize = 0;
        while j < self.gates.len()
            invariant
                j <= self.gates@.len(),
                n_and == count_kind(self.gates@.take(j as int), GateKind::And),
                n_xor == count_kind(self.gates@.take(j as int), GateKind::Xor),
                n_not == count_kind(self.gates@.take(j as int), GateKind::Not),
                n_and + n_xor + n_not == j,
            decreases self.gates@.len() - j,
        {
            proof {
                assert(self.gates@.take(j + 1).drop_last() =~= self.gates@.take(j as int));
                assert(self.gates@.take(j + 1).last() == self.gates@[j as int]);
            }
            match self.gates[j].kind {
                GateKind::And => {
                    n_and += 1;
                },
                GateKind::Xor => {
                    n_xor += 1;
                },
                GateKind::Not => {
                    n_not += 1;
                },
            }
            j += 1;
        }
        proof {
            assert(self.gates@.take(self.gates@.len() as int) =~= self.gates@);
        }
        (n_and, n_xor, n_not)
    }
}

} // verus!
