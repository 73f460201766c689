//! Synthesis of Boolean gate netlists for 254-bit integer comparison and
//! BN254 tower-field arithmetic.

pub mod arkconst;
pub mod bigint;
pub mod bits;
pub mod circuit;
pub mod cmp;
pub mod fq;
pub mod fq12;
pub mod fq2;
pub mod fq6;

use vstd::prelude::*;

verus! {

/// Kinds of primitive single-bit gates emitted by the builders.
#[derive(Clone, Copy, PartialEq, Eq, Debug)]
pub enum GateKind {
    And,
    Xor,
    Not,
}

} // verus!
