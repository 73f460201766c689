use ark_ff::{AdditiveGroup, BigInteger, Field, PrimeField, UniformRand};
use gatenet::circuit::Circuit;
use gatenet::fq12::Fq12;

fn fq_to_bits(x: ark_bn254::Fq) -> Vec<bool> {
    let mut bits = x.into_bigint().to_bits_le();
    bits.resize(254, false);
    bits
}

fn fq2_to_bits(x: ark_bn254::Fq2) -> Vec<bool> {
    let mut bits = fq_to_bits(x.c0);
    bits.extend(fq_to_bits(x.c1));
    bits
}

fn fq6_to_bits(x: ark_bn254::Fq6) -> Vec<bool> {
    let mut bits = fq2_to_bits(x.c0);
    bits.extend(fq2_to_bits(x.c1));
    bits.extend(fq2_to_bits(x.c2));
    bits
}

fn fq12_to_bits(x: ark_bn254::Fq12) -> Vec<bool> {
    let mut bits = fq6_to_bits(x.c0);
    bits.extend(fq6_to_bits(x.c1));
    bits
}

fn fq_from_bits(bits: &[bool]) -> ark_bn254::Fq {
    let repr = <ark_bn254::Fq as PrimeField>::BigInt::from_bits_le(bits);
    ark_bn254::Fq::from_bigint(repr).unwrap()
}

fn fq2_from_bits(bits: &[bool]) -> ark_bn254::Fq2 {
    ark_bn254::Fq2::new(fq_from_bits(&bits[0..254]), fq_from_bits(&bits[254..508]))
}

fn fq6_from_bits(bits: &[bool]) -> ark_bn254::Fq6 {
    ark_bn254::Fq6::new(
        fq2_from_bits(&bits[0..508]),
        fq2_from_bits(&bits[508..1016]),
        fq2_from_bits(&bits[1016..1524]),
    )
}

fn fq12_from_bits(bits: &[bool]) -> ark_bn254::Fq12 {
    ark_bn254::Fq12::new(fq6_from_bits(&bits[0..1524]), fq6_from_bits(&bits[1524..3048]))
}

fn print_counts(c: &Circuit) {
    let (n_and, n_xor, n_not) = c.gate_type_counts();
    println!("AND: {} XOR: {} NOT: {}", n_and, n_xor, n_not);
}

fn input_wires(lo: usize, n: usize) -> Vec<usize> {
    (lo..lo + n).collect()
}

fn read_fq12(vals: &[bool], out: &[usize]) -> ark_bn254::Fq12 {
    let bits: Vec<bool> = out.iter().map(|&w| vals[w]).collect();
    fq12_from_bits(&bits)
}

#[test]
fn test_fq12_add() {
    let mut rng = ark_std::test_rng();
    let a = ark_bn254::Fq12::rand(&mut rng);
    let b = ark_bn254::Fq12::rand(&mut rng);
    let mut c = Circuit::with_inputs(6096);
    let wa = input_wires(0, 3048);
    let wb = input_wires(3048, 3048);
    let out = Fq12::add(&mut c, &wa, &wb);
    print_counts(&c);
    let mut inputs = fq12_to_bits(a);
    inputs.extend(fq12_to_bits(b));
    let vals = c.evaluate(&inputs);
    assert_eq!(read_fq12(&vals, &out), a + b);
}

#[test]
fn test_fq12_neg() {
    let mut rng = ark_std::test_rng();
    let a = ark_bn254::Fq12::rand(&mut rng);
    let mut c = Circuit::with_inputs(3048);
    let wa = input_wires(0, 3048);
    let out = Fq12::neg(&mut c, &wa);
    print_counts(&c);
    let vals = c.evaluate(&fq12_to_bits(a));
    assert_eq!(read_fq12(&vals, &out), -a);
}

#[test]
fn test_fq12_sub() {
    let mut rng = ark_std::test_rng();
    let a = ark_bn254::Fq12::rand(&mut rng);
    let b = ark_bn254::Fq12::rand(&mut rng);
    let mut c = Circuit::with_inputs(6096);
    let wa = input_wires(0, 3048);
    let wb = input_wires(3048, 3048);
    let out = Fq12::sub(&mut c, &wa, &wb);
    print_counts(&c);
    let mut inputs = fq12_to_bits(a);
    inputs.extend(fq12_to_bits(b));
    let vals = c.evaluate(&inputs);
    assert_eq!(read_fq12(&vals, &out), a - b);
}

#[test]
fn test_fq12_double() {
    let mut rng = ark_std::test_rng();
    let a = ark_bn254::Fq12::rand(&mut rng);
    let mut c = Circuit::with_inputs(3048);
    let wa = input_wires(0, 3048);
    let out = Fq12::double(&mut c, &wa);
    print_counts(&c);
    let vals = c.evaluate(&fq12_to_bits(a));
    assert_eq!(read_fq12(&vals, &out), a + a);
}

#[test]
fn test_fq12_mul() {
    let mut rng = ark_std::test_rng();
    let a = ark_bn254::Fq12::rand(&mut rng);
    let b = ark_bn254::Fq12::rand(&mut rng);
    let mut c = Circuit::with_inputs(6096);
    let wa = input_wires(0, 3048);
    let wb = input_wires(3048, 3048);
    let out = Fq12::mul(&mut c, &wa, &wb);
    print_counts(&c);
    let mut inputs = fq12_to_bits(a);
    inputs.extend(fq12_to_bits(b));
    let vals = c.evaluate(&inputs);
    assert_eq!(read_fq12(&vals, &out), a * b);
}

#[test]
fn test_fq12_mul_by_constant() {
    let mut rng = ark_std::test_rng();
    let a = ark_bn254::Fq12::rand(&mut rng);
    let b = ark_bn254::Fq12::rand(&mut rng);
    let mut c = Circuit::with_inputs(3048);
    let wa = input_wires(0, 3048);
    let out = Fq12::mul_by_constant(&mut c, &wa, &fq12_to_bits(b));
    print_counts(&c);
    let vals = c.evaluate(&fq12_to_bits(a));
    assert_eq!(read_fq12(&vals, &out), a * b);
}

#[test]
fn test_fq12_mul_by_34() {
    let mut rng = ark_std::test_rng();
    let a = ark_bn254::Fq12::rand(&mut rng);
    let c3 = ark_bn254::Fq2::rand(&mut rng);
    let c4 = ark_bn254::Fq2::rand(&mut rng);
    let mut c = Circuit::with_inputs(4064);
    let wa = input_wires(0, 3048);
    let w3 = input_wires(3048, 508);
    let w4 = input_wires(3556, 508);
    let out = Fq12::mul_by_34(&mut c, &wa, &w3, &w4);
    print_counts(&c);
    let mut inputs = fq12_to_bits(a);
    inputs.extend(fq2_to_bits(c3));
    inputs.extend(fq2_to_bits(c4));
    let vals = c.evaluate(&inputs);
    let mut b = a;
    b.mul_by_034(&ark_bn254::Fq2::ONE, &c3, &c4);
    assert_eq!(read_fq12(&vals, &out), b);
}

#[test]
fn test_fq12_square() {
    let mut rng = ark_std::test_rng();
    let a = ark_bn254::Fq12::rand(&mut rng);
    let mut c = Circuit::with_inputs(3048);
    let wa = input_wires(0, 3048);
    let out = Fq12::square(&mut c, &wa);
    print_counts(&c);
    let vals = c.evaluate(&fq12_to_bits(a));
    assert_eq!(read_fq12(&vals, &out), a * a);
}

#[test]
fn test_fq12_frobenius() {
    let mut rng = ark_std::test_rng();
    let a = ark_bn254::Fq12::rand(&mut rng);

    let mut c = Circuit::with_inputs(3048);
    let wa = input_wires(0, 3048);
    let out = Fq12::frobenius(&mut c, &wa, 0);
    print_counts(&c);
    let vals = c.evaluate(&fq12_to_bits(a));
    assert_eq!(read_fq12(&vals, &out), a.frobenius_map(0));

    let mut c = Circuit::with_inputs(3048);
    let out = Fq12::frobenius(&mut c, &wa, 1);
    print_counts(&c);
    let vals = c.evaluate(&fq12_to_bits(a));
    assert_eq!(read_fq12(&vals, &out), a.frobenius_map(1));
}

#[test]
fn test_fq12_frobenius_full_cycle() {
    let mut rng = ark_std::test_rng();
    let a = ark_bn254::Fq12::rand(&mut rng);
    let mut c = Circuit::with_inputs(3048);
    let wa = input_wires(0, 3048);
    let out = Fq12::frobenius(&mut c, &wa, 12);
    let vals = c.evaluate(&fq12_to_bits(a));
    assert_eq!(read_fq12(&vals, &out), a);
}

#[test]
fn test_fq12_add_neg_is_zero() {
    let mut rng = ark_std::test_rng();
    let a = ark_bn254::Fq12::rand(&mut rng);
    let mut c = Circuit::with_inputs(3048);
    let wa = input_wires(0, 3048);
    let wn = Fq12::neg(&mut c, &wa);
    let out = Fq12::add(&mut c, &wa, &wn);
    let vals = c.evaluate(&fq12_to_bits(a));
    assert_eq!(read_fq12(&vals, &out), ark_bn254::Fq12::ZERO);
}

#[test]
fn test_fq12_square_matches_mul() {
    let mut rng = ark_std::test_rng();
    let mut a = ark_bn254::Fq12::rand(&mut rng);
    if a == ark_bn254::Fq12::ZERO {
        a = ark_bn254::Fq12::ONE;
    }
    let wa = input_wires(0, 3048);
    let wb = input_wires(3048, 3048);
    let inputs1 = fq12_to_bits(a);
    let mut c1 = Circuit::with_inputs(3048);
    let out1 = Fq12::square(&mut c1, &wa);
    let vals1 = c1.evaluate(&inputs1);
    let bits1: Vec<bool> = out1.iter().map(|&w| vals1[w]).collect();
    drop(c1);
    let mut inputs2 = fq12_to_bits(a);
    inputs2.extend(fq12_to_bits(a));
    let mut c2 = Circuit::with_inputs(6096);
    let out2 = Fq12::mul(&mut c2, &wa, &wb);
    let vals2 = c2.evaluate(&inputs2);
    let bits2: Vec<bool> = out2.iter().map(|&w| vals2[w]).collect();
    assert_eq!(bits1, bits2);
}

#[test]
fn test_fq12_frobenius_composes() {
    let mut rng = ark_std::test_rng();
    let a = ark_bn254::Fq12::rand(&mut rng);
    let wa = input_wires(0, 3048);
    let inputs = fq12_to_bits(a);

    let mut c1 = Circuit::with_inputs(3048);
    let f1 = Fq12::frobenius(&mut c1, &wa, 1);
    let f2 = Fq12::frobenius(&mut c1, &f1, 1);
    let vals = c1.evaluate(&inputs);
    let twice = read_fq12(&vals, &f2);
    drop(c1);

    let mut c2 = Circuit::with_inputs(3048);
    let g = Fq12::frobenius(&mut c2, &wa, 2);
    let vals = c2.evaluate(&inputs);
    assert_eq!(twice, read_fq12(&vals, &g));
}

#[test]
fn test_fq12_emit_determinism() {
    let wa = input_wires(0, 3048);
    let wb = input_wires(3048, 3048);
    let mut c1 = Circuit::with_inputs(6096);
    let _ = Fq12::add(&mut c1, &wa, &wb);
    let mut c2 = Circuit::with_inputs(6096);
    let _ = Fq12::add(&mut c2, &wa, &wb);
    assert_eq!(c1.gate_type_counts(), c2.gate_type_counts());

    let mut c1 = Circuit::with_inputs(3048);
    let _ = Fq12::double(&mut c1, &wa);
    let mut c2 = Circuit::with_inputs(3048);
    let _ = Fq12::double(&mut c2, &wa);
    assert_eq!(c1.gate_type_counts(), c2.gate_type_counts());
}
