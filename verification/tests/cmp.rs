use ark_std::rand::RngCore;
use gatenet::bigint::U254;
use gatenet::circuit::Circuit;
use num_bigint::BigUint;

fn random_u254(rng: &mut impl RngCore) -> BigUint {
    let mut limbs = vec![0u32; 8];
    for l in limbs.iter_mut() {
        *l = rng.next_u32();
    }
    let mask = (BigUint::from(1u8) << 254) - 1u8;
    BigUint::new(limbs) & mask
}

fn bits_of(v: &BigUint, n: usize) -> Vec<bool> {
    (0..n).map(|i| v.bit(i as u64)).collect()
}

fn biguint_of_bits(bits: &[bool]) -> BigUint {
    let mut v = BigUint::from(0u8);
    for (i, b) in bits.iter().enumerate() {
        if *b {
            v.set_bit(i as u64, true);
        }
    }
    v
}

fn print_counts(c: &Circuit) {
    let (n_and, n_xor, n_not) = c.gate_type_counts();
    println!("AND: {} XOR: {} NOT: {}", n_and, n_xor, n_not);
}

fn input_wires(lo: usize, n: usize) -> Vec<usize> {
    (lo..lo + n).collect()
}

#[test]
fn test_equal_and_equal_constant() {
    let mut rng = ark_std::test_rng();
    let a = random_u254(&mut rng);
    let b = random_u254(&mut rng);
    let mut c = Circuit::with_inputs(508);
    let wa = input_wires(0, 254);
    let wb = input_wires(254, 254);
    let out = U254::equal(&mut c, &wa, &wb);
    print_counts(&c);
    let mut inputs = bits_of(&a, 254);
    inputs.extend(bits_of(&b, 254));
    let vals = c.evaluate(&inputs);
    assert_eq!(a == b, vals[out[0]]);

    let a = random_u254(&mut rng);
    let mut c = Circuit::with_inputs(508);
    let out = U254::equal(&mut c, &wa, &wb);
    print_counts(&c);
    let mut inputs = bits_of(&a, 254);
    inputs.extend(bits_of(&a, 254));
    let vals = c.evaluate(&inputs);
    assert_eq!(true, vals[out[0]]);

    let a = random_u254(&mut rng);
    let mut c = Circuit::with_inputs(254);
    let out = U254::equal_constant(&mut c, &wa, &bits_of(&b, 254));
    print_counts(&c);
    let vals = c.evaluate(&bits_of(&a, 254));
    assert_eq!(a == b, vals[out[0]]);
}

#[test]
fn test_greater_than() {
    let mut rng = ark_std::test_rng();
    let a = random_u254(&mut rng);
    let b = random_u254(&mut rng);
    let wa = input_wires(0, 254);
    let wb = input_wires(254, 254);
    let mut c = Circuit::with_inputs(508);
    let out = U254::greater_than(&mut c, &wa, &wb);
    print_counts(&c);
    let mut inputs = bits_of(&a, 254);
    inputs.extend(bits_of(&b, 254));
    let vals = c.evaluate(&inputs);
    assert_eq!(a > b, vals[out[0]]);

    let a = random_u254(&mut rng);
    let mut c = Circuit::with_inputs(508);
    let out = U254::greater_than(&mut c, &wa, &wb);
    print_counts(&c);
    let mut inputs = bits_of(&a, 254);
    inputs.extend(bits_of(&a, 254));
    let vals = c.evaluate(&inputs);
    assert_eq!(false, vals[out[0]]);

    let a = random_u254(&mut rng);
    let mut c = Circuit::with_inputs(508);
    let out = U254::greater_than(&mut c, &wa, &wb);
    print_counts(&c);
    let mut inputs = bits_of(&(a.clone() + BigUint::from(1u8)), 254);
    inputs.extend(bits_of(&a, 254));
    let vals = c.evaluate(&inputs);
    assert_eq!(true, vals[out[0]]);
}

#[test]
fn test_less_than_constant() {
    let mut rng = ark_std::test_rng();
    let a = random_u254(&mut rng);
    let b = random_u254(&mut rng);
    let wa = input_wires(0, 254);
    let mut c = Circuit::with_inputs(254);
    let out = U254::less_than_constant(&mut c, &wa, &bits_of(&b, 254));
    print_counts(&c);
    let vals = c.evaluate(&bits_of(&a, 254));
    assert_eq!(a < b, vals[out[0]]);
}

#[test]
fn test_select() {
    let mut rng = ark_std::test_rng();
    let a = random_u254(&mut rng);
    let b = random_u254(&mut rng);
    let wa = input_wires(0, 254);
    let wb = input_wires(254, 254);
    let ws = 508;
    let mut c = Circuit::with_inputs(509);
    let out = U254::select(&mut c, &wa, &wb, ws);
    print_counts(&c);
    let mut inputs = bits_of(&a, 254);
    inputs.extend(bits_of(&b, 254));
    inputs.push(true);
    let vals = c.evaluate(&inputs);
    let picked = biguint_of_bits(&out.iter().map(|&w| vals[w]).collect::<Vec<bool>>());
    assert_eq!(a, picked);
}

#[test]
fn test_self_or_zero() {
    let mut rng = ark_std::test_rng();
    let a = random_u254(&mut rng);
    let wa = input_wires(0, 254);
    let ws = 254;
    let mut c = Circuit::with_inputs(255);
    let out = U254::self_or_zero(&mut c, &wa, ws);
    print_counts(&c);
    let mut inputs = bits_of(&a, 254);
    inputs.push(true);
    let vals = c.evaluate(&inputs);
    let picked = biguint_of_bits(&out.iter().map(|&w| vals[w]).collect::<Vec<bool>>());
    assert_eq!(a, picked);

    let mut c = Circuit::with_inputs(255);
    let out = U254::self_or_zero(&mut c, &wa, ws);
    let mut inputs = bits_of(&a, 254);
    inputs.push(false);
    let vals = c.evaluate(&inputs);
    let picked = biguint_of_bits(&out.iter().map(|&w| vals[w]).collect::<Vec<bool>>());
    assert_eq!(picked, BigUint::ZERO);
}

#[test]
fn test_equal_constant_self() {
    let mut rng = ark_std::test_rng();
    let a = random_u254(&mut rng);
    let wa = input_wires(0, 254);
    let mut c = Circuit::with_inputs(254);
    let out = U254::equal_constant(&mut c, &wa, &bits_of(&a, 254));
    let vals = c.evaluate(&bits_of(&a, 254));
    assert_eq!(true, vals[out[0]]);
}

#[test]
fn test_cmp_zero_operands() {
    let zero = BigUint::ZERO;
    let one = BigUint::from(1u8);
    let wa = input_wires(0, 254);
    let wb = input_wires(254, 254);
    let mut inputs = bits_of(&zero, 254);
    inputs.extend(bits_of(&zero, 254));

    let mut c = Circuit::with_inputs(508);
    let out = U254::equal(&mut c, &wa, &wb);
    let vals = c.evaluate(&inputs);
    assert_eq!(true, vals[out[0]]);

    let mut c = Circuit::with_inputs(508);
    let out = U254::greater_than(&mut c, &wa, &wb);
    let vals = c.evaluate(&inputs);
    assert_eq!(false, vals[out[0]]);

    let mut c = Circuit::with_inputs(508);
    let out = U254::less_than_constant(&mut c, &wa, &bits_of(&one, 254));
    let vals = c.evaluate(&inputs);
    assert_eq!(true, vals[out[0]]);
}

#[test]
fn test_cmp_extremes() {
    let max = (BigUint::from(1u8) << 254) - 1u8;
    let zero = BigUint::ZERO;
    let one = BigUint::from(1u8);
    let wa = input_wires(0, 254);
    let wb = input_wires(254, 254);

    // 2^254 - 1 against 0
    let mut inputs = bits_of(&max, 254);
    inputs.extend(bits_of(&zero, 254));
    let mut c = Circuit::with_inputs(508);
    let out = U254::greater_than(&mut c, &wa, &wb);
    let vals = c.evaluate(&inputs);
    assert_eq!(true, vals[out[0]]);
    let mut c = Circuit::with_inputs(508);
    let out = U254::equal(&mut c, &wa, &wb);
    let vals = c.evaluate(&inputs);
    assert_eq!(false, vals[out[0]]);

    // 1 against 2^254 - 1, both ways
    let mut inputs = bits_of(&one, 254);
    inputs.extend(bits_of(&max, 254));
    let mut c = Circuit::with_inputs(508);
    let out = U254::greater_than(&mut c, &wa, &wb);
    let vals = c.evaluate(&inputs);
    assert_eq!(false, vals[out[0]]);
    let mut c = Circuit::with_inputs(508);
    let out = U254::greater_than(&mut c, &wb, &wa);
    let vals = c.evaluate(&inputs);
    assert_eq!(true, vals[out[0]]);
}

#[test]
fn test_gate_histogram_determinism() {
    let wa = input_wires(0, 254);
    let wb = input_wires(254, 254);

    let mut c1 = Circuit::with_inputs(508);
    let o1 = U254::equal(&mut c1, &wa, &wb);
    let mut c2 = Circuit::with_inputs(508);
    let o2 = U254::equal(&mut c2, &wa, &wb);
    assert_eq!(c1.gate_type_counts(), c2.gate_type_counts());
    assert_eq!(o1.len(), o2.len());

    let mut c1 = Circuit::with_inputs(508);
    let _ = U254::greater_than(&mut c1, &wa, &wb);
    let mut c2 = Circuit::with_inputs(508);
    let _ = U254::greater_than(&mut c2, &wa, &wb);
    assert_eq!(c1.gate_type_counts(), c2.gate_type_counts());

    let mut c1 = Circuit::with_inputs(509);
    let _ = U254::select(&mut c1, &wa, &wb, 508);
    let mut c2 = Circuit::with_inputs(509);
    let _ = U254::select(&mut c2, &wa, &wb, 508);
    assert_eq!(c1.gate_type_counts(), c2.gate_type_counts());
}
