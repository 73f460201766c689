//! Constants of the BN254 curve, sourced from the `ark-bn254` library rather
//! than re-derived: the base-field modulus and the Frobenius coefficient
//! tables of the tower.  Every value is handed over as canonical little-endian
//! bits, 254 per base-field element, an `Fq2` element as `c0 ‖ c1`.

use vstd::prelude::*;
use ark_ff::{BigInteger, Fp12Config, Fp6Config, PrimeField};

verus! {

/// Relies on `ark_bn254::Fq::MODULUS`: the little-endian bits of the BN254
/// base-field modulus, truncated to its 254 significant positions.  The
/// value clause states which number that documented constant is.
#[verifier::external_body]
pub fn fq_modulus_bits() -> (r: Vec<bool>)
    ensures
        r@.len() == 254,
        crate::bits::bits_value(r@) == crate::fq::fq_modulus(),
{
    let mut bits = <ark_bn254::Fq as PrimeField>::MODULUS.to_bits_le();
    bits.resize(254, false);
    bits
}

/// The `FROBENIUS_COEFF_FP6_C1` table of `ark_bn254::Fq6Config`, each entry
/// as its canonical coefficient pair.
pub open spec fn fq6_frob_c1_val(i: int) -> (nat, nat) {
    if i == 0 {
        (1nat, 0nat)
    } else if i == 1 {
        (21575463638280843010398324269430826099269044274347216827212613867836435027261nat, 10307601595873709700152284273816112264069230130616436755625194854815875713954nat)
    } else if i == 2 {
        (21888242871839275220042445260109153167277707414472061641714758635765020556616nat, 0nat)
    } else if i == 3 {
        (3772000881919853776433695186713858239009073593817195771773381919316419345261nat, 2236595495967245188281701248203181795121068902605861227855261137820944008926nat)
    } else if i == 4 {
        (2203960485148121921418603742825762020974279258880205651966nat, 0nat)
    } else {
        (18429021223477853657660792034369865839114504446431234726392080002137598044644nat, 9344045779998320333812420223237981029506012124075525679208581902008406485703nat)
    }
}

/// The `FROBENIUS_COEFF_FP6_C2` table of `ark_bn254::Fq6Config`, each entry
/// as its canonical coefficient pair.
pub open spec fn fq6_frob_c2_val(i: int) -> (nat, nat) {
    if i == 0 {
        (1nat, 0nat)
    } else if i == 1 {
        (2581911344467009335267311115468803099551665605076196740867805258568234346338nat, 19937756971775647987995932169929341994314640652964949448313374472400716661030nat)
    } else if i == 2 {
        (2203960485148121921418603742825762020974279258880205651966nat, 0nat)
    } else if i == 3 {
        (5324479202449903542726783395506214481928257762400643279780343368557297135718nat, 16208900380737693084919495127334387981393726419856888799917914180988844123039nat)
    } else if i == 4 {
        (21888242871839275220042445260109153167277707414472061641714758635765020556616nat, 0nat)
    } else {
        (13981852324922362344252311234282257507216387789820983642040889267519694726527nat, 7629828391165209371577384193250820201684255241773809077146787135900891633097nat)
    }
}

/// The `FROBENIUS_COEFF_FP12_C1` table of `ark_bn254::Fq12Config`, each
/// entry as its canonical coefficient pair.
pub open spec fn fq12_frob_c1_val(i: int) -> (nat, nat) {
    if i == 0 {
        (1nat, 0nat)
    } else if i == 1 {
        (8376118865763821496583973867626364092589906065868298776909617916018768340080nat, 16469823323077808223889137241176536799009286646108169935659301613961712198316nat)
    } else if i == 2 {
        (21888242871839275220042445260109153167277707414472061641714758635765020556617nat, 0nat)
    } else if i == 3 {
        (11697423496358154304825782922584725312912383441159505038794027105778954184319nat, 303847389135065887422783454877609941456349188919719272345083954437860409601nat)
    } else if i == 4 {
        (21888242871839275220042445260109153167277707414472061641714758635765020556616nat, 0nat)
    } else if i == 5 {
        (3321304630594332808241809054958361220322477375291206261884409189760185844239nat, 5722266937896532885780051958958348231143373700109372999374820235121374419868nat)
    } else if i == 6 {
        (21888242871839275222246405745257275088696311157297823662689037894645226208582nat, 0nat)
    } else if i == 7 {
        (13512124006075453725662431877630910996106405091429524885779419978626457868503nat, 5418419548761466998357268504080738289687024511189653727029736280683514010267nat)
    } else if i == 8 {
        (2203960485148121921418603742825762020974279258880205651966nat, 0nat)
    } else if i == 9 {
        (10190819375481120917420622822672549775783927716138318623895010788866272024264nat, 21584395482704209334823622290379665147239961968378104390343953940207365798982nat)
    } else if i == 10 {
        (2203960485148121921418603742825762020974279258880205651967nat, 0nat)
    } else {
        (18566938241244942414004596690298913868373833782006617400804628704885040364344nat, 16165975933942742336466353786298926857552937457188450663314217659523851788715nat)
    }
}

/// Every table entry is a canonical field element, so reduced.
pub proof fn lemma_frob_coeff_vals_reduced(i: int)
    ensures
        crate::fq2::fq2_reduced(fq6_frob_c1_val(i)),
        crate::fq2::fq2_reduced(fq6_frob_c2_val(i)),
        crate::fq2::fq2_reduced(fq12_frob_c1_val(i)),
{
}

/// Relies on `ark_bn254::Fq6Config::FROBENIUS_COEFF_FP6_C1`: the `c1`
/// Frobenius coefficient of `Fq6` at step `i`, indexed modulo the table
/// length, as 508 canonical little-endian bits; the value clause states
/// which pair of numbers the documented table holds at each index.
#[verifier::external_body]
pub fn fq6_frob_c1_bits(i: usize) -> (r: Vec<bool>)
    ensures
        r@.len() == 508,
        crate::fq2::fq2_const_val(r@) == fq6_frob_c1_val((i as int) % 6),
{
    let t = <ark_bn254::Fq6Config as Fp6Config>::FROBENIUS_COEFF_FP6_C1;
    let e = t[i % t.len()];
    let mut r = e.c0.into_bigint().to_bits_le();
    r.resize(254, false);
    let mut hi = e.c1.into_bigint().to_bits_le();
    hi.resize(254, false);
    r.extend(hi);
    r
}

/// Relies on `ark_bn254::Fq6Config::FROBENIUS_COEFF_FP6_C2`: the `c2`
/// Frobenius coefficient of `Fq6` at step `i`, indexed modulo the table
/// length, as 508 canonical little-endian bits; the value clause states
/// which pair of numbers the documented table holds at each index.
#[verifier::external_body]
pub fn fq6_frob_c2_bits(i: usize) -> (r: Vec<bool>)
    ensures
        r@.len() == 508,
        crate::fq2::fq2_const_val(r@) == fq6_frob_c2_val((i as int) % 6),
{
    let t = <ark_bn254::Fq6Config as Fp6Config>::FROBENIUS_COEFF_FP6_C2;
    let e = t[i % t.len()];
    let mut r = e.c0.into_bigint().to_bits_le();
    r.resize(254, false);
    let mut hi = e.c1.into_bigint().to_bits_le();
    hi.resize(254, false);
    r.extend(hi);
    r
}

/// Relies on `ark_bn254::Fq12Config::FROBENIUS_COEFF_FP12_C1`: the `c1`
/// Frobenius coefficient of `Fq12` at step `i`, indexed modulo the table
/// length, as 508 canonical little-endian bits; the value clause states
/// which pair of numbers the documented table holds at each index.
#[verifier::external_body]
pub fn fq12_frob_c1_bits(i: usize) -> (r: Vec<bool>)
    ensures
        r@.len() == 508,
        crate::fq2::fq2_const_val(r@) == fq12_frob_c1_val((i as int) % 12),
{
    let t = <ark_bn254::Fq12Config as Fp12Config>::FROBENIUS_COEFF_FP12_C1;
    let e = t[i % t.len()];
    let mut r = e.c0.into_bigint().to_bits_le();
    r.resize(254, false);
    let mut hi = e.c1.into_bigint().to_bits_le();
    hi.resize(254, false);
    r.extend(hi);
    r
}

} // verus!
