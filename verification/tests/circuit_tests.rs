use zkgrid::felt::Felt;
use zkgrid::simple::run_mul_circuit;
use zkgrid::tutorial::run_product_circuit;

#[test]
fn main_test_ab_mul_c_succeeds() {
    let k: usize = 4;
    let a = Felt::from_u64(3);
    let b = Felt::from_u64(4);
    let c = a.mul(b);
    let instance = vec![c];
    assert!(run_mul_circuit(a, b, c, &instance, k));
}

#[test]
fn main_test_ab_mul_c_fails() {
    let k: usize = 4;
    let a = Felt::from_u64(3);
    let b = Felt::from_u64(4);
    let wrong_c = a.mul(b).add(Felt::one());
    let instance = vec![wrong_c];
    assert!(!run_mul_circuit(a, b, a.mul(b), &instance, k));
}

#[test]
fn test_test_ab_mul_c_succeeds() {
    let k: usize = 4;
    let a = Felt::from_u64(3);
    let b = Felt::from_u64(4);
    let c = a.mul(b);
    let instance = vec![c];
    assert!(run_mul_circuit(a, b, c, &instance, k));
}

#[test]
fn test_test_ab_mul_c_fails() {
    let k: usize = 4;
    let a = Felt::from_u64(3);
    let b = Felt::from_u64(4);
    let wrong_c = a.mul(b).add(Felt::one());
    let instance = vec![wrong_c];
    assert!(!run_mul_circuit(a, b, a.mul(b), &instance, k));
}

#[test]
fn tutorial_three_times_four_accepts_twelve() {
    let a = Felt::from_u64(3);
    let b = Felt::from_u64(4);
    let instance = vec![Felt::from_u64(12)];
    assert!(run_product_circuit(a, b, &instance, 4));
}

#[test]
fn tutorial_three_times_four_rejects_thirteen() {
    let a = Felt::from_u64(3);
    let b = Felt::from_u64(4);
    let instance = vec![Felt::from_u64(13)];
    assert!(!run_product_circuit(a, b, &instance, 4));
}

#[test]
fn mul_circuit_accepts_twelve_and_rejects_thirteen() {
    let a = Felt::from_u64(3);
    let b = Felt::from_u64(4);
    let c = Felt::from_u64(12);
    assert!(run_mul_circuit(a, b, c, &vec![Felt::from_u64(12)], 4));
    assert!(!run_mul_circuit(a, b, c, &vec![Felt::from_u64(13)], 4));
}

#[test]
fn mul_circuit_rejects_wrong_claimed_product() {
    // The claimed product reaches the exposed cell only through a copy
    // constraint; claiming 13 for 3*4 fails that check even when the
    // public input matches the claim.
    let a = Felt::from_u64(3);
    let b = Felt::from_u64(4);
    let c = Felt::from_u64(13);
    assert!(!run_mul_circuit(a, b, c, &vec![Felt::from_u64(13)], 4));
}

#[test]
fn empty_public_input_rejects() {
    let a = Felt::from_u64(3);
    let b = Felt::from_u64(4);
    let c = Felt::from_u64(12);
    let instance: Vec<Felt> = Vec::new();
    assert!(!run_mul_circuit(a, b, c, &instance, 4));
    assert!(!run_product_circuit(a, b, &instance, 4));
}

#[test]
fn large_factors_wrap_modulo_the_prime() {
    // 2^32 * 2^32 = 2^64 == 2^32 - 1 modulo the prime 2^64 - 2^32 + 1.
    let big = Felt::from_u64(0x1_0000_0000);
    let expected = Felt::from_u64(0xFFFF_FFFF);
    let instance = vec![expected];
    assert!(run_product_circuit(big, big, &instance, 4));
    assert!(run_mul_circuit(big, big, expected, &instance, 4));
}
