use ccs_core::field::FiniteField;

fn fe(value: u64, p: u64) -> FiniteField {
    FiniteField::new(value, p)
}

#[test]
fn test_add() {
    let a = fe(3, 5);
    let b = fe(4, 5);
    let result = a.add(b);
    assert_eq!(result.value, 2);
}

#[test]
fn test_sub() {
    let a = fe(3, 5);
    let b = fe(4, 5);
    let result = a.sub(b);
    assert_eq!(result.value, 4);
}

#[test]
fn test_mul() {
    let a = fe(3, 5);
    let b = fe(4, 5);
    let result = a.mul(b);
    assert_eq!(result.value, 2);
}

#[test]
fn test_div() {
    let a = fe(3, 5);
    let b = fe(4, 5);
    let result = a.div(b);
    assert_eq!(result.unwrap().value, 2);
}

#[test]
fn test_inverse() {
    let a = fe(3, 5);
    let inverse = a.inverse();
    assert_eq!(inverse.unwrap().value, 2);
}

#[test]
fn test_div_by_zero_is_error() {
    let a = fe(3, 5);
    let b = fe(0, 5);
    assert!(a.div(b).is_err());
}

#[test]
fn test_inverse_of_zero_is_error() {
    let a = fe(0, 5);
    assert!(a.inverse().is_err());
}

#[test]
fn test_inverse_without_coprimality_is_error() {
    let a = fe(2, 4);
    assert!(a.inverse().is_err());
}

#[test]
fn test_inverse_against_large_prime() {
    let p: u64 = 0xffff_ffff_0000_0001;
    let a = fe(123_456_789, p);
    let inv = a.inverse().unwrap();
    let product = a.mul(inv);
    assert_eq!(product.value, 1);
}

#[test]
fn test_new_reduces_value() {
    let a = fe(12, 5);
    assert_eq!(a.value, 2);
    assert_eq!(a.p, 5);
}

#[test]
fn test_addition_commutes() {
    let a = fe(3, 7);
    let b = fe(5, 7);
    assert_eq!(a.add(b), b.add(a));
}

#[test]
fn test_addition_associates() {
    let a = fe(3, 7);
    let b = fe(5, 7);
    let c = fe(6, 7);
    assert_eq!(a.add(b).add(c), a.add(b.add(c)));
}

#[test]
fn test_multiplication_distributes() {
    let a = fe(3, 7);
    let b = fe(5, 7);
    let c = fe(6, 7);
    assert_eq!(a.mul(b.add(c)), a.mul(b).add(a.mul(c)));
}

#[test]
fn test_additive_identity() {
    let a = fe(4, 7);
    assert_eq!(a.add(FiniteField::zero(7)), a);
}

#[test]
fn test_multiplicative_identity() {
    let a = fe(4, 7);
    assert_eq!(a.mul(FiniteField::one(7)), a);
}

#[test]
fn test_inverse_law_for_all_nonzero_small_prime() {
    let p: u64 = 11;
    for v in 1..p {
        let a = fe(v, p);
        let inv = a.inverse().unwrap();
        assert_eq!(a.mul(inv).value, 1);
    }
}
