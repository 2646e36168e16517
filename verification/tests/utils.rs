use ccs_core::field::FiniteField;
use ccs_core::poly::{GatePolynomial, Monomial};
use ccs_core::utils::{dot, hadamard, hadasum, matrix_vector_prod, scale};

fn fe(value: u64, p: u64) -> FiniteField {
    FiniteField::new(value, p)
}

#[test]
fn test_dot_product() {
    let p = 7;
    let v = vec![fe(1, p), fe(2, p)];
    let w = vec![fe(3, p), fe(4, p)];
    // 1*3 + 2*4 = 11 = 4 mod 7
    assert_eq!(dot(&v, &w, p).value, 4);
}

#[test]
fn test_matrix_vector_product() {
    let p = 7;
    let matrix = vec![
        vec![fe(1, p), fe(0, p)],
        vec![fe(2, p), fe(3, p)],
    ];
    let vector = vec![fe(5, p), fe(6, p)];
    let r = matrix_vector_prod(&matrix, &vector, p);
    // row 0: 5; row 1: 10 + 18 = 28 = 0 mod 7
    assert_eq!(r.len(), 2);
    assert_eq!(r[0].value, 5);
    assert_eq!(r[1].value, 0);
}

#[test]
fn test_hadamard_product() {
    let p = 7;
    let v1 = vec![fe(2, p), fe(3, p)];
    let v2 = vec![fe(4, p), fe(5, p)];
    let r = hadamard(&v1, &v2, p);
    // (8, 15) = (1, 1) mod 7
    assert_eq!(r[0].value, 1);
    assert_eq!(r[1].value, 1);
}

#[test]
fn test_hadamard_sum() {
    let p = 7;
    let v1 = vec![fe(2, p), fe(3, p)];
    let v2 = vec![fe(4, p), fe(5, p)];
    let r = hadasum(&v1, &v2, p);
    // (6, 8) = (6, 1) mod 7
    assert_eq!(r[0].value, 6);
    assert_eq!(r[1].value, 1);
}

#[test]
fn test_scale() {
    let p = 7;
    let v = vec![fe(2, p), fe(3, p)];
    let r = scale(fe(3, p), &v, p);
    // (6, 9) = (6, 2) mod 7
    assert_eq!(r[0].value, 6);
    assert_eq!(r[1].value, 2);
}

#[test]
fn test_polynomial_evaluation() {
    let p = 11;
    // g(v0, v1) = 2*v0^2*v1 + 3
    let g = GatePolynomial {
        monomials: vec![
            Monomial { coeff: fe(2, p), exponents: vec![2, 1] },
            Monomial { coeff: fe(3, p), exponents: vec![0, 0] },
        ],
    };
    let point = vec![fe(4, p), fe(5, p)];
    // 2*16*5 + 3 = 163 = 9 mod 11
    assert_eq!(g.evaluate(&point, p).value, 9);
}
