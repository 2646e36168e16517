use ccs_core::field::FiniteField;
use ccs_core::r1cs::{R1CSError, R1CSInstance, R1CSWitness};
use ccs_core::R1CS;

fn fe(value: u64, p: u64) -> FiniteField {
    FiniteField::new(value, p)
}

fn one_by_one(c_entry: u64, p: u64) -> R1CS {
    let a = vec![vec![fe(1, p)]];
    let b = vec![vec![fe(1, p)]];
    let c = vec![vec![fe(c_entry, p)]];
    R1CS::new(1, 1, 0, 1, p, a, b, c).unwrap()
}

#[test]
fn test_r1cs_trivial_structure_satisfied() {
    // A = B = C = [[1]], z = [1]: 1*1 - 1 = 0.
    let r1cs = one_by_one(1, 5);
    let instance = R1CSInstance::new(vec![]);
    let witness = R1CSWitness::new(vec![]);
    assert_eq!(r1cs.is_satisfied_by(&instance, &witness).unwrap(), true);
}

#[test]
fn test_r1cs_trivial_structure_unsatisfied() {
    // Same structure but C = [[2]]: 1*1 - 2 != 0.
    let r1cs = one_by_one(2, 5);
    let instance = R1CSInstance::new(vec![]);
    let witness = R1CSWitness::new(vec![]);
    assert_eq!(r1cs.is_satisfied_by(&instance, &witness).unwrap(), false);
}

// A structure over F_13 with two constraints checking w0 * w0 = x0 and
// w0 * x0 = w1, on z = (w0, w1, 1, x0).
fn square_and_cube(p: u64) -> R1CS {
    let zero = fe(0, p);
    let one = fe(1, p);
    let a = vec![
        vec![one, zero, zero, zero],
        vec![one, zero, zero, zero],
    ];
    let b = vec![
        vec![one, zero, zero, zero],
        vec![zero, zero, zero, one],
    ];
    let c = vec![
        vec![zero, zero, zero, one],
        vec![zero, one, zero, zero],
    ];
    R1CS::new(4, 2, 1, 4, p, a, b, c).unwrap()
}

#[test]
fn test_r1cs_square_and_cube_relation() {
    let p = 13;
    let r1cs = square_and_cube(p);
    // w = (3, 9), x = (9): 3*3 = 9 and 3*9 = 27 = 1 mod 13... 27 mod 13 = 1, so w1 must be 1.
    let good_w = R1CSWitness::new(vec![fe(3, p), fe(1, p)]);
    let good_x = R1CSInstance::new(vec![fe(9, p)]);
    assert_eq!(r1cs.is_satisfied_by(&good_x, &good_w).unwrap(), true);
    let bad_w = R1CSWitness::new(vec![fe(3, p), fe(2, p)]);
    assert_eq!(r1cs.is_satisfied_by(&good_x, &bad_w).unwrap(), false);
}

#[test]
fn test_r1cs_to_ccs_preserves_satisfaction() {
    let p = 13;
    let r1cs = square_and_cube(p);
    let ccs = r1cs.to_ccs();
    let cases: Vec<(Vec<FiniteField>, Vec<FiniteField>)> = vec![
        (vec![fe(3, p), fe(1, p)], vec![fe(9, p)]),
        (vec![fe(3, p), fe(2, p)], vec![fe(9, p)]),
        (vec![fe(0, p), fe(0, p)], vec![fe(0, p)]),
        (vec![fe(5, p), fe(8, p)], vec![fe(12, p)]),
    ];
    for (w, x) in cases {
        let from_r1cs = r1cs
            .is_satisfied_by(&R1CSInstance::new(x.clone()), &R1CSWitness::new(w.clone()))
            .unwrap();
        let from_ccs = ccs
            .is_satisfied_by(
                &ccs_core::ccs::CCSInstance::new(x),
                &ccs_core::ccs::CCSWitness::new(w),
            )
            .unwrap();
        assert_eq!(from_r1cs, from_ccs);
    }
}

#[test]
fn test_r1cs_to_ccs_shape() {
    let r1cs = square_and_cube(13);
    let ccs = r1cs.to_ccs();
    assert_eq!(ccs.t, 3);
    assert_eq!(ccs.q, 2);
    assert_eq!(ccs.d, 2);
    assert_eq!(ccs.n, 4);
    assert_eq!(ccs.m, 2);
    assert_eq!(ccs.l, 1);
    assert_eq!(ccs.multisets, vec![vec![0, 1], vec![2]]);
    assert_eq!(ccs.constants[0].value, 1);
    assert_eq!(ccs.constants[1].value, 12);
}

#[test]
fn test_r1cs_wrong_witness_length_is_error() {
    let r1cs = one_by_one(1, 5);
    let instance = R1CSInstance::new(vec![]);
    let witness = R1CSWitness::new(vec![fe(1, 5)]);
    assert!(matches!(
        r1cs.is_satisfied_by(&instance, &witness),
        Err(R1CSError::DimensionMismatch)
    ));
}

#[test]
fn test_r1cs_foreign_modulus_is_error() {
    let r1cs = square_and_cube(13);
    let witness = R1CSWitness::new(vec![fe(3, 13), fe(1, 7)]);
    let instance = R1CSInstance::new(vec![fe(9, 13)]);
    assert!(matches!(
        r1cs.is_satisfied_by(&instance, &witness),
        Err(R1CSError::ModulusMismatch)
    ));
}

#[test]
fn test_r1cs_rejects_jagged_matrix() {
    let p = 5;
    let a = vec![vec![fe(1, p)], vec![fe(1, p), fe(1, p)]];
    let b = vec![vec![fe(1, p)], vec![fe(1, p)]];
    let c = vec![vec![fe(1, p)], vec![fe(1, p)]];
    assert!(matches!(
        R1CS::new(1, 2, 0, 2, p, a, b, c),
        Err(R1CSError::ShapeMismatch)
    ));
}

#[test]
fn test_r1cs_rejects_n_not_greater_than_l() {
    let p = 5;
    let a = vec![vec![fe(1, p)]];
    let b = vec![vec![fe(1, p)]];
    let c = vec![vec![fe(1, p)]];
    assert!(matches!(
        R1CS::new(1, 1, 1, 1, p, a, b, c),
        Err(R1CSError::DimensionMismatch)
    ));
}

#[test]
fn test_r1cs_rejects_degenerate_modulus() {
    let a: Vec<Vec<FiniteField>> = vec![];
    let b: Vec<Vec<FiniteField>> = vec![];
    let c: Vec<Vec<FiniteField>> = vec![];
    assert!(matches!(
        R1CS::new(1, 0, 0, 0, 1, a, b, c),
        Err(R1CSError::InvalidModulus)
    ));
}

#[test]
fn test_r1cs_rejects_foreign_modulus_entry() {
    let p = 5;
    let a = vec![vec![fe(1, 7)]];
    let b = vec![vec![fe(1, p)]];
    let c = vec![vec![fe(1, p)]];
    assert!(matches!(
        R1CS::new(1, 1, 0, 1, p, a, b, c),
        Err(R1CSError::ModulusMismatch)
    ));
}

#[test]
fn test_r1cs_satisfaction_is_deterministic() {
    let p = 13;
    let r1cs = square_and_cube(p);
    let w = R1CSWitness::new(vec![fe(3, p), fe(1, p)]);
    let x = R1CSInstance::new(vec![fe(9, p)]);
    let first = r1cs.is_satisfied_by(&x, &w).unwrap();
    let second = r1cs.is_satisfied_by(&x, &w).unwrap();
    assert_eq!(first, second);
}
