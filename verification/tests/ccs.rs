use ccs_core::ccs::{CCSError, CCSInstance, CCSWitness};
use ccs_core::field::FiniteField;
use ccs_core::CCS;

fn fe(value: u64, p: u64) -> FiniteField {
    FiniteField::new(value, p)
}

// The CCS form of the 1x1 R1CS structure with A = B = [[1]], C = [[c]]:
// t = 3 matrices, multisets {0,1} and {2}, constants [1, -1].
fn r1cs_shaped_ccs(c_entry: u64, p: u64) -> CCS {
    let matrices = vec![
        vec![vec![fe(1, p)]],
        vec![vec![fe(1, p)]],
        vec![vec![fe(c_entry, p)]],
    ];
    let multisets = vec![vec![0, 1], vec![2]];
    let constants = vec![fe(1, p), fe(p - 1, p)];
    CCS::new(1, 1, 0, 1, 3, 2, 2, p, matrices, multisets, constants).unwrap()
}

#[test]
fn test_ccs_trivial_structure_satisfied() {
    let ccs = r1cs_shaped_ccs(1, 5);
    let instance = CCSInstance::new(vec![]);
    let witness = CCSWitness::new(vec![]);
    assert_eq!(ccs.is_satisfied_by(&instance, &witness).unwrap(), true);
}

#[test]
fn test_ccs_trivial_structure_unsatisfied() {
    let ccs = r1cs_shaped_ccs(2, 5);
    let instance = CCSInstance::new(vec![]);
    let witness = CCSWitness::new(vec![]);
    assert_eq!(ccs.is_satisfied_by(&instance, &witness).unwrap(), false);
}

#[test]
fn test_ccs_repeated_index_squares_contribution() {
    // One matrix, multiset {0, 0}: the term is (M.z) o (M.z), so the
    // relation asks w0^2 - x0 = 0 on z = (w0, 1, x0).
    let p = 13;
    let m0 = vec![vec![fe(1, p), fe(0, p), fe(0, p)]];
    let m1 = vec![vec![fe(0, p), fe(0, p), fe(1, p)]];
    let matrices = vec![m0, m1];
    let multisets = vec![vec![0, 0], vec![1]];
    let constants = vec![fe(1, p), fe(p - 1, p)];
    let ccs = CCS::new(3, 1, 1, 3, 2, 2, 2, p, matrices, multisets, constants).unwrap();
    let good_w = CCSWitness::new(vec![fe(5, p)]);
    let good_x = CCSInstance::new(vec![fe(12, p)]);
    assert_eq!(ccs.is_satisfied_by(&good_x, &good_w).unwrap(), true);
    let bad_x = CCSInstance::new(vec![fe(11, p)]);
    assert_eq!(ccs.is_satisfied_by(&bad_x, &good_w).unwrap(), false);
}

#[test]
fn test_ccs_multiset_cardinality_rejected() {
    // d = 1 but the first multiset has cardinality 2.
    let p = 5;
    let matrices = vec![vec![vec![fe(1, p)]], vec![vec![fe(1, p)]]];
    let multisets = vec![vec![0, 0], vec![1]];
    let constants = vec![fe(1, p), fe(1, p)];
    let r = CCS::new(1, 1, 0, 1, 2, 2, 1, p, matrices, multisets, constants);
    assert!(matches!(r, Err(CCSError::CardinalityExceeded)));
}

#[test]
fn test_ccs_multiset_domain_rejected() {
    // t = 2 but a multiset holds the index 2.
    let p = 5;
    let matrices = vec![vec![vec![fe(1, p)]], vec![vec![fe(1, p)]]];
    let multisets = vec![vec![0, 2], vec![1]];
    let constants = vec![fe(1, p), fe(1, p)];
    let r = CCS::new(1, 1, 0, 1, 2, 2, 2, p, matrices, multisets, constants);
    assert!(matches!(r, Err(CCSError::DomainViolation)));
}

#[test]
fn test_ccs_matrix_count_mismatch_rejected() {
    let p = 5;
    let matrices = vec![vec![vec![fe(1, p)]]];
    let multisets = vec![vec![0], vec![0]];
    let constants = vec![fe(1, p), fe(1, p)];
    let r = CCS::new(1, 1, 0, 1, 2, 2, 1, p, matrices, multisets, constants);
    assert!(matches!(r, Err(CCSError::MatrixCountMismatch)));
}

#[test]
fn test_ccs_multiset_count_mismatch_rejected() {
    let p = 5;
    let matrices = vec![vec![vec![fe(1, p)]]];
    let multisets = vec![vec![0], vec![0]];
    let constants = vec![fe(1, p)];
    let r = CCS::new(1, 1, 0, 1, 1, 1, 1, p, matrices, multisets, constants);
    assert!(matches!(r, Err(CCSError::MultisetCountMismatch)));
}

#[test]
fn test_ccs_constants_count_mismatch_rejected() {
    let p = 5;
    let matrices = vec![vec![vec![fe(1, p)]]];
    let multisets = vec![vec![0]];
    let constants = vec![fe(1, p), fe(1, p)];
    let r = CCS::new(1, 1, 0, 1, 1, 1, 1, p, matrices, multisets, constants);
    assert!(matches!(r, Err(CCSError::ConstantCountMismatch)));
}

#[test]
fn test_ccs_shape_mismatch_rejected() {
    // Declared 1x2 but the matrix row has a single entry.
    let p = 5;
    let matrices = vec![vec![vec![fe(1, p)]]];
    let multisets = vec![vec![0]];
    let constants = vec![fe(1, p)];
    let r = CCS::new(2, 1, 0, 1, 1, 1, 1, p, matrices, multisets, constants);
    assert!(matches!(r, Err(CCSError::ShapeMismatch)));
}

#[test]
fn test_ccs_wrong_witness_length_is_error() {
    let ccs = r1cs_shaped_ccs(1, 5);
    let instance = CCSInstance::new(vec![]);
    let witness = CCSWitness::new(vec![fe(1, 5)]);
    assert!(matches!(
        ccs.is_satisfied_by(&instance, &witness),
        Err(CCSError::DimensionMismatch)
    ));
}

#[test]
fn test_ccs_foreign_modulus_is_error() {
    let p = 13;
    let m0 = vec![vec![fe(1, p), fe(0, p), fe(0, p)]];
    let m1 = vec![vec![fe(0, p), fe(0, p), fe(1, p)]];
    let matrices = vec![m0, m1];
    let multisets = vec![vec![0, 0], vec![1]];
    let constants = vec![fe(1, p), fe(p - 1, p)];
    let ccs = CCS::new(3, 1, 1, 3, 2, 2, 2, p, matrices, multisets, constants).unwrap();
    let witness = CCSWitness::new(vec![fe(5, 7)]);
    let instance = CCSInstance::new(vec![fe(12, p)]);
    assert!(matches!(
        ccs.is_satisfied_by(&instance, &witness),
        Err(CCSError::ModulusMismatch)
    ));
}

#[test]
fn test_ccs_satisfaction_is_deterministic() {
    let ccs = r1cs_shaped_ccs(1, 5);
    let instance = CCSInstance::new(vec![]);
    let witness = CCSWitness::new(vec![]);
    let first = ccs.is_satisfied_by(&instance, &witness).unwrap();
    let second = ccs.is_satisfied_by(&instance, &witness).unwrap();
    assert_eq!(first, second);
}
