use ccs_core::ccs::{CCSInstance, CCSWitness};
use ccs_core::field::FiniteField;
use ccs_core::plonkish::{PlonkishError, PlonkishStructure, Point};
use ccs_core::poly::{GatePolynomial, Monomial};

const P: u64 = 101;

fn fe(value: u64) -> FiniteField {
    FiniteField::new(value, P)
}

fn mono(coeff: u64, exponents: Vec<usize>) -> Monomial {
    Monomial { coeff: fe(coeff), exponents }
}

// A one-row, one-column trace with one selector column; the single gate
// constraint feeds the witness cell z[0] to the polynomial.
fn single_cell_structure(g: GatePolynomial, q: usize, d: usize, selector: u64) -> PlonkishStructure {
    PlonkishStructure::new(
        1,
        1,
        0,
        1,
        1,
        q,
        d,
        P,
        g,
        vec![fe(selector)],
        vec![vec![0]],
        vec![],
    )
    .unwrap()
}

fn check(structure: &PlonkishStructure, w0: u64) -> bool {
    let x = PlonkishStructure::new_instance(vec![], 1, 0).unwrap();
    let w = PlonkishStructure::new_witness(vec![fe(w0)], 1, 0).unwrap();
    structure.is_satisfied_by(&x, &w).unwrap()
}

#[test]
fn test_plonkish_satisfied() {
    // g(v) = v, evaluated at the witness cell 0.
    let g = GatePolynomial { monomials: vec![mono(1, vec![1])] };
    let structure = single_cell_structure(g, 1, 1, 1);
    assert!(check(&structure, 0));
}

#[test]
fn test_non_trivial_polynomial() {
    // g(v) = v^2 + 1 never vanishes over this field.
    let g = GatePolynomial { monomials: vec![mono(1, vec![2]), mono(1, vec![0])] };
    let structure = single_cell_structure(g, 2, 2, 1);
    assert!(!check(&structure, 0));
    assert!(!check(&structure, 1));
}

#[test]
fn test_unsatisfied_constraints() {
    // g(v) = v^2 + 1, unsatisfiable whatever the witness.
    let g = GatePolynomial { monomials: vec![mono(1, vec![2]), mono(1, vec![0])] };
    let structure = single_cell_structure(g, 2, 2, 1);
    assert!(!check(&structure, 1));
    assert!(!check(&structure, 0));
    assert!(!check(&structure, 3));
}

#[test]
fn test_non_zero_selectors() {
    // g(v) = v - 2 with a non-zero selector column.
    let g = GatePolynomial { monomials: vec![mono(1, vec![1]), mono(P - 2, vec![0])] };
    let structure = single_cell_structure(g, 2, 1, 2);
    assert!(check(&structure, 2));
    assert!(!check(&structure, 1));
    assert!(!check(&structure, 0));
    assert!(!check(&structure, 3));
}

#[test]
fn plonkish_test_plonkish_satisfied() {
    let g = GatePolynomial { monomials: vec![mono(1, vec![1])] };
    let structure = single_cell_structure(g, 1, 1, 1);
    assert!(check(&structure, 0));
}

#[test]
fn plonkish_test_non_trivial_polynomial() {
    let g = GatePolynomial { monomials: vec![mono(1, vec![2]), mono(1, vec![0])] };
    let structure = single_cell_structure(g, 2, 2, 1);
    assert!(!check(&structure, 0));
    assert!(!check(&structure, 1));
}

#[test]
fn plonkish_test_unsatisfied_constraints() {
    let g = GatePolynomial { monomials: vec![mono(1, vec![2]), mono(1, vec![0])] };
    let structure = single_cell_structure(g, 2, 2, 1);
    assert!(!check(&structure, 1));
    assert!(!check(&structure, 0));
    assert!(!check(&structure, 3));
}

#[test]
fn plonkish_test_non_zero_selectors() {
    let g = GatePolynomial { monomials: vec![mono(1, vec![1]), mono(P - 2, vec![0])] };
    let structure = single_cell_structure(g, 2, 1, 2);
    assert!(check(&structure, 2));
    assert!(!check(&structure, 1));
    assert!(!check(&structure, 0));
    assert!(!check(&structure, 3));
}

#[test]
fn test_copy_constraint_canonicalized_and_deduped() {
    // The same unordered pair given twice, once reversed, is stored
    // once, smaller point first under the column-then-row order.
    let g = GatePolynomial { monomials: vec![mono(1, vec![1, 0])] };
    let p_small = Point { x: 0, y: 1 };
    let p_large = Point { x: 1, y: 0 };
    let structure = PlonkishStructure::new(
        2,
        2,
        0,
        1,
        2,
        1,
        1,
        P,
        g,
        vec![fe(1)],
        vec![vec![0, 1], vec![0, 1]],
        vec![(p_small, p_large), (p_large, p_small)],
    )
    .unwrap();
    assert_eq!(structure.copy_constraints.len(), 1);
    let stored = structure.copy_constraints[0];
    assert_eq!(stored.points.0, p_small);
    assert_eq!(stored.points.1, p_large);
}

#[test]
fn test_copy_constraint_column_orders_before_row() {
    let cc = PlonkishStructure::new_copy_constraint(
        (Point { x: 2, y: 0 }, Point { x: 1, y: 5 }),
        6,
        3,
    )
    .unwrap();
    assert_eq!(cc.points.0, Point { x: 1, y: 5 });
    assert_eq!(cc.points.1, Point { x: 2, y: 0 });
}

#[test]
fn test_copy_constraint_out_of_range_rejected() {
    let r = PlonkishStructure::new_copy_constraint(
        (Point { x: 3, y: 0 }, Point { x: 0, y: 0 }),
        1,
        3,
    );
    assert!(matches!(r, Err(PlonkishError::DomainViolation)));
}

#[test]
fn test_gate_constraint_validation() {
    assert!(PlonkishStructure::new_gate_constraint(vec![0, 2], 2, 2).is_ok());
    assert!(matches!(
        PlonkishStructure::new_gate_constraint(vec![0], 2, 2),
        Err(PlonkishError::DimensionMismatch)
    ));
    assert!(matches!(
        PlonkishStructure::new_gate_constraint(vec![0, 3], 2, 2),
        Err(PlonkishError::DomainViolation)
    ));
}

#[test]
fn test_point_ordering() {
    let a = Point { x: 1, y: 5 };
    let b = Point { x: 2, y: 0 };
    assert!(a < b);
    assert!(Point { x: 1, y: 0 } < Point { x: 1, y: 2 });
    assert_eq!(
        a.partial_cmp(&a),
        Some(std::cmp::Ordering::Equal)
    );
}

#[test]
fn test_plonkish_degree_exceeded_rejected() {
    let g = GatePolynomial { monomials: vec![mono(1, vec![2])] };
    let r = PlonkishStructure::new(1, 1, 0, 1, 1, 1, 1, P, g, vec![fe(1)], vec![vec![0]], vec![]);
    assert!(matches!(r, Err(PlonkishError::DegreeExceeded)));
}

#[test]
fn test_plonkish_gate_index_out_of_range_rejected() {
    let g = GatePolynomial { monomials: vec![mono(1, vec![1])] };
    // n + e = 2, so the index 2 is out of range.
    let r = PlonkishStructure::new(1, 1, 0, 1, 1, 1, 1, P, g, vec![fe(1)], vec![vec![2]], vec![]);
    assert!(matches!(r, Err(PlonkishError::DomainViolation)));
}

#[test]
fn test_plonkish_selector_count_mismatch_rejected() {
    let g = GatePolynomial { monomials: vec![mono(1, vec![1])] };
    let r = PlonkishStructure::new(1, 1, 0, 2, 1, 1, 1, P, g, vec![fe(1)], vec![vec![0]], vec![]);
    assert!(matches!(r, Err(PlonkishError::DimensionMismatch)));
}

#[test]
fn test_plonkish_foreign_selector_modulus_rejected() {
    let g = GatePolynomial { monomials: vec![mono(1, vec![1])] };
    let r = PlonkishStructure::new(
        1,
        1,
        0,
        1,
        1,
        1,
        1,
        P,
        g,
        vec![FiniteField::new(1, 7)],
        vec![vec![0]],
        vec![],
    );
    assert!(matches!(r, Err(PlonkishError::ModulusMismatch)));
}

#[test]
fn test_plonkish_wrong_witness_length_is_error() {
    let g = GatePolynomial { monomials: vec![mono(1, vec![1])] };
    let structure = single_cell_structure(g, 1, 1, 1);
    let x = ccs_core::plonkish::PlonkishInstance { x: vec![] };
    let w = ccs_core::plonkish::PlonkishWitness { w: vec![fe(0), fe(0)] };
    assert!(matches!(
        structure.is_satisfied_by(&x, &w),
        Err(PlonkishError::DimensionMismatch)
    ));
}

#[test]
fn test_plonkish_copy_constraint_enforced() {
    // Trace of one row and two columns; the single row asks w0 * s0 = 0 and
    // the copy constraint asks z[0] = z[1].
    let g = GatePolynomial { monomials: vec![mono(1, vec![1, 1])] };
    let structure = PlonkishStructure::new(
        1,
        2,
        0,
        1,
        2,
        1,
        2,
        P,
        g,
        vec![fe(1)],
        vec![vec![0, 2]],
        vec![(Point { x: 0, y: 0 }, Point { x: 1, y: 0 })],
    )
    .unwrap();
    let x = PlonkishStructure::new_instance(vec![], 2, 0).unwrap();
    let both_zero = PlonkishStructure::new_witness(vec![fe(0), fe(0)], 2, 0).unwrap();
    assert!(structure.is_satisfied_by(&x, &both_zero).unwrap());
    let unequal = PlonkishStructure::new_witness(vec![fe(0), fe(1)], 2, 0).unwrap();
    assert!(!structure.is_satisfied_by(&x, &unequal).unwrap());
    let gate_broken = PlonkishStructure::new_witness(vec![fe(1), fe(1)], 2, 0).unwrap();
    assert!(!structure.is_satisfied_by(&x, &gate_broken).unwrap());
}

#[test]
fn test_plonkish_to_ccs_preserves_satisfaction() {
    // Same structure as test_plonkish_copy_constraint_enforced; the
    // derived CCS reads z' = w ‖ [1] ‖ selectors, so the selector
    // column becomes public input.
    let g = GatePolynomial { monomials: vec![mono(1, vec![1, 1])] };
    let structure = PlonkishStructure::new(
        1,
        2,
        0,
        1,
        2,
        1,
        2,
        P,
        g,
        vec![fe(1)],
        vec![vec![0, 2]],
        vec![(Point { x: 0, y: 0 }, Point { x: 1, y: 0 })],
    )
    .unwrap();
    let ccs = structure.to_ccs().unwrap();
    assert_eq!(ccs.n, 4);
    assert_eq!(ccs.m, 2);
    assert_eq!(ccs.l, 1);
    assert_eq!(ccs.t, 4);
    assert_eq!(ccs.q, 2);
    assert_eq!(ccs.d, 3);
    let x = PlonkishStructure::new_instance(vec![], 2, 0).unwrap();
    let cases: Vec<Vec<FiniteField>> = vec![
        vec![fe(0), fe(0)],
        vec![fe(0), fe(1)],
        vec![fe(1), fe(1)],
        vec![fe(7), fe(7)],
    ];
    for w in cases {
        let plonkish_result = structure
            .is_satisfied_by(
                &x,
                &PlonkishStructure::new_witness(w.clone(), 2, 0).unwrap(),
            )
            .unwrap();
        let ccs_result = ccs
            .is_satisfied_by(&CCSInstance::new(vec![fe(1)]), &CCSWitness::new(w))
            .unwrap();
        assert_eq!(plonkish_result, ccs_result);
    }
}

#[test]
fn test_plonkish_satisfaction_is_deterministic() {
    let g = GatePolynomial { monomials: vec![mono(1, vec![1])] };
    let structure = single_cell_structure(g, 1, 1, 1);
    let first = check(&structure, 0);
    let second = check(&structure, 0);
    assert_eq!(first, second);
}
