use qec_sim::error::{Error, ErrorType, Syndrome};
use qec_sim::pauli_string::PauliString;
use qec_sim::stabilizer::StabilizerState;

#[test]
fn test_error_detection() {
    let mut state = StabilizerState::new(3);

    let syndrome = Syndrome::from_state(&state);
    assert!(!syndrome.has_error());
    assert_eq!(syndrome.outcomes, vec![1, 1, 1]);

    let error = Error::new(0, ErrorType::X);
    error.apply_to_state(&mut state);

    let syndrome = Syndrome::from_state(&state);
    assert!(syndrome.has_error());
    assert_eq!(syndrome.triggered_stabilizers(), vec![0]);
}

#[test]
fn test_multiple_errors() {
    let mut state = StabilizerState::new(3);

    Error::new(0, ErrorType::Z).apply_to_state(&mut state);
    Error::new(2, ErrorType::X).apply_to_state(&mut state);

    let syndrome = Syndrome::from_state(&state);
    let triggered = syndrome.triggered_stabilizers();

    assert!(triggered.contains(&2));
}

#[test]
fn x_error_syndrome_on_basis() {
    let mut state = StabilizerState::new(3);
    Error::new(0, ErrorType::X).apply_to_state(&mut state);
    let syndrome = Syndrome::from_state(&state);
    assert_eq!(syndrome.outcomes, vec![-1, 1, 1]);
    assert_eq!(syndrome.triggered_stabilizers(), vec![0]);
}

#[test]
fn z_and_x_errors_trigger_both_rows() {
    // Rows X·I·I, I·Z·I, I·I·Z: a Z error on qubit 0 and an X error on qubit 2.
    let mut state = StabilizerState::from_stabilizers(
        3,
        &[
            PauliString::from_str("XII").unwrap(),
            PauliString::from_str("IZI").unwrap(),
            PauliString::from_str("IIZ").unwrap(),
        ],
    );
    Error::new(0, ErrorType::Z).apply_to_state(&mut state);
    Error::new(2, ErrorType::X).apply_to_state(&mut state);
    let triggered = Syndrome::from_state(&state).triggered_stabilizers();
    assert!(triggered.contains(&0));
    assert!(triggered.contains(&2));
    assert_eq!(triggered, vec![0, 2]);
}

#[test]
fn error_kinds_against_each_pauli() {
    let rows = [PauliString::from_str("IXYZ").unwrap()];
    // Row 0 only matters; pad to a 4-qubit state.
    let mut all = vec![rows[0].clone()];
    for q in 1..4 {
        let mut p = PauliString::identity(4);
        p.paulis[q] = qec_sim::pauli::Pauli::Z;
        all.push(p);
    }
    for (kind, flips) in [
        (ErrorType::X, [false, false, true, true]),
        (ErrorType::Y, [false, true, false, true]),
        (ErrorType::Z, [false, true, true, false]),
    ] {
        for q in 0..4 {
            let mut state = StabilizerState::from_stabilizers(4, &all);
            Error::new(q, kind).apply_to_state(&mut state);
            let outcomes = Syndrome::from_state(&state).outcomes;
            assert_eq!(outcomes[0] == -1, flips[q]);
        }
    }
}

#[test]
fn same_error_twice_cancels_on_its_own() {
    let mut state = StabilizerState::new(2);
    let e = Error::new(1, ErrorType::Y);
    e.apply_to_state(&mut state);
    assert!(Syndrome::from_state(&state).has_error());
    e.apply_to_state(&mut state);
    assert!(!Syndrome::from_state(&state).has_error());
}

#[test]
fn empty_syndrome() {
    let state = StabilizerState::new(0);
    let syndrome = Syndrome::from_state(&state);
    assert!(syndrome.outcomes.is_empty());
    assert!(!syndrome.has_error());
    assert!(syndrome.triggered_stabilizers().is_empty());
}

#[test]
fn z_and_x_errors_on_basis() {
    // Z on qubit 0 commutes with row Z·I·I; only row I·I·Z sees the X on qubit 2.
    let mut state = StabilizerState::new(3);
    Error::new(0, ErrorType::Z).apply_to_state(&mut state);
    Error::new(2, ErrorType::X).apply_to_state(&mut state);
    let syndrome = Syndrome::from_state(&state);
    assert_eq!(syndrome.outcomes, vec![1, 1, -1]);
    assert_eq!(syndrome.triggered_stabilizers(), vec![2]);
}
