use qec_sim::failure::QecError;
use qec_sim::pauli::{Pauli, Phase};
use qec_sim::pauli_string::PauliString;

#[test]
fn test_pauli_multiply() {
    assert_eq!(Pauli::X.multiply(Pauli::Y), (Phase::PlusI, Pauli::Z));
    assert_eq!(Pauli::Y.multiply(Pauli::X), (Phase::MinusI, Pauli::Z));
    assert_eq!(Pauli::X.multiply(Pauli::X), (Phase::Plus, Pauli::I));
}

#[test]
fn test_pauli_commute() {
    assert!(Pauli::X.commutes_with(Pauli::X));
    assert!(Pauli::I.commutes_with(Pauli::Y));
    assert!(!Pauli::X.commutes_with(Pauli::Z));
}

#[test]
fn test_pauli_string_multiply() {
    let left = PauliString::from_str("XY").unwrap();
    let right = PauliString::from_str("YZ").unwrap();
    let result = left.multiply(&right).unwrap();

    // XY * YZ = (X*Y)(Y*Z) = (iZ)(iX) = -ZX
    assert_eq!(result.phase, Phase::Minus);
    assert_eq!(result.paulis, vec![Pauli::Z, Pauli::X]);
}

#[test]
fn test_pauli_string_commute() {
    let xx = PauliString::from_str("XX").unwrap();
    let zz = PauliString::from_str("ZZ").unwrap();
    assert!(xx.commutes_with(&zz).unwrap());

    let xi = PauliString::from_str("XI").unwrap();
    let zi = PauliString::from_str("ZI").unwrap();
    assert!(!xi.commutes_with(&zi).unwrap());
}

#[test]
fn full_pauli_table() {
    let (i, x, y, z) = (Pauli::I, Pauli::X, Pauli::Y, Pauli::Z);
    let (one, pi, mi) = (Phase::Plus, Phase::PlusI, Phase::MinusI);
    let cases = [
        (i, i, one, i),
        (i, x, one, x),
        (i, y, one, y),
        (i, z, one, z),
        (x, i, one, x),
        (y, i, one, y),
        (z, i, one, z),
        (x, x, one, i),
        (y, y, one, i),
        (z, z, one, i),
        (x, y, pi, z),
        (y, x, mi, z),
        (y, z, pi, x),
        (z, y, mi, x),
        (z, x, pi, y),
        (x, z, mi, y),
    ];
    for (a, b, ph, p) in cases {
        assert_eq!(a.multiply(b), (ph, p));
    }
}

#[test]
fn reversed_products_have_conjugate_phases() {
    let all = [Pauli::X, Pauli::Y, Pauli::Z];
    for a in all {
        for b in all {
            if a != b {
                let (pa, ra) = a.multiply(b);
                let (pb, rb) = b.multiply(a);
                assert_eq!(ra, rb);
                assert_eq!(pa.multiply(pb), Phase::Plus);
                assert_ne!(pa, pb);
            }
        }
    }
}

#[test]
fn commutation_is_symmetric() {
    let all = [Pauli::I, Pauli::X, Pauli::Y, Pauli::Z];
    for a in all {
        assert!(Pauli::I.commutes_with(a));
        for b in all {
            assert_eq!(a.commutes_with(b), b.commutes_with(a));
        }
    }
    assert!(!Pauli::X.commutes_with(Pauli::Z));
    assert!(!Pauli::Y.commutes_with(Pauli::Z));
}

#[test]
fn pauli_chars_round_trip() {
    for p in [Pauli::I, Pauli::X, Pauli::Y, Pauli::Z] {
        assert_eq!(Pauli::from_char(p.to_char()), Some(p));
    }
    assert_eq!(Pauli::X.to_char(), 'X');
    assert_eq!(Pauli::from_char('i'), None);
    assert_eq!(Pauli::from_char('x'), None);
}

#[test]
fn phase_group() {
    assert_eq!(Phase::PlusI.multiply(Phase::PlusI), Phase::Minus);
    assert_eq!(Phase::PlusI.multiply(Phase::MinusI), Phase::Plus);
    assert_eq!(Phase::Minus.multiply(Phase::MinusI), Phase::PlusI);
    assert_eq!(Phase::MinusI.multiply(Phase::MinusI), Phase::Minus);
    assert_eq!(Phase::Plus.multiply(Phase::MinusI), Phase::MinusI);
    assert_eq!(Phase::Plus.sign(), 1);
    assert_eq!(Phase::PlusI.sign(), 1);
    assert_eq!(Phase::Minus.sign(), -1);
    assert_eq!(Phase::MinusI.sign(), -1);
    assert_eq!(Phase::Plus.negate(), Phase::Minus);
    assert_eq!(Phase::Minus.negate(), Phase::Plus);
    assert_eq!(Phase::PlusI.negate(), Phase::MinusI);
    assert_eq!(Phase::MinusI.negate(), Phase::PlusI);
}

#[test]
fn string_multiply_uses_both_phases() {
    let mut left = PauliString::from_str("XZ").unwrap();
    left.phase = Phase::Minus;
    let mut right = PauliString::from_str("ZZ").unwrap();
    right.phase = Phase::PlusI;
    // (-1)(+i) times the sites X*Z = -iY and Z*Z = I: -Y on the first qubit.
    let r = left.multiply(&right).unwrap();
    assert_eq!(r.paulis, vec![Pauli::Y, Pauli::I]);
    assert_eq!(r.phase, Phase::Minus);
}

#[test]
fn length_mismatch_is_reported() {
    let a = PauliString::from_str("XX").unwrap();
    let b = PauliString::from_str("XXX").unwrap();
    assert_eq!(a.multiply(&b), Err(QecError::LengthMismatch));
    assert_eq!(a.commutes_with(&b), Err(QecError::LengthMismatch));
}

#[test]
fn identity_string() {
    let id = PauliString::identity(3);
    assert_eq!(id.phase, Phase::Plus);
    assert_eq!(id.paulis, vec![Pauli::I, Pauli::I, Pauli::I]);
    assert_eq!(id.n_qubits(), 3);
    assert_eq!(id.to_string(), "III");
    assert_eq!(PauliString::identity(0).to_string(), "");
}

#[test]
fn text_form_with_phase_prefixes() {
    let cases = ["XYZ", "-XYZ", "+iIX", "-iZ", "", "-", "-I"];
    for text in cases {
        let p = PauliString::from_str(text).unwrap();
        assert_eq!(p.to_string(), text);
    }
    let p = PauliString::from_str("-iXI").unwrap();
    assert_eq!(p.phase, Phase::MinusI);
    assert_eq!(p.paulis, vec![Pauli::X, Pauli::I]);
    let p = PauliString::from_str("-IX").unwrap();
    assert_eq!(p.phase, Phase::Minus);
    assert_eq!(p.paulis, vec![Pauli::I, Pauli::X]);
}

#[test]
fn text_form_rejects_other_characters() {
    assert!(PauliString::from_str("XQ").is_none());
    assert!(PauliString::from_str("+X").is_none());
    assert!(PauliString::from_str("x").is_none());
    assert!(PauliString::from_str("i").is_none());
}

#[test]
fn text_form_with_declared_size() {
    let p = PauliString::from_str_sized("-iXYZ", 3).unwrap();
    assert_eq!(p.phase, Phase::MinusI);
    assert_eq!(p.n_qubits(), 3);
    assert!(PauliString::from_str_sized("XYZ", 2).is_none());
    assert!(PauliString::from_str_sized("-XY", 3).is_none());
    assert!(PauliString::from_str_sized("XQZ", 3).is_none());
    assert!(PauliString::from_str_sized("", 0).is_some());
}
