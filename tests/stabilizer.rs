use qec_sim::pauli::{Pauli, Phase};
use qec_sim::pauli_string::PauliString;
use qec_sim::stabilizer::StabilizerState;

fn texts(state: &StabilizerState) -> Vec<String> {
    state.get_all_stabilizers().iter().map(|s| s.to_string()).collect()
}

#[test]
fn test_initial_state() {
    let state = StabilizerState::new(3);

    let stabs = state.get_all_stabilizers();
    assert_eq!(stabs[0].to_string(), "ZII");
    assert_eq!(stabs[1].to_string(), "IZI");
    assert_eq!(stabs[2].to_string(), "IIZ");
}

#[test]
fn test_hadamard() {
    let mut state = StabilizerState::new(1);
    state.apply_h(0);
    let stab = state.get_stabilizer(0);
    assert_eq!(stab.to_string(), "X");
}

#[test]
fn test_cnot() {
    let mut state = StabilizerState::new(2);
    state.apply_h(0);
    state.apply_cnot(0, 1);
    let stabs = state.get_all_stabilizers();
    assert_eq!(stabs[0].to_string(), "XX");
    assert_eq!(stabs[1].to_string(), "ZZ");
}

#[test]
fn basis_rows_for_several_sizes() {
    for n in 0..6usize {
        let state = StabilizerState::new(n);
        assert_eq!(state.n_qubits(), n);
        let stabs = state.get_all_stabilizers();
        assert_eq!(stabs.len(), n);
        for i in 0..n {
            let expected: String = (0..n).map(|q| if q == i { 'Z' } else { 'I' }).collect();
            assert_eq!(stabs[i].to_string(), expected);
            assert_eq!(stabs[i].phase, Phase::Plus);
        }
    }
}

fn mixed_state() -> StabilizerState {
    let rows = [
        PauliString::from_str("-XYZ").unwrap(),
        PauliString::from_str("YIX").unwrap(),
        PauliString::from_str("ZZY").unwrap(),
    ];
    StabilizerState::from_stabilizers(3, &rows)
}

#[test]
fn hadamard_twice_restores() {
    for q in 0..3 {
        let mut state = mixed_state();
        let before = texts(&state);
        state.apply_h(q);
        assert_ne!(texts(&state), before);
        state.apply_h(q);
        assert_eq!(texts(&state), before);
    }
}

#[test]
fn cnot_twice_restores() {
    for c in 0..3 {
        for t in 0..3 {
            if c != t {
                let mut state = mixed_state();
                let before = texts(&state);
                state.apply_cnot(c, t);
                state.apply_cnot(c, t);
                assert_eq!(texts(&state), before);
            }
        }
    }
}

#[test]
fn hadamard_on_y_flips_sign() {
    let mut state = StabilizerState::from_stabilizers(1, &[PauliString::from_str("Y").unwrap()]);
    state.apply_h(0);
    assert_eq!(state.get_stabilizer(0).to_string(), "-Y");
}

#[test]
fn phase_gate_rules() {
    let mut state = StabilizerState::from_stabilizers(
        3,
        &[
            PauliString::from_str("XII").unwrap(),
            PauliString::from_str("YII").unwrap(),
            PauliString::from_str("ZII").unwrap(),
        ],
    );
    state.apply_s(0);
    assert_eq!(texts(&state), vec!["YII", "-XII", "ZII"]);
}

#[test]
fn cnot_sign_rule() {
    // Row 0: X(c)=1, Z(t)=1, X(t)=1, Z(c)=0: the sign flips.
    // Row 1: X(c)=1, Z(t)=1, X(t)=0, Z(c)=0: it does not.
    let mut state = StabilizerState::from_stabilizers(
        2,
        &[PauliString::from_str("XY").unwrap(), PauliString::from_str("XZ").unwrap()],
    );
    state.apply_cnot(0, 1);
    assert_eq!(texts(&state), vec!["-YZ", "YY"]);
}

#[test]
fn cz_rules() {
    let mut state = StabilizerState::from_stabilizers(
        2,
        &[PauliString::from_str("XI").unwrap(), PauliString::from_str("XY").unwrap()],
    );
    state.apply_cz(0, 1);
    // XI -> XZ; XY: Z0 ^= X1, Z1 ^= X0, sign flips as Z0 != Z1 before.
    assert_eq!(texts(&state), vec!["XZ", "-YX"]);
}

#[test]
fn set_stabilizer_overwrites_one_row() {
    let mut state = StabilizerState::new(2);
    state.set_stabilizer(1, &PauliString::from_str("-XY").unwrap());
    assert_eq!(texts(&state), vec!["ZI", "-XY"]);
    // Imaginary phases are stored as sign +1.
    state.set_stabilizer(0, &PauliString::from_str("+iYY").unwrap());
    assert_eq!(texts(&state), vec!["YY", "-XY"]);
}

#[test]
fn from_stabilizers_installs_rows() {
    let state = mixed_state();
    assert_eq!(texts(&state), vec!["-XYZ", "YIX", "ZZY"]);
    assert_eq!(state.get_stabilizer(0).paulis, vec![Pauli::X, Pauli::Y, Pauli::Z]);
}

#[test]
fn g_function_table() {
    // Bits (x, z): I = (0,0), X = (1,0), Z = (0,1), Y = (1,1).
    let bits = [(false, false), (true, false), (false, true), (true, true)];
    // Rows: the receiving row's Pauli I, X, Z, Y; columns: the added row's.
    let table = [[0, 0, 0, 0], [0, 1, -1, 0], [0, 1, -1, 0], [0, -1, 1, 0]];
    for (i, &(x1, z1)) in bits.iter().enumerate() {
        for (j, &(x2, z2)) in bits.iter().enumerate() {
            assert_eq!(StabilizerState::g_function(x1, z1, x2, z2), table[i][j]);
        }
    }
    assert_eq!(StabilizerState::g_function(true, false, true, false), 1);
    assert_eq!(StabilizerState::g_function(false, true, false, true), -1);
    assert_eq!(StabilizerState::g_function(true, true, false, true), 1);
    assert_eq!(StabilizerState::g_function(true, false, true, true), 0);
}

#[test]
fn row_add_counts_x_against_x() {
    // XX + XX: g = +1 on each site, total 2: the sign flips and the row clears.
    let mut state = StabilizerState::from_stabilizers(
        2,
        &[PauliString::from_str("XX").unwrap(), PauliString::from_str("XX").unwrap()],
    );
    state.row_add(0, 1);
    assert_eq!(texts(&state), vec!["-II", "XX"]);
}

#[test]
fn row_add_xors_and_tracks_sign() {
    // XX + ZZ: g = -1 on each site, total -2, which is 2 mod 4: sign flips.
    let mut state = StabilizerState::from_stabilizers(
        2,
        &[PauliString::from_str("XX").unwrap(), PauliString::from_str("ZZ").unwrap()],
    );
    state.row_add(0, 1);
    assert_eq!(texts(&state), vec!["-YY", "ZZ"]);

    // XI + ZI: total -1: no flip.
    let mut state = StabilizerState::from_stabilizers(
        2,
        &[PauliString::from_str("XI").unwrap(), PauliString::from_str("ZI").unwrap()],
    );
    state.row_add(0, 1);
    assert_eq!(texts(&state), vec!["YI", "ZI"]);

    // A row added to itself clears it.
    let mut state = mixed_state();
    state.row_add(1, 1);
    assert_eq!(texts(&state)[1], "III");
}
