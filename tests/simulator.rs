use qec_sim::error::ErrorType;
use qec_sim::failure::QecError;
use qec_sim::simulator::{parse_kind, QECSimulator};

#[test]
fn replacing_an_error_twice_records_it_once() {
    let mut sim = QECSimulator::new("steane").unwrap();
    sim.apply_error(3, "X").unwrap();
    sim.apply_error(3, "X").unwrap();
    let errors = sim.get_applied_errors();
    assert_eq!(errors.iter().filter(|e| e.qubit == 3).count(), 1);
    assert_eq!(errors.len(), 1);
    assert_eq!(errors[0].error_type, ErrorType::X);
}

#[test]
fn replacing_keeps_other_errors_in_order() {
    let mut sim = QECSimulator::new("surface_d3").unwrap();
    sim.apply_error(1, "Z").unwrap();
    sim.apply_error(4, "X").unwrap();
    sim.apply_error(1, "Y").unwrap();
    let errors = sim.get_applied_errors();
    assert_eq!(errors.len(), 2);
    assert_eq!((errors[0].qubit, errors[0].error_type), (4, ErrorType::X));
    assert_eq!((errors[1].qubit, errors[1].error_type), (1, ErrorType::Y));
}

#[test]
fn simulator_syndromes() {
    let mut sim = QECSimulator::new("repetition_3").unwrap();
    assert_eq!(sim.n_qubits(), 3);
    assert_eq!(sim.get_stabilizers(), vec!["ZZI", "IZZ", "IIZ"]);
    assert!(!sim.has_error());
    assert_eq!(sim.get_syndrome(), vec![1, 1, 1]);
    sim.apply_error(1, "X").unwrap();
    assert_eq!(sim.get_syndrome(), vec![-1, -1, 1]);
    assert_eq!(sim.get_triggered_stabilizers(), vec![0, 1]);
    assert!(sim.has_error());
    assert_eq!(sim.get_stabilizers(), vec!["-ZZI", "-IZZ", "IIZ"]);
    // Replacing X by Z on the same qubit leaves no trace of the X.
    sim.apply_error(1, "Z").unwrap();
    assert_eq!(sim.get_syndrome(), vec![1, 1, 1]);
}

#[test]
fn clearing_an_error_replays_the_rest() {
    let mut sim = QECSimulator::new("repetition_3").unwrap();
    sim.apply_error(0, "X").unwrap();
    sim.apply_error(2, "X").unwrap();
    assert_eq!(sim.get_triggered_stabilizers(), vec![0, 1, 2]);
    assert_eq!(sim.clear_qubit_error(0), Ok(()));
    assert_eq!(sim.get_triggered_stabilizers(), vec![1, 2]);
    assert_eq!(sim.get_applied_errors().len(), 1);
    assert_eq!(sim.clear_qubit_error(1), Ok(()));
    assert_eq!(sim.get_applied_errors().len(), 1);
}

#[test]
fn rejected_inputs_change_nothing() {
    assert!(matches!(QECSimulator::new("nope"), Err(QecError::UnknownCode)));
    let mut sim = QECSimulator::new("five_qubit").unwrap();
    sim.apply_error(2, "Y").unwrap();
    let before = sim.get_syndrome();
    assert_eq!(sim.apply_error(5, "X"), Err(QecError::OutOfRange));
    assert_eq!(sim.apply_error(2, "W"), Err(QecError::InvalidKind));
    assert_eq!(sim.apply_error(2, "x"), Err(QecError::InvalidKind));
    assert_eq!(sim.get_syndrome(), before);
    assert_eq!(sim.get_applied_errors().len(), 1);
    assert_eq!(sim.reset("nope"), Err(QecError::UnknownCode));
    assert_eq!(sim.get_applied_errors().len(), 1);
}

#[test]
fn reset_switches_code_and_clears_errors() {
    let mut sim = QECSimulator::new("five_qubit").unwrap();
    sim.apply_error(0, "Z").unwrap();
    assert_eq!(sim.reset("steane"), Ok(()));
    assert_eq!(sim.n_qubits(), 7);
    assert!(sim.get_applied_errors().is_empty());
    assert!(!sim.has_error());
    assert_eq!(sim.code().name(), "steane");
}

#[test]
fn error_kind_names() {
    assert_eq!(parse_kind("X"), Some(ErrorType::X));
    assert_eq!(parse_kind("Y"), Some(ErrorType::Y));
    assert_eq!(parse_kind("Z"), Some(ErrorType::Z));
    assert_eq!(parse_kind("XY"), None);
    assert_eq!(parse_kind(""), None);
}
