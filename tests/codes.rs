use qec_sim::codes::{
    available_codes, five_qubit_code, get_code_by_name, get_code_info, repetition_code_3,
    steane_code, surface_code_d3, Code,
};

#[test]
fn test_repetition_code() {
    let state = repetition_code_3();
    let stabs = state.get_all_stabilizers();

    assert_eq!(stabs.len(), 3);
    assert_eq!(stabs[0].to_string(), "ZZI");
    assert_eq!(stabs[1].to_string(), "IZZ");
}

#[test]
fn test_five_qubit_code() {
    let state = five_qubit_code();
    let stabs = state.get_all_stabilizers();

    assert_eq!(stabs.len(), 5);
    // The four declared generators commute; row 4 keeps its basis value.
    for i in 0..4 {
        for j in 0..4 {
            assert!(stabs[i].commutes_with(&stabs[j]).unwrap());
        }
    }
}

#[test]
fn test_all_codes_available() {
    for code_name in available_codes() {
        assert!(get_code_by_name(code_name).is_some());
        assert!(get_code_info(code_name).is_some());
    }
}

#[test]
fn declared_generators_commute() {
    for (state, k) in [
        (repetition_code_3(), 2),
        (five_qubit_code(), 4),
        (steane_code(), 6),
        (surface_code_d3(), 8),
    ] {
        let stabs = state.get_all_stabilizers();
        for i in 0..k {
            for j in 0..k {
                assert!(stabs[i].commutes_with(&stabs[j]).unwrap());
            }
        }
    }
}

#[test]
fn surface_code_rows() {
    let stabs: Vec<String> =
        surface_code_d3().get_all_stabilizers().iter().map(|s| s.to_string()).collect();
    assert_eq!(stabs.len(), 9);
    assert_eq!(
        stabs[..8],
        [
            "IXXIXXIII", "IIIXXIXXI", "XXIIIIIII", "IIIIIIIXX", "ZZIZZIIII", "IIIIZZIZZ",
            "IIZIIZIII", "IIIZIIZII",
        ]
    );
    assert_eq!(stabs[8], "IIIIIIIIZ");
}

#[test]
fn steane_rows() {
    let stabs: Vec<String> =
        steane_code().get_all_stabilizers().iter().map(|s| s.to_string()).collect();
    assert_eq!(
        stabs,
        vec!["IIIXXXX", "IXXIIXX", "XIXIXIX", "IIIZZZZ", "IZZIIZZ", "ZIZIZIZ", "IIIIIIZ"]
    );
}

#[test]
fn unknown_code_names() {
    assert!(get_code_by_name("toric").is_none());
    assert!(get_code_info("").is_none());
    assert!(Code::from_name("steane ").is_none());
}

#[test]
fn code_metadata() {
    let info = get_code_info("steane").unwrap();
    assert_eq!(info.name, "Steane Code");
    assert_eq!(info.description, "7-qubit CSS code, corrects any single error");
    assert_eq!(info.n_qubits, 7);
    assert_eq!(info.n_logical, 1);
    assert_eq!(info.distance, 3);
    let info = get_code_info("surface_d3").unwrap();
    assert_eq!(info.name, "Surface Code (d=3)");
    assert_eq!(info.n_qubits, 9);
    assert_eq!(get_code_info("five_qubit").unwrap().name, "5-qubit Perfect Code");
    assert_eq!(get_code_info("repetition_3").unwrap().n_qubits, 3);
}

#[test]
fn catalog_order_and_names() {
    assert_eq!(available_codes(), vec!["repetition_3", "five_qubit", "steane", "surface_d3"]);
    for name in available_codes() {
        assert_eq!(Code::from_name(name).unwrap().name(), name);
    }
    assert_eq!(get_code_by_name("five_qubit").unwrap().n_qubits(), 5);
}

#[test]
fn declared_check_counts() {
    let expected = [(Code::Repetition3, 2), (Code::FiveQubit, 4), (Code::Steane, 6), (Code::SurfaceD3, 8)];
    for (code, k) in expected {
        assert_eq!(code.n_checks(), k);
        assert!(code.n_checks() <= code.build().n_qubits());
    }
}
