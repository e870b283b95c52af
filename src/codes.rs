//! A fixed catalog of named stabilizer codes: their generators and metadata.

use vstd::prelude::*;
use vstd::string::{StrSliceExecFns, StringExecFns};

use crate::pauli::{x_bit, z_bit, Pauli, Phase};
use crate::pauli_string::PauliString;
use crate::stabilizer::{StabilizerState, TableauModel};

verus! {

/// The codes of the catalog.
#[derive(Debug, Clone, Copy, PartialEq, Eq, Structural)]
pub enum Code {
    Repetition3,
    FiveQubit,
    Steane,
    SurfaceD3,
}

/// The catalog name of a code.
pub open spec fn code_name(c: Code) -> Seq<char> {
    match c {
        Code::Repetition3 => "repetition_3"@,
        Code::FiveQubit => "five_qubit"@,
        Code::Steane => "steane"@,
        Code::SurfaceD3 => "surface_d3"@,
    }
}

/// The code with the given catalog name, if any.
pub open spec fn code_named(name: Seq<char>) -> Option<Code> {
    if name == code_name(Code::Repetition3) {
        Some(Code::Repetition3)
    } else if name == code_name(Code::FiveQubit) {
        Some(Code::FiveQubit)
    } else if name == code_name(Code::Steane) {
        Some(Code::Steane)
    } else if name == code_name(Code::SurfaceD3) {
        Some(Code::SurfaceD3)
    } else {
        None
    }
}

/// The number of physical qubits of a code.
pub open spec fn code_qubits(c: Code) -> nat {
    match c {
        Code::Repetition3 => 3,
        Code::FiveQubit => 5,
        Code::Steane => 7,
        Code::SurfaceD3 => 9,
    }
}

/// The declared generators of a code, in order; the tableau's remaining rows
/// keep their computational-basis value.
pub open spec fn code_generators(c: Code) -> Seq<Seq<Pauli>> {
    match c {
        Code::Repetition3 => seq![
            seq![Pauli::Z, Pauli::Z, Pauli::I],
            seq![Pauli::I, Pauli::Z, Pauli::Z],
        ],
        Code::FiveQubit => seq![
            seq![Pauli::X, Pauli::Z, Pauli::Z, Pauli::X, Pauli::I],
            seq![Pauli::I, Pauli::X, Pauli::Z, Pauli::Z, Pauli::X],
            seq![Pauli::X, Pauli::I, Pauli::X, Pauli::Z, Pauli::Z],
            seq![Pauli::Z, Pauli::X, Pauli::I, Pauli::X, Pauli::Z],
        ],
        Code::Steane => seq![
            seq![Pauli::I, Pauli::I, Pauli::I, Pauli::X, Pauli::X, Pauli::X, Pauli::X],
            seq![Pauli::I, Pauli::X, Pauli::X, Pauli::I, Pauli::I, Pauli::X, Pauli::X],
            seq![Pauli::X, Pauli::I, Pauli::X, Pauli::I, Pauli::X, Pauli::I, Pauli::X],
            seq![Pauli::I, Pauli::I, Pauli::I, Pauli::Z, Pauli::Z, Pauli::Z, Pauli::Z],
            seq![Pauli::I, Pauli::Z, Pauli::Z, Pauli::I, Pauli::I, Pauli::Z, Pauli::Z],
            seq![Pauli::Z, Pauli::I, Pauli::Z, Pauli::I, Pauli::Z, Pauli::I, Pauli::Z],
        ],
        Code::SurfaceD3 => seq![
            seq![Pauli::I, Pauli::X, Pauli::X, Pauli::I, Pauli::X, Pauli::X, Pauli::I, Pauli::I, Pauli::I],
            seq![Pauli::I, Pauli::I, Pauli::I, Pauli::X, Pauli::X, Pauli::I, Pauli::X, Pauli::X, Pauli::I],
            seq![Pauli::X, Pauli::X, Pauli::I, Pauli::I, Pauli::I, Pauli::I, Pauli::I, Pauli::I, Pauli::I],
            seq![Pauli::I, Pauli::I, Pauli::I, Pauli::I, Pauli::I, Pauli::I, Pauli::I, Pauli::X, Pauli::X],
            seq![Pauli::Z, Pauli::Z, Pauli::I, Pauli::Z, Pauli::Z, Pauli::I, Pauli::I, Pauli::I, Pauli::I],
            seq![Pauli::I, Pauli::I, Pauli::I, Pauli::I, Pauli::Z, Pauli::Z, Pauli::I, Pauli::Z, Pauli::Z],
            seq![Pauli::I, Pauli::I, Pauli::Z, Pauli::I, Pauli::I, Pauli::Z, Pauli::I, Pauli::I, Pauli::I],
            seq![Pauli::I, Pauli::I, Pauli::I, Pauli::Z, Pauli::I, Pauli::I, Pauli::Z, Pauli::I, Pauli::I],
        ],
    }
}

/// The n-qubit basis tableau with its first rows overwritten by the given
/// Paulis, all with sign +1.
pub open spec fn overlay(n: nat, rows: Seq<Seq<Pauli>>) -> TableauModel {
    let b = TableauModel::basis(n);
    TableauModel {
        n,
        x: Seq::new(
            n,
            |r: int|
                if r < rows.len() {
                    rows[r].map_values(|p: Pauli| x_bit(p))
                } else {
                    b.x[r]
                },
        ),
        z: Seq::new(
            n,
            |r: int|
                if r < rows.len() {
                    rows[r].map_values(|p: Pauli| z_bit(p))
                } else {
                    b.z[r]
                },
        ),
        signs: b.signs,
    }
}

/// The tableau that the catalog gives for a code.
pub open spec fn code_tableau(c: Code) -> TableauModel {
    overlay(code_qubits(c), code_generators(c))
}

/// Builds the basis state of n qubits and installs the given generators as its
/// first rows.
fn install(n: usize, generators: Vec<PauliString>) -> (r: StabilizerState)
    requires
        n <= 16,
        generators@.len() <= n,
        forall|i: int| 0 <= i < generators@.len() ==> (#[trigger] generators@[i]).paulis@.len() == n,
        forall|i: int| 0 <= i < generators@.len() ==> (#[trigger] generators@[i]).phase == Phase::Plus,
    ensures
        r.wf(),
        r@ == overlay(n as nat, generators@.map_values(|p: PauliString| p.paulis@)),
{
    let ghost rows = generators@.map_values(|p: PauliString| p.paulis@);
    let ghost post = overlay(n as nat, rows);
    assert(n * (2 * n) <= 16 * (2 * 16)) by (nonlinear_arith)
        requires
            n <= 16,
    ;
    let mut state = StabilizerState::new(n);
    proof {
        state.lemma_view_well_formed();
    }
    let k = generators.len();
    let mut i: usize = 0;
    while i < k
        invariant
            state.wf(),
            state@.n == n,
            state@.well_formed(),
            k == generators@.len(),
            k <= n,
            i <= k,
            rows == generators@.map_values(|p: PauliString| p.paulis@),
            post == overlay(n as nat, rows),
            forall|j: int| 0 <= j < k ==> (#[trigger] generators@[j]).paulis@.len() == n,
            forall|j: int| 0 <= j < k ==> (#[trigger] generators@[j]).phase == Phase::Plus,
            forall|r: int| 0 <= r < i ==> #[trigger] state@.x[r] == post.x[r],
            forall|r: int| 0 <= r < i ==> #[trigger] state@.z[r] == post.z[r],
            forall|r: int| i <= r < n ==> #[trigger] state@.x[r] == TableauModel::basis(n as nat).x[r],
            forall|r: int| i <= r < n ==> #[trigger] state@.z[r] == TableauModel::basis(n as nat).z[r],
            state@.signs == TableauModel::basis(n as nat).signs,
        decreases k - i,
    {
        state.set_stabilizer(i, &generators[i]);
        proof {
            state.lemma_view_well_formed();
            assert(state@.signs =~= TableauModel::basis(n as nat).signs);
        }
        i = i + 1;
    }
    proof {
        assert(state@.x =~= post.x);
        assert(state@.z =~= post.z);
        assert(state@.signs =~= post.signs);
    }
    state
}

/// The 3-qubit bit-flip repetition code: generators ZZI and IZZ.
pub fn repetition_code_3() -> (r: StabilizerState)
    ensures
        r.wf(),
        r@ == code_tableau(Code::Repetition3),
{
    let generators = vec![
        PauliString { phase: Phase::Plus, paulis: vec![Pauli::Z, Pauli::Z, Pauli::I] },
        PauliString { phase: Phase::Plus, paulis: vec![Pauli::I, Pauli::Z, Pauli::Z] },
    ];
    let r = install(3, generators);
    assert(generators@.map_values(|p: PauliString| p.paulis@) =~= code_generators(Code::Repetition3));
    r
}

/// The 5-qubit perfect code: the cyclic shifts of XZZXI.
pub fn five_qubit_code() -> (r: StabilizerState)
    ensures
        r.wf(),
        r@ == code_tableau(Code::FiveQubit),
{
    let generators = vec![
        PauliString { phase: Phase::Plus, paulis: vec![Pauli::X, Pauli::Z, Pauli::Z, Pauli::X, Pauli::I] },
        PauliString { phase: Phase::Plus, paulis: vec![Pauli::I, Pauli::X, Pauli::Z, Pauli::Z, Pauli::X] },
        PauliString { phase: Phase::Plus, paulis: vec![Pauli::X, Pauli::I, Pauli::X, Pauli::Z, Pauli::Z] },
        PauliString { phase: Phase::Plus, paulis: vec![Pauli::Z, Pauli::X, Pauli::I, Pauli::X, Pauli::Z] },
    ];
    let r = install(5, generators);
    assert(generators@.map_values(|p: PauliString| p.paulis@) =~= code_generators(Code::FiveQubit));
    r
}

/// The 7-qubit Steane code: three X-type and three Z-type checks.
pub fn steane_code() -> (r: StabilizerState)
    ensures
        r.wf(),
        r@ == code_tableau(Code::Steane),
{
    let generators = vec![
        PauliString { phase: Phase::Plus, paulis: vec![Pauli::I, Pauli::I, Pauli::I, Pauli::X, Pauli::X, Pauli::X, Pauli::X] },
        PauliString { phase: Phase::Plus, paulis: vec![Pauli::I, Pauli::X, Pauli::X, Pauli::I, Pauli::I, Pauli::X, Pauli::X] },
        PauliString { phase: Phase::Plus, paulis: vec![Pauli::X, Pauli::I, Pauli::X, Pauli::I, Pauli::X, Pauli::I, Pauli::X] },
        PauliString { phase: Phase::Plus, paulis: vec![Pauli::I, Pauli::I, Pauli::I, Pauli::Z, Pauli::Z, Pauli::Z, Pauli::Z] },
        PauliString { phase: Phase::Plus, paulis: vec![Pauli::I, Pauli::Z, Pauli::Z, Pauli::I, Pauli::I, Pauli::Z, Pauli::Z] },
        PauliString { phase: Phase::Plus, paulis: vec![Pauli::Z, Pauli::I, Pauli::Z, Pauli::I, Pauli::Z, Pauli::I, Pauli::Z] },
    ];
    let r = install(7, generators);
    assert(generators@.map_values(|p: PauliString| p.paulis@) =~= code_generators(Code::Steane));
    r
}

/// The distance-3 surface code on a 3x3 grid of qubits, numbered row by row:
/// X checks on {1,2,4,5}, {3,4,6,7}, {0,1}, {7,8}, then Z checks on
/// {0,1,3,4}, {4,5,7,8}, {2,5}, {3,6}.
pub fn surface_code_d3() -> (r: StabilizerState)
    ensures
        r.wf(),
        r@ == code_tableau(Code::SurfaceD3),
{
    let generators = vec![
        PauliString { phase: Phase::Plus, paulis: vec![Pauli::I, Pauli::X, Pauli::X, Pauli::I, Pauli::X, Pauli::X, Pauli::I, Pauli::I, Pauli::I] },
        PauliString { phase: Phase::Plus, paulis: vec![Pauli::I, Pauli::I, Pauli::I, Pauli::X, Pauli::X, Pauli::I, Pauli::X, Pauli::X, Pauli::I] },
        PauliString { phase: Phase::Plus, paulis: vec![Pauli::X, Pauli::X, Pauli::I, Pauli::I, Pauli::I, Pauli::I, Pauli::I, Pauli::I, Pauli::I] },
        PauliString { phase: Phase::Plus, paulis: vec![Pauli::I, Pauli::I, Pauli::I, Pauli::I, Pauli::I, Pauli::I, Pauli::I, Pauli::X, Pauli::X] },
        PauliString { phase: Phase::Plus, paulis: vec![Pauli::Z, Pauli::Z, Pauli::I, Pauli::Z, Pauli::Z, Pauli::I, Pauli::I, Pauli::I, Pauli::I] },
        PauliString { phase: Phase::Plus, paulis: vec![Pauli::I, Pauli::I, Pauli::I, Pauli::I, Pauli::Z, Pauli::Z, Pauli::I, Pauli::Z, Pauli::Z] },
        PauliString { phase: Phase::Plus, paulis: vec![Pauli::I, Pauli::I, Pauli::Z, Pauli::I, Pauli::I, Pauli::Z, Pauli::I, Pauli::I, Pauli::I] },
        PauliString { phase: Phase::Plus, paulis: vec![Pauli::I, Pauli::I, Pauli::I, Pauli::Z, Pauli::I, Pauli::I, Pauli::Z, Pauli::I, Pauli::I] },
    ];
    let r = install(9, generators);
    assert(generators@.map_values(|p: PauliString| p.paulis@) =~= code_generators(Code::SurfaceD3));
    r
}


/// Whether two texts are equal, character by character.
pub(crate) fn same_text(a: &str, b: &str) -> (r: bool)
    ensures
        r == (a@ == b@),
{
    let n = a.unicode_len();
    if n != b.unicode_len() {
        return false;
    }
    let mut i: usize = 0;
    while i < n
        invariant
            n == a@.len(),
            n == b@.len(),
            i <= n,
            forall|k: int| 0 <= k < i ==> a@[k] == b@[k],
        decreases n - i,
    {
        if a.get_char(i) != b.get_char(i) {
            return false;
        }
        i = i + 1;
    }
    assert(a@ =~= b@);
    true
}

impl Code {
    /// The code with the given catalog name, if any.
    pub fn from_name(name: &str) -> (r: Option<Code>)
        ensures
            r == code_named(name@),
    {
        if same_text(name, "repetition_3") {
            Some(Code::Repetition3)
        } else if same_text(name, "five_qubit") {
            Some(Code::FiveQubit)
        } else if same_text(name, "steane") {
            Some(Code::Steane)
        } else if same_text(name, "surface_d3") {
            Some(Code::SurfaceD3)
        } else {
            None
        }
    }

    /// The catalog name of the code.
    pub fn name(self) -> (r: &'static str)
        ensures
            r@ == code_name(self),
    {
        match self {
            Code::Repetition3 => "repetition_3",
            Code::FiveQubit => "five_qubit",
            Code::Steane => "steane",
            Code::SurfaceD3 => "surface_d3",
        }
    }

    /// How many generators the code declares: only the syndrome entries below
    /// this count are checks of the code; the rows after them keep their
    /// computational-basis value.
    pub fn n_checks(self) -> (r: usize)
        ensures
            r == code_generators(self).len(),
    {
        match self {
            Code::Repetition3 => 2,
            Code::FiveQubit => 4,
            Code::Steane => 6,
            Code::SurfaceD3 => 8,
        }
    }

    /// The code's tableau: its generators over the computational basis state.
    pub fn build(self) -> (r: StabilizerState)
        ensures
            r.wf(),
            r@ == code_tableau(self),
    {
        match self {
            Code::Repetition3 => repetition_code_3(),
            Code::FiveQubit => five_qubit_code(),
            Code::Steane => steane_code(),
            Code::SurfaceD3 => surface_code_d3(),
        }
    }
}

/// The tableau of the code with the given catalog name, if there is one.
pub fn get_code_by_name(name: &str) -> (r: Option<StabilizerState>)
    ensures
        r is Some <==> code_named(name@) is Some,
        r matches Some(s) ==> s.wf() && s@ == code_tableau(code_named(name@)->0),
{
    match Code::from_name(name) {
        Some(code) => Some(code.build()),
        None => None,
    }
}

/// What the catalog says of a code.
#[derive(Debug, Clone)]
pub struct CodeInfo {
    pub name: String,
    pub description: String,
    pub n_qubits: usize,
    pub n_logical: usize,
    pub distance: usize,
}

/// The display title of a code.
pub open spec fn code_title(c: Code) -> Seq<char> {
    match c {
        Code::Repetition3 => "3-qubit Repetition Code"@,
        Code::FiveQubit => "5-qubit Perfect Code"@,
        Code::Steane => "Steane Code"@,
        Code::SurfaceD3 => "Surface Code (d=3)"@,
    }
}

/// The one-line description of a code.
pub open spec fn code_description(c: Code) -> Seq<char> {
    match c {
        Code::Repetition3 => "Bit-flip code, detects 1 X error"@,
        Code::FiveQubit => "Smallest code correcting any single-qubit error"@,
        Code::Steane => "7-qubit CSS code, corrects any single error"@,
        Code::SurfaceD3 => "9-qubit surface code on 3x3 grid"@,
    }
}

/// The metadata of the code with the given catalog name: each code encodes one
/// logical qubit at distance 3.
pub fn get_code_info(name: &str) -> (r: Option<CodeInfo>)
    ensures
        r is Some <==> code_named(name@) is Some,
        r matches Some(info) ==> {
            let c = code_named(name@)->0;
            &&& info.name@ == code_title(c)
            &&& info.description@ == code_description(c)
            &&& info.n_qubits == code_qubits(c)
            &&& info.n_logical == 1
            &&& info.distance == 3
        },
{
    match Code::from_name(name) {
        Some(Code::Repetition3) => Some(
            CodeInfo {
                name: String::from_str("3-qubit Repetition Code"),
                description: String::from_str("Bit-flip code, detects 1 X error"),
                n_qubits: 3,
                n_logical: 1,
                distance: 3,
            },
        ),
        Some(Code::FiveQubit) => Some(
            CodeInfo {
                name: String::from_str("5-qubit Perfect Code"),
                description: String::from_str("Smallest code correcting any single-qubit error"),
                n_qubits: 5,
                n_logical: 1,
                distance: 3,
            },
        ),
        Some(Code::Steane) => Some(
            CodeInfo {
                name: String::from_str("Steane Code"),
                description: String::from_str("7-qubit CSS code, corrects any single error"),
                n_qubits: 7,
                n_logical: 1,
                distance: 3,
            },
        ),
        Some(Code::SurfaceD3) => Some(
            CodeInfo {
                name: String::from_str("Surface Code (d=3)"),
                description: String::from_str("9-qubit surface code on 3x3 grid"),
                n_qubits: 9,
                n_logical: 1,
                distance: 3,
            },
        ),
        None => None,
    }
}

/// The catalog names, in catalog order.
pub fn available_codes() -> (r: Vec<&'static str>)
    ensures
        r@.map_values(|s: &str| s@) == seq![
            code_name(Code::Repetition3),
            code_name(Code::FiveQubit),
            code_name(Code::Steane),
            code_name(Code::SurfaceD3),
        ],
{
    let r = vec![
        Code::Repetition3.name(),
        Code::FiveQubit.name(),
        Code::Steane.name(),
        Code::SurfaceD3.name(),
    ];
    assert(r@.map_values(|s: &str| s@) =~= seq![
        code_name(Code::Repetition3),
        code_name(Code::FiveQubit),
        code_name(Code::Steane),
        code_name(Code::SurfaceD3),
    ]);
    r
}


} // verus!
