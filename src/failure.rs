//! The recoverable failures of the library's boundary operations.

use vstd::prelude::*;

verus! {

/// Why a boundary operation refused its input.
#[derive(Debug, Clone, Copy, PartialEq, Eq, Structural)]
pub enum QecError {
    /// The name is not in the code catalog.
    UnknownCode,
    /// A qubit index is not below the number of qubits.
    OutOfRange,
    /// An error kind other than "X", "Y" or "Z".
    InvalidKind,
    /// Two Pauli strings over different numbers of qubits.
    LengthMismatch,
}

} // verus!
