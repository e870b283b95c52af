//! Stabilizer-state simulation with the binary (symplectic) tableau, Pauli
//! error injection and syndrome extraction.

pub mod failure;
pub mod pauli;
pub mod pauli_string;
pub mod stabilizer;
pub mod error;
pub mod codes;
pub mod simulator;
pub mod laws;
