//! Single-qubit Pauli errors and the syndrome they leave in the sign bits.

use vstd::prelude::*;

use crate::pauli::{commutes, pauli_of_bits, Pauli};
use crate::stabilizer::{StabilizerState, TableauModel};

verus! {

/// The kind of a single-qubit error.
#[derive(Debug, Clone, Copy, PartialEq, Eq, Structural)]
pub enum ErrorType {
    /// Bit flip.
    X,
    /// Bit and phase flip.
    Y,
    /// Phase flip.
    Z,
}

/// The Pauli operator of an error kind.
pub open spec fn error_pauli(kind: ErrorType) -> Pauli {
    match kind {
        ErrorType::X => Pauli::X,
        ErrorType::Y => Pauli::Y,
        ErrorType::Z => Pauli::Z,
    }
}

/// An error of a given kind on one qubit.
#[derive(Debug, Clone, Copy, PartialEq, Eq, Structural)]
pub struct Error {
    pub qubit: usize,
    pub error_type: ErrorType,
}

/// The tableau after error e: each row whose Pauli on e's qubit anticommutes
/// with e's Pauli changes sign; nothing else changes.
pub open spec fn with_error(t: TableauModel, e: Error) -> TableauModel {
    TableauModel {
        signs: Seq::new(
            t.n,
            |r: int| t.signs[r] != !commutes(t.pauli_at(r, e.qubit as int), error_pauli(e.error_type)),
        ),
        ..t
    }
}

impl Error {
    pub fn new(qubit: usize, error_type: ErrorType) -> (r: Error)
        ensures
            r == (Error { qubit, error_type }),
    {
        Error { qubit, error_type }
    }

    /// Applies this error: flips the sign of every row whose Pauli on the
    /// error's qubit anticommutes with the error's Pauli.
    pub fn apply_to_state(&self, state: &mut StabilizerState)
        requires
            old(state).wf(),
            self.qubit < old(state)@.n,
        ensures
            final(state).wf(),
            final(state)@ == with_error(old(state)@, *self),
    {
        proof {
            state.lemma_view_well_formed();
        }
        let ghost pre = state@;
        let ghost post = with_error(pre, *self);
        let kind = match self.error_type {
            ErrorType::X => Pauli::X,
            ErrorType::Y => Pauli::Y,
            ErrorType::Z => Pauli::Z,
        };
        let n = state.n_qubits();
        let q = self.qubit;
        let mut row: usize = 0;
        while row < n
            invariant
                state.wf(),
                n == state@.n,
                n == pre.n,
                q < n,
                q == self.qubit,
                kind == error_pauli(self.error_type),
                post == with_error(pre, *self),
                pre.well_formed(),
                row <= n,
                state@.x == pre.x,
                state@.z == pre.z,
                state@.signs.len() == n,
                forall|r: int| 0 <= r < row ==> #[trigger] state@.signs[r] == post.signs[r],
                forall|r: int| row <= r < n ==> #[trigger] state@.signs[r] == pre.signs[r],
            decreases n - row,
        {
            let x = state.get_x(row, q);
            let z = state.get_z(row, q);
            let local = if x && z {
                Pauli::Y
            } else if x {
                Pauli::X
            } else if z {
                Pauli::Z
            } else {
                Pauli::I
            };
            assert(local == pauli_of_bits(x, z));
            if !local.commutes_with(kind) {
                let p = state.get_phase(row);
                state.set_phase(row, !p);
            }
            row = row + 1;
        }
        proof {
            assert(state@.signs =~= post.signs);
        }
    }
}

/// The outcome of each row: +1 for sign bit unset, -1 for set.
pub open spec fn outcomes_of(signs: Seq<bool>) -> Seq<i32> {
    signs.map_values(|b: bool| if b { -1i32 } else { 1i32 })
}

/// The indices, in ascending order, whose outcome is -1.
pub open spec fn triggered(outcomes: Seq<i32>) -> Seq<usize>
    decreases outcomes.len(),
{
    if outcomes.len() == 0 {
        seq![]
    } else if outcomes.last() == -1 {
        triggered(outcomes.drop_last()).push((outcomes.len() - 1) as usize)
    } else {
        triggered(outcomes.drop_last())
    }
}

/// Stabilizer measurement outcomes, one per row, each +1 or -1.
#[derive(Debug, Clone)]
pub struct Syndrome {
    pub outcomes: Vec<i32>,
}

impl Syndrome {
    /// Reads the sign of every row of the state.
    pub fn from_state(state: &StabilizerState) -> (r: Syndrome)
        requires
            state.wf(),
        ensures
            r.outcomes@ == outcomes_of(state@.signs),
    {
        proof {
            state.lemma_view_well_formed();
        }
        let n = state.n_qubits();
        let mut outcomes: Vec<i32> = Vec::with_capacity(n);
        let mut i: usize = 0;
        while i < n
            invariant
                state.wf(),
                n == state@.n,
                state@.signs.len() == n,
                i <= n,
                outcomes@ =~= outcomes_of(state@.signs).subrange(0, i as int),
            decreases n - i,
        {
            let o: i32 = if state.get_phase(i) {
                -1
            } else {
                1
            };
            outcomes.push(o);
            i = i + 1;
            assert(outcomes@ =~= outcomes_of(state@.signs).subrange(0, i as int));
        }
        assert(outcomes_of(state@.signs).subrange(0, n as int) =~= outcomes_of(state@.signs));
        Syndrome { outcomes }
    }

    /// Whether some outcome is -1.
    pub fn has_error(&self) -> (r: bool)
        ensures
            r == exists|i: int| 0 <= i < self.outcomes@.len() && self.outcomes@[i] == -1,
    {
        let n = self.outcomes.len();
        let mut i: usize = 0;
        while i < n
            invariant
                n == self.outcomes@.len(),
                i <= n,
                forall|k: int| 0 <= k < i ==> self.outcomes@[k] != -1,
            decreases n - i,
        {
            if self.outcomes[i] == -1 {
                return true;
            }
            i = i + 1;
        }
        false
    }

    /// The indices whose outcome is -1, ascending.
    pub fn triggered_stabilizers(&self) -> (r: Vec<usize>)
        ensures
            r@ == triggered(self.outcomes@),
    {
        let n = self.outcomes.len();
        let mut found: Vec<usize> = Vec::new();
        let mut i: usize = 0;
        while i < n
            invariant
                n == self.outcomes@.len(),
                i <= n,
                found@ == triggered(self.outcomes@.subrange(0, i as int)),
            decreases n - i,
        {
            let ghost prefix = self.outcomes@.subrange(0, i + 1);
            assert(prefix.drop_last() =~= self.outcomes@.subrange(0, i as int));
            if self.outcomes[i] == -1 {
                found.push(i);
            }
            i = i + 1;
        }
        assert(self.outcomes@.subrange(0, n as int) =~= self.outcomes@);
        found
    }
}

} // verus!
