//! A simulation session: one code's tableau and the set of active errors,
//! at most one per qubit, always replayed in order onto the code's tableau.

use vstd::prelude::*;

use crate::codes::{code_named, code_qubits, code_tableau, same_text, Code};
use crate::error::{outcomes_of, triggered, with_error, Error, ErrorType, Syndrome};
use crate::failure::QecError;
use crate::pauli_string::encode;
use crate::stabilizer::{sign_phase, StabilizerState, TableauModel};

verus! {

/// The error kind named by a text: "X", "Y" or "Z".
pub open spec fn kind_named(s: Seq<char>) -> Option<ErrorType> {
    if s == "X"@ {
        Some(ErrorType::X)
    } else if s == "Y"@ {
        Some(ErrorType::Y)
    } else if s == "Z"@ {
        Some(ErrorType::Z)
    } else {
        None
    }
}

/// The errors that are not on qubit q, in their order.
pub open spec fn without_qubit(errors: Seq<Error>, q: usize) -> Seq<Error>
    decreases errors.len(),
{
    if errors.len() == 0 {
        seq![]
    } else if errors.last().qubit == q {
        without_qubit(errors.drop_last(), q)
    } else {
        without_qubit(errors.drop_last(), q).push(errors.last())
    }
}

/// The errors with any error on e's qubit removed and e appended.
pub open spec fn replace_error(errors: Seq<Error>, e: Error) -> Seq<Error> {
    without_qubit(errors, e.qubit).push(e)
}

/// How many of the errors are on qubit q.
pub open spec fn count_on(errors: Seq<Error>, q: usize) -> nat
    decreases errors.len(),
{
    if errors.len() == 0 {
        0
    } else {
        count_on(errors.drop_last(), q) + if errors.last().qubit == q {
            1nat
        } else {
            0nat
        }
    }
}

/// The tableau after applying the errors to t, in order.
pub open spec fn replay(t: TableauModel, errors: Seq<Error>) -> TableauModel
    decreases errors.len(),
{
    if errors.len() == 0 {
        t
    } else {
        with_error(replay(t, errors.drop_last()), errors.last())
    }
}

/// Parses an error kind: "X", "Y" or "Z".
pub fn parse_kind(s: &str) -> (r: Option<ErrorType>)
    ensures
        r == kind_named(s@),
{
    if same_text(s, "X") {
        Some(ErrorType::X)
    } else if same_text(s, "Y") {
        Some(ErrorType::Y)
    } else if same_text(s, "Z") {
        Some(ErrorType::Z)
    } else {
        None
    }
}

/// The code's tableau with the errors replayed onto it in order.
fn rebuild(code: Code, errors: &Vec<Error>) -> (r: StabilizerState)
    requires
        forall|i: int| 0 <= i < errors@.len() ==> (#[trigger] errors@[i]).qubit < code_qubits(code),
    ensures
        r.wf(),
        r@ == replay(code_tableau(code), errors@),
{
    let mut state = code.build();
    let n = errors.len();
    let mut i: usize = 0;
    while i < n
        invariant
            n == errors@.len(),
            i <= n,
            state.wf(),
            state@.n == code_qubits(code),
            state@ == replay(code_tableau(code), errors@.subrange(0, i as int)),
            forall|k: int| 0 <= k < errors@.len() ==> (#[trigger] errors@[k]).qubit < code_qubits(code),
        decreases n - i,
    {
        assert(errors@.subrange(0, i + 1).drop_last() =~= errors@.subrange(0, i as int));
        errors[i].apply_to_state(&mut state);
        i = i + 1;
    }
    assert(errors@.subrange(0, n as int) =~= errors@);
    state
}

/// One simulation session over a code of the catalog.
pub struct QECSimulator {
    code: Code,
    state: StabilizerState,
    applied_errors: Vec<Error>,
}

impl QECSimulator {
    /// The code of the session.
    pub closed spec fn code_of(&self) -> Code {
        self.code
    }

    /// The active errors, in the order they were recorded.
    pub closed spec fn errors(&self) -> Seq<Error> {
        self.applied_errors@
    }

    /// The current tableau.
    pub closed spec fn tableau(&self) -> TableauModel {
        self.state@
    }

    /// The tableau is the code's tableau with the active errors replayed onto
    /// it, and every active error is on a qubit of the code.
    pub closed spec fn inv(&self) -> bool {
        &&& self.state.wf()
        &&& self.state@ == replay(code_tableau(self.code), self.applied_errors@)
        &&& forall|i: int|
            0 <= i < self.applied_errors@.len() ==> (#[trigger] self.applied_errors@[i]).qubit
                < code_qubits(self.code)
    }

    /// A session on the named code, with no active error.
    pub fn new(code_name: &str) -> (r: Result<QECSimulator, QecError>)
        ensures
            code_named(code_name@) is None <==> r == Err::<QECSimulator, QecError>(
                QecError::UnknownCode,
            ),
            r matches Ok(s) ==> s.inv() && s.code_of() == code_named(code_name@)->0
                && s.errors() == Seq::<Error>::empty() && s.tableau() == code_tableau(s.code_of()),
    {
        match Code::from_name(code_name) {
            Some(code) => Ok(
                QECSimulator { code, state: code.build(), applied_errors: Vec::new() },
            ),
            None => Err(QecError::UnknownCode),
        }
    }

    /// The code that the session simulates.
    pub fn code(&self) -> (r: Code)
        ensures
            r == self.code_of(),
    {
        self.code
    }

    /// The number of qubits of the code.
    pub fn n_qubits(&self) -> (r: usize)
        requires
            self.inv(),
        ensures
            r == code_qubits(self.code_of()),
            r == self.tableau().n,
    {
        proof {
            lemma_replay_size(code_tableau(self.code), self.applied_errors@);
        }
        self.state.n_qubits()
    }

    /// Every row of the tableau in its text form.
    pub fn get_stabilizers(&self) -> (r: Vec<String>)
        requires
            self.inv(),
        ensures
            r@.len() == self.tableau().n,
            forall|i: int|
                0 <= i < r@.len() ==> (#[trigger] r@[i])@ == encode(
                    sign_phase(self.tableau().signs[i]),
                    self.tableau().row(i),
                ),
    {
        let stabilizers = self.state.get_all_stabilizers();
        let n = stabilizers.len();
        let mut texts: Vec<String> = Vec::with_capacity(n);
        let mut i: usize = 0;
        while i < n
            invariant
                n == stabilizers@.len(),
                n == self.state@.n,
                i <= n,
                texts@.len() == i,
                forall|k: int|
                    0 <= k < n ==> (#[trigger] stabilizers@[k]).paulis@ == self.state@.row(k)
                        && stabilizers@[k].phase == sign_phase(self.state@.signs[k]),
                forall|k: int|
                    0 <= k < i ==> (#[trigger] texts@[k])@ == encode(
                        sign_phase(self.state@.signs[k]),
                        self.state@.row(k),
                    ),
            decreases n - i,
        {
            texts.push(stabilizers[i].to_string());
            i = i + 1;
        }
        texts
    }

    /// Replaces the error on a qubit: any recorded error on it is removed, the
    /// new one is appended, and the tableau is rebuilt from the code's tableau
    /// by replaying every recorded error in order. The qubit and the kind are
    /// checked first; on failure nothing changes.
    pub fn apply_error(&mut self, qubit: usize, error_type: &str) -> (r: Result<(), QecError>)
        requires
            old(self).inv(),
        ensures
            final(self).inv(),
            qubit >= code_qubits(old(self).code_of()) ==> r == Err::<(), QecError>(
                QecError::OutOfRange,
            ),
            qubit < code_qubits(old(self).code_of()) && kind_named(error_type@) is None ==> r
                == Err::<(), QecError>(QecError::InvalidKind),
            r is Err ==> *final(self) == *old(self),
            r is Ok <==> qubit < code_qubits(old(self).code_of()) && kind_named(error_type@) is Some,
            r is Ok ==> final(self).code_of() == old(self).code_of() && final(self).errors()
                == replace_error(
                old(self).errors(),
                Error { qubit, error_type: kind_named(error_type@)->0 },
            ) && final(self).tableau() == replay(
                code_tableau(final(self).code_of()),
                final(self).errors(),
            ),
    {
        proof {
            lemma_replay_size(code_tableau(self.code), self.applied_errors@);
        }
        if qubit >= self.state.n_qubits() {
            return Err(QecError::OutOfRange);
        }
        let kind = match parse_kind(error_type) {
            Some(k) => k,
            None => return Err(QecError::InvalidKind),
        };
        let mut kept = self.remaining_errors(qubit);
        kept.push(Error::new(qubit, kind));
        self.state = rebuild(self.code, &kept);
        self.applied_errors = kept;
        Ok(())
    }

    /// The recorded errors that are not on the qubit, in order.
    fn remaining_errors(&self, qubit: usize) -> (r: Vec<Error>)
        requires
            self.inv(),
        ensures
            r@ == without_qubit(self.errors(), qubit),
            forall|i: int| 0 <= i < r@.len() ==> (#[trigger] r@[i]).qubit < code_qubits(self.code),
    {
        let n = self.applied_errors.len();
        let mut kept: Vec<Error> = Vec::new();
        let mut i: usize = 0;
        while i < n
            invariant
                self.inv(),
                n == self.applied_errors@.len(),
                i <= n,
                kept@ == without_qubit(self.applied_errors@.subrange(0, i as int), qubit),
                forall|k: int| 0 <= k < kept@.len() ==> (#[trigger] kept@[k]).qubit < code_qubits(self.code),
            decreases n - i,
        {
            assert(self.applied_errors@.subrange(0, i + 1).drop_last() =~= self.applied_errors@.subrange(0, i as int));
            let e = self.applied_errors[i];
            if e.qubit != qubit {
                kept.push(e);
            }
            i = i + 1;
        }
        assert(self.applied_errors@.subrange(0, n as int) =~= self.applied_errors@);
        kept
    }

    /// The measurement outcome of every row: +1 or -1.
    pub fn get_syndrome(&self) -> (r: Vec<i32>)
        requires
            self.inv(),
        ensures
            r@ == outcomes_of(self.tableau().signs),
    {
        Syndrome::from_state(&self.state).outcomes
    }

    /// Whether some row has outcome -1.
    pub fn has_error(&self) -> (r: bool)
        requires
            self.inv(),
        ensures
            r == exists|i: int|
                0 <= i < self.tableau().n && outcomes_of(self.tableau().signs)[i] == -1,
    {
        proof {
            self.state.lemma_view_well_formed();
        }
        let syndrome = Syndrome::from_state(&self.state);
        assert(syndrome.outcomes@.len() == self.tableau().n);
        let r = syndrome.has_error();
        if r {
            let ghost i = choose|i: int|
                0 <= i < syndrome.outcomes@.len() && syndrome.outcomes@[i] == -1;
            assert(outcomes_of(self.tableau().signs)[i] == -1);
        }
        r
    }

    /// The rows with outcome -1, ascending.
    pub fn get_triggered_stabilizers(&self) -> (r: Vec<usize>)
        requires
            self.inv(),
        ensures
            r@ == triggered(outcomes_of(self.tableau().signs)),
    {
        Syndrome::from_state(&self.state).triggered_stabilizers()
    }

    /// Starts over on the named code, with no active error; nothing changes
    /// where the name is unknown.
    pub fn reset(&mut self, code_name: &str) -> (r: Result<(), QecError>)
        requires
            old(self).inv(),
        ensures
            final(self).inv(),
            code_named(code_name@) is None <==> r == Err::<(), QecError>(QecError::UnknownCode),
            r is Err ==> *final(self) == *old(self),
            r is Ok ==> final(self).code_of() == code_named(code_name@)->0 && final(self).errors()
                == Seq::<Error>::empty() && final(self).tableau() == code_tableau(
                final(self).code_of(),
            ),
    {
        match Code::from_name(code_name) {
            Some(code) => {
                self.code = code;
                self.state = code.build();
                self.applied_errors = Vec::new();
                Ok(())
            },
            None => Err(QecError::UnknownCode),
        }
    }

    /// Removes any recorded error on the qubit and rebuilds the tableau by
    /// replaying the remaining errors in order.
    pub fn clear_qubit_error(&mut self, qubit: usize) -> (r: Result<(), QecError>)
        requires
            old(self).inv(),
        ensures
            final(self).inv(),
            r == Ok::<(), QecError>(()),
            final(self).code_of() == old(self).code_of(),
            final(self).errors() == without_qubit(old(self).errors(), qubit),
            final(self).tableau() == replay(code_tableau(final(self).code_of()), final(self).errors()),
    {
        let kept = self.remaining_errors(qubit);
        self.state = rebuild(self.code, &kept);
        self.applied_errors = kept;
        Ok(())
    }

    /// The active errors, in the order they were recorded.
    pub fn get_applied_errors(&self) -> (r: Vec<Error>)
        ensures
            r@ == self.errors(),
    {
        self.applied_errors.clone()
    }
}

/// Replaying errors keeps the size of the tableau.
pub proof fn lemma_replay_size(t: TableauModel, errors: Seq<Error>)
    ensures
        replay(t, errors).n == t.n,
        t.well_formed() ==> replay(t, errors).well_formed(),
    decreases errors.len(),
{
    if errors.len() > 0 {
        lemma_replay_size(t, errors.drop_last());
    }
}

} // verus!
