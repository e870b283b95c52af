//! Tensor products of single-qubit Paulis with one global phase.

use vstd::prelude::*;
use vstd::string::{StrSliceExecFns, StringExecFns};

use crate::failure::QecError;
use crate::pauli::{
    commutes, pauli_char, pauli_from_char, phase_exp, phase_of_exp, product_pauli, product_phase,
    Pauli, Phase,
};

verus! {

/// The number of sites among the first k on which a and b anticommute.
pub open spec fn anticommute_upto(a: Seq<Pauli>, b: Seq<Pauli>, k: int) -> nat
    decreases k,
{
    if k <= 0 {
        0
    } else {
        anticommute_upto(a, b, k - 1) + if commutes(a[k - 1], b[k - 1]) {
            0nat
        } else {
            1nat
        }
    }
}

/// The number of sites on which two equally long Pauli sequences anticommute.
pub open spec fn anticommute_count(a: Seq<Pauli>, b: Seq<Pauli>) -> nat {
    anticommute_upto(a, b, a.len() as int)
}

/// Two Pauli strings commute iff they anticommute on an even number of sites.
pub open spec fn strings_commute(a: Seq<Pauli>, b: Seq<Pauli>) -> bool {
    anticommute_count(a, b) % 2 == 0
}

/// The sum of the exponents of i contributed by the sites of a·b.
pub open spec fn site_phase_sum(a: Seq<Pauli>, b: Seq<Pauli>) -> int
    decreases a.len(),
{
    if a.len() == 0 {
        0
    } else {
        site_phase_sum(a.drop_last(), b.drop_last()) + phase_exp(product_phase(a.last(), b.last()))
    }
}

/// The site-wise product of two equally long Pauli sequences.
pub open spec fn site_products(a: Seq<Pauli>, b: Seq<Pauli>) -> Seq<Pauli> {
    Seq::new(a.len(), |i: int| product_pauli(a[i], b[i]))
}

/// The text prefix of a phase: empty, "-", "+i" or "-i".
pub open spec fn phase_prefix(p: Phase) -> Seq<char> {
    match p {
        Phase::Plus => seq![],
        Phase::Minus => seq!['-'],
        Phase::PlusI => seq!['+', 'i'],
        Phase::MinusI => seq!['-', 'i'],
    }
}

/// The text form of a Pauli string: its phase prefix, then one character per site.
pub open spec fn encode(phase: Phase, paulis: Seq<Pauli>) -> Seq<char> {
    phase_prefix(phase) + paulis.map_values(|p: Pauli| pauli_char(p))
}

/// The phase that a text starts with, and how many characters name it.
pub open spec fn split_prefix(s: Seq<char>) -> (Phase, int) {
    if s.len() >= 2 && s[0] == '+' && s[1] == 'i' {
        (Phase::PlusI, 2)
    } else if s.len() >= 2 && s[0] == '-' && s[1] == 'i' {
        (Phase::MinusI, 2)
    } else if s.len() >= 1 && s[0] == '-' {
        (Phase::Minus, 1)
    } else {
        (Phase::Plus, 0)
    }
}

/// The Paulis named by a text, if each of its characters names one.
pub open spec fn parse_sites(s: Seq<char>) -> Option<Seq<Pauli>> {
    if forall|i: int| 0 <= i < s.len() ==> (#[trigger] pauli_from_char(s[i])) is Some {
        Some(Seq::new(s.len(), |i: int| pauli_from_char(s[i])->0))
    } else {
        None
    }
}

/// The phase and Paulis named by a text in the form that `encode` writes.
pub open spec fn decode(s: Seq<char>) -> Option<(Phase, Seq<Pauli>)> {
    let (phase, skip) = split_prefix(s);
    match parse_sites(s.subrange(skip, s.len() as int)) {
        Some(paulis) => Some((phase, paulis)),
        None => None,
    }
}

/// A Pauli operator on n qubits: a phase and one Pauli per qubit.
#[derive(Debug, Clone, PartialEq, Eq)]
pub struct PauliString {
    pub phase: Phase,
    pub paulis: Vec<Pauli>,
}

proof fn lemma_phase_of_exp_mod(k: int, e: int)
    ensures
        phase_of_exp(phase_exp(phase_of_exp(k)) + e) == phase_of_exp(k + e),
{
    assert(phase_exp(phase_of_exp(k)) == k % 4);
    assert((k % 4 + e) % 4 == (k + e) % 4) by (nonlinear_arith);
}

impl PauliString {
    /// The identity on n qubits, with phase +1.
    pub fn identity(n_qubits: usize) -> (r: PauliString)
        ensures
            r.phase == Phase::Plus,
            r.paulis@ == Seq::new(n_qubits as nat, |i: int| Pauli::I),
    {
        let mut paulis: Vec<Pauli> = Vec::with_capacity(n_qubits);
        let mut i: usize = 0;
        while i < n_qubits
            invariant
                i <= n_qubits,
                paulis@ == Seq::new(i as nat, |k: int| Pauli::I),
            decreases n_qubits - i,
        {
            paulis.push(Pauli::I);
            i = i + 1;
            assert(paulis@ =~= Seq::new(i as nat, |k: int| Pauli::I));
        }
        PauliString { phase: Phase::Plus, paulis }
    }

    /// The number of qubits.
    pub fn n_qubits(&self) -> (r: usize)
        ensures
            r == self.paulis@.len(),
    {
        self.paulis.len()
    }

    /// The product self·other, site by site from the left, with the phases of
    /// both operands and of every site multiplied in.
    pub fn multiply(&self, other: &PauliString) -> (r: Result<PauliString, QecError>)
        ensures
            self.paulis@.len() != other.paulis@.len() <==> r is Err,
            r is Err ==> r == Err::<PauliString, QecError>(QecError::LengthMismatch),
            r matches Ok(p) ==> p.paulis@ == site_products(self.paulis@, other.paulis@)
                && p.phase == phase_of_exp(
                phase_exp(self.phase) + phase_exp(other.phase) + site_phase_sum(
                    self.paulis@,
                    other.paulis@,
                ),
            ),
    {
        let n = self.paulis.len();
        if n != other.paulis.len() {
            return Err(QecError::LengthMismatch);
        }
        let ghost a = self.paulis@;
        let ghost b = other.paulis@;
        let mut phase = self.phase.multiply(other.phase);
        let mut paulis: Vec<Pauli> = Vec::with_capacity(n);
        let mut i: usize = 0;
        while i < n
            invariant
                n == a.len(),
                n == b.len(),
                a == self.paulis@,
                b == other.paulis@,
                i <= n,
                paulis@ == site_products(a.subrange(0, i as int), b.subrange(0, i as int)),
                phase == phase_of_exp(
                    phase_exp(self.phase) + phase_exp(other.phase) + site_phase_sum(
                        a.subrange(0, i as int),
                        b.subrange(0, i as int),
                    ),
                ),
            decreases n - i,
        {
            let (site_phase, site) = self.paulis[i].multiply(other.paulis[i]);
            proof {
                let a1 = a.subrange(0, i + 1);
                let b1 = b.subrange(0, i + 1);
                assert(a1.drop_last() =~= a.subrange(0, i as int));
                assert(b1.drop_last() =~= b.subrange(0, i as int));
                lemma_phase_of_exp_mod(
                    phase_exp(self.phase) + phase_exp(other.phase) + site_phase_sum(
                        a.subrange(0, i as int),
                        b.subrange(0, i as int),
                    ),
                    phase_exp(site_phase),
                );
            }
            phase = phase.multiply(site_phase);
            paulis.push(site);
            i = i + 1;
            assert(paulis@ =~= site_products(a.subrange(0, i as int), b.subrange(0, i as int)));
        }
        assert(a.subrange(0, n as int) =~= a);
        assert(b.subrange(0, n as int) =~= b);
        Ok(PauliString { phase, paulis })
    }

    /// Whether the two strings commute: they anticommute on an even number of sites.
    pub fn commutes_with(&self, other: &PauliString) -> (r: Result<bool, QecError>)
        ensures
            self.paulis@.len() != other.paulis@.len() ==> r == Err::<bool, QecError>(
                QecError::LengthMismatch,
            ),
            self.paulis@.len() == other.paulis@.len() ==> r == Ok::<bool, QecError>(
                strings_commute(self.paulis@, other.paulis@),
            ),
    {
        let n = self.paulis.len();
        if n != other.paulis.len() {
            return Err(QecError::LengthMismatch);
        }
        let ghost a = self.paulis@;
        let ghost b = other.paulis@;
        let mut odd = false;
        let mut i: usize = 0;
        while i < n
            invariant
                n == a.len(),
                n == b.len(),
                a == self.paulis@,
                b == other.paulis@,
                i <= n,
                odd == (anticommute_upto(a, b, i as int) % 2 == 1),
            decreases n - i,
        {
            if !self.paulis[i].commutes_with(other.paulis[i]) {
                odd = !odd;
            }
            i = i + 1;
        }
        Ok(!odd)
    }

    /// The text form: the phase prefix ("", "-", "+i" or "-i"), then one of
    /// I, X, Y, Z per qubit.
    pub fn to_string(&self) -> (r: String)
        ensures
            r@ == encode(self.phase, self.paulis@),
    {
        let mut text = String::new();
        proof {
            reveal_strlit("-");
            reveal_strlit("+i");
            reveal_strlit("-i");
        }
        match self.phase {
            Phase::Plus => {},
            Phase::Minus => text.append("-"),
            Phase::PlusI => text.append("+i"),
            Phase::MinusI => text.append("-i"),
        }
        assert(text@ =~= phase_prefix(self.phase));
        let n = self.paulis.len();
        let mut i: usize = 0;
        while i < n
            invariant
                n == self.paulis@.len(),
                i <= n,
                text@ =~= phase_prefix(self.phase) + self.paulis@.subrange(0, i as int).map_values(
                    |p: Pauli| pauli_char(p),
                ),
            decreases n - i,
        {
            proof {
                reveal_strlit("I");
                reveal_strlit("X");
                reveal_strlit("Y");
                reveal_strlit("Z");
            }
            match self.paulis[i] {
                Pauli::I => text.append("I"),
                Pauli::X => text.append("X"),
                Pauli::Y => text.append("Y"),
                Pauli::Z => text.append("Z"),
            }
            i = i + 1;
            assert(self.paulis@.subrange(0, i as int).map_values(|p: Pauli| pauli_char(p))
                =~= self.paulis@.subrange(0, i - 1).map_values(|p: Pauli| pauli_char(p)).push(
                pauli_char(self.paulis@[i - 1]),
            ));
        }
        assert(self.paulis@.subrange(0, n as int) =~= self.paulis@);
        text
    }

    /// Parses the text form that `to_string` writes; `None` where a character
    /// after the phase prefix is not one of I, X, Y, Z.
    pub fn from_str(s: &str) -> (r: Option<PauliString>)
        ensures
            decode(s@) is None <==> r is None,
            r matches Some(p) ==> decode(s@) == Some((p.phase, p.paulis@)),
    {
        let len = s.unicode_len();
        let (phase, skip) = if len >= 2 && s.get_char(0) == '+' && s.get_char(1) == 'i' {
            (Phase::PlusI, 2usize)
        } else if len >= 2 && s.get_char(0) == '-' && s.get_char(1) == 'i' {
            (Phase::MinusI, 2usize)
        } else if len >= 1 && s.get_char(0) == '-' {
            (Phase::Minus, 1usize)
        } else {
            (Phase::Plus, 0usize)
        };
        assert(split_prefix(s@) == (phase, skip as int));
        let ghost body = s@.subrange(skip as int, len as int);
        let mut paulis: Vec<Pauli> = Vec::with_capacity(len - skip);
        let mut i: usize = skip;
        while i < len
            invariant
                len == s@.len(),
                skip <= i <= len,
                body == s@.subrange(skip as int, len as int),
                split_prefix(s@) == (phase, skip as int),
                paulis@.len() == i - skip,
                forall|k: int|
                    0 <= k < i - skip ==> pauli_from_char(body[k]) == Some(#[trigger] paulis@[k]),
            decreases len - i,
        {
            assert(body[i - skip] == s@[i as int]);
            match Pauli::from_char(s.get_char(i)) {
                Some(p) => paulis.push(p),
                None => {
                    assert(pauli_from_char(body[i - skip]) is None);
                    assert(parse_sites(body) is None);
                    assert(decode(s@) is None);
                    return None;
                },
            }
            i = i + 1;
        }
        assert forall|k: int| 0 <= k < body.len() implies (#[trigger] pauli_from_char(
            body[k],
        )) is Some by {
            assert(pauli_from_char(body[k]) == Some(paulis@[k]));
        }
        assert(paulis@ =~= Seq::new(body.len(), |k: int| pauli_from_char(body[k])->0));
        Some(PauliString { phase, paulis })
    }

    /// Parses the text form of a Pauli string on exactly n qubits; `None`
    /// where the text is not in that form or names another number of qubits.
    pub fn from_str_sized(s: &str, n_qubits: usize) -> (r: Option<PauliString>)
        ensures
            r is Some <==> (decode(s@) matches Some(d) && d.1.len() == n_qubits),
            r matches Some(p) ==> decode(s@) == Some((p.phase, p.paulis@)),
    {
        match Self::from_str(s) {
            Some(p) => {
                if p.paulis.len() == n_qubits {
                    Some(p)
                } else {
                    None
                }
            },
            None => None,
        }
    }
}

} // verus!
