//! Laws of the library, proved over the models that the operations' contracts
//! speak of.

use vstd::prelude::*;

use crate::codes::{code_generators, Code};
use crate::error::Error;
use crate::pauli::{commutes, pauli_char, pauli_from_char, product_pauli, product_phase, Pauli, Phase};
use crate::pauli_string::{anticommute_upto, decode, encode, phase_prefix, strings_commute};
use crate::simulator::{count_on, replace_error, without_qubit};
use crate::stabilizer::TableauModel;

verus! {

/// For two different Paulis, neither of them I, the products in both orders
/// have the same Pauli part and conjugate phases: one +i, the other -i.
pub proof fn lemma_reversed_product(a: Pauli, b: Pauli)
    requires
        a != b,
        a != Pauli::I,
        b != Pauli::I,
    ensures
        product_pauli(a, b) == product_pauli(b, a),
        (product_phase(a, b) == Phase::PlusI && product_phase(b, a) == Phase::MinusI) || (
        product_phase(a, b) == Phase::MinusI && product_phase(b, a) == Phase::PlusI),
{
}

/// Commutation is symmetric, I commutes with every Pauli, and X and Z do not
/// commute.
pub proof fn lemma_commutation(a: Pauli, b: Pauli)
    ensures
        commutes(a, b) == commutes(b, a),
        commutes(Pauli::I, a),
        !commutes(Pauli::X, Pauli::Z),
{
}

/// Row i of the n-qubit basis tableau is Z on qubit i and I elsewhere, with
/// sign +1.
pub proof fn lemma_basis_rows(n: nat, i: int)
    requires
        0 <= i < n,
    ensures
        TableauModel::basis(n).row(i) == Seq::new(
            n,
            |q: int|
                if q == i {
                    Pauli::Z
                } else {
                    Pauli::I
                },
        ),
        !TableauModel::basis(n).signs[i],
{
    assert(TableauModel::basis(n).row(i) =~= Seq::new(
        n,
        |q: int|
            if q == i {
                Pauli::Z
            } else {
                Pauli::I
            },
    ));
}

/// Hadamard twice on the same qubit gives back the tableau.
pub proof fn lemma_h_twice(t: TableauModel, q: int)
    requires
        t.well_formed(),
        0 <= q < t.n,
    ensures
        t.after_h(q).after_h(q) == t,
{
    let t2 = t.after_h(q).after_h(q);
    assert forall|r: int| 0 <= r < t.n implies #[trigger] t2.x[r] == t.x[r] by {
        assert(t2.x[r] =~= t.x[r]);
    }
    assert forall|r: int| 0 <= r < t.n implies #[trigger] t2.z[r] == t.z[r] by {
        assert(t2.z[r] =~= t.z[r]);
    }
    assert(t2.x =~= t.x);
    assert(t2.z =~= t.z);
    assert(t2.signs =~= t.signs);
}

/// CNOT twice with the same control and target, which differ, gives back the
/// tableau.
pub proof fn lemma_cnot_twice(t: TableauModel, c: int, g: int)
    requires
        t.well_formed(),
        0 <= c < t.n,
        0 <= g < t.n,
        c != g,
    ensures
        t.after_cnot(c, g).after_cnot(c, g) == t,
{
    let t2 = t.after_cnot(c, g).after_cnot(c, g);
    assert forall|r: int| 0 <= r < t.n implies #[trigger] t2.x[r] == t.x[r] by {
        assert(t2.x[r] =~= t.x[r]);
    }
    assert forall|r: int| 0 <= r < t.n implies #[trigger] t2.z[r] == t.z[r] by {
        assert(t2.z[r] =~= t.z[r]);
    }
    assert(t2.x =~= t.x);
    assert(t2.z =~= t.z);
    assert(t2.signs =~= t.signs);
}

/// Removing the errors on a qubit twice removes no more than once.
proof fn lemma_without_idempotent(errors: Seq<Error>, q: usize)
    ensures
        without_qubit(without_qubit(errors, q), q) == without_qubit(errors, q),
        count_on(without_qubit(errors, q), q) == 0,
    decreases errors.len(),
{
    if errors.len() > 0 {
        lemma_without_idempotent(errors.drop_last(), q);
        let w = without_qubit(errors.drop_last(), q);
        if errors.last().qubit != q {
            assert(w.push(errors.last()).drop_last() =~= w);
        }
    }
}

/// Replacing the error on a qubit twice in a row with the same error records
/// exactly one error on that qubit, and leaves the same errors as replacing
/// it once.
pub proof fn lemma_replace_twice(errors: Seq<Error>, e: Error)
    ensures
        replace_error(replace_error(errors, e), e) == replace_error(errors, e),
        count_on(replace_error(replace_error(errors, e), e), e.qubit) == 1,
{
    let w = without_qubit(errors, e.qubit);
    lemma_without_idempotent(errors, e.qubit);
    assert(w.push(e).drop_last() =~= w);
    assert(without_qubit(w.push(e), e.qubit) == without_qubit(w, e.qubit));
    assert(replace_error(errors, e).drop_last() =~= w);
}

/// Row i of the surface code's declared generators commutes with each of them.
proof fn lemma_surface_row_commutes(i: int, j: int)
    requires
        0 <= i < 8,
        0 <= j < 8,
    ensures
        strings_commute(
            code_generators(Code::SurfaceD3)[i],
            code_generators(Code::SurfaceD3)[j],
        ),
{
    reveal_with_fuel(anticommute_upto, 10);
    let g = code_generators(Code::SurfaceD3);
    let a = g[i];
    let b = g[j];
    assert(a.len() == 9 && b.len() == 9);
}

/// The declared generators of every code of the catalog commute pairwise.
pub proof fn lemma_catalog_generators_commute(c: Code, i: int, j: int)
    requires
        0 <= i < code_generators(c).len(),
        0 <= j < code_generators(c).len(),
    ensures
        strings_commute(code_generators(c)[i], code_generators(c)[j]),
{
    match c {
        Code::SurfaceD3 => lemma_surface_row_commutes(i, j),
        _ => {
            reveal_with_fuel(anticommute_upto, 8);
            let g = code_generators(c);
            assert(g[i].len() == g[j].len());
        },
    }
}

/// The text form of a Pauli string reads back as the same phase and Paulis.
pub proof fn lemma_text_round_trip(phase: Phase, paulis: Seq<Pauli>)
    ensures
        decode(encode(phase, paulis)) == Some((phase, paulis)),
{
    let s = encode(phase, paulis);
    let pre = phase_prefix(phase);
    let body = paulis.map_values(|p: Pauli| pauli_char(p));
    assert(s.subrange(pre.len() as int, s.len() as int) =~= body);
    assert forall|i: int| 0 <= i < body.len() implies #[trigger] pauli_from_char(body[i])
        == Some(paulis[i]) by {
        assert(body[i] == pauli_char(paulis[i]));
    }
    assert(Seq::new(body.len(), |i: int| pauli_from_char(body[i])->0) =~= paulis);
}

} // verus!
