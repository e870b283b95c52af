//! The binary stabilizer tableau and its Clifford-gate conjugation rules.

use vstd::prelude::*;

use crate::pauli::{pauli_of_bits, x_bit, z_bit, Pauli, Phase};
use crate::pauli_string::PauliString;

verus! {

/// What a tableau holds: per row and qubit an X bit and a Z bit, and per row a
/// sign bit (false for +1, true for -1).
pub struct TableauModel {
    pub n: nat,
    pub x: Seq<Seq<bool>>,
    pub z: Seq<Seq<bool>>,
    pub signs: Seq<bool>,
}

/// The per-qubit phase contribution of row addition, from the bits (x1, z1)
/// of the receiving row and (x2, z2) of the added row: 0 where the receiving
/// row has I; where it has Y, +1 against Z only and -1 against X only; where
/// it has X, -1 against Z only and +1 against X only; where it has Z, +1
/// against X only and -1 against Z only; 0 in every other case.
pub open spec fn g_exponent(x1: bool, z1: bool, x2: bool, z2: bool) -> int {
    let other_x_only = x2 && !z2;
    let other_z_only = !x2 && z2;
    if x1 && z1 {
        if other_z_only {
            1
        } else if other_x_only {
            -1
        } else {
            0
        }
    } else if x1 {
        if other_z_only {
            -1
        } else if other_x_only {
            1
        } else {
            0
        }
    } else if z1 {
        if other_x_only {
            1
        } else if other_z_only {
            -1
        } else {
            0
        }
    } else {
        0
    }
}

impl TableauModel {
    /// n rows of n qubits, and n sign bits.
    pub open spec fn well_formed(self) -> bool {
        &&& self.x.len() == self.n
        &&& self.z.len() == self.n
        &&& self.signs.len() == self.n
        &&& forall|r: int| 0 <= r < self.n ==> (#[trigger] self.x[r]).len() == self.n
        &&& forall|r: int| 0 <= r < self.n ==> (#[trigger] self.z[r]).len() == self.n
    }

    /// The Pauli of row r on qubit q.
    pub open spec fn pauli_at(self, r: int, q: int) -> Pauli {
        pauli_of_bits(self.x[r][q], self.z[r][q])
    }

    /// Row r as a sequence of Paulis.
    pub open spec fn row(self, r: int) -> Seq<Pauli> {
        Seq::new(self.n, |q: int| self.pauli_at(r, q))
    }

    /// The computational basis state: row i is Z on qubit i, I elsewhere, sign +1.
    pub open spec fn basis(n: nat) -> TableauModel {
        TableauModel {
            n,
            x: Seq::new(n, |r: int| Seq::new(n, |q: int| false)),
            z: Seq::new(n, |r: int| Seq::new(n, |q: int| q == r)),
            signs: Seq::new(n, |r: int| false),
        }
    }

    pub open spec fn with_x(self, r: int, q: int, v: bool) -> TableauModel {
        TableauModel { x: self.x.update(r, self.x[r].update(q, v)), ..self }
    }

    pub open spec fn with_z(self, r: int, q: int, v: bool) -> TableauModel {
        TableauModel { z: self.z.update(r, self.z[r].update(q, v)), ..self }
    }

    pub open spec fn with_sign(self, r: int, v: bool) -> TableauModel {
        TableauModel { signs: self.signs.update(r, v), ..self }
    }

    /// Row r overwritten by the given Paulis, with sign -1 iff the phase is -1.
    pub open spec fn with_row(self, r: int, paulis: Seq<Pauli>, phase: Phase) -> TableauModel {
        TableauModel {
            n: self.n,
            x: self.x.update(r, paulis.map_values(|p: Pauli| x_bit(p))),
            z: self.z.update(r, paulis.map_values(|p: Pauli| z_bit(p))),
            signs: self.signs.update(r, phase == Phase::Minus),
        }
    }

    /// The tableau whose row r is rows[r] with sign signs[r].
    pub open spec fn from_rows(n: nat, rows: Seq<Seq<Pauli>>, signs: Seq<bool>) -> TableauModel {
        TableauModel {
            n,
            x: rows.map_values(|row: Seq<Pauli>| row.map_values(|p: Pauli| x_bit(p))),
            z: rows.map_values(|row: Seq<Pauli>| row.map_values(|p: Pauli| z_bit(p))),
            signs,
        }
    }

    /// Hadamard on q: every row swaps its X and Z bits at q, and a row with Y
    /// at q changes sign.
    pub open spec fn after_h(self, q: int) -> TableauModel {
        TableauModel {
            n: self.n,
            x: Seq::new(self.n, |r: int| self.x[r].update(q, self.z[r][q])),
            z: Seq::new(self.n, |r: int| self.z[r].update(q, self.x[r][q])),
            signs: Seq::new(self.n, |r: int| self.signs[r] != (self.x[r][q] && self.z[r][q])),
        }
    }

    /// Phase gate on q: X becomes Y, Y becomes -X, I and Z stay.
    pub open spec fn after_s(self, q: int) -> TableauModel {
        TableauModel {
            n: self.n,
            x: self.x,
            z: Seq::new(self.n, |r: int| self.z[r].update(q, self.z[r][q] != self.x[r][q])),
            signs: Seq::new(self.n, |r: int| self.signs[r] != (self.x[r][q] && self.z[r][q])),
        }
    }

    /// CNOT from c to t: X(t) ^= X(c), Z(c) ^= Z(t), and the sign flips iff
    /// X(c), Z(t) and X(t) != Z(c), all before the update.
    pub open spec fn after_cnot(self, c: int, t: int) -> TableauModel {
        TableauModel {
            n: self.n,
            x: Seq::new(self.n, |r: int| self.x[r].update(t, self.x[r][t] != self.x[r][c])),
            z: Seq::new(self.n, |r: int| self.z[r].update(c, self.z[r][c] != self.z[r][t])),
            signs: Seq::new(
                self.n,
                |r: int|
                    self.signs[r] != (self.x[r][c] && self.z[r][t] && self.x[r][t] != self.z[r][c]),
            ),
        }
    }

    /// CZ on a and b: Z(a) ^= X(b), then Z(b) ^= X(a), and the sign flips iff
    /// X(a), X(b) and Z(a) != Z(b), all before the update.
    pub open spec fn after_cz(self, a: int, b: int) -> TableauModel {
        TableauModel {
            n: self.n,
            x: self.x,
            z: Seq::new(
                self.n,
                |r: int|
                    self.z[r].update(a, self.z[r][a] != self.x[r][b]).update(
                        b,
                        self.z[r][b] != self.x[r][a],
                    ),
            ),
            signs: Seq::new(
                self.n,
                |r: int|
                    self.signs[r] != (self.x[r][a] && self.x[r][b] && self.z[r][a] != self.z[r][b]),
            ),
        }
    }

    /// The sum of g over the first k qubits of rows d and s.
    pub open spec fn g_sum(self, d: int, s: int, k: int) -> int
        decreases k,
    {
        if k <= 0 {
            0
        } else {
            self.g_sum(d, s, k - 1) + g_exponent(
                self.x[d][k - 1],
                self.z[d][k - 1],
                self.x[s][k - 1],
                self.z[s][k - 1],
            )
        }
    }

    /// Row s added into row d: the bits are XORed, and d's sign flips iff the
    /// sum of g over all qubits is 2 modulo 4.
    pub open spec fn after_row_add(self, d: int, s: int) -> TableauModel {
        TableauModel {
            n: self.n,
            x: self.x.update(d, Seq::new(self.n, |q: int| self.x[d][q] != self.x[s][q])),
            z: self.z.update(d, Seq::new(self.n, |q: int| self.z[d][q] != self.z[s][q])),
            signs: self.signs.update(d, self.signs[d] != (self.g_sum(d, s, self.n as int) % 4 == 2)),
        }
    }
}

/// The phase of a row with the given sign bit.
pub open spec fn sign_phase(sign: bool) -> Phase {
    if sign {
        Phase::Minus
    } else {
        Phase::Plus
    }
}

/// The place of column c of row r in a flat tableau of n qubits.
pub open spec fn cell(n: int, r: int, c: int) -> int {
    r * (2 * n) + c
}

proof fn lemma_cell_bounds(n: int, r: int, c: int)
    requires
        0 <= r < n,
        0 <= c < 2 * n,
    ensures
        0 <= cell(n, r, c) < n * (2 * n),
        2 * n <= n * (2 * n),
{
    assert(0 <= r * (2 * n) + c < n * (2 * n) && 2 * n <= n * (2 * n)) by (nonlinear_arith)
        requires
            0 <= r < n,
            0 <= c < 2 * n,
    ;
}

proof fn lemma_size(n: int)
    requires
        0 <= n,
    ensures
        2 * n <= n * (2 * n),
{
    assert(2 * n <= n * (2 * n)) by (nonlinear_arith)
        requires
            0 <= n,
    ;
}

proof fn lemma_cell_injective(n: int, r1: int, c1: int, r2: int, c2: int)
    requires
        0 <= r1 < n,
        0 <= c1 < 2 * n,
        0 <= r2 < n,
        0 <= c2 < 2 * n,
    ensures
        (cell(n, r1, c1) == cell(n, r2, c2)) == (r1 == r2 && c1 == c2),
{
    if r1 < r2 {
        assert(r1 * (2 * n) + c1 < r2 * (2 * n)) by (nonlinear_arith)
            requires
                r1 < r2,
                0 <= c1 < 2 * n,
        ;
    } else if r2 < r1 {
        assert(r2 * (2 * n) + c2 < r1 * (2 * n)) by (nonlinear_arith)
            requires
                r2 < r1,
                0 <= c2 < 2 * n,
        ;
    }
}

/// Two models with the same size and the same rows are equal.
proof fn lemma_model_ext(a: TableauModel, b: TableauModel)
    requires
        a.n == b.n,
        a.x.len() == a.n,
        a.z.len() == a.n,
        a.signs.len() == a.n,
        b.x.len() == b.n,
        b.z.len() == b.n,
        b.signs.len() == b.n,
        forall|r: int| 0 <= r < a.n ==> #[trigger] a.x[r] == b.x[r],
        forall|r: int| 0 <= r < a.n ==> #[trigger] a.z[r] == b.z[r],
        forall|r: int| 0 <= r < a.n ==> #[trigger] a.signs[r] == b.signs[r],
    ensures
        a == b,
{
    assert(a.x =~= b.x);
    assert(a.z =~= b.z);
    assert(a.signs =~= b.signs);
}

/// An n-qubit stabilizer state as n generator rows: X bits, Z bits, signs.
#[derive(Debug, Clone)]
pub struct StabilizerState {
    n_qubits: usize,
    /// Row r holds its n X bits, then its n Z bits.
    tableau: Vec<bool>,
    /// false for +1, true for -1.
    phases: Vec<bool>,
}

impl View for StabilizerState {
    type V = TableauModel;

    closed spec fn view(&self) -> TableauModel {
        let n = self.n_qubits as int;
        TableauModel {
            n: self.n_qubits as nat,
            x: Seq::new(
                self.n_qubits as nat,
                |r: int| Seq::new(self.n_qubits as nat, |q: int| self.tableau@[cell(n, r, q)]),
            ),
            z: Seq::new(
                self.n_qubits as nat,
                |r: int| Seq::new(self.n_qubits as nat, |q: int| self.tableau@[cell(n, r, n + q)]),
            ),
            signs: self.phases@,
        }
    }
}

impl StabilizerState {
    /// The storage has the sizes that n qubits ask for.
    pub closed spec fn wf(&self) -> bool {
        &&& self.n_qubits * (2 * self.n_qubits) <= usize::MAX
        &&& self.tableau@.len() == self.n_qubits * (2 * self.n_qubits)
        &&& self.phases@.len() == self.n_qubits
    }

    /// A well-formed state has a well-formed model.
    pub proof fn lemma_view_well_formed(&self)
        requires
            self.wf(),
        ensures
            self@.well_formed(),
    {
    }

    /// The state |0...0>: row i is Z on qubit i, sign +1.
    pub fn new(n_qubits: usize) -> (r: StabilizerState)
        requires
            n_qubits * (2 * n_qubits) <= usize::MAX,
        ensures
            r.wf(),
            r@ == TableauModel::basis(n_qubits as nat),
            forall|i: int|
                0 <= i < n_qubits ==> #[trigger] r@.row(i) == Seq::new(
                    n_qubits as nat,
                    |q: int|
                        if q == i {
                            Pauli::Z
                        } else {
                            Pauli::I
                        },
                ) && !r@.signs[i],
    {
        let n = n_qubits;
        proof {
            lemma_size(n as int);
        }
        let size = n * (2 * n);
        let mut tableau: Vec<bool> = Vec::with_capacity(size);
        let mut k: usize = 0;
        while k < size
            invariant
                k <= size,
                tableau@ == Seq::new(k as nat, |j: int| false),
            decreases size - k,
        {
            tableau.push(false);
            k = k + 1;
            assert(tableau@ =~= Seq::new(k as nat, |j: int| false));
        }
        let mut phases: Vec<bool> = Vec::with_capacity(n);
        k = 0;
        while k < n
            invariant
                k <= n,
                phases@ == Seq::new(k as nat, |j: int| false),
            decreases n - k,
        {
            phases.push(false);
            k = k + 1;
            assert(phases@ =~= Seq::new(k as nat, |j: int| false));
        }
        assert forall|r: int, c: int| 0 <= r < n && 0 <= c < 2 * n implies tableau@[
            #[trigger] cell(n as int, r, c)
        ] == (c == n + r && r < 0) by {
            lemma_cell_bounds(n as int, r, c);
        }
        let mut i: usize = 0;
        while i < n
            invariant
                i <= n,
                size == n * (2 * n),
                size <= usize::MAX,
                tableau@.len() == size,
                forall|r: int, c: int|
                    0 <= r < n && 0 <= c < 2 * n ==> tableau@[#[trigger] cell(n as int, r, c)] == (c
                        == n + r && r < i),
            decreases n - i,
        {
            proof {
                lemma_cell_bounds(n as int, i as int, n + i);
            }
            let ghost before = tableau@;
            tableau.set(i * (2 * n) + n + i, true);
            proof {
                assert forall|r: int, c: int| 0 <= r < n && 0 <= c < 2 * n implies tableau@[
                    #[trigger] cell(n as int, r, c)
                ] == (c == n + r && r < i + 1) by {
                    lemma_cell_injective(n as int, r, c, i as int, n + i);
                    lemma_cell_bounds(n as int, r, c);
                }
            }
            i = i + 1;
        }
        let r = StabilizerState { n_qubits: n, tableau, phases };
        proof {
            let b = TableauModel::basis(n as nat);
            assert forall|row: int| 0 <= row < n implies r@.x[row] =~= b.x[row] by {
                assert forall|q: int| 0 <= q < n implies r@.x[row][q] == b.x[row][q] by {
                    assert(r@.x[row][q] == tableau@[cell(n as int, row, q)]);
                }
            }
            assert forall|row: int| 0 <= row < n implies r@.z[row] =~= b.z[row] by {
                assert forall|q: int| 0 <= q < n implies r@.z[row][q] == b.z[row][q] by {
                    assert(r@.z[row][q] == tableau@[cell(n as int, row, n + q)]);
                }
            }
            assert(r@.x =~= b.x);
            assert(r@.z =~= b.z);
            assert(r@.signs =~= b.signs);
            assert forall|row: int| 0 <= row < n implies #[trigger] r@.row(row) == Seq::new(
                n as nat,
                |q: int|
                    if q == row {
                        Pauli::Z
                    } else {
                        Pauli::I
                    },
            ) && !r@.signs[row] by {
                crate::laws::lemma_basis_rows(n as nat, row);
            }
        }
        r
    }

    /// The number of qubits, which is also the number of rows.
    pub fn n_qubits(&self) -> (r: usize)
        ensures
            r == self@.n,
    {
        self.n_qubits
    }

    pub(crate) fn get_x(&self, row: usize, col: usize) -> (r: bool)
        requires
            self.wf(),
            row < self@.n,
            col < self@.n,
        ensures
            r == self@.x[row as int][col as int],
    {
        proof {
            lemma_cell_bounds(self.n_qubits as int, row as int, col as int);
        }
        self.tableau[row * (2 * self.n_qubits) + col]
    }

    pub(crate) fn get_z(&self, row: usize, col: usize) -> (r: bool)
        requires
            self.wf(),
            row < self@.n,
            col < self@.n,
        ensures
            r == self@.z[row as int][col as int],
    {
        proof {
            lemma_cell_bounds(self.n_qubits as int, row as int, self.n_qubits + col);
        }
        self.tableau[row * (2 * self.n_qubits) + self.n_qubits + col]
    }

    pub(crate) fn get_phase(&self, row: usize) -> (r: bool)
        requires
            self.wf(),
            row < self@.n,
        ensures
            r == self@.signs[row as int],
    {
        self.phases[row]
    }

    fn set_x(&mut self, row: usize, col: usize, val: bool)
        requires
            old(self).wf(),
            row < old(self)@.n,
            col < old(self)@.n,
        ensures
            final(self).wf(),
            final(self)@ == old(self)@.with_x(row as int, col as int, val),
    {
        let ghost pre = self@;
        let n = self.n_qubits;
        proof {
            lemma_cell_bounds(n as int, row as int, col as int);
        }
        self.tableau.set(row * (2 * n) + col, val);
        proof {
            let post = pre.with_x(row as int, col as int, val);
            assert forall|r: int| 0 <= r < n implies #[trigger] self@.x[r] =~= post.x[r] by {
                assert forall|q: int| 0 <= q < n implies self@.x[r][q] == post.x[r][q] by {
                    lemma_cell_injective(n as int, r, q, row as int, col as int);
                    lemma_cell_bounds(n as int, r, q);
                }
            }
            assert forall|r: int| 0 <= r < n implies #[trigger] self@.z[r] =~= post.z[r] by {
                assert forall|q: int| 0 <= q < n implies self@.z[r][q] == post.z[r][q] by {
                    lemma_cell_injective(n as int, r, n + q, row as int, col as int);
                    lemma_cell_bounds(n as int, r, n + q);
                }
            }
            assert(self@.x =~= post.x);
            assert(self@.z =~= post.z);
        }
    }

    fn set_z(&mut self, row: usize, col: usize, val: bool)
        requires
            old(self).wf(),
            row < old(self)@.n,
            col < old(self)@.n,
        ensures
            final(self).wf(),
            final(self)@ == old(self)@.with_z(row as int, col as int, val),
    {
        let ghost pre = self@;
        let n = self.n_qubits;
        proof {
            lemma_cell_bounds(n as int, row as int, n + col);
        }
        self.tableau.set(row * (2 * n) + n + col, val);
        proof {
            let post = pre.with_z(row as int, col as int, val);
            assert forall|r: int| 0 <= r < n implies #[trigger] self@.x[r] =~= post.x[r] by {
                assert forall|q: int| 0 <= q < n implies self@.x[r][q] == post.x[r][q] by {
                    lemma_cell_injective(n as int, r, q, row as int, n + col);
                    lemma_cell_bounds(n as int, r, q);
                }
            }
            assert forall|r: int| 0 <= r < n implies #[trigger] self@.z[r] =~= post.z[r] by {
                assert forall|q: int| 0 <= q < n implies self@.z[r][q] == post.z[r][q] by {
                    lemma_cell_injective(n as int, r, n + q, row as int, n + col);
                    lemma_cell_bounds(n as int, r, n + q);
                }
            }
            assert(self@.x =~= post.x);
            assert(self@.z =~= post.z);
        }
    }

    pub(crate) fn set_phase(&mut self, row: usize, val: bool)
        requires
            old(self).wf(),
            row < old(self)@.n,
        ensures
            final(self).wf(),
            final(self)@ == old(self)@.with_sign(row as int, val),
    {
        let ghost pre = self@;
        self.phases.set(row, val);
        assert(self@.signs =~= pre.with_sign(row as int, val).signs);
        assert(self@.x =~= pre.x);
        assert(self@.z =~= pre.z);
    }

    /// The phase contribution of one qubit to row addition; see `g_exponent`.
    pub fn g_function(x1: bool, z1: bool, x2: bool, z2: bool) -> (r: i32)
        ensures
            r as int == g_exponent(x1, z1, x2, z2),
    {
        match (x1, z1) {
            (false, false) => 0,
            (true, true) => {
                if z2 && !x2 {
                    1
                } else if x2 && !z2 {
                    -1
                } else {
                    0
                }
            },
            (true, false) => {
                if z2 && !x2 {
                    -1
                } else if x2 && !z2 {
                    1
                } else {
                    0
                }
            },
            (false, true) => {
                if x2 && !z2 {
                    1
                } else if z2 && !x2 {
                    -1
                } else {
                    0
                }
            },
        }
    }

    /// Adds row src into row dest: dest's sign flips iff the sum of g over all
    /// qubits is 2 modulo 4, then dest's bits become the XOR of both rows.
    pub fn row_add(&mut self, dest: usize, src: usize)
        requires
            old(self).wf(),
            dest < old(self)@.n,
            src < old(self)@.n,
        ensures
            final(self).wf(),
            final(self)@ == old(self)@.after_row_add(dest as int, src as int),
    {
        let ghost pre = self@;
        let n = self.n_qubits;
        let mut acc: u8 = 0;
        let mut q: usize = 0;
        while q < n
            invariant
                self.wf(),
                self@ == pre,
                n == pre.n,
                dest < n,
                src < n,
                q <= n,
                acc < 4,
                acc as int == pre.g_sum(dest as int, src as int, q as int) % 4,
            decreases n - q,
        {
            let g = Self::g_function(
                self.get_x(dest, q),
                self.get_z(dest, q),
                self.get_x(src, q),
                self.get_z(src, q),
            );
            let step: u8 = if g == 1 {
                1
            } else if g == -1 {
                3
            } else {
                0
            };
            proof {
                let k = pre.g_sum(dest as int, src as int, q as int);
                assert(pre.g_sum(dest as int, src as int, q + 1) == k + g);
                assert((k % 4 + step) % 4 == (k + g) % 4) by (nonlinear_arith)
                    requires
                        step == g || step == g + 4,
                ;
            }
            acc = (acc + step) % 4;
            q = q + 1;
        }
        if acc == 2 {
            let p = self.get_phase(dest);
            self.set_phase(dest, !p);
        }
        let ghost mid = self@;
        q = 0;
        while q < n
            invariant
                self.wf(),
                self@.n == n,
                n == pre.n,
                dest < n,
                src < n,
                q <= n,
                pre.well_formed(),
                mid.well_formed(),
                mid.x == pre.x,
                mid.z == pre.z,
                self@.signs == mid.signs,
                forall|r: int| 0 <= r < n && r != dest ==> #[trigger] self@.x[r] == pre.x[r],
                forall|r: int| 0 <= r < n && r != dest ==> #[trigger] self@.z[r] == pre.z[r],
                self@.x[dest as int] == Seq::new(
                    n as nat,
                    |c: int|
                        if c < q {
                            pre.x[dest as int][c] != pre.x[src as int][c]
                        } else {
                            pre.x[dest as int][c]
                        },
                ),
                self@.z[dest as int] == Seq::new(
                    n as nat,
                    |c: int|
                        if c < q {
                            pre.z[dest as int][c] != pre.z[src as int][c]
                        } else {
                            pre.z[dest as int][c]
                        },
                ),
            decreases n - q,
        {
            let xd = self.get_x(dest, q);
            let xs = self.get_x(src, q);
            let zd = self.get_z(dest, q);
            let zs = self.get_z(src, q);
            self.set_x(dest, q, xd != xs);
            self.set_z(dest, q, zd != zs);
            q = q + 1;
            proof {
                assert(self@.x[dest as int] =~= Seq::new(
                    n as nat,
                    |c: int|
                        if c < q {
                            pre.x[dest as int][c] != pre.x[src as int][c]
                        } else {
                            pre.x[dest as int][c]
                        },
                ));
                assert(self@.z[dest as int] =~= Seq::new(
                    n as nat,
                    |c: int|
                        if c < q {
                            pre.z[dest as int][c] != pre.z[src as int][c]
                        } else {
                            pre.z[dest as int][c]
                        },
                ));
            }
        }
        proof {
            let post = pre.after_row_add(dest as int, src as int);
            assert(self@.x[dest as int] =~= post.x[dest as int]);
            assert(self@.z[dest as int] =~= post.z[dest as int]);
            lemma_model_ext(self@, post);
        }
    }

    /// Hadamard on a qubit.
    pub fn apply_h(&mut self, qubit: usize)
        requires
            old(self).wf(),
            qubit < old(self)@.n,
        ensures
            final(self).wf(),
            final(self)@ == old(self)@.after_h(qubit as int),
    {
        let ghost pre = self@;
        let ghost post = pre.after_h(qubit as int);
        let n = self.n_qubits;
        let mut row: usize = 0;
        while row < n
            invariant
                post == pre.after_h(qubit as int),
                self.wf(),
                self@.n == n,
                n == pre.n,
                qubit < n,
                pre.well_formed(),
                row <= n,
                forall|r: int| 0 <= r < row ==> #[trigger] self@.x[r] == post.x[r],
                forall|r: int| 0 <= r < row ==> #[trigger] self@.z[r] == post.z[r],
                forall|r: int| 0 <= r < row ==> #[trigger] self@.signs[r] == post.signs[r],
                forall|r: int| row <= r < n ==> #[trigger] self@.x[r] == pre.x[r],
                forall|r: int| row <= r < n ==> #[trigger] self@.z[r] == pre.z[r],
                forall|r: int| row <= r < n ==> #[trigger] self@.signs[r] == pre.signs[r],
            decreases n - row,
        {
            let x = self.get_x(row, qubit);
            let z = self.get_z(row, qubit);
            self.set_x(row, qubit, z);
            self.set_z(row, qubit, x);
            if x && z {
                let p = self.get_phase(row);
                self.set_phase(row, !p);
            }
            assert(self@.x[row as int] =~= post.x[row as int]);
            assert(self@.z[row as int] =~= post.z[row as int]);
            row = row + 1;
        }
        proof {
            lemma_model_ext(self@, post);
        }
    }

    /// Phase gate S on a qubit.
    pub fn apply_s(&mut self, qubit: usize)
        requires
            old(self).wf(),
            qubit < old(self)@.n,
        ensures
            final(self).wf(),
            final(self)@ == old(self)@.after_s(qubit as int),
    {
        let ghost pre = self@;
        let ghost post = pre.after_s(qubit as int);
        let n = self.n_qubits;
        let mut row: usize = 0;
        while row < n
            invariant
                post == pre.after_s(qubit as int),
                self.wf(),
                self@.n == n,
                n == pre.n,
                qubit < n,
                pre.well_formed(),
                row <= n,
                forall|r: int| 0 <= r < row ==> #[trigger] self@.x[r] == post.x[r],
                forall|r: int| 0 <= r < row ==> #[trigger] self@.z[r] == post.z[r],
                forall|r: int| 0 <= r < row ==> #[trigger] self@.signs[r] == post.signs[r],
                forall|r: int| row <= r < n ==> #[trigger] self@.x[r] == pre.x[r],
                forall|r: int| row <= r < n ==> #[trigger] self@.z[r] == pre.z[r],
                forall|r: int| row <= r < n ==> #[trigger] self@.signs[r] == pre.signs[r],
            decreases n - row,
        {
            let x = self.get_x(row, qubit);
            let z = self.get_z(row, qubit);
            if x {
                // X becomes Y; Y becomes -X.
                self.set_z(row, qubit, !z);
                if z {
                    let p = self.get_phase(row);
                    self.set_phase(row, !p);
                }
            } else {
                assert(pre.z[row as int].update(qubit as int, z) =~= pre.z[row as int]);
            }
            assert(self@.x[row as int] =~= post.x[row as int]);
            assert(self@.z[row as int] =~= post.z[row as int]);
            row = row + 1;
        }
        proof {
            lemma_model_ext(self@, post);
        }
    }

    /// CNOT with the given control and target.
    pub fn apply_cnot(&mut self, control: usize, target: usize)
        requires
            old(self).wf(),
            control < old(self)@.n,
            target < old(self)@.n,
        ensures
            final(self).wf(),
            final(self)@ == old(self)@.after_cnot(control as int, target as int),
    {
        let ghost pre = self@;
        let ghost post = pre.after_cnot(control as int, target as int);
        let n = self.n_qubits;
        let mut row: usize = 0;
        while row < n
            invariant
                post == pre.after_cnot(control as int, target as int),
                self.wf(),
                self@.n == n,
                n == pre.n,
                control < n,
                target < n,
                pre.well_formed(),
                row <= n,
                forall|r: int| 0 <= r < row ==> #[trigger] self@.x[r] == post.x[r],
                forall|r: int| 0 <= r < row ==> #[trigger] self@.z[r] == post.z[r],
                forall|r: int| 0 <= r < row ==> #[trigger] self@.signs[r] == post.signs[r],
                forall|r: int| row <= r < n ==> #[trigger] self@.x[r] == pre.x[r],
                forall|r: int| row <= r < n ==> #[trigger] self@.z[r] == pre.z[r],
                forall|r: int| row <= r < n ==> #[trigger] self@.signs[r] == pre.signs[r],
            decreases n - row,
        {
            let xc = self.get_x(row, control);
            let zc = self.get_z(row, control);
            let xt = self.get_x(row, target);
            let zt = self.get_z(row, target);
            self.set_x(row, target, xt != xc);
            self.set_z(row, control, zc != zt);
            if xc && zt && (xt != zc) {
                let p = self.get_phase(row);
                self.set_phase(row, !p);
            }
            assert(self@.x[row as int] =~= post.x[row as int]);
            assert(self@.z[row as int] =~= post.z[row as int]);
            row = row + 1;
        }
        proof {
            lemma_model_ext(self@, post);
        }
    }

    /// Controlled-Z on two qubits.
    pub fn apply_cz(&mut self, qubit1: usize, qubit2: usize)
        requires
            old(self).wf(),
            qubit1 < old(self)@.n,
            qubit2 < old(self)@.n,
        ensures
            final(self).wf(),
            final(self)@ == old(self)@.after_cz(qubit1 as int, qubit2 as int),
    {
        let ghost pre = self@;
        let ghost post = pre.after_cz(qubit1 as int, qubit2 as int);
        let n = self.n_qubits;
        let mut row: usize = 0;
        while row < n
            invariant
                post == pre.after_cz(qubit1 as int, qubit2 as int),
                self.wf(),
                self@.n == n,
                n == pre.n,
                qubit1 < n,
                qubit2 < n,
                pre.well_formed(),
                row <= n,
                forall|r: int| 0 <= r < row ==> #[trigger] self@.x[r] == post.x[r],
                forall|r: int| 0 <= r < row ==> #[trigger] self@.z[r] == post.z[r],
                forall|r: int| 0 <= r < row ==> #[trigger] self@.signs[r] == post.signs[r],
                forall|r: int| row <= r < n ==> #[trigger] self@.x[r] == pre.x[r],
                forall|r: int| row <= r < n ==> #[trigger] self@.z[r] == pre.z[r],
                forall|r: int| row <= r < n ==> #[trigger] self@.signs[r] == pre.signs[r],
            decreases n - row,
        {
            let x1 = self.get_x(row, qubit1);
            let z1 = self.get_z(row, qubit1);
            let x2 = self.get_x(row, qubit2);
            let z2 = self.get_z(row, qubit2);
            self.set_z(row, qubit1, z1 != x2);
            self.set_z(row, qubit2, z2 != x1);
            if x1 && x2 && (z1 != z2) {
                let p = self.get_phase(row);
                self.set_phase(row, !p);
            }
            assert(self@.x[row as int] =~= post.x[row as int]);
            assert(self@.z[row as int] =~= post.z[row as int]);
            row = row + 1;
        }
        proof {
            lemma_model_ext(self@, post);
        }
    }

    /// Row `index` as a Pauli string, with phase -1 where its sign bit is set.
    pub fn get_stabilizer(&self, index: usize) -> (r: PauliString)
        requires
            self.wf(),
            index < self@.n,
        ensures
            r.paulis@ == self@.row(index as int),
            r.phase == sign_phase(self@.signs[index as int]),
    {
        let n = self.n_qubits;
        let mut paulis: Vec<Pauli> = Vec::with_capacity(n);
        let mut q: usize = 0;
        while q < n
            invariant
                self.wf(),
                n == self@.n,
                index < n,
                q <= n,
                paulis@ =~= self@.row(index as int).subrange(0, q as int),
            decreases n - q,
        {
            let x = self.get_x(index, q);
            let z = self.get_z(index, q);
            let pauli = match (x, z) {
                (false, false) => Pauli::I,
                (true, false) => Pauli::X,
                (false, true) => Pauli::Z,
                (true, true) => Pauli::Y,
            };
            paulis.push(pauli);
            q = q + 1;
            assert(paulis@ =~= self@.row(index as int).subrange(0, q as int));
        }
        let phase = if self.get_phase(index) {
            Phase::Minus
        } else {
            Phase::Plus
        };
        PauliString { phase, paulis }
    }

    /// Overwrites row `index` with the given Pauli string; its sign becomes -1
    /// iff the string's phase is -1. Nothing checks that the new row commutes
    /// with, or is independent of, the others.
    pub fn set_stabilizer(&mut self, index: usize, pauli_string: &PauliString)
        requires
            old(self).wf(),
            index < old(self)@.n,
            pauli_string.paulis@.len() == old(self)@.n,
        ensures
            final(self).wf(),
            final(self)@ == old(self)@.with_row(
                index as int,
                pauli_string.paulis@,
                pauli_string.phase,
            ),
    {
        let ghost pre = self@;
        let ghost ps = pauli_string.paulis@;
        let n = self.n_qubits;
        let mut q: usize = 0;
        while q < n
            invariant
                self.wf(),
                self@.n == n,
                n == pre.n,
                index < n,
                q <= n,
                pre.well_formed(),
                ps == pauli_string.paulis@,
                ps.len() == n,
                self@.signs == pre.signs,
                forall|r: int| 0 <= r < n && r != index ==> #[trigger] self@.x[r] == pre.x[r],
                forall|r: int| 0 <= r < n && r != index ==> #[trigger] self@.z[r] == pre.z[r],
                self@.x[index as int] == Seq::new(
                    n as nat,
                    |c: int|
                        if c < q {
                            x_bit(ps[c])
                        } else {
                            pre.x[index as int][c]
                        },
                ),
                self@.z[index as int] == Seq::new(
                    n as nat,
                    |c: int|
                        if c < q {
                            z_bit(ps[c])
                        } else {
                            pre.z[index as int][c]
                        },
                ),
            decreases n - q,
        {
            let (x, z) = match pauli_string.paulis[q] {
                Pauli::I => (false, false),
                Pauli::X => (true, false),
                Pauli::Y => (true, true),
                Pauli::Z => (false, true),
            };
            self.set_x(index, q, x);
            self.set_z(index, q, z);
            q = q + 1;
            assert(self@.x[index as int] =~= Seq::new(
                n as nat,
                |c: int|
                    if c < q {
                        x_bit(ps[c])
                    } else {
                        pre.x[index as int][c]
                    },
            ));
            assert(self@.z[index as int] =~= Seq::new(
                n as nat,
                |c: int|
                    if c < q {
                        z_bit(ps[c])
                    } else {
                        pre.z[index as int][c]
                    },
            ));
        }
        let minus = match pauli_string.phase {
            Phase::Minus => true,
            _ => false,
        };
        self.set_phase(index, minus);
        proof {
            let post = pre.with_row(index as int, ps, pauli_string.phase);
            assert(self@.x[index as int] =~= post.x[index as int]);
            assert(self@.z[index as int] =~= post.z[index as int]);
            lemma_model_ext(self@, post);
        }
    }

    /// Every row as a Pauli string, in order.
    pub fn get_all_stabilizers(&self) -> (r: Vec<PauliString>)
        requires
            self.wf(),
        ensures
            r@.len() == self@.n,
            forall|i: int|
                0 <= i < self@.n ==> (#[trigger] r@[i]).paulis@ == self@.row(i) && r@[i].phase
                    == sign_phase(self@.signs[i]),
    {
        let n = self.n_qubits;
        let mut all: Vec<PauliString> = Vec::with_capacity(n);
        let mut i: usize = 0;
        while i < n
            invariant
                self.wf(),
                n == self@.n,
                i <= n,
                all@.len() == i,
                forall|k: int|
                    0 <= k < i ==> (#[trigger] all@[k]).paulis@ == self@.row(k) && all@[k].phase
                        == sign_phase(self@.signs[k]),
            decreases n - i,
        {
            all.push(self.get_stabilizer(i));
            i = i + 1;
        }
        all
    }

    /// The state whose row i is stabilizers[i], for each of the n rows.
    pub fn from_stabilizers(n_qubits: usize, stabilizers: &[PauliString]) -> (r: StabilizerState)
        requires
            n_qubits * (2 * n_qubits) <= usize::MAX,
            stabilizers@.len() == n_qubits,
            forall|i: int| 0 <= i < n_qubits ==> (#[trigger] stabilizers@[i]).paulis@.len() == n_qubits,
        ensures
            r.wf(),
            r@ == TableauModel::from_rows(
                n_qubits as nat,
                stabilizers@.map_values(|p: PauliString| p.paulis@),
                stabilizers@.map_values(|p: PauliString| p.phase == Phase::Minus),
            ),
    {
        let mut state = StabilizerState::new(n_qubits);
        let mut i: usize = 0;
        while i < n_qubits
            invariant
                state.wf(),
                state@.n == n_qubits,
                i <= n_qubits,
                stabilizers@.len() == n_qubits,
                forall|k: int| 0 <= k < n_qubits ==> (#[trigger] stabilizers@[k]).paulis@.len() == n_qubits,
                forall|k: int| 0 <= k < i ==> #[trigger] state@.x[k] == stabilizers@[k].paulis@.map_values(|p: Pauli| x_bit(p)),
                forall|k: int| 0 <= k < i ==> #[trigger] state@.z[k] == stabilizers@[k].paulis@.map_values(|p: Pauli| z_bit(p)),
                forall|k: int| 0 <= k < i ==> #[trigger] state@.signs[k] == (stabilizers@[k].phase == Phase::Minus),
            decreases n_qubits - i,
        {
            state.set_stabilizer(i, &stabilizers[i]);
            i = i + 1;
        }
        proof {
            let post = TableauModel::from_rows(
                n_qubits as nat,
                stabilizers@.map_values(|p: PauliString| p.paulis@),
                stabilizers@.map_values(|p: PauliString| p.phase == Phase::Minus),
            );
            lemma_model_ext(state@, post);
        }
        state
    }
}

} // verus!
