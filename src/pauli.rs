//! The single-qubit Pauli operators, the phases {+1, -1, +i, -i}, and their
//! multiplication and commutation tables.

use vstd::prelude::*;

verus! {

/// A single-qubit Pauli operator.
#[derive(Debug, Clone, Copy, PartialEq, Eq, Hash, Structural)]
pub enum Pauli {
    I,
    X,
    Y,
    Z,
}

/// A phase factor: +1, -1, +i or -i.
#[derive(Debug, Clone, Copy, PartialEq, Eq, Structural)]
pub enum Phase {
    Plus,
    Minus,
    PlusI,
    MinusI,
}

/// The X bit of a Pauli in the binary encoding I=(0,0), X=(1,0), Z=(0,1), Y=(1,1).
pub open spec fn x_bit(p: Pauli) -> bool {
    p == Pauli::X || p == Pauli::Y
}

/// The Z bit of a Pauli in the binary encoding.
pub open spec fn z_bit(p: Pauli) -> bool {
    p == Pauli::Z || p == Pauli::Y
}

/// The Pauli with the given X and Z bits.
pub open spec fn pauli_of_bits(x: bool, z: bool) -> Pauli {
    if x && z {
        Pauli::Y
    } else if x {
        Pauli::X
    } else if z {
        Pauli::Z
    } else {
        Pauli::I
    }
}

/// Two single-qubit Paulis commute iff one of them is I or they are equal.
pub open spec fn commutes(a: Pauli, b: Pauli) -> bool {
    a == Pauli::I || b == Pauli::I || a == b
}

/// The cyclic ordered pairs X·Y, Y·Z, Z·X, whose product carries +i.
pub open spec fn is_cyclic(a: Pauli, b: Pauli) -> bool {
    (a == Pauli::X && b == Pauli::Y) || (a == Pauli::Y && b == Pauli::Z) || (a == Pauli::Z
        && b == Pauli::X)
}

/// The Pauli part of a·b: the bitwise sum of the encodings.
pub open spec fn product_pauli(a: Pauli, b: Pauli) -> Pauli {
    pauli_of_bits(x_bit(a) != x_bit(b), z_bit(a) != z_bit(b))
}

/// The phase of a·b: +1 when they commute, +i for a cyclic pair, -i for a
/// reversed one.
pub open spec fn product_phase(a: Pauli, b: Pauli) -> Phase {
    if commutes(a, b) {
        Phase::Plus
    } else if is_cyclic(a, b) {
        Phase::PlusI
    } else {
        Phase::MinusI
    }
}

/// The exponent k of a phase i^k, in 0..4.
pub open spec fn phase_exp(p: Phase) -> int {
    match p {
        Phase::Plus => 0,
        Phase::PlusI => 1,
        Phase::Minus => 2,
        Phase::MinusI => 3,
    }
}

/// The phase i^k.
pub open spec fn phase_of_exp(k: int) -> Phase {
    let r = k % 4;
    if r == 0 {
        Phase::Plus
    } else if r == 1 {
        Phase::PlusI
    } else if r == 2 {
        Phase::Minus
    } else {
        Phase::MinusI
    }
}

/// The character that names a Pauli.
pub open spec fn pauli_char(p: Pauli) -> char {
    match p {
        Pauli::I => 'I',
        Pauli::X => 'X',
        Pauli::Y => 'Y',
        Pauli::Z => 'Z',
    }
}

/// The Pauli named by a character, if any.
pub open spec fn pauli_from_char(c: char) -> Option<Pauli> {
    if c == 'I' {
        Some(Pauli::I)
    } else if c == 'X' {
        Some(Pauli::X)
    } else if c == 'Y' {
        Some(Pauli::Y)
    } else if c == 'Z' {
        Some(Pauli::Z)
    } else {
        None
    }
}

impl Pauli {
    /// Multiplies two Paulis, returning the phase and the Pauli of the product.
    pub fn multiply(self, other: Pauli) -> (r: (Phase, Pauli))
        ensures
            r == (product_phase(self, other), product_pauli(self, other)),
    {
        match (self, other) {
            (Pauli::I, p) => (Phase::Plus, p),
            (p, Pauli::I) => (Phase::Plus, p),
            (Pauli::X, Pauli::X) | (Pauli::Y, Pauli::Y) | (Pauli::Z, Pauli::Z) => (
                Phase::Plus,
                Pauli::I,
            ),
            (Pauli::X, Pauli::Y) => (Phase::PlusI, Pauli::Z),
            (Pauli::Y, Pauli::X) => (Phase::MinusI, Pauli::Z),
            (Pauli::Y, Pauli::Z) => (Phase::PlusI, Pauli::X),
            (Pauli::Z, Pauli::Y) => (Phase::MinusI, Pauli::X),
            (Pauli::Z, Pauli::X) => (Phase::PlusI, Pauli::Y),
            (Pauli::X, Pauli::Z) => (Phase::MinusI, Pauli::Y),
        }
    }

    /// Whether two Paulis commute.
    pub fn commutes_with(self, other: Pauli) -> (r: bool)
        ensures
            r == commutes(self, other),
    {
        match (self, other) {
            (Pauli::I, _) | (_, Pauli::I) => true,
            (Pauli::X, Pauli::X) | (Pauli::Y, Pauli::Y) | (Pauli::Z, Pauli::Z) => true,
            _ => false,
        }
    }

    /// The character that names this Pauli.
    pub fn to_char(self) -> (r: char)
        ensures
            r == pauli_char(self),
    {
        match self {
            Pauli::I => 'I',
            Pauli::X => 'X',
            Pauli::Y => 'Y',
            Pauli::Z => 'Z',
        }
    }

    /// Parses one of the characters I, X, Y, Z.
    pub fn from_char(c: char) -> (r: Option<Pauli>)
        ensures
            r == pauli_from_char(c),
    {
        match c {
            'I' => Some(Pauli::I),
            'X' => Some(Pauli::X),
            'Y' => Some(Pauli::Y),
            'Z' => Some(Pauli::Z),
            _ => None,
        }
    }
}

impl Phase {
    /// Multiplies two phases: addition of the exponents modulo 4.
    pub fn multiply(self, other: Phase) -> (r: Phase)
        ensures
            r == phase_of_exp(phase_exp(self) + phase_exp(other)),
    {
        match (self, other) {
            (Phase::Plus, p) => p,
            (p, Phase::Plus) => p,
            (Phase::Minus, Phase::Minus) => Phase::Plus,
            (Phase::Minus, Phase::PlusI) => Phase::MinusI,
            (Phase::Minus, Phase::MinusI) => Phase::PlusI,
            (Phase::PlusI, Phase::PlusI) => Phase::Minus,
            (Phase::PlusI, Phase::MinusI) => Phase::Plus,
            (Phase::PlusI, Phase::Minus) => Phase::MinusI,
            (Phase::MinusI, Phase::MinusI) => Phase::Minus,
            (Phase::MinusI, Phase::PlusI) => Phase::Plus,
            (Phase::MinusI, Phase::Minus) => Phase::PlusI,
        }
    }

    /// The real sign of the phase: +1 for +1 and +i, -1 for -1 and -i.
    pub fn sign(self) -> (r: i32)
        ensures
            r == (if self == Phase::Plus || self == Phase::PlusI {
                1i32
            } else {
                -1i32
            }),
    {
        match self {
            Phase::Plus | Phase::PlusI => 1,
            Phase::Minus | Phase::MinusI => -1,
        }
    }

    /// The phase times -1.
    pub fn negate(self) -> (r: Phase)
        ensures
            r == phase_of_exp(phase_exp(self) + 2),
    {
        match self {
            Phase::Plus => Phase::Minus,
            Phase::Minus => Phase::Plus,
            Phase::PlusI => Phase::MinusI,
            Phase::MinusI => Phase::PlusI,
        }
    }
}

} // verus!
