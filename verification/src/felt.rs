//! The field element type shared by the hashing and encoding pipelines.
//!
//! A field element is an unsigned integer modulo the target chain's prime
//! characteristic. It is held as four little-endian 64-bit limbs, so that
//! every specification can speak of its mathematical value directly.

use vstd::arithmetic::div_mod::lemma_fundamental_div_mod_converse;
use vstd::prelude::*;

verus! {

/// The prime characteristic of the target chain's field.
pub open spec fn stark_prime() -> int {
    0x800000000000011000000000000000000000000000000000000000000000001int
}

/// A field element, as four little-endian 64-bit limbs.
///
/// The limb representation of an integer below `2^256` is unique, so
/// structural equality of two well-formed elements coincides with equality
/// of their values (see [`lemma_value_determines_limbs`]).
#[derive(Clone, Copy, Debug, PartialEq, Eq, Structural, Hash)]
pub struct Felt252 {
    pub l0: u64,
    pub l1: u64,
    pub l2: u64,
    pub l3: u64,
}

/// The field element whose value is the given 64-bit integer.
pub open spec fn felt_of_u64(x: u64) -> Felt252 {
    Felt252 { l0: x, l1: 0, l2: 0, l3: 0 }
}

impl Felt252 {
    /// The integer this element stands for.
    pub open spec fn value(self) -> int {
        self.l0 + self.l1 * 0x10000000000000000int
            + self.l2 * 0x100000000000000000000000000000000int
            + self.l3 * 0x1000000000000000000000000000000000000000000000000int
    }

    /// A well-formed element lies below the field's prime.
    pub open spec fn wf(self) -> bool {
        self.value() < stark_prime()
    }

    /// The element of a 64-bit value; always well formed.
    pub fn from_u64(x: u64) -> (r: Felt252)
        ensures
            r == felt_of_u64(x),
            r.value() == x,
            r.wf(),
    {
        Felt252 { l0: x, l1: 0, l2: 0, l3: 0 }
    }

    /// The element of a machine-size value; always well formed.
    pub fn from_usize(x: usize) -> (r: Felt252)
        ensures
            r == felt_of_u64(x as u64),
            r.value() == x,
            r.wf(),
    {
        Felt252 { l0: x as u64, l1: 0, l2: 0, l3: 0 }
    }

    /// Builds an element from four little-endian limbs, rejecting a value
    /// on or above the field's prime.
    pub fn from_limbs(l0: u64, l1: u64, l2: u64, l3: u64) -> (r: Option<Felt252>)
        ensures
            match r {
                Some(f) => f == (Felt252 { l0, l1, l2, l3 }) && f.wf(),
                None => !(Felt252 { l0, l1, l2, l3 }).wf(),
            },
    {
        let f = Felt252 { l0, l1, l2, l3 };
        if l3 < 0x0800000000000011 || (l3 == 0x0800000000000011 && l2 == 0 && l1 == 0 && l0 == 0) {
            Some(f)
        } else {
            None
        }
    }
}

/// An integer below `2^256` has exactly one limb representation: elements
/// with equal values are structurally equal.
pub proof fn lemma_value_determines_limbs(a: Felt252, b: Felt252)
    requires
        a.value() == b.value(),
    ensures
        a == b,
{
    let d: int = 0x10000000000000000;
    let qa: int = a.l1 + a.l2 * d + a.l3 * d * d;
    let qb: int = b.l1 + b.l2 * d + b.l3 * d * d;
    lemma_fundamental_div_mod_converse(a.value(), d, qa, a.l0 as int);
    lemma_fundamental_div_mod_converse(b.value(), d, qb, b.l0 as int);
    lemma_fundamental_div_mod_converse(qa, d, a.l2 + a.l3 * d, a.l1 as int);
    lemma_fundamental_div_mod_converse(qb, d, b.l2 + b.l3 * d, b.l1 as int);
    lemma_fundamental_div_mod_converse(a.l2 + a.l3 * d, d, a.l3 as int, a.l2 as int);
    lemma_fundamental_div_mod_converse(b.l2 + b.l3 * d, d, b.l3 as int, b.l2 as int);
}

} // verus!
