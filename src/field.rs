//! Elements of the bn256 scalar field, held as their canonical little-endian encoding.

use halo2curves_axiom::bn256::Fr;
use halo2curves_axiom::ff::PrimeField;
use vstd::arithmetic::div_mod::{lemma_mod_bound, lemma_small_mod};
use vstd::prelude::*;

verus! {

/// The order of the bn256 scalar field.
pub open spec fn modulus() -> nat {
    21888242871839275222246405745257275088548364400416034343698204186575808495617nat
}

/// The integer spelled by a little-endian byte sequence.
pub open spec fn le_value(bytes: Seq<u8>) -> nat
    decreases bytes.len(),
{
    if bytes.len() == 0 {
        0
    } else {
        bytes[0] as nat + 256 * le_value(bytes.skip(1))
    }
}

/// Relies on `Fr::from_repr` of halo2curves-axiom: a little-endian encoding is
/// accepted exactly when the integer it spells is below the modulus.
#[verifier::external_body]
fn repr_is_canonical(repr: &[u8; 32]) -> (r: bool)
    ensures
        r == (le_value(repr@) < modulus()),
{
    bool::from(Fr::from_repr(*repr).is_some())
}

/// Relies on `+` of halo2curves-axiom's `Fr` (read in and out through
/// `from_repr` and `to_repr`): the sum modulo the modulus, in canonical
/// little-endian encoding.
#[verifier::external_body]
fn repr_add(a: &[u8; 32], b: &[u8; 32]) -> (r: [u8; 32])
    requires
        le_value(a@) < modulus(),
        le_value(b@) < modulus(),
    ensures
        le_value(r@) == (le_value(a@) + le_value(b@)) % modulus(),
{
    (Fr::from_repr(*a).unwrap() + Fr::from_repr(*b).unwrap()).to_repr()
}

/// Relies on `PrimeField::CAPACITY` of halo2curves-axiom's `Fr`: 253 bits.
#[verifier::external_body]
pub(crate) fn field_capacity() -> (r: u32)
    ensures
        r == 253,
{
    Fr::CAPACITY
}

proof fn lemma_le_value_zeros(bytes: Seq<u8>)
    requires
        forall|i: int| 0 <= i < bytes.len() ==> bytes[i] == 0,
    ensures
        le_value(bytes) == 0,
    decreases bytes.len(),
{
    if bytes.len() > 0 {
        lemma_le_value_zeros(bytes.skip(1));
    }
}

/// A field element: an integer below the modulus.
#[derive(Clone, Copy, Debug)]
pub struct Fe {
    repr: [u8; 32],
}

impl View for Fe {
    type V = nat;

    closed spec fn view(&self) -> nat {
        le_value(self.repr@) % modulus()
    }
}

impl Fe {
    #[verifier::type_invariant]
    spec fn canonical(self) -> bool {
        le_value(self.repr@) < modulus()
    }

    /// Every element's value lies below the modulus.
    pub proof fn lemma_reduced(self)
        ensures
            self@ < modulus(),
    {
        lemma_mod_bound(le_value(self.repr@) as int, modulus() as int);
    }

    /// The element whose value is the byte `b`.
    pub fn from_byte(b: u8) -> (r: Fe)
        ensures
            r@ == b as nat,
    {
        let mut repr = [0u8; 32];
        repr[0] = b;
        proof {
            assert(repr@.skip(1).len() == 31);
            lemma_le_value_zeros(repr@.skip(1));
            assert(le_value(repr@) == b as nat);
            lemma_small_mod(b as nat, modulus());
        }
        Fe { repr }
    }

    /// The additive identity.
    pub fn zero() -> (r: Fe)
        ensures
            r@ == 0,
    {
        Fe::from_byte(0)
    }

    /// The multiplicative identity.
    pub fn one() -> (r: Fe)
        ensures
            r@ == 1,
    {
        Fe::from_byte(1)
    }

    /// Reads a canonical little-endian encoding; `None` when it spells an
    /// integer that is not below the modulus.
    pub fn from_repr(repr: [u8; 32]) -> (r: Option<Fe>)
        ensures
            r.is_some() == (le_value(repr@) < modulus()),
            r.is_some() ==> r.unwrap()@ == le_value(repr@),
    {
        if repr_is_canonical(&repr) {
            proof {
                lemma_small_mod(le_value(repr@), modulus());
            }
            Some(Fe { repr })
        } else {
            None
        }
    }

    /// The canonical little-endian encoding of the value.
    pub fn to_repr(&self) -> (r: [u8; 32])
        ensures
            le_value(r@) == self@,
    {
        proof {
            use_type_invariant(self);
            lemma_small_mod(le_value(self.repr@), modulus());
        }
        self.repr
    }

    /// The sum of two elements, modulo the modulus.
    pub fn plus(&self, other: &Fe) -> (r: Fe)
        ensures
            r@ == (self@ + other@) % modulus(),
    {
        proof {
            use_type_invariant(self);
            use_type_invariant(other);
            lemma_small_mod(le_value(self.repr@), modulus());
            lemma_small_mod(le_value(other.repr@), modulus());
        }
        let repr = repr_add(&self.repr, &other.repr);
        proof {
            lemma_mod_bound((le_value(self.repr@) + le_value(other.repr@)) as int, modulus() as int);
            lemma_small_mod(le_value(repr@), modulus());
        }
        Fe { repr }
    }
}

} // verus!
