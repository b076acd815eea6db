//! The field capability this crate consumes.
//!
//! Synthesis works for any prime field; all it needs from one is its bit
//! length, the embedding of small integers, and power-of-two weights. Full
//! field arithmetic stays in the external field library; the handles here
//! carry just enough structure for the constraints this crate emits.

use vstd::prelude::*;
use vstd::arithmetic::div_mod::{lemma_mod_twice, lemma_small_mod};
use vstd::arithmetic::power2::{
    lemma2_to64, lemma2_to64_rest, lemma_pow2_adds, lemma_pow2_strictly_increases, pow2,
};

verus! {

/// A modulus free of zero divisors, which is how primality enters the
/// soundness argument for booleanity constraints.
pub open spec fn no_zero_divisors(p: nat) -> bool {
    forall|a: nat, b: nat|
        a < p && b < p && #[trigger] ((a * b) % p) == 0 ==> a == 0 || b == 0
}

/// The capability surface synthesis consumes from a field implementation:
/// the modulus and its bit length at the specification level, and executable
/// construction of small literals and power-of-two weights.
pub trait Field: Sized + Copy {
    /// The field's prime modulus.
    spec fn modulus_spec() -> nat;

    /// The minimum number of bits needed to uniquely represent every value
    /// below the modulus.
    spec fn required_bits_spec() -> nat;

    /// The field value a handle stands for.
    spec fn as_nat(&self) -> nat;

    /// The required bit count is the exact bit length of `modulus - 1`.
    proof fn lemma_modulus_fits()
        ensures
            Self::required_bits_spec() >= 1,
            pow2((Self::required_bits_spec() - 1) as nat) < Self::modulus_spec(),
            Self::modulus_spec() <= pow2(Self::required_bits_spec()),
    ;

    /// Every handle stands for a reduced value.
    proof fn lemma_reduced(&self)
        ensures
            self.as_nat() < Self::modulus_spec(),
    ;

    fn required_bits() -> (r: usize)
        ensures
            r as nat == Self::required_bits_spec(),
    ;

    /// Embedding of a small integer into the field.
    fn from_u64(v: u64) -> (r: Self)
        ensures
            r.as_nat() == v as nat % Self::modulus_spec(),
    ;

    /// The weight `2^e`, for exponents below the field's bit length (so the
    /// weight is itself a canonical field value).
    fn pow_of_two(e: usize) -> (r: Self)
        requires
            (e as nat) < Self::required_bits_spec(),
        ensures
            r.as_nat() == pow2(e as nat),
    ;
}

/// Fields that additionally expose executable arithmetic; the witness
/// checker runs over these.
pub trait FieldOps: Field {
    fn add(&self, other: &Self) -> (r: Self)
        ensures
            r.as_nat() == (self.as_nat() + other.as_nat()) % Self::modulus_spec(),
    ;

    fn mul(&self, other: &Self) -> (r: Self)
        ensures
            r.as_nat() == (self.as_nat() * other.as_nat()) % Self::modulus_spec(),
    ;

    fn eq_value(&self, other: &Self) -> (r: bool)
        ensures
            r == (self.as_nat() == other.as_nat()),
    ;
}

/// A tiny demonstration field with modulus 13, hence four required bits.
/// Small enough that witnesses can be evaluated directly in tests.
#[derive(Clone, Copy, Debug, PartialEq, Eq, Hash)]
pub struct SmallField {
    value: u64,
}

impl Field for SmallField {
    open spec fn modulus_spec() -> nat {
        13
    }

    open spec fn required_bits_spec() -> nat {
        4
    }

    closed spec fn as_nat(&self) -> nat {
        self.value as nat % 13
    }

    proof fn lemma_modulus_fits() {
        lemma2_to64();
    }

    proof fn lemma_reduced(&self) {
    }

    fn required_bits() -> (r: usize) {
        4
    }

    fn from_u64(v: u64) -> (r: Self) {
        proof {
            lemma_mod_twice(v as int, 13);
        }
        SmallField { value: v % 13 }
    }

    fn pow_of_two(e: usize) -> (r: Self) {
        proof {
            lemma2_to64();
        }
        let v: u64 = if e == 0 {
            1
        } else if e == 1 {
            2
        } else if e == 2 {
            4
        } else {
            8
        };
        SmallField { value: v }
    }
}

impl FieldOps for SmallField {
    fn add(&self, other: &Self) -> (r: Self) {
        proof {
            lemma_mod_twice((self.value % 13 + other.value % 13) as int, 13);
        }
        SmallField { value: (self.value % 13 + other.value % 13) % 13 }
    }

    fn mul(&self, other: &Self) -> (r: Self) {
        let a = self.value % 13;
        let b = other.value % 13;
        proof {
            assert(a * b <= 144) by (nonlinear_arith)
                requires
                    a <= 12,
                    b <= 12,
            ;
            lemma_mod_twice((a * b) as int, 13);
        }
        SmallField { value: (a * b) % 13 }
    }

    fn eq_value(&self, other: &Self) -> (r: bool) {
        self.value % 13 == other.value % 13
    }
}

/// The scalar field of the Bn128 curve, through the narrow capability surface
/// this crate consumes. A handle carries `coeff * 2^exp`; literal embedding
/// and power-of-two weights are all synthesis ever builds, so no further
/// arithmetic is carried here — the external field library owns that.
#[derive(Clone, Copy, Debug, PartialEq, Eq, Hash)]
pub struct Bn128Field {
    coeff: u64,
    exp: usize,
}

impl Field for Bn128Field {
    open spec fn modulus_spec() -> nat {
        21888242871839275222246405745257275088548364400416034343698204186575808495617nat
    }

    open spec fn required_bits_spec() -> nat {
        254
    }

    closed spec fn as_nat(&self) -> nat {
        (self.coeff as nat * pow2(self.exp as nat)) % Self::modulus_spec()
    }

    proof fn lemma_modulus_fits() {
        lemma_pow2_253_254();
    }

    proof fn lemma_reduced(&self) {
    }

    fn required_bits() -> (r: usize) {
        254
    }

    fn from_u64(v: u64) -> (r: Self) {
        proof {
            lemma2_to64();
            assert((v as nat) < Self::modulus_spec());
            lemma_small_mod(v as nat, Self::modulus_spec());
            assert(v as nat * pow2(0) == v as nat);
        }
        Bn128Field { coeff: v, exp: 0 }
    }

    fn pow_of_two(e: usize) -> (r: Self) {
        proof {
            lemma_pow2_253_254();
            if (e as nat) < 253 {
                lemma_pow2_strictly_increases(e as nat, 253);
            }
            lemma_small_mod(pow2(e as nat), Self::modulus_spec());
        }
        Bn128Field { coeff: 1, exp: e }
    }
}

/// The demonstration field's modulus is prime, in the form the booleanity
/// soundness argument consumes: no product of two nonzero values below 13
/// vanishes modulo 13.
pub proof fn lemma_small_field_no_zero_divisors()
    ensures
        no_zero_divisors(SmallField::modulus_spec()),
{
    assert forall|a: nat, b: nat|
        a < 13 && b < 13 && #[trigger] ((a * b) % 13) == 0 implies a == 0 || b == 0 by {
        if a != 0 && b != 0 {
            assert((a * b) % 13 != 0) by (nonlinear_arith)
                requires
                    1 <= a < 13,
                    1 <= b < 13,
            ;
        }
    }
}

/// Concrete values of `pow2` at the Bn128 field's bit length.
proof fn lemma_pow2_253_254()
    ensures
        pow2(253) == 14474011154664524427946373126085988481658748083205070504932198000989141204992nat,
        pow2(254) == 28948022309329048855892746252171976963317496166410141009864396001978282409984nat,
{
    lemma2_to64();
    lemma2_to64_rest();
    lemma_pow2_adds(64, 64);
    lemma_pow2_adds(128, 64);
    lemma_pow2_adds(192, 61);
    lemma_pow2_adds(253, 1);
}

} // verus!
