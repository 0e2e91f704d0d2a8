//! The algorithm identifiers that select a payload or an option: hash
//! algorithms and elliptic curves.

use vstd::prelude::*;

verus! {

/// A hash algorithm, as named on the wire by a 16-bit identifier.
#[allow(non_camel_case_types)]
#[derive(Clone, Copy, Debug, PartialEq, Eq, Structural)]
pub enum TpmiAlgHash {
    Sha1,
    Sha256,
    Sha384,
    Sha512,
    Sm3_256,
    Sha3_256,
    Sha3_384,
    Sha3_512,
}

impl TpmiAlgHash {
    /// The identifier that stands for this algorithm on the wire.
    pub open spec fn spec_id(self) -> u16 {
        match self {
            TpmiAlgHash::Sha1 => 0x0004,
            TpmiAlgHash::Sha256 => 0x000B,
            TpmiAlgHash::Sha384 => 0x000C,
            TpmiAlgHash::Sha512 => 0x000D,
            TpmiAlgHash::Sm3_256 => 0x0012,
            TpmiAlgHash::Sha3_256 => 0x0027,
            TpmiAlgHash::Sha3_384 => 0x0028,
            TpmiAlgHash::Sha3_512 => 0x0029,
        }
    }

    /// The algorithm that `id` names, if it names one.
    pub open spec fn spec_from_id(id: u16) -> Option<TpmiAlgHash> {
        if exists|alg: TpmiAlgHash| alg.spec_id() == id {
            Some(choose|alg: TpmiAlgHash| alg.spec_id() == id)
        } else {
            None
        }
    }

    /// The length in bytes of a digest of this algorithm.
    pub open spec fn spec_digest_size(self) -> usize {
        match self {
            TpmiAlgHash::Sha1 => 20,
            TpmiAlgHash::Sha256 => 32,
            TpmiAlgHash::Sha384 => 48,
            TpmiAlgHash::Sha512 => 64,
            TpmiAlgHash::Sm3_256 => 32,
            TpmiAlgHash::Sha3_256 => 32,
            TpmiAlgHash::Sha3_384 => 48,
            TpmiAlgHash::Sha3_512 => 64,
        }
    }

    /// The position of this algorithm's bit in a set of hash algorithms.
    pub open spec fn spec_bit(self) -> u32 {
        match self {
            TpmiAlgHash::Sha1 => 0,
            TpmiAlgHash::Sha256 => 1,
            TpmiAlgHash::Sha384 => 2,
            TpmiAlgHash::Sha512 => 3,
            TpmiAlgHash::Sm3_256 => 4,
            TpmiAlgHash::Sha3_256 => 5,
            TpmiAlgHash::Sha3_384 => 6,
            TpmiAlgHash::Sha3_512 => 7,
        }
    }

    /// No two algorithms share an identifier, so an identifier names the
    /// algorithm it was taken from and no other.
    pub proof fn lemma_id_names_one(self)
        ensures
            Self::spec_from_id(self.spec_id()) == Some(self),
    {
        let other = choose|alg: TpmiAlgHash| alg.spec_id() == self.spec_id();
        assert(other.spec_id() == self.spec_id());
    }

    /// An algorithm found by its identifier has that identifier.
    pub proof fn lemma_from_id_has_id(id: u16)
        ensures
            Self::spec_from_id(id) matches Some(alg) ==> alg.spec_id() == id,
    {
    }

    /// The identifier that stands for this algorithm on the wire.
    #[verifier::when_used_as_spec(spec_id)]
    pub fn id(self) -> (id: u16)
        ensures
            id == self.spec_id(),
    {
        match self {
            TpmiAlgHash::Sha1 => 0x0004,
            TpmiAlgHash::Sha256 => 0x000B,
            TpmiAlgHash::Sha384 => 0x000C,
            TpmiAlgHash::Sha512 => 0x000D,
            TpmiAlgHash::Sm3_256 => 0x0012,
            TpmiAlgHash::Sha3_256 => 0x0027,
            TpmiAlgHash::Sha3_384 => 0x0028,
            TpmiAlgHash::Sha3_512 => 0x0029,
        }
    }

    /// Finds the algorithm that `id` names; `None` where it names none.
    pub fn from_id(id: u16) -> (found: Option<TpmiAlgHash>)
        ensures
            found == Self::spec_from_id(id),
    {
        let found = match id {
            0x0004 => Some(TpmiAlgHash::Sha1),
            0x000B => Some(TpmiAlgHash::Sha256),
            0x000C => Some(TpmiAlgHash::Sha384),
            0x000D => Some(TpmiAlgHash::Sha512),
            0x0012 => Some(TpmiAlgHash::Sm3_256),
            0x0027 => Some(TpmiAlgHash::Sha3_256),
            0x0028 => Some(TpmiAlgHash::Sha3_384),
            0x0029 => Some(TpmiAlgHash::Sha3_512),
            _ => None,
        };
        proof {
            match found {
                Some(alg) => {
                    alg.lemma_id_names_one();
                },
                None => {
                    assert forall|alg: TpmiAlgHash| alg.spec_id() != id by {}
                },
            }
        }
        found
    }

    /// The length in bytes of a digest of this algorithm.
    #[verifier::when_used_as_spec(spec_digest_size)]
    pub fn digest_size(self) -> (size: usize)
        ensures
            size == self.spec_digest_size(),
    {
        match self {
            TpmiAlgHash::Sha1 => 20,
            TpmiAlgHash::Sha256 => 32,
            TpmiAlgHash::Sha384 => 48,
            TpmiAlgHash::Sha512 => 64,
            TpmiAlgHash::Sm3_256 => 32,
            TpmiAlgHash::Sha3_256 => 32,
            TpmiAlgHash::Sha3_384 => 48,
            TpmiAlgHash::Sha3_512 => 64,
        }
    }

    /// The position of this algorithm's bit in a set of hash algorithms.
    #[verifier::when_used_as_spec(spec_bit)]
    pub fn bit(self) -> (bit: u32)
        ensures
            bit == self.spec_bit(),
            bit < 8,
    {
        match self {
            TpmiAlgHash::Sha1 => 0,
            TpmiAlgHash::Sha256 => 1,
            TpmiAlgHash::Sha384 => 2,
            TpmiAlgHash::Sha512 => 3,
            TpmiAlgHash::Sm3_256 => 4,
            TpmiAlgHash::Sha3_256 => 5,
            TpmiAlgHash::Sha3_384 => 6,
            TpmiAlgHash::Sha3_512 => 7,
        }
    }
}

/// An elliptic curve.
#[allow(non_camel_case_types)]
#[derive(Clone, Copy, Debug, PartialEq, Eq, Structural)]
pub enum TpmiEccCurve {
    NIST_P192,
    NIST_P224,
    NIST_P256,
    NIST_P384,
    NIST_P521,
    BN_P256,
    BN_P638,
    SM2_P256,
}

impl TpmiEccCurve {
    /// The position of this curve's bit in a set of curves.
    pub open spec fn spec_bit(self) -> u32 {
        match self {
            TpmiEccCurve::NIST_P192 => 0,
            TpmiEccCurve::NIST_P224 => 1,
            TpmiEccCurve::NIST_P256 => 2,
            TpmiEccCurve::NIST_P384 => 3,
            TpmiEccCurve::NIST_P521 => 4,
            TpmiEccCurve::BN_P256 => 5,
            TpmiEccCurve::BN_P638 => 6,
            TpmiEccCurve::SM2_P256 => 7,
        }
    }

    /// The position of this curve's bit in a set of curves.
    #[verifier::when_used_as_spec(spec_bit)]
    pub fn bit(self) -> (bit: u32)
        ensures
            bit == self.spec_bit(),
            bit < 8,
    {
        match self {
            TpmiEccCurve::NIST_P192 => 0,
            TpmiEccCurve::NIST_P224 => 1,
            TpmiEccCurve::NIST_P256 => 2,
            TpmiEccCurve::NIST_P384 => 3,
            TpmiEccCurve::NIST_P521 => 4,
            TpmiEccCurve::BN_P256 => 5,
            TpmiEccCurve::BN_P638 => 6,
            TpmiEccCurve::SM2_P256 => 7,
        }
    }
}

} // verus!
