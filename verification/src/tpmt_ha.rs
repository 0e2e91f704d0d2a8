//! The tagged hash value: a digest together with the algorithm that made it.
//!
//! On the wire it is the 16-bit identifier of the algorithm followed by the
//! digest. The length of the digest is not written: the algorithm gives it.

use crate::algs::TpmiAlgHash;
use crate::endian::{
    be_bytes, be_value, lemma_be_bytes_len, lemma_be_value_bound, lemma_be_value_of_bytes,
    lemma_pow256_values,
};
use crate::errors::{MarshalError, UnmarshalError};
use crate::marshal::cursor::{array_of, lemma_array_of};
use crate::marshal::pop_array;
use crate::marshal::{LimitSets, Limits, Marshal, Unmarshal};
use vstd::prelude::*;

verus! {

/// A digest, tagged with its hash algorithm. The digest is borrowed.
#[allow(non_camel_case_types)]
#[derive(Clone, Copy, Debug, PartialEq, Eq)]
pub enum TpmtHa<'a> {
    Sha1(&'a [u8; 20]),
    Sha256(&'a [u8; 32]),
    Sha384(&'a [u8; 48]),
    Sha512(&'a [u8; 64]),
    Sm3_256(&'a [u8; 32]),
    Sha3_256(&'a [u8; 32]),
    Sha3_384(&'a [u8; 48]),
    Sha3_512(&'a [u8; 64]),
}

impl<'a> TpmtHa<'a> {
    /// The algorithm of the digest.
    pub open spec fn spec_alg(&self) -> TpmiAlgHash {
        match self {
            TpmtHa::Sha1(_) => TpmiAlgHash::Sha1,
            TpmtHa::Sha256(_) => TpmiAlgHash::Sha256,
            TpmtHa::Sha384(_) => TpmiAlgHash::Sha384,
            TpmtHa::Sha512(_) => TpmiAlgHash::Sha512,
            TpmtHa::Sm3_256(_) => TpmiAlgHash::Sm3_256,
            TpmtHa::Sha3_256(_) => TpmiAlgHash::Sha3_256,
            TpmtHa::Sha3_384(_) => TpmiAlgHash::Sha3_384,
            TpmtHa::Sha3_512(_) => TpmiAlgHash::Sha3_512,
        }
    }

    /// The bytes of the digest.
    pub open spec fn spec_digest(&self) -> Seq<u8> {
        match self {
            TpmtHa::Sha1(digest) => digest@,
            TpmtHa::Sha256(digest) => digest@,
            TpmtHa::Sha384(digest) => digest@,
            TpmtHa::Sha512(digest) => digest@,
            TpmtHa::Sm3_256(digest) => digest@,
            TpmtHa::Sha3_256(digest) => digest@,
            TpmtHa::Sha3_384(digest) => digest@,
            TpmtHa::Sha3_512(digest) => digest@,
        }
    }

    /// The value of algorithm `alg` whose digest is `digest`.
    pub open spec fn spec_new(alg: TpmiAlgHash, digest: Seq<u8>) -> TpmtHa<'a> {
        match alg {
            TpmiAlgHash::Sha1 => TpmtHa::Sha1(&array_of::<20>(digest)),
            TpmiAlgHash::Sha256 => TpmtHa::Sha256(&array_of::<32>(digest)),
            TpmiAlgHash::Sha384 => TpmtHa::Sha384(&array_of::<48>(digest)),
            TpmiAlgHash::Sha512 => TpmtHa::Sha512(&array_of::<64>(digest)),
            TpmiAlgHash::Sm3_256 => TpmtHa::Sm3_256(&array_of::<32>(digest)),
            TpmiAlgHash::Sha3_256 => TpmtHa::Sha3_256(&array_of::<32>(digest)),
            TpmiAlgHash::Sha3_384 => TpmtHa::Sha3_384(&array_of::<48>(digest)),
            TpmiAlgHash::Sha3_512 => TpmtHa::Sha3_512(&array_of::<64>(digest)),
        }
    }

    /// A digest is as long as its algorithm says, and a value is known by
    /// its algorithm and its digest.
    pub proof fn lemma_parts(&self)
        ensures
            self.spec_digest().len() == self.spec_alg().spec_digest_size(),
            *self == Self::spec_new(self.spec_alg(), self.spec_digest()),
    {
        match self {
            TpmtHa::Sha1(digest) => lemma_array_of::<20>(digest@),
            TpmtHa::Sha256(digest) => lemma_array_of::<32>(digest@),
            TpmtHa::Sha384(digest) => lemma_array_of::<48>(digest@),
            TpmtHa::Sha512(digest) => lemma_array_of::<64>(digest@),
            TpmtHa::Sm3_256(digest) => lemma_array_of::<32>(digest@),
            TpmtHa::Sha3_256(digest) => lemma_array_of::<32>(digest@),
            TpmtHa::Sha3_384(digest) => lemma_array_of::<48>(digest@),
            TpmtHa::Sha3_512(digest) => lemma_array_of::<64>(digest@),
        }
    }

    /// The algorithm of the digest.
    #[verifier::when_used_as_spec(spec_alg)]
    pub fn alg(&self) -> (alg: TpmiAlgHash)
        ensures
            alg == self.spec_alg(),
    {
        match self {
            TpmtHa::Sha1(_) => TpmiAlgHash::Sha1,
            TpmtHa::Sha256(_) => TpmiAlgHash::Sha256,
            TpmtHa::Sha384(_) => TpmiAlgHash::Sha384,
            TpmtHa::Sha512(_) => TpmiAlgHash::Sha512,
            TpmtHa::Sm3_256(_) => TpmiAlgHash::Sm3_256,
            TpmtHa::Sha3_256(_) => TpmiAlgHash::Sha3_256,
            TpmtHa::Sha3_384(_) => TpmiAlgHash::Sha3_384,
            TpmtHa::Sha3_512(_) => TpmiAlgHash::Sha3_512,
        }
    }

    /// The bytes of the digest, borrowed from where the value borrows them.
    pub fn digest(&self) -> (digest: &'a [u8])
        ensures
            digest@ == self.spec_digest(),
    {
        match self {
            TpmtHa::Sha1(digest) => digest.as_slice(),
            TpmtHa::Sha256(digest) => digest.as_slice(),
            TpmtHa::Sha384(digest) => digest.as_slice(),
            TpmtHa::Sha512(digest) => digest.as_slice(),
            TpmtHa::Sm3_256(digest) => digest.as_slice(),
            TpmtHa::Sha3_256(digest) => digest.as_slice(),
            TpmtHa::Sha3_384(digest) => digest.as_slice(),
            TpmtHa::Sha3_512(digest) => digest.as_slice(),
        }
    }
}

impl<'a> Marshal for TpmtHa<'a> {
    /// The identifier of the algorithm in two bytes, then the digest.
    open spec fn spec_marshal(&self) -> Seq<u8> {
        be_bytes(self.spec_alg().spec_id() as nat, 2) + self.spec_digest()
    }

    fn marshal2<L: Limits>(&self, buf: &mut &mut [u8]) -> (r: Result<(), MarshalError>) {
        let alg = self.alg();
        proof {
            self.lemma_parts();
            lemma_be_bytes_len(alg.spec_id() as nat, 2);
        }
        if buf.len() < 2 + alg.digest_size() {
            return Err(MarshalError);
        }
        let ghost whole = old(buf)@;
        let ghost id_bytes = be_bytes(alg.spec_id() as nat, 2);
        alg.id().marshal2::<L>(buf)?;
        let ghost after_id = buf@;
        match self {
            TpmtHa::Sha1(digest) => digest.marshal2::<L>(buf)?,
            TpmtHa::Sha256(digest) => digest.marshal2::<L>(buf)?,
            TpmtHa::Sha384(digest) => digest.marshal2::<L>(buf)?,
            TpmtHa::Sha512(digest) => digest.marshal2::<L>(buf)?,
            TpmtHa::Sm3_256(digest) => digest.marshal2::<L>(buf)?,
            TpmtHa::Sha3_256(digest) => digest.marshal2::<L>(buf)?,
            TpmtHa::Sha3_384(digest) => digest.marshal2::<L>(buf)?,
            TpmtHa::Sha3_512(digest) => digest.marshal2::<L>(buf)?,
        }
        proof {
            assert(buf@ =~= whole.skip(self.spec_marshal().len() as int));
            assert(final(*old(buf))@ =~= self.spec_marshal() + final(*buf)@);
        }
        Ok(())
    }
}

impl<'a, 's: 'a> Unmarshal<'s> for TpmtHa<'a> {
    /// The first two bytes name the algorithm, which must be known and
    /// enabled by the limits; the bytes after them, as many as the algorithm
    /// says, are the digest.
    open spec fn spec_unmarshal(limits: LimitSets, bytes: Seq<u8>) -> Result<
        (Self, nat),
        UnmarshalError,
    > {
        if bytes.len() < 2 {
            Err(UnmarshalError::BufferTooShort)
        } else {
            match TpmiAlgHash::spec_from_id(be_value(bytes.take(2)) as u16) {
                None => Err(UnmarshalError::UnknownSelector),
                Some(alg) => {
                    let end = 2 + alg.spec_digest_size();
                    if !limits.hash_algs@.contains(alg) {
                        Err(UnmarshalError::DisabledByLimits)
                    } else if bytes.len() < end {
                        Err(UnmarshalError::BufferTooShort)
                    } else {
                        Ok((TpmtHa::spec_new(alg, bytes.subrange(2, end)), end as nat))
                    }
                },
            }
        }
    }

    proof fn lemma_consumed(limits: LimitSets, bytes: Seq<u8>) {
    }

    fn unmarshal2<L: Limits>(&mut self, buf: &mut &'s [u8]) -> (r: Result<(), UnmarshalError>) {
        let start: &'s [u8] = *buf;
        let mut id: u16 = 0;
        id.unmarshal2::<L>(buf)?;
        proof {
            lemma_pow256_values();
            lemma_be_value_bound(start@.take(2));
        }
        let alg = match TpmiAlgHash::from_id(id) {
            Some(alg) => alg,
            None => {
                *buf = start;
                return Err(UnmarshalError::UnknownSelector);
            },
        };
        if !L::hash_algs().contains(alg) {
            *buf = start;
            return Err(UnmarshalError::DisabledByLimits);
        }
        let read = match alg {
            TpmiAlgHash::Sha1 => match pop_array::<20>(buf) {
                Ok(digest) => Ok(TpmtHa::Sha1(digest)),
                Err(e) => Err(e),
            },
            TpmiAlgHash::Sha256 => match pop_array::<32>(buf) {
                Ok(digest) => Ok(TpmtHa::Sha256(digest)),
                Err(e) => Err(e),
            },
            TpmiAlgHash::Sha384 => match pop_array::<48>(buf) {
                Ok(digest) => Ok(TpmtHa::Sha384(digest)),
                Err(e) => Err(e),
            },
            TpmiAlgHash::Sha512 => match pop_array::<64>(buf) {
                Ok(digest) => Ok(TpmtHa::Sha512(digest)),
                Err(e) => Err(e),
            },
            TpmiAlgHash::Sm3_256 => match pop_array::<32>(buf) {
                Ok(digest) => Ok(TpmtHa::Sm3_256(digest)),
                Err(e) => Err(e),
            },
            TpmiAlgHash::Sha3_256 => match pop_array::<32>(buf) {
                Ok(digest) => Ok(TpmtHa::Sha3_256(digest)),
                Err(e) => Err(e),
            },
            TpmiAlgHash::Sha3_384 => match pop_array::<48>(buf) {
                Ok(digest) => Ok(TpmtHa::Sha3_384(digest)),
                Err(e) => Err(e),
            },
            TpmiAlgHash::Sha3_512 => match pop_array::<64>(buf) {
                Ok(digest) => Ok(TpmtHa::Sha3_512(digest)),
                Err(e) => Err(e),
            },
        };
        match read {
            Ok(value) => {
                proof {
                    let end = 2 + alg.spec_digest_size();
                    assert(value.spec_digest() =~= start@.subrange(2, end));
                    assert(buf@ =~= start@.skip(end));
                    value.lemma_parts();
                }
                *self = value;
                Ok(())
            },
            Err(e) => {
                *buf = start;
                Err(e)
            },
        }
    }
}

/// A value written and then read under limits that enable its algorithm
/// comes back as it was, whatever follows it in the buffer, and reading it
/// takes the two bytes of the identifier and the bytes of the digest.
pub proof fn lemma_tpmt_ha_round_trip<'a>(value: TpmtHa<'a>, limits: LimitSets, rest: Seq<u8>)
    requires
        limits.hash_algs@.contains(value.spec_alg()),
    ensures
        TpmtHa::<'a>::spec_unmarshal(limits, value.spec_marshal() + rest) == Ok::<
            (TpmtHa<'a>, nat),
            UnmarshalError,
        >((value, (2 + value.spec_alg().spec_digest_size()) as nat)),
{
    let alg = value.spec_alg();
    let id_bytes = be_bytes(alg.spec_id() as nat, 2);
    let bytes = value.spec_marshal() + rest;
    let end = 2 + alg.spec_digest_size();
    value.lemma_parts();
    alg.lemma_id_names_one();
    lemma_be_bytes_len(alg.spec_id() as nat, 2);
    lemma_pow256_values();
    lemma_be_value_of_bytes(alg.spec_id() as nat, 2);
    assert(bytes.take(2) =~= id_bytes);
    assert(bytes.subrange(2, end) =~= value.spec_digest());
}

/// A value of an algorithm that the limits do not enable is rejected as
/// disabled, and as nothing else, however well formed it is.
pub proof fn lemma_tpmt_ha_disabled<'a>(value: TpmtHa<'a>, limits: LimitSets, rest: Seq<u8>)
    requires
        !limits.hash_algs@.contains(value.spec_alg()),
    ensures
        TpmtHa::<'a>::spec_unmarshal(limits, value.spec_marshal() + rest) == Err::<
            (TpmtHa<'a>, nat),
            UnmarshalError,
        >(UnmarshalError::DisabledByLimits),
{
    let alg = value.spec_alg();
    let id_bytes = be_bytes(alg.spec_id() as nat, 2);
    let bytes = value.spec_marshal() + rest;
    alg.lemma_id_names_one();
    lemma_be_bytes_len(alg.spec_id() as nat, 2);
    lemma_pow256_values();
    lemma_be_value_of_bytes(alg.spec_id() as nat, 2);
    assert(bytes.take(2) =~= id_bytes);
}

} // verus!
