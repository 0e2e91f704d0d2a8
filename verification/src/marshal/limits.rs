//! Capability limits: which hash algorithms, RSA key sizes and elliptic
//! curves a build supports.
//!
//! Each of the three sets is a bit mask over a fixed list of options. A set
//! is made empty, full, or from a list of the options to switch on; after
//! that it is only asked questions. A [`Limits`] type bundles one set of
//! each kind and parameterizes every marshaling call.

use crate::algs::{TpmiAlgHash, TpmiEccCurve};
use vstd::prelude::*;

verus! {

/// The mask with only bit `bit` set.
pub open spec fn bit_mask(bit: u32) -> u32 {
    1u32 << bit
}

/// Switching on the bits of `added` in `mask` makes a test of `probe`
/// succeed exactly if it succeeded before or succeeds on `added`.
proof fn lemma_or_test(mask: u32, added: u32, probe: u32)
    ensures
        ((mask | added) & probe != 0) <==> (mask & probe != 0 || added & probe != 0),
{
    assert(((mask | added) & probe != 0) <==> (mask & probe != 0 || added & probe != 0))
        by (bit_vector);
}

/// Two single-bit masks meet only if they are the same bit.
proof fn lemma_bits_meet(i: u32, j: u32)
    requires
        i < 32,
        j < 32,
    ensures
        (bit_mask(i) & bit_mask(j) != 0) <==> i == j,
{
    assert(((1u32 << i) & (1u32 << j) != 0) <==> i == j) by (bit_vector)
        requires
            i < 32,
            j < 32,
    ;
}

/// The empty mask holds no bit and the full mask holds every bit.
proof fn lemma_extreme_masks(i: u32)
    requires
        i < 32,
    ensures
        0u32 & bit_mask(i) == 0,
        u32::MAX & bit_mask(i) != 0,
{
    assert(0u32 & (1u32 << i) == 0) by (bit_vector);
    assert(0xffff_ffffu32 & (1u32 << i) != 0) by (bit_vector)
        requires
            i < 32,
    ;
}

/// Switching on one of the `width` low bits keeps a mask within them.
proof fn lemma_or_stays_low(mask: u32, i: u32, width: u32)
    requires
        width <= 8,
        i < width,
        mask < bit_mask(width),
    ensures
        (mask | bit_mask(i)) < bit_mask(width),
{
    assert((mask | (1u32 << i)) < (1u32 << width)) by (bit_vector)
        requires
            width <= 8,
            i < width,
            mask < (1u32 << width),
    ;
}

/// Two masks within the eight low bits that agree on each of them are equal.
proof fn lemma_low_masks_equal(a: u32, b: u32)
    requires
        a < bit_mask(8),
        b < bit_mask(8),
        forall|i: u32| i < 8 ==> ((a & #[trigger] bit_mask(i) != 0) <==> (b & bit_mask(i) != 0)),
    ensures
        a == b,
{
    let (i0, i1, i2, i3): (u32, u32, u32, u32) = (0, 1, 2, 3);
    let (i4, i5, i6, i7): (u32, u32, u32, u32) = (4, 5, 6, 7);
    assert((a & bit_mask(i0) != 0) <==> (b & bit_mask(i0) != 0));
    assert((a & bit_mask(i1) != 0) <==> (b & bit_mask(i1) != 0));
    assert((a & bit_mask(i2) != 0) <==> (b & bit_mask(i2) != 0));
    assert((a & bit_mask(i3) != 0) <==> (b & bit_mask(i3) != 0));
    assert((a & bit_mask(i4) != 0) <==> (b & bit_mask(i4) != 0));
    assert((a & bit_mask(i5) != 0) <==> (b & bit_mask(i5) != 0));
    assert((a & bit_mask(i6) != 0) <==> (b & bit_mask(i6) != 0));
    assert((a & bit_mask(i7) != 0) <==> (b & bit_mask(i7) != 0));
    let width: u32 = 8;
    assert(a == b) by (bit_vector)
        requires
            i0 == 0 && i1 == 1 && i2 == 2 && i3 == 3 && i4 == 4 && i5 == 5 && i6 == 6 && i7 == 7
                && width == 8,
            a < (1u32 << width),
            b < (1u32 << width),
            (a & (1u32 << i0) != 0) <==> (b & (1u32 << i0) != 0),
            (a & (1u32 << i1) != 0) <==> (b & (1u32 << i1) != 0),
            (a & (1u32 << i2) != 0) <==> (b & (1u32 << i2) != 0),
            (a & (1u32 << i3) != 0) <==> (b & (1u32 << i3) != 0),
            (a & (1u32 << i4) != 0) <==> (b & (1u32 << i4) != 0),
            (a & (1u32 << i5) != 0) <==> (b & (1u32 << i5) != 0),
            (a & (1u32 << i6) != 0) <==> (b & (1u32 << i6) != 0),
            (a & (1u32 << i7) != 0) <==> (b & (1u32 << i7) != 0),
    ;
}

/// A set of hash algorithms, one bit each.
#[derive(Clone, Copy, Debug, PartialEq, Eq, Structural)]
pub struct TpmaHashAlgs(pub u32);

impl View for TpmaHashAlgs {
    type V = Set<TpmiAlgHash>;

    /// The algorithms whose bit is set.
    open spec fn view(&self) -> Set<TpmiAlgHash> {
        Set::new(|alg: TpmiAlgHash| self.0 & bit_mask(alg.spec_bit()) != 0)
    }
}

impl TpmaHashAlgs {
    /// Whether the mask has no bit but those of the listed algorithms.
    pub open spec fn is_tidy(self) -> bool {
        self.0 < bit_mask(8)
    }

    /// The set with no algorithm enabled.
    pub fn none() -> (set: TpmaHashAlgs)
        ensures
            set.0 == 0,
            set@ == Set::<TpmiAlgHash>::empty(),
    {
        proof {
            assert forall|alg: TpmiAlgHash| 0u32 & bit_mask(alg.spec_bit()) == 0 by {
                lemma_extreme_masks(alg.spec_bit());
            }
            assert(TpmaHashAlgs(0)@ =~= Set::<TpmiAlgHash>::empty());
        }
        TpmaHashAlgs(0)
    }

    /// The set with every algorithm enabled, and every bit that a later
    /// algorithm may come to own.
    pub fn all() -> (set: TpmaHashAlgs)
        ensures
            set.0 == u32::MAX,
            set@ == Set::<TpmiAlgHash>::full(),
    {
        proof {
            assert forall|alg: TpmiAlgHash| u32::MAX & bit_mask(alg.spec_bit()) != 0 by {
                lemma_extreme_masks(alg.spec_bit());
            }
            assert(TpmaHashAlgs(u32::MAX)@ =~= Set::<TpmiAlgHash>::full());
        }
        TpmaHashAlgs(u32::MAX)
    }

    /// The set of exactly the algorithms in `list`. Neither the order of the
    /// list nor a repetition in it makes a difference.
    pub fn from_alg_list(list: &[TpmiAlgHash]) -> (set: TpmaHashAlgs)
        ensures
            set@ == list@.to_set(),
            set.is_tidy(),
    {
        let mut mask: u32 = 0;
        let mut i: usize = 0;
        proof {
            assert(0u32 < bit_mask(8)) by (bit_vector);
            assert forall|alg: TpmiAlgHash| 0u32 & bit_mask(alg.spec_bit()) == 0 by {
                lemma_extreme_masks(alg.spec_bit());
            }
        }
        while i < list.len()
            invariant
                i <= list.len(),
                mask < bit_mask(8),
                forall|alg: TpmiAlgHash|
                    (mask & #[trigger] bit_mask(alg.spec_bit()) != 0) <==> list@.take(
                        i as int,
                    ).contains(alg),
            decreases list.len() - i,
        {
            let added = list[i];
            let bit = added.bit();
            proof {
                lemma_or_stays_low(mask, bit, 8);
                assert(list@.take(i + 1) =~= list@.take(i as int).push(added));
                assert forall|alg: TpmiAlgHash|
                    ((mask | bit_mask(bit)) & #[trigger] bit_mask(alg.spec_bit()) != 0)
                        <==> list@.take(i + 1).contains(alg) by {
                    lemma_or_test(mask, bit_mask(bit), bit_mask(alg.spec_bit()));
                    lemma_bits_meet(bit, alg.spec_bit());
                    vstd::seq_lib::lemma_seq_contains_after_push(
                        list@.take(i as int),
                        added,
                        alg,
                    );
                }
            }
            mask = mask | (1u32 << bit);
            i = i + 1;
        }
        proof {
            assert(list@.take(i as int) =~= list@);
            assert(TpmaHashAlgs(mask)@ =~= list@.to_set());
        }
        TpmaHashAlgs(mask)
    }

    /// Whether `alg` is enabled. The answer depends on the set and the
    /// algorithm alone, so asking again gives the same answer.
    pub fn contains(self, alg: TpmiAlgHash) -> (enabled: bool)
        ensures
            enabled == self@.contains(alg),
    {
        self.0 & (1u32 << alg.bit()) != 0
    }

    /// Two tidy sets that enable the same algorithms are the same mask: a
    /// set made from a list is the same whatever the order of the list.
    pub proof fn lemma_tidy_sets_equal(self, other: TpmaHashAlgs)
        requires
            self.is_tidy(),
            other.is_tidy(),
            self@ == other@,
        ensures
            self == other,
    {
        assert forall|i: u32| i < 8 implies ((self.0 & #[trigger] bit_mask(i) != 0) <==> (other.0
            & bit_mask(i) != 0)) by {
            let alg = if i == 0 {
                TpmiAlgHash::Sha1
            } else if i == 1 {
                TpmiAlgHash::Sha256
            } else if i == 2 {
                TpmiAlgHash::Sha384
            } else if i == 3 {
                TpmiAlgHash::Sha512
            } else if i == 4 {
                TpmiAlgHash::Sm3_256
            } else if i == 5 {
                TpmiAlgHash::Sha3_256
            } else if i == 6 {
                TpmiAlgHash::Sha3_384
            } else {
                TpmiAlgHash::Sha3_512
            };
            assert(alg.spec_bit() == i);
            assert(self@.contains(alg) <==> self.0 & bit_mask(alg.spec_bit()) != 0);
            assert(other@.contains(alg) <==> other.0 & bit_mask(alg.spec_bit()) != 0);
        }
        lemma_low_masks_equal(self.0, other.0);
    }
}

/// A set of elliptic curves, one bit each.
#[derive(Clone, Copy, Debug, PartialEq, Eq, Structural)]
pub struct EccCurves(pub u32);

impl View for EccCurves {
    type V = Set<TpmiEccCurve>;

    /// The curves whose bit is set.
    open spec fn view(&self) -> Set<TpmiEccCurve> {
        Set::new(|curve: TpmiEccCurve| self.0 & bit_mask(curve.spec_bit()) != 0)
    }
}

impl EccCurves {
    /// Whether the mask has no bit but those of the listed curves.
    pub open spec fn is_tidy(self) -> bool {
        self.0 < bit_mask(8)
    }

    /// The set with no curve enabled.
    pub fn none() -> (set: EccCurves)
        ensures
            set.0 == 0,
            set@ == Set::<TpmiEccCurve>::empty(),
    {
        proof {
            assert forall|curve: TpmiEccCurve| 0u32 & bit_mask(curve.spec_bit()) == 0 by {
                lemma_extreme_masks(curve.spec_bit());
            }
            assert(EccCurves(0)@ =~= Set::<TpmiEccCurve>::empty());
        }
        EccCurves(0)
    }

    /// The set with every curve enabled, and every bit that a later curve
    /// may come to own.
    pub fn all() -> (set: EccCurves)
        ensures
            set.0 == u32::MAX,
            set@ == Set::<TpmiEccCurve>::full(),
    {
        proof {
            assert forall|curve: TpmiEccCurve| u32::MAX & bit_mask(curve.spec_bit()) != 0 by {
                lemma_extreme_masks(curve.spec_bit());
            }
            assert(EccCurves(u32::MAX)@ =~= Set::<TpmiEccCurve>::full());
        }
        EccCurves(u32::MAX)
    }

    /// The set of exactly the curves in `list`. Neither the order of the list
    /// nor a repetition in it makes a difference.
    pub fn from_curve_list(list: &[TpmiEccCurve]) -> (set: EccCurves)
        ensures
            set@ == list@.to_set(),
            set.is_tidy(),
    {
        let mut mask: u32 = 0;
        let mut i: usize = 0;
        proof {
            assert(0u32 < bit_mask(8)) by (bit_vector);
            assert forall|curve: TpmiEccCurve| 0u32 & bit_mask(curve.spec_bit()) == 0 by {
                lemma_extreme_masks(curve.spec_bit());
            }
        }
        while i < list.len()
            invariant
                i <= list.len(),
                mask < bit_mask(8),
                forall|curve: TpmiEccCurve|
                    (mask & #[trigger] bit_mask(curve.spec_bit()) != 0) <==> list@.take(
                        i as int,
                    ).contains(curve),
            decreases list.len() - i,
        {
            let added = list[i];
            let bit = added.bit();
            proof {
                lemma_or_stays_low(mask, bit, 8);
                assert(list@.take(i + 1) =~= list@.take(i as int).push(added));
                assert forall|curve: TpmiEccCurve|
                    ((mask | bit_mask(bit)) & #[trigger] bit_mask(curve.spec_bit()) != 0)
                        <==> list@.take(i + 1).contains(curve) by {
                    lemma_or_test(mask, bit_mask(bit), bit_mask(curve.spec_bit()));
                    lemma_bits_meet(bit, curve.spec_bit());
                    vstd::seq_lib::lemma_seq_contains_after_push(
                        list@.take(i as int),
                        added,
                        curve,
                    );
                }
            }
            mask = mask | (1u32 << bit);
            i = i + 1;
        }
        proof {
            assert(list@.take(i as int) =~= list@);
            assert(EccCurves(mask)@ =~= list@.to_set());
        }
        EccCurves(mask)
    }

    /// Whether `curve` is enabled. The answer depends on the set and the
    /// curve alone, so asking again gives the same answer.
    pub fn contains(self, curve: TpmiEccCurve) -> (enabled: bool)
        ensures
            enabled == self@.contains(curve),
    {
        self.0 & (1u32 << curve.bit()) != 0
    }

    /// Two tidy sets that enable the same curves are the same mask: a set
    /// made from a list is the same whatever the order of the list.
    pub proof fn lemma_tidy_sets_equal(self, other: EccCurves)
        requires
            self.is_tidy(),
            other.is_tidy(),
            self@ == other@,
        ensures
            self == other,
    {
        assert forall|i: u32| i < 8 implies ((self.0 & #[trigger] bit_mask(i) != 0) <==> (other.0
            & bit_mask(i) != 0)) by {
            let curve = if i == 0 {
                TpmiEccCurve::NIST_P192
            } else if i == 1 {
                TpmiEccCurve::NIST_P224
            } else if i == 2 {
                TpmiEccCurve::NIST_P256
            } else if i == 3 {
                TpmiEccCurve::NIST_P384
            } else if i == 4 {
                TpmiEccCurve::NIST_P521
            } else if i == 5 {
                TpmiEccCurve::BN_P256
            } else if i == 6 {
                TpmiEccCurve::BN_P638
            } else {
                TpmiEccCurve::SM2_P256
            };
            assert(curve.spec_bit() == i);
            assert(self@.contains(curve) <==> self.0 & bit_mask(curve.spec_bit()) != 0);
            assert(other@.contains(curve) <==> other.0 & bit_mask(curve.spec_bit()) != 0);
        }
        lemma_low_masks_equal(self.0, other.0);
    }
}

/// A set of RSA key sizes, one bit each. A key size is given in bits; the
/// sizes that exist as options are 1024, 2048, 3072 and 4096.
#[derive(Clone, Copy, Debug, PartialEq, Eq, Structural)]
pub struct RsaKeySizes(pub u32);

impl View for RsaKeySizes {
    type V = Set<u16>;

    /// The key sizes whose bit is set.
    open spec fn view(&self) -> Set<u16> {
        Set::new(
            |key_bits: u16|
                match Self::spec_key_bit(key_bits) {
                    Some(bit) => self.0 & bit_mask(bit) != 0,
                    None => false,
                },
        )
    }
}

impl RsaKeySizes {
    /// The position of the bit of the key size `key_bits`; `None` where no
    /// such key size exists as an option.
    pub open spec fn spec_key_bit(key_bits: u16) -> Option<u32> {
        if key_bits == 1024 {
            Some(0)
        } else if key_bits == 2048 {
            Some(1)
        } else if key_bits == 3072 {
            Some(2)
        } else if key_bits == 4096 {
            Some(3)
        } else {
            None
        }
    }

    /// Whether the mask has no bit but those of the four key sizes.
    pub open spec fn is_tidy(self) -> bool {
        self.0 < bit_mask(4)
    }

    /// The position of the bit of the key size `key_bits`; `None` where no
    /// such key size exists as an option.
    #[verifier::when_used_as_spec(spec_key_bit)]
    pub fn key_bit(key_bits: u16) -> (bit: Option<u32>)
        ensures
            bit == Self::spec_key_bit(key_bits),
            bit matches Some(b) ==> b < 4,
    {
        match key_bits {
            1024 => Some(0),
            2048 => Some(1),
            3072 => Some(2),
            4096 => Some(3),
            _ => None,
        }
    }

    /// The set with no key size enabled.
    pub fn none() -> (set: RsaKeySizes)
        ensures
            set.0 == 0,
            set@ == Set::<u16>::empty(),
    {
        proof {
            assert forall|bit: u32| bit < 4 implies 0u32 & #[trigger] bit_mask(bit) == 0 by {
                lemma_extreme_masks(bit);
            }
            assert(RsaKeySizes(0)@ =~= Set::<u16>::empty());
        }
        RsaKeySizes(0)
    }

    /// The set with every key size enabled, and every bit that a later key
    /// size may come to own.
    pub fn all() -> (set: RsaKeySizes)
        ensures
            set.0 == u32::MAX,
            set@ == Set::new(|key_bits: u16| Self::spec_key_bit(key_bits) is Some),
    {
        proof {
            assert forall|bit: u32| bit < 4 implies u32::MAX & #[trigger] bit_mask(bit) != 0 by {
                lemma_extreme_masks(bit);
            }
            assert(RsaKeySizes(u32::MAX)@ =~= Set::new(
                |key_bits: u16| Self::spec_key_bit(key_bits) is Some,
            ));
        }
        RsaKeySizes(u32::MAX)
    }

    /// The set of exactly the key sizes in `list`. An entry that is no key
    /// size enables nothing; neither the order of the list nor a repetition
    /// in it makes a difference.
    pub fn from_key_bits_list(list: &[u16]) -> (set: RsaKeySizes)
        ensures
            set@ == Set::new(
                |key_bits: u16| list@.contains(key_bits) && Self::spec_key_bit(key_bits) is Some,
            ),
            set.is_tidy(),
    {
        let mut mask: u32 = 0;
        let mut i: usize = 0;
        proof {
            assert(0u32 < bit_mask(4)) by (bit_vector);
            assert forall|bit: u32| bit < 4 implies 0u32 & #[trigger] bit_mask(bit) == 0 by {
                lemma_extreme_masks(bit);
            }
        }
        while i < list.len()
            invariant
                i <= list.len(),
                mask < bit_mask(4),
                forall|key_bits: u16|
                    (#[trigger] Self::spec_key_bit(key_bits)) is Some ==> ((mask & bit_mask(
                        Self::spec_key_bit(key_bits).unwrap(),
                    ) != 0) <==> list@.take(i as int).contains(key_bits)),
            decreases list.len() - i,
        {
            let added = list[i];
            let ghost before = mask;
            match Self::key_bit(added) {
                Some(bit) => {
                    proof {
                        lemma_or_stays_low(mask, bit, 4);
                    }
                    mask = mask | (1u32 << bit);
                },
                None => {},
            }
            proof {
                assert(list@.take(i + 1) =~= list@.take(i as int).push(added));
                assert forall|key_bits: u16|
                    (#[trigger] Self::spec_key_bit(key_bits)) is Some implies ((mask & bit_mask(
                        Self::spec_key_bit(key_bits).unwrap(),
                    ) != 0) <==> list@.take(i + 1).contains(key_bits)) by {
                    let bit = Self::spec_key_bit(key_bits).unwrap();
                    vstd::seq_lib::lemma_seq_contains_after_push(
                        list@.take(i as int),
                        added,
                        key_bits,
                    );
                    if let Some(added_bit) = Self::spec_key_bit(added) {
                        lemma_or_test(before, bit_mask(added_bit), bit_mask(bit));
                        lemma_bits_meet(added_bit, bit);
                    }
                }
            }
            i = i + 1;
        }
        proof {
            assert(list@.take(i as int) =~= list@);
            assert(RsaKeySizes(mask)@ =~= Set::new(
                |key_bits: u16| list@.contains(key_bits) && Self::spec_key_bit(key_bits) is Some,
            ));
        }
        RsaKeySizes(mask)
    }

    /// Whether keys of `key_bits` bits are enabled. The answer depends on the
    /// set and the key size alone, so asking again gives the same answer.
    pub fn contains(self, key_bits: u16) -> (enabled: bool)
        ensures
            enabled == self@.contains(key_bits),
    {
        match Self::key_bit(key_bits) {
            Some(bit) => self.0 & (1u32 << bit) != 0,
            None => false,
        }
    }

    /// Two tidy sets that enable the same key sizes are the same mask: a set
    /// made from a list is the same whatever the order of the list.
    pub proof fn lemma_tidy_sets_equal(self, other: RsaKeySizes)
        requires
            self.is_tidy(),
            other.is_tidy(),
            self@ == other@,
        ensures
            self == other,
    {
        let (a, b) = (self.0, other.0);
        let (i0, i1, i2, i3): (u32, u32, u32, u32) = (0, 1, 2, 3);
        assert(Self::spec_key_bit(1024) == Some(i0));
        assert(Self::spec_key_bit(2048) == Some(i1));
        assert(Self::spec_key_bit(3072) == Some(i2));
        assert(Self::spec_key_bit(4096) == Some(i3));
        assert(self@.contains(1024) <==> a & bit_mask(i0) != 0);
        assert(other@.contains(1024) <==> b & bit_mask(i0) != 0);
        assert(self@.contains(2048) <==> a & bit_mask(i1) != 0);
        assert(other@.contains(2048) <==> b & bit_mask(i1) != 0);
        assert(self@.contains(3072) <==> a & bit_mask(i2) != 0);
        assert(other@.contains(3072) <==> b & bit_mask(i2) != 0);
        assert(self@.contains(4096) <==> a & bit_mask(i3) != 0);
        assert(other@.contains(4096) <==> b & bit_mask(i3) != 0);
        assert((a & bit_mask(i0) != 0) <==> (b & bit_mask(i0) != 0));
        assert((a & bit_mask(i1) != 0) <==> (b & bit_mask(i1) != 0));
        assert((a & bit_mask(i2) != 0) <==> (b & bit_mask(i2) != 0));
        assert((a & bit_mask(i3) != 0) <==> (b & bit_mask(i3) != 0));
        let width: u32 = 4;
        assert(a == b) by (bit_vector)
            requires
                i0 == 0 && i1 == 1 && i2 == 2 && i3 == 3 && width == 4,
                a < (1u32 << width),
                b < (1u32 << width),
                (a & (1u32 << i0) != 0) <==> (b & (1u32 << i0) != 0),
                (a & (1u32 << i1) != 0) <==> (b & (1u32 << i1) != 0),
                (a & (1u32 << i2) != 0) <==> (b & (1u32 << i2) != 0),
                (a & (1u32 << i3) != 0) <==> (b & (1u32 << i3) != 0),
        ;
    }
}

/// The capability limits of a build: the hash algorithms, the RSA key sizes
/// and the elliptic curves that it supports.
///
/// A type that implements this trait stands for one fixed choice of the three
/// sets. Every marshaling call names such a type, and one call graph names
/// one: a value encoded under one choice and decoded under a narrower one
/// may be rejected.
pub trait Limits {
    /// The enabled hash algorithms.
    spec fn spec_hash_algs() -> TpmaHashAlgs;

    /// The enabled RSA key sizes.
    spec fn spec_rsa_key_sizes() -> RsaKeySizes;

    /// The enabled elliptic curves.
    spec fn spec_ecc_curves() -> EccCurves;

    /// The enabled hash algorithms: the same set at every call.
    fn hash_algs() -> (set: TpmaHashAlgs)
        ensures
            set == Self::spec_hash_algs(),
    ;

    /// The enabled RSA key sizes: the same set at every call.
    fn rsa_key_sizes() -> (set: RsaKeySizes)
        ensures
            set == Self::spec_rsa_key_sizes(),
    ;

    /// The enabled elliptic curves: the same set at every call.
    fn ecc_curves() -> (set: EccCurves)
        ensures
            set == Self::spec_ecc_curves(),
    ;
}

/// The three sets of a [`Limits`] type, as one value.
pub struct LimitSets {
    pub hash_algs: TpmaHashAlgs,
    pub rsa_key_sizes: RsaKeySizes,
    pub ecc_curves: EccCurves,
}

/// The sets that `L` stands for.
pub open spec fn limits_of<L: Limits>() -> LimitSets {
    LimitSets {
        hash_algs: L::spec_hash_algs(),
        rsa_key_sizes: L::spec_rsa_key_sizes(),
        ecc_curves: L::spec_ecc_curves(),
    }
}

} // verus!
