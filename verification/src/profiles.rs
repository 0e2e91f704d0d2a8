//! Three example sets of capability limits, from the smallest build to the
//! largest.
//!
//! An application picks one such type, or writes its own, and names it in
//! every marshaling call of its call graph.

use crate::algs::{TpmiAlgHash, TpmiEccCurve};
use crate::marshal::{EccCurves, Limits, RsaKeySizes, TpmaHashAlgs};
use vstd::prelude::*;

verus! {

/// SHA-256 and the curve NIST P-256, without RSA.
pub struct Small;

/// SHA-1 and SHA-256, RSA with keys of 2048 bits, and three curves.
pub struct Medium;

/// Everything.
pub struct Large;

/// What the sets of [`Small`] enable.
pub proof fn lemma_small_sets()
    ensures
        Small::spec_hash_algs()@ == set![TpmiAlgHash::Sha256],
        Small::spec_rsa_key_sizes()@ == Set::<u16>::empty(),
        Small::spec_ecc_curves()@ == set![TpmiEccCurve::NIST_P256],
        Small::spec_hash_algs().is_tidy(),
        Small::spec_rsa_key_sizes().is_tidy(),
        Small::spec_ecc_curves().is_tidy(),
{
    assert forall|alg: TpmiAlgHash|
        Small::spec_hash_algs()@.contains(alg) <==> alg == TpmiAlgHash::Sha256 by {
        let bit = alg.spec_bit();
        assert((0x02u32 & (1u32 << bit) != 0) <==> bit == 1) by (bit_vector)
            requires
                bit < 8,
        ;
    }
    assert forall|key_bits: u16| !Small::spec_rsa_key_sizes()@.contains(key_bits) by {
        if let Some(bit) = RsaKeySizes::spec_key_bit(key_bits) {
            assert(0u32 & (1u32 << bit) == 0) by (bit_vector);
        }
    }
    assert forall|curve: TpmiEccCurve|
        Small::spec_ecc_curves()@.contains(curve) <==> curve == TpmiEccCurve::NIST_P256 by {
        let bit = curve.spec_bit();
        assert((0x04u32 & (1u32 << bit) != 0) <==> bit == 2) by (bit_vector)
            requires
                bit < 8,
        ;
    }
    assert(Small::spec_hash_algs()@ =~= set![TpmiAlgHash::Sha256]);
    assert(Small::spec_rsa_key_sizes()@ =~= Set::<u16>::empty());
    assert(Small::spec_ecc_curves()@ =~= set![TpmiEccCurve::NIST_P256]);
    assert(0x02u32 < (1u32 << 8u32) && 0x04u32 < (1u32 << 8u32) && 0u32 < (1u32 << 4u32))
        by (bit_vector);
}

/// What the sets of [`Medium`] enable.
pub proof fn lemma_medium_sets()
    ensures
        Medium::spec_hash_algs()@ == set![TpmiAlgHash::Sha1, TpmiAlgHash::Sha256],
        Medium::spec_rsa_key_sizes()@ == set![2048u16],
        Medium::spec_ecc_curves()@ == set![
            TpmiEccCurve::NIST_P256,
            TpmiEccCurve::NIST_P384,
            TpmiEccCurve::BN_P256,
        ],
        Medium::spec_hash_algs().is_tidy(),
        Medium::spec_rsa_key_sizes().is_tidy(),
        Medium::spec_ecc_curves().is_tidy(),
{
    assert forall|alg: TpmiAlgHash|
        Medium::spec_hash_algs()@.contains(alg) <==> (alg == TpmiAlgHash::Sha1 || alg
            == TpmiAlgHash::Sha256) by {
        let bit = alg.spec_bit();
        assert((0x03u32 & (1u32 << bit) != 0) <==> (bit == 0 || bit == 1)) by (bit_vector)
            requires
                bit < 8,
        ;
    }
    assert forall|key_bits: u16|
        Medium::spec_rsa_key_sizes()@.contains(key_bits) <==> key_bits == 2048 by {
        if let Some(bit) = RsaKeySizes::spec_key_bit(key_bits) {
            assert((0x02u32 & (1u32 << bit) != 0) <==> bit == 1) by (bit_vector)
                requires
                    bit < 4,
            ;
        }
    }
    assert forall|curve: TpmiEccCurve|
        Medium::spec_ecc_curves()@.contains(curve) <==> (curve == TpmiEccCurve::NIST_P256
            || curve == TpmiEccCurve::NIST_P384 || curve == TpmiEccCurve::BN_P256) by {
        let bit = curve.spec_bit();
        assert((0x2cu32 & (1u32 << bit) != 0) <==> (bit == 2 || bit == 3 || bit == 5))
            by (bit_vector)
            requires
                bit < 8,
        ;
    }
    assert(Medium::spec_hash_algs()@ =~= set![TpmiAlgHash::Sha1, TpmiAlgHash::Sha256]);
    assert(Medium::spec_rsa_key_sizes()@ =~= set![2048u16]);
    assert(Medium::spec_ecc_curves()@ =~= set![
        TpmiEccCurve::NIST_P256,
        TpmiEccCurve::NIST_P384,
        TpmiEccCurve::BN_P256,
    ]);
    assert(0x03u32 < (1u32 << 8u32) && 0x2cu32 < (1u32 << 8u32) && 0x02u32 < (1u32 << 4u32))
        by (bit_vector);
}

/// The sets of [`Large`] enable every algorithm, key size and curve.
pub proof fn lemma_large_sets()
    ensures
        Large::spec_hash_algs()@ == Set::<TpmiAlgHash>::full(),
        Large::spec_rsa_key_sizes()@ == set![1024u16, 2048u16, 3072u16, 4096u16],
        Large::spec_ecc_curves()@ == Set::<TpmiEccCurve>::full(),
{
    assert forall|bit: u32| bit < 8 implies 0xffff_ffffu32 & #[trigger] (1u32 << bit) != 0 by {
        assert(0xffff_ffffu32 & (1u32 << bit) != 0) by (bit_vector)
            requires
                bit < 8,
        ;
    }
    assert forall|alg: TpmiAlgHash| Large::spec_hash_algs()@.contains(alg) by {
        assert(alg.spec_bit() < 8);
    }
    assert forall|curve: TpmiEccCurve| Large::spec_ecc_curves()@.contains(curve) by {
        assert(curve.spec_bit() < 8);
    }
    assert(Large::spec_hash_algs()@ =~= Set::<TpmiAlgHash>::full());
    assert(Large::spec_rsa_key_sizes()@ =~= set![1024u16, 2048u16, 3072u16, 4096u16]);
    assert(Large::spec_ecc_curves()@ =~= Set::<TpmiEccCurve>::full());
}

impl Limits for Small {
    open spec fn spec_hash_algs() -> TpmaHashAlgs {
        TpmaHashAlgs(0x02)
    }

    open spec fn spec_rsa_key_sizes() -> RsaKeySizes {
        RsaKeySizes(0)
    }

    open spec fn spec_ecc_curves() -> EccCurves {
        EccCurves(0x04)
    }

    fn hash_algs() -> (set: TpmaHashAlgs) {
        let list = [TpmiAlgHash::Sha256];
        let set = TpmaHashAlgs::from_alg_list(&list);
        proof {
            lemma_small_sets();
            assert(list@ =~= seq![TpmiAlgHash::Sha256]);
            assert(list@.to_set() =~= set![TpmiAlgHash::Sha256]);
            set.lemma_tidy_sets_equal(TpmaHashAlgs(0x02));
        }
        set
    }

    fn rsa_key_sizes() -> (set: RsaKeySizes) {
        RsaKeySizes::none()
    }

    fn ecc_curves() -> (set: EccCurves) {
        let list = [TpmiEccCurve::NIST_P256];
        let set = EccCurves::from_curve_list(&list);
        proof {
            lemma_small_sets();
            assert(list@ =~= seq![TpmiEccCurve::NIST_P256]);
            assert(list@.to_set() =~= set![TpmiEccCurve::NIST_P256]);
            set.lemma_tidy_sets_equal(EccCurves(0x04));
        }
        set
    }
}

impl Limits for Medium {
    open spec fn spec_hash_algs() -> TpmaHashAlgs {
        TpmaHashAlgs(0x03)
    }

    open spec fn spec_rsa_key_sizes() -> RsaKeySizes {
        RsaKeySizes(0x02)
    }

    open spec fn spec_ecc_curves() -> EccCurves {
        EccCurves(0x2c)
    }

    fn hash_algs() -> (set: TpmaHashAlgs) {
        let list = [TpmiAlgHash::Sha1, TpmiAlgHash::Sha256];
        let set = TpmaHashAlgs::from_alg_list(&list);
        proof {
            lemma_medium_sets();
            assert(list@ =~= seq![TpmiAlgHash::Sha1, TpmiAlgHash::Sha256]);
            assert(list@[0] == TpmiAlgHash::Sha1 && list@[1] == TpmiAlgHash::Sha256);
            assert(list@.to_set() =~= set![TpmiAlgHash::Sha1, TpmiAlgHash::Sha256]);
            set.lemma_tidy_sets_equal(TpmaHashAlgs(0x03));
        }
        set
    }

    fn rsa_key_sizes() -> (set: RsaKeySizes) {
        let list = [2048u16];
        let set = RsaKeySizes::from_key_bits_list(&list);
        proof {
            lemma_medium_sets();
            assert(list@[0] == 2048);
            assert(set@ =~= set![2048u16]);
            set.lemma_tidy_sets_equal(RsaKeySizes(0x02));
        }
        set
    }

    fn ecc_curves() -> (set: EccCurves) {
        let list = [TpmiEccCurve::NIST_P256, TpmiEccCurve::NIST_P384, TpmiEccCurve::BN_P256];
        let set = EccCurves::from_curve_list(&list);
        proof {
            lemma_medium_sets();
            assert(list@[0] == TpmiEccCurve::NIST_P256 && list@[1] == TpmiEccCurve::NIST_P384
                && list@[2] == TpmiEccCurve::BN_P256);
            assert(list@.to_set() =~= set![
                TpmiEccCurve::NIST_P256,
                TpmiEccCurve::NIST_P384,
                TpmiEccCurve::BN_P256,
            ]);
            set.lemma_tidy_sets_equal(EccCurves(0x2c));
        }
        set
    }
}

impl Limits for Large {
    open spec fn spec_hash_algs() -> TpmaHashAlgs {
        TpmaHashAlgs(u32::MAX)
    }

    open spec fn spec_rsa_key_sizes() -> RsaKeySizes {
        RsaKeySizes(u32::MAX)
    }

    open spec fn spec_ecc_curves() -> EccCurves {
        EccCurves(u32::MAX)
    }

    fn hash_algs() -> (set: TpmaHashAlgs) {
        TpmaHashAlgs::all()
    }

    fn rsa_key_sizes() -> (set: RsaKeySizes) {
        RsaKeySizes::all()
    }

    fn ecc_curves() -> (set: EccCurves) {
        EccCurves::all()
    }
}

} // verus!
