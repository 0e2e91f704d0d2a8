use tpm2::marshal::{EccCurves, Limits, RsaKeySizes, TpmaHashAlgs};
use tpm2::profiles::{Large, Medium, Small};
use tpm2::{TpmiAlgHash, TpmiEccCurve};

const ALL_ALGS: [TpmiAlgHash; 8] = [
    TpmiAlgHash::Sha1,
    TpmiAlgHash::Sha256,
    TpmiAlgHash::Sha384,
    TpmiAlgHash::Sha512,
    TpmiAlgHash::Sm3_256,
    TpmiAlgHash::Sha3_256,
    TpmiAlgHash::Sha3_384,
    TpmiAlgHash::Sha3_512,
];

const ALL_CURVES: [TpmiEccCurve; 8] = [
    TpmiEccCurve::NIST_P192,
    TpmiEccCurve::NIST_P224,
    TpmiEccCurve::NIST_P256,
    TpmiEccCurve::NIST_P384,
    TpmiEccCurve::NIST_P521,
    TpmiEccCurve::BN_P256,
    TpmiEccCurve::BN_P638,
    TpmiEccCurve::SM2_P256,
];

#[test]
fn hash_set_none_and_all() {
    for alg in ALL_ALGS {
        assert!(!TpmaHashAlgs::none().contains(alg));
        assert!(TpmaHashAlgs::all().contains(alg));
        assert!(TpmaHashAlgs(u32::MAX).contains(alg));
    }
    assert_eq!(TpmaHashAlgs::none(), TpmaHashAlgs(0));
    assert_eq!(TpmaHashAlgs::all(), TpmaHashAlgs(u32::MAX));
}

#[test]
fn hash_set_from_list_holds_the_list_and_nothing_else() {
    let set = TpmaHashAlgs::from_alg_list(&[TpmiAlgHash::Sha256, TpmiAlgHash::Sha3_512]);
    for alg in ALL_ALGS {
        let listed = alg == TpmiAlgHash::Sha256 || alg == TpmiAlgHash::Sha3_512;
        assert_eq!(set.contains(alg), listed);
    }
    assert_eq!(set, TpmaHashAlgs(0x82));
    assert_eq!(TpmaHashAlgs::from_alg_list(&[]), TpmaHashAlgs::none());
    assert_eq!(TpmaHashAlgs::from_alg_list(&ALL_ALGS), TpmaHashAlgs(0xFF));
}

#[test]
fn hash_set_from_list_ignores_order_and_repetition() {
    let a = TpmaHashAlgs::from_alg_list(&[TpmiAlgHash::Sha1, TpmiAlgHash::Sha384]);
    let b = TpmaHashAlgs::from_alg_list(&[TpmiAlgHash::Sha384, TpmiAlgHash::Sha1]);
    let c = TpmaHashAlgs::from_alg_list(&[
        TpmiAlgHash::Sha384,
        TpmiAlgHash::Sha1,
        TpmiAlgHash::Sha384,
        TpmiAlgHash::Sha1,
    ]);
    assert_eq!(a, b);
    assert_eq!(a, c);
    assert_eq!(a, TpmaHashAlgs(0x05));
}

#[test]
fn each_algorithm_has_a_bit_of_its_own() {
    for (i, alg) in ALL_ALGS.iter().enumerate() {
        assert_eq!(alg.bit(), i as u32);
        assert_eq!(TpmaHashAlgs::from_alg_list(&[*alg]), TpmaHashAlgs(1 << i));
    }
    for (i, curve) in ALL_CURVES.iter().enumerate() {
        assert_eq!(curve.bit(), i as u32);
        assert_eq!(EccCurves::from_curve_list(&[*curve]), EccCurves(1 << i));
    }
}

#[test]
fn queries_give_the_same_answer_again() {
    let set = TpmaHashAlgs::from_alg_list(&[TpmiAlgHash::Sha256]);
    for alg in ALL_ALGS {
        let first = set.contains(alg);
        for _ in 0..3 {
            assert_eq!(set.contains(alg), first);
        }
    }
    let sizes = RsaKeySizes::from_key_bits_list(&[2048]);
    assert_eq!(sizes.contains(2048), sizes.contains(2048));
    assert_eq!(sizes.contains(1024), sizes.contains(1024));
    let curves = EccCurves::from_curve_list(&[TpmiEccCurve::BN_P638]);
    for curve in ALL_CURVES {
        assert_eq!(curves.contains(curve), curves.contains(curve));
    }
    assert_eq!(Small::hash_algs(), Small::hash_algs());
    assert_eq!(Medium::rsa_key_sizes(), Medium::rsa_key_sizes());
    assert_eq!(Large::ecc_curves(), Large::ecc_curves());
}

#[test]
fn rsa_set_none_all_and_list() {
    for key_bits in [1024u16, 2048, 3072, 4096] {
        assert!(!RsaKeySizes::none().contains(key_bits));
        assert!(RsaKeySizes::all().contains(key_bits));
    }
    let set = RsaKeySizes::from_key_bits_list(&[4096, 2048, 4096]);
    assert!(!set.contains(1024));
    assert!(set.contains(2048));
    assert!(!set.contains(3072));
    assert!(set.contains(4096));
    assert_eq!(set, RsaKeySizes(0x0A));
    assert_eq!(set, RsaKeySizes::from_key_bits_list(&[2048, 4096]));
}

#[test]
fn rsa_set_knows_four_key_sizes_only() {
    assert_eq!(RsaKeySizes::key_bit(1024), Some(0));
    assert_eq!(RsaKeySizes::key_bit(2048), Some(1));
    assert_eq!(RsaKeySizes::key_bit(3072), Some(2));
    assert_eq!(RsaKeySizes::key_bit(4096), Some(3));
    for key_bits in [0u16, 1, 512, 1023, 1025, 2047, 8192, u16::MAX] {
        assert_eq!(RsaKeySizes::key_bit(key_bits), None);
        assert!(!RsaKeySizes::all().contains(key_bits));
    }
    let set = RsaKeySizes::from_key_bits_list(&[512, 2048, 1234]);
    assert_eq!(set, RsaKeySizes(0x02));
    assert!(!set.contains(512));
    assert!(!set.contains(1234));
}

#[test]
fn curve_set_none_all_and_list() {
    for curve in ALL_CURVES {
        assert!(!EccCurves::none().contains(curve));
        assert!(EccCurves::all().contains(curve));
    }
    let set = EccCurves::from_curve_list(&[
        TpmiEccCurve::SM2_P256,
        TpmiEccCurve::NIST_P192,
        TpmiEccCurve::SM2_P256,
    ]);
    for curve in ALL_CURVES {
        let listed = curve == TpmiEccCurve::SM2_P256 || curve == TpmiEccCurve::NIST_P192;
        assert_eq!(set.contains(curve), listed);
    }
    assert_eq!(set, EccCurves(0x81));
}

#[test]
fn small_profile() {
    assert_eq!(Small::hash_algs(), TpmaHashAlgs(0x02));
    assert_eq!(Small::rsa_key_sizes(), RsaKeySizes(0));
    assert_eq!(Small::ecc_curves(), EccCurves(0x04));
    for alg in ALL_ALGS {
        assert_eq!(Small::hash_algs().contains(alg), alg == TpmiAlgHash::Sha256);
    }
    for curve in ALL_CURVES {
        assert_eq!(Small::ecc_curves().contains(curve), curve == TpmiEccCurve::NIST_P256);
    }
    assert!(!Small::rsa_key_sizes().contains(2048));
}

#[test]
fn medium_profile() {
    assert_eq!(Medium::hash_algs(), TpmaHashAlgs(0x03));
    assert_eq!(Medium::rsa_key_sizes(), RsaKeySizes(0x02));
    assert_eq!(Medium::ecc_curves(), EccCurves(0x2C));
    assert!(Medium::hash_algs().contains(TpmiAlgHash::Sha1));
    assert!(Medium::hash_algs().contains(TpmiAlgHash::Sha256));
    assert!(!Medium::hash_algs().contains(TpmiAlgHash::Sha384));
    assert!(Medium::rsa_key_sizes().contains(2048));
    assert!(!Medium::rsa_key_sizes().contains(4096));
    assert!(Medium::ecc_curves().contains(TpmiEccCurve::NIST_P256));
    assert!(Medium::ecc_curves().contains(TpmiEccCurve::NIST_P384));
    assert!(Medium::ecc_curves().contains(TpmiEccCurve::BN_P256));
    assert!(!Medium::ecc_curves().contains(TpmiEccCurve::NIST_P521));
}

#[test]
fn large_profile() {
    assert_eq!(Large::hash_algs(), TpmaHashAlgs(u32::MAX));
    assert_eq!(Large::rsa_key_sizes(), RsaKeySizes(u32::MAX));
    assert_eq!(Large::ecc_curves(), EccCurves(u32::MAX));
    for alg in ALL_ALGS {
        assert!(Large::hash_algs().contains(alg));
    }
}

#[test]
fn algorithm_identifiers() {
    assert_eq!(TpmiAlgHash::Sha1.id(), 0x0004);
    assert_eq!(TpmiAlgHash::Sha256.id(), 0x000B);
    assert_eq!(TpmiAlgHash::Sha384.id(), 0x000C);
    assert_eq!(TpmiAlgHash::Sha512.id(), 0x000D);
    assert_eq!(TpmiAlgHash::Sm3_256.id(), 0x0012);
    assert_eq!(TpmiAlgHash::Sha3_256.id(), 0x0027);
    assert_eq!(TpmiAlgHash::Sha3_384.id(), 0x0028);
    assert_eq!(TpmiAlgHash::Sha3_512.id(), 0x0029);
    for alg in ALL_ALGS {
        assert_eq!(TpmiAlgHash::from_id(alg.id()), Some(alg));
    }
    let mut known = 0;
    for id in 0..=u16::MAX {
        if let Some(alg) = TpmiAlgHash::from_id(id) {
            assert_eq!(alg.id(), id);
            known += 1;
        }
    }
    assert_eq!(known, 8);
}

#[test]
fn digest_sizes() {
    assert_eq!(TpmiAlgHash::Sha1.digest_size(), 20);
    assert_eq!(TpmiAlgHash::Sha256.digest_size(), 32);
    assert_eq!(TpmiAlgHash::Sha384.digest_size(), 48);
    assert_eq!(TpmiAlgHash::Sha512.digest_size(), 64);
    assert_eq!(TpmiAlgHash::Sm3_256.digest_size(), 32);
    assert_eq!(TpmiAlgHash::Sha3_256.digest_size(), 32);
    assert_eq!(TpmiAlgHash::Sha3_384.digest_size(), 48);
    assert_eq!(TpmiAlgHash::Sha3_512.digest_size(), 64);
}
