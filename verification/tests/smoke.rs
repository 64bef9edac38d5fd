use openssl::bn::{BigNum, BigNumContext};
use openssl::ec::{EcGroup, EcKey, PointConversionForm};
use openssl::ecdsa::EcdsaSig;
use openssl::hash::MessageDigest;
use openssl::nid::Nid;
use openssl::pkey::PKey;
use openssl::rsa::Rsa;
use openssl::sha::sha256;
use openssl::sign::Signer;
use pkcs11_bridge::ck::EC_PARAMS_P256;
use pkcs11_bridge::der::wrap;
use pkcs11_bridge::key::{EcInfo, KeyAlgorithm, RsaInfo};
use pkcs11_bridge::mech::{DigestAlgorithm, SignatureMechanism};
use pkcs11_bridge::smoke::{
    check_signature, judge, smoke_mechanism, OpensslFailure, SmokeArgs, SmokeError,
};
use pkcs11_bridge::spki::{build_ec_spki, build_rsa_spki, ecdsa_raw_to_der};

#[test]
fn arguments_have_defaults() {
    let a = SmokeArgs::from_args(&vec![]);
    assert_eq!(a.component, "/tmp/full-pkcs11-stack.wasm");
    assert_eq!(a.conf, "harness/softhsm2-wasi.conf");
    assert_eq!(a.uri, "pkcs11:slot-id=0;object=demo-rsa;pin-value=1234");
    let a = SmokeArgs::from_args(&vec!["c".to_string(), "d".to_string(), "u".to_string()]);
    assert_eq!((a.component, a.conf, a.uri), ("c".to_string(), "d".to_string(), "u".to_string()));
    let a = SmokeArgs::from_args(&vec!["c".to_string()]);
    assert_eq!(a.component, "c");
    assert_eq!(a.conf, "harness/softhsm2-wasi.conf");
}

#[test]
fn mechanism_fits_the_key() {
    assert_eq!(
        smoke_mechanism(&KeyAlgorithm::Ec(EcInfo { curve: "P-256".to_string() })),
        Some(SignatureMechanism::Ecdsa(DigestAlgorithm::Sha256))
    );
    assert_eq!(
        smoke_mechanism(&KeyAlgorithm::Rsa(RsaInfo { modulus_bits: 2048 })),
        Some(SignatureMechanism::RsaPkcs1(DigestAlgorithm::Sha256))
    );
    assert_eq!(smoke_mechanism(&KeyAlgorithm::Other), None);
}

#[test]
fn verdicts() {
    assert!(judge(Ok(true)).is_ok());
    assert!(matches!(judge(Ok(false)), Err(SmokeError::NotVerified)));
    let e = openssl::error::ErrorStack::get();
    assert!(matches!(
        judge(Err(OpensslFailure::Verify(e))),
        Err(SmokeError::Openssl(OpensslFailure::Verify(_)))
    ));
}

#[test]
fn rsa_end_to_end() {
    let rsa = Rsa::generate(2048).unwrap();
    let mut modulus = vec![0, 0];
    modulus.extend(rsa.n().to_vec());
    let spki = build_rsa_spki(&modulus, &rsa.e().to_vec());
    let key = PKey::from_rsa(rsa).unwrap();
    assert_eq!(spki, key.public_key_to_der().unwrap());

    let mut signer = Signer::new(MessageDigest::sha256(), &key).unwrap();
    signer.update(b"message").unwrap();
    let signature = signer.sign_to_vec().unwrap();
    assert!(check_signature(&spki, b"message", &signature).is_ok());
    assert!(matches!(
        check_signature(&spki, b"another", &signature),
        Err(SmokeError::NotVerified)
    ));
}

#[test]
fn ec_end_to_end() {
    let group = EcGroup::from_curve_name(Nid::X9_62_PRIME256V1).unwrap();
    let ec = EcKey::generate(&group).unwrap();
    let mut ctx = BigNumContext::new().unwrap();
    let point = ec
        .public_key()
        .to_bytes(&group, PointConversionForm::UNCOMPRESSED, &mut ctx)
        .unwrap();
    let spki = build_ec_spki(&EC_PARAMS_P256, &wrap(0x04, &point)).unwrap();

    let sig = EcdsaSig::sign(&sha256(b"message"), &ec).unwrap();
    let mut raw = sig.r().to_vec_padded(32).unwrap();
    raw.extend(sig.s().to_vec_padded(32).unwrap());
    let der = ecdsa_raw_to_der(&raw).unwrap();
    assert_eq!(der, sig.to_der().unwrap());
    assert_eq!(spki, PKey::from_ec_key(ec).unwrap().public_key_to_der().unwrap());

    assert!(check_signature(&spki, b"message", &der).is_ok());
    assert!(matches!(check_signature(&spki, b"another", &der), Err(SmokeError::NotVerified)));
}

#[test]
fn integers_as_openssl_writes_them() {
    for n in [0u32, 1, 0x7f, 0x80, 0xff, 0x100, 0x8000, 0xffff_ffff] {
        let r = BigNum::from_u32(n).unwrap();
        let sig = EcdsaSig::from_private_components(r, BigNum::from_u32(1).unwrap()).unwrap();
        let mut raw = n.to_be_bytes().to_vec();
        raw.extend([0, 0, 0, 1]);
        assert_eq!(ecdsa_raw_to_der(&raw).unwrap(), sig.to_der().unwrap());
    }
}

#[test]
fn unreadable_public_key() {
    assert!(matches!(
        check_signature(&[1, 2, 3], b"message", &[]),
        Err(SmokeError::Openssl(OpensslFailure::SpkiParse(_)))
    ));
}
