use pkcs11_bridge::error::{ck_error_to_backend, BackendError};
use pkcs11_bridge::mech::{
    map_cipher_mech, map_signature_mech, CipherMechanism, DigestAlgorithm, PssParams,
    SignatureMechanism,
};

fn number(m: SignatureMechanism) -> u64 {
    map_signature_mech(&m).unwrap()
}

fn refusal(m: SignatureMechanism) -> String {
    match map_signature_mech(&m) {
        Err(BackendError::MechanismNotSupported(s)) => s,
        other => panic!("{:?}", other),
    }
}

fn pss(digest: DigestAlgorithm) -> SignatureMechanism {
    SignatureMechanism::RsaPss(PssParams {
        digest,
        mgf_digest: DigestAlgorithm::Sha256,
        salt_length: 32,
    })
}

#[test]
fn signature_numbers() {
    assert_eq!(number(SignatureMechanism::RsaPkcs1(DigestAlgorithm::Sha256)), 0x40);
    assert_eq!(number(SignatureMechanism::RsaPkcs1(DigestAlgorithm::Sha384)), 0x41);
    assert_eq!(number(SignatureMechanism::RsaPkcs1(DigestAlgorithm::Sha512)), 0x42);
    assert_eq!(number(SignatureMechanism::RsaPkcs1(DigestAlgorithm::Raw)), 0x01);
    assert_eq!(number(pss(DigestAlgorithm::Sha256)), 0x43);
    assert_eq!(number(pss(DigestAlgorithm::Sha384)), 0x44);
    assert_eq!(number(pss(DigestAlgorithm::Sha512)), 0x45);
    assert_eq!(number(SignatureMechanism::Ecdsa(DigestAlgorithm::Sha256)), 0x1044);
    assert_eq!(number(SignatureMechanism::Ecdsa(DigestAlgorithm::Sha384)), 0x1045);
    assert_eq!(number(SignatureMechanism::Ecdsa(DigestAlgorithm::Sha512)), 0x1046);
    assert_eq!(number(SignatureMechanism::Ecdsa(DigestAlgorithm::Raw)), 0x1041);
    assert_eq!(number(SignatureMechanism::Eddsa), 0x1057);
    assert_eq!(number(SignatureMechanism::RsaRaw), 0x03);
}

#[test]
fn refused_mechanisms() {
    let unmapped = "pkcs11-bridge: digest/mech pair not mapped to a CKM_*";
    let pss_only = "pkcs11-bridge: RSA-PSS only supports SHA-256/384/512";
    assert_eq!(refusal(SignatureMechanism::RsaPkcs1(DigestAlgorithm::Other)), unmapped);
    assert_eq!(refusal(SignatureMechanism::Ecdsa(DigestAlgorithm::Other)), unmapped);
    assert_eq!(refusal(SignatureMechanism::Other), unmapped);
    assert_eq!(refusal(pss(DigestAlgorithm::Raw)), pss_only);
    assert_eq!(refusal(pss(DigestAlgorithm::Other)), pss_only);
}

#[test]
fn numbers_tell_mechanisms_apart() {
    let mut all = vec![SignatureMechanism::Eddsa, SignatureMechanism::RsaRaw];
    for d in [DigestAlgorithm::Sha256, DigestAlgorithm::Sha384, DigestAlgorithm::Sha512] {
        all.extend([SignatureMechanism::RsaPkcs1(d), SignatureMechanism::Ecdsa(d), pss(d)]);
    }
    all.extend([SignatureMechanism::RsaPkcs1(DigestAlgorithm::Raw), SignatureMechanism::Ecdsa(DigestAlgorithm::Raw)]);
    for a in &all {
        for b in &all {
            assert_eq!(number(*a) == number(*b), a == b);
        }
    }
}

#[test]
fn cipher_numbers() {
    assert_eq!(map_cipher_mech(&CipherMechanism::RsaPkcs1).unwrap(), 0x01);
    assert_eq!(map_cipher_mech(&CipherMechanism::RsaOaep).unwrap(), 0x09);
    assert_eq!(map_cipher_mech(&CipherMechanism::RsaRaw).unwrap(), 0x03);
}

fn kind(code: &str) -> &'static str {
    match ck_error_to_backend(code.to_string()) {
        BackendError::AuthenticationFailed(s) => {
            assert_eq!(s, code);
            "authentication"
        }
        BackendError::MechanismNotSupported(s) => {
            assert_eq!(s, code);
            "mechanism"
        }
        BackendError::KeyNotFound(s) => {
            assert_eq!(s, code);
            "key"
        }
        BackendError::Internal(s) => {
            assert_eq!(s, code);
            "internal"
        }
    }
}

#[test]
fn token_errors_fall_into_kinds() {
    assert_eq!(kind("ErrorCode::PinIncorrect"), "authentication");
    assert_eq!(kind("ErrorCode::UserNotLoggedIn"), "authentication");
    assert_eq!(kind("ErrorCode::MechanismInvalid"), "mechanism");
    assert_eq!(kind("ErrorCode::KeyTypeInconsistent"), "mechanism");
    assert_eq!(kind("ErrorCode::ObjectHandleInvalid"), "key");
    assert_eq!(kind("ErrorCode::KeyHandleInvalid"), "key");
    assert_eq!(kind("ErrorCode::TokenNotPresent"), "internal");
    assert_eq!(kind(""), "internal");
    assert_eq!(kind("KeyHandleInvalid MechanismInvalid"), "mechanism");
    assert_eq!(kind("MechanismInvalid PinIncorrect"), "authentication");
}
