use pkcs11_bridge::ck;
use pkcs11_bridge::error::BackendError;
use pkcs11_bridge::host::{Attribute, AttributeValue, HostCall, HostReply};
use pkcs11_bridge::key::{
    build_ec_spki, build_rsa_spki, AlgorithmStep, InfoStep, Key, KeyAlgorithm,
    SignatureWrappingPolicy, VerifyStep,
};
use pkcs11_bridge::mech::{CipherMechanism, DigestAlgorithm, SignatureMechanism};

fn key() -> Key {
    Key::new("pkcs11:slot-id=0;object=k").unwrap()
}

fn attr(tag: u32, value: AttributeValue) -> Attribute {
    Attribute { tag, value }
}

fn bytes(tag: u32, b: &[u8]) -> Attribute {
    attr(tag, AttributeValue::ByteString(b.to_vec()))
}

fn attrs(v: Vec<Attribute>) -> HostReply {
    HostReply::Attributes(v)
}

fn failed(s: &str) -> HostReply {
    HostReply::Failed(s.to_string())
}

fn found() -> Vec<HostReply> {
    vec![HostReply::Done, HostReply::Handles(vec![5]), HostReply::Done, HostReply::Done]
}

fn key_type(k: u32) -> HostReply {
    attrs(vec![attr(ck::CKA_KEY_TYPE, AttributeValue::KeyKind(k))])
}

fn algorithm(key: &mut Key, replies: Vec<HostReply>) -> (Vec<String>, KeyAlgorithm) {
    let mut calls = Vec::new();
    let mut replies = replies.into_iter();
    let mut step = key.algorithm();
    loop {
        match step {
            AlgorithmStep::Call(state, call) => {
                calls.push(format!("{:?}", call));
                step = key.algorithm_step(state, replies.next().unwrap());
            }
            AlgorithmStep::Done(a) => return (calls, a),
        }
    }
}

#[derive(Debug)]
enum InfoEnd {
    Done(Vec<u8>),
    Fail(BackendError),
}

fn info(key: &mut Key, replies: Vec<HostReply>) -> (Vec<String>, InfoEnd) {
    let mut calls = Vec::new();
    let mut replies = replies.into_iter();
    let mut step = key.public_key_info();
    loop {
        match step {
            InfoStep::Call(state, call) => {
                calls.push(format!("{:?}", call));
                step = key.public_key_info_step(state, replies.next().unwrap());
            }
            InfoStep::Done(spki) => return (calls, InfoEnd::Done(spki)),
            InfoStep::Fail(e) => return (calls, InfoEnd::Fail(e)),
        }
    }
}

fn verify(
    key: &Key,
    mech: SignatureMechanism,
    replies: Vec<HostReply>,
) -> (Vec<HostCall>, Result<bool, BackendError>) {
    let mut calls = Vec::new();
    let mut replies = replies.into_iter();
    let mut step = key.verify(&[1, 2], &[3], mech);
    loop {
        match step {
            VerifyStep::Call(state, call) => {
                calls.push(call);
                step = key.verify_step(&[1, 2], &[3], mech, state, replies.next().unwrap());
            }
            VerifyStep::Done(good) => return (calls, Ok(good)),
            VerifyStep::Fail(e) => return (calls, Err(e)),
        }
    }
}

fn curve(a: KeyAlgorithm) -> String {
    match a {
        KeyAlgorithm::Ec(i) => i.curve,
        other => panic!("{:?}", other),
    }
}

fn bits(a: KeyAlgorithm) -> u32 {
    match a {
        KeyAlgorithm::Rsa(i) => i.modulus_bits,
        other => panic!("{:?}", other),
    }
}

#[test]
fn ec_algorithm() {
    let mut k = key();
    let (calls, a) = algorithm(&mut k, vec![key_type(3)]);
    assert_eq!(calls, ["GetAttributes { half: Private, tags: [256] }"]);
    assert_eq!(curve(a), "P-256");
}

#[test]
fn rsa_algorithm() {
    let mut k = key();
    let replies = vec![key_type(0), attrs(vec![bytes(ck::CKA_MODULUS, &[1; 384])])];
    let (calls, a) = algorithm(&mut k, replies);
    assert_eq!(
        calls,
        [
            "GetAttributes { half: Private, tags: [256] }",
            "GetAttributes { half: Private, tags: [288] }",
        ]
    );
    assert_eq!(bits(a), 3072);
}

#[test]
fn modulus_size_has_a_default() {
    let (_, a) = algorithm(&mut key(), vec![key_type(0), failed("AttributeSensitive")]);
    assert_eq!(bits(a), 2048);
    let (_, a) = algorithm(
        &mut key(),
        vec![key_type(0), attrs(vec![attr(ck::CKA_MODULUS, AttributeValue::Other)])],
    );
    assert_eq!(bits(a), 2048);
}

#[test]
fn key_type_is_the_first_number() {
    let replies = vec![
        attrs(vec![
            attr(9, AttributeValue::Boolean(true)),
            attr(9, AttributeValue::Uint32(0)),
            attr(ck::CKA_KEY_TYPE, AttributeValue::KeyKind(3)),
        ]),
        attrs(vec![bytes(7, &[0; 2]), bytes(ck::CKA_MODULUS, &[0; 256])]),
    ];
    let (_, a) = algorithm(&mut key(), replies);
    assert_eq!(bits(a), 16);
}

#[test]
fn other_keys_count_as_ec() {
    for reply in [key_type(0x1f), failed("x"), attrs(vec![]), HostReply::Done] {
        let (_, a) = algorithm(&mut key(), vec![reply]);
        assert_eq!(curve(a), "P-256");
    }
}

#[test]
fn algorithm_is_asked_for_once() {
    let mut k = key();
    algorithm(&mut k, vec![key_type(0), attrs(vec![bytes(ck::CKA_MODULUS, &[1; 128])])]);
    let (calls, a) = algorithm(&mut k, vec![]);
    assert!(calls.is_empty());
    assert_eq!(bits(a), 1024);
    assert_eq!(k.uri.object.as_deref(), Some("k"));
}

#[test]
fn rsa_public_key() {
    let mut k = key();
    let mut replies = found();
    replies.push(key_type(0));
    replies.push(attrs(vec![bytes(ck::CKA_MODULUS, &[0xc1])]));
    replies.push(attrs(vec![
        bytes(ck::CKA_PUBLIC_EXPONENT, &[9]),
        bytes(ck::CKA_PUBLIC_EXPONENT, &[1, 0, 1]),
        bytes(ck::CKA_MODULUS, &[0xc1]),
    ]));
    let (calls, end) = info(&mut k, replies);
    assert_eq!(calls.len(), 7);
    assert_eq!(calls[3], "BindObject { half: Public, handle: 5 }");
    assert_eq!(calls[6], "GetAttributes { half: Public, tags: [288, 290] }");
    let expected = build_rsa_spki(&[0xc1], &[1, 0, 1]).unwrap();
    assert!(matches!(end, InfoEnd::Done(spki) if spki == expected));

    let (calls, end) = info(&mut k, vec![]);
    assert!(calls.is_empty());
    assert!(matches!(end, InfoEnd::Done(spki) if spki == expected));
    assert!(k.algorithm.is_some());
}

#[test]
fn ec_public_key() {
    let mut k = key();
    let mut replies = found();
    replies.push(key_type(3));
    replies.push(attrs(vec![
        bytes(ck::CKA_EC_POINT, &[0x04, 0x02, 0xaa, 0xbb]),
        bytes(ck::CKA_EC_PARAMS, &[0x06, 0x01, 0x2a]),
    ]));
    let (calls, end) = info(&mut k, replies);
    assert_eq!(calls[5], "GetAttributes { half: Public, tags: [384, 385] }");
    let expected = vec![
        0x30, 0x13, 0x30, 0x0c, 0x06, 0x07, 0x2a, 0x86, 0x48, 0xce, 0x3d, 0x02, 0x01, 0x06, 0x01,
        0x2a, 0x03, 0x03, 0x00, 0xaa, 0xbb,
    ];
    assert!(matches!(end, InfoEnd::Done(spki) if spki == expected));
    assert_eq!(k.spki_cache, Some(expected));
}

fn info_failure(known: u32, last: HostReply) -> BackendError {
    let mut k = key();
    algorithm(&mut k, vec![key_type(known), attrs(vec![])]);
    let mut replies = found();
    replies.push(last);
    match info(&mut k, replies) {
        (_, InfoEnd::Fail(e)) => {
            assert!(k.spki_cache.is_none());
            e
        }
        other => panic!("{:?}", other),
    }
}

#[test]
fn public_key_needs_its_attributes() {
    let text = |known: u32, last: HostReply| match info_failure(known, last) {
        BackendError::Internal(s) => s,
        other => panic!("{:?}", other),
    };
    assert_eq!(text(3, attrs(vec![])), "EC public key missing CKA_EC_PARAMS");
    assert_eq!(
        text(3, attrs(vec![bytes(ck::CKA_EC_PARAMS, &[])])),
        "EC public key missing CKA_EC_POINT"
    );
    assert_eq!(
        text(3, attrs(vec![bytes(ck::CKA_EC_PARAMS, &[]), bytes(ck::CKA_EC_POINT, &[5, 0])])),
        "EC SPKI: CKA_EC_POINT not an OCTET STRING"
    );
    assert_eq!(
        text(0, attrs(vec![bytes(ck::CKA_PUBLIC_EXPONENT, &[3])])),
        "RSA public key missing CKA_MODULUS"
    );
    assert_eq!(
        text(
            0,
            attrs(vec![
                bytes(ck::CKA_MODULUS, &[3]),
                attr(ck::CKA_PUBLIC_EXPONENT, AttributeValue::Uint32(3)),
            ])
        ),
        "RSA public key missing CKA_PUBLIC_EXPONENT"
    );
    assert!(matches!(
        info_failure(0, failed("ObjectHandleInvalid")),
        BackendError::KeyNotFound(_)
    ));
    assert!(matches!(
        info_failure(3, failed("UserNotLoggedIn")),
        BackendError::AuthenticationFailed(_)
    ));
}

#[test]
fn public_key_needs_a_known_kind() {
    let mut k = key();
    k.algorithm = Some(KeyAlgorithm::Other);
    let (calls, end) = info(&mut k, found());
    assert_eq!(calls.len(), 4);
    assert!(matches!(end, InfoEnd::Fail(BackendError::MechanismNotSupported(s))
        if s == "pkcs11-bridge: only RSA and EC public_key_info implemented"));
}

#[test]
fn public_half_must_exist() {
    let (_, end) = info(
        &mut key(),
        vec![HostReply::Done, HostReply::Handles(vec![]), HostReply::Done],
    );
    assert!(matches!(end, InfoEnd::Fail(BackendError::KeyNotFound(s))
        if s == "no object matched URI (class=0x02, label=Some(\"k\"), id=None)"));
}

#[test]
fn point_with_an_end_beyond_memory() {
    let mut point = vec![0x04, 0x88];
    point.extend([0xff; 8]);
    let mut replies = found();
    replies.push(key_type(3));
    replies.push(attrs(vec![bytes(ck::CKA_EC_PARAMS, &[]), bytes(ck::CKA_EC_POINT, &point)]));
    let (_, end) = info(&mut key(), replies);
    assert!(matches!(end, InfoEnd::Fail(BackendError::Internal(s))
        if s == "EC SPKI: truncated OCTET STRING value"));
}

#[test]
fn structure_errors_are_internal() {
    assert!(matches!(build_ec_spki(&[], &[0x04, 0x82]), Err(BackendError::Internal(s))
        if s == "EC SPKI: truncated OCTET STRING length"));
    assert_eq!(build_ec_spki(&[], &[0x04, 0x00]).unwrap().len(), 16);
}

const ECDSA: SignatureMechanism = SignatureMechanism::Ecdsa(DigestAlgorithm::Sha256);
const RSA: SignatureMechanism = SignatureMechanism::RsaPkcs1(DigestAlgorithm::Sha256);

#[test]
fn signing() {
    let k = key();
    let call = k.sign(vec![1, 2], ECDSA).unwrap();
    assert_eq!(format!("{:?}", call), "Sign { mechanism: Mechanism { kind: 4164 }, message: [1, 2] }");
    assert!(matches!(
        k.sign(vec![], SignatureMechanism::Other),
        Err(BackendError::MechanismNotSupported(_))
    ));
}

#[test]
fn ecdsa_signatures_come_out_in_der() {
    let k = key();
    for digest in [DigestAlgorithm::Sha256, DigestAlgorithm::Raw] {
        let m = SignatureMechanism::Ecdsa(digest);
        assert_eq!(
            k.sign_reply(m, HostReply::Bytes(vec![0x00, 0x80])).unwrap(),
            [0x30, 0x07, 0x02, 0x01, 0x00, 0x02, 0x02, 0x00, 0x80]
        );
    }
    let text = "ECDSA DER: raw ECDSA signature is not two numbers of equal length";
    assert!(matches!(k.sign_reply(ECDSA, HostReply::Bytes(vec![1])),
        Err(BackendError::Internal(s)) if s == text));
    assert!(matches!(k.sign_reply(ECDSA, HostReply::Bytes(vec![])),
        Err(BackendError::Internal(s)) if s == text));
}

#[test]
fn other_signatures_stay_as_they_are() {
    let k = key();
    for m in [RSA, SignatureMechanism::Eddsa, SignatureMechanism::RsaRaw] {
        assert_eq!(k.sign_reply(m, HostReply::Bytes(vec![1, 2, 3])).unwrap(), [1, 2, 3]);
    }
    assert!(matches!(
        k.sign_reply(RSA, failed("UserNotLoggedIn")),
        Err(BackendError::AuthenticationFailed(_))
    ));
}

#[test]
fn verifying() {
    let mut replies = found();
    replies.push(HostReply::Done);
    let (calls, verdict) = verify(&key(), RSA, replies);
    assert_eq!(calls.len(), 5);
    assert!(matches!(calls[3], HostCall::BindObject { .. }));
    assert_eq!(
        format!("{:?}", calls[4]),
        "Verify { mechanism: Mechanism { kind: 64 }, message: [1, 2], signature: [3] }"
    );
    assert!(matches!(verdict, Ok(true)));
}

#[test]
fn signatures_other_than_ecdsa_go_back_unchanged() {
    let k = key();
    let signature = k.sign_reply(RSA, HostReply::Bytes(vec![3])).unwrap();
    let mut replies = found();
    replies.push(HostReply::Done);
    let (calls, _) = verify(&k, RSA, replies);
    match (&calls[4], k.sign(vec![1, 2], RSA).unwrap()) {
        (
            HostCall::Verify { mechanism, message, signature: handed_on },
            HostCall::Sign { mechanism: m, message: signed },
        ) => {
            assert_eq!(*handed_on, signature);
            assert_eq!(*message, signed);
            assert_eq!(*mechanism, m);
        }
        other => panic!("{:?}", other),
    }
}

#[test]
fn bad_signatures_are_a_verdict() {
    for code in ["SignatureInvalid", "SignatureLenRange"] {
        let mut replies = found();
        replies.push(failed(code));
        assert!(matches!(verify(&key(), RSA, replies).1, Ok(false)));
    }
    let mut replies = found();
    replies.push(failed("KeyHandleInvalid"));
    assert!(matches!(verify(&key(), RSA, replies).1, Err(BackendError::KeyNotFound(_))));
}

#[test]
fn verifying_needs_a_mechanism_and_a_key() {
    let (calls, verdict) = verify(&key(), SignatureMechanism::Other, vec![]);
    assert!(calls.is_empty());
    assert!(matches!(verdict, Err(BackendError::MechanismNotSupported(_))));
    let (_, verdict) = verify(&key(), RSA, vec![failed("x")]);
    assert!(matches!(verdict, Err(BackendError::Internal(_))));
}

#[test]
fn decrypting() {
    let k = key();
    let call = k.decrypt(vec![7], CipherMechanism::RsaOaep).unwrap();
    assert_eq!(
        format!("{:?}", call),
        "Decrypt { mechanism: Mechanism { kind: 9 }, ciphertext: [7], max_len: 4096 }"
    );
    assert_eq!(k.decrypt_reply(HostReply::Bytes(vec![8, 9])).unwrap(), [8, 9]);
    assert!(matches!(
        k.decrypt_reply(failed("MechanismInvalid")),
        Err(BackendError::MechanismNotSupported(_))
    ));
}

#[test]
fn key_agreement_is_not_supported() {
    assert!(matches!(key().derive(vec![1]), Err(BackendError::MechanismNotSupported(s))
        if s == "pkcs11-bridge: derive (ECDH) not implemented in Phase 4"));
}

#[test]
fn tokens_want_messages_as_they_are() {
    assert_eq!(key().signature_wrapping_policy(ECDSA), SignatureWrappingPolicy::Raw);
    assert_eq!(key().signature_wrapping_policy(RSA), SignatureWrappingPolicy::Raw);
}
