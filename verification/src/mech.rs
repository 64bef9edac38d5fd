//! Mechanisms: what a caller asks for, and the number the token knows it by.
use crate::ck;
use crate::error::{not_supported, BackendError, BackendErrorView};
use vstd::prelude::*;
use vstd::string::*;

verus! {

/// The digest that a signature is made over.
#[derive(Clone, Copy, Debug, PartialEq, Eq, Structural)]
pub enum DigestAlgorithm {
    Sha256,
    Sha384,
    Sha512,
    /// The caller hashed already.
    Raw,
    /// A digest that the bridge does not know.
    Other,
}

/// Parameters of an RSA-PSS signature.
#[derive(Clone, Copy, Debug, PartialEq, Eq, Structural)]
pub struct PssParams {
    /// Digest of the message.
    pub digest: DigestAlgorithm,
    /// Digest of the mask generation.
    pub mgf_digest: DigestAlgorithm,
    /// Length of the salt in bytes.
    pub salt_length: u32,
}

/// How to sign.
#[derive(Clone, Copy, Debug, PartialEq, Eq, Structural)]
pub enum SignatureMechanism {
    RsaPkcs1(DigestAlgorithm),
    RsaPss(PssParams),
    Ecdsa(DigestAlgorithm),
    Eddsa,
    RsaRaw,
    /// A mechanism that the bridge does not know.
    Other,
}

/// How to decrypt. The parameters of OAEP are not handed on to the token.
#[derive(Clone, Copy, Debug, PartialEq, Eq, Structural)]
pub enum CipherMechanism {
    RsaPkcs1,
    RsaOaep,
    RsaRaw,
}

/// A mechanism as the token takes it. It never carries a parameter.
#[derive(Clone, Copy, Debug, PartialEq, Eq, Structural)]
pub struct Mechanism {
    /// The `CKM_*` number.
    pub kind: u64,
}

/// The `CKM_*` number of a signature mechanism, or why there is none.
pub open spec fn signature_ckm(m: SignatureMechanism) -> Result<u64, BackendErrorView> {
    match m {
        SignatureMechanism::RsaPkcs1(DigestAlgorithm::Sha256) => Ok(ck::CKM_SHA256_RSA_PKCS),
        SignatureMechanism::RsaPkcs1(DigestAlgorithm::Sha384) => Ok(ck::CKM_SHA384_RSA_PKCS),
        SignatureMechanism::RsaPkcs1(DigestAlgorithm::Sha512) => Ok(ck::CKM_SHA512_RSA_PKCS),
        SignatureMechanism::RsaPkcs1(DigestAlgorithm::Raw) => Ok(ck::CKM_RSA_PKCS),
        SignatureMechanism::RsaPss(p) => match p.digest {
            DigestAlgorithm::Sha256 => Ok(ck::CKM_SHA256_RSA_PKCS_PSS),
            DigestAlgorithm::Sha384 => Ok(ck::CKM_SHA384_RSA_PKCS_PSS),
            DigestAlgorithm::Sha512 => Ok(ck::CKM_SHA512_RSA_PKCS_PSS),
            _ => Err(not_supported("pkcs11-bridge: RSA-PSS only supports SHA-256/384/512"@)),
        },
        SignatureMechanism::Ecdsa(DigestAlgorithm::Sha256) => Ok(ck::CKM_ECDSA_SHA256),
        SignatureMechanism::Ecdsa(DigestAlgorithm::Sha384) => Ok(ck::CKM_ECDSA_SHA384),
        SignatureMechanism::Ecdsa(DigestAlgorithm::Sha512) => Ok(ck::CKM_ECDSA_SHA512),
        SignatureMechanism::Ecdsa(DigestAlgorithm::Raw) => Ok(ck::CKM_ECDSA),
        SignatureMechanism::Eddsa => Ok(ck::CKM_EDDSA),
        SignatureMechanism::RsaRaw => Ok(ck::CKM_RSA_X_509),
        _ => Err(not_supported("pkcs11-bridge: digest/mech pair not mapped to a CKM_*"@)),
    }
}

/// The `CKM_*` number of a cipher mechanism.
pub open spec fn cipher_ckm(m: CipherMechanism) -> u64 {
    match m {
        CipherMechanism::RsaPkcs1 => ck::CKM_RSA_PKCS,
        CipherMechanism::RsaOaep => ck::CKM_RSA_PKCS_OAEP,
        CipherMechanism::RsaRaw => ck::CKM_RSA_X_509,
    }
}

/// Looks a signature mechanism up.
pub fn map_signature_mech(m: &SignatureMechanism) -> (r: Result<u64, BackendError>)
    ensures
        match r {
            Ok(ckm) => signature_ckm(*m) == Ok::<u64, BackendErrorView>(ckm),
            Err(e) => signature_ckm(*m) == Err::<u64, BackendErrorView>(e@),
        },
{
    match *m {
        SignatureMechanism::RsaPkcs1(DigestAlgorithm::Sha256) => Ok(ck::CKM_SHA256_RSA_PKCS),
        SignatureMechanism::RsaPkcs1(DigestAlgorithm::Sha384) => Ok(ck::CKM_SHA384_RSA_PKCS),
        SignatureMechanism::RsaPkcs1(DigestAlgorithm::Sha512) => Ok(ck::CKM_SHA512_RSA_PKCS),
        SignatureMechanism::RsaPkcs1(DigestAlgorithm::Raw) => Ok(ck::CKM_RSA_PKCS),
        SignatureMechanism::RsaPss(p) => match p.digest {
            DigestAlgorithm::Sha256 => Ok(ck::CKM_SHA256_RSA_PKCS_PSS),
            DigestAlgorithm::Sha384 => Ok(ck::CKM_SHA384_RSA_PKCS_PSS),
            DigestAlgorithm::Sha512 => Ok(ck::CKM_SHA512_RSA_PKCS_PSS),
            _ => Err(
                BackendError::MechanismNotSupported(
                    "pkcs11-bridge: RSA-PSS only supports SHA-256/384/512".to_owned(),
                ),
            ),
        },
        SignatureMechanism::Ecdsa(DigestAlgorithm::Sha256) => Ok(ck::CKM_ECDSA_SHA256),
        SignatureMechanism::Ecdsa(DigestAlgorithm::Sha384) => Ok(ck::CKM_ECDSA_SHA384),
        SignatureMechanism::Ecdsa(DigestAlgorithm::Sha512) => Ok(ck::CKM_ECDSA_SHA512),
        SignatureMechanism::Ecdsa(DigestAlgorithm::Raw) => Ok(ck::CKM_ECDSA),
        SignatureMechanism::Eddsa => Ok(ck::CKM_EDDSA),
        SignatureMechanism::RsaRaw => Ok(ck::CKM_RSA_X_509),
        _ => Err(
            BackendError::MechanismNotSupported(
                "pkcs11-bridge: digest/mech pair not mapped to a CKM_*".to_owned(),
            ),
        ),
    }
}

/// Looks a cipher mechanism up. Every one has a number.
pub fn map_cipher_mech(m: &CipherMechanism) -> (r: Result<u64, BackendError>)
    ensures
        r == Ok::<u64, BackendError>(cipher_ckm(*m)),
{
    match *m {
        CipherMechanism::RsaPkcs1 => Ok(ck::CKM_RSA_PKCS),
        CipherMechanism::RsaOaep => Ok(ck::CKM_RSA_PKCS_OAEP),
        CipherMechanism::RsaRaw => Ok(ck::CKM_RSA_X_509),
    }
}

// ---------------------------------------------------------------------------
// Laws
// ---------------------------------------------------------------------------

/// Two mechanisms have the same number only if they are the same, but for
/// the mask digest and the salt length of RSA-PSS, which no number shows.
pub proof fn law_signature_numbers_differ(a: SignatureMechanism, b: SignatureMechanism)
    requires
        signature_ckm(a) is Ok,
        signature_ckm(a) == signature_ckm(b),
    ensures
        match (a, b) {
            (SignatureMechanism::RsaPss(p), SignatureMechanism::RsaPss(q)) => p.digest == q.digest,
            _ => a == b,
        },
{
}

/// A mechanism is refused if and only if the bridge does not know it or its
/// digest, or it is RSA-PSS over a message that the caller hashed already.
pub proof fn law_signature_refused_iff(m: SignatureMechanism)
    ensures
        signature_ckm(m) is Err <==> match m {
            SignatureMechanism::RsaPkcs1(d) => d == DigestAlgorithm::Other,
            SignatureMechanism::Ecdsa(d) => d == DigestAlgorithm::Other,
            SignatureMechanism::RsaPss(p) => p.digest == DigestAlgorithm::Raw || p.digest
                == DigestAlgorithm::Other,
            SignatureMechanism::Eddsa => false,
            SignatureMechanism::RsaRaw => false,
            SignatureMechanism::Other => true,
        },
        signature_ckm(m) matches Err(e) ==> e.kind
            == crate::error::ErrorKind::MechanismNotSupported,
{
}

/// The numbers of the standard for the mechanisms of signing: RSA PKCS#1 and
/// ECDSA over each digest and over what the caller hashed, RSA-PSS by the digest
/// of the message whatever the mask digest and the salt, EdDSA and raw RSA.
pub proof fn law_signature_numbers(pss: PssParams)
    ensures
        signature_ckm(SignatureMechanism::RsaPkcs1(DigestAlgorithm::Sha256)) == Ok::<
            u64,
            BackendErrorView,
        >(0x40),
        signature_ckm(SignatureMechanism::RsaPkcs1(DigestAlgorithm::Sha384)) == Ok::<
            u64,
            BackendErrorView,
        >(0x41),
        signature_ckm(SignatureMechanism::RsaPkcs1(DigestAlgorithm::Sha512)) == Ok::<
            u64,
            BackendErrorView,
        >(0x42),
        signature_ckm(SignatureMechanism::RsaPkcs1(DigestAlgorithm::Raw)) == Ok::<
            u64,
            BackendErrorView,
        >(0x01),
        signature_ckm(SignatureMechanism::RsaPss(pss)) == match pss.digest {
            DigestAlgorithm::Sha256 => Ok::<u64, BackendErrorView>(0x43),
            DigestAlgorithm::Sha384 => Ok(0x44),
            DigestAlgorithm::Sha512 => Ok(0x45),
            _ => Err(not_supported("pkcs11-bridge: RSA-PSS only supports SHA-256/384/512"@)),
        },
        signature_ckm(SignatureMechanism::Ecdsa(DigestAlgorithm::Sha256)) == Ok::<
            u64,
            BackendErrorView,
        >(0x1044),
        signature_ckm(SignatureMechanism::Ecdsa(DigestAlgorithm::Sha384)) == Ok::<
            u64,
            BackendErrorView,
        >(0x1045),
        signature_ckm(SignatureMechanism::Ecdsa(DigestAlgorithm::Sha512)) == Ok::<
            u64,
            BackendErrorView,
        >(0x1046),
        signature_ckm(SignatureMechanism::Ecdsa(DigestAlgorithm::Raw)) == Ok::<
            u64,
            BackendErrorView,
        >(0x1041),
        signature_ckm(SignatureMechanism::Eddsa) == Ok::<u64, BackendErrorView>(0x1057),
        signature_ckm(SignatureMechanism::RsaRaw) == Ok::<u64, BackendErrorView>(0x03),
{
}

/// A mechanism that has no number is refused with one message, but for RSA-PSS,
/// which has its own.
pub proof fn law_refusals_say_why(m: SignatureMechanism)
    ensures
        signature_ckm(m) matches Err(e) ==> e == not_supported(
            if m is RsaPss {
                "pkcs11-bridge: RSA-PSS only supports SHA-256/384/512"@
            } else {
                "pkcs11-bridge: digest/mech pair not mapped to a CKM_*"@
            },
        ),
{
}

/// The numbers of the standard for the mechanisms of decrypting. No two share
/// one.
pub proof fn law_cipher_numbers(a: CipherMechanism, b: CipherMechanism)
    ensures
        a == CipherMechanism::RsaPkcs1 ==> cipher_ckm(a) == 0x01,
        a == CipherMechanism::RsaOaep ==> cipher_ckm(a) == 0x09,
        a == CipherMechanism::RsaRaw ==> cipher_ckm(a) == 0x03,
        cipher_ckm(a) == cipher_ckm(b) <==> a == b,
{
}

} // verus!
