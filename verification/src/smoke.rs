//! The end-to-end check: sign with a key on a token, and verify the signature
//! with OpenSSL under the public key that the bridge returns.
use crate::key::{KeyAlgorithm, KeyAlgorithmView};
use crate::mech::{DigestAlgorithm, SignatureMechanism};
use openssl::error::ErrorStack;
use openssl::hash::MessageDigest;
use openssl::pkey::PKey;
use openssl::sign::Verifier;
use vstd::prelude::*;
use vstd::string::*;

verus! {

/// The errors that OpenSSL reports.
#[verifier::external_type_specification]
#[verifier::external_body]
pub struct ExErrorStack(ErrorStack);

/// What the check runs on.
#[derive(Debug)]
pub struct SmokeArgs {
    /// File of the composed component.
    pub component: String,
    /// File of the token's configuration.
    pub conf: String,
    /// URI of the key.
    pub uri: String,
}

/// The argument at `i`, or `default` where there are fewer.
pub open spec fn arg_or(args: Seq<String>, i: int, default: Seq<char>) -> Seq<char> {
    if i < args.len() {
        args[i]@
    } else {
        default
    }
}

/// The argument at `i`, or `default` where there are fewer.
fn take_arg(args: &Vec<String>, i: usize, default: &str) -> (r: String)
    ensures
        r@ == arg_or(args@, i as int, default@),
{
    if i < args.len() {
        args[i].clone()
    } else {
        default.to_owned()
    }
}

impl SmokeArgs {
    /// Reads the command line behind the program's name: component,
    /// configuration and URI, each with a default.
    pub fn from_args(args: &Vec<String>) -> (r: SmokeArgs)
        ensures
            r.component@ == arg_or(args@, 0, "/tmp/full-pkcs11-stack.wasm"@),
            r.conf@ == arg_or(args@, 1, "harness/softhsm2-wasi.conf"@),
            r.uri@ == arg_or(args@, 2, "pkcs11:slot-id=0;object=demo-rsa;pin-value=1234"@),
    {
        SmokeArgs {
            component: take_arg(args, 0, "/tmp/full-pkcs11-stack.wasm"),
            conf: take_arg(args, 1, "harness/softhsm2-wasi.conf"),
            uri: take_arg(args, 2, "pkcs11:slot-id=0;object=demo-rsa;pin-value=1234"),
        }
    }
}

/// How a key of this algorithm signs for the check: over SHA-256.
pub open spec fn smoke_mech(algorithm: KeyAlgorithmView) -> Option<SignatureMechanism> {
    match algorithm {
        KeyAlgorithmView::Ec { .. } => Some(SignatureMechanism::Ecdsa(DigestAlgorithm::Sha256)),
        KeyAlgorithmView::Rsa { .. } => Some(SignatureMechanism::RsaPkcs1(DigestAlgorithm::Sha256)),
        KeyAlgorithmView::Other => None,
    }
}

/// How a key of this algorithm signs for the check, if it takes part.
pub fn smoke_mechanism(algorithm: &KeyAlgorithm) -> (r: Option<SignatureMechanism>)
    ensures
        r == smoke_mech(algorithm@),
{
    match algorithm {
        KeyAlgorithm::Ec(_) => Some(SignatureMechanism::Ecdsa(DigestAlgorithm::Sha256)),
        KeyAlgorithm::Rsa(_) => Some(SignatureMechanism::RsaPkcs1(DigestAlgorithm::Sha256)),
        KeyAlgorithm::Other => None,
    }
}

/// At which point OpenSSL failed, and with what errors.
#[derive(Debug)]
pub enum OpensslFailure {
    /// It could not read the public key.
    SpkiParse(ErrorStack),
    /// It could not verify with this kind of key.
    Verifier(ErrorStack),
    /// It could not take the message in.
    Update(ErrorStack),
    /// It could not come to a verdict.
    Verify(ErrorStack),
}

/// Why the check failed.
#[derive(Debug)]
pub enum SmokeError {
    /// OpenSSL could not do its part.
    Openssl(OpensslFailure),
    /// The signature is not good under the public key.
    NotVerified,
}

/// A digest of a message that OpenSSL verifies a signature over.
#[derive(Clone, Copy, Debug, PartialEq, Eq, Structural)]
pub enum MessageHash {
    Sha256,
    Sha384,
    Sha512,
}

/// OpenSSL finds `signature` good over the digest `hash` of `message` under
/// the public key in the SubjectPublicKeyInfo `spki`.
pub uninterp spec fn openssl_verifies(
    hash: MessageHash,
    spki: Seq<u8>,
    message: Seq<u8>,
    signature: Seq<u8>,
) -> bool;

/// Reads `spki` with `PKey::public_key_from_der`, makes a verifier of it with
/// `Verifier::new` for the digest `hash`, which is `MessageDigest::sha256`,
/// `sha384` or `sha512`, feeds `message` to it with `Verifier::update` and asks
/// for the verdict on `signature` with `Verifier::verify`. The verdict, where
/// there is one, depends on these four alone. Which call fails on which of them
/// is not said: that rests on how OpenSSL was built and set up too.
#[verifier::external_body]
fn openssl_verify(hash: MessageHash, spki: &[u8], message: &[u8], signature: &[u8]) -> (r: Result<
    bool,
    OpensslFailure,
>)
    ensures
        r matches Ok(good) ==> good == openssl_verifies(hash, spki@, message@, signature@),
{
    let digest = match hash {
        MessageHash::Sha256 => MessageDigest::sha256(),
        MessageHash::Sha384 => MessageDigest::sha384(),
        MessageHash::Sha512 => MessageDigest::sha512(),
    };
    let key = PKey::public_key_from_der(spki).map_err(OpensslFailure::SpkiParse)?;
    let mut verifier = Verifier::new(digest, &key).map_err(OpensslFailure::Verifier)?;
    verifier.update(message).map_err(OpensslFailure::Update)?;
    verifier.verify(signature).map_err(OpensslFailure::Verify)
}

/// What the verdict means for the check.
pub fn judge(verdict: Result<bool, OpensslFailure>) -> (r: Result<(), SmokeError>)
    ensures
        match verdict {
            Ok(good) => r == (if good {
                Ok::<(), SmokeError>(())
            } else {
                Err(SmokeError::NotVerified)
            }),
            Err(failure) => r == Err::<(), SmokeError>(SmokeError::Openssl(failure)),
        },
{
    match verdict {
        Ok(true) => Ok(()),
        Ok(false) => Err(SmokeError::NotVerified),
        Err(failure) => Err(SmokeError::Openssl(failure)),
    }
}

/// Checks `signature` over the SHA-256 digest of `message` under the public key
/// in `spki`.
pub fn check_signature(spki: &[u8], message: &[u8], signature: &[u8]) -> (r: Result<(), SmokeError>)
    ensures
        r is Ok ==> openssl_verifies(MessageHash::Sha256, spki@, message@, signature@),
        r == Err::<(), SmokeError>(SmokeError::NotVerified) ==> !openssl_verifies(
            MessageHash::Sha256,
            spki@,
            message@,
            signature@,
        ),
{
    judge(openssl_verify(MessageHash::Sha256, spki, message, signature))
}

// ---------------------------------------------------------------------------
// Laws
// ---------------------------------------------------------------------------

/// The mechanism that the check picks is one that the bridge signs with.
pub proof fn law_smoke_mechanism_is_supported(algorithm: KeyAlgorithmView)
    ensures
        smoke_mech(algorithm) matches Some(mech) ==> crate::mech::signature_ckm(mech) is Ok,
        smoke_mech(algorithm) is None <==> algorithm is Other,
{
}

/// A key signs for the check with the mechanism of its own kind, over SHA-256.
pub proof fn law_smoke_mechanism_fits(curve: Seq<char>, modulus_bits: u32)
    ensures
        smoke_mech(KeyAlgorithmView::Ec { curve }) == Some(
            SignatureMechanism::Ecdsa(DigestAlgorithm::Sha256),
        ),
        smoke_mech(KeyAlgorithmView::Rsa { modulus_bits }) == Some(
            SignatureMechanism::RsaPkcs1(DigestAlgorithm::Sha256),
        ),
        smoke_mech(KeyAlgorithmView::Other) is None,
{
}

/// An argument that is given counts as it is, and only a missing one has its
/// default.
pub proof fn law_given_arguments_count(args: Seq<String>, i: int, default: Seq<char>)
    requires
        0 <= i,
    ensures
        i < args.len() ==> arg_or(args, i, default) == args[i]@,
        i >= args.len() ==> arg_or(args, i, default) == default,
{
}

} // verus!
