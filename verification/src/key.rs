//! A key on a token: what it is, and how it signs, verifies and decrypts.
use crate::ck;
use crate::error::{
    backend_error, ck_error_to_backend, internal, not_supported, BackendError, BackendErrorView,
};
use crate::host::{
    attrs_view, Attribute, AttributeValue, AttributeValueView, AttributeView, HostCall,
    HostCallView, HostReply, HostReplyView, KeyHalf, Step, StepView,
};
use crate::mech::{
    cipher_ckm, map_cipher_mech, map_signature_mech, signature_ckm, CipherMechanism, Mechanism,
    SignatureMechanism,
};
use crate::object::{find_object, find_object_step, find_start, find_step, FindState};
use crate::spki::{ec_spki_of, ecdsa_der, ecdsa_raw_to_der, is_raw_ecdsa, rsa_spki};
use crate::text::{contains_text, join, occurs};
use crate::uri::{Pkcs11Uri, Pkcs11UriView};
use vstd::prelude::*;
use vstd::string::*;

verus! {

/// An EC key.
#[derive(Debug)]
pub struct EcInfo {
    /// Name of the curve.
    pub curve: String,
}

/// An RSA key.
#[derive(Debug)]
pub struct RsaInfo {
    /// Size of the modulus.
    pub modulus_bits: u32,
}

/// What kind of key it is.
#[derive(Debug)]
pub enum KeyAlgorithm {
    Ec(EcInfo),
    Rsa(RsaInfo),
    /// A kind that the bridge does not handle.
    Other,
}

/// A [`KeyAlgorithm`] as mathematical values.
#[verifier::ext_equal]
pub enum KeyAlgorithmView {
    Ec { curve: Seq<char> },
    Rsa { modulus_bits: u32 },
    Other,
}

impl View for KeyAlgorithm {
    type V = KeyAlgorithmView;

    open spec fn view(&self) -> KeyAlgorithmView {
        match self {
            KeyAlgorithm::Ec(info) => KeyAlgorithmView::Ec { curve: info.curve@ },
            KeyAlgorithm::Rsa(info) => KeyAlgorithmView::Rsa { modulus_bits: info.modulus_bits },
            KeyAlgorithm::Other => KeyAlgorithmView::Other,
        }
    }
}

impl KeyAlgorithm {
    /// The same algorithm once more.
    pub fn duplicate(&self) -> (r: KeyAlgorithm)
        ensures
            r@ == self@,
    {
        match self {
            KeyAlgorithm::Ec(info) => KeyAlgorithm::Ec(EcInfo { curve: info.curve.clone() }),
            KeyAlgorithm::Rsa(info) => KeyAlgorithm::Rsa(
                RsaInfo { modulus_bits: info.modulus_bits },
            ),
            KeyAlgorithm::Other => KeyAlgorithm::Other,
        }
    }
}

/// In which form a token wants what it signs.
#[derive(Clone, Copy, Debug, PartialEq, Eq, Structural)]
pub enum SignatureWrappingPolicy {
    /// As it is: the mechanism tells the token how to hash and pad.
    Raw,
}

/// A key that was found on a token, and what is known of it so far.
#[derive(Debug)]
pub struct Key {
    /// The URI that names it.
    pub uri: Pkcs11Uri,
    /// Its algorithm, once it was asked for.
    pub algorithm: Option<KeyAlgorithm>,
    /// Its SubjectPublicKeyInfo, once it was asked for.
    pub spki_cache: Option<Vec<u8>>,
}

/// A [`Key`] as mathematical values.
#[verifier::ext_equal]
pub struct KeyView {
    pub uri: Pkcs11UriView,
    pub algorithm: Option<KeyAlgorithmView>,
    pub spki_cache: Option<Seq<u8>>,
}

impl View for Key {
    type V = KeyView;

    open spec fn view(&self) -> KeyView {
        KeyView {
            uri: self.uri@,
            algorithm: match self.algorithm {
                Some(a) => Some(a@),
                None => None,
            },
            spki_cache: crate::uri::opt_bytes(self.spki_cache),
        }
    }
}

// ---------------------------------------------------------------------------
// Reading attributes
// ---------------------------------------------------------------------------

/// The key type among `attrs`: the first value that is one, and a number that
/// is none if there is none.
pub open spec fn key_type_in(attrs: Seq<AttributeView>) -> u32
    decreases attrs.len(),
{
    if attrs.len() == 0 {
        u32::MAX
    } else {
        match attrs[0].value {
            AttributeValueView::KeyKind(k) => k,
            AttributeValueView::Uint32(k) => k,
            _ => key_type_in(attrs.drop_first()),
        }
    }
}

/// The size in bits of `len` bytes, in the 32 bits that such a size has.
pub open spec fn bits_of(len: nat) -> u32 {
    (len * 8 % 0x1_0000_0000) as u32
}

/// The size of the modulus among `attrs`: that of the first byte string, and
/// 2048 where the token shows none.
pub open spec fn modulus_bits_in(attrs: Seq<AttributeView>) -> u32
    decreases attrs.len(),
{
    if attrs.len() == 0 {
        2048
    } else {
        match attrs[0].value {
            AttributeValueView::ByteString(b) => bits_of(b.len()),
            _ => modulus_bits_in(attrs.drop_first()),
        }
    }
}

/// The bytes of the attribute `tag` among `attrs`; of several the last.
pub open spec fn bytes_in(attrs: Seq<AttributeView>, tag: u32) -> Option<Seq<u8>>
    decreases attrs.len(),
{
    if attrs.len() == 0 {
        None
    } else {
        match attrs.last().value {
            AttributeValueView::ByteString(b) => if attrs.last().tag == tag {
                Some(b)
            } else {
                bytes_in(attrs.drop_last(), tag)
            },
            _ => bytes_in(attrs.drop_last(), tag),
        }
    }
}

/// The key type among `attrs`.
fn key_type_of(attrs: &Vec<Attribute>) -> (k: u32)
    ensures
        k == key_type_in(attrs_view(attrs@)),
{
    let mut i: usize = 0;
    let ghost all = attrs_view(attrs@);
    assert(all.skip(0) =~= all);
    while i < attrs.len()
        invariant
            i <= attrs@.len(),
            all == attrs_view(attrs@),
            key_type_in(all) == key_type_in(all.skip(i as int)),
        decreases attrs@.len() - i,
    {
        assert(all.skip(i as int)[0] == attrs@[i as int]@);
        assert(all.skip(i as int).drop_first() =~= all.skip(i + 1));
        match &attrs[i].value {
            AttributeValue::KeyKind(k) => {
                return *k;
            },
            AttributeValue::Uint32(k) => {
                return *k;
            },
            _ => {},
        }
        i += 1;
    }
    u32::MAX
}

/// The size of the modulus among `attrs`.
fn modulus_bits_of(attrs: &Vec<Attribute>) -> (bits: u32)
    ensures
        bits == modulus_bits_in(attrs_view(attrs@)),
{
    let mut i: usize = 0;
    let ghost all = attrs_view(attrs@);
    assert(all.skip(0) =~= all);
    while i < attrs.len()
        invariant
            i <= attrs@.len(),
            all == attrs_view(attrs@),
            modulus_bits_in(all) == modulus_bits_in(all.skip(i as int)),
        decreases attrs@.len() - i,
    {
        assert(all.skip(i as int)[0] == attrs@[i as int]@);
        assert(all.skip(i as int).drop_first() =~= all.skip(i + 1));
        if let AttributeValue::ByteString(b) = &attrs[i].value {
            let len: u64 = (b.len() as u64) % 0x2000_0000;
            return (len * 8) as u32;
        }
        i += 1;
    }
    2048
}

/// The bytes of the attribute `tag` among `attrs`.
fn bytes_of(attrs: &Vec<Attribute>, tag: u32) -> (r: Option<Vec<u8>>)
    ensures
        crate::uri::opt_bytes(r) == bytes_in(attrs_view(attrs@), tag),
{
    let mut i: usize = attrs.len();
    let ghost all = attrs_view(attrs@);
    assert(all.take(all.len() as int) =~= all);
    while i > 0
        invariant
            i <= attrs@.len(),
            all == attrs_view(attrs@),
            bytes_in(all, tag) == bytes_in(all.take(i as int), tag),
        decreases i,
    {
        assert(all.take(i as int).last() == attrs@[i - 1]@);
        assert(all.take(i as int).drop_last() =~= all.take(i - 1));
        if attrs[i - 1].tag == tag {
            if let AttributeValue::ByteString(b) = &attrs[i - 1].value {
                return Some(vstd::slice::slice_to_vec(b.as_slice()));
            }
        }
        i -= 1;
    }
    None
}

// ---------------------------------------------------------------------------
// Algorithm
// ---------------------------------------------------------------------------

/// Which reply is awaited while the algorithm is being asked for.
#[derive(Clone, Copy, Debug, PartialEq, Eq, Structural)]
pub enum AlgorithmState {
    /// The key type.
    KeyType,
    /// The modulus.
    Modulus,
}

/// What comes next while the algorithm is being asked for.
#[derive(Debug)]
pub enum AlgorithmStep {
    Call(AlgorithmState, HostCall),
    Done(KeyAlgorithm),
}

/// An [`AlgorithmStep`] as mathematical values.
#[verifier::ext_equal]
pub enum AlgorithmStepView {
    Call(AlgorithmState, HostCallView),
    Done(KeyAlgorithmView),
}

impl View for AlgorithmStep {
    type V = AlgorithmStepView;

    open spec fn view(&self) -> AlgorithmStepView {
        match self {
            AlgorithmStep::Call(s, c) => AlgorithmStepView::Call(*s, c@),
            AlgorithmStep::Done(a) => AlgorithmStepView::Done(a@),
        }
    }
}

/// The call that reads attributes of a half of the key pair.
pub open spec fn read_call(half: KeyHalf, tags: Seq<u32>) -> HostCallView {
    HostCallView::GetAttributes { half, tags }
}

/// How asking for the algorithm starts: with what is known, else with the key
/// type.
pub open spec fn algorithm_start(key: KeyView) -> AlgorithmStepView {
    match key.algorithm {
        Some(a) => AlgorithmStepView::Done(a),
        None => AlgorithmStepView::Call(
            AlgorithmState::KeyType,
            read_call(KeyHalf::Private, seq![ck::CKA_KEY_TYPE]),
        ),
    }
}

/// What comes after a reply. An RSA key is asked for its modulus; any other
/// key counts as EC on P-256. A call that fails counts as one that gives no
/// attributes.
pub open spec fn algorithm_step(state: AlgorithmState, reply: HostReplyView) -> AlgorithmStepView {
    match state {
        AlgorithmState::KeyType => if key_type_in(reply.attributes()) == ck::CKK_RSA {
            AlgorithmStepView::Call(
                AlgorithmState::Modulus,
                read_call(KeyHalf::Private, seq![ck::CKA_MODULUS]),
            )
        } else {
            AlgorithmStepView::Done(KeyAlgorithmView::Ec { curve: "P-256"@ })
        },
        AlgorithmState::Modulus => AlgorithmStepView::Done(
            KeyAlgorithmView::Rsa { modulus_bits: modulus_bits_in(reply.attributes()) },
        ),
    }
}

/// The key after a step: an algorithm that was found out is kept.
pub open spec fn after_algorithm(key: KeyView, step: AlgorithmStepView) -> KeyView {
    match step {
        AlgorithmStepView::Done(a) => KeyView { algorithm: Some(a), ..key },
        AlgorithmStepView::Call(_, _) => key,
    }
}

/// The attributes in a reply.
fn attributes_of(reply: HostReply) -> (attrs: Vec<Attribute>)
    ensures
        attrs_view(attrs@) == reply@.attributes(),
{
    match reply {
        HostReply::Attributes(attrs) => attrs,
        _ => {
            let none: Vec<Attribute> = Vec::new();
            assert(attrs_view(none@) =~= Seq::<AttributeView>::empty());
            none
        },
    }
}

/// The call that reads one attribute.
fn read_one(half: KeyHalf, tag: u32) -> (call: HostCall)
    ensures
        call@ == read_call(half, seq![tag]),
{
    let tags: Vec<u32> = vec![tag];
    assert(tags@ =~= seq![tag]);
    HostCall::GetAttributes { half, tags }
}

/// The call that reads two attributes.
fn read_two(half: KeyHalf, tag1: u32, tag2: u32) -> (call: HostCall)
    ensures
        call@ == read_call(half, seq![tag1, tag2]),
{
    let tags: Vec<u32> = vec![tag1, tag2];
    assert(tags@ =~= seq![tag1, tag2]);
    HostCall::GetAttributes { half, tags }
}

impl Key {
    /// Starts to ask for the algorithm.
    pub fn algorithm(&self) -> (r: AlgorithmStep)
        ensures
            r@ == algorithm_start(self@),
    {
        match &self.algorithm {
            Some(a) => AlgorithmStep::Done(a.duplicate()),
            None => AlgorithmStep::Call(
                AlgorithmState::KeyType,
                read_one(KeyHalf::Private, ck::CKA_KEY_TYPE),
            ),
        }
    }

    /// Decides what comes after a reply while the algorithm is being asked for.
    pub fn algorithm_step(&mut self, state: AlgorithmState, reply: HostReply) -> (r: AlgorithmStep)
        ensures
            r@ == algorithm_step(state, reply@),
            final(self)@ == after_algorithm(old(self)@, r@),
    {
        let attrs: Vec<Attribute> = attributes_of(reply);
        let algorithm: KeyAlgorithm = match state {
            AlgorithmState::KeyType => {
                if key_type_of(&attrs) == ck::CKK_RSA {
                    return AlgorithmStep::Call(
                        AlgorithmState::Modulus,
                        read_one(KeyHalf::Private, ck::CKA_MODULUS),
                    );
                }
                KeyAlgorithm::Ec(EcInfo { curve: "P-256".to_owned() })
            },
            AlgorithmState::Modulus => KeyAlgorithm::Rsa(
                RsaInfo { modulus_bits: modulus_bits_of(&attrs) },
            ),
        };
        self.algorithm = Some(algorithm.duplicate());
        AlgorithmStep::Done(algorithm)
    }
}

// ---------------------------------------------------------------------------
// Public key
// ---------------------------------------------------------------------------

/// The SubjectPublicKeyInfo of an EC key from its attribute values.
pub fn build_ec_spki(ec_params_der: &[u8], ec_point_der: &[u8]) -> (r: Result<
    Vec<u8>,
    BackendError,
>)
    ensures
        match (r, ec_spki_of(ec_params_der@, ec_point_der@)) {
            (Ok(spki), Ok(expected)) => spki@ == expected,
            (Err(e), Err(text)) => e@ == internal("EC SPKI: "@ + text),
            _ => false,
        },
{
    match crate::spki::build_ec_spki(ec_params_der, ec_point_der) {
        Ok(spki) => Ok(spki),
        Err(e) => Err(BackendError::Internal(join("EC SPKI: ", e))),
    }
}

/// The SubjectPublicKeyInfo of an RSA key from its attribute values. There is
/// always one.
pub fn build_rsa_spki(modulus: &[u8], public_exponent: &[u8]) -> (r: Result<Vec<u8>, BackendError>)
    ensures
        r is Ok,
        r->Ok_0@ == rsa_spki(modulus@, public_exponent@),
{
    Ok(crate::spki::build_rsa_spki(modulus, public_exponent))
}

/// Which reply is awaited while the public key is being asked for.
#[derive(Clone, Copy, Debug, PartialEq, Eq, Structural)]
pub enum InfoState {
    /// One of the search for the public half.
    Finding(FindState),
    /// One about the algorithm.
    Algorithm(AlgorithmState),
    /// Parameters and point of an EC key.
    ReadingEc,
    /// Modulus and exponent of an RSA key.
    ReadingRsa,
}

/// What comes next while the public key is being asked for.
#[derive(Debug)]
pub enum InfoStep {
    Call(InfoState, HostCall),
    /// The SubjectPublicKeyInfo.
    Done(Vec<u8>),
    Fail(BackendError),
}

/// An [`InfoStep`] as mathematical values.
#[verifier::ext_equal]
pub enum InfoStepView {
    Call(InfoState, HostCallView),
    Done(Seq<u8>),
    Fail(BackendErrorView),
}

impl View for InfoStep {
    type V = InfoStepView;

    open spec fn view(&self) -> InfoStepView {
        match self {
            InfoStep::Call(s, c) => InfoStepView::Call(*s, c@),
            InfoStep::Done(spki) => InfoStepView::Done(spki@),
            InfoStep::Fail(e) => InfoStepView::Fail(e@),
        }
    }
}

/// A step of the search for the public half, as one of the whole. A public
/// half that was found leads on to `found`.
pub open spec fn info_find(step: StepView<FindState>, found: InfoStepView) -> InfoStepView {
    match step {
        StepView::Call(s, c) => InfoStepView::Call(InfoState::Finding(s), c),
        StepView::Done => found,
        StepView::Fail(e) => InfoStepView::Fail(e),
    }
}

/// Reading the attributes that make up a public key of this algorithm.
pub open spec fn info_read(algorithm: KeyAlgorithmView) -> InfoStepView {
    match algorithm {
        KeyAlgorithmView::Ec { .. } => InfoStepView::Call(
            InfoState::ReadingEc,
            read_call(KeyHalf::Public, seq![ck::CKA_EC_PARAMS, ck::CKA_EC_POINT]),
        ),
        KeyAlgorithmView::Rsa { .. } => InfoStepView::Call(
            InfoState::ReadingRsa,
            read_call(KeyHalf::Public, seq![ck::CKA_MODULUS, ck::CKA_PUBLIC_EXPONENT]),
        ),
        KeyAlgorithmView::Other => InfoStepView::Fail(
            not_supported("pkcs11-bridge: only RSA and EC public_key_info implemented"@),
        ),
    }
}

/// A step about the algorithm, as one of the whole.
pub open spec fn info_algorithm(step: AlgorithmStepView) -> InfoStepView {
    match step {
        AlgorithmStepView::Call(s, c) => InfoStepView::Call(InfoState::Algorithm(s), c),
        AlgorithmStepView::Done(a) => info_read(a),
    }
}

/// The public key in the attributes of an EC key.
pub open spec fn info_ec(attrs: Seq<AttributeView>) -> InfoStepView {
    match (bytes_in(attrs, ck::CKA_EC_PARAMS), bytes_in(attrs, ck::CKA_EC_POINT)) {
        (None, _) => InfoStepView::Fail(internal("EC public key missing CKA_EC_PARAMS"@)),
        (_, None) => InfoStepView::Fail(internal("EC public key missing CKA_EC_POINT"@)),
        (Some(params), Some(point)) => match ec_spki_of(params, point) {
            Ok(spki) => InfoStepView::Done(spki),
            Err(e) => InfoStepView::Fail(internal("EC SPKI: "@ + e)),
        },
    }
}

/// The public key in the attributes of an RSA key.
pub open spec fn info_rsa(attrs: Seq<AttributeView>) -> InfoStepView {
    match (bytes_in(attrs, ck::CKA_MODULUS), bytes_in(attrs, ck::CKA_PUBLIC_EXPONENT)) {
        (None, _) => InfoStepView::Fail(internal("RSA public key missing CKA_MODULUS"@)),
        (_, None) => InfoStepView::Fail(internal("RSA public key missing CKA_PUBLIC_EXPONENT"@)),
        (Some(modulus), Some(exponent)) => InfoStepView::Done(rsa_spki(modulus, exponent)),
    }
}

/// How asking for the public key starts: with what is known, else with the
/// search for the public half.
pub open spec fn info_start(key: KeyView) -> InfoStepView {
    match key.spki_cache {
        Some(spki) => InfoStepView::Done(spki),
        None => info_find(
            find_start(key.uri, KeyHalf::Public),
            info_algorithm(algorithm_start(key)),
        ),
    }
}

/// What comes after a reply.
pub open spec fn info_step(key: KeyView, state: InfoState, reply: HostReplyView) -> InfoStepView {
    match state {
        InfoState::Finding(s) => info_find(
            find_step(key.uri, KeyHalf::Public, s, reply),
            info_algorithm(algorithm_start(key)),
        ),
        InfoState::Algorithm(s) => info_algorithm(algorithm_step(s, reply)),
        InfoState::ReadingEc => match reply {
            HostReplyView::Failed(code) => InfoStepView::Fail(backend_error(code)),
            _ => info_ec(reply.attributes()),
        },
        InfoState::ReadingRsa => match reply {
            HostReplyView::Failed(code) => InfoStepView::Fail(backend_error(code)),
            _ => info_rsa(reply.attributes()),
        },
    }
}

/// The key after a reply: an algorithm and a public key that were found out
/// are kept.
pub open spec fn after_info(key: KeyView, state: InfoState, reply: HostReplyView) -> KeyView {
    match (state, info_step(key, state, reply)) {
        (InfoState::Algorithm(s), _) => after_algorithm(key, algorithm_step(s, reply)),
        (InfoState::ReadingEc, InfoStepView::Done(spki)) => KeyView {
            spki_cache: Some(spki),
            ..key
        },
        (InfoState::ReadingRsa, InfoStepView::Done(spki)) => KeyView {
            spki_cache: Some(spki),
            ..key
        },
        _ => key,
    }
}

/// Reads the attributes that make up a public key of this algorithm.
fn info_read_next(algorithm: &KeyAlgorithm) -> (r: InfoStep)
    ensures
        r@ == info_read(algorithm@),
{
    match algorithm {
        KeyAlgorithm::Ec(_) => InfoStep::Call(
            InfoState::ReadingEc,
            read_two(KeyHalf::Public, ck::CKA_EC_PARAMS, ck::CKA_EC_POINT),
        ),
        KeyAlgorithm::Rsa(_) => InfoStep::Call(
            InfoState::ReadingRsa,
            read_two(KeyHalf::Public, ck::CKA_MODULUS, ck::CKA_PUBLIC_EXPONENT),
        ),
        KeyAlgorithm::Other => InfoStep::Fail(
            BackendError::MechanismNotSupported(
                "pkcs11-bridge: only RSA and EC public_key_info implemented".to_owned(),
            ),
        ),
    }
}

/// A step about the algorithm, as one of the whole.
fn info_algorithm_next(step: AlgorithmStep) -> (r: InfoStep)
    ensures
        r@ == info_algorithm(step@),
{
    match step {
        AlgorithmStep::Call(s, c) => InfoStep::Call(InfoState::Algorithm(s), c),
        AlgorithmStep::Done(a) => info_read_next(&a),
    }
}

/// The public key in the attributes of an EC key.
fn ec_info(attrs: &Vec<Attribute>) -> (r: InfoStep)
    ensures
        r@ == info_ec(attrs_view(attrs@)),
{
    let params: Option<Vec<u8>> = bytes_of(attrs, ck::CKA_EC_PARAMS);
    let point: Option<Vec<u8>> = bytes_of(attrs, ck::CKA_EC_POINT);
    match (params, point) {
        (None, _) => InfoStep::Fail(
            BackendError::Internal("EC public key missing CKA_EC_PARAMS".to_owned()),
        ),
        (_, None) => InfoStep::Fail(
            BackendError::Internal("EC public key missing CKA_EC_POINT".to_owned()),
        ),
        (Some(params), Some(point)) => match build_ec_spki(params.as_slice(), point.as_slice()) {
            Ok(spki) => InfoStep::Done(spki),
            Err(e) => InfoStep::Fail(e),
        },
    }
}

/// The public key in the attributes of an RSA key.
fn rsa_info(attrs: &Vec<Attribute>) -> (r: InfoStep)
    ensures
        r@ == info_rsa(attrs_view(attrs@)),
{
    let modulus: Option<Vec<u8>> = bytes_of(attrs, ck::CKA_MODULUS);
    let exponent: Option<Vec<u8>> = bytes_of(attrs, ck::CKA_PUBLIC_EXPONENT);
    match (modulus, exponent) {
        (None, _) => InfoStep::Fail(
            BackendError::Internal("RSA public key missing CKA_MODULUS".to_owned()),
        ),
        (_, None) => InfoStep::Fail(
            BackendError::Internal("RSA public key missing CKA_PUBLIC_EXPONENT".to_owned()),
        ),
        (Some(modulus), Some(exponent)) => match build_rsa_spki(
            modulus.as_slice(),
            exponent.as_slice(),
        ) {
            Ok(spki) => InfoStep::Done(spki),
            Err(e) => InfoStep::Fail(e),
        },
    }
}

impl Key {
    /// A step of the search for the public half, as one of the whole.
    fn info_find_next(&self, step: Step<FindState>) -> (r: InfoStep)
        ensures
            r@ == info_find(step@, info_algorithm(algorithm_start(self@))),
    {
        match step {
            Step::Call(s, c) => InfoStep::Call(InfoState::Finding(s), c),
            Step::Done => info_algorithm_next(self.algorithm()),
            Step::Fail(e) => InfoStep::Fail(e),
        }
    }

    /// Starts to ask for the SubjectPublicKeyInfo.
    pub fn public_key_info(&self) -> (r: InfoStep)
        ensures
            r@ == info_start(self@),
    {
        match &self.spki_cache {
            Some(spki) => InfoStep::Done(vstd::slice::slice_to_vec(spki.as_slice())),
            None => self.info_find_next(find_object(&self.uri, KeyHalf::Public)),
        }
    }

    /// Decides what comes after a reply while the public key is being asked for.
    pub fn public_key_info_step(&mut self, state: InfoState, reply: HostReply) -> (r: InfoStep)
        ensures
            r@ == info_step(old(self)@, state, reply@),
            final(self)@ == after_info(old(self)@, state, reply@),
    {
        let step: InfoStep = match state {
            InfoState::Finding(s) => {
                return self.info_find_next(
                    find_object_step(&self.uri, KeyHalf::Public, s, reply),
                );
            },
            InfoState::Algorithm(s) => {
                return info_algorithm_next(self.algorithm_step(s, reply));
            },
            InfoState::ReadingEc => match reply {
                HostReply::Failed(code) => {
                    return InfoStep::Fail(ck_error_to_backend(code));
                },
                _ => ec_info(&attributes_of(reply)),
            },
            InfoState::ReadingRsa => match reply {
                HostReply::Failed(code) => {
                    return InfoStep::Fail(ck_error_to_backend(code));
                },
                _ => rsa_info(&attributes_of(reply)),
            },
        };
        if let InfoStep::Done(spki) = &step {
            self.spki_cache = Some(vstd::slice::slice_to_vec(spki.as_slice()));
        }
        step
    }
}

// ---------------------------------------------------------------------------
// Signing, verifying, decrypting
// ---------------------------------------------------------------------------

/// The call that signs `message`, or why there is none.
pub open spec fn sign_call(message: Seq<u8>, mech: SignatureMechanism) -> Result<
    HostCallView,
    BackendErrorView,
> {
    match signature_ckm(mech) {
        Ok(kind) => Ok(HostCallView::Sign { mechanism: Mechanism { kind }, message }),
        Err(e) => Err(e),
    }
}

/// The signature in a reply. A token gives an ECDSA signature as `r || s` and
/// callers take it in DER; any other signature stays as it is.
pub open spec fn sign_result(mech: SignatureMechanism, reply: HostReplyView) -> Result<
    Seq<u8>,
    BackendErrorView,
> {
    match reply {
        HostReplyView::Failed(code) => Err(backend_error(code)),
        _ => if mech is Ecdsa {
            if is_raw_ecdsa(reply.bytes()) {
                Ok(ecdsa_der(reply.bytes()))
            } else {
                Err(
                    internal(
                        "ECDSA DER: "@ + "raw ECDSA signature is not two numbers of equal length"@,
                    ),
                )
            }
        } else {
            Ok(reply.bytes())
        },
    }
}

/// Which reply is awaited while a signature is being verified.
#[derive(Clone, Copy, Debug, PartialEq, Eq, Structural)]
pub enum VerifyState {
    /// One of the search for the public half.
    Finding(FindState),
    /// The verdict.
    Checking,
}

/// What comes next while a signature is being verified.
#[derive(Debug)]
pub enum VerifyStep {
    Call(VerifyState, HostCall),
    /// Whether the signature is good.
    Done(bool),
    Fail(BackendError),
}

/// A [`VerifyStep`] as mathematical values.
#[verifier::ext_equal]
pub enum VerifyStepView {
    Call(VerifyState, HostCallView),
    Done(bool),
    Fail(BackendErrorView),
}

impl View for VerifyStep {
    type V = VerifyStepView;

    open spec fn view(&self) -> VerifyStepView {
        match self {
            VerifyStep::Call(s, c) => VerifyStepView::Call(*s, c@),
            VerifyStep::Done(b) => VerifyStepView::Done(*b),
            VerifyStep::Fail(e) => VerifyStepView::Fail(e@),
        }
    }
}

/// The call that verifies `signature` over `message`.
pub open spec fn verify_call(
    message: Seq<u8>,
    signature: Seq<u8>,
    mech: SignatureMechanism,
) -> VerifyStepView {
    match signature_ckm(mech) {
        Ok(kind) => VerifyStepView::Call(
            VerifyState::Checking,
            HostCallView::Verify { mechanism: Mechanism { kind }, message, signature },
        ),
        Err(e) => VerifyStepView::Fail(e),
    }
}

/// A step of the search for the public half, as one of the whole. A public
/// half that was found leads on to `found`.
pub open spec fn verify_find(step: StepView<FindState>, found: VerifyStepView) -> VerifyStepView {
    match step {
        StepView::Call(s, c) => VerifyStepView::Call(VerifyState::Finding(s), c),
        StepView::Done => found,
        StepView::Fail(e) => VerifyStepView::Fail(e),
    }
}

/// How verifying starts: a mechanism that is not known is refused before the
/// public half is looked for.
pub open spec fn verify_start(
    key: KeyView,
    message: Seq<u8>,
    signature: Seq<u8>,
    mech: SignatureMechanism,
) -> VerifyStepView {
    match signature_ckm(mech) {
        Ok(_) => verify_find(
            find_start(key.uri, KeyHalf::Public),
            verify_call(message, signature, mech),
        ),
        Err(e) => VerifyStepView::Fail(e),
    }
}

/// What comes after a reply. A signature that the token finds fault with is
/// bad; any other failure is one of the operation.
pub open spec fn verify_step(
    key: KeyView,
    message: Seq<u8>,
    signature: Seq<u8>,
    mech: SignatureMechanism,
    state: VerifyState,
    reply: HostReplyView,
) -> VerifyStepView {
    match state {
        VerifyState::Finding(s) => verify_find(
            find_step(key.uri, KeyHalf::Public, s, reply),
            verify_call(message, signature, mech),
        ),
        VerifyState::Checking => match reply {
            HostReplyView::Failed(code) => if occurs("Signature"@, code) {
                VerifyStepView::Done(false)
            } else {
                VerifyStepView::Fail(backend_error(code))
            },
            _ => VerifyStepView::Done(true),
        },
    }
}

/// The call that decrypts `ciphertext`. At most 4096 bytes come back.
pub open spec fn decrypt_call(ciphertext: Seq<u8>, mech: CipherMechanism) -> HostCallView {
    HostCallView::Decrypt {
        mechanism: Mechanism { kind: cipher_ckm(mech) },
        ciphertext,
        max_len: 4096,
    }
}

/// The plaintext in a reply.
pub open spec fn decrypt_result(reply: HostReplyView) -> Result<Seq<u8>, BackendErrorView> {
    match reply {
        HostReplyView::Failed(code) => Err(backend_error(code)),
        _ => Ok(reply.bytes()),
    }
}

/// The bytes in a reply, or the description of the error.
fn bytes_or_error(reply: HostReply) -> (r: Result<Vec<u8>, String>)
    ensures
        match r {
            Ok(bytes) => !(reply@ is Failed) && bytes@ == reply@.bytes(),
            Err(code) => reply@ == HostReplyView::Failed(code@),
        },
{
    match reply {
        HostReply::Failed(code) => Err(code),
        HostReply::Bytes(bytes) => Ok(bytes),
        _ => Ok(Vec::new()),
    }
}

impl Key {
    /// How the token wants what it signs: as it is, whatever the mechanism.
    pub fn signature_wrapping_policy(&self, mech: SignatureMechanism) -> (r:
        SignatureWrappingPolicy)
        ensures
            r == SignatureWrappingPolicy::Raw,
    {
        let _ = mech;
        SignatureWrappingPolicy::Raw
    }

    /// The call that signs `tbs`.
    pub fn sign(&self, tbs: Vec<u8>, mech: SignatureMechanism) -> (r: Result<
        HostCall,
        BackendError,
    >)
        ensures
            match (r, sign_call(tbs@, mech)) {
                (Ok(call), Ok(expected)) => call@ == expected,
                (Err(e), Err(expected)) => e@ == expected,
                _ => false,
            },
    {
        match map_signature_mech(&mech) {
            Ok(kind) => Ok(HostCall::Sign { mechanism: Mechanism { kind }, message: tbs }),
            Err(e) => Err(e),
        }
    }

    /// The signature in the reply to that call.
    pub fn sign_reply(&self, mech: SignatureMechanism, reply: HostReply) -> (r: Result<
        Vec<u8>,
        BackendError,
    >)
        ensures
            match (r, sign_result(mech, reply@)) {
                (Ok(signature), Ok(expected)) => signature@ == expected,
                (Err(e), Err(expected)) => e@ == expected,
                _ => false,
            },
    {
        let raw: Vec<u8> = match bytes_or_error(reply) {
            Ok(raw) => raw,
            Err(code) => {
                return Err(ck_error_to_backend(code));
            },
        };
        match mech {
            SignatureMechanism::Ecdsa(_) => match ecdsa_raw_to_der(raw.as_slice()) {
                Ok(der) => Ok(der),
                Err(e) => Err(BackendError::Internal(join("ECDSA DER: ", e))),
            },
            _ => Ok(raw),
        }
    }

    /// Starts to verify `signature` over `tbs`. The signature goes to the token
    /// as it is, in the form that the token takes: for ECDSA that is not the
    /// DER form in which [`Key::sign_reply`] returns one.
    pub fn verify(&self, tbs: &[u8], signature: &[u8], mech: SignatureMechanism) -> (r: VerifyStep)
        ensures
            r@ == verify_start(self@, tbs@, signature@, mech),
    {
        match map_signature_mech(&mech) {
            Ok(_) => Self::verify_find_next(
                tbs,
                signature,
                mech,
                find_object(&self.uri, KeyHalf::Public),
            ),
            Err(e) => VerifyStep::Fail(e),
        }
    }

    /// A step of the search for the public half, as one of the whole.
    fn verify_find_next(
        tbs: &[u8],
        signature: &[u8],
        mech: SignatureMechanism,
        step: Step<FindState>,
    ) -> (r: VerifyStep)
        ensures
            r@ == verify_find(step@, verify_call(tbs@, signature@, mech)),
    {
        match step {
            Step::Call(s, c) => VerifyStep::Call(VerifyState::Finding(s), c),
            Step::Done => match map_signature_mech(&mech) {
                Ok(kind) => VerifyStep::Call(
                    VerifyState::Checking,
                    HostCall::Verify {
                        mechanism: Mechanism { kind },
                        message: vstd::slice::slice_to_vec(tbs),
                        signature: vstd::slice::slice_to_vec(signature),
                    },
                ),
                Err(e) => VerifyStep::Fail(e),
            },
            Step::Fail(e) => VerifyStep::Fail(e),
        }
    }

    /// Decides what comes after a reply while a signature is being verified.
    pub fn verify_step(
        &self,
        tbs: &[u8],
        signature: &[u8],
        mech: SignatureMechanism,
        state: VerifyState,
        reply: HostReply,
    ) -> (r: VerifyStep)
        ensures
            r@ == verify_step(self@, tbs@, signature@, mech, state, reply@),
    {
        match state {
            VerifyState::Finding(s) => Self::verify_find_next(
                tbs,
                signature,
                mech,
                find_object_step(&self.uri, KeyHalf::Public, s, reply),
            ),
            VerifyState::Checking => match reply {
                HostReply::Failed(code) => if contains_text(code.as_str(), "Signature") {
                    VerifyStep::Done(false)
                } else {
                    VerifyStep::Fail(ck_error_to_backend(code))
                },
                _ => VerifyStep::Done(true),
            },
        }
    }

    /// The call that decrypts `ciphertext`.
    pub fn decrypt(&self, ciphertext: Vec<u8>, mech: CipherMechanism) -> (r: Result<
        HostCall,
        BackendError,
    >)
        ensures
            r is Ok,
            r->Ok_0@ == decrypt_call(ciphertext@, mech),
    {
        match map_cipher_mech(&mech) {
            Ok(kind) => Ok(
                HostCall::Decrypt { mechanism: Mechanism { kind }, ciphertext, max_len: 4096 },
            ),
            Err(e) => Err(e),
        }
    }

    /// The plaintext in the reply to that call.
    pub fn decrypt_reply(&self, reply: HostReply) -> (r: Result<Vec<u8>, BackendError>)
        ensures
            match (r, decrypt_result(reply@)) {
                (Ok(plaintext), Ok(expected)) => plaintext@ == expected,
                (Err(e), Err(expected)) => e@ == expected,
                _ => false,
            },
    {
        match bytes_or_error(reply) {
            Ok(plaintext) => Ok(plaintext),
            Err(code) => Err(ck_error_to_backend(code)),
        }
    }

    /// Key agreement is not supported.
    pub fn derive(&self, peer_public_key: Vec<u8>) -> (r: Result<Vec<u8>, BackendError>)
        ensures
            r is Err,
            r->Err_0@ == not_supported(
                "pkcs11-bridge: derive (ECDH) not implemented in Phase 4"@,
            ),
    {
        let _ = peer_public_key;
        Err(
            BackendError::MechanismNotSupported(
                "pkcs11-bridge: derive (ECDH) not implemented in Phase 4".to_owned(),
            ),
        )
    }
}

// ---------------------------------------------------------------------------
// Laws
// ---------------------------------------------------------------------------

impl AlgorithmState {
    /// How many more replies can come at most, this one among them.
    pub open spec fn remaining(self) -> nat {
        match self {
            AlgorithmState::KeyType => 2,
            AlgorithmState::Modulus => 1,
        }
    }
}

impl InfoState {
    /// How many more replies can come at most, this one among them.
    pub open spec fn remaining(self) -> nat {
        match self {
            InfoState::Finding(s) => s.remaining() + 3,
            InfoState::Algorithm(s) => s.remaining() + 1,
            InfoState::ReadingEc => 1,
            InfoState::ReadingRsa => 1,
        }
    }
}

impl VerifyState {
    /// How many more replies can come at most, this one among them.
    pub open spec fn remaining(self) -> nat {
        match self {
            VerifyState::Finding(s) => s.remaining() + 1,
            VerifyState::Checking => 1,
        }
    }
}

/// Asking for the algorithm comes to an end: each reply brings it nearer.
pub proof fn law_algorithm_progresses(state: AlgorithmState, reply: HostReplyView)
    ensures
        algorithm_step(state, reply) matches AlgorithmStepView::Call(next, _) ==> next.remaining()
            < state.remaining(),
{
}

/// Asking for the public key comes to an end: each reply brings it nearer.
pub proof fn law_info_progresses(key: KeyView, state: InfoState, reply: HostReplyView)
    ensures
        info_step(key, state, reply) matches InfoStepView::Call(next, _) ==> next.remaining()
            < state.remaining(),
{
}

/// Verifying comes to an end: each reply brings it nearer.
pub proof fn law_verify_progresses(
    key: KeyView,
    message: Seq<u8>,
    signature: Seq<u8>,
    mech: SignatureMechanism,
    state: VerifyState,
    reply: HostReplyView,
)
    ensures
        verify_step(key, message, signature, mech, state, reply) matches VerifyStepView::Call(
            next,
            _,
        ) ==> next.remaining() < state.remaining(),
{
}

/// An algorithm that was found out once is known from then on: asking again
/// gives it without a call.
pub proof fn law_algorithm_is_kept(key: KeyView, state: AlgorithmState, reply: HostReplyView)
    ensures
        algorithm_step(state, reply) matches AlgorithmStepView::Done(a) ==> algorithm_start(
            after_algorithm(key, algorithm_step(state, reply)),
        ) == AlgorithmStepView::Done(a),
{
}

/// A key is EC on P-256 or RSA.
pub proof fn law_algorithm_is_ec_or_rsa(state: AlgorithmState, reply: HostReplyView)
    ensures
        algorithm_step(state, reply) matches AlgorithmStepView::Done(a) ==> a == (
        KeyAlgorithmView::Ec { curve: "P-256"@ }) || a is Rsa,
{
}

/// A public key that was found out once is known from then on: asking again
/// gives the same bytes without a call.
pub proof fn law_public_key_is_kept(key: KeyView, state: InfoState, reply: HostReplyView)
    ensures
        info_step(key, state, reply) matches InfoStepView::Done(spki) ==> info_start(
            after_info(key, state, reply),
        ) == InfoStepView::Done(spki),
{
}

/// A key keeps its URI, and what is known of it is not forgotten.
pub proof fn law_key_keeps_its_name(
    key: KeyView,
    step: AlgorithmStepView,
    state: InfoState,
    reply: HostReplyView,
)
    ensures
        after_algorithm(key, step).uri == key.uri,
        after_algorithm(key, step).spki_cache == key.spki_cache,
        after_info(key, state, reply).uri == key.uri,
        key.algorithm is Some ==> after_info(key, state, reply).algorithm is Some,
        key.spki_cache is Some ==> after_info(key, state, reply).spki_cache is Some,
{
}

/// The public key of an RSA key holds the numbers that the token gave, as
/// long as the length octets can hold the length of the whole.
pub proof fn law_rsa_info_holds_the_key(key: KeyView, attrs: Seq<AttributeView>)
    requires
        bytes_in(attrs, ck::CKA_MODULUS) is Some,
        bytes_in(attrs, ck::CKA_PUBLIC_EXPONENT) is Some,
        crate::spki::rsa_spki_body(
            bytes_in(attrs, ck::CKA_MODULUS)->0,
            bytes_in(attrs, ck::CKA_PUBLIC_EXPONENT)->0,
        ).len() < 0x1_0000_0000,
    ensures
        info_step(key, InfoState::ReadingRsa, HostReplyView::Attributes(attrs)) is Done,
        crate::spki::read_rsa_spki(
            info_step(key, InfoState::ReadingRsa, HostReplyView::Attributes(attrs))->Done_0,
        ) == Some(
            (
                crate::der::be_nat(bytes_in(attrs, ck::CKA_MODULUS)->0),
                crate::der::be_nat(bytes_in(attrs, ck::CKA_PUBLIC_EXPONENT)->0),
            ),
        ),
{
    let modulus = bytes_in(attrs, ck::CKA_MODULUS)->0;
    let exponent = bytes_in(attrs, ck::CKA_PUBLIC_EXPONENT)->0;
    let reply = HostReplyView::Attributes(attrs);
    assert(info_step(key, InfoState::ReadingRsa, reply) == info_rsa(attrs));
    assert(info_rsa(attrs) == InfoStepView::Done(rsa_spki(modulus, exponent)));
    crate::spki::law_rsa_spki_reads_back(modulus, exponent);
}

/// The public key of an EC key holds the curve and the point that the token
/// gave, the point without its wrapping.
pub proof fn law_ec_info_holds_the_key(key: KeyView, attrs: Seq<AttributeView>, point: Seq<u8>)
    requires
        bytes_in(attrs, ck::CKA_EC_PARAMS) is Some,
        bytes_in(attrs, ck::CKA_EC_POINT) == Some(
            crate::der::tlv(crate::der::TAG_OCTET_STRING, point),
        ),
        crate::spki::ec_spki_body(bytes_in(attrs, ck::CKA_EC_PARAMS)->0, point).len()
            < 0x1_0000_0000,
    ensures
        info_step(key, InfoState::ReadingEc, HostReplyView::Attributes(attrs)) is Done,
        crate::spki::read_ec_spki(
            info_step(key, InfoState::ReadingEc, HostReplyView::Attributes(attrs))->Done_0,
        ) == Some((bytes_in(attrs, ck::CKA_EC_PARAMS)->0, point)),
{
    crate::spki::law_ec_spki_of_wrapped_point(bytes_in(attrs, ck::CKA_EC_PARAMS)->0, point);
}

/// A signature is made and verified with the same mechanism, and what cannot
/// be signed cannot be verified, for the same reason. Nothing is said of the
/// form of the signature: the token gets it as it was handed in, and an ECDSA
/// signature was returned in another form than the token gave.
pub proof fn law_sign_and_verify_agree(
    key: KeyView,
    message: Seq<u8>,
    signature: Seq<u8>,
    mech: SignatureMechanism,
)
    ensures
        match sign_call(message, mech) {
            Ok(call) => {
                &&& call matches HostCallView::Sign { mechanism, message: m }
                &&& m == message
                &&& verify_call(message, signature, mech) == VerifyStepView::Call(
                    VerifyState::Checking,
                    HostCallView::Verify { mechanism, message, signature },
                )
            },
            Err(e) => verify_start(key, message, signature, mech) == VerifyStepView::Fail(e),
        },
{
}

/// But for ECDSA, a signature goes back to the token as it came from it: what
/// signing returns is what verifying hands on, with the same mechanism.
pub proof fn law_signature_goes_back_unchanged(
    message: Seq<u8>,
    raw: Seq<u8>,
    mech: SignatureMechanism,
)
    requires
        !(mech is Ecdsa),
        signature_ckm(mech) is Ok,
    ensures
        sign_result(mech, HostReplyView::Bytes(raw)) == Ok::<Seq<u8>, BackendErrorView>(raw),
        verify_call(message, sign_result(mech, HostReplyView::Bytes(raw))->Ok_0, mech)
            == VerifyStepView::Call(
            VerifyState::Checking,
            HostCallView::Verify {
                mechanism: Mechanism { kind: signature_ckm(mech)->Ok_0 },
                message,
                signature: raw,
            },
        ),
{
}

/// An ECDSA signature comes out in DER and holds the two numbers that the
/// token gave, as long as the length octets can hold the length of the whole.
pub proof fn law_ecdsa_signature_holds_the_numbers(
    digest: crate::mech::DigestAlgorithm,
    raw: Seq<u8>,
)
    requires
        is_raw_ecdsa(raw),
        crate::spki::ecdsa_body(raw).len() < 0x1_0000_0000,
    ensures
        sign_result(SignatureMechanism::Ecdsa(digest), HostReplyView::Bytes(raw)) is Ok,
        crate::spki::read_two_integers(
            sign_result(SignatureMechanism::Ecdsa(digest), HostReplyView::Bytes(raw))->Ok_0,
        ) == Some(
            (
                crate::der::be_nat(raw.take(raw.len() as int / 2)),
                crate::der::be_nat(raw.skip(raw.len() as int / 2)),
            ),
        ),
{
    crate::spki::law_ecdsa_der_reads_back(raw);
}

/// `value` is a number that a key type can be.
pub open spec fn is_number(value: AttributeValueView) -> bool {
    value is KeyKind || value is Uint32
}

/// The key type is the first number in the token's reply, in one form or the
/// other, and no type at all where there is none.
pub proof fn law_key_type_is_the_first_number(attrs: Seq<AttributeView>, i: int, k: u32)
    ensures
        0 <= i < attrs.len() && (attrs[i].value == AttributeValueView::KeyKind(k) || attrs[i].value
            == AttributeValueView::Uint32(k)) && (forall|j: int|
            0 <= j < i ==> !((#[trigger] attrs[j]).value is KeyKind) && !(attrs[j].value is Uint32))
            ==> key_type_in(attrs) == k,
        (forall|j: int|
            0 <= j < attrs.len() ==> !((#[trigger] attrs[j]).value is KeyKind) && !(attrs[j].value
                is Uint32)) ==> key_type_in(attrs) == 0xffff_ffff,
    decreases attrs.len(),
{
    if attrs.len() > 0 && !is_number(attrs[0].value) {
        let rest = attrs.drop_first();
        law_key_type_is_the_first_number(rest, i - 1, k);
        assert(forall|j: int| 0 <= j < rest.len() ==> #[trigger] rest[j] == attrs[j + 1]);
        if 0 < i < attrs.len() {
            assert(rest[i - 1] == attrs[i]);
        }
    }
}

/// The size of the modulus is eight times the length of the first byte string in
/// the token's reply, in 32 bits, and 2048 where there is none.
pub proof fn law_modulus_size_is_of_the_first_bytes(
    attrs: Seq<AttributeView>,
    i: int,
    b: Seq<u8>,
)
    ensures
        0 <= i < attrs.len() && attrs[i].value == AttributeValueView::ByteString(b) && (forall|
            j: int,
        |
            0 <= j < i ==> !((#[trigger] attrs[j]).value is ByteString)) ==> modulus_bits_in(attrs)
            == b.len() * 8 % 0x1_0000_0000,
        (forall|j: int| 0 <= j < attrs.len() ==> !((#[trigger] attrs[j]).value is ByteString))
            ==> modulus_bits_in(attrs) == 2048,
    decreases attrs.len(),
{
    if attrs.len() > 0 && !(attrs[0].value is ByteString) {
        let rest = attrs.drop_first();
        law_modulus_size_is_of_the_first_bytes(rest, i - 1, b);
        assert(forall|j: int| 0 <= j < rest.len() ==> #[trigger] rest[j] == attrs[j + 1]);
        if 0 < i < attrs.len() {
            assert(rest[i - 1] == attrs[i]);
        }
    }
}

/// The bytes of `tag` in a reply are those of the last attribute that has the tag
/// and a byte string, all of them; there are none where no attribute is such.
pub proof fn law_bytes_are_read_whole(attrs: Seq<AttributeView>, tag: u32, i: int, b: Seq<u8>)
    ensures
        0 <= i < attrs.len() && attrs[i].tag == tag && attrs[i].value
            == AttributeValueView::ByteString(b) && (forall|j: int|
            i < j < attrs.len() ==> (#[trigger] attrs[j]).tag != tag || !(attrs[j].value
                is ByteString)) ==> bytes_in(attrs, tag) == Some(b),
        (forall|j: int|
            0 <= j < attrs.len() ==> (#[trigger] attrs[j]).tag != tag || !(attrs[j].value
                is ByteString)) ==> bytes_in(attrs, tag) is None,
    decreases attrs.len(),
{
    if attrs.len() > 0 {
        let rest = attrs.drop_last();
        assert(attrs.last() == attrs[attrs.len() - 1]);
        law_bytes_are_read_whole(rest, tag, i, b);
        assert(forall|j: int| 0 <= j < rest.len() ==> #[trigger] rest[j] == attrs[j]);
    }
}

/// Asking for the algorithm: what is known is given back; else the private half
/// is asked for its key type. A first number of zero makes it an RSA key, which
/// is asked for its modulus; anything else, and no answer, an EC key on P-256.
pub proof fn law_key_type_decides(key: KeyView, reply: HostReplyView)
    ensures
        key.algorithm matches Some(a) ==> algorithm_start(key) == AlgorithmStepView::Done(a),
        key.algorithm is None ==> algorithm_start(key) == AlgorithmStepView::Call(
            AlgorithmState::KeyType,
            HostCallView::GetAttributes { half: KeyHalf::Private, tags: seq![0x100u32] },
        ),
        reply matches HostReplyView::Attributes(attrs) && key_type_in(attrs) == 0 ==> algorithm_step(
            AlgorithmState::KeyType,
            reply,
        ) == AlgorithmStepView::Call(
            AlgorithmState::Modulus,
            HostCallView::GetAttributes { half: KeyHalf::Private, tags: seq![0x120u32] },
        ),
        !(reply is Attributes) || key_type_in(reply->Attributes_0) != 0 ==> algorithm_step(
            AlgorithmState::KeyType,
            reply,
        ) == AlgorithmStepView::Done(KeyAlgorithmView::Ec { curve: "P-256"@ }),
        algorithm_step(AlgorithmState::Modulus, reply) == AlgorithmStepView::Done(
            KeyAlgorithmView::Rsa {
                modulus_bits: if reply is Attributes {
                    modulus_bits_in(reply->Attributes_0)
                } else {
                    2048
                },
            },
        ),
{
}

/// Asking for the public key: what is known is given back without a call; else
/// the public half is looked for, step by step as in any search. Once it is
/// found the algorithm decides what is read of it, and is asked for first if it
/// is not known.
pub proof fn law_public_half_is_looked_for(key: KeyView, state: FindState, reply: HostReplyView)
    ensures
        key.spki_cache matches Some(spki) ==> info_start(key) == InfoStepView::Done(spki),
        key.spki_cache is None ==> (find_start(key.uri, KeyHalf::Public) matches StepView::Call(
            next,
            call,
        ) && info_start(key) == InfoStepView::Call(InfoState::Finding(next), call)),
        match find_step(key.uri, KeyHalf::Public, state, reply) {
            StepView::Call(next, call) => info_step(key, InfoState::Finding(state), reply)
                == InfoStepView::Call(InfoState::Finding(next), call),
            StepView::Fail(e) => info_step(key, InfoState::Finding(state), reply)
                == InfoStepView::Fail(e),
            StepView::Done => info_step(key, InfoState::Finding(state), reply)
                == match key.algorithm {
                None => InfoStepView::Call(
                    InfoState::Algorithm(AlgorithmState::KeyType),
                    HostCallView::GetAttributes { half: KeyHalf::Private, tags: seq![0x100u32] },
                ),
                Some(KeyAlgorithmView::Ec { .. }) => InfoStepView::Call(
                    InfoState::ReadingEc,
                    HostCallView::GetAttributes {
                        half: KeyHalf::Public,
                        tags: seq![0x180u32, 0x181u32],
                    },
                ),
                Some(KeyAlgorithmView::Rsa { .. }) => InfoStepView::Call(
                    InfoState::ReadingRsa,
                    HostCallView::GetAttributes {
                        half: KeyHalf::Public,
                        tags: seq![0x120u32, 0x122u32],
                    },
                ),
                Some(KeyAlgorithmView::Other) => InfoStepView::Fail(
                    not_supported("pkcs11-bridge: only RSA and EC public_key_info implemented"@),
                ),
            },
        },
{
}

/// An algorithm that had to be asked for decides in the same way what is read of
/// the public half, and is kept.
pub proof fn law_algorithm_decides_what_is_read(
    key: KeyView,
    state: AlgorithmState,
    reply: HostReplyView,
)
    ensures
        match algorithm_step(state, reply) {
            AlgorithmStepView::Call(next, call) => {
                &&& info_step(key, InfoState::Algorithm(state), reply) == InfoStepView::Call(
                    InfoState::Algorithm(next),
                    call,
                )
                &&& after_info(key, InfoState::Algorithm(state), reply) == key
            },
            AlgorithmStepView::Done(a) => {
                &&& a is Ec ==> info_step(key, InfoState::Algorithm(state), reply)
                    == InfoStepView::Call(
                    InfoState::ReadingEc,
                    HostCallView::GetAttributes {
                        half: KeyHalf::Public,
                        tags: seq![0x180u32, 0x181u32],
                    },
                )
                &&& a is Rsa ==> info_step(key, InfoState::Algorithm(state), reply)
                    == InfoStepView::Call(
                    InfoState::ReadingRsa,
                    HostCallView::GetAttributes {
                        half: KeyHalf::Public,
                        tags: seq![0x120u32, 0x122u32],
                    },
                )
                &&& after_info(key, InfoState::Algorithm(state), reply) == (KeyView {
                    uri: key.uri,
                    algorithm: Some(a),
                    spki_cache: key.spki_cache,
                })
                &&& after_algorithm(key, AlgorithmStepView::Done(a)) == (KeyView {
                    uri: key.uri,
                    algorithm: Some(a),
                    spki_cache: key.spki_cache,
                })
            },
        },
        forall|s: AlgorithmState, c: HostCallView| #[trigger]
            after_algorithm(key, AlgorithmStepView::Call(s, c)) == key,
{
}

/// A public key is kept exactly when it was read, and it is the one that was
/// given; nothing else about the key changes then, and nothing at all while it is
/// being looked for or where reading it failed.
pub proof fn law_only_read_keys_are_kept(key: KeyView, state: InfoState, reply: HostReplyView)
    requires
        !(state is Algorithm),
    ensures
        after_info(key, state, reply).uri == key.uri,
        after_info(key, state, reply).algorithm == key.algorithm,
        state is Finding ==> after_info(key, state, reply) == key,
        !(state is Finding) ==> after_info(key, state, reply).spki_cache == (match info_step(
            key,
            state,
            reply,
        ) {
            InfoStepView::Done(spki) => Some(spki),
            _ => key.spki_cache,
        }),
{
}

/// The public key of an RSA key is the one that the token gave: of the last
/// modulus and the last exponent in its reply every byte counts, and reading the
/// structure gives the two numbers back.
pub proof fn law_rsa_key_is_the_tokens(
    key: KeyView,
    attrs: Seq<AttributeView>,
    i: int,
    modulus: Seq<u8>,
    j: int,
    exponent: Seq<u8>,
)
    requires
        0 <= i < attrs.len() && attrs[i].tag == 0x120 && attrs[i].value
            == AttributeValueView::ByteString(modulus),
        forall|n: int|
            i < n < attrs.len() ==> (#[trigger] attrs[n]).tag != 0x120 || !(attrs[n].value
                is ByteString),
        0 <= j < attrs.len() && attrs[j].tag == 0x122 && attrs[j].value
            == AttributeValueView::ByteString(exponent),
        forall|n: int|
            j < n < attrs.len() ==> (#[trigger] attrs[n]).tag != 0x122 || !(attrs[n].value
                is ByteString),
    ensures
        info_step(key, InfoState::ReadingRsa, HostReplyView::Attributes(attrs))
            == InfoStepView::Done(rsa_spki(modulus, exponent)),
        modulus.len() + exponent.len() < 0x1000_0000 ==> crate::spki::read_rsa_spki(
            info_step(key, InfoState::ReadingRsa, HostReplyView::Attributes(attrs))->Done_0,
        ) == Some((crate::der::be_nat(modulus), crate::der::be_nat(exponent))),
{
    law_bytes_are_read_whole(attrs, 0x120, i, modulus);
    law_bytes_are_read_whole(attrs, 0x122, j, exponent);
    assert(info_rsa(attrs) == InfoStepView::Done(rsa_spki(modulus, exponent)));
    if modulus.len() + exponent.len() < 0x1000_0000 {
        lemma_rsa_size(modulus, exponent);
        crate::spki::law_rsa_spki_reads_back(modulus, exponent);
    }
}

/// The structure is not much longer than the numbers in it.
proof fn lemma_rsa_size(modulus: Seq<u8>, exponent: Seq<u8>)
    ensures
        crate::spki::rsa_spki_body(modulus, exponent).len() <= modulus.len() + exponent.len()
            + 100,
{
    let m = crate::der::integer_content(modulus);
    let e = crate::der::integer_content(exponent);
    if modulus.len() > 0 {
        crate::der::law_integer_canonical(modulus);
    }
    if exponent.len() > 0 {
        crate::der::law_integer_canonical(exponent);
    }
    crate::der::law_tlv_len(crate::der::TAG_INTEGER, m);
    crate::der::law_tlv_len(crate::der::TAG_INTEGER, e);
    let pair = crate::der::integer_der(modulus) + crate::der::integer_der(exponent);
    crate::der::law_tlv_len(crate::der::TAG_SEQUENCE, pair);
    let inner = crate::spki::rsa_public_key(modulus, exponent);
    crate::der::law_tlv_len(crate::der::TAG_BIT_STRING, seq![0u8] + inner);
    crate::der::law_tlv_len(
        crate::der::TAG_SEQUENCE,
        crate::spki::OID_RSA_ENCRYPTION@ + crate::spki::DER_NULL@,
    );
}

/// The public key of an EC key is the one that the token gave: of the last
/// parameters and the last point in its reply every byte counts. Reading the
/// structure gives the parameters and the unwrapped point back; a point that
/// cannot be unwrapped is an error that says why.
pub proof fn law_ec_key_is_the_tokens(
    key: KeyView,
    attrs: Seq<AttributeView>,
    i: int,
    params: Seq<u8>,
    j: int,
    wrapped: Seq<u8>,
)
    requires
        0 <= i < attrs.len() && attrs[i].tag == 0x180 && attrs[i].value
            == AttributeValueView::ByteString(params),
        forall|n: int|
            i < n < attrs.len() ==> (#[trigger] attrs[n]).tag != 0x180 || !(attrs[n].value
                is ByteString),
        0 <= j < attrs.len() && attrs[j].tag == 0x181 && attrs[j].value
            == AttributeValueView::ByteString(wrapped),
        forall|n: int|
            j < n < attrs.len() ==> (#[trigger] attrs[n]).tag != 0x181 || !(attrs[n].value
                is ByteString),
    ensures
        ({
            let step = info_step(key, InfoState::ReadingEc, HostReplyView::Attributes(attrs));
            match crate::spki::octet_string_content(wrapped) {
                Ok(point) => {
                    &&& step == InfoStepView::Done(crate::spki::ec_spki(params, point))
                    &&& params.len() + point.len() < 0x1000_0000 ==> crate::spki::read_ec_spki(
                        step->Done_0,
                    ) == Some((params, point))
                },
                Err(e) => step == InfoStepView::Fail(internal("EC SPKI: "@ + e)),
            }
        }),
{
    law_bytes_are_read_whole(attrs, 0x180, i, params);
    law_bytes_are_read_whole(attrs, 0x181, j, wrapped);
    if let Ok(point) = crate::spki::octet_string_content(wrapped) {
        if params.len() + point.len() < 0x1000_0000 {
            crate::der::law_tlv_len(
                crate::der::TAG_SEQUENCE,
                crate::spki::OID_ID_EC_PUBLIC_KEY@ + params,
            );
            crate::der::law_tlv_len(crate::der::TAG_BIT_STRING, seq![0u8] + point);
            crate::spki::law_ec_spki_reads_back(params, point);
        }
    }
}

/// `attrs` hold no bytes for `tag`.
pub open spec fn lacks(attrs: Seq<AttributeView>, tag: u32) -> bool {
    forall|n: int|
        0 <= n < attrs.len() ==> (#[trigger] attrs[n]).tag != tag || !(attrs[n].value
            is ByteString)
}

/// A public key of which the token's reply lacks a part is an error that names
/// the part, the first of the two if both are lacking. A reply of another form
/// lacks both, and a failed call is the token's error.
pub proof fn law_lacking_parts_are_named(
    key: KeyView,
    attrs: Seq<AttributeView>,
    other: HostReplyView,
    code: Seq<char>,
)
    requires
        !(other is Attributes),
        !(other is Failed),
    ensures
        ({
            let ec = info_step(key, InfoState::ReadingEc, HostReplyView::Attributes(attrs));
            let rsa = info_step(key, InfoState::ReadingRsa, HostReplyView::Attributes(attrs));
            let no_params = InfoStepView::Fail(internal("EC public key missing CKA_EC_PARAMS"@));
            let no_modulus = InfoStepView::Fail(internal("RSA public key missing CKA_MODULUS"@));
            &&& lacks(attrs, 0x180) ==> ec == no_params
            &&& !lacks(attrs, 0x180) && lacks(attrs, 0x181) ==> ec == InfoStepView::Fail(
                internal("EC public key missing CKA_EC_POINT"@),
            )
            &&& lacks(attrs, 0x120) ==> rsa == no_modulus
            &&& !lacks(attrs, 0x120) && lacks(attrs, 0x122) ==> rsa == InfoStepView::Fail(
                internal("RSA public key missing CKA_PUBLIC_EXPONENT"@),
            )
            &&& info_step(key, InfoState::ReadingEc, other) == no_params
            &&& info_step(key, InfoState::ReadingRsa, other) == no_modulus
        }),
        info_step(key, InfoState::ReadingEc, HostReplyView::Failed(code)) == InfoStepView::Fail(
            backend_error(code),
        ),
        info_step(key, InfoState::ReadingRsa, HostReplyView::Failed(code)) == InfoStepView::Fail(
            backend_error(code),
        ),
{
    let none = Seq::<u8>::empty();
    law_bytes_are_read_whole(attrs, 0x180, 0, none);
    law_bytes_are_read_whole(attrs, 0x181, 0, none);
    law_bytes_are_read_whole(attrs, 0x120, 0, none);
    law_bytes_are_read_whole(attrs, 0x122, 0, none);
    lemma_found_or_lacking(attrs, 0x180);
    lemma_found_or_lacking(attrs, 0x120);
}

/// Bytes that are not lacking are found.
proof fn lemma_found_or_lacking(attrs: Seq<AttributeView>, tag: u32)
    ensures
        lacks(attrs, tag) <==> bytes_in(attrs, tag) is None,
    decreases attrs.len(),
{
    if attrs.len() > 0 {
        let rest = attrs.drop_last();
        lemma_found_or_lacking(rest, tag);
        assert(forall|j: int| 0 <= j < rest.len() ==> #[trigger] rest[j] == attrs[j]);
        assert(attrs[attrs.len() - 1] == attrs.last());
        if lacks(rest, tag) && !(attrs.last().tag == tag && attrs.last().value is ByteString) {
            assert(lacks(attrs, tag)) by {
                assert forall|n: int| 0 <= n < attrs.len() implies (#[trigger] attrs[n]).tag != tag
                    || !(attrs[n].value is ByteString) by {
                    if n < rest.len() {
                        assert(rest[n] == attrs[n]);
                    }
                }
            }
        }
        if lacks(attrs, tag) {
            assert forall|n: int| 0 <= n < rest.len() implies (#[trigger] rest[n]).tag != tag || !(
            rest[n].value is ByteString) by {
                assert(attrs[n] == rest[n]);
            }
        }
    }
}

/// Signing hands the token the whole message with the number of the mechanism;
/// a mechanism without a number is refused.
pub proof fn law_whole_message_is_signed(message: Seq<u8>, mech: SignatureMechanism)
    ensures
        match signature_ckm(mech) {
            Ok(kind) => sign_call(message, mech) == Ok::<HostCallView, BackendErrorView>(
                HostCallView::Sign { mechanism: Mechanism { kind }, message },
            ),
            Err(e) => sign_call(message, mech) == Err::<HostCallView, BackendErrorView>(e),
        },
{
}

/// What a token signed is what comes out: but for ECDSA as it is, and for ECDSA,
/// over every digest, the two halves `r` and `s` as a SEQUENCE of two INTEGERs. A
/// raw ECDSA signature that has no two halves is an error, and a failed call is
/// the token's error.
pub proof fn law_signature_comes_out(
    mech: SignatureMechanism,
    digest: crate::mech::DigestAlgorithm,
    raw: Seq<u8>,
    r: Seq<u8>,
    s: Seq<u8>,
    code: Seq<char>,
)
    requires
        r.len() == s.len() > 0,
    ensures
        sign_result(mech, HostReplyView::Failed(code)) == Err::<Seq<u8>, BackendErrorView>(
            backend_error(code),
        ),
        !(mech is Ecdsa) ==> sign_result(mech, HostReplyView::Bytes(raw)) == Ok::<
            Seq<u8>,
            BackendErrorView,
        >(raw),
        sign_result(SignatureMechanism::Ecdsa(digest), HostReplyView::Bytes(r + s)) == Ok::<
            Seq<u8>,
            BackendErrorView,
        >(
            crate::der::tlv(
                0x30,
                crate::der::tlv(0x02, crate::der::integer_content(r)) + crate::der::tlv(
                    0x02,
                    crate::der::integer_content(s),
                ),
            ),
        ),
        raw.len() == 0 || raw.len() % 2 == 1 ==> sign_result(
            SignatureMechanism::Ecdsa(digest),
            HostReplyView::Bytes(raw),
        ) == Err::<Seq<u8>, BackendErrorView>(
            internal("ECDSA DER: "@ + "raw ECDSA signature is not two numbers of equal length"@),
        ),
{
    crate::spki::law_two_halves_are_a_signature(r, s);
}

/// The verdict depends on the token's reply alone, whatever the key, the message,
/// the signature and the mechanism: it is good if and only if the call succeeded,
/// bad if and only if the call failed over the signature, and any other failure
/// is that error.
pub proof fn law_token_gives_the_verdict(
    key: KeyView,
    message: Seq<u8>,
    signature: Seq<u8>,
    mech: SignatureMechanism,
    reply: HostReplyView,
)
    ensures
        ({
            let step = verify_step(key, message, signature, mech, VerifyState::Checking, reply);
            &&& step == VerifyStepView::Done(true) <==> !(reply is Failed)
            &&& step == VerifyStepView::Done(false) <==> reply is Failed && occurs(
                "Signature"@,
                reply->Failed_0,
            )
            &&& reply is Failed && !occurs("Signature"@, reply->Failed_0) ==> step
                == VerifyStepView::Fail(backend_error(reply->Failed_0))
        }),
{
}

/// Before the verdict the public half is looked for, step by step as in any
/// search, and then the token gets the whole message and the whole signature with
/// the number of the mechanism. A mechanism without a number is refused before
/// anything is looked for.
pub proof fn law_token_gets_message_and_signature(
    key: KeyView,
    message: Seq<u8>,
    signature: Seq<u8>,
    mech: SignatureMechanism,
    state: FindState,
    reply: HostReplyView,
)
    ensures
        match signature_ckm(mech) {
            Err(e) => verify_start(key, message, signature, mech) == VerifyStepView::Fail(e),
            Ok(kind) => {
                &&& find_start(key.uri, KeyHalf::Public) matches StepView::Call(next, call)
                &&& verify_start(key, message, signature, mech) == VerifyStepView::Call(
                    VerifyState::Finding(next),
                    call,
                )
            },
        },
        match find_step(key.uri, KeyHalf::Public, state, reply) {
            StepView::Call(next, call) => verify_step(
                key,
                message,
                signature,
                mech,
                VerifyState::Finding(state),
                reply,
            ) == VerifyStepView::Call(VerifyState::Finding(next), call),
            StepView::Fail(e) => verify_step(
                key,
                message,
                signature,
                mech,
                VerifyState::Finding(state),
                reply,
            ) == VerifyStepView::Fail(e),
            StepView::Done => signature_ckm(mech) matches Ok(kind) ==> verify_step(
                key,
                message,
                signature,
                mech,
                VerifyState::Finding(state),
                reply,
            ) == VerifyStepView::Call(
                VerifyState::Checking,
                HostCallView::Verify { mechanism: Mechanism { kind }, message, signature },
            ),
        },
{
}

/// Decrypting hands the token the whole ciphertext with the number of the
/// standard for its mechanism, and takes up to 4096 bytes back. Two calls have the
/// same number only if their mechanisms are the same.
pub proof fn law_whole_ciphertext_is_decrypted(
    ciphertext: Seq<u8>,
    mech: CipherMechanism,
    other_text: Seq<u8>,
    other: CipherMechanism,
)
    ensures
        decrypt_call(ciphertext, mech) == (HostCallView::Decrypt {
            mechanism: Mechanism {
                kind: match mech {
                    CipherMechanism::RsaPkcs1 => 0x01,
                    CipherMechanism::RsaOaep => 0x09,
                    CipherMechanism::RsaRaw => 0x03,
                },
            },
            ciphertext,
            max_len: 4096,
        }),
        decrypt_call(ciphertext, mech) == decrypt_call(other_text, other) <==> ciphertext
            == other_text && mech == other,
{
    let call = decrypt_call(ciphertext, mech);
    let second = decrypt_call(other_text, other);
    if call == second {
        assert(call->Decrypt_mechanism == second->Decrypt_mechanism);
        assert(call->ciphertext == second->ciphertext);
    }
}

/// The plaintext is what the token gave, all of it, and a failed call is the
/// token's error.
pub proof fn law_plaintext_comes_out(plaintext: Seq<u8>, code: Seq<char>)
    ensures
        decrypt_result(HostReplyView::Bytes(plaintext)) == Ok::<Seq<u8>, BackendErrorView>(
            plaintext,
        ),
        decrypt_result(HostReplyView::Failed(code)) == Err::<Seq<u8>, BackendErrorView>(
            backend_error(code),
        ),
{
}

/// What is said of a key is said of all that is known of it, and what is said of
/// a step of all that it carries.
pub proof fn law_keys_show_what_they_hold(
    key: Key,
    algorithm: KeyAlgorithm,
    state: InfoState,
    call: HostCall,
    bytes: Vec<u8>,
    e: BackendError,
)
    ensures
        key@.uri == key.uri@,
        key.algorithm matches Some(a) ==> key@.algorithm == Some(a@),
        key.algorithm is None ==> key@.algorithm is None,
        key.spki_cache matches Some(spki) ==> key@.spki_cache == Some(spki@),
        key.spki_cache is None ==> key@.spki_cache is None,
        match algorithm {
            KeyAlgorithm::Ec(info) => algorithm@ == (KeyAlgorithmView::Ec { curve: info.curve@ }),
            KeyAlgorithm::Rsa(info) => algorithm@ == (KeyAlgorithmView::Rsa {
                modulus_bits: info.modulus_bits,
            }),
            KeyAlgorithm::Other => algorithm@ == KeyAlgorithmView::Other,
        },
        InfoStep::Call(state, call)@ == InfoStepView::Call(state, call@),
        InfoStep::Done(bytes)@ == InfoStepView::Done(bytes@),
        InfoStep::Fail(e)@ == InfoStepView::Fail(e@),
        AlgorithmStep::Done(algorithm)@ == AlgorithmStepView::Done(algorithm@),
        forall|s: AlgorithmState| #[trigger]
            AlgorithmStep::Call(s, call)@ == AlgorithmStepView::Call(s, call@),
        forall|s: VerifyState| #[trigger]
            VerifyStep::Call(s, call)@ == VerifyStepView::Call(s, call@),
        forall|good: bool| #[trigger] VerifyStep::Done(good)@ == VerifyStepView::Done(good),
        VerifyStep::Fail(e)@ == VerifyStepView::Fail(e@),
{
}

/// A reply that carries no bytes counts as one that carries none of them.
pub proof fn law_other_replies_carry_no_bytes(mech: SignatureMechanism, other: HostReplyView)
    requires
        !(other is Bytes),
        !(other is Failed),
    ensures
        sign_result(mech, other) == sign_result(mech, HostReplyView::Bytes(Seq::<u8>::empty())),
        decrypt_result(other) == decrypt_result(HostReplyView::Bytes(Seq::<u8>::empty())),
{
}

} // verus!
