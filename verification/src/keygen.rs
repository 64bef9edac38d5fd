//! Generating a key pair on the token.
use crate::ck;
use crate::error::{not_supported, BackendError, BackendErrorView};
use crate::host::{
    attrs_view, Attribute, AttributeValue, AttributeValueView, AttributeView, HostCall,
    HostCallView, KeyHalf,
};
use crate::mech::Mechanism;
use crate::object::{
    bytes_attr, bytes_attribute, class_of, find_template, push_attr, true_attr, true_attribute,
};
use crate::text::{join, same_text};
use crate::uri::{Pkcs11Uri, Pkcs11UriView};
use vstd::prelude::*;
use vstd::string::*;
use vstd::utf8::encode_utf8;

verus! {

/// The label of a new key: that of the URI, else `pkcs11-bridge-key`.
pub open spec fn new_label(uri: Pkcs11UriView) -> Seq<char> {
    match uri.object {
        Some(label) => label,
        None => "pkcs11-bridge-key"@,
    }
}

/// The identifier of a new key: that of the URI, else its label.
pub open spec fn new_id(uri: Pkcs11UriView) -> Seq<u8> {
    match uri.id {
        Some(id) => id,
        None => encode_utf8(new_label(uri)),
    }
}

/// The algorithm of a new key: that of the URI, else ECDSA on P-256.
pub open spec fn new_algorithm(uri: Pkcs11UriView) -> Seq<char> {
    match uri.algorithm {
        Some(algorithm) => algorithm,
        None => "ecdsa-p256"@,
    }
}

/// The part of the public template that every key has: it stays on the token,
/// verifies, and has label and identifier.
pub open spec fn public_base(uri: Pkcs11UriView) -> Seq<AttributeView> {
    seq![
        true_attr(ck::CKA_TOKEN),
        true_attr(ck::CKA_VERIFY),
        bytes_attr(ck::CKA_LABEL, encode_utf8(new_label(uri))),
        bytes_attr(ck::CKA_ID, new_id(uri)),
    ]
}

/// The private template: it stays on the token, hidden, signs, and has label
/// and identifier.
pub open spec fn private_template(uri: Pkcs11UriView) -> Seq<AttributeView> {
    seq![
        true_attr(ck::CKA_TOKEN),
        true_attr(ck::CKA_PRIVATE),
        true_attr(ck::CKA_SIGN),
        bytes_attr(ck::CKA_LABEL, encode_utf8(new_label(uri))),
        bytes_attr(ck::CKA_ID, new_id(uri)),
    ]
}

/// The call that generates the key pair, or why there is none.
pub open spec fn keygen_call(uri: Pkcs11UriView) -> Result<HostCallView, BackendErrorView> {
    if new_algorithm(uri) == "ecdsa-p256"@ {
        Ok(
            HostCallView::GenerateKeyPair {
                mechanism: Mechanism { kind: ck::CKM_ECDSA_KEY_PAIR_GEN },
                public_template: public_base(uri).push(
                    bytes_attr(ck::CKA_EC_PARAMS, ck::EC_PARAMS_P256@),
                ),
                private_template: private_template(uri),
            },
        )
    } else if new_algorithm(uri) == "rsa-2048"@ {
        Ok(
            HostCallView::GenerateKeyPair {
                mechanism: Mechanism { kind: ck::CKM_RSA_PKCS_KEY_PAIR_GEN },
                public_template: public_base(uri).push(
                    AttributeView {
                        tag: ck::CKA_MODULUS_BITS,
                        value: AttributeValueView::Uint32(2048),
                    },
                ).push(bytes_attr(ck::CKA_PUBLIC_EXPONENT, seq![0x01u8, 0x00u8, 0x01u8])),
                private_template: private_template(uri),
            },
        )
    } else {
        Err(
            not_supported(
                "init=true algorithm="@ + new_algorithm(uri)
                    + " -- only ecdsa-p256 / rsa-2048 supported"@,
            ),
        )
    }
}

/// The label of a new key.
fn label_of(uri: &Pkcs11Uri) -> (label: String)
    ensures
        label@ == new_label(uri@),
{
    match &uri.object {
        Some(label) => label.clone(),
        None => "pkcs11-bridge-key".to_owned(),
    }
}

/// The identifier of a new key.
fn id_of(uri: &Pkcs11Uri) -> (id: Vec<u8>)
    ensures
        id@ == new_id(uri@),
{
    match &uri.id {
        Some(id) => vstd::slice::slice_to_vec(id.as_slice()),
        None => label_of(uri).as_str().as_bytes_vec(),
    }
}

/// Adds label and identifier to a template.
fn push_names(template: &mut Vec<Attribute>, uri: &Pkcs11Uri)
    ensures
        attrs_view(final(template)@) == attrs_view(old(template)@).push(
            bytes_attr(ck::CKA_LABEL, encode_utf8(new_label(uri@))),
        ).push(bytes_attr(ck::CKA_ID, new_id(uri@))),
{
    push_attr(template, bytes_attribute(ck::CKA_LABEL, label_of(uri).as_str().as_bytes_vec()));
    push_attr(template, bytes_attribute(ck::CKA_ID, id_of(uri)));
}

/// The part of the public template that every key has.
fn make_public_base(uri: &Pkcs11Uri) -> (template: Vec<Attribute>)
    ensures
        attrs_view(template@) == public_base(uri@),
{
    let mut template: Vec<Attribute> = Vec::new();
    push_attr(&mut template, true_attribute(ck::CKA_TOKEN));
    push_attr(&mut template, true_attribute(ck::CKA_VERIFY));
    push_names(&mut template, uri);
    assert(attrs_view(template@) =~= public_base(uri@));
    template
}

/// The private template.
fn make_private_template(uri: &Pkcs11Uri) -> (template: Vec<Attribute>)
    ensures
        attrs_view(template@) == private_template(uri@),
{
    let mut template: Vec<Attribute> = Vec::new();
    push_attr(&mut template, true_attribute(ck::CKA_TOKEN));
    push_attr(&mut template, true_attribute(ck::CKA_PRIVATE));
    push_attr(&mut template, true_attribute(ck::CKA_SIGN));
    push_names(&mut template, uri);
    assert(attrs_view(template@) =~= private_template(uri@));
    template
}

/// The call that generates the key pair that `uri` names.
pub fn generate_keypair_for(uri: &Pkcs11Uri) -> (r: Result<HostCall, BackendError>)
    ensures
        match r {
            Ok(call) => keygen_call(uri@) == Ok::<HostCallView, BackendErrorView>(call@),
            Err(e) => keygen_call(uri@) == Err::<HostCallView, BackendErrorView>(e@),
        },
{
    let algorithm: &str = match &uri.algorithm {
        Some(algorithm) => algorithm.as_str(),
        None => "ecdsa-p256",
    };
    let mut public_template: Vec<Attribute> = make_public_base(uri);
    let kind: u64 = if same_text(algorithm, "ecdsa-p256") {
        push_attr(
            &mut public_template,
            bytes_attribute(
                ck::CKA_EC_PARAMS,
                vstd::slice::slice_to_vec(ck::EC_PARAMS_P256.as_slice()),
            ),
        );
        ck::CKM_ECDSA_KEY_PAIR_GEN
    } else if same_text(algorithm, "rsa-2048") {
        push_attr(
            &mut public_template,
            Attribute { tag: ck::CKA_MODULUS_BITS, value: AttributeValue::Uint32(2048) },
        );
        let exponent: Vec<u8> = vec![0x01, 0x00, 0x01];
        assert(exponent@ =~= seq![0x01u8, 0x00u8, 0x01u8]);
        push_attr(&mut public_template, bytes_attribute(ck::CKA_PUBLIC_EXPONENT, exponent));
        ck::CKM_RSA_PKCS_KEY_PAIR_GEN
    } else {
        let mut text: String = join("init=true algorithm=", algorithm);
        text.append(" -- only ecdsa-p256 / rsa-2048 supported");
        return Err(BackendError::MechanismNotSupported(text));
    };
    Ok(
        HostCall::GenerateKeyPair {
            mechanism: Mechanism { kind },
            public_template,
            private_template: make_private_template(uri),
        },
    )
}

// ---------------------------------------------------------------------------
// Laws
// ---------------------------------------------------------------------------

/// A key that was generated for a URI is found by it: all that a search asks
/// for beyond the class stands in the templates of both halves.
pub proof fn law_generated_key_is_found(uri: Pkcs11UriView, half: KeyHalf, wanted: AttributeView)
    requires
        keygen_call(uri) is Ok,
        find_template(uri, class_of(half)).contains(wanted),
        wanted.tag != ck::CKA_CLASS,
    ensures
        keygen_call(uri)->Ok_0->public_template.contains(wanted),
        keygen_call(uri)->Ok_0->private_template.contains(wanted),
{
    let call = keygen_call(uri)->Ok_0;
    let public = call->public_template;
    let private = call->private_template;
    assert(public[2] == bytes_attr(ck::CKA_LABEL, encode_utf8(new_label(uri))));
    assert(public[3] == bytes_attr(ck::CKA_ID, new_id(uri)));
    assert(private[3] == bytes_attr(ck::CKA_LABEL, encode_utf8(new_label(uri))));
    assert(private[4] == bytes_attr(ck::CKA_ID, new_id(uri)));
    let template = find_template(uri, class_of(half));
    let i = choose|i: int| 0 <= i < template.len() && template[i] == wanted;
    assert(wanted == public[2] || wanted == public[3]);
}

/// The two halves of a generated pair share label and identifier, and both
/// stay on the token.
pub proof fn law_halves_belong_together(uri: Pkcs11UriView, tag: u32)
    requires
        keygen_call(uri) is Ok,
        tag == ck::CKA_LABEL || tag == ck::CKA_ID || tag == ck::CKA_TOKEN,
    ensures
        exists|a: AttributeView|
            #![trigger keygen_call(uri)->Ok_0->public_template.contains(a)]
            a.tag == tag && keygen_call(uri)->Ok_0->public_template.contains(a) && keygen_call(
                uri,
            )->Ok_0->private_template.contains(a),
{
    let call = keygen_call(uri)->Ok_0;
    let public = call->public_template;
    let private = call->private_template;
    assert(public[0] == true_attr(ck::CKA_TOKEN) && private[0] == public[0]);
    assert(public[2] == private[3]);
    assert(public[3] == private[4]);
    assert(public.contains(public[0]) && private.contains(private[0]));
    assert(public.contains(public[2]) && private.contains(private[3]));
    assert(public.contains(public[3]) && private.contains(private[4]));
}

/// What a new pair is made of. The public half stays on the token and verifies,
/// the private half stays on the token, is hidden and signs, and both have the
/// label and the identifier: those of the URI, else `pkcs11-bridge-key` and the
/// label's bytes. An EC pair is on P-256; an RSA pair has 2048 bits and the
/// exponent 65537. Without an algorithm it is an EC pair.
pub proof fn law_new_pair(uri: Pkcs11UriView)
    ensures
        ({
            let label = match uri.object {
                Some(label) => encode_utf8(label),
                None => encode_utf8("pkcs11-bridge-key"@),
            };
            let id = match uri.id {
                Some(id) => id,
                None => label,
            };
            let public = seq![
                AttributeView { tag: 0x01, value: AttributeValueView::Boolean(true) },
                AttributeView { tag: 0x10A, value: AttributeValueView::Boolean(true) },
                AttributeView { tag: 0x03, value: AttributeValueView::ByteString(label) },
                AttributeView { tag: 0x102, value: AttributeValueView::ByteString(id) },
            ];
            let private = seq![
                AttributeView { tag: 0x01, value: AttributeValueView::Boolean(true) },
                AttributeView { tag: 0x02, value: AttributeValueView::Boolean(true) },
                AttributeView { tag: 0x108, value: AttributeValueView::Boolean(true) },
                AttributeView { tag: 0x03, value: AttributeValueView::ByteString(label) },
                AttributeView { tag: 0x102, value: AttributeValueView::ByteString(id) },
            ];
            let ec = seq![
                AttributeView {
                    tag: 0x180,
                    value: AttributeValueView::ByteString(
                        seq![0x06u8, 0x08, 0x2a, 0x86, 0x48, 0xce, 0x3d, 0x03, 0x01, 0x07],
                    ),
                },
            ];
            let rsa = seq![
                AttributeView { tag: 0x121, value: AttributeValueView::Uint32(2048) },
                AttributeView {
                    tag: 0x122,
                    value: AttributeValueView::ByteString(seq![0x01u8, 0x00, 0x01]),
                },
            ];
            &&& uri.algorithm is None || uri.algorithm == Some("ecdsa-p256"@) ==> keygen_call(uri)
                == Ok::<HostCallView, BackendErrorView>(
                HostCallView::GenerateKeyPair {
                    mechanism: Mechanism { kind: 0x1040 },
                    public_template: public + ec,
                    private_template: private,
                },
            )
            &&& uri.algorithm == Some("rsa-2048"@) ==> keygen_call(uri) == Ok::<
                HostCallView,
                BackendErrorView,
            >(
                HostCallView::GenerateKeyPair {
                    mechanism: Mechanism { kind: 0x0000 },
                    public_template: public + rsa,
                    private_template: private,
                },
            )
        }),
{
    reveal_strlit("ecdsa-p256");
    reveal_strlit("rsa-2048");
    assert("ecdsa-p256"@.len() == 10 && "rsa-2048"@.len() == 8);
    let label = encode_utf8(new_label(uri));
    let id = new_id(uri);
    let public = seq![
        AttributeView { tag: 0x01, value: AttributeValueView::Boolean(true) },
        AttributeView { tag: 0x10A, value: AttributeValueView::Boolean(true) },
        AttributeView { tag: 0x03, value: AttributeValueView::ByteString(label) },
        AttributeView { tag: 0x102, value: AttributeValueView::ByteString(id) },
    ];
    let curve = seq![0x06u8, 0x08, 0x2a, 0x86, 0x48, 0xce, 0x3d, 0x03, 0x01, 0x07];
    assert(ck::EC_PARAMS_P256@ =~= curve);
    assert(public_base(uri) =~= public);
    assert(public_base(uri).push(bytes_attr(ck::CKA_EC_PARAMS, curve)) =~= public + seq![
        AttributeView { tag: 0x180, value: AttributeValueView::ByteString(curve) },
    ]);
    let exponent = seq![0x01u8, 0x00, 0x01];
    assert(public_base(uri).push(
        AttributeView { tag: ck::CKA_MODULUS_BITS, value: AttributeValueView::Uint32(2048) },
    ).push(bytes_attr(ck::CKA_PUBLIC_EXPONENT, exponent)) =~= public + seq![
        AttributeView { tag: 0x121, value: AttributeValueView::Uint32(2048) },
        AttributeView { tag: 0x122, value: AttributeValueView::ByteString(exponent) },
    ]);
}

/// Any other algorithm is refused by its name.
pub proof fn law_other_algorithms_are_refused(uri: Pkcs11UriView, algorithm: Seq<char>)
    requires
        uri.algorithm == Some(algorithm),
        algorithm != "ecdsa-p256"@,
        algorithm != "rsa-2048"@,
    ensures
        keygen_call(uri) == Err::<HostCallView, BackendErrorView>(
            not_supported(
                "init=true algorithm="@ + algorithm + " -- only ecdsa-p256 / rsa-2048 supported"@,
            ),
        ),
{
}

} // verus!
