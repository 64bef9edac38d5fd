//! SubjectPublicKeyInfo structures for the two kinds of key that a token
//! hands out, EC and RSA, and the DER form of an ECDSA signature.
use crate::der::{
    append_bytes, be_nat, bit_string_der, der_bit_string, der_integer, der_seq, integer_content,
    integer_der, law_integer_keeps_value, law_length_canonical, law_tlv_len, law_tlv_reads_back,
    length_octets, read_tlv, seq_der, tlv, TAG_BIT_STRING, TAG_INTEGER, TAG_OCTET_STRING, TAG_SEQUENCE,
};
use vstd::prelude::*;

verus! {

/// id-ecPublicKey, 1.2.840.10045.2.1, with tag and length.
pub const OID_ID_EC_PUBLIC_KEY: [u8; 9] = [0x06, 0x07, 0x2a, 0x86, 0x48, 0xce, 0x3d, 0x02, 0x01];

/// rsaEncryption, 1.2.840.113549.1.1.1, with tag and length.
pub const OID_RSA_ENCRYPTION: [u8; 11] = [
    0x06,
    0x09,
    0x2a,
    0x86,
    0x48,
    0x86,
    0xf7,
    0x0d,
    0x01,
    0x01,
    0x01,
];

/// NULL.
pub const DER_NULL: [u8; 2] = [0x05, 0x00];

// ---------------------------------------------------------------------------
// OCTET STRING
// ---------------------------------------------------------------------------

/// Where the content of the element `der` starts, if its length is all there.
pub open spec fn header_len(der: Seq<u8>) -> int {
    if der[1] < 0x80 {
        2
    } else {
        2 + (der[1] - 0x80)
    }
}

/// The content length that the header of `der` announces.
pub open spec fn content_len(der: Seq<u8>) -> int {
    if der[1] < 0x80 {
        der[1] as int
    } else {
        be_nat(der.subrange(2, header_len(der))) as int
    }
}

/// The content of the OCTET STRING at the front of `der`, or why there is none.
pub open spec fn octet_string_content(der: Seq<u8>) -> Result<Seq<u8>, Seq<char>> {
    if der.len() < 2 || der[0] != TAG_OCTET_STRING {
        Err("CKA_EC_POINT not an OCTET STRING"@)
    } else if der.len() < header_len(der) {
        Err("truncated OCTET STRING length"@)
    } else if der.len() < header_len(der) + content_len(der) {
        Err("truncated OCTET STRING value"@)
    } else {
        Ok(der.subrange(header_len(der), header_len(der) + content_len(der)))
    }
}

/// Reads the length bytes `der[2..2 + count]`. `None` if the length is more
/// than a machine word holds.
fn read_length(der: &[u8], count: usize) -> (len: Option<usize>)
    requires
        2 + count <= der@.len(),
    ensures
        match len {
            Some(n) => n == be_nat(der@.subrange(2, 2 + count)),
            None => be_nat(der@.subrange(2, 2 + count)) > usize::MAX,
        },
{
    let mut len: Option<usize> = Some(0);
    let mut i: usize = 0;
    assert(der@.subrange(2, 2) =~= Seq::<u8>::empty());
    while i < count
        invariant
            i <= count,
            2 + count <= der.len(),
            match len {
                Some(n) => n == be_nat(der@.subrange(2, 2 + i)),
                None => be_nat(der@.subrange(2, 2 + i)) > usize::MAX,
            },
        decreases count - i,
    {
        assert(der@.subrange(2, 2 + i + 1).drop_last() =~= der@.subrange(2, 2 + i));
        let b: usize = der[2 + i] as usize;
        len = match len {
            Some(n) => if n <= (usize::MAX - b) / 256 {
                Some(n * 256 + b)
            } else {
                None
            },
            None => None,
        };
        i += 1;
    }
    len
}

/// The bytes inside the OCTET STRING `der_bytes`. A token conventionally
/// returns `CKA_EC_POINT` as an OCTET STRING around the SEC1 point. Bytes
/// behind the element are ignored.
pub fn strip_octet_string(der_bytes: &[u8]) -> (r: Result<&[u8], &'static str>)
    ensures
        match r {
            Ok(content) => octet_string_content(der_bytes@) == Ok::<Seq<u8>, Seq<char>>(content@),
            Err(e) => octet_string_content(der_bytes@) == Err::<Seq<u8>, Seq<char>>(e@),
        },
{
    if der_bytes.len() < 2 || der_bytes[0] != TAG_OCTET_STRING {
        return Err("CKA_EC_POINT not an OCTET STRING");
    }
    let mut header: usize = 2;
    let mut announced: Option<usize> = Some(der_bytes[1] as usize);
    if der_bytes[1] >= 0x80 {
        let count: usize = (der_bytes[1] - 0x80) as usize;
        if der_bytes.len() < 2 + count {
            return Err("truncated OCTET STRING length");
        }
        announced = read_length(der_bytes, count);
        header = 2 + count;
    }
    match announced {
        Some(len) => if len <= der_bytes.len() - header {
            Ok(vstd::slice::slice_subrange(der_bytes, header, header + len))
        } else {
            Err("truncated OCTET STRING value")
        },
        None => Err("truncated OCTET STRING value"),
    }
}

// ---------------------------------------------------------------------------
// SubjectPublicKeyInfo
// ---------------------------------------------------------------------------

/// What stands inside the outer SEQUENCE of an EC SubjectPublicKeyInfo.
pub open spec fn ec_spki_body(params: Seq<u8>, point: Seq<u8>) -> Seq<u8> {
    seq_der(OID_ID_EC_PUBLIC_KEY@ + params) + bit_string_der(point)
}

/// SubjectPublicKeyInfo of an EC key:
/// `SEQUENCE { SEQUENCE { id-ecPublicKey, params }, BIT STRING point }`.
pub open spec fn ec_spki(params: Seq<u8>, point: Seq<u8>) -> Seq<u8> {
    seq_der(ec_spki_body(params, point))
}

/// RSAPublicKey: `SEQUENCE { INTEGER modulus, INTEGER exponent }`.
pub open spec fn rsa_public_key(modulus: Seq<u8>, public_exponent: Seq<u8>) -> Seq<u8> {
    seq_der(integer_der(modulus) + integer_der(public_exponent))
}

/// What stands inside the outer SEQUENCE of an RSA SubjectPublicKeyInfo.
pub open spec fn rsa_spki_body(modulus: Seq<u8>, public_exponent: Seq<u8>) -> Seq<u8> {
    seq_der(OID_RSA_ENCRYPTION@ + DER_NULL@) + bit_string_der(
        rsa_public_key(modulus, public_exponent),
    )
}

/// SubjectPublicKeyInfo of an RSA key:
/// `SEQUENCE { SEQUENCE { rsaEncryption, NULL }, BIT STRING RSAPublicKey }`.
pub open spec fn rsa_spki(modulus: Seq<u8>, public_exponent: Seq<u8>) -> Seq<u8> {
    seq_der(rsa_spki_body(modulus, public_exponent))
}

/// What [`build_ec_spki`] makes of the two attribute values.
pub open spec fn ec_spki_of(ec_params_der: Seq<u8>, ec_point_der: Seq<u8>) -> Result<
    Seq<u8>,
    Seq<char>,
> {
    match octet_string_content(ec_point_der) {
        Ok(point) => Ok(ec_spki(ec_params_der, point)),
        Err(e) => Err(e),
    }
}

/// Builds the SubjectPublicKeyInfo of an EC key.
///
/// `ec_params_der` is `CKA_EC_PARAMS`, the curve's name; `ec_point_der` is
/// `CKA_EC_POINT`, an OCTET STRING around the SEC1 point.
pub fn build_ec_spki(ec_params_der: &[u8], ec_point_der: &[u8]) -> (r: Result<
    Vec<u8>,
    &'static str,
>)
    ensures
        match r {
            Ok(spki) => ec_spki_of(ec_params_der@, ec_point_der@) == Ok::<Seq<u8>, Seq<char>>(
                spki@,
            ),
            Err(e) => ec_spki_of(ec_params_der@, ec_point_der@) == Err::<Seq<u8>, Seq<char>>(e@),
        },
{
    let point: &[u8] = match strip_octet_string(ec_point_der) {
        Ok(point) => point,
        Err(e) => return Err(e),
    };
    let mut alg_id: Vec<u8> = Vec::new();
    append_bytes(&mut alg_id, OID_ID_EC_PUBLIC_KEY.as_slice());
    append_bytes(&mut alg_id, ec_params_der);
    assert(alg_id@ =~= OID_ID_EC_PUBLIC_KEY@ + ec_params_der@);
    let mut spki: Vec<u8> = der_seq(alg_id.as_slice());
    let bits: Vec<u8> = der_bit_string(point);
    append_bytes(&mut spki, bits.as_slice());
    Ok(der_seq(spki.as_slice()))
}

/// Builds the SubjectPublicKeyInfo of an RSA key from the big-endian bytes of
/// its modulus and its public exponent.
pub fn build_rsa_spki(modulus: &[u8], public_exponent: &[u8]) -> (spki: Vec<u8>)
    ensures
        spki@ == rsa_spki(modulus@, public_exponent@),
{
    let mut rsa_pub: Vec<u8> = der_integer(modulus);
    let e: Vec<u8> = der_integer(public_exponent);
    append_bytes(&mut rsa_pub, e.as_slice());
    let rsa_pub_seq: Vec<u8> = der_seq(rsa_pub.as_slice());

    let mut alg_id: Vec<u8> = Vec::new();
    append_bytes(&mut alg_id, OID_RSA_ENCRYPTION.as_slice());
    append_bytes(&mut alg_id, DER_NULL.as_slice());
    assert(alg_id@ =~= OID_RSA_ENCRYPTION@ + DER_NULL@);

    let mut spki: Vec<u8> = der_seq(alg_id.as_slice());
    let bits: Vec<u8> = der_bit_string(rsa_pub_seq.as_slice());
    append_bytes(&mut spki, bits.as_slice());
    der_seq(spki.as_slice())
}

// ---------------------------------------------------------------------------
// ECDSA signatures
// ---------------------------------------------------------------------------

/// `raw` is two numbers of equal length side by side.
pub open spec fn is_raw_ecdsa(raw: Seq<u8>) -> bool {
    raw.len() > 0 && raw.len() % 2 == 0
}

/// The two INTEGERs of a raw signature `r || s`.
pub open spec fn ecdsa_body(raw: Seq<u8>) -> Seq<u8> {
    let half = raw.len() as int / 2;
    integer_der(raw.take(half)) + integer_der(raw.skip(half))
}

/// The DER form of a raw signature `r || s`: `SEQUENCE { INTEGER r, INTEGER s }`.
pub open spec fn ecdsa_der(raw: Seq<u8>) -> Seq<u8> {
    seq_der(ecdsa_body(raw))
}

/// Turns the raw `r || s` signature that a token returns into its DER form.
pub fn ecdsa_raw_to_der(raw: &[u8]) -> (r: Result<Vec<u8>, &'static str>)
    ensures
        match r {
            Ok(der) => is_raw_ecdsa(raw@) && der@ == ecdsa_der(raw@),
            Err(e) => !is_raw_ecdsa(raw@) && e@
                == "raw ECDSA signature is not two numbers of equal length"@,
        },
{
    if raw.len() == 0 || raw.len() % 2 != 0 {
        return Err("raw ECDSA signature is not two numbers of equal length");
    }
    let half: usize = raw.len() / 2;
    let mut body: Vec<u8> = der_integer(vstd::slice::slice_subrange(raw, 0, half));
    let s: Vec<u8> = der_integer(vstd::slice::slice_subrange(raw, half, raw.len()));
    append_bytes(&mut body, s.as_slice());
    Ok(der_seq(body.as_slice()))
}

// ---------------------------------------------------------------------------
// Laws
// ---------------------------------------------------------------------------

/// Reads the curve parameters and the point out of an EC SubjectPublicKeyInfo.
pub open spec fn read_ec_spki(spki: Seq<u8>) -> Option<(Seq<u8>, Seq<u8>)> {
    match read_tlv(TAG_SEQUENCE, spki) {
        Some((body, end)) => match read_tlv(TAG_SEQUENCE, body) {
            Some((alg, key)) => match read_tlv(TAG_BIT_STRING, key) {
                Some((bits, tail)) => if end.len() == 0 && tail.len() == 0 && alg.len() >= 9
                    && alg.take(9) == OID_ID_EC_PUBLIC_KEY@ && bits.len() > 0 && bits[0] == 0 {
                    Some((alg.skip(9), bits.skip(1)))
                } else {
                    None
                },
                None => None,
            },
            None => None,
        },
        None => None,
    }
}

/// Reads the two numbers of a `SEQUENCE { INTEGER, INTEGER }`.
pub open spec fn read_two_integers(der: Seq<u8>) -> Option<(nat, nat)> {
    match read_tlv(TAG_SEQUENCE, der) {
        Some((body, end)) => match read_tlv(TAG_INTEGER, body) {
            Some((first, rest)) => match read_tlv(TAG_INTEGER, rest) {
                Some((second, tail)) => if end.len() == 0 && tail.len() == 0 {
                    Some((be_nat(first), be_nat(second)))
                } else {
                    None
                },
                None => None,
            },
            None => None,
        },
        None => None,
    }
}

/// Reads modulus and public exponent out of an RSA SubjectPublicKeyInfo.
pub open spec fn read_rsa_spki(spki: Seq<u8>) -> Option<(nat, nat)> {
    match read_tlv(TAG_SEQUENCE, spki) {
        Some((body, end)) => match read_tlv(TAG_SEQUENCE, body) {
            Some((alg, key)) => match read_tlv(TAG_BIT_STRING, key) {
                Some((bits, tail)) => if end.len() == 0 && tail.len() == 0 && alg
                    == OID_RSA_ENCRYPTION@ + DER_NULL@ && bits.len() > 0 && bits[0] == 0 {
                    read_two_integers(bits.skip(1))
                } else {
                    None
                },
                None => None,
            },
            None => None,
        },
        None => None,
    }
}

/// A whole element reads back with nothing left over.
proof fn lemma_reads_back_alone(tag: u8, content: Seq<u8>)
    requires
        content.len() < 0x1_0000_0000,
    ensures
        read_tlv(tag, tlv(tag, content)) == Some((content, Seq::<u8>::empty())),
{
    law_tlv_reads_back(tag, content, Seq::<u8>::empty());
    assert(tlv(tag, content) + Seq::<u8>::empty() =~= tlv(tag, content));
}

/// Two elements side by side read back one after the other.
proof fn lemma_pair_reads_back(tag1: u8, content1: Seq<u8>, tag2: u8, content2: Seq<u8>)
    requires
        (tlv(tag1, content1) + tlv(tag2, content2)).len() < 0x1_0000_0000,
    ensures
        read_tlv(tag1, tlv(tag1, content1) + tlv(tag2, content2)) == Some(
            (content1, tlv(tag2, content2)),
        ),
        read_tlv(tag2, tlv(tag2, content2)) == Some((content2, Seq::<u8>::empty())),
        content1.len() < 0x1_0000_0000,
        content2.len() < 0x1_0000_0000,
{
    law_tlv_len(tag1, content1);
    law_tlv_len(tag2, content2);
    law_tlv_reads_back(tag1, content1, tlv(tag2, content2));
    lemma_reads_back_alone(tag2, content2);
}

/// Two numbers written as a `SEQUENCE { INTEGER, INTEGER }` read back as
/// those numbers.
proof fn lemma_two_integers_read_back(a: Seq<u8>, b: Seq<u8>)
    requires
        (integer_der(a) + integer_der(b)).len() < 0x1_0000_0000,
    ensures
        read_two_integers(seq_der(integer_der(a) + integer_der(b))) == Some((be_nat(a), be_nat(b))),
{
    lemma_pair_reads_back(TAG_INTEGER, integer_content(a), TAG_INTEGER, integer_content(b));
    lemma_reads_back_alone(TAG_SEQUENCE, integer_der(a) + integer_der(b));
    law_integer_keeps_value(a);
    law_integer_keeps_value(b);
}

/// Stripping undoes wrapping: the content of an OCTET STRING comes back as it
/// went in, whatever follows the element, when the length octets can hold its
/// length.
pub proof fn law_octet_string_strips(content: Seq<u8>, rest: Seq<u8>)
    requires
        content.len() < 0x1_0000_0000,
    ensures
        octet_string_content(tlv(TAG_OCTET_STRING, content) + rest) == Ok::<Seq<u8>, Seq<char>>(
            content,
        ),
{
    let n = content.len();
    let der = tlv(TAG_OCTET_STRING, content) + rest;
    law_length_canonical(n);
    if n >= 0x80 {
        assert(der[1] == length_octets(n)[0]);
        assert(der.subrange(2, header_len(der)) =~= length_octets(n).skip(1));
    }
    assert(der.subrange(header_len(der), header_len(der) + content_len(der)) =~= content);
}

/// The EC structure holds the key it was built from: the curve parameters and
/// the point read back as they went in, as long as the length octets can hold
/// the length of the whole.
pub proof fn law_ec_spki_reads_back(params: Seq<u8>, point: Seq<u8>)
    requires
        ec_spki_body(params, point).len() < 0x1_0000_0000,
    ensures
        read_ec_spki(ec_spki(params, point)) == Some((params, point)),
{
    let alg = OID_ID_EC_PUBLIC_KEY@ + params;
    let bits = seq![0u8] + point;
    lemma_pair_reads_back(TAG_SEQUENCE, alg, TAG_BIT_STRING, bits);
    lemma_reads_back_alone(TAG_SEQUENCE, ec_spki_body(params, point));
    assert(alg.take(9) =~= OID_ID_EC_PUBLIC_KEY@);
    assert(alg.skip(9) =~= params);
    assert(bits.skip(1) =~= point);
}

/// The RSA structure holds the key it was built from: the numbers that the
/// modulus and the exponent bytes spell read back, as long as the length
/// octets can hold the length of the whole.
pub proof fn law_rsa_spki_reads_back(modulus: Seq<u8>, public_exponent: Seq<u8>)
    requires
        rsa_spki_body(modulus, public_exponent).len() < 0x1_0000_0000,
    ensures
        read_rsa_spki(rsa_spki(modulus, public_exponent)) == Some(
            (be_nat(modulus), be_nat(public_exponent)),
        ),
{
    let alg = OID_RSA_ENCRYPTION@ + DER_NULL@;
    let key = rsa_public_key(modulus, public_exponent);
    let bits = seq![0u8] + key;
    lemma_pair_reads_back(TAG_SEQUENCE, alg, TAG_BIT_STRING, bits);
    lemma_reads_back_alone(TAG_SEQUENCE, rsa_spki_body(modulus, public_exponent));
    law_tlv_len(TAG_SEQUENCE, integer_der(modulus) + integer_der(public_exponent));
    lemma_two_integers_read_back(modulus, public_exponent);
    assert(bits.skip(1) =~= key);
}

/// The DER form of an ECDSA signature holds the two numbers of the raw form,
/// as long as the length octets can hold the length of the whole.
pub proof fn law_ecdsa_der_reads_back(raw: Seq<u8>)
    requires
        is_raw_ecdsa(raw),
        ecdsa_body(raw).len() < 0x1_0000_0000,
    ensures
        read_two_integers(ecdsa_der(raw)) == Some(
            (be_nat(raw.take(raw.len() as int / 2)), be_nat(raw.skip(raw.len() as int / 2))),
        ),
{
    let half = raw.len() as int / 2;
    lemma_two_integers_read_back(raw.take(half), raw.skip(half));
}

/// What a token hands out as `CKA_EC_POINT` ends up in the structure without
/// its wrapping: reading the result gives the parameters and the bare point.
pub proof fn law_ec_spki_of_wrapped_point(params: Seq<u8>, point: Seq<u8>)
    requires
        ec_spki_body(params, point).len() < 0x1_0000_0000,
    ensures
        ec_spki_of(params, tlv(TAG_OCTET_STRING, point)) is Ok,
        read_ec_spki(ec_spki_of(params, tlv(TAG_OCTET_STRING, point))->Ok_0) == Some(
            (params, point),
        ),
{
    let wrapped = tlv(TAG_OCTET_STRING, point);
    assert(wrapped + Seq::<u8>::empty() =~= wrapped);
    law_tlv_len(TAG_BIT_STRING, seq![0u8] + point);
    law_octet_string_strips(point, Seq::<u8>::empty());
    law_ec_spki_reads_back(params, point);
}

/// An OCTET STRING in the short form gives its content, whatever follows it,
/// and is truncated where there are fewer bytes than it announces.
pub proof fn law_short_octet_string(n: u8, rest: Seq<u8>)
    requires
        n < 0x80,
    ensures
        octet_string_content(seq![0x04u8, n] + rest) == (if n <= rest.len() {
            Ok::<Seq<u8>, Seq<char>>(rest.take(n as int))
        } else {
            Err("truncated OCTET STRING value"@)
        }),
{
    let der = seq![0x04u8, n] + rest;
    assert(der[0] == 0x04 && der[1] == n);
    if n <= rest.len() {
        assert(der.subrange(2, 2 + n) =~= rest.take(n as int));
    }
}

/// An OCTET STRING in the long form gives as many bytes as its length bytes
/// spell, however many those are and zeros in front or not, whatever follows;
/// it is truncated where there are fewer, of the length or of the content.
pub proof fn law_long_octet_string(length: Seq<u8>, rest: Seq<u8>, missing: nat)
    requires
        length.len() + missing < 0x80,
    ensures
        octet_string_content(seq![0x04u8, (0x80 + length.len()) as u8] + length + rest) == (
        if be_nat(length) <= rest.len() {
            Ok::<Seq<u8>, Seq<char>>(rest.take(be_nat(length) as int))
        } else {
            Err("truncated OCTET STRING value"@)
        }),
        missing > 0 ==> octet_string_content(
            seq![0x04u8, (0x80 + length.len() + missing) as u8] + length,
        ) == Err::<Seq<u8>, Seq<char>>("truncated OCTET STRING length"@),
{
    let der = seq![0x04u8, (0x80 + length.len()) as u8] + length + rest;
    let header = 2 + length.len() as int;
    assert(der[0] == 0x04 && der[1] == 0x80 + length.len());
    assert(der.subrange(2, header) =~= length);
    if be_nat(length) <= rest.len() {
        assert(der.subrange(header, header + be_nat(length)) =~= rest.take(be_nat(length) as int));
    }
    let cut = seq![0x04u8, (0x80 + length.len() + missing) as u8] + length;
    assert(cut[0] == 0x04 && cut[1] == 0x80 + length.len() + missing);
}

/// What is too short for an element, or has another tag, is no OCTET STRING.
pub proof fn law_not_an_octet_string(der: Seq<u8>)
    requires
        der.len() < 2 || der[0] != 0x04,
    ensures
        octet_string_content(der) == Err::<Seq<u8>, Seq<char>>(
            "CKA_EC_POINT not an OCTET STRING"@,
        ),
{
}

/// The public key of an EC key holds the parameters and the bare point,
/// however the point was wrapped; a point that cannot be unwrapped is reported
/// as such.
pub proof fn law_ec_spki_of_any_point(params: Seq<u8>, wrapped: Seq<u8>)
    ensures
        match octet_string_content(wrapped) {
            Ok(point) => {
                &&& ec_spki_of(params, wrapped) is Ok
                &&& (tlv(0x30, OID_ID_EC_PUBLIC_KEY@ + params) + tlv(0x03, seq![0u8] + point)).len()
                    < 0x1_0000_0000 ==> read_ec_spki(ec_spki_of(params, wrapped)->Ok_0) == Some(
                    (params, point),
                )
            },
            Err(e) => ec_spki_of(params, wrapped) == Err::<Seq<u8>, Seq<char>>(e),
        },
{
    if let Ok(point) = octet_string_content(wrapped) {
        if ec_spki_body(params, point).len() < 0x1_0000_0000 {
            law_ec_spki_reads_back(params, point);
        }
    }
}

/// The structures byte by byte: each is an outer element around two others, the
/// algorithm and the key, and nothing else stands in it.
pub proof fn law_spki_is_two_elements(
    params: Seq<u8>,
    point: Seq<u8>,
    modulus: Seq<u8>,
    exponent: Seq<u8>,
)
    ensures
        ec_spki(params, point) == tlv(
            0x30,
            tlv(0x30, seq![0x06u8, 0x07, 0x2a, 0x86, 0x48, 0xce, 0x3d, 0x02, 0x01] + params) + tlv(
                0x03,
                seq![0u8] + point,
            ),
        ),
        rsa_spki(modulus, exponent) == tlv(
            0x30,
            tlv(
                0x30,
                seq![
                    0x06u8,
                    0x09,
                    0x2a,
                    0x86,
                    0x48,
                    0x86,
                    0xf7,
                    0x0d,
                    0x01,
                    0x01,
                    0x01,
                    0x05,
                    0x00,
                ],
            ) + tlv(
                0x03,
                seq![0u8] + tlv(
                    0x30,
                    tlv(0x02, integer_content(modulus)) + tlv(0x02, integer_content(exponent)),
                ),
            ),
        ),
{
    assert(OID_ID_EC_PUBLIC_KEY@ =~= seq![0x06u8, 0x07, 0x2a, 0x86, 0x48, 0xce, 0x3d, 0x02, 0x01]);
    assert(OID_RSA_ENCRYPTION@ + DER_NULL@ =~= seq![
        0x06u8,
        0x09,
        0x2a,
        0x86,
        0x48,
        0x86,
        0xf7,
        0x0d,
        0x01,
        0x01,
        0x01,
        0x05,
        0x00,
    ]);
}

/// Two numbers of the same length side by side are a raw signature, however
/// long they are, and its DER form holds the two. An odd number of bytes, and
/// none, is no signature.
pub proof fn law_two_halves_are_a_signature(r: Seq<u8>, s: Seq<u8>)
    requires
        r.len() > 0,
        r.len() == s.len(),
    ensures
        is_raw_ecdsa(r + s),
        ecdsa_der(r + s) == tlv(0x30, tlv(0x02, integer_content(r)) + tlv(0x02, integer_content(s))),
        (tlv(0x02, integer_content(r)) + tlv(0x02, integer_content(s))).len() < 0x1_0000_0000
            ==> read_two_integers(ecdsa_der(r + s)) == Some((be_nat(r), be_nat(s))),
        forall|raw: Seq<u8>| #![trigger is_raw_ecdsa(raw)]
            is_raw_ecdsa(raw) ==> raw.len() > 0 && raw.len() % 2 == 0,
{
    let raw = r + s;
    assert(raw.len() == 2 * r.len());
    assert(raw.take(r.len() as int) =~= r);
    assert(raw.skip(r.len() as int) =~= s);
    if ecdsa_body(raw).len() < 0x1_0000_0000 {
        law_ecdsa_der_reads_back(raw);
    }
}

} // verus!
