use pkcs11_bridge::der::{der_bit_string, der_integer, der_seq, wrap};
use pkcs11_bridge::spki::{
    build_ec_spki, build_rsa_spki, ecdsa_raw_to_der, strip_octet_string,
};

#[test]
fn short_length_takes_one_byte() {
    assert_eq!(wrap(0x04, &[]), vec![0x04, 0x00]);
    assert_eq!(wrap(0x30, &[1, 2, 3]), vec![0x30, 0x03, 1, 2, 3]);
    assert_eq!(wrap(0x04, &[7; 127])[..2], [0x04, 0x7f]);
}

#[test]
fn long_length_takes_as_few_bytes_as_it_needs() {
    assert_eq!(wrap(0x04, &[7; 128])[..3], [0x04, 0x81, 0x80]);
    assert_eq!(wrap(0x04, &[7; 255])[..3], [0x04, 0x81, 0xff]);
    assert_eq!(wrap(0x04, &[7; 256])[..4], [0x04, 0x82, 0x01, 0x00]);
    assert_eq!(wrap(0x04, &vec![7; 65535])[..4], [0x04, 0x82, 0xff, 0xff]);
    assert_eq!(wrap(0x04, &vec![7; 65536])[..5], [0x04, 0x83, 0x01, 0x00, 0x00]);
    assert_eq!(
        wrap(0x04, &vec![7; 0x0100_0203])[..6],
        [0x04, 0x84, 0x01, 0x00, 0x02, 0x03]
    );
}

#[test]
fn sequence_and_bit_string() {
    assert_eq!(der_seq(&[5, 0]), vec![0x30, 0x02, 5, 0]);
    assert_eq!(der_bit_string(&[0xaa, 0xbb]), vec![0x03, 0x03, 0x00, 0xaa, 0xbb]);
    assert_eq!(der_bit_string(&[]), vec![0x03, 0x01, 0x00]);
}

#[test]
fn integer_is_canonical() {
    assert_eq!(der_integer(&[0x01, 0x00, 0x01]), vec![0x02, 0x03, 0x01, 0x00, 0x01]);
    assert_eq!(der_integer(&[0x7f]), vec![0x02, 0x01, 0x7f]);
    assert_eq!(der_integer(&[0x80]), vec![0x02, 0x02, 0x00, 0x80]);
    assert_eq!(der_integer(&[0x00, 0x00, 0x7f]), vec![0x02, 0x01, 0x7f]);
    assert_eq!(der_integer(&[0x00, 0x00, 0x80]), vec![0x02, 0x02, 0x00, 0x80]);
    assert_eq!(der_integer(&[0x00]), vec![0x02, 0x01, 0x00]);
    assert_eq!(der_integer(&[0x00, 0x00]), vec![0x02, 0x01, 0x00]);
    assert_eq!(der_integer(&[]), vec![0x02, 0x00]);
}

#[test]
fn stripping_undoes_wrapping() {
    for len in [0usize, 1, 65, 127, 128, 255, 256, 65535, 65536] {
        let content: Vec<u8> = (0..len).map(|i| (i % 251) as u8).collect();
        let wrapped = wrap(0x04, &content);
        assert_eq!(strip_octet_string(&wrapped), Ok(content.as_slice()));
        let mut longer = wrapped.clone();
        longer.push(0x99);
        assert_eq!(strip_octet_string(&longer), Ok(content.as_slice()));
    }
}

#[test]
fn strip_takes_long_forms_that_are_not_canonical() {
    assert_eq!(strip_octet_string(&[0x04, 0x81, 0x01, 0xaa]), Ok(&[0xaa][..]));
    assert_eq!(strip_octet_string(&[0x04, 0x80]), Ok(&[][..]));
    assert_eq!(strip_octet_string(&[0x04, 0x83, 0, 0, 2, 1, 2]), Ok(&[1, 2][..]));
}

#[test]
fn strip_refuses_what_is_no_octet_string() {
    let e = Err("CKA_EC_POINT not an OCTET STRING");
    assert_eq!(strip_octet_string(&[]), e);
    assert_eq!(strip_octet_string(&[0x04]), e);
    assert_eq!(strip_octet_string(&[0x03, 0x01, 0x00]), e);
}

#[test]
fn strip_refuses_what_is_cut_off() {
    assert_eq!(strip_octet_string(&[0x04, 0x82, 0x01]), Err("truncated OCTET STRING length"));
    assert_eq!(strip_octet_string(&[0x04, 0x02, 0xaa]), Err("truncated OCTET STRING value"));
    assert_eq!(strip_octet_string(&[0x04, 0x81, 0x02, 0xaa]), Err("truncated OCTET STRING value"));
}

#[test]
fn lengths_beyond_a_word_are_cut_off() {
    let e = Err("truncated OCTET STRING value");
    let mut der = vec![0x04, 0x88];
    der.extend([0xff; 8]);
    assert_eq!(strip_octet_string(&der), e);
    assert_eq!(build_ec_spki(&[], &der), Err("truncated OCTET STRING value"));
    let mut der = vec![0x04, 0x89, 0x01];
    der.extend([0x00; 8]);
    assert_eq!(strip_octet_string(&der), e);
    let mut der = vec![0x04, 0xff];
    der.extend([0x01; 127]);
    assert_eq!(strip_octet_string(&der), e);
    let mut der = vec![0x04, 0xff];
    der.extend([0x00; 126]);
    der.extend([0x01, 0xaa]);
    assert_eq!(strip_octet_string(&der), Ok(&[0xaa][..]));
}

#[test]
fn ec_structure() {
    let params = [0x06, 0x08, 0x2a, 0x86, 0x48, 0xce, 0x3d, 0x03, 0x01, 0x07];
    let point = wrap(0x04, &[0x04; 65]);
    let spki = build_ec_spki(&params, &point).unwrap();
    let mut expected = vec![
        0x30, 0x59, 0x30, 0x13, 0x06, 0x07, 0x2a, 0x86, 0x48, 0xce, 0x3d, 0x02, 0x01, 0x06, 0x08,
        0x2a, 0x86, 0x48, 0xce, 0x3d, 0x03, 0x01, 0x07, 0x03, 0x42, 0x00,
    ];
    expected.extend(vec![0x04; 65]);
    assert_eq!(spki, expected);
}

#[test]
fn ec_structure_needs_a_wrapped_point() {
    assert_eq!(
        build_ec_spki(&[], &[0x05, 0x00]),
        Err("CKA_EC_POINT not an OCTET STRING")
    );
    assert_eq!(build_ec_spki(&[], &[0x04, 0x01]), Err("truncated OCTET STRING value"));
}

#[test]
fn rsa_structure() {
    assert_eq!(
        build_rsa_spki(&[0x00, 0xc1], &[0x01, 0x00, 0x01]),
        vec![
            0x30, 0x1d, 0x30, 0x0d, 0x06, 0x09, 0x2a, 0x86, 0x48, 0x86, 0xf7, 0x0d, 0x01, 0x01,
            0x01, 0x05, 0x00, 0x03, 0x0c, 0x00, 0x30, 0x09, 0x02, 0x02, 0x00, 0xc1, 0x02, 0x03,
            0x01, 0x00, 0x01,
        ]
    );
}

#[test]
fn ecdsa_signature_in_der() {
    assert_eq!(
        ecdsa_raw_to_der(&[0x00, 0x01, 0x80, 0x02]),
        Ok(vec![0x30, 0x08, 0x02, 0x01, 0x01, 0x02, 0x03, 0x00, 0x80, 0x02])
    );
    let e = Err("raw ECDSA signature is not two numbers of equal length");
    assert_eq!(ecdsa_raw_to_der(&[]), e);
    assert_eq!(ecdsa_raw_to_der(&[1, 2, 3]), e);
}
