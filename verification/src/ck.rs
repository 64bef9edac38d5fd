//! The numbers of the PKCS#11 standard that the bridge speaks with.
use vstd::prelude::*;

verus! {

// Object classes.
pub const CKO_PUBLIC_KEY: u32 = 0x02;

pub const CKO_PRIVATE_KEY: u32 = 0x03;

// Key types.
pub const CKK_RSA: u32 = 0x00;

pub const CKK_EC: u32 = 0x03;

// Attributes.
pub const CKA_CLASS: u32 = 0x00;

/// The object outlives the session.
pub const CKA_TOKEN: u32 = 0x01;

/// The object is hidden until the user logs in.
pub const CKA_PRIVATE: u32 = 0x02;

pub const CKA_LABEL: u32 = 0x03;

pub const CKA_KEY_TYPE: u32 = 0x100;

pub const CKA_ID: u32 = 0x102;

/// The private key may sign.
pub const CKA_SIGN: u32 = 0x108;

/// The public key may verify.
pub const CKA_VERIFY: u32 = 0x10A;

pub const CKA_MODULUS: u32 = 0x120;

pub const CKA_MODULUS_BITS: u32 = 0x121;

pub const CKA_PUBLIC_EXPONENT: u32 = 0x122;

pub const CKA_EC_PARAMS: u32 = 0x180;

pub const CKA_EC_POINT: u32 = 0x181;

// Mechanisms.
pub const CKM_RSA_PKCS_KEY_PAIR_GEN: u64 = 0x0000;

pub const CKM_RSA_PKCS: u64 = 0x0001;

pub const CKM_RSA_X_509: u64 = 0x0003;

pub const CKM_RSA_PKCS_OAEP: u64 = 0x0009;

pub const CKM_SHA256_RSA_PKCS: u64 = 0x0040;

pub const CKM_SHA384_RSA_PKCS: u64 = 0x0041;

pub const CKM_SHA512_RSA_PKCS: u64 = 0x0042;

pub const CKM_SHA256_RSA_PKCS_PSS: u64 = 0x0043;

pub const CKM_SHA384_RSA_PKCS_PSS: u64 = 0x0044;

pub const CKM_SHA512_RSA_PKCS_PSS: u64 = 0x0045;

pub const CKM_ECDSA_KEY_PAIR_GEN: u64 = 0x1040;

pub const CKM_ECDSA: u64 = 0x1041;

pub const CKM_ECDSA_SHA256: u64 = 0x1044;

pub const CKM_ECDSA_SHA384: u64 = 0x1045;

pub const CKM_ECDSA_SHA512: u64 = 0x1046;

pub const CKM_EDDSA: u64 = 0x1057;

/// The curve P-256 by name: OBJECT IDENTIFIER 1.2.840.10045.3.1.7.
pub const EC_PARAMS_P256: [u8; 10] = [
    0x06,
    0x08,
    0x2a,
    0x86,
    0x48,
    0xce,
    0x3d,
    0x03,
    0x01,
    0x07,
];

} // verus!
