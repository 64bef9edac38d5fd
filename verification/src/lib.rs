//! pkcs11-bridge: a key on a PKCS#11 token behind a narrow interface.
//!
//! A key is named by a `pkcs11:` URI ([`uri`]). Getting it ready means to open
//! a session ([`session`]), to find it ([`object`]) and, where the URI asks for
//! it, to generate it ([`keygen`]); [`startup`] puts these together. A key
//! ([`key`]) then tells its algorithm and its public key, signs, verifies and
//! decrypts.
//!
//! Nothing here talks to a token. Every operation is a sequence of calls
//! ([`host`]): a step takes the token's last reply and names the next call.
pub mod ck;
pub mod der;
pub mod error;
pub mod host;
pub mod key;
pub mod keygen;
pub mod mech;
pub mod number;
pub mod object;
pub mod pct;
pub mod pin;
pub mod session;
pub mod smoke;
pub mod spki;
pub mod startup;
pub mod text;
pub mod uri;
