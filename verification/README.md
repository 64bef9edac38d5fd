# pkcs11-bridge

A key on a PKCS#11 token behind the narrow `tegmentum:key-backend` interface.

    pkcs11:slot-id=0;object=my-tls-key;pin-value=1234

names a key. The bridge opens a session on the slot, logs in, finds the private
half, and then tells the key's algorithm and public key, signs, verifies and
decrypts. With `init=true` it sets a token up and generates the key where they
are missing.

## Layout

- `src/` is the library, verified with Verus. It decides; it talks to nobody.
  An operation is a sequence of steps: a step takes the token's last reply and
  names the next call (`host`). Each module states first what its values mean,
  then the functions with their contracts, then the laws that span them.
  - `uri`, `pct`, `number`, `text`: reading `pkcs11:` URIs
  - `ck`, `mech`, `error`: the numbers of the standard, mechanisms, errors
  - `der`, `spki`: DER, SubjectPublicKeyInfo, ECDSA signatures
  - `session`, `object`, `keygen`, `startup`: from a URI to a key that is ready
  - `key`: what a key does
  - `pin`, `smoke`: the host's side of the end-to-end check
- `app/` makes the calls: `bridge.rs` is the component, `main.rs` the
  end-to-end check against a composed component.
- `tests/` runs the library on concrete values, and against OpenSSL.

The library trusts the standard library's `String::from_utf8_lossy` and the
`Debug` text of a label and an identifier, and OpenSSL's verdict on a signature;
everything else is proved.
