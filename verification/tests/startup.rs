use pkcs11_bridge::error::BackendError;
use pkcs11_bridge::host::{HostCall, HostReply, KeyHalf, Step};
use pkcs11_bridge::key::Key;
use pkcs11_bridge::keygen::generate_keypair_for;
use pkcs11_bridge::object::{find_object, find_object_step};
use pkcs11_bridge::pin::HostPin;
use pkcs11_bridge::session::{open_session_for, open_session_step};
use pkcs11_bridge::startup::{NewFailure, NewStep};
use pkcs11_bridge::uri::Pkcs11Uri;

fn uri(s: &str) -> Pkcs11Uri {
    Pkcs11Uri::parse(s).unwrap()
}

fn show(calls: &[HostCall]) -> Vec<String> {
    calls.iter().map(|c| format!("{:?}", c)).collect()
}

fn ok() -> HostReply {
    HostReply::Done
}

fn failed(s: &str) -> HostReply {
    HostReply::Failed(s.to_string())
}

/// Opens a session on a token that gives these replies: the calls, and the
/// end if it was reached.
fn open(u: &Pkcs11Uri, replies: Vec<HostReply>) -> (Vec<HostCall>, Option<Result<(), BackendError>>) {
    let mut calls = Vec::new();
    let mut replies = replies.into_iter();
    let mut step = open_session_for();
    loop {
        match step {
            Step::Call(state, call) => {
                calls.push(call);
                match replies.next() {
                    Some(reply) => step = open_session_step(u, state, reply),
                    None => return (calls, None),
                }
            }
            Step::Done => return (calls, Some(Ok(()))),
            Step::Fail(e) => return (calls, Some(Err(e))),
        }
    }
}

fn find(u: &Pkcs11Uri, half: KeyHalf, replies: Vec<HostReply>) -> (Vec<HostCall>, Option<Result<(), BackendError>>) {
    let mut calls = Vec::new();
    let mut replies = replies.into_iter();
    let mut step = find_object(u, half);
    loop {
        match step {
            Step::Call(state, call) => {
                calls.push(call);
                match replies.next() {
                    Some(reply) => step = find_object_step(u, half, state, reply),
                    None => return (calls, None),
                }
            }
            Step::Done => return (calls, Some(Ok(()))),
            Step::Fail(e) => return (calls, Some(Err(e))),
        }
    }
}

fn start(key: &Key, replies: Vec<HostReply>) -> (Vec<HostCall>, Option<Result<(), NewFailure>>) {
    let mut calls = Vec::new();
    let mut replies = replies.into_iter();
    let mut step = key.start();
    loop {
        match step {
            NewStep::Call(state, call) => {
                calls.push(call);
                match replies.next() {
                    Some(reply) => step = key.start_step(state, reply),
                    None => return (calls, None),
                }
            }
            NewStep::Ready => return (calls, Some(Ok(()))),
            NewStep::Fail(e) => return (calls, Some(Err(e))),
        }
    }
}

const OPEN_3: &str =
    "OpenSession { session: User, slot: 3, flags: SessionFlags { serial: true, read_write: true } }";

#[test]
fn opens_and_logs_in() {
    let u = uri("pkcs11:slot-id=3;object=k;pin-value=12");
    let (calls, end) = open(&u, vec![ok(), ok(), ok()]);
    assert_eq!(
        show(&calls),
        ["Initialize", OPEN_3, "Login { session: User, user: User, pin: [49, 50] }"]
    );
    assert!(matches!(end, Some(Ok(()))));
}

#[test]
fn opens_without_a_pin() {
    let u = uri("pkcs11:slot-id=3;object=k");
    let (calls, end) = open(&u, vec![failed("CryptokiAlreadyInitialized"), ok()]);
    assert_eq!(show(&calls), ["Initialize", OPEN_3]);
    assert!(matches!(end, Some(Ok(()))));
}

#[test]
fn slot_numbers_have_32_bits() {
    let u = uri("pkcs11:slot-id=4294967296;object=k");
    let (calls, end) = open(&u, vec![ok()]);
    assert_eq!(show(&calls), ["Initialize"]);
    assert!(matches!(end, Some(Err(BackendError::Internal(s))) if s == "slot-id is not a 32-bit number"));
    let u = uri("pkcs11:slot-id=4294967295;object=k");
    let (calls, _) = open(&u, vec![ok()]);
    assert!(matches!(calls[1], HostCall::OpenSession { slot: 4294967295, .. }));
}

#[test]
fn slot_beyond_32_bits_provisions_on_demand() {
    let wide = uri("pkcs11:slot-id=4294967299;object=k;pin-value=12;init=1");
    let mut replies = provisioning_replies();
    replies.remove(1);
    let (calls, end) = open(&wide, replies);
    let narrow = uri("pkcs11:slot-id=3;object=k;pin-value=12;init=1");
    let (mut expected, _) = open(&narrow, provisioning_replies());
    expected.remove(1);
    assert_eq!(show(&calls), show(&expected));
    assert_eq!(show(&calls)[1], "ListSlots { token_present: false }");
    assert!(matches!(end, Some(Ok(()))));
}

#[test]
fn slot_is_needed() {
    let u = Pkcs11Uri::default();
    let (calls, end) = open(&u, vec![ok()]);
    assert_eq!(show(&calls), ["Initialize"]);
    assert!(matches!(end, Some(Err(BackendError::Internal(s))) if s == "missing slot-id"));
}

#[test]
fn failed_slot_is_reported() {
    let u = uri("pkcs11:slot-id=3;object=k;pin-value=12");
    let (calls, end) = open(&u, vec![ok(), failed("TokenNotPresent")]);
    assert_eq!(show(&calls), ["Initialize", OPEN_3]);
    assert!(matches!(end, Some(Err(BackendError::Internal(s))) if s == "TokenNotPresent"));
}

#[test]
fn failed_login_is_reported() {
    let u = uri("pkcs11:slot-id=3;object=k;pin-value=12");
    let (_, end) = open(&u, vec![ok(), ok(), failed("PinIncorrect")]);
    assert!(matches!(end, Some(Err(BackendError::AuthenticationFailed(s))) if s == "PinIncorrect"));
}

fn provisioning_replies() -> Vec<HostReply> {
    vec![
        ok(),
        failed("TokenNotPresent"),
        HostReply::Slots(vec![7, 8]),
        ok(),
        HostReply::Slots(vec![9]),
        ok(),
        ok(),
        ok(),
        failed("logout"),
        failed("close"),
        ok(),
        ok(),
    ]
}

#[test]
fn provisions_a_token() {
    let u = uri("pkcs11:slot-id=3;object=k;pin-value=12;init=1;so-pin=99");
    let (calls, end) = open(&u, provisioning_replies());
    assert_eq!(
        show(&calls),
        [
            "Initialize",
            OPEN_3,
            "ListSlots { token_present: false }",
            "InitToken { slot: 7, so_pin: \"99\", label: \"pkcs11-bridge\" }",
            "ListSlots { token_present: true }",
            "OpenSession { session: Officer, slot: 9, flags: SessionFlags { serial: true, read_write: true } }",
            "Login { session: Officer, user: SecurityOfficer, pin: [57, 57] }",
            "InitPin { session: Officer, pin: [49, 50] }",
            "Logout { session: Officer }",
            "CloseSession { session: Officer }",
            "OpenSession { session: User, slot: 9, flags: SessionFlags { serial: true, read_write: true } }",
            "Login { session: User, user: User, pin: [49, 50] }",
        ]
    );
    assert!(matches!(end, Some(Ok(()))));
}

#[test]
fn pins_have_defaults() {
    let (calls, _) = open(&uri("pkcs11:slot-id=3;object=k;init=1;pin-value=12"), provisioning_replies());
    let shown = show(&calls);
    assert_eq!(shown[3], "InitToken { slot: 7, so_pin: \"12\", label: \"pkcs11-bridge\" }");
    let (calls, end) = open(&uri("pkcs11:slot-id=3;object=k;init=1"), provisioning_replies());
    let shown = show(&calls);
    assert_eq!(shown[3], "InitToken { slot: 7, so_pin: \"1234\", label: \"pkcs11-bridge\" }");
    assert_eq!(shown[6], "Login { session: Officer, user: SecurityOfficer, pin: [49, 50, 51, 52] }");
    assert_eq!(shown[7], "InitPin { session: Officer, pin: [49, 50, 51, 52] }");
    assert_eq!(shown.len(), 11);
    assert!(matches!(end, Some(Ok(()))));
}

#[test]
fn provisioning_ends_at_the_first_failure() {
    let u = uri("pkcs11:slot-id=3;object=k;pin-value=12;init=1");
    for at in [2usize, 3, 4, 5, 6, 7, 10, 11] {
        let mut replies = provisioning_replies();
        replies[at] = failed("MechanismInvalid");
        let (calls, end) = open(&u, replies);
        assert_eq!(calls.len(), at + 1);
        assert!(matches!(end, Some(Err(BackendError::MechanismNotSupported(_)))));
    }
}

#[test]
fn provisioning_needs_slots() {
    let u = uri("pkcs11:slot-id=3;object=k;pin-value=12;init=1");
    let mut replies = provisioning_replies();
    replies[2] = HostReply::Slots(vec![]);
    let (_, end) = open(&u, replies);
    assert!(matches!(end, Some(Err(BackendError::Internal(s))) if s == "no PKCS#11 slots available for init"));
    let mut replies = provisioning_replies();
    replies[4] = HostReply::Slots(vec![]);
    let (_, end) = open(&u, replies);
    assert!(matches!(end, Some(Err(BackendError::Internal(s))) if s == "no token slot after init"));
}

#[test]
fn finds_by_label_and_identifier() {
    let u = uri("pkcs11:slot-id=0;object=k;id=%01%02");
    let (calls, end) = find(
        &u,
        KeyHalf::Private,
        vec![ok(), HostReply::Handles(vec![5, 6]), failed("finish"), ok()],
    );
    assert_eq!(
        show(&calls),
        [
            "FindInit { template: [Attribute { tag: 0, value: ObjectKind(3) }, \
             Attribute { tag: 3, value: ByteString([107]) }, \
             Attribute { tag: 258, value: ByteString([1, 2]) }] }",
            "FindNext { max: 1 }",
            "FindFinish",
            "BindObject { half: Private, handle: 5 }",
        ]
    );
    assert!(matches!(end, Some(Ok(()))));
}

#[test]
fn finds_the_public_half_by_what_the_uri_has() {
    let (calls, _) = find(&uri("pkcs11:slot-id=0;object=k"), KeyHalf::Public, vec![]);
    assert_eq!(
        show(&calls),
        ["FindInit { template: [Attribute { tag: 0, value: ObjectKind(2) }, \
          Attribute { tag: 3, value: ByteString([107]) }] }"]
    );
    let (calls, _) = find(&uri("pkcs11:slot-id=0;id=k"), KeyHalf::Public, vec![]);
    assert_eq!(
        show(&calls),
        ["FindInit { template: [Attribute { tag: 0, value: ObjectKind(2) }, \
          Attribute { tag: 258, value: ByteString([107]) }] }"]
    );
}

#[test]
fn nothing_found() {
    let none = || vec![ok(), HostReply::Handles(vec![]), ok()];
    let (calls, end) = find(&uri("pkcs11:slot-id=0;object=k"), KeyHalf::Private, none());
    assert_eq!(calls.len(), 3);
    assert!(matches!(end, Some(Err(BackendError::KeyNotFound(s)))
        if s == "no object matched URI (class=0x03, label=Some(\"k\"), id=None)"));
    let (_, end) = find(&uri("pkcs11:slot-id=0;id=%01%02"), KeyHalf::Public, none());
    assert!(matches!(end, Some(Err(BackendError::KeyNotFound(s)))
        if s == "no object matched URI (class=0x02, label=None, id=Some([1, 2]))"));
}

#[test]
fn failed_search_is_reported() {
    let u = uri("pkcs11:slot-id=0;object=k");
    let (_, end) = find(&u, KeyHalf::Private, vec![failed("UserNotLoggedIn")]);
    assert!(matches!(end, Some(Err(BackendError::AuthenticationFailed(_)))));
    let (_, end) = find(&u, KeyHalf::Private, vec![ok(), failed("x")]);
    assert!(matches!(end, Some(Err(BackendError::Internal(_)))));
    let (_, end) = find(
        &u,
        KeyHalf::Private,
        vec![ok(), HostReply::Handles(vec![1]), ok(), failed("ObjectHandleInvalid")],
    );
    assert!(matches!(end, Some(Err(BackendError::KeyNotFound(_)))));
}

#[test]
fn generates_p256_by_default() {
    let call = generate_keypair_for(&uri("pkcs11:slot-id=0;object=k")).unwrap();
    assert_eq!(
        format!("{:?}", call),
        "GenerateKeyPair { mechanism: Mechanism { kind: 4160 }, public_template: [\
         Attribute { tag: 1, value: Boolean(true) }, \
         Attribute { tag: 266, value: Boolean(true) }, \
         Attribute { tag: 3, value: ByteString([107]) }, \
         Attribute { tag: 258, value: ByteString([107]) }, \
         Attribute { tag: 384, value: ByteString([6, 8, 42, 134, 72, 206, 61, 3, 1, 7]) }], \
         private_template: [\
         Attribute { tag: 1, value: Boolean(true) }, \
         Attribute { tag: 2, value: Boolean(true) }, \
         Attribute { tag: 264, value: Boolean(true) }, \
         Attribute { tag: 3, value: ByteString([107]) }, \
         Attribute { tag: 258, value: ByteString([107]) }] }"
    );
}

#[test]
fn generates_rsa_2048() {
    let call = generate_keypair_for(&uri("pkcs11:slot-id=0;id=%05;algorithm=rsa-2048")).unwrap();
    let label = format!("{:?}", "pkcs11-bridge-key".as_bytes());
    assert_eq!(
        format!("{:?}", call),
        format!(
            "GenerateKeyPair {{ mechanism: Mechanism {{ kind: 0 }}, public_template: [\
             Attribute {{ tag: 1, value: Boolean(true) }}, \
             Attribute {{ tag: 266, value: Boolean(true) }}, \
             Attribute {{ tag: 3, value: ByteString({label}) }}, \
             Attribute {{ tag: 258, value: ByteString([5]) }}, \
             Attribute {{ tag: 289, value: Uint32(2048) }}, \
             Attribute {{ tag: 290, value: ByteString([1, 0, 1]) }}], \
             private_template: [\
             Attribute {{ tag: 1, value: Boolean(true) }}, \
             Attribute {{ tag: 2, value: Boolean(true) }}, \
             Attribute {{ tag: 264, value: Boolean(true) }}, \
             Attribute {{ tag: 3, value: ByteString({label}) }}, \
             Attribute {{ tag: 258, value: ByteString([5]) }}] }}"
        )
    );
}

#[test]
fn generates_nothing_else() {
    let e = generate_keypair_for(&uri("pkcs11:slot-id=0;object=k;algorithm=ed25519")).unwrap_err();
    assert!(matches!(e, BackendError::MechanismNotSupported(s)
        if s == "init=true algorithm=ed25519 -- only ecdsa-p256 / rsa-2048 supported"));
}

#[test]
fn bad_uri_makes_no_key() {
    assert_eq!(
        Key::new("http:x").unwrap_err(),
        "pkcs11-bridge: bad URI: not a pkcs11 URI: http:x"
    );
}

#[test]
fn fresh_key_knows_its_uri_only() {
    let key = Key::new("pkcs11:slot-id=3;object=k").unwrap();
    assert_eq!(key.uri.slot_id, Some(3));
    assert!(key.algorithm.is_none());
    assert!(key.spki_cache.is_none());
}

#[test]
fn key_gets_ready() {
    let key = Key::new("pkcs11:slot-id=3;object=k;pin-value=12").unwrap();
    let (calls, end) = start(
        &key,
        vec![ok(), ok(), ok(), ok(), HostReply::Handles(vec![4]), ok(), ok()],
    );
    assert_eq!(calls.len(), 7);
    assert_eq!(format!("{:?}", calls[6]), "BindObject { half: Private, handle: 4 }");
    assert!(matches!(end, Some(Ok(()))));
}

#[test]
fn missing_key_is_generated_on_demand() {
    let key = Key::new("pkcs11:slot-id=3;object=k;init=true").unwrap();
    let (calls, end) = start(
        &key,
        vec![
            ok(),
            ok(),
            ok(),
            HostReply::Handles(vec![]),
            ok(),
            ok(),
            ok(),
            HostReply::Handles(vec![4]),
            ok(),
            ok(),
        ],
    );
    assert_eq!(calls.len(), 10);
    assert!(matches!(calls[5], HostCall::GenerateKeyPair { .. }));
    assert_eq!(format!("{:?}", calls[2]), format!("{:?}", calls[6]));
    assert!(matches!(calls[9], HostCall::BindObject { half: KeyHalf::Private, handle: 4 }));
    assert!(matches!(end, Some(Ok(()))));
}

#[test]
fn longest_way_to_a_key() {
    let key = Key::new("pkcs11:slot-id=3;object=k;init=true;pin-value=12").unwrap();
    let mut replies = provisioning_replies();
    replies.extend(vec![ok(), HostReply::Handles(vec![4]), ok(), failed("gone")]);
    replies.push(ok());
    replies.extend(vec![ok(), HostReply::Handles(vec![4]), ok(), ok()]);
    let (calls, end) = start(&key, replies);
    assert_eq!(calls.len(), 21);
    assert!(matches!(end, Some(Ok(()))));
}

#[test]
fn missing_key_without_init_is_a_failure() {
    let key = Key::new("pkcs11:slot-id=3;object=k").unwrap();
    let (calls, end) = start(&key, vec![ok(), ok(), ok(), HostReply::Handles(vec![]), ok()]);
    assert_eq!(calls.len(), 5);
    match end {
        Some(Err(f)) => {
            assert_eq!(f.headline(), "pkcs11-bridge: private-key lookup failed: ");
            assert!(matches!(f, NewFailure::PrivateKeyLookup(BackendError::KeyNotFound(_))));
        }
        other => panic!("{:?}", other),
    }
}

#[test]
fn failures_say_where() {
    let key = Key::new("pkcs11:slot-id=3;object=k;init=true").unwrap();
    let (_, end) = start(&key, vec![ok(), failed("x"), failed("y")]);
    let f = end.unwrap().unwrap_err();
    assert_eq!(f.headline(), "pkcs11-bridge: open-session failed: ");
    assert!(matches!(f, NewFailure::OpenSession(BackendError::Internal(s)) if s == "y"));

    let (_, end) = start(&key, vec![ok(), ok(), failed("x"), failed("MechanismInvalid")]);
    let f = end.unwrap().unwrap_err();
    assert_eq!(f.headline(), "pkcs11-bridge: keygen failed: ");
    assert!(matches!(f, NewFailure::Keygen(BackendError::MechanismNotSupported(_))));

    let (_, end) = start(&key, vec![ok(), ok(), failed("x"), ok(), failed("z")]);
    let f = end.unwrap().unwrap_err();
    assert_eq!(f.headline(), "pkcs11-bridge: post-keygen lookup failed: ");
    assert!(matches!(f, NewFailure::PostKeygenLookup(BackendError::Internal(s)) if s == "z"));

    let odd = Key::new("pkcs11:slot-id=3;object=k;init=true;algorithm=x").unwrap();
    let (_, end) = start(&odd, vec![ok(), ok(), failed("x")]);
    assert!(matches!(
        end.unwrap().unwrap_err(),
        NewFailure::Keygen(BackendError::MechanismNotSupported(_))
    ));
}

#[test]
fn host_pin_knows_no_secret() {
    assert_eq!(HostPin.request_secret(Some("token".to_string()), Some(3)), Vec::<u8>::new());
    assert_eq!(HostPin.request_secret(None, None), Vec::<u8>::new());
}
