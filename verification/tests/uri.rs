use pkcs11_bridge::number::{parse_u64, to_hex_2};
use pkcs11_bridge::pct::{hex_digit, pct_decode, unescape};
use pkcs11_bridge::text::{chars_of, contains_text, join, same_text};
use pkcs11_bridge::uri::Pkcs11Uri;

fn err(s: &str) -> String {
    Pkcs11Uri::parse(s).unwrap_err()
}

fn same(a: &str, b: &str) -> bool {
    format!("{:?}", Pkcs11Uri::parse(a)) == format!("{:?}", Pkcs11Uri::parse(b))
}

#[test]
fn hex_digits() {
    for b in 0..=255u8 {
        assert_eq!(hex_digit(b), (b as char).to_digit(16).map(|d| d as u8));
    }
}

#[test]
fn escapes() {
    assert_eq!(pct_decode("a%20b"), "a b");
    assert_eq!(pct_decode("%41%4a%4A"), "AJJ");
    assert_eq!(pct_decode("%c3%a9"), "\u{e9}");
    assert_eq!(pct_decode("plain-\u{e9}"), "plain-\u{e9}");
}

#[test]
fn what_is_no_escape_passes_through() {
    assert_eq!(pct_decode("%"), "%");
    assert_eq!(pct_decode("%4"), "%4");
    assert_eq!(pct_decode("%4g"), "%4g");
    assert_eq!(pct_decode("%%41"), "%A");
    assert_eq!(pct_decode(""), "");
}

#[test]
fn bytes_that_are_no_text_are_replaced() {
    assert_eq!(pct_decode("a%ffb"), "a\u{fffd}b");
}

#[test]
fn decoding_undoes_escaping() {
    let all: Vec<u8> = (0..=255).collect();
    let upper: String = all.iter().map(|b| format!("%{:02X}", b)).collect();
    let lower: String = all.iter().map(|b| format!("%{:02x}", b)).collect();
    assert_eq!(unescape(upper.as_bytes()), all);
    assert_eq!(unescape(lower.as_bytes()), all);
}

#[test]
fn numbers() {
    assert_eq!(parse_u64("0"), Some(0));
    assert_eq!(parse_u64("+7"), Some(7));
    assert_eq!(parse_u64("007"), Some(7));
    assert_eq!(parse_u64("18446744073709551615"), Some(u64::MAX));
    for bad in ["", "+", "-1", "++1", " 1", "1 ", "0x1", "1_0", "18446744073709551616", "\u{664}"] {
        assert_eq!(parse_u64(bad), None, "{:?}", bad);
        assert!(bad.parse::<u64>().is_err());
    }
    assert_eq!(to_hex_2(2), "02");
    assert_eq!(to_hex_2(0x1a), "1a");
    assert_eq!(to_hex_2(0xdead_beef), "deadbeef");
}

#[test]
fn texts() {
    assert!(same_text("\u{e9}a", "\u{e9}a"));
    assert!(!same_text("a", "b"));
    assert!(!same_text("a", "ab"));
    assert!(contains_text("ErrorCode::PinIncorrect", "PinIncorrect"));
    assert!(contains_text("aab", "ab"));
    assert!(contains_text("", ""));
    assert!(!contains_text("ab", "abc"));
    assert!(!contains_text("abd", "abc"));
    assert_eq!(join("a", "b"), "ab");
    assert_eq!(chars_of("\u{e9}x"), vec!['\u{e9}', 'x']);
}

#[test]
fn documented_form() {
    let u = Pkcs11Uri::parse("pkcs11:slot-id=0;object=my-tls-key;pin-value=1234").unwrap();
    assert_eq!(u.slot_id, Some(0));
    assert_eq!(u.object.as_deref(), Some("my-tls-key"));
    assert_eq!(u.pin.as_deref(), Some("1234"));
    assert_eq!(u.id, None);
    assert!(!u.init);
    assert_eq!(u.so_pin, None);
    assert_eq!(u.algorithm, None);
}

#[test]
fn every_attribute() {
    let u = Pkcs11Uri::parse(
        "pkcs11:slot-id=3;id=%01%02%03;init=auto;so-pin=99;algorithm=rsa-2048?pin-value=a%20b",
    )
    .unwrap();
    assert_eq!(u.slot_id, Some(3));
    assert_eq!(u.id, Some(vec![1, 2, 3]));
    assert!(u.init);
    assert_eq!(u.so_pin.as_deref(), Some("99"));
    assert_eq!(u.algorithm.as_deref(), Some("rsa-2048"));
    assert_eq!(u.pin.as_deref(), Some("a b"));
}

#[test]
fn ways_to_ask_for_provisioning() {
    for yes in ["true", "1", "yes", "auto"] {
        let u = Pkcs11Uri::parse(&format!("pkcs11:slot-id=0;object=k;init={}", yes)).unwrap();
        assert!(u.init);
    }
    for no in ["false", "0", "TRUE", ""] {
        let u = Pkcs11Uri::parse(&format!("pkcs11:slot-id=0;object=k;init={}", no)).unwrap();
        assert!(!u.init);
    }
}

#[test]
fn identifier_is_the_bytes_that_it_spells() {
    let u = Pkcs11Uri::parse("pkcs11:slot-id=0;id=%ff%00").unwrap();
    assert_eq!(u.id, Some(vec![0xff, 0x00]));
    let all: String = (0..=255u8).map(|b| format!("%{:02x}", b)).collect();
    let u = Pkcs11Uri::parse(&format!("pkcs11:slot-id=0;id={}", all)).unwrap();
    assert_eq!(u.id, Some((0..=255u8).collect::<Vec<u8>>()));
    let u = Pkcs11Uri::parse("pkcs11:slot-id=0;id=\u{e9}%2").unwrap();
    assert_eq!(u.id, Some(vec![0xc3, 0xa9, b'%', b'2']));
}

#[test]
fn label_that_is_no_text_is_repaired() {
    let u = Pkcs11Uri::parse("pkcs11:slot-id=0;object=a%ff").unwrap();
    assert_eq!(u.object.as_deref(), Some("a\u{fffd}"));
}

#[test]
fn plain_front_passes_whatever_follows() {
    for b in ["", "%41", "%", "%ff", "%c3", "%c3(", "%f0%9f%98", "x%ffy%ff"] {
        let whole = pct_decode(&format!("a\u{e9}\u{1f600};{}", b));
        assert_eq!(whole, format!("a\u{e9}\u{1f600};{}", pct_decode(b)));
    }
    assert!(pct_decode("%ff").starts_with('\u{fffd}'));
}

#[test]
fn known_attributes_without_meaning_are_ignored() {
    let plain = "pkcs11:slot-id=0;object=k";
    for key in [
        "token",
        "manufacturer",
        "model",
        "library-version",
        "library-manufacturer",
        "library-description",
        "serial",
        "type",
        "module-path",
        "module-name",
    ] {
        assert!(same(plain, &format!("pkcs11:slot-id=0;{}=x;object=k", key)));
    }
}

#[test]
fn separators_are_alike() {
    assert!(same("pkcs11:slot-id=0;object=k;pin-value=1", "pkcs11:slot-id=0?object=k&pin-value=1"));
}

#[test]
fn empty_pieces_say_nothing() {
    assert!(same("pkcs11:slot-id=0;object=k", "pkcs11:;slot-id=0;;object=k;"));
}

#[test]
fn the_last_one_stands_and_order_is_free() {
    assert!(same("pkcs11:object=a;object=b;slot-id=0;", "pkcs11:object=b;slot-id=0;"));
    assert!(same("pkcs11:;object=b;slot-id=0;", "pkcs11:;slot-id=0;object=b;"));
}

#[test]
fn value_may_hold_equals_signs() {
    let u = Pkcs11Uri::parse("pkcs11:slot-id=0;object=a=b").unwrap();
    assert_eq!(u.object.as_deref(), Some("a=b"));
}

#[test]
fn refusals() {
    assert_eq!(err("http://x"), "not a pkcs11 URI: http://x");
    assert_eq!(err("pkcs11"), "not a pkcs11 URI: pkcs11");
    assert_eq!(err("pkcs11:slot-id"), "bad pkcs11 attr: slot-id");
    assert_eq!(err("pkcs11:slot-id=x%20y"), "bad slot-id: x y");
    assert_eq!(err("pkcs11:slot-id="), "bad slot-id: ");
    assert_eq!(err("pkcs11:color=red"), "unsupported pkcs11 attr: color");
    assert_eq!(err("pkcs11:=red"), "unsupported pkcs11 attr: ");
    assert_eq!(err("pkcs11:pin-source=f"), "unsupported pkcs11 attr: pin-source");
    assert_eq!(err("pkcs11:object=k"), "pkcs11-bridge: URI must include slot-id=N");
    assert_eq!(err("pkcs11:"), "pkcs11-bridge: URI must include slot-id=N");
    assert_eq!(err("pkcs11:slot-id=1"), "pkcs11-bridge: URI must include object= or id=");
}

#[test]
fn empty_uri_says_nothing() {
    let u = Pkcs11Uri::default();
    assert_eq!(u.slot_id, None);
    assert_eq!(u.object, None);
    assert!(!u.init);
}
