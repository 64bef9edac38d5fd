//! Percent-decoding of URI attribute values.
use vstd::prelude::*;
use vstd::utf8::{
    char_u32_cast, decode_first_scalar, decode_utf8, encode_scalar, encode_utf8,
    encode_utf8_first_scalar, last_continuation_byte, leading_byte_width_1, leading_byte_width_2,
    leading_byte_width_3, leading_byte_width_4, length_of_first_scalar, pop_first_scalar,
    second_last_continuation_byte, third_last_continuation_byte, valid_first_scalar, valid_utf8,
};

verus! {

/// The number that a hexadecimal digit, given as an ASCII byte, stands for.
pub open spec fn hex_value(b: u8) -> Option<u8> {
    if 0x30 <= b <= 0x39 {
        Some((b - 0x30) as u8)
    } else if 0x61 <= b <= 0x66 {
        Some((b - 0x61 + 10) as u8)
    } else if 0x41 <= b <= 0x46 {
        Some((b - 0x41 + 10) as u8)
    } else {
        None
    }
}

/// An escape `%HH` stands at the front of `bytes`.
pub open spec fn starts_with_escape(bytes: Seq<u8>) -> bool {
    bytes.len() >= 3 && bytes[0] == 0x25 && hex_value(bytes[1]) is Some && hex_value(
        bytes[2],
    ) is Some
}

/// `bytes` with each escape `%HH` replaced by the byte it spells, read from
/// the front. Everything else passes through, a stray `%` too.
pub open spec fn pct_bytes(bytes: Seq<u8>) -> Seq<u8>
    decreases bytes.len(),
{
    if bytes.len() == 0 {
        Seq::<u8>::empty()
    } else if starts_with_escape(bytes) {
        seq![(hex_value(bytes[1])->0 * 16 + hex_value(bytes[2])->0) as u8] + pct_bytes(
            bytes.skip(3),
        )
    } else {
        seq![bytes[0]] + pct_bytes(bytes.skip(1))
    }
}

/// The text that `String::from_utf8_lossy` makes of bytes that do not start
/// with the encoding of a character.
pub uninterp spec fn repaired_text(bytes: Seq<u8>) -> Seq<char>;

/// The text in `bytes`: the characters that they encode, up to the first place
/// that encodes none; from there on the text with broken places replaced.
pub open spec fn text_of(bytes: Seq<u8>) -> Seq<char>
    decreases bytes.len(),
{
    if bytes.len() == 0 {
        Seq::<char>::empty()
    } else if valid_first_scalar(bytes) {
        seq![decode_first_scalar(bytes) as char] + text_of(pop_first_scalar(bytes))
    } else {
        repaired_text(bytes)
    }
}

/// `s` percent-decoded. Escapes spell UTF-8 bytes; bytes that are not UTF-8
/// come out repaired.
pub open spec fn pct_text(s: Seq<char>) -> Seq<char> {
    text_of(pct_bytes(encode_utf8(s)))
}

/// Calls `String::from_utf8_lossy`, which replaces invalid sequences by U+FFFD
/// and nothing else. So the characters in front of the first invalid place stay
/// as they are, and what is made of the bytes from there on, which is the same
/// for the same bytes, starts with U+FFFD. How many bytes one U+FFFD stands for
/// is not said here.
#[verifier::external_body]
fn lossy_text(bytes: &[u8]) -> (text: String)
    ensures
        text@ == text_of(bytes@),
        bytes@.len() > 0 && !valid_first_scalar(bytes@) ==> {
            &&& text@ == repaired_text(bytes@)
            &&& text@.len() > 0
            &&& text@[0] == '\u{FFFD}'
        },
        !valid_utf8(bytes@) ==> text@.contains('\u{FFFD}'),
{
    String::from_utf8_lossy(bytes).into_owned()
}

/// The number that a hexadecimal digit stands for.
pub fn hex_digit(b: u8) -> (r: Option<u8>)
    ensures
        r == hex_value(b),
{
    if 0x30 <= b && b <= 0x39 {
        Some(b - 0x30)
    } else if 0x61 <= b && b <= 0x66 {
        Some(b - 0x61 + 10)
    } else if 0x41 <= b && b <= 0x46 {
        Some(b - 0x41 + 10)
    } else {
        None
    }
}

/// Replaces the escapes in `bytes`.
pub fn unescape(bytes: &[u8]) -> (out: Vec<u8>)
    ensures
        out@ == pct_bytes(bytes@),
{
    let mut out: Vec<u8> = Vec::with_capacity(bytes.len());
    let mut i: usize = 0;
    assert(bytes@.skip(0) =~= bytes@);
    while i < bytes.len()
        invariant
            i <= bytes.len(),
            pct_bytes(bytes@) == out@ + pct_bytes(bytes@.skip(i as int)),
        decreases bytes.len() - i,
    {
        let ghost rest = bytes@.skip(i as int);
        let ghost before = out@;
        if bytes[i] == 0x25 && bytes.len() - i > 2 {
            if let (Some(hi), Some(lo)) = (hex_digit(bytes[i + 1]), hex_digit(bytes[i + 2])) {
                out.push(hi * 16 + lo);
                assert(rest.skip(3) =~= bytes@.skip(i + 3));
                assert(before + pct_bytes(rest) =~= out@ + pct_bytes(bytes@.skip(i + 3)));
                i += 3;
                continue;
            }
        }
        out.push(bytes[i]);
        assert(rest.skip(1) =~= bytes@.skip(i + 1));
        assert(before + pct_bytes(rest) =~= out@ + pct_bytes(bytes@.skip(i + 1)));
        i += 1;
    }
    assert(out@ + pct_bytes(bytes@.skip(i as int)) =~= out@);
    out
}

/// Percent-decodes `s`: `%HH` escapes become the bytes they spell, everything
/// else passes through.
pub fn pct_decode(s: &str) -> (r: String)
    ensures
        r@ == pct_text(s@),
{
    let out: Vec<u8> = unescape(s.as_bytes());
    lossy_text(out.as_slice())
}

// ---------------------------------------------------------------------------
// Laws
// ---------------------------------------------------------------------------

/// An escape that spells `b` stands in `text` from index `at` on.
pub open spec fn escape_at(text: Seq<u8>, at: int, b: u8) -> bool {
    &&& text[at] == 0x25
    &&& hex_value(text[at + 1]) == Some((b / 16) as u8)
    &&& hex_value(text[at + 2]) == Some((b % 16) as u8)
}

/// `text` spells `bytes` in escapes, in upper or lower case: `%HH` for each.
pub open spec fn is_escape_of(text: Seq<u8>, bytes: Seq<u8>) -> bool {
    &&& text.len() == 3 * bytes.len()
    &&& forall|i: int| 0 <= i < bytes.len() ==> escape_at(text, 3 * i, #[trigger] bytes[i])
}

/// Decoding undoes escaping: every byte string comes back from its escapes.
pub proof fn law_escapes_decode(text: Seq<u8>, bytes: Seq<u8>)
    requires
        is_escape_of(text, bytes),
    ensures
        pct_bytes(text) == bytes,
    decreases bytes.len(),
{
    if bytes.len() == 0 {
        assert(pct_bytes(text) =~= bytes);
    } else {
        let rest = text.skip(3);
        let tail = bytes.drop_first();
        assert(escape_at(text, 0, bytes[0]));
        assert forall|i: int| 0 <= i < tail.len() implies escape_at(rest, 3 * i, #[trigger] tail[i]) by {
            assert(escape_at(text, 3 * (i + 1), bytes[i + 1]));
        }
        law_escapes_decode(rest, tail);
        assert(pct_bytes(text) =~= bytes);
    }
}

/// Bytes without a `%` pass through, whatever follows them.
proof fn lemma_plain_bytes_pass(plain: Seq<u8>, rest: Seq<u8>)
    requires
        !plain.contains(0x25),
    ensures
        pct_bytes(plain + rest) == plain + pct_bytes(rest),
    decreases plain.len(),
{
    if plain.len() == 0 {
        assert(plain + rest =~= rest);
        assert(plain + pct_bytes(rest) =~= pct_bytes(rest));
    } else {
        assert(plain.contains(plain[0]));
        let tail = plain.skip(1);
        assert forall|b: u8| tail.contains(b) implies plain.contains(b) by {
            let i = choose|i: int| 0 <= i < tail.len() && tail[i] == b;
            assert(plain[i + 1] == b);
        }
        lemma_plain_bytes_pass(tail, rest);
        assert((plain + rest).skip(1) =~= tail + rest);
        assert(pct_bytes(plain + rest) =~= plain + pct_bytes(rest));
    }
}

/// Texts are encoded one after the other.
proof fn lemma_encode_concat(a: Seq<char>, b: Seq<char>)
    ensures
        encode_utf8(a + b) == encode_utf8(a) + encode_utf8(b),
    decreases a.len(),
{
    if a.len() == 0 {
        assert(a + b =~= b);
        assert(encode_utf8(a) + encode_utf8(b) =~= encode_utf8(b));
    } else {
        assert((a + b).drop_first() =~= a.drop_first() + b);
        lemma_encode_concat(a.drop_first(), b);
        assert(encode_utf8(a + b) =~= encode_utf8(a) + encode_utf8(b));
    }
}

/// Encoded characters read as themselves, whatever follows them.
proof fn lemma_encoded_front(a: Seq<char>, rest: Seq<u8>)
    ensures
        text_of(encode_utf8(a) + rest) == a + text_of(rest),
    decreases a.len(),
{
    let front = encode_utf8(a);
    let bytes = front + rest;
    if a.len() == 0 {
        assert(bytes =~= rest);
        assert(a + text_of(rest) =~= text_of(rest));
    } else {
        encode_utf8_first_scalar(a);
        let n = length_of_first_scalar(front);
        assert(1 <= n <= 4 && n <= front.len());
        assert(forall|i: int| 0 <= i < n ==> bytes[i] == front[i]);
        assert(bytes[0] == front[0]);
        assert(n >= 2 ==> bytes[1] == front[1]);
        assert(n >= 3 ==> bytes[2] == front[2]);
        assert(n >= 4 ==> bytes[3] == front[3]);
        assert(valid_first_scalar(bytes));
        assert(decode_first_scalar(bytes) == a[0] as u32);
        char_u32_cast(a[0], decode_first_scalar(bytes));
        let tail = a.drop_first();
        assert(pop_first_scalar(bytes) =~= encode_utf8(tail) + rest);
        lemma_encoded_front(tail, rest);
        assert(text_of(bytes) =~= a + text_of(rest));
    }
}

/// Bytes that are UTF-8 become the text that they encode.
pub proof fn law_utf8_is_read(bytes: Seq<u8>)
    requires
        valid_utf8(bytes),
    ensures
        text_of(bytes) == decode_utf8(bytes),
    decreases bytes.len(),
{
    if bytes.len() > 0 {
        law_utf8_is_read(pop_first_scalar(bytes));
    }
}

/// The encoding of one character holds the byte `%` only if it is `%`.
proof fn lemma_scalar_percent(c: u32)
    requires
        c != 0x25,
    ensures
        !encode_scalar(c).contains(0x25),
{
    assert(c <= 0x7f && c != 0x25 ==> leading_byte_width_1(c) != 0x25) by (bit_vector);
    assert(leading_byte_width_2(c) >= 0x80 && leading_byte_width_3(c) >= 0x80
        && leading_byte_width_4(c) >= 0x80 && last_continuation_byte(c) >= 0x80
        && second_last_continuation_byte(c) >= 0x80 && third_last_continuation_byte(c) >= 0x80)
        by (bit_vector);
}

/// The encoding of a text holds the byte `%` only if the text holds the character.
proof fn lemma_encoded_percent(s: Seq<char>)
    requires
        !s.contains('%'),
    ensures
        !encode_utf8(s).contains(0x25),
    decreases s.len(),
{
    if s.len() > 0 {
        assert(s.contains(s[0]));
        let rest = s.drop_first();
        assert forall|c: char| rest.contains(c) implies s.contains(c) by {
            let i = choose|i: int| 0 <= i < rest.len() && rest[i] == c;
            assert(s[i + 1] == c);
        }
        lemma_encoded_percent(rest);
        char_u32_cast(s[0], s[0] as u32);
        char_u32_cast('%', 0x25);
        lemma_scalar_percent(s[0] as u32);
        let a = encode_scalar(s[0] as u32);
        let b = encode_utf8(rest);
        if encode_utf8(s).contains(0x25) {
            let i = choose|i: int| 0 <= i < encode_utf8(s).len() && encode_utf8(s)[i] == 0x25;
            if i < a.len() {
                assert(a.contains(a[i]));
            } else {
                assert(b.contains(b[i - a.len()]));
            }
        }
    }
}

/// Text without a `%` passes through unchanged, whatever follows it.
pub proof fn law_plain_front_passes(a: Seq<char>, b: Seq<char>)
    requires
        !a.contains('%'),
    ensures
        pct_text(a + b) == a + pct_text(b),
{
    lemma_encoded_percent(a);
    lemma_encode_concat(a, b);
    lemma_plain_bytes_pass(encode_utf8(a), encode_utf8(b));
    lemma_encoded_front(a, pct_bytes(encode_utf8(b)));
}

/// Text without a `%` passes through unchanged.
pub proof fn law_plain_text_passes(s: Seq<char>)
    requires
        !s.contains('%'),
    ensures
        pct_text(s) == s,
{
    let none = Seq::<char>::empty();
    law_plain_front_passes(s, none);
    assert(s + none =~= s);
    assert(pct_text(none) =~= none);
}

/// The digits of escapes: `0` to `9`, and `a` to `f` in upper and lower case,
/// and no other byte.
pub proof fn law_hex_digits(b: u8, n: u8)
    requires
        n < 16,
    ensures
        hex_value(b) == Some(n) <==> (n < 10 && b == 0x30 + n) || (n >= 10 && (b == 0x61 + n - 10
            || b == 0x41 + n - 10)),
        hex_value(b) matches Some(v) ==> v < 16,
{
}

/// An escape in front becomes the byte that it spells, and what follows is
/// decoded as if it stood alone.
pub proof fn law_escape_in_front(b: u8, hi: u8, lo: u8, rest: Seq<u8>)
    requires
        hex_value(hi) == Some((b / 16) as u8),
        hex_value(lo) == Some((b % 16) as u8),
    ensures
        pct_bytes(seq![0x25u8, hi, lo] + rest) == seq![b] + pct_bytes(rest),
{
    let bytes = seq![0x25u8, hi, lo] + rest;
    assert(bytes[0] == 0x25 && bytes[1] == hi && bytes[2] == lo);
    assert(bytes.skip(3) =~= rest);
    assert((b / 16) * 16 + b % 16 == b);
}

/// Any other byte in front stays, and what follows is decoded as if it stood
/// alone.
pub proof fn law_byte_in_front(b: u8, rest: Seq<u8>)
    requires
        b != 0x25,
    ensures
        pct_bytes(seq![b] + rest) == seq![b] + pct_bytes(rest),
        pct_bytes(Seq::<u8>::empty()) == Seq::<u8>::empty(),
{
    assert((seq![b] + rest).skip(1) =~= rest);
}

/// A `%` in front that starts no escape stays too.
pub proof fn law_stray_percent_in_front(rest: Seq<u8>)
    requires
        rest.len() < 2 || hex_value(rest[0]) is None || hex_value(rest[1]) is None,
    ensures
        pct_bytes(seq![0x25u8] + rest) == seq![0x25u8] + pct_bytes(rest),
{
    let bytes = seq![0x25u8] + rest;
    assert(bytes.skip(1) =~= rest);
    if rest.len() >= 2 {
        assert(bytes[1] == rest[0] && bytes[2] == rest[1]);
    }
}

/// What spells a byte: `%` and the digits of its two halves, the upper one
/// first.
pub proof fn law_escape_spells_its_byte(text: Seq<u8>, at: int, b: u8)
    ensures
        escape_at(text, at, b) <==> text[at] == 0x25 && hex_value(text[at + 1]) == Some(
            (b / 16) as u8,
        ) && hex_value(text[at + 2]) == Some((b % 16) as u8),
{
}

/// Escapes in front become the bytes that they spell.
proof fn lemma_escapes_in_front(text: Seq<u8>, bytes: Seq<u8>, rest: Seq<u8>)
    requires
        text.len() == 3 * bytes.len(),
        forall|i: int| 0 <= i < bytes.len() ==> escape_at(text, 3 * i, #[trigger] bytes[i]),
    ensures
        pct_bytes(text + rest) == bytes + pct_bytes(rest),
    decreases bytes.len(),
{
    if bytes.len() == 0 {
        assert(text + rest =~= rest);
        assert(bytes + pct_bytes(rest) =~= pct_bytes(rest));
    } else {
        let more = text.skip(3);
        let tail = bytes.drop_first();
        let b = bytes[0];
        assert(escape_at(text, 0, bytes[0]));
        assert(text + rest =~= seq![0x25u8, text[1], text[2]] + (more + rest));
        assert forall|i: int| 0 <= i < tail.len() implies escape_at(
            more,
            3 * i,
            #[trigger] tail[i],
        ) by {
            assert(escape_at(text, 3 * (i + 1), bytes[i + 1]));
        }
        lemma_escapes_in_front(more, tail, rest);
        law_escape_in_front(b, text[1], text[2], more + rest);
        assert(seq![b] + (tail + pct_bytes(rest)) =~= bytes + pct_bytes(rest));
    }
}

/// A text whose UTF-8 bytes are written in escapes, each `%HH`, comes back as
/// that text, and what follows is decoded as if it stood alone.
pub proof fn law_escaped_text_in_front(text: Seq<char>, escapes: Seq<char>, rest: Seq<char>)
    requires
        encode_utf8(escapes).len() == 3 * encode_utf8(text).len(),
        forall|i: int|
            0 <= i < encode_utf8(text).len() ==> escape_at(
                encode_utf8(escapes),
                3 * i,
                #[trigger] encode_utf8(text)[i],
            ),
    ensures
        pct_text(escapes + rest) == text + pct_text(rest),
{
    lemma_encode_concat(escapes, rest);
    lemma_escapes_in_front(encode_utf8(escapes), encode_utf8(text), encode_utf8(rest));
    lemma_encoded_front(text, pct_bytes(encode_utf8(rest)));
}

/// The decoded text is the one that the decoded bytes encode. Where they end in
/// bytes that encode none, those come out repaired behind it.
pub proof fn law_decoded_bytes_are_read(s: Seq<char>, text: Seq<char>, broken: Seq<u8>)
    requires
        pct_bytes(encode_utf8(s)) == encode_utf8(text) + broken,
        broken.len() == 0 || !valid_first_scalar(broken),
    ensures
        broken.len() == 0 ==> pct_text(s) == text,
        broken.len() > 0 ==> pct_text(s) == text + repaired_text(broken),
{
    lemma_encoded_front(text, broken);
    assert(text + Seq::<char>::empty() =~= text);
}

} // verus!
