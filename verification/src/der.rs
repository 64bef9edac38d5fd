//! Distinguished Encoding Rules: the tag-length-value framing and the few
//! value types that public keys and signatures are made of.
use vstd::arithmetic::power::{lemma_pow0, pow};
use vstd::prelude::*;

verus! {

/// Tag of an INTEGER.
pub const TAG_INTEGER: u8 = 0x02;

/// Tag of a BIT STRING.
pub const TAG_BIT_STRING: u8 = 0x03;

/// Tag of an OCTET STRING.
pub const TAG_OCTET_STRING: u8 = 0x04;

/// Tag of a SEQUENCE.
pub const TAG_SEQUENCE: u8 = 0x30;

// ---------------------------------------------------------------------------
// Big-endian numbers
// ---------------------------------------------------------------------------

/// The number that `bytes` spell in base 256, most significant byte first.
pub open spec fn be_nat(bytes: Seq<u8>) -> nat
    decreases bytes.len(),
{
    if bytes.len() == 0 {
        0
    } else {
        be_nat(bytes.drop_last()) * 256 + bytes.last() as nat
    }
}

/// The `count` low-order base-256 digits of `n`, most significant first.
pub open spec fn be_bytes(n: nat, count: nat) -> Seq<u8>
    decreases count,
{
    if count == 0 {
        Seq::<u8>::empty()
    } else {
        be_bytes(n / 256, (count - 1) as nat).push((n % 256) as u8)
    }
}

/// `bytes` without its leading zeros; a lone zero stays.
pub open spec fn trim_zeros(bytes: Seq<u8>) -> Seq<u8>
    decreases bytes.len(),
{
    if bytes.len() > 1 && bytes[0] == 0 {
        trim_zeros(bytes.drop_first())
    } else {
        bytes
    }
}

// ---------------------------------------------------------------------------
// Encodings
// ---------------------------------------------------------------------------

/// How many bytes the long form spends on a length: as few as hold it, at most four.
pub open spec fn length_size(n: nat) -> nat {
    if n < 0x100 {
        1
    } else if n < 0x1_0000 {
        2
    } else if n < 0x100_0000 {
        3
    } else {
        4
    }
}

/// The length octets for `n` content bytes. A length of four gigabytes or more
/// keeps only its four low-order bytes.
pub open spec fn length_octets(n: nat) -> Seq<u8> {
    if n < 0x80 {
        seq![n as u8]
    } else {
        seq![(0x80 + length_size(n)) as u8] + be_bytes(n, length_size(n))
    }
}

/// Tag, length and content of one element.
pub open spec fn tlv(tag: u8, content: Seq<u8>) -> Seq<u8> {
    seq![tag] + length_octets(content.len()) + content
}

/// A SEQUENCE around `content`.
pub open spec fn seq_der(content: Seq<u8>) -> Seq<u8> {
    tlv(TAG_SEQUENCE, content)
}

/// A BIT STRING of whole bytes: no bit of the last byte is unused.
pub open spec fn bit_string_der(content: Seq<u8>) -> Seq<u8> {
    tlv(TAG_BIT_STRING, seq![0u8] + content)
}

/// The content octets of a non-negative INTEGER given as big-endian bytes: no
/// superfluous zero, and one zero where the top bit would read as a sign.
pub open spec fn integer_content(big_endian: Seq<u8>) -> Seq<u8> {
    let digits = trim_zeros(big_endian);
    if digits.len() > 0 && digits[0] >= 0x80 {
        seq![0u8] + digits
    } else {
        digits
    }
}

/// A non-negative INTEGER given as big-endian bytes.
pub open spec fn integer_der(big_endian: Seq<u8>) -> Seq<u8> {
    tlv(TAG_INTEGER, integer_content(big_endian))
}

/// Reads one element with tag `tag` off the front of `bytes`: its content and
/// what follows it. `None` if another tag stands there or bytes are missing.
pub open spec fn read_tlv(tag: u8, bytes: Seq<u8>) -> Option<(Seq<u8>, Seq<u8>)> {
    if bytes.len() < 2 || bytes[0] != tag {
        None
    } else {
        let extra = if bytes[1] < 0x80 {
            0
        } else {
            bytes[1] - 0x80
        };
        let header = 2 + extra;
        if bytes.len() < header {
            None
        } else {
            let len = if bytes[1] < 0x80 {
                bytes[1] as nat
            } else {
                be_nat(bytes.subrange(2, header))
            };
            if bytes.len() < header + len {
                None
            } else {
                Some((bytes.subrange(header, header + len), bytes.skip(header + len)))
            }
        }
    }
}

// ---------------------------------------------------------------------------
// Encoders
// ---------------------------------------------------------------------------

/// Appends `src` to `dst`.
pub(crate) fn append_bytes(dst: &mut Vec<u8>, src: &[u8])
    ensures
        final(dst)@ == old(dst)@ + src@,
{
    let ghost before = dst@;
    dst.extend_from_slice(src);
    assert(dst@ =~= before + src@);
}

/// Frames `content` with its tag and length. The length takes the short form
/// below 128 bytes and otherwise the long form with as few bytes as it needs.
pub fn wrap(tag: u8, content: &[u8]) -> (out: Vec<u8>)
    ensures
        out@ == tlv(tag, content@),
{
    let mut out: Vec<u8> = Vec::with_capacity(content.len());
    out.push(tag);
    let len: usize = content.len();
    proof {
        reveal_with_fuel(be_bytes, 5);
    }
    if len < 0x80 {
        out.push(len as u8);
    } else if len < 0x100 {
        out.push(0x81);
        out.push(len as u8);
    } else if len < 0x1_0000 {
        out.push(0x82);
        out.push((len / 0x100) as u8);
        out.push((len % 0x100) as u8);
    } else if len < 0x100_0000 {
        out.push(0x83);
        out.push((len / 0x1_0000) as u8);
        out.push((len / 0x100 % 0x100) as u8);
        out.push((len % 0x100) as u8);
    } else {
        out.push(0x84);
        out.push((len / 0x100_0000 % 0x100) as u8);
        out.push((len / 0x1_0000 % 0x100) as u8);
        out.push((len / 0x100 % 0x100) as u8);
        out.push((len % 0x100) as u8);
    }
    assert(out@ =~= seq![tag] + length_octets(len as nat));
    append_bytes(&mut out, content);
    out
}

/// Frames `content` as a SEQUENCE.
pub fn der_seq(content: &[u8]) -> (out: Vec<u8>)
    ensures
        out@ == seq_der(content@),
{
    wrap(TAG_SEQUENCE, content)
}

/// Frames `content` as a BIT STRING without unused bits.
pub fn der_bit_string(content: &[u8]) -> (out: Vec<u8>)
    ensures
        out@ == bit_string_der(content@),
{
    let mut body: Vec<u8> = Vec::with_capacity(content.len());
    body.push(0x00);
    append_bytes(&mut body, content);
    assert(body@ =~= seq![0u8] + content@);
    wrap(TAG_BIT_STRING, body.as_slice())
}

/// Encodes a non-negative integer, given as big-endian bytes, as an INTEGER:
/// leading zeros go, and one comes back where the top bit is set.
pub fn der_integer(big_endian: &[u8]) -> (out: Vec<u8>)
    ensures
        out@ == integer_der(big_endian@),
{
    let mut start: usize = 0;
    assert(big_endian@.skip(0) =~= big_endian@);
    while start + 1 < big_endian.len() && big_endian[start] == 0
        invariant
            start <= big_endian@.len(),
            start + 1 <= usize::MAX,
            trim_zeros(big_endian@.skip(start as int)) == trim_zeros(big_endian@),
        decreases big_endian@.len() - start,
    {
        assert(big_endian@.skip(start as int).drop_first() =~= big_endian@.skip(start + 1));
        start += 1;
    }
    let trimmed: &[u8] = vstd::slice::slice_subrange(big_endian, start, big_endian.len());
    assert(trimmed@ =~= big_endian@.skip(start as int));
    assert(trimmed@ == trim_zeros(big_endian@));
    let mut body: Vec<u8> = Vec::with_capacity(trimmed.len());
    if trimmed.len() > 0 && trimmed[0] >= 0x80 {
        body.push(0x00);
    }
    append_bytes(&mut body, trimmed);
    assert(body@ =~= integer_content(big_endian@));
    wrap(TAG_INTEGER, body.as_slice())
}

// ---------------------------------------------------------------------------
// Laws
// ---------------------------------------------------------------------------

/// Writing a number in big-endian bytes and reading it back gives the number,
/// when it fits in that many bytes.
pub proof fn law_be_round_trip(n: nat, count: nat)
    requires
        n < pow(256, count),
    ensures
        be_bytes(n, count).len() == count,
        be_nat(be_bytes(n, count)) == n,
    decreases count,
{
    if count == 0 {
        lemma_pow0(256);
    } else {
        let prev = (count - 1) as nat;
        assert(n / 256 < pow(256, prev)) by {
            reveal(pow);
            assert(pow(256, count) == 256 * pow(256, prev));
        }
        law_be_round_trip(n / 256, prev);
        assert(be_bytes(n, count).drop_last() =~= be_bytes(n / 256, prev));
    }
}

/// A leading zero adds nothing to a big-endian number.
proof fn lemma_be_nat_leading_zero(bytes: Seq<u8>)
    requires
        bytes.len() > 0,
        bytes[0] == 0,
    ensures
        be_nat(bytes) == be_nat(bytes.drop_first()),
    decreases bytes.len(),
{
    if bytes.len() == 1 {
        assert(bytes.drop_last() =~= Seq::<u8>::empty());
        assert(bytes.drop_first() =~= Seq::<u8>::empty());
    } else {
        lemma_be_nat_leading_zero(bytes.drop_last());
        assert(bytes.drop_last().drop_first() =~= bytes.drop_first().drop_last());
    }
}

/// Dropping leading zeros keeps the number.
proof fn lemma_trim_zeros_value(bytes: Seq<u8>)
    ensures
        be_nat(trim_zeros(bytes)) == be_nat(bytes),
        bytes.len() > 0 ==> trim_zeros(bytes).len() > 0,
        trim_zeros(bytes).len() <= bytes.len(),
        trim_zeros(bytes).len() > 1 ==> trim_zeros(bytes)[0] != 0,
    decreases bytes.len(),
{
    if bytes.len() > 1 && bytes[0] == 0 {
        lemma_be_nat_leading_zero(bytes);
        lemma_trim_zeros_value(bytes.drop_first());
    }
}

/// The INTEGER encoding keeps the number.
pub proof fn law_integer_keeps_value(big_endian: Seq<u8>)
    ensures
        be_nat(integer_content(big_endian)) == be_nat(big_endian),
{
    let digits = trim_zeros(big_endian);
    lemma_trim_zeros_value(big_endian);
    if digits.len() > 0 && digits[0] >= 0x80 {
        let content = seq![0u8] + digits;
        lemma_be_nat_leading_zero(content);
        assert(content.drop_first() =~= digits);
    }
}

/// The INTEGER encoding is the canonical one of a non-negative number: never
/// empty, never signed, and no zero in front that is not needed.
pub proof fn law_integer_canonical(big_endian: Seq<u8>)
    requires
        big_endian.len() > 0,
    ensures
        integer_content(big_endian).len() > 0,
        integer_content(big_endian)[0] < 0x80,
        integer_content(big_endian).len() > 1 && integer_content(big_endian)[0] == 0
            ==> integer_content(big_endian)[1] >= 0x80,
        integer_content(big_endian).len() <= big_endian.len() + 1,
{
    lemma_trim_zeros_value(big_endian);
}

/// Length octets are canonical: one byte below 128, and otherwise a count
/// followed by that many bytes, which do not start with a zero and could not
/// have been fewer.
pub proof fn law_length_canonical(n: nat)
    requires
        n < 0x1_0000_0000,
    ensures
        n < 0x80 ==> length_octets(n) == seq![n as u8],
        n >= 0x80 ==> {
            &&& 1 <= length_size(n) <= 4
            &&& length_octets(n).len() == 1 + length_size(n)
            &&& length_octets(n)[0] == 0x80 + length_size(n)
            &&& length_octets(n)[1] != 0
            &&& be_nat(length_octets(n).skip(1)) == n
        },
{
    if n >= 0x80 {
        let size = length_size(n);
        assert(n < pow(256, size)) by {
            reveal_with_fuel(pow, 5);
        }
        law_be_round_trip(n, size);
        assert(length_octets(n).skip(1) =~= be_bytes(n, size));
        reveal_with_fuel(be_bytes, 5);
    }
}

/// An element that was written reads back, whatever follows it: its content
/// comes out and what follows is left. Lengths of four gigabytes or more do
/// not fit the length octets and are left out.
pub proof fn law_tlv_reads_back(tag: u8, content: Seq<u8>, rest: Seq<u8>)
    requires
        content.len() < 0x1_0000_0000,
    ensures
        read_tlv(tag, tlv(tag, content) + rest) == Some((content, rest)),
{
    let n = content.len();
    let bytes = tlv(tag, content) + rest;
    law_length_canonical(n);
    if n < 0x80 {
        assert(bytes.subrange(2, 2 + n as int) =~= content);
        assert(bytes.skip(2 + n as int) =~= rest);
    } else {
        let header = 2 + length_size(n) as int;
        assert(bytes.subrange(2, header) =~= length_octets(n).skip(1));
        assert(bytes.subrange(header, header + n as int) =~= content);
        assert(bytes.skip(header + n as int) =~= rest);
    }
}

/// How long an element is: the tag, the length octets and the content.
pub proof fn law_tlv_len(tag: u8, content: Seq<u8>)
    ensures
        content.len() + 2 <= tlv(tag, content).len() <= content.len() + 6,
{
    reveal_with_fuel(be_bytes, 5);
}

/// How big-endian numbers are read: nothing is zero, and one more byte behind
/// makes 256 times the number and that byte.
pub proof fn law_be_nat_goes_on(bytes: Seq<u8>, b: u8)
    ensures
        be_nat(Seq::<u8>::empty()) == 0,
        be_nat(bytes.push(b)) == be_nat(bytes) * 256 + b,
{
    assert(bytes.push(b).drop_last() =~= bytes);
}

/// The layout of an element: the tag in front, the content at the end, and
/// between them nothing but the length octets.
pub proof fn law_tlv_layout(tag: u8, content: Seq<u8>)
    ensures
        tlv(tag, content)[0] == tag,
        tlv(tag, content).len() == 1 + length_octets(content.len()).len() + content.len(),
        tlv(tag, content).subrange(1, 1 + length_octets(content.len()).len() as int)
            == length_octets(content.len()),
        tlv(tag, content).skip(1 + length_octets(content.len()).len() as int) == content,
{
    let n = length_octets(content.len()).len() as int;
    assert(tlv(tag, content).subrange(1, 1 + n) =~= length_octets(content.len()));
    assert(tlv(tag, content).skip(1 + n) =~= content);
}

/// A SEQUENCE is an element with tag 0x30, a BIT STRING one with tag 0x03 and a
/// zero in front of its bytes, an INTEGER one with tag 0x02; nothing stands
/// around them, whatever their size.
pub proof fn law_elements_are_framed_alike(bytes: Seq<u8>)
    ensures
        seq_der(bytes) == tlv(0x30, bytes),
        bit_string_der(bytes) == tlv(0x03, seq![0u8] + bytes),
        integer_der(bytes) == tlv(0x02, integer_content(bytes)),
        integer_content(Seq::<u8>::empty()) == Seq::<u8>::empty(),
{
}

/// An element in the short form is read by its length byte, whatever follows.
pub proof fn law_short_form_is_read(tag: u8, content: Seq<u8>, rest: Seq<u8>)
    requires
        content.len() < 0x80,
    ensures
        read_tlv(tag, seq![tag, content.len() as u8] + content + rest) == Some((content, rest)),
{
    let bytes = seq![tag, content.len() as u8] + content + rest;
    assert(bytes[0] == tag && bytes[1] == content.len());
    assert(bytes.subrange(2, 2 + content.len() as int) =~= content);
    assert(bytes.skip(2 + content.len() as int) =~= rest);
}

/// An element in the long form is read by the number in its length bytes,
/// zeros in front of it or not, whatever follows.
pub proof fn law_long_form_is_read(tag: u8, length: Seq<u8>, content: Seq<u8>, rest: Seq<u8>)
    requires
        length.len() < 0x80,
        be_nat(length) == content.len(),
    ensures
        read_tlv(tag, seq![tag, (0x80 + length.len()) as u8] + length + content + rest) == Some(
            (content, rest),
        ),
{
    let bytes = seq![tag, (0x80 + length.len()) as u8] + length + content + rest;
    let header = 2 + length.len() as int;
    assert(bytes[0] == tag && bytes[1] == 0x80 + length.len());
    assert(bytes.subrange(2, header) =~= length);
    assert(bytes.subrange(header, header + content.len()) =~= content);
    assert(bytes.skip(header + content.len()) =~= rest);
}

/// A length of four gigabytes or more keeps the four low-order bytes of its
/// number.
pub proof fn law_huge_lengths_keep_four_bytes(n: nat)
    requires
        n >= 0x1_0000_0000,
    ensures
        length_octets(n).len() == 5,
        length_octets(n)[0] == 0x84,
        be_nat(length_octets(n).skip(1)) == n % 0x1_0000_0000,
{
    reveal_with_fuel(be_bytes, 5);
    let low = be_bytes(n, 4);
    let b3 = (n / 256 / 256 / 256 % 256) as u8;
    let b2 = (n / 256 / 256 % 256) as u8;
    let b1 = (n / 256 % 256) as u8;
    let b0 = (n % 256) as u8;
    let none = Seq::<u8>::empty();
    assert(low =~= none.push(b3).push(b2).push(b1).push(b0));
    law_be_nat_goes_on(none, b3);
    law_be_nat_goes_on(none.push(b3), b2);
    law_be_nat_goes_on(none.push(b3).push(b2), b1);
    law_be_nat_goes_on(none.push(b3).push(b2).push(b1), b0);
    assert(length_octets(n).skip(1) =~= low);
}

} // verus!
