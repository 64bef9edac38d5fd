//! Numbers in text: reading decimals and writing hexadecimals.
use crate::text::chars_of;
use vstd::prelude::*;
use vstd::string::*;

verus! {

/// `c` is a decimal digit.
pub open spec fn is_digit(c: char) -> bool {
    '0' <= c <= '9'
}

/// The number that decimal digits spell.
pub open spec fn decimal_value(digits: Seq<char>) -> nat
    decreases digits.len(),
{
    if digits.len() == 0 {
        0
    } else {
        decimal_value(digits.drop_last()) * 10 + (digits.last() as nat - '0' as nat) as nat
    }
}

/// `s` without the plus sign that may stand in front.
pub open spec fn without_plus(s: Seq<char>) -> Seq<char> {
    if s.len() > 0 && s[0] == '+' {
        s.skip(1)
    } else {
        s
    }
}

/// All of `digits` are decimal digits, and there is at least one.
pub open spec fn is_decimal(digits: Seq<char>) -> bool {
    digits.len() > 0 && forall|i: int| 0 <= i < digits.len() ==> is_digit(#[trigger] digits[i])
}

/// The 64-bit number that `s` spells: an optional plus sign and decimal
/// digits, nothing else.
pub open spec fn u64_in(s: Seq<char>) -> Option<u64> {
    let digits = without_plus(s);
    if is_decimal(digits) && decimal_value(digits) <= u64::MAX {
        Some(decimal_value(digits) as u64)
    } else {
        None
    }
}

/// More digits never make a number smaller.
proof fn lemma_decimal_grows(digits: Seq<char>, n: int)
    requires
        is_decimal(digits),
        0 <= n <= digits.len(),
    ensures
        decimal_value(digits.take(n)) <= decimal_value(digits),
    decreases digits.len() - n,
{
    if n == digits.len() {
        assert(digits.take(n) =~= digits);
    } else {
        assert(digits.take(n + 1).drop_last() =~= digits.take(n));
        lemma_decimal_grows(digits, n + 1);
    }
}

/// Reads a 64-bit number: an optional plus sign and decimal digits.
pub fn parse_u64(s: &str) -> (r: Option<u64>)
    ensures
        r == u64_in(s@),
{
    let chars: Vec<char> = chars_of(s);
    let ghost digits = without_plus(s@);
    let start: usize = if chars.len() > 0 && chars[0] == '+' {
        1
    } else {
        0
    };
    assert(digits =~= s@.skip(start as int));
    if start == chars.len() {
        return None;
    }
    let mut v: u64 = 0;
    let mut i: usize = start;
    assert(digits.take(0) =~= Seq::<char>::empty());
    while i < chars.len()
        invariant
            start <= i <= chars@.len(),
            chars@ == s@,
            digits == without_plus(s@),
            digits == s@.skip(start as int),
            digits.len() > 0,
            v == decimal_value(digits.take(i - start)),
            forall|k: int| 0 <= k < i - start ==> is_digit(#[trigger] digits[k]),
        decreases chars@.len() - i,
    {
        let c: char = chars[i];
        let ghost k = i - start;
        assert(digits[k] == c);
        if !('0' <= c && c <= '9') {
            assert(!is_digit(digits[k]));
            return None;
        }
        let d: u64 = (c as u64) - ('0' as u64);
        assert(digits.take(k + 1).drop_last() =~= digits.take(k));
        if v > (u64::MAX - d) / 10 {
            proof {
                if is_decimal(digits) {
                    lemma_decimal_grows(digits, k + 1);
                }
            }
            return None;
        }
        v = v * 10 + d;
        i += 1;
    }
    assert(digits.take(i - start) =~= digits);
    Some(v)
}

/// The lower-case hexadecimal digit for a number below sixteen.
pub open spec fn hex_char(n: nat) -> char {
    if n < 10 {
        (n + '0' as nat) as char
    } else {
        (n - 10 + 'a' as nat) as char
    }
}

/// `n` in lower-case hexadecimal digits.
pub open spec fn hex_text(n: nat) -> Seq<char>
    decreases n,
{
    if n < 16 {
        seq![hex_char(n)]
    } else {
        hex_text(n / 16).push(hex_char(n % 16))
    }
}

/// `n` in lower-case hexadecimal digits, at least two of them.
pub open spec fn hex_text_2(n: nat) -> Seq<char> {
    if n < 16 {
        seq!['0', hex_char(n)]
    } else {
        hex_text(n)
    }
}

/// The lower-case hexadecimal digit for a number below sixteen, as text.
fn hex_digit_text(n: u32) -> (r: &'static str)
    requires
        n < 16,
    ensures
        r@ == seq![hex_char(n as nat)],
{
    proof {
        reveal_strlit("0");
        reveal_strlit("1");
        reveal_strlit("2");
        reveal_strlit("3");
        reveal_strlit("4");
        reveal_strlit("5");
        reveal_strlit("6");
        reveal_strlit("7");
        reveal_strlit("8");
        reveal_strlit("9");
        reveal_strlit("a");
        reveal_strlit("b");
        reveal_strlit("c");
        reveal_strlit("d");
        reveal_strlit("e");
        reveal_strlit("f");
    }
    match n {
        0 => "0",
        1 => "1",
        2 => "2",
        3 => "3",
        4 => "4",
        5 => "5",
        6 => "6",
        7 => "7",
        8 => "8",
        9 => "9",
        10 => "a",
        11 => "b",
        12 => "c",
        13 => "d",
        14 => "e",
        _ => "f",
    }
}

/// Writes `n` in lower-case hexadecimal digits.
fn to_hex(n: u32) -> (r: String)
    ensures
        r@ == hex_text(n as nat),
    decreases n,
{
    if n < 16 {
        hex_digit_text(n).to_owned()
    } else {
        let mut r: String = to_hex(n / 16);
        let ghost before = r@;
        r.append(hex_digit_text(n % 16));
        assert(r@ =~= before.push(hex_char((n % 16) as nat)));
        r
    }
}

/// Writes `n` in lower-case hexadecimal digits, at least two of them.
pub fn to_hex_2(n: u32) -> (r: String)
    ensures
        r@ == hex_text_2(n as nat),
{
    if n < 16 {
        let mut r: String = hex_digit_text(0).to_owned();
        r.append(hex_digit_text(n));
        assert(r@ =~= seq!['0', hex_char(n as nat)]);
        r
    } else {
        to_hex(n)
    }
}

// ---------------------------------------------------------------------------
// Laws
// ---------------------------------------------------------------------------

/// The number that a digit stands for, if `c` is one of the ten.
pub open spec fn digit_number(c: char) -> Option<u64> {
    if '0' <= c <= '9' {
        Some((c as int - '0' as int) as u64)
    } else {
        None
    }
}

/// How numbers start: a digit alone is its number, with a plus sign in front
/// too; nothing, and a plus sign alone, are no number.
pub proof fn law_number_starts(c: char)
    ensures
        u64_in(Seq::<char>::empty()) is None,
        u64_in(seq!['+']) is None,
        u64_in(seq![c]) == digit_number(c),
        u64_in(seq!['+', c]) == digit_number(c),
{
    reveal_with_fuel(decimal_value, 2);
    assert(seq!['+'].skip(1) =~= Seq::<char>::empty());
    assert(seq!['+', c].skip(1) =~= seq![c]);
    assert(seq![c].drop_last() =~= Seq::<char>::empty());
    assert(seq![c].skip(1) =~= Seq::<char>::empty());
    assert(seq![c][0] == c);
    if !('0' <= c <= '9') {
        assert(!is_digit(seq![c][0]));
        assert(!is_decimal(seq![c]));
    } else {
        assert(is_decimal(seq![c]));
    }
}

/// How numbers go on: one more digit makes ten times the number and the digit,
/// as long as that has 64 bits; any other character, and any character behind
/// what is no number, makes no number.
pub proof fn law_number_goes_on(s: Seq<char>, c: char)
    requires
        s.len() > 0,
        s != seq!['+'],
    ensures
        u64_in(s.push(c)) == match (u64_in(s), digit_number(c)) {
            (Some(n), Some(d)) => if n * 10 + d <= u64::MAX {
                Some((n * 10 + d) as u64)
            } else {
                None
            },
            _ => None,
        },
{
    let digits = without_plus(s);
    let more = without_plus(s.push(c));
    assert(more =~= digits.push(c));
    if digits.len() == 0 {
        assert(s =~= seq!['+']);
    }
    assert(more.drop_last() =~= digits);
    assert(more.last() == c);
    if is_decimal(more) {
        assert forall|i: int| 0 <= i < digits.len() implies is_digit(#[trigger] digits[i]) by {
            assert(more[i] == digits[i]);
        }
        assert(is_digit(more[digits.len() as int]));
    }
    if is_decimal(digits) && is_digit(c) {
        assert forall|i: int| 0 <= i < more.len() implies is_digit(#[trigger] more[i]) by {
            if i < digits.len() {
                assert(more[i] == digits[i]);
            }
        }
    }
}

/// The number that lower-case hexadecimal digits spell.
pub open spec fn hex_number(text: Seq<char>) -> nat
    decreases text.len(),
{
    if text.len() == 0 {
        0
    } else {
        let c = text.last() as nat;
        hex_number(text.drop_last()) * 16 + (if c <= '9' as nat {
            c - '0' as nat
        } else {
            c - 'a' as nat + 10
        }) as nat
    }
}

/// `c` is a lower-case hexadecimal digit.
pub open spec fn is_hex_char(c: char) -> bool {
    '0' <= c <= '9' || 'a' <= c <= 'f'
}

/// A number written in hexadecimal reads back. It has at least two digits, and
/// no zero in front where it has more.
pub proof fn law_hex_reads_back(n: nat)
    ensures
        hex_number(hex_text_2(n)) == n,
        hex_text_2(n).len() >= 2,
        hex_text_2(n).len() > 2 ==> hex_text_2(n)[0] != '0',
        forall|i: int| 0 <= i < hex_text_2(n).len() ==> is_hex_char(#[trigger] hex_text_2(n)[i]),
{
    lemma_hex_char(n % 16);
    if n < 16 {
        reveal_with_fuel(hex_number, 3);
        lemma_hex_char(n);
        let text = seq!['0', hex_char(n)];
        assert(text.drop_last() =~= seq!['0']);
        assert(seq!['0'].drop_last() =~= Seq::<char>::empty());
    } else {
        lemma_hex_text(n);
        lemma_hex_text(n / 16);
    }
}

/// A hexadecimal digit is one, and stands for its number.
proof fn lemma_hex_char(n: nat)
    requires
        n < 16,
    ensures
        is_hex_char(hex_char(n)),
        n > 0 ==> hex_char(n) != '0',
        hex_char(n) as nat == (if n < 10 {
            n + '0' as nat
        } else {
            (n - 10 + 'a' as nat) as nat
        }),
{
}

proof fn lemma_hex_text(n: nat)
    ensures
        hex_number(hex_text(n)) == n,
        hex_text(n).len() >= 1,
        n > 0 ==> hex_text(n)[0] != '0',
        forall|i: int| 0 <= i < hex_text(n).len() ==> is_hex_char(#[trigger] hex_text(n)[i]),
    decreases n,
{
    if n < 16 {
        reveal_with_fuel(hex_number, 2);
        lemma_hex_char(n);
        assert(seq![hex_char(n)].drop_last() =~= Seq::<char>::empty());
    } else {
        lemma_hex_text(n / 16);
        lemma_hex_char(n % 16);
        assert(hex_text(n).drop_last() =~= hex_text(n / 16));
        assert(hex_text(n)[0] == hex_text(n / 16)[0]);
    }
}

} // verus!
