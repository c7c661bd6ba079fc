//! Numbers and bytes as text: decimal digits, and hexadecimal digits behind
//! the prefix `0x`.

use vstd::prelude::*;
use vstd::string::{StrSliceExecFns, StringExecFns};

verus! {

/// The digit that stands for `n` in a base up to sixteen.
pub open spec fn digit(n: int) -> char {
    "0123456789abcdef"@[n]
}

/// `n` in decimal, without leading zeros.
pub open spec fn decimal(n: nat) -> Seq<char>
    decreases n,
{
    if n < 10 {
        seq![digit(n as int)]
    } else {
        decimal(n / 10).push(digit(n as int % 10))
    }
}

/// Two lower-case hexadecimal digits for each of `bytes`, in their order.
pub open spec fn hex(bytes: Seq<u8>) -> Seq<char>
    decreases bytes.len(),
{
    if bytes.len() == 0 {
        Seq::empty()
    } else {
        hex(bytes.drop_last()).push(digit(bytes.last() as int / 16)).push(
            digit(bytes.last() as int % 16),
        )
    }
}

/// `bytes` in hexadecimal behind the prefix `0x`.
pub open spec fn prefixed_hex(bytes: Seq<u8>) -> Seq<char> {
    "0x"@ + hex(bytes)
}

/// The text of one digit.
fn digit_str(n: u8) -> (r: &'static str)
    requires
        n < 16,
    ensures
        r@ == seq![digit(n as int)],
{
    let digits = "0123456789abcdef";
    proof {
        reveal_strlit("0123456789abcdef");
    }
    let r = digits.substring_char(n as usize, n as usize + 1);
    assert(r@ =~= seq![digit(n as int)]);
    r
}

/// Appends `n` in decimal to `text`.
pub fn append_decimal(text: &mut String, n: u64)
    ensures
        final(text)@ == old(text)@ + decimal(n as nat),
    decreases n,
{
    if n >= 10 {
        append_decimal(text, n / 10);
    }
    text.append(digit_str((n % 10) as u8));
    assert(text@ =~= old(text)@ + decimal(n as nat));
}

/// Appends `bytes` in hexadecimal to `text`, without a prefix.
pub fn append_hex(text: &mut String, bytes: &[u8])
    ensures
        final(text)@ == old(text)@ + hex(bytes@),
{
    let mut i: usize = 0;
    assert(bytes@.take(0) =~= Seq::<u8>::empty());
    while i < bytes.len()
        invariant
            i <= bytes.len(),
            text@ == old(text)@ + hex(bytes@.take(i as int)),
        decreases bytes.len() - i,
    {
        let byte = bytes[i];
        proof {
            assert(bytes@.take(i + 1).drop_last() =~= bytes@.take(i as int));
        }
        text.append(digit_str(byte / 16));
        text.append(digit_str(byte % 16));
        assert(text@ =~= old(text)@ + hex(bytes@.take(i + 1)));
        i += 1;
    }
    assert(bytes@.take(bytes.len() as int) =~= bytes@);
}

/// The number that the hexadecimal digit `c` stands for, in either case.
pub open spec fn hex_value(c: char) -> Option<u8> {
    if '0' <= c <= '9' {
        Some((c as int - '0' as int) as u8)
    } else if 'a' <= c <= 'f' {
        Some((c as int - 'a' as int + 10) as u8)
    } else if 'A' <= c <= 'F' {
        Some((c as int - 'A' as int + 10) as u8)
    } else {
        None
    }
}

/// The bytes that `text` stands for in hexadecimal, two digits for each, or
/// `None` where `text` is something else.
pub open spec fn parse_hex(text: Seq<char>) -> Option<Seq<u8>>
    decreases text.len(),
{
    if text.len() == 0 {
        Some(Seq::empty())
    } else if text.len() == 1 {
        None
    } else {
        match (
            parse_hex(text.take(text.len() - 2)),
            hex_value(text[text.len() - 2]),
            hex_value(text[text.len() - 1]),
        ) {
            (Some(bytes), Some(high), Some(low)) => Some(bytes.push((high * 16 + low) as u8)),
            _ => None,
        }
    }
}

/// The bytes that `text` stands for in hexadecimal behind the prefix `0x`.
pub open spec fn parse_prefixed_hex(text: Seq<char>) -> Option<Seq<u8>> {
    if text.len() >= 2 && text[0] == '0' && text[1] == 'x' {
        parse_hex(text.skip(2))
    } else {
        None
    }
}

/// Text that stands for bytes has two characters for each byte, each of them
/// a hexadecimal digit, and every stretch of it that starts at the front and
/// ends after an even number of characters stands for bytes too.
pub proof fn lemma_parse_hex(text: Seq<char>)
    requires
        parse_hex(text) is Some,
    ensures
        text.len() == 2 * parse_hex(text).unwrap().len(),
        forall|i: int| 0 <= i < text.len() ==> hex_value(#[trigger] text[i]) is Some,
        forall|k: int|
            0 <= k <= text.len() && k % 2 == 0 ==> (#[trigger] parse_hex(text.take(k))) is Some,
    decreases text.len(),
{
    if text.len() >= 2 {
        let front = text.take(text.len() - 2);
        lemma_parse_hex(front);
        assert forall|i: int| 0 <= i < text.len() implies hex_value(#[trigger] text[i]) is Some by {
            if i < front.len() {
                assert(front[i] == text[i]);
            }
        }
        assert forall|k: int| 0 <= k <= text.len() && k % 2 == 0 implies (#[trigger] parse_hex(
            text.take(k),
        )) is Some by {
            if k == text.len() {
                assert(text.take(k) =~= text);
            } else {
                assert(front.take(k) =~= text.take(k));
            }
        }
    } else {
        assert(text.take(0) =~= text);
    }
}

/// What is written in hexadecimal is read back as it was.
pub proof fn lemma_hex_round_trip(bytes: Seq<u8>)
    ensures
        parse_hex(hex(bytes)) == Some(bytes),
        parse_prefixed_hex(prefixed_hex(bytes)) == Some(bytes),
    decreases bytes.len(),
{
    reveal_strlit("0123456789abcdef");
    reveal_strlit("0x");
    if bytes.len() > 0 {
        let front = bytes.drop_last();
        let last = bytes.last();
        lemma_hex_round_trip(front);
        let text = hex(bytes);
        assert(text.take(text.len() - 2) =~= hex(front));
        assert(hex_value(digit(last as int / 16)) == Some((last / 16) as u8));
        assert(hex_value(digit(last as int % 16)) == Some((last % 16) as u8));
        assert(front.push(last) =~= bytes);
    }
    assert(prefixed_hex(bytes).skip(2) =~= hex(bytes));
}

/// The number that the hexadecimal digit with code `code` stands for.
fn hex_digit_value(code: u8) -> (r: Option<u8>)
    ensures
        r == hex_value(code as char),
{
    if code >= 48 && code <= 57 {
        Some(code - 48)
    } else if code >= 97 && code <= 102 {
        Some(code - 87)
    } else if code >= 65 && code <= 70 {
        Some(code - 55)
    } else {
        None
    }
}

/// Reads the bytes that `text` stands for in hexadecimal behind the prefix
/// `0x`, digits of either case.
pub fn read_prefixed_hex(text: &str) -> (r: Option<Vec<u8>>)
    ensures
        match r {
            Some(bytes) => parse_prefixed_hex(text@) == Some(bytes@),
            None => parse_prefixed_hex(text@) is None,
        },
{
    broadcast use vstd::string::is_ascii_spec_bytes;

    if !text.is_ascii() {
        proof {
            if parse_prefixed_hex(text@) is Some {
                let digits = text@.skip(2);
                lemma_parse_hex(digits);
                assert forall|i: int| 0 <= i < text@.len() implies '\0' <= #[trigger] text@[i]
                    <= '\u{7f}' by {
                    if i >= 2 {
                        assert(digits[i - 2] == text@[i]);
                        assert(hex_value(digits[i - 2]) is Some);
                    }
                }
            }
        }
        return None;
    }
    let codes = text.as_bytes();
    assert(codes@.len() == text@.len());
    assert(forall|i: int| 0 <= i < text@.len() ==> codes@[i] as char == #[trigger] text@[i]);
    if codes.len() < 2 || codes[0] != 48 || codes[1] != 120 {
        return None;
    }
    let ghost digits = text@.skip(2);
    let mut bytes: Vec<u8> = Vec::new();
    let mut i: usize = 2;
    assert(digits.take(0) =~= Seq::<char>::empty());
    while i < codes.len()
        invariant
            2 <= i <= codes.len(),
            i % 2 == 0,
            codes@.len() == text@.len(),
            digits == text@.skip(2),
            forall|i: int| 0 <= i < text@.len() ==> codes@[i] as char == #[trigger] text@[i],
            parse_hex(digits.take(i - 2)) == Some(bytes@),
        decreases codes.len() - i,
    {
        if i + 1 >= codes.len() {
            proof {
                if parse_hex(digits) is Some {
                    lemma_parse_hex(digits);
                }
            }
            return None;
        }
        let ghost seen = digits.take(i as int);
        proof {
            assert(seen.take(seen.len() - 2) =~= digits.take(i - 2));
            assert(seen[seen.len() - 2] == text@[i as int]);
            assert(seen[seen.len() - 1] == text@[i + 1]);
        }
        let high = hex_digit_value(codes[i]);
        let low = hex_digit_value(codes[i + 1]);
        match (high, low) {
            (Some(high), Some(low)) => {
                bytes.push(high * 16 + low);
            },
            _ => {
                proof {
                    if parse_hex(digits) is Some {
                        lemma_parse_hex(digits);
                        assert(digits[i - 2] == text@[i as int]);
                        assert(digits[i - 1] == text@[i + 1]);
                    }
                }
                return None;
            },
        }
        i += 2;
    }
    assert(digits.take(digits.len() as int) =~= digits);
    Some(bytes)
}

} // verus!
