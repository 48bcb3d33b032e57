//! Lower-case hexadecimal text for byte strings, two digits to the byte.

use vstd::prelude::*;

verus! {

/// The digit, as an ASCII byte, for a value below 16.
pub open spec fn hex_digit(n: u8) -> u8 {
    if n < 10 {
        (48 + n) as u8
    } else {
        (87 + n) as u8
    }
}

/// `c` is one of `0`..`9`, `a`..`f`.
pub open spec fn is_hex_digit(c: u8) -> bool {
    (48 <= c && c <= 57) || (97 <= c && c <= 102)
}

/// The value of the digit `c`.
pub open spec fn hex_value(c: u8) -> u8 {
    if c <= 57 {
        (c - 48) as u8
    } else {
        (c - 87) as u8
    }
}

/// The digit at position `k` of the text for `bytes`: high half first.
pub open spec fn hex_at(bytes: Seq<u8>, k: int) -> u8 {
    if k % 2 == 0 {
        hex_digit(bytes[k / 2] / 16)
    } else {
        hex_digit(bytes[k / 2] % 16)
    }
}

/// The byte that the digits at `2 * i` and `2 * i + 1` of `text` spell.
pub open spec fn byte_at(text: Seq<u8>, i: int) -> u8 {
    (hex_value(text[2 * i]) * 16 + hex_value(text[2 * i + 1])) as u8
}

/// The text for `bytes`.
pub open spec fn hex(bytes: Seq<u8>) -> Seq<u8> {
    Seq::new(2 * bytes.len(), |k: int| hex_at(bytes, k))
}

/// The bytes that `text` spells, if it is an even number of digits.
pub open spec fn unhex(text: Seq<u8>) -> Option<Seq<u8>> {
    if text.len() % 2 == 0 && forall|k: int| 0 <= k < text.len() ==> is_hex_digit(#[trigger] text[k]) {
        Some(Seq::new((text.len() / 2) as nat, |i: int| byte_at(text, i)))
    } else {
        None
    }
}

/// Reading back what was written gives the bytes again.
pub proof fn lemma_unhex_hex(bytes: Seq<u8>)
    ensures
        unhex(hex(bytes)) == Some(bytes),
{
    let text = hex(bytes);
    assert forall|k: int| 0 <= k < text.len() implies is_hex_digit(#[trigger] text[k]) by {
        let b = bytes[k / 2];
        assert(b / 16 < 16 && b % 16 < 16);
    }
    let back = Seq::new((text.len() / 2) as nat, |i: int| byte_at(text, i));
    assert forall|i: int| 0 <= i < bytes.len() implies back[i] == bytes[i] by {
        let b = bytes[i];
        assert(text[2 * i] == hex_digit(b / 16));
        assert(text[2 * i + 1] == hex_digit(b % 16));
        assert(b / 16 < 16 && b % 16 < 16);
        assert((b / 16) * 16 + b % 16 == b);
    }
    assert(back =~= bytes);
}

/// Text that can be read is the text of what it spells: no two texts
/// spell the same bytes.
pub proof fn lemma_hex_unhex(text: Seq<u8>)
    ensures
        unhex(text) matches Some(bytes) ==> hex(bytes) == text,
{
    if let Some(bytes) = unhex(text) {
        assert forall|k: int| 0 <= k < text.len() implies hex_at(bytes, k) == text[k] by {
            let i = k / 2;
            assert(is_hex_digit(text[2 * i]));
            assert(is_hex_digit(text[2 * i + 1]));
            assert(bytes[i] == byte_at(text, i));
            let hi = hex_value(text[2 * i]);
            let lo = hex_value(text[2 * i + 1]);
            assert(hi < 16 && lo < 16);
            assert((hi * 16 + lo) / 16 == hi);
            assert((hi * 16 + lo) % 16 == lo);
        }
        assert(hex(bytes) =~= text);
    }
}

fn digit(n: u8) -> (c: u8)
    requires
        n < 16,
    ensures
        c == hex_digit(n),
{
    if n < 10 {
        48 + n
    } else {
        87 + n
    }
}

fn value(c: u8) -> (v: Option<u8>)
    ensures
        v == if is_hex_digit(c) {
            Some(hex_value(c))
        } else {
            None
        },
{
    if 48 <= c && c <= 57 {
        Some(c - 48)
    } else if 97 <= c && c <= 102 {
        Some(c - 87)
    } else {
        None
    }
}

/// Writes `bytes` as text.
pub fn to_hex(bytes: &[u8]) -> (text: Vec<u8>)
    ensures
        text@ == hex(bytes@),
{
    let mut text: Vec<u8> = Vec::new();
    let mut i: usize = 0;
    while i < bytes.len()
        invariant
            i <= bytes.len(),
            text@.len() == 2 * i,
            forall|k: int| 0 <= k < text@.len() ==> text@[k] == hex_at(bytes@, k),
        decreases bytes.len() - i,
    {
        let b: u8 = bytes[i];
        text.push(digit(b / 16));
        text.push(digit(b % 16));
        i += 1;
    }
    assert(text@ =~= hex(bytes@));
    text
}

/// Reads the bytes that `text` spells.
pub fn from_hex(text: &[u8]) -> (bytes: Option<Vec<u8>>)
    ensures
        match bytes {
            Some(b) => unhex(text@) == Some(b@),
            None => unhex(text@) is None,
        },
{
    if text.len() % 2 != 0 {
        return None;
    }
    let mut bytes: Vec<u8> = Vec::new();
    let mut i: usize = 0;
    while i < text.len() / 2
        invariant
            text@.len() % 2 == 0,
            i <= text@.len() / 2,
            bytes@.len() == i,
            forall|k: int| 0 <= k < 2 * i ==> is_hex_digit(#[trigger] text@[k]),
            forall|j: int| 0 <= j < i ==> bytes@[j] == byte_at(text@, j),
        decreases text.len() / 2 - i,
    {
        let hi = value(text[2 * i]);
        let lo = value(text[2 * i + 1]);
        match (hi, lo) {
            (Some(h), Some(l)) => {
                bytes.push(h * 16 + l);
            },
            _ => {
                assert(!is_hex_digit(text@[2 * i as int]) || !is_hex_digit(text@[2 * i + 1]));
                return None;
            },
        }
        i += 1;
    }
    assert(bytes@ =~= Seq::new((text@.len() / 2) as nat, |j: int| byte_at(text@, j)));
    Some(bytes)
}

} // verus!
