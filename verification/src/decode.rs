//! Hex-text decoding: the collaborator that inverts the display engine.

use vstd::prelude::*;

use crate::hex_chars;
use crate::hex_digit;

verus! {

/// True when `c` is an ASCII hex digit of either case.
pub open spec fn is_hex_digit_char(c: char) -> bool {
    ('0' <= c && c <= '9') || ('a' <= c && c <= 'f') || ('A' <= c && c <= 'F')
}

/// The nibble value of a hex digit character, of either case.
pub open spec fn hex_char_value(c: char) -> int {
    if c == '0' {
        0
    } else if c == '1' {
        1
    } else if c == '2' {
        2
    } else if c == '3' {
        3
    } else if c == '4' {
        4
    } else if c == '5' {
        5
    } else if c == '6' {
        6
    } else if c == '7' {
        7
    } else if c == '8' {
        8
    } else if c == '9' {
        9
    } else if c == 'a' || c == 'A' {
        10
    } else if c == 'b' || c == 'B' {
        11
    } else if c == 'c' || c == 'C' {
        12
    } else if c == 'd' || c == 'D' {
        13
    } else if c == 'e' || c == 'E' {
        14
    } else {
        15
    }
}

/// Decodes hex text back to bytes: `None` on odd length or on any character
/// that is not a hex digit, otherwise one byte per character pair.
pub open spec fn decode_hex(s: Seq<char>) -> Option<Seq<u8>> {
    if s.len() % 2 == 0 && (forall|i: int| 0 <= i < s.len() ==> is_hex_digit_char(#[trigger] s[i])) {
        Some(
            Seq::new(
                s.len() / 2,
                |i: int| (hex_char_value(s[2 * i]) * 16 + hex_char_value(s[2 * i + 1])) as u8,
            ),
        )
    } else {
        None
    }
}

/// The nibble value of one hex digit character, or `None` when the character
/// is not a hex digit of either case.
pub fn hex_digit_value(c: char) -> (r: Option<u8>)
    ensures
        match r {
            Some(v) => is_hex_digit_char(c) && v < 16 && v as int == hex_char_value(c),
            None => !is_hex_digit_char(c),
        },
{
    match c {
        '0' => Some(0),
        '1' => Some(1),
        '2' => Some(2),
        '3' => Some(3),
        '4' => Some(4),
        '5' => Some(5),
        '6' => Some(6),
        '7' => Some(7),
        '8' => Some(8),
        '9' => Some(9),
        'a' | 'A' => Some(10),
        'b' | 'B' => Some(11),
        'c' | 'C' => Some(12),
        'd' | 'D' => Some(13),
        'e' | 'E' => Some(14),
        'f' | 'F' => Some(15),
        _ => None,
    }
}

/// Decodes hex text, of either case, back to the bytes it encodes: `None`
/// exactly on odd-length input or on input holding a character that is not a
/// hex digit.
pub fn decode_hex_chars(s: &Vec<char>) -> (r: Option<Vec<u8>>)
    ensures
        match r {
            Some(v) => decode_hex(s@) == Some(v@),
            None => decode_hex(s@) is None,
        },
{
    let n = s.len();
    if n % 2 != 0 {
        return None;
    }
    let mut out: Vec<u8> = Vec::new();
    let mut i: usize = 0;
    while i < n
        invariant
            n == s@.len(),
            i <= n,
            i % 2 == 0,
            n % 2 == 0,
            forall|j: int| 0 <= j < i ==> is_hex_digit_char(#[trigger] s@[j]),
            out@.len() == i / 2,
            forall|k: int|
                0 <= k < i / 2 ==> (#[trigger] out@[k]) as int == hex_char_value(s@[2 * k]) * 16
                    + hex_char_value(s@[2 * k + 1]),
        decreases n - i,
    {
        let hi = match hex_digit_value(s[i]) {
            Some(v) => v,
            None => {
                return None;
            },
        };
        let lo = match hex_digit_value(s[i + 1]) {
            Some(v) => v,
            None => {
                return None;
            },
        };
        out.push(hi * 16 + lo);
        i = i + 2;
    }
    proof {
        let decoded = Seq::new(
            s@.len() / 2,
            |k: int| (hex_char_value(s@[2 * k]) * 16 + hex_char_value(s@[2 * k + 1])) as u8,
        );
        assert(out@ =~= decoded);
    }
    Some(out)
}

/// Every hex digit character the encoder can emit decodes back to the
/// nibble value it was made from.
pub proof fn lemma_hex_digit_inverts(n: int, upper: bool)
    requires
        0 <= n < 16,
    ensures
        is_hex_digit_char(hex_digit(n, upper)),
        hex_char_value(hex_digit(n, upper)) == n,
{
    reveal(hex_digit);
}

/// Round trip: decoding the hex encoding of any byte sequence, in either
/// case, gives back exactly that sequence.
pub proof fn lemma_decode_inverts_encode(bs: Seq<u8>, upper: bool)
    ensures
        decode_hex(hex_chars(bs, upper)) == Some(bs),
{
    let s = hex_chars(bs, upper);
    assert forall|i: int| 0 <= i < s.len() implies is_hex_digit_char(#[trigger] s[i]) by {
        let b = bs[i / 2] as int;
        if i % 2 == 0 {
            lemma_hex_digit_inverts(b / 16, upper);
        } else {
            lemma_hex_digit_inverts(b % 16, upper);
        }
    }
    let decoded = Seq::new(
        s.len() / 2,
        |k: int| (hex_char_value(s[2 * k]) * 16 + hex_char_value(s[2 * k + 1])) as u8,
    );
    assert forall|k: int| 0 <= k < decoded.len() implies decoded[k] == bs[k] by {
        let b = bs[k] as int;
        lemma_hex_digit_inverts(b / 16, upper);
        lemma_hex_digit_inverts(b % 16, upper);
        assert(s[2 * k] == hex_digit(b / 16, upper));
        assert(s[2 * k + 1] == hex_digit(b % 16, upper));
        assert((b / 16) * 16 + b % 16 == b);
    }
    assert(decoded =~= bs);
}

} // verus!
