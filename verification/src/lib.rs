//! Helpers for displaying bytes as hex strings.
//!
//! The core of the crate is a formatted hex display engine: it renders a byte
//! slice or a fixed-size byte array as ASCII hex text while honoring the
//! usual text-formatting options (width, fill character, alignment,
//! precision), writing through a small fixed-capacity buffer so that peak
//! memory stays bounded regardless of input length.

use vstd::prelude::*;

pub mod buf_encoder;
pub mod decode;
pub mod display;

verus! {

/// Selects the hex alphabet: `0-9a-f` or `0-9A-F`.
#[derive(Clone, Copy, PartialEq, Eq, Structural, Debug)]
pub enum Case {
    /// Render using `0-9a-f`.
    Lower,
    /// Render using `0-9A-F`.
    Upper,
}

impl Case {
    /// True when this case selects the uppercase alphabet.
    pub open spec fn is_upper(self) -> bool {
        self == Case::Upper
    }
}

/// The hex digit character for a nibble value, in the given case.
#[verifier::opaque]
pub open spec fn hex_digit(n: int, upper: bool) -> char {
    if n == 0 {
        '0'
    } else if n == 1 {
        '1'
    } else if n == 2 {
        '2'
    } else if n == 3 {
        '3'
    } else if n == 4 {
        '4'
    } else if n == 5 {
        '5'
    } else if n == 6 {
        '6'
    } else if n == 7 {
        '7'
    } else if n == 8 {
        '8'
    } else if n == 9 {
        '9'
    } else if n == 10 {
        if upper { 'A' } else { 'a' }
    } else if n == 11 {
        if upper { 'B' } else { 'b' }
    } else if n == 12 {
        if upper { 'C' } else { 'c' }
    } else if n == 13 {
        if upper { 'D' } else { 'd' }
    } else if n == 14 {
        if upper { 'E' } else { 'e' }
    } else {
        if upper { 'F' } else { 'f' }
    }
}

/// The two hex characters of one byte: most-significant nibble first.
pub open spec fn hex_of_byte(b: u8, upper: bool) -> Seq<char> {
    seq![hex_digit(b as int / 16, upper), hex_digit(b as int % 16, upper)]
}

/// The full hex encoding of a byte sequence: two characters per byte, in
/// input order, leading zeros kept.
pub open spec fn hex_chars(bs: Seq<u8>, upper: bool) -> Seq<char> {
    Seq::new(
        2 * bs.len(),
        |i: int|
            if i % 2 == 0 {
                hex_digit(bs[i / 2] as int / 16, upper)
            } else {
                hex_digit(bs[i / 2] as int % 16, upper)
            },
    )
}

/// Encoding a prefix of the input yields a prefix of the encoding.
pub proof fn lemma_hex_chars_take(bs: Seq<u8>, upper: bool, k: int)
    requires
        0 <= k <= bs.len(),
    ensures
        hex_chars(bs.take(k), upper) == hex_chars(bs, upper).take(2 * k),
{
    assert(hex_chars(bs.take(k), upper) =~= hex_chars(bs, upper).take(2 * k));
}

/// Maps an uppercase hex letter to its lowercase form and any other
/// character to itself.
pub open spec fn lower_hex_char(c: char) -> char {
    if c == 'A' {
        'a'
    } else if c == 'B' {
        'b'
    } else if c == 'C' {
        'c'
    } else if c == 'D' {
        'd'
    } else if c == 'E' {
        'e'
    } else if c == 'F' {
        'f'
    } else {
        c
    }
}

/// The two cases differ only in letter case: the encodings have the same
/// length, lowering each uppercase character gives the lowercase encoding,
/// and the two agree at a position exactly where it holds a decimal digit.
pub proof fn lemma_case_changes_letters_only(bs: Seq<u8>)
    ensures
        hex_chars(bs, true).len() == hex_chars(bs, false).len(),
        forall|i: int|
            0 <= i < hex_chars(bs, false).len() ==> lower_hex_char(
                #[trigger] hex_chars(bs, true)[i],
            ) == hex_chars(bs, false)[i],
        forall|i: int|
            0 <= i < hex_chars(bs, false).len() ==> ((hex_chars(bs, true)[i] == #[trigger] hex_chars(
                bs,
                false,
            )[i]) <==> ('0' <= hex_chars(bs, false)[i] <= '9')),
{
    reveal(hex_digit);
    assert forall|i: int| 0 <= i < hex_chars(bs, false).len() implies lower_hex_char(
        #[trigger] hex_chars(bs, true)[i],
    ) == hex_chars(bs, false)[i] && ((hex_chars(bs, true)[i] == hex_chars(bs, false)[i]) <==> ('0'
        <= hex_chars(bs, false)[i] <= '9')) by {
        let b = bs[i / 2] as int;
        assert(0 <= b / 16 < 16);
        assert(0 <= b % 16 < 16);
    }
}

/// The hex digit character for a nibble value, as executable code.
pub(crate) fn nibble_char(n: u8, case: Case) -> (c: char)
    requires
        n < 16,
    ensures
        c == hex_digit(n as int, case.is_upper()),
{
    proof {
        reveal(hex_digit);
    }
    match case {
        Case::Lower => match n {
            0 => '0',
            1 => '1',
            2 => '2',
            3 => '3',
            4 => '4',
            5 => '5',
            6 => '6',
            7 => '7',
            8 => '8',
            9 => '9',
            10 => 'a',
            11 => 'b',
            12 => 'c',
            13 => 'd',
            14 => 'e',
            _ => 'f',
        },
        Case::Upper => match n {
            0 => '0',
            1 => '1',
            2 => '2',
            3 => '3',
            4 => '4',
            5 => '5',
            6 => '6',
            7 => '7',
            8 => '8',
            9 => '9',
            10 => 'A',
            11 => 'B',
            12 => 'C',
            13 => 'D',
            14 => 'E',
            _ => 'F',
        },
    }
}

/// Converts one byte to its two hex characters, most-significant nibble
/// first.
pub fn byte_to_hex(b: u8, case: Case) -> (r: (char, char))
    ensures
        seq![r.0, r.1] == hex_of_byte(b, case.is_upper()),
{
    let hi = nibble_char(b / 16, case);
    let lo = nibble_char(b % 16, case);
    (hi, lo)
}

} // verus!
