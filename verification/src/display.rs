//! The formatting adapter: renders bytes as hex text honoring width, fill,
//! alignment and precision.

use vstd::prelude::*;

use crate::buf_encoder::push_char;
use crate::buf_encoder::BufEncoder;
use crate::hex_chars;
use crate::hex_of_byte;
use crate::lemma_hex_chars_take;
use crate::nibble_char;
use crate::Case;

verus! {

/// Where padding goes relative to the content.
#[derive(Clone, Copy, PartialEq, Eq, Structural, Debug)]
pub enum Align {
    /// Content first, padding after.
    Left,
    /// Padding first, content after.
    Right,
    /// Padding split evenly, the odd character after the content.
    Center,
}

/// A read-only format request: the options a generic formatting facility
/// carries for one rendering call.
#[derive(Clone, Copy, PartialEq, Eq, Structural, Debug)]
pub struct FormatOptions {
    /// Minimum rendered character count; shorter output is padded.
    pub width: Option<usize>,
    /// The padding character; a space when not set explicitly.
    pub fill: char,
    /// Requested alignment; `None` means the convention of the rendering
    /// style decides (left for slices, right for the numeric array style).
    pub align: Option<Align>,
    /// Maximum number of hex characters to emit; never extends output.
    pub precision: Option<usize>,
    /// Whether a `0x` prefix was requested (numeric array style only).
    pub alternate: bool,
    /// Whether sign-aware zero padding was requested (numeric array style
    /// only): pads with `0` after the prefix.
    pub zero_pad: bool,
}

impl FormatOptions {
    /// The options of a plain format request: no width, no precision, space
    /// fill, default alignment, no prefix, no zero padding.
    pub open spec fn spec_plain() -> FormatOptions {
        FormatOptions {
            width: None,
            fill: ' ',
            align: None,
            precision: None,
            alternate: false,
            zero_pad: false,
        }
    }

    /// Creates the options of a plain format request.
    pub fn plain() -> (r: FormatOptions)
        ensures
            r == FormatOptions::spec_plain(),
    {
        FormatOptions {
            width: None,
            fill: ' ',
            align: None,
            precision: None,
            alternate: false,
            zero_pad: false,
        }
    }
}

/// Marker for shared references: the display wrappers borrow their byte
/// source, so the types that hand them out are references.
pub trait IsRef: Copy {

}

impl<'a, T: ?Sized> IsRef for &'a T {

}

/// `n` copies of one character.
pub open spec fn repeat_char(c: char, n: nat) -> Seq<char> {
    Seq::new(n, |i: int| c)
}

/// How many hex characters the content occupies: the natural length `2 ×
/// byte_count`, capped by the precision when one is given.
pub open spec fn effective_len(n_bytes: nat, precision: Option<usize>) -> nat {
    match precision {
        Some(p) => if 2 * n_bytes <= p as nat {
            2 * n_bytes
        } else {
            p as nat
        },
        None => 2 * n_bytes,
    }
}

/// How many padding characters the width calls for.
pub open spec fn pad_total(content_len: nat, width: Option<usize>) -> nat {
    match width {
        Some(w) => if content_len < w as nat {
            (w as nat - content_len) as nat
        } else {
            0
        },
        None => 0,
    }
}

/// Splits the padding into the part before and the part after the content:
/// all after for left alignment, all before for right alignment, and an even
/// split for centering, with the odd character after.
pub open spec fn pad_split(pad: nat, align: Option<Align>, default: Align) -> (nat, nat) {
    let chosen = match align {
        Some(a) => a,
        None => default,
    };
    match chosen {
        Align::Left => (0nat, pad),
        Align::Right => (pad, 0nat),
        Align::Center => (pad / 2, (pad - pad / 2) as nat),
    }
}

/// What rendering a byte slice produces: the hex encoding truncated to the
/// effective length, padded to the width with the fill character, aligned
/// left unless the request says otherwise.
pub open spec fn rendered_slice(bs: Seq<u8>, upper: bool, opts: FormatOptions) -> Seq<char> {
    let content = hex_chars(bs, upper).take(effective_len(bs.len(), opts.precision) as int);
    let pads = pad_split(pad_total(content.len(), opts.width), opts.align, Align::Left);
    repeat_char(opts.fill, pads.0) + content + repeat_char(opts.fill, pads.1)
}

/// The prefix of the numeric array style: `0x` when requested, else nothing.
pub open spec fn array_prefix(alternate: bool) -> Seq<char> {
    if alternate {
        seq!['0', 'x']
    } else {
        Seq::empty()
    }
}

/// What rendering a fixed-length byte array produces: the numeric formatting
/// convention. All hex digits are kept (precision is ignored, leading zeros
/// stay); an optional `0x` prefix counts toward the width; zero padding goes
/// between prefix and digits; otherwise fill padding is aligned right unless
/// the request says otherwise.
pub open spec fn rendered_array(bs: Seq<u8>, upper: bool, opts: FormatOptions) -> Seq<char> {
    let digits = hex_chars(bs, upper);
    let body = array_prefix(opts.alternate) + digits;
    match opts.width {
        None => body,
        Some(w) => if w as nat <= body.len() {
            body
        } else if opts.zero_pad {
            array_prefix(opts.alternate) + repeat_char('0', (w as nat - body.len()) as nat)
                + digits
        } else {
            let pads = pad_split((w as nat - body.len()) as nat, opts.align, Align::Right);
            repeat_char(opts.fill, pads.0) + body + repeat_char(opts.fill, pads.1)
        },
    }
}

/// Writes `n` copies of the fill character to the sink, replicating the fill
/// through the chunked buffer and flushing it as it fills.
fn put_padding(out: &mut String, encoder: &mut BufEncoder, fill: char, n: usize)
    requires
        old(encoder).well_formed(),
        old(encoder).contents().len() == 0,
        old(encoder).capacity() >= 1,
    ensures
        final(encoder).well_formed(),
        final(encoder).contents().len() == 0,
        final(encoder).capacity() == old(encoder).capacity(),
        final(out)@ == old(out)@ + repeat_char(fill, n as nat),
{
    let mut k: usize = 0;
    while k < n
        invariant
            k <= n,
            encoder.well_formed(),
            encoder.capacity() == old(encoder).capacity(),
            encoder.capacity() >= 1,
            out@ + encoder.contents() == old(out)@ + repeat_char(fill, k as nat),
        decreases n - k,
    {
        if encoder.space_remaining() == 0 {
            encoder.flush_into(out);
            proof {
                assert(out@ + encoder.contents() =~= old(out)@ + repeat_char(fill, k as nat));
            }
        }
        encoder.put_filler(fill);
        proof {
            assert(out@ + encoder.contents() =~= (old(out)@ + repeat_char(fill, k as nat)).push(
                fill,
            ));
            assert((old(out)@ + repeat_char(fill, k as nat)).push(fill) =~= old(out)@ + repeat_char(
                fill,
                (k + 1) as nat,
            ));
        }
        k = k + 1;
    }
    encoder.flush_into(out);
    proof {
        assert(out@ =~= old(out)@ + repeat_char(fill, n as nat));
    }
}

/// Encodes the first `end` bytes of the source into the sink, two hex
/// characters per byte, flushing the chunked buffer whenever it fills.
fn put_hex_chunked(out: &mut String, encoder: &mut BufEncoder, bytes: &[u8], end: usize, case: Case)
    requires
        end <= bytes@.len(),
        old(encoder).well_formed(),
        old(encoder).contents().len() == 0,
        old(encoder).capacity() >= 2,
    ensures
        final(encoder).well_formed(),
        final(encoder).contents().len() == 0,
        final(encoder).capacity() == old(encoder).capacity(),
        final(out)@ == old(out)@ + hex_chars(bytes@.take(end as int), case.is_upper()),
{
    let mut i: usize = 0;
    while i < end
        invariant
            i <= end,
            end <= bytes@.len(),
            encoder.well_formed(),
            encoder.capacity() == old(encoder).capacity(),
            encoder.capacity() >= 2,
            out@ + encoder.contents() == old(out)@ + hex_chars(
                bytes@.take(i as int),
                case.is_upper(),
            ),
        decreases end - i,
    {
        if encoder.space_remaining() < 2 {
            encoder.flush_into(out);
            proof {
                assert(out@ + encoder.contents() =~= old(out)@ + hex_chars(
                    bytes@.take(i as int),
                    case.is_upper(),
                ));
            }
        }
        encoder.put_byte(bytes[i], case);
        proof {
            assert(hex_chars(bytes@.take(i + 1), case.is_upper()) =~= hex_chars(
                bytes@.take(i as int),
                case.is_upper(),
            ) + hex_of_byte(bytes@[i as int], case.is_upper()));
            assert(out@ + encoder.contents() =~= (old(out)@ + hex_chars(
                bytes@.take(i as int),
                case.is_upper(),
            )) + hex_of_byte(bytes@[i as int], case.is_upper()));
        }
        i = i + 1;
    }
    encoder.flush_into(out);
    proof {
        assert(out@ =~= old(out)@ + hex_chars(bytes@.take(end as int), case.is_upper()));
    }
}

/// Writes the `0x` prefix to the sink when the request asks for one.
fn put_array_prefix(out: &mut String, alternate: bool)
    ensures
        final(out)@ == old(out)@ + array_prefix(alternate),
{
    if alternate {
        push_char(out, '0');
        push_char(out, 'x');
        proof {
            assert(out@ =~= old(out)@ + array_prefix(true));
        }
    } else {
        proof {
            assert(out@ =~= old(out)@ + array_prefix(false));
        }
    }
}

/// Renders a byte sequence of known length as hex text in the numeric
/// formatting convention: every hex digit is emitted (leading zeros kept,
/// precision ignored), an optional `0x` prefix counts toward the width, zero
/// padding goes between prefix and digits, and fill padding is aligned right
/// by default. The buffer is sized exactly for the digits, so no chunking
/// happens.
///
/// The byte length is bounded so that the character count including the
/// prefix cannot wrap: longer inputs could not be rendered into addressable
/// memory.
#[verifier::rlimit(50)]
pub fn render_exact(bytes: &[u8], opts: &FormatOptions, case: Case) -> (r: String)
    requires
        bytes@.len() * 2 + 2 <= usize::MAX,
    ensures
        r@ == rendered_array(bytes@, case.is_upper(), *opts),
{
    let n = bytes.len();
    let digits_len: usize = n * 2;
    let prefix_len: usize = if opts.alternate {
        2
    } else {
        0
    };
    let body_len: usize = digits_len + prefix_len;
    let ghost digits = hex_chars(bytes@, case.is_upper());
    let ghost body = array_prefix(opts.alternate) + digits;
    proof {
        assert(bytes@.take(n as int) =~= bytes@);
        assert(body.len() == body_len as nat);
    }
    let mut out = String::new();
    let mut encoder = BufEncoder::new(digits_len + 2);
    match opts.width {
        None => {
            put_array_prefix(&mut out, opts.alternate);
            put_hex_chunked(&mut out, &mut encoder, bytes, n, case);
            proof {
                assert(out@ =~= body);
            }
        },
        Some(w) => {
            if body_len >= w {
                put_array_prefix(&mut out, opts.alternate);
                put_hex_chunked(&mut out, &mut encoder, bytes, n, case);
                proof {
                    assert(out@ =~= body);
                    assert(rendered_array(bytes@, case.is_upper(), *opts) == body);
                }
            } else if opts.zero_pad {
                put_array_prefix(&mut out, opts.alternate);
                put_padding(&mut out, &mut encoder, '0', w - body_len);
                put_hex_chunked(&mut out, &mut encoder, bytes, n, case);
                proof {
                    assert(out@ =~= array_prefix(opts.alternate) + repeat_char(
                        '0',
                        (w - body_len) as nat,
                    ) + digits);
                    assert(rendered_array(bytes@, case.is_upper(), *opts) == array_prefix(
                        opts.alternate,
                    ) + repeat_char('0', (w - body_len) as nat) + digits);
                }
            } else {
                let pad: usize = w - body_len;
                let left: usize;
                let right: usize;
                match opts.align {
                    Some(Align::Right) | None => {
                        left = pad;
                        right = 0;
                    },
                    Some(Align::Left) => {
                        left = 0;
                        right = pad;
                    },
                    Some(Align::Center) => {
                        left = pad / 2;
                        right = pad - pad / 2;
                    },
                }
                put_padding(&mut out, &mut encoder, opts.fill, left);
                put_array_prefix(&mut out, opts.alternate);
                put_hex_chunked(&mut out, &mut encoder, bytes, n, case);
                put_padding(&mut out, &mut encoder, opts.fill, right);
                proof {
                    assert((left as nat, right as nat) == pad_split(
                        pad as nat,
                        opts.align,
                        Align::Right,
                    ));
                    assert(out@ =~= repeat_char(opts.fill, left as nat) + body + repeat_char(
                        opts.fill,
                        right as nat,
                    ));
                    assert(rendered_array(bytes@, case.is_upper(), *opts) == repeat_char(
                        opts.fill,
                        left as nat,
                    ) + body + repeat_char(opts.fill, right as nat));
                }
            }
        },
    }
    out
}

/// Displays a byte slice as hex.
pub struct DisplayByteSlice<'a> {
    /// The borrowed byte source; never mutated by the display engine.
    pub bytes: &'a [u8],
}

impl<'a> DisplayByteSlice<'a> {
    /// Creates the wrapper.
    pub fn new(bytes: &'a [u8]) -> (r: Self)
        ensures
            r.bytes@ == bytes@,
    {
        DisplayByteSlice { bytes }
    }

    /// Renders the slice as hex text in the string formatting convention:
    /// precision truncates the hex characters from the end (keeping the
    /// most-significant bytes), width pads with the fill character, aligned
    /// left by default.
    ///
    /// The byte length is bounded so that the doubled length cannot wrap:
    /// longer inputs could not be rendered into addressable memory.
    #[verifier::rlimit(50)]
    pub fn display(&self, opts: &FormatOptions, case: Case) -> (r: String)
        requires
            self.bytes@.len() * 2 <= usize::MAX,
        ensures
            r@ == rendered_slice(self.bytes@, case.is_upper(), *opts),
    {
        let n = self.bytes.len();
        let natural: usize = n * 2;
        let eff: usize = match opts.precision {
            Some(p) => if p < natural {
                p
            } else {
                natural
            },
            None => natural,
        };
        let pad: usize = match opts.width {
            Some(w) => if eff < w {
                w - eff
            } else {
                0
            },
            None => 0,
        };
        let left: usize;
        let right: usize;
        match opts.align {
            Some(Align::Left) | None => {
                left = 0;
                right = pad;
            },
            Some(Align::Right) => {
                left = pad;
                right = 0;
            },
            Some(Align::Center) => {
                left = pad / 2;
                right = pad - pad / 2;
            },
        }
        let ghost hex = hex_chars(self.bytes@, case.is_upper());
        let ghost content = hex.take(eff as int);
        let mut out = String::new();
        let mut encoder = BufEncoder::new(1024);
        put_padding(&mut out, &mut encoder, opts.fill, left);
        let full = eff / 2;
        put_hex_chunked(&mut out, &mut encoder, self.bytes, full, case);
        proof {
            lemma_hex_chars_take(self.bytes@, case.is_upper(), full as int);
        }
        if eff % 2 == 1 {
            let c = nibble_char(self.bytes[full] / 16, case);
            proof {
                assert(c == hex[2 * full as int]);
            }
            push_char(&mut out, c);
        }
        proof {
            assert(out@ =~= repeat_char(opts.fill, left as nat) + content);
        }
        put_padding(&mut out, &mut encoder, opts.fill, right);
        proof {
            assert(eff as nat == effective_len(self.bytes@.len(), opts.precision));
            assert(content.len() == eff as nat);
            assert(pad as nat == pad_total(content.len(), opts.width));
            assert((left as nat, right as nat) == pad_split(pad as nat, opts.align, Align::Left));
            assert(out@ =~= rendered_slice(self.bytes@, case.is_upper(), *opts));
        }
        out
    }
}

/// Displays a fixed-length byte array as hex, in the numeric formatting
/// convention. Leading zeros are always kept: the values this is meant for
/// (hashes, keys) are fixed-width, and stripping their leading structure
/// would be confusing.
pub struct DisplayArray<const N: usize> {
    /// The byte array being displayed.
    pub array: [u8; N],
}

impl<const N: usize> DisplayArray<N> {
    /// Creates the wrapper.
    pub fn new(array: [u8; N]) -> (r: Self)
        ensures
            r.array@ == array@,
    {
        DisplayArray { array }
    }

    /// Renders the array as hex text in the numeric formatting convention;
    /// see [`render_exact`].
    pub fn display(&self, opts: &FormatOptions, case: Case) -> (r: String)
        requires
            N * 2 + 2 <= usize::MAX,
        ensures
            r@ == rendered_array(self.array@, case.is_upper(), *opts),
    {
        render_exact(self.array.as_slice(), opts, case)
    }
}

/// Creates an unconstrained lower-hex string of the bytes: two characters
/// per byte, in input order.
pub fn to_lower_hex_string(bytes: &[u8]) -> (r: String)
    requires
        bytes@.len() * 2 <= usize::MAX,
    ensures
        r@ == hex_chars(bytes@, false),
{
    to_hex_string(bytes, Case::Lower)
}

/// Creates an unconstrained upper-hex string of the bytes: two characters
/// per byte, in input order.
pub fn to_upper_hex_string(bytes: &[u8]) -> (r: String)
    requires
        bytes@.len() * 2 <= usize::MAX,
    ensures
        r@ == hex_chars(bytes@, true),
{
    to_hex_string(bytes, Case::Upper)
}

/// Creates an unconstrained hex string of the bytes in the given case: two
/// characters per byte, in input order.
pub fn to_hex_string(bytes: &[u8], case: Case) -> (r: String)
    requires
        bytes@.len() * 2 <= usize::MAX,
    ensures
        r@ == hex_chars(bytes@, case.is_upper()),
{
    let mut string = String::new();
    append_hex_to_string(bytes, case, &mut string);
    string
}

/// Appends the hex encoding of the bytes to an existing string.
pub fn append_hex_to_string(bytes: &[u8], case: Case, string: &mut String)
    requires
        bytes@.len() * 2 <= usize::MAX,
    ensures
        final(string)@ == old(string)@ + hex_chars(bytes@, case.is_upper()),
{
    let mut encoder = BufEncoder::new(1024);
    let n = bytes.len();
    put_hex_chunked(string, &mut encoder, bytes, n, case);
    proof {
        assert(bytes@.take(n as int) =~= bytes@);
    }
}

/// Hints how many characters the unconstrained hex encoding occupies: the
/// doubled byte length. The doubling is bounded because a longer string
/// could not fit into addressable memory.
pub fn hex_reserve_suggestion(bytes: &[u8]) -> (r: usize)
    requires
        bytes@.len() * 2 <= usize::MAX,
    ensures
        r as nat == hex_chars(bytes@, false).len(),
{
    bytes.len() * 2
}

/// Length law: without width and precision constraints the rendered text is
/// the bare hex encoding, exactly two characters per byte.
pub proof fn lemma_natural_render_length(bs: Seq<u8>, upper: bool, opts: FormatOptions)
    requires
        (opts.width is None),
        (opts.precision is None),
    ensures
        rendered_slice(bs, upper, opts) == hex_chars(bs, upper),
        rendered_slice(bs, upper, opts).len() == 2 * bs.len(),
{
    assert(rendered_slice(bs, upper, opts) =~= hex_chars(bs, upper));
}

/// Precision never extends: a precision of at least the natural length
/// renders the same text as no precision at all.
pub proof fn lemma_precision_never_extends(
    bs: Seq<u8>,
    upper: bool,
    with_p: FormatOptions,
    without_p: FormatOptions,
    p: usize,
)
    requires
        with_p.precision == Some(p),
        2 * bs.len() <= p as nat,
        without_p == (FormatOptions { precision: None, ..with_p }),
    ensures
        rendered_slice(bs, upper, with_p) == rendered_slice(bs, upper, without_p),
{
    assert(hex_chars(bs, upper).take(2 * bs.len() as int) =~= hex_chars(bs, upper));
}

/// Width never truncates: without a precision the content of the output is
/// the full hex encoding, the padding only surrounds it, and the output is
/// never shorter than the natural length.
pub proof fn lemma_width_never_truncates(bs: Seq<u8>, upper: bool, opts: FormatOptions)
    requires
        (opts.precision is None),
    ensures
        rendered_slice(bs, upper, opts) == repeat_char(
            opts.fill,
            pad_split(pad_total(2 * bs.len(), opts.width), opts.align, Align::Left).0,
        ) + hex_chars(bs, upper) + repeat_char(
            opts.fill,
            pad_split(pad_total(2 * bs.len(), opts.width), opts.align, Align::Left).1,
        ),
        rendered_slice(bs, upper, opts).len() >= 2 * bs.len(),
{
    assert(hex_chars(bs, upper).take(2 * bs.len() as int) =~= hex_chars(bs, upper));
}

/// Alignment law: the two padding runs always use up the whole padding; left
/// alignment puts it all after the content, right alignment all before, and
/// centering splits it evenly with the odd character after.
pub proof fn lemma_alignment_splits_padding(pad: nat, align: Option<Align>, default: Align)
    ensures
        pad_split(pad, align, default).0 + pad_split(pad, align, default).1 == pad,
        align == Some(Align::Left) ==> pad_split(pad, align, default) == (0nat, pad),
        align == Some(Align::Right) ==> pad_split(pad, align, default) == (pad, 0nat),
        align == Some(Align::Center) ==> pad_split(pad, align, default).0 == pad / 2
            && pad_split(pad, align, default).1 == pad - pad / 2,
        (align is None) ==> pad_split(pad, align, default) == pad_split(pad, Some(default), default),
{
}

/// Array and slice rendering agree on unconstrained requests: both emit
/// every hex digit, leading zeros included. The two conventions differ only
/// in how they pad to a width.
pub proof fn lemma_array_slice_agree_unconstrained(bs: Seq<u8>, upper: bool, opts: FormatOptions)
    requires
        (opts.width is None),
        (opts.precision is None),
        !opts.alternate,
    ensures
        rendered_array(bs, upper, opts) == hex_chars(bs, upper),
        rendered_array(bs, upper, opts) == rendered_slice(bs, upper, opts),
{
    assert(rendered_array(bs, upper, opts) =~= hex_chars(bs, upper));
    lemma_natural_render_length(bs, upper, opts);
}

} // verus!
