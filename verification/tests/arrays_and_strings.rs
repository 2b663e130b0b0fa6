use hex_display::display::append_hex_to_string;
use hex_display::display::hex_reserve_suggestion;
use hex_display::display::render_exact;
use hex_display::display::to_hex_string;
use hex_display::display::to_lower_hex_string;
use hex_display::display::to_upper_hex_string;
use hex_display::display::Align;
use hex_display::display::DisplayArray;
use hex_display::display::DisplayByteSlice;
use hex_display::display::FormatOptions;
use hex_display::Case;

fn numeric_opts(width: Option<usize>, alternate: bool, zero_pad: bool) -> FormatOptions {
    FormatOptions { width, fill: ' ', align: None, precision: None, alternate, zero_pad }
}

#[test]
fn string_helpers() {
    let v = vec![0xde, 0xad, 0xbe, 0xef];
    assert_eq!(to_lower_hex_string(&v), "deadbeef");
    assert_eq!(to_upper_hex_string(&v), "DEADBEEF");
    assert_eq!(to_hex_string(&v, Case::Lower), "deadbeef");
    assert_eq!(to_hex_string(&v, Case::Upper), "DEADBEEF");
    assert_eq!(hex_reserve_suggestion(&v), 8);
}

#[test]
fn append_keeps_existing_text() {
    let v = vec![0x01, 0x23];
    let mut s = String::from("bytes: ");
    append_hex_to_string(&v, Case::Lower, &mut s);
    assert_eq!(s, "bytes: 0123");
}

#[test]
fn rendered_length_is_double() {
    let v = vec![0x00, 0x11, 0x22, 0x33, 0x44];
    let got = DisplayByteSlice::new(&v).display(&FormatOptions::plain(), Case::Lower);
    assert_eq!(got.len(), 2 * v.len());
}

#[test]
fn array_plain_keeps_leading_zeros() {
    let arr = DisplayArray::<3>::new([0x00, 0x00, 0x2a]);
    let got = arr.display(&FormatOptions::plain(), Case::Lower);
    assert_eq!(got, "00002a");
}

#[test]
fn array_alternate_prefixes() {
    let arr = DisplayArray::<2>::new([0xab, 0xcd]);
    let got = arr.display(&numeric_opts(None, true, false), Case::Lower);
    assert_eq!(got, "0xabcd");
    let upper = arr.display(&numeric_opts(None, true, false), Case::Upper);
    assert_eq!(upper, "0xABCD");
}

#[test]
fn array_zero_pad_goes_after_prefix() {
    let arr = DisplayArray::<2>::new([0xab, 0xcd]);
    let got = arr.display(&numeric_opts(Some(8), false, true), Case::Lower);
    assert_eq!(got, "0000abcd");
    let prefixed = arr.display(&numeric_opts(Some(8), true, true), Case::Lower);
    assert_eq!(prefixed, "0x00abcd");
}

#[test]
fn array_width_defaults_to_right_alignment() {
    let arr = DisplayArray::<2>::new([0x00, 0x01]);
    let got = arr.display(&numeric_opts(Some(6), false, false), Case::Lower);
    assert_eq!(got, "  0001");
}

#[test]
fn array_ignores_precision() {
    let arr = DisplayArray::<2>::new([0xab, 0xcd]);
    let mut o = FormatOptions::plain();
    o.precision = Some(2);
    let got = arr.display(&o, Case::Lower);
    assert_eq!(got, "abcd");
}

#[test]
fn array_and_slice_agree_without_constraints() {
    let bytes = [0x00, 0x07, 0xa0];
    let from_array = DisplayArray::<3>::new(bytes).display(&FormatOptions::plain(), Case::Lower);
    let from_slice = DisplayByteSlice::new(&bytes).display(&FormatOptions::plain(), Case::Lower);
    assert_eq!(from_array, "0007a0");
    assert_eq!(from_slice, "0007a0");
}

#[test]
fn array_and_slice_pad_differently() {
    // Same bytes, same width: the string convention pads on the right, the
    // numeric convention on the left.
    let bytes = [0x00, 0x01];
    let o = numeric_opts(Some(6), false, false);
    let from_slice = DisplayByteSlice::new(&bytes).display(&o, Case::Lower);
    let from_array = DisplayArray::<2>::new(bytes).display(&o, Case::Lower);
    assert_eq!(from_slice, "0001  ");
    assert_eq!(from_array, "  0001");
}

#[test]
fn render_exact_on_slices() {
    let v = vec![0xde, 0xad];
    let got = render_exact(&v, &numeric_opts(Some(8), true, false), Case::Upper);
    assert_eq!(got, "  0xDEAD");
    let centered = render_exact(
        &v,
        &FormatOptions {
            width: Some(7),
            fill: '-',
            align: Some(Align::Center),
            precision: None,
            alternate: false,
            zero_pad: false,
        },
        Case::Lower,
    );
    assert_eq!(centered, "-dead--");
}
