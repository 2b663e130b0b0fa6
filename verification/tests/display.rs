use hex_display::display::Align;
use hex_display::display::DisplayArray;
use hex_display::display::DisplayByteSlice;
use hex_display::display::FormatOptions;
use hex_display::Case;

fn opts(
    width: Option<usize>,
    fill: char,
    align: Option<Align>,
    precision: Option<usize>,
) -> FormatOptions {
    FormatOptions { width, fill, align, precision, alternate: false, zero_pad: false }
}

fn check_encoding(bytes: &[u8]) {
    let s1 = hex_display::display::to_lower_hex_string(bytes);
    let mut s2 = String::with_capacity(bytes.len() * 2);
    for b in bytes {
        s2.push_str(&format!("{:02x}", b));
    }
    assert_eq!(s1, s2);
}

#[test]
fn empty() {
    check_encoding(b"");
}

#[test]
fn single() {
    check_encoding(b"*");
}

#[test]
fn two() {
    check_encoding(b"*x");
}

#[test]
fn just_below_boundary() {
    check_encoding(&[42; 512]);
}

#[test]
fn just_above_boundary() {
    check_encoding(&[42; 513]);
}

#[test]
fn just_above_double_boundary() {
    check_encoding(&[42; 1025]);
}

#[test]
fn one_below_boundary() {
    check_encoding(&[42; 511]);
}

#[test]
fn fmt_exact_macro() {
    let arr = DisplayArray::<32>::new([42; 32]);
    let s = arr.display(&FormatOptions::plain(), Case::Lower);
    assert_eq!(s, "2a".repeat(32));
}

#[test]
fn display_short_with_padding() {
    let v = vec![0xbe, 0xef];
    let d = DisplayByteSlice::new(&v);
    let left = d.display(&opts(Some(8), ' ', Some(Align::Left), None), Case::Lower);
    assert_eq!(format!("Hello {}!", left), "Hello beef    !");
    let dash = d.display(&opts(Some(8), '-', Some(Align::Left), None), Case::Lower);
    assert_eq!(format!("Hello {}!", dash), "Hello beef----!");
    let center = d.display(&opts(Some(8), ' ', Some(Align::Center), None), Case::Lower);
    assert_eq!(format!("Hello {}!", center), "Hello   beef  !");
    let right = d.display(&opts(Some(8), ' ', Some(Align::Right), None), Case::Lower);
    assert_eq!(format!("Hello {}!", right), "Hello     beef!");
}

#[test]
fn display_long() {
    let v = vec![0xab; 512];
    let mut want = "0".repeat(2000 - 1024);
    want.extend(core::iter::repeat("ab").take(512));
    let got =
        DisplayByteSlice::new(&v).display(&opts(Some(2000), '0', Some(Align::Right), None), Case::Lower);
    assert_eq!(got, want);
}

#[test]
fn precision_truncates() {
    // Precision gets the most significant bytes.
    let v = vec![0x12, 0x34, 0x56, 0x78];
    // Remember the integer is number of hex chars not number of bytes.
    let got = DisplayByteSlice::new(&v).display(&opts(None, ' ', None, Some(4)), Case::Lower);
    assert_eq!(got, "1234");
}

#[test]
fn precision_with_padding_truncates() {
    // Precision gets the most significant bytes.
    let v = vec![0x12, 0x34, 0x56, 0x78];
    let got = DisplayByteSlice::new(&v).display(&opts(Some(10), ' ', None, Some(4)), Case::Lower);
    assert_eq!(got, "1234      ");
}

#[test]
fn precision_with_padding_pads_right() {
    let v = vec![0x12, 0x34, 0x56, 0x78];
    let got = DisplayByteSlice::new(&v).display(&opts(Some(10), ' ', None, Some(20)), Case::Lower);
    assert_eq!(got, "12345678  ");
}

#[test]
fn precision_with_padding_pads_left() {
    let v = vec![0x12, 0x34, 0x56, 0x78];
    let got = DisplayByteSlice::new(&v)
        .display(&opts(Some(10), ' ', Some(Align::Right), Some(20)), Case::Lower);
    assert_eq!(got, "  12345678");
}

#[test]
fn precision_with_padding_pads_center() {
    let v = vec![0x12, 0x34, 0x56, 0x78];
    let got = DisplayByteSlice::new(&v)
        .display(&opts(Some(10), ' ', Some(Align::Center), Some(20)), Case::Lower);
    assert_eq!(got, " 12345678 ");
}

#[test]
fn precision_with_padding_pads_center_odd() {
    let v = vec![0x12, 0x34, 0x56, 0x78];
    let got = DisplayByteSlice::new(&v)
        .display(&opts(Some(11), ' ', Some(Align::Center), Some(20)), Case::Lower);
    assert_eq!(got, " 12345678  ");
}

#[test]
fn precision_does_not_extend() {
    let v = vec![0x12, 0x34, 0x56, 0x78];
    let got = DisplayByteSlice::new(&v).display(&opts(None, ' ', None, Some(16)), Case::Lower);
    assert_eq!(got, "12345678");
}

#[test]
fn padding_extends() {
    let v = vec![0xab; 2];
    let got =
        DisplayByteSlice::new(&v).display(&opts(Some(8), '0', Some(Align::Right), None), Case::Lower);
    assert_eq!(got, "0000abab");
}

#[test]
fn padding_does_not_truncate() {
    let v = vec![0x12, 0x34, 0x56, 0x78];
    let got =
        DisplayByteSlice::new(&v).display(&opts(Some(4), '0', Some(Align::Right), None), Case::Lower);
    assert_eq!(got, "12345678");
}

#[test]
fn odd_precision_emits_high_nibble() {
    let v = vec![0x12, 0x34];
    let got = DisplayByteSlice::new(&v).display(&opts(None, ' ', None, Some(3)), Case::Lower);
    assert_eq!(got, "123");
}

#[test]
fn upper_case_display() {
    let v = vec![0xde, 0xad, 0xbe, 0xef];
    let got = DisplayByteSlice::new(&v).display(&FormatOptions::plain(), Case::Upper);
    assert_eq!(got, "DEADBEEF");
}

#[test]
fn non_ascii_fill() {
    let v = vec![0xff];
    let got = DisplayByteSlice::new(&v).display(&opts(Some(6), 'é', Some(Align::Left), None), Case::Lower);
    assert_eq!(got, "fféééé");
}

#[test]
fn case_changes_letters_only() {
    let v = vec![0xde, 0xa5, 0x01];
    let lower = DisplayByteSlice::new(&v).display(&FormatOptions::plain(), Case::Lower);
    let upper = DisplayByteSlice::new(&v).display(&FormatOptions::plain(), Case::Upper);
    assert_eq!(lower.len(), upper.len());
    for (l, u) in lower.chars().zip(upper.chars()) {
        assert_eq!(l, u.to_ascii_lowercase());
        assert_eq!(l == u, l.is_ascii_digit());
    }
}

#[test]
fn byte_to_hex_table() {
    assert_eq!(hex_display::byte_to_hex(0xab, Case::Lower), ('a', 'b'));
    assert_eq!(hex_display::byte_to_hex(0xab, Case::Upper), ('A', 'B'));
    assert_eq!(hex_display::byte_to_hex(0x09, Case::Lower), ('0', '9'));
    assert_eq!(hex_display::byte_to_hex(0xf0, Case::Upper), ('F', '0'));
}
