use hex_display::buf_encoder::BufEncoder;
use hex_display::Case;

#[test]
fn encoder_appends_pairs() {
    let mut enc = BufEncoder::new(4);
    enc.put_byte(0xde, Case::Lower);
    enc.put_byte(0xad, Case::Upper);
    let mut out = String::new();
    enc.flush_into(&mut out);
    assert_eq!(out, "deAD");
    assert_eq!(enc.space_remaining(), 4);
}

#[test]
fn encoder_clear_discards_contents() {
    let mut enc = BufEncoder::new(4);
    enc.put_filler('x');
    enc.put_filler('y');
    assert_eq!(enc.space_remaining(), 2);
    enc.clear();
    assert_eq!(enc.space_remaining(), 4);
    let mut out = String::from("kept");
    enc.flush_into(&mut out);
    assert_eq!(out, "kept");
}
