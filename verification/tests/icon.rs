use embedded_graphics::pixelcolor::BinaryColor;
use tinybmp::Bmp;
use wifi_hello::panel::{bit_ink, icon_drawing, Ink};

fn le32(v: u32) -> [u8; 4] {
    v.to_le_bytes()
}

/// A 2x2 one-bit BMP, rows stored bottom-up: top row black, white; bottom
/// row white, black.
fn two_by_two() -> Vec<u8> {
    let mut b = Vec::new();
    b.extend_from_slice(b"BM");
    b.extend_from_slice(&le32(70));
    b.extend_from_slice(&[0, 0, 0, 0]);
    b.extend_from_slice(&le32(62));
    b.extend_from_slice(&le32(40));
    b.extend_from_slice(&le32(2));
    b.extend_from_slice(&le32(2));
    b.extend_from_slice(&1u16.to_le_bytes());
    b.extend_from_slice(&1u16.to_le_bytes());
    b.extend_from_slice(&le32(0));
    b.extend_from_slice(&le32(8));
    b.extend_from_slice(&le32(0));
    b.extend_from_slice(&le32(0));
    b.extend_from_slice(&le32(2));
    b.extend_from_slice(&le32(0));
    b.extend_from_slice(&[0, 0, 0, 0]);
    b.extend_from_slice(&[255, 255, 255, 0]);
    b.extend_from_slice(&[0x80, 0, 0, 0]);
    b.extend_from_slice(&[0x40, 0, 0, 0]);
    b
}

#[test]
fn icon_pixels_are_moved_and_inverted() {
    let drawn = icon_drawing(&two_by_two()).expect("the bitmap parses");
    assert_eq!(
        drawn,
        vec![
            (15, 30, Ink::Black),
            (16, 30, Ink::White),
            (15, 31, Ink::White),
            (16, 31, Ink::Black),
        ]
    );
}

#[test]
fn icon_drawing_follows_the_decoded_bitmap() {
    let bytes = two_by_two();
    let bmp = Bmp::<BinaryColor>::from_slice(&bytes).unwrap();
    let expected: Vec<(i32, i32, Ink)> = bmp
        .pixels()
        .map(|p| {
            let ink = if p.1.is_on() { Ink::White } else { Ink::Black };
            (p.0.x + 15, p.0.y + 30, ink)
        })
        .collect();
    assert_eq!(icon_drawing(&bytes), Some(expected));
}

#[test]
fn icon_drawing_refuses_what_does_not_parse() {
    assert_eq!(icon_drawing(&[]), None);
    assert_eq!(icon_drawing(b"not a bitmap at all"), None);
    let mut truncated = two_by_two();
    truncated.truncate(60);
    assert_eq!(icon_drawing(&truncated), None);
}

#[test]
fn on_bits_are_black_ink() {
    assert_eq!(bit_ink(true), Ink::Black);
    assert_eq!(bit_ink(false), Ink::White);
}
