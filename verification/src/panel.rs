//! Layout of the 2.13" e-paper panel, turned by 90 degrees: the date
//! across the top above a rule, the weather icon on the left, a vertical
//! rule, and the temperature on the right.

use embedded_graphics::pixelcolor::BinaryColor;
use tinybmp::Bmp;
use vstd::prelude::*;

verus! {

/// Top-left corner of the date label.
pub const DATE_ORIGIN: (i32, i32) = (60, 0);

/// End points of the rule under the date.
pub const DATE_RULE: ((i32, i32), (i32, i32)) = ((0, 22), (260, 22));

/// Top-left corner of the temperature text.
pub const TEMPERATURE_ORIGIN: (i32, i32) = (97, 45);

/// Where the top-left pixel of the weather icon goes.
pub const ICON_OFFSET: (i32, i32) = (15, 30);

/// End points of the rule right of the icon.
pub const ICON_RULE: ((i32, i32), (i32, i32)) = ((80, 30), (80, 70));

/// Stroke width of both rules.
pub const RULE_WIDTH: u32 = 5;

/// The two inks of the panel.
#[derive(PartialEq, Eq, Structural, Clone, Copy, Debug)]
pub enum Ink {
    Black,
    White,
}

/// The other ink.
pub open spec fn ink_inverse(ink: Ink) -> Ink {
    match ink {
        Ink::Black => Ink::White,
        Ink::White => Ink::Black,
    }
}

/// The icon bitmaps are drawn with their inks swapped.
pub fn inverted(ink: Ink) -> (r: Ink)
    ensures
        r == ink_inverse(ink),
{
    match ink {
        Ink::Black => Ink::White,
        Ink::White => Ink::Black,
    }
}

/// Where and in which ink the icon pixel at `(x, y)` of ink `ink` is
/// drawn: moved by `ICON_OFFSET`, inks swapped.
pub fn icon_pixel(x: i32, y: i32, ink: Ink) -> (r: (i32, i32, Ink))
    requires
        x + ICON_OFFSET.0 <= i32::MAX,
        y + ICON_OFFSET.1 <= i32::MAX,
    ensures
        r.0 == x + ICON_OFFSET.0,
        r.1 == y + ICON_OFFSET.1,
        r.2 == ink_inverse(ink),
{
    (x + ICON_OFFSET.0, y + ICON_OFFSET.1, inverted(ink))
}

/// The pixels of a BMP file read as a one-bit image, in the order
/// `tinybmp` yields them: `(x, y, on)`. There are none when the file does
/// not parse.
pub uninterp spec fn bmp_pixels_of(bytes: Seq<u8>) -> Option<Seq<(i32, i32, bool)>>;

/// `tinybmp::Bmp::<BinaryColor>::from_slice` and then `Bmp::pixels`, each
/// pixel given by its position and `BinaryColor::is_on`. The contract only
/// names the result: it is `None` exactly when the file does not parse,
/// and otherwise the pixel list, which depends on the bytes alone. It does
/// not say how the BMP format is decoded.
#[verifier::external_body]
fn decode_icon(bytes: &[u8]) -> (r: Option<Vec<(i32, i32, bool)>>)
    ensures
        r is Some <==> bmp_pixels_of(bytes@) is Some,
        r is Some ==> r->0@ == bmp_pixels_of(bytes@)->0,
{
    match Bmp::<BinaryColor>::from_slice(bytes) {
        Ok(bmp) => Some(bmp.pixels().map(|p| (p.0.x, p.0.y, p.1.is_on())).collect()),
        Err(_) => None,
    }
}

/// The panel ink of a one-bit pixel: "on" is black (`epd_waveshare`'s
/// `From<BinaryColor> for Color`).
pub open spec fn ink_of_bit(on: bool) -> Ink {
    if on { Ink::Black } else { Ink::White }
}

/// The ink of a one-bit pixel.
pub fn bit_ink(on: bool) -> (r: Ink)
    ensures
        r == ink_of_bit(on),
{
    if on { Ink::Black } else { Ink::White }
}

/// An icon pixel can be moved by `ICON_OFFSET` without overflow.
pub open spec fn fits_offset(p: (i32, i32, bool)) -> bool {
    p.0 + ICON_OFFSET.0 <= i32::MAX && p.1 + ICON_OFFSET.1 <= i32::MAX
}

/// Where and in which ink an icon pixel is drawn.
pub open spec fn placed_pixel(p: (i32, i32, bool)) -> (i32, i32, Ink) {
    ((p.0 + ICON_OFFSET.0) as i32, (p.1 + ICON_OFFSET.1) as i32, ink_inverse(ink_of_bit(p.2)))
}

/// The pixels drawn for a BMP icon: every pixel of the file, moved by
/// `ICON_OFFSET` and with its ink swapped, in the order of the file.
/// There are none when the file does not parse or a pixel would leave the
/// coordinate range.
pub fn icon_drawing(bytes: &[u8]) -> (r: Option<Vec<(i32, i32, Ink)>>)
    ensures
        r is Some <==> (bmp_pixels_of(bytes@) is Some && forall|i: int|
            0 <= i < bmp_pixels_of(bytes@)->0.len() ==> fits_offset(
                #[trigger] bmp_pixels_of(bytes@)->0[i],
            )),
        r is Some ==> r->0@ == bmp_pixels_of(bytes@)->0.map_values(|p: (i32, i32, bool)| placed_pixel(p)),
{
    let pixels = match decode_icon(bytes) {
        Some(pixels) => pixels,
        None => return None,
    };
    let ghost px = bmp_pixels_of(bytes@)->0;
    let mut drawn: Vec<(i32, i32, Ink)> = Vec::new();
    let mut i: usize = 0;
    while i < pixels.len()
        invariant
            px == bmp_pixels_of(bytes@)->0,
            pixels@ == px,
            i <= pixels.len(),
            forall|j: int| 0 <= j < i ==> fits_offset(#[trigger] px[j]),
            drawn@ == px.take(i as int).map_values(|p: (i32, i32, bool)| placed_pixel(p)),
        decreases pixels.len() - i,
    {
        let (x, y, on) = pixels[i];
        if x > i32::MAX - ICON_OFFSET.0 || y > i32::MAX - ICON_OFFSET.1 {
            assert(!fits_offset(bmp_pixels_of(bytes@)->0[i as int]));
            return None;
        }
        let placed = icon_pixel(x, y, bit_ink(on));
        drawn.push(placed);
        proof {
            assert(px.take(i + 1) =~= px.take(i as int).push(px[i as int]));
            assert(placed == placed_pixel(px[i as int]));
        }
        i = i + 1;
        assert(drawn@ =~= px.take(i as int).map_values(|p: (i32, i32, bool)| placed_pixel(p)));
    }
    assert(px.take(i as int) =~= px);
    Some(drawn)
}

/// An icon pixel is drawn `ICON_OFFSET` further right and down, in white
/// where its bit is on and in black where it is off, so that the icon
/// shows inverted on the panel.
pub proof fn lemma_icon_pixel_placement(p: (i32, i32, bool))
    requires
        fits_offset(p),
    ensures
        placed_pixel(p).0 == p.0 + 15,
        placed_pixel(p).1 == p.1 + 30,
        placed_pixel(p).2 == (if p.2 { Ink::White } else { Ink::Black }),
        ink_of_bit(true) == Ink::Black,
        ink_of_bit(false) == Ink::White,
{
}

/// Swapping the inks twice gives the ink back, and never leaves an ink
/// unchanged.
pub proof fn lemma_inverse_involution(ink: Ink)
    ensures
        ink_inverse(ink_inverse(ink)) == ink,
        ink_inverse(ink) != ink,
{
}

} // verus!
