//! Packing four 8-bit channels into the 32-bit word the fill command writes,
//! and drawing a random opaque color for it.

use crate::fill::is_filled_with;
use crate::fill::le_bytes_of;
use crate::fill::pixel_at;
use rand::Rng;
use vstd::prelude::*;

verus! {

/// The packed word as an integer: red in the low byte, then green, blue,
/// and alpha in the high byte.
pub open spec fn packed_rgba(red: u32, green: u32, blue: u32, alpha: u32) -> int {
    red + 0x100 * green + 0x10000 * blue + 0x1000000 * alpha
}

/// Pack four channel values, each below 256, into one 32-bit word,
/// red in the least significant byte and alpha in the most significant.
pub fn pack_rgba(red: u32, green: u32, blue: u32, alpha: u32) -> (value: u32)
    requires
        red < 256,
        green < 256,
        blue < 256,
        alpha < 256,
    ensures
        value == packed_rgba(red, green, blue, alpha),
{
    proof {
        assert(red < 256 && green < 256 && blue < 256 && alpha < 256 ==> (red | green << 8u32
            | blue << 16u32 | alpha << 24u32) == red + 0x100 * green + 0x10000 * blue + 0x1000000
            * alpha) by (bit_vector);
    }
    red | green << 8u32 | blue << 16u32 | alpha << 24u32
}

/// The packed word, written to memory on a little-endian host, puts the
/// channels back in order: red first, alpha last.
pub proof fn lemma_packed_bytes(red: u32, green: u32, blue: u32, alpha: u32, value: u32)
    requires
        red < 256,
        green < 256,
        blue < 256,
        alpha < 256,
        value == packed_rgba(red, green, blue, alpha),
    ensures
        le_bytes_of(value) == seq![red as u8, green as u8, blue as u8, alpha as u8],
{
    assert((value % 0x100) as u8 == red as u8 && ((value / 0x100) % 0x100) as u8 == green as u8
        && ((value / 0x10000) % 0x100) as u8 == blue as u8 && ((value / 0x1000000) % 0x100) as u8
        == alpha as u8) by (bit_vector)
        requires
            red < 256,
            green < 256,
            blue < 256,
            alpha < 256,
            value == red + 0x100 * green + 0x10000 * blue + 0x1000000 * alpha,
    ;
    assert(le_bytes_of(value) =~= seq![red as u8, green as u8, blue as u8, alpha as u8]);
}

/// A buffer filled with the word packed from four channels shows, in every
/// one of its pixels, exactly those channel bytes in order: red, green,
/// blue, alpha.
pub proof fn lemma_filled_pixels_show_channels(
    data: Seq<u8>,
    count: int,
    red: u32,
    green: u32,
    blue: u32,
    alpha: u32,
    value: u32,
)
    requires
        red < 256,
        green < 256,
        blue < 256,
        alpha < 256,
        value == packed_rgba(red, green, blue, alpha),
        is_filled_with(data, count, value),
    ensures
        forall|i: int|
            0 <= i < count ==> #[trigger] pixel_at(data, i) == seq![
                red as u8,
                green as u8,
                blue as u8,
                alpha as u8,
            ],
{
    lemma_packed_bytes(red, green, blue, alpha, value);
}

/// Relies on rand's `thread_rng` and `Rng::gen_range` on the range
/// `0..bound`: a draw from a non-empty half-open range lies below its upper
/// end. Nothing more is promised of a random value.
#[verifier::external_body]
fn random_below(bound: u32) -> (r: u32)
    requires
        bound >= 1,
    ensures
        r < bound,
{
    rand::thread_rng().gen_range(0..bound)
}

/// A random fill color: red, green and blue each drawn below 255, and the
/// alpha channel fixed at 255, so the color is always fully opaque.
pub fn random_fill_color() -> (value: u32)
    ensures
        le_bytes_of(value)[3] == 255,
        exists|red: u32, green: u32, blue: u32|
            red < 255 && green < 255 && blue < 255 && value == packed_rgba(red, green, blue, 255),
{
    let red = random_below(255);
    let green = random_below(255);
    let blue = random_below(255);
    let value = pack_rgba(red, green, blue, 255);
    proof {
        lemma_packed_bytes(red, green, blue, 255, value);
        assert(red < 255 && green < 255 && blue < 255 && value == packed_rgba(
            red,
            green,
            blue,
            255,
        ));
    }
    value
}

} // verus!
