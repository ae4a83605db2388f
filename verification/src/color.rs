//! Colour representation: a 4-channel 8-bit tuple (R, G, B, A) packed into a
//! 32-bit value at the boundary, and integer alpha blending.

use vstd::prelude::*;

verus! {

/// The packed 32-bit form of an (r, g, b, a) colour: `0xRRGGBBAA`.
pub open spec fn hex_of_rgba(red: u8, green: u8, blue: u8, alpha: u8) -> u32 {
    ((red as u32) << 24) | ((green as u32) << 16) | ((blue as u32) << 8) | (alpha as u32)
}

/// The channels of a packed 32-bit colour, most significant byte first.
pub open spec fn rgba_of_hex(value: u32) -> (u8, u8, u8, u8) {
    (
        (value >> 24) as u8,
        ((value >> 16) & 0xFF) as u8,
        ((value >> 8) & 0xFF) as u8,
        (value & 0xFF) as u8,
    )
}

/// Packs the four colour channels into a 32-bit value, `0xRRGGBBAA`.
pub fn rgba_to_hex(red: u8, green: u8, blue: u8, alpha: u8) -> (r: u32)
    ensures
        r == hex_of_rgba(red, green, blue, alpha),
{
    ((red as u32) << 24) | ((green as u32) << 16) | ((blue as u32) << 8) | (alpha as u32)
}

/// Unpacks a 32-bit colour value into its four channels.
pub fn hex_to_rgba(int_value: u32) -> (r: (u8, u8, u8, u8))
    ensures
        r == rgba_of_hex(int_value),
{
    let red = (int_value >> 24) as u8;
    let green = ((int_value >> 16) & 0xFF) as u8;
    let blue = ((int_value >> 8) & 0xFF) as u8;
    let alpha = (int_value & 0xFF) as u8;
    (red, green, blue, alpha)
}

/// Packing then unpacking a colour returns every channel unchanged.
pub proof fn lemma_hex_round_trip(red: u8, green: u8, blue: u8, alpha: u8)
    ensures
        rgba_of_hex(hex_of_rgba(red, green, blue, alpha)) == (red, green, blue, alpha),
{
    let v = hex_of_rgba(red, green, blue, alpha);
    assert((((((red as u32) << 24) | ((green as u32) << 16) | ((blue as u32) << 8) | (alpha
        as u32)) >> 24) as u8) == red) by (bit_vector);
    assert(((((((red as u32) << 24) | ((green as u32) << 16) | ((blue as u32) << 8) | (alpha
        as u32)) >> 16) & 0xFF) as u8) == green) by (bit_vector);
    assert(((((((red as u32) << 24) | ((green as u32) << 16) | ((blue as u32) << 8) | (alpha
        as u32)) >> 8) & 0xFF) as u8) == blue) by (bit_vector);
    assert((((((red as u32) << 24) | ((green as u32) << 16) | ((blue as u32) << 8) | (alpha
        as u32)) & 0xFF) as u8) == alpha) by (bit_vector);
}

/// One channel of the source-over blend: the new channel weighted by
/// `alpha / 255`, the existing channel by the remainder, with the scaled
/// result truncated downward to an integer.
pub open spec fn blend_channel(new: u8, existing: u8, alpha: u8) -> u8 {
    (((new as int) * (alpha as int) + (existing as int) * (255 - alpha as int)) / 255) as u8
}

/// Source-over blend of a new colour onto an existing one; every channel,
/// the alpha channel included, is blended by the new colour's alpha.
pub open spec fn blend_rgba(new_rgba: (u8, u8, u8, u8), existing_rgba: (u8, u8, u8, u8)) -> (
    u8,
    u8,
    u8,
    u8,
) {
    (
        blend_channel(new_rgba.0, existing_rgba.0, new_rgba.3),
        blend_channel(new_rgba.1, existing_rgba.1, new_rgba.3),
        blend_channel(new_rgba.2, existing_rgba.2, new_rgba.3),
        blend_channel(new_rgba.3, existing_rgba.3, new_rgba.3),
    )
}

/// The weighted sum of two channels never exceeds the channel maximum.
proof fn lemma_blend_channel_bound(new: int, existing: int, alpha: int)
    requires
        0 <= new <= 255,
        0 <= existing <= 255,
        0 <= alpha <= 255,
    ensures
        0 <= new * alpha + existing * (255 - alpha) <= 255 * 255,
        0 <= (new * alpha + existing * (255 - alpha)) / 255 <= 255,
{
    assert(0 <= new * alpha + existing * (255 - alpha) <= 255 * 255) by (nonlinear_arith)
        requires
            0 <= new <= 255,
            0 <= existing <= 255,
            0 <= alpha <= 255,
    ;
}

fn blend_channel_exec(new: u8, existing: u8, alpha: u8) -> (r: u8)
    ensures
        r == blend_channel(new, existing, alpha),
{
    proof {
        lemma_blend_channel_bound(new as int, existing as int, alpha as int);
    }
    (((new as u32) * (alpha as u32) + (existing as u32) * (255 - alpha as u32)) / 255) as u8
}

/// Blends a new colour over an existing one, channel by channel, weighting
/// by the new colour's alpha as a fraction of 255 and truncating downward.
pub fn blend_colour(new_rgba: (u8, u8, u8, u8), existing_rgba: (u8, u8, u8, u8)) -> (r: (
    u8,
    u8,
    u8,
    u8,
))
    ensures
        r == blend_rgba(new_rgba, existing_rgba),
{
    let alpha = new_rgba.3;
    (
        blend_channel_exec(new_rgba.0, existing_rgba.0, alpha),
        blend_channel_exec(new_rgba.1, existing_rgba.1, alpha),
        blend_channel_exec(new_rgba.2, existing_rgba.2, alpha),
        blend_channel_exec(new_rgba.3, existing_rgba.3, alpha),
    )
}

/// At full opacity a blend returns the new colour unchanged.
pub proof fn lemma_blend_full_opacity(new_rgba: (u8, u8, u8, u8), existing_rgba: (u8, u8, u8, u8))
    requires
        new_rgba.3 == 255,
    ensures
        blend_rgba(new_rgba, existing_rgba) == new_rgba,
{
    lemma_blend_at_255(new_rgba.0 as int, existing_rgba.0 as int);
    lemma_blend_at_255(new_rgba.1 as int, existing_rgba.1 as int);
    lemma_blend_at_255(new_rgba.2 as int, existing_rgba.2 as int);
    lemma_blend_at_255(new_rgba.3 as int, existing_rgba.3 as int);
}

proof fn lemma_blend_at_255(new: int, existing: int)
    requires
        0 <= new <= 255,
        0 <= existing <= 255,
    ensures
        (new * 255 + existing * (255 - 255)) / 255 == new,
{
    assert((new * 255 + existing * 0) / 255 == new) by (nonlinear_arith)
        requires
            0 <= new <= 255,
    ;
}

/// At zero opacity a blend returns the existing colour unchanged.
pub proof fn lemma_blend_zero_opacity(new_rgba: (u8, u8, u8, u8), existing_rgba: (u8, u8, u8, u8))
    requires
        new_rgba.3 == 0,
    ensures
        blend_rgba(new_rgba, existing_rgba) == existing_rgba,
{
    lemma_blend_at_0(new_rgba.0 as int, existing_rgba.0 as int);
    lemma_blend_at_0(new_rgba.1 as int, existing_rgba.1 as int);
    lemma_blend_at_0(new_rgba.2 as int, existing_rgba.2 as int);
    lemma_blend_at_0(new_rgba.3 as int, existing_rgba.3 as int);
}

proof fn lemma_blend_at_0(new: int, existing: int)
    requires
        0 <= new <= 255,
        0 <= existing <= 255,
    ensures
        (new * 0 + existing * (255 - 0)) / 255 == existing,
{
    assert((existing * 255) / 255 == existing) by (nonlinear_arith)
        requires
            0 <= existing <= 255,
    ;
}

} // verus!
