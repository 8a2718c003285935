//! Base16 colour theme: 24-bit `0xRRGGBB` codes split into their channels.
use vstd::prelude::*;
use std::sync::Arc;

verus! {

/// An opaque colour given by its red, green and blue channels, each in `0..=255`.
/// Its floating-point form divides each channel by 255 and has alpha 1.
#[derive(Clone, Copy, Debug, PartialEq, Eq, Structural)]
pub struct Rgb {
    pub r: u8,
    pub g: u8,
    pub b: u8,
}

/// The colour that the code `c` names: the low three bytes of `c`, big-endian,
/// are red, green and blue; the top byte is ignored.
pub open spec fn spec_hex(c: u32) -> Rgb {
    Rgb { r: ((c >> 16u32) & 0xffu32) as u8, g: ((c >> 8u32) & 0xffu32) as u8, b: (c & 0xffu32) as u8 }
}

/// Splits the colour code `c` (`0xRRGGBB`) into its channels.
pub fn hex(c: u32) -> (color: Rgb)
    ensures
        color == spec_hex(c),
{
    Rgb { r: ((c >> 16u32) & 0xffu32) as u8, g: ((c >> 8u32) & 0xffu32) as u8, b: (c & 0xffu32) as u8 }
}

/// Two codes name the same colour exactly when their low 24 bits agree:
/// the top byte is ignored and no two 24-bit codes share a colour.
pub proof fn lemma_hex_same_colour_iff_same_low_bits(a: u32, b: u32)
    ensures
        (spec_hex(a) == spec_hex(b)) <==> (a & 0xffffffu32 == b & 0xffffffu32),
{
    assert(((a >> 16u32) & 0xffu32) as u8 == ((b >> 16u32) & 0xffu32) as u8
        && ((a >> 8u32) & 0xffu32) as u8 == ((b >> 8u32) & 0xffu32) as u8
        && (a & 0xffu32) as u8 == (b & 0xffu32) as u8
        <==> (a & 0xffffffu32 == b & 0xffffffu32)) by (bit_vector);
}

/// The channels of `hex(c)`, read as base-256 digits, give back the low 24 bits of `c`.
pub proof fn lemma_hex_channels_rebuild_code(c: u32)
    ensures
        spec_hex(c).r as int * 65536 + spec_hex(c).g as int * 256 + spec_hex(c).b as int
            == (c % 0x1000000) as int,
{
    assert(((c >> 16u32) & 0xffu32) * 65536u32 + ((c >> 8u32) & 0xffu32) * 256u32 + (c & 0xffu32)
        == c % 0x1000000u32) by (bit_vector);
    assert(((c >> 16u32) & 0xffu32) < 256 && ((c >> 8u32) & 0xffu32) < 256 && (c & 0xffu32) < 256)
        by (bit_vector);
}

/// The sixteen colours of a base16 palette.
#[derive(Clone, Copy, Debug, PartialEq, Eq, Structural)]
pub struct Theme {
    pub base00: Rgb,
    pub base01: Rgb,
    pub base02: Rgb,
    pub base03: Rgb,
    pub base04: Rgb,
    pub base05: Rgb,
    pub base06: Rgb,
    pub base07: Rgb,
    pub base08: Rgb,
    pub base09: Rgb,
    pub base10: Rgb,
    pub base11: Rgb,
    pub base12: Rgb,
    pub base13: Rgb,
    pub base14: Rgb,
    pub base15: Rgb,
}

/// The palette used when the user has chosen none (gruvbox dark).
pub fn default_base16_theme() -> (theme: Theme)
    ensures
        theme.base00 == spec_hex(0x282828u32),
        theme.base01 == spec_hex(0x3c3836u32),
        theme.base02 == spec_hex(0x504945u32),
        theme.base03 == spec_hex(0x665c54u32),
        theme.base04 == spec_hex(0x928374u32),
        theme.base05 == spec_hex(0xebdbb2u32),
        theme.base06 == spec_hex(0xfbf1c7u32),
        theme.base07 == spec_hex(0xf9f5d7u32),
        theme.base08 == spec_hex(0xcc241du32),
        theme.base09 == spec_hex(0xd65d0eu32),
        theme.base10 == spec_hex(0xd79921u32),
        theme.base11 == spec_hex(0x98971au32),
        theme.base12 == spec_hex(0x689d6au32),
        theme.base13 == spec_hex(0x458588u32),
        theme.base14 == spec_hex(0xb16286u32),
        theme.base15 == spec_hex(0x9d0006u32),
{
    Theme {
        base00: hex(0x282828u32),
        base01: hex(0x3c3836u32),
        base02: hex(0x504945u32),
        base03: hex(0x665c54u32),
        base04: hex(0x928374u32),
        base05: hex(0xebdbb2u32),
        base06: hex(0xfbf1c7u32),
        base07: hex(0xf9f5d7u32),
        base08: hex(0xcc241du32),
        base09: hex(0xd65d0eu32),
        base10: hex(0xd79921u32),
        base11: hex(0x98971au32),
        base12: hex(0x689d6au32),
        base13: hex(0x458588u32),
        base14: hex(0xb16286u32),
        base15: hex(0x9d0006u32),
    }
}

/// The theme shared by the whole application.
pub struct GlobalTheme(pub Arc<Theme>);

impl std::ops::Deref for GlobalTheme {
    type Target = Arc<Theme>;

    fn deref(&self) -> (theme: &Arc<Theme>)
        ensures
            *theme == self.0,
    {
        &self.0
    }
}

/// Access to the theme in effect, for the application context that holds it.
pub trait ActiveTheme {
    fn theme(&self) -> &Arc<Theme>;
}

} // verus!
