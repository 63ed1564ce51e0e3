use vstd::prelude::*;

verus! {

/// The sixteen text-mode colours.
#[derive(Clone, Copy, Debug, PartialEq, Eq, Structural)]
pub enum VGAColor {
    Black,
    Blue,
    Green,
    Cyan,
    Red,
    Magenta,
    Brown,
    LightGrey,
    DarkGrey,
    LightBlue,
    LightGreen,
    LightCyan,
    LightRed,
    LightMagenta,
    LightBrown,
    White,
}

pub open spec fn color_code(c: VGAColor) -> u8 {
    match c {
        VGAColor::Black => 0,
        VGAColor::Blue => 1,
        VGAColor::Green => 2,
        VGAColor::Cyan => 3,
        VGAColor::Red => 4,
        VGAColor::Magenta => 5,
        VGAColor::Brown => 6,
        VGAColor::LightGrey => 7,
        VGAColor::DarkGrey => 8,
        VGAColor::LightBlue => 9,
        VGAColor::LightGreen => 10,
        VGAColor::LightCyan => 11,
        VGAColor::LightRed => 12,
        VGAColor::LightMagenta => 13,
        VGAColor::LightBrown => 14,
        VGAColor::White => 15,
    }
}

impl VGAColor {
    /// The colour's 4-bit hardware code.
    pub fn code(self) -> (r: u8)
        ensures
            r == color_code(self),
            r < 16,
    {
        match self {
            VGAColor::Black => 0,
            VGAColor::Blue => 1,
            VGAColor::Green => 2,
            VGAColor::Cyan => 3,
            VGAColor::Red => 4,
            VGAColor::Magenta => 5,
            VGAColor::Brown => 6,
            VGAColor::LightGrey => 7,
            VGAColor::DarkGrey => 8,
            VGAColor::LightBlue => 9,
            VGAColor::LightGreen => 10,
            VGAColor::LightCyan => 11,
            VGAColor::LightRed => 12,
            VGAColor::LightMagenta => 13,
            VGAColor::LightBrown => 14,
            VGAColor::White => 15,
        }
    }
}

/// The attribute byte for foreground `fg` on background `bg`.
pub fn vga_entry_color(fg: VGAColor, bg: VGAColor) -> (r: u8)
    ensures
        r == color_code(fg) + 16 * color_code(bg),
{
    let f = fg.code();
    let b = bg.code();
    assert(f | (b << 4u8) == f + 16 * b) by (bit_vector)
        requires
            f < 16,
            b < 16,
    ;
    f | (b << 4u8)
}

/// One character cell: an ASCII byte and its attribute byte.
#[derive(Clone, Copy, Debug, PartialEq, Eq, Structural)]
pub struct VGAChar {
    pub ascii: u8,
    pub color: u8,
}

impl VGAChar {
    pub fn new(ascii: u8, color: u8) -> (r: VGAChar)
        ensures
            r.ascii == ascii,
            r.color == color,
    {
        VGAChar { ascii, color }
    }
}

/// The 16-bit cell value: the character in the low byte, the attribute in the
/// high byte.
pub fn vga_entry(ascii: u8, color: u8) -> (r: u16)
    ensures
        r == ascii + 256 * color,
{
    let a = ascii as u16;
    let c = color as u16;
    assert(a | (c << 8u16) == a + 256 * c) by (bit_vector)
        requires
            a < 256,
            c < 256,
    ;
    a | (c << 8u16)
}

} // verus!
