use vstd::prelude::*;

verus! {

/// Side length, in pixels, of a rendered sky image.
pub const SIZE: usize = 100;

/// A sky, rendered as an image of colors.
pub struct Sky {}

/// `v` brought into `[0, 255]`.
pub open spec fn clamp_byte(v: int) -> u8 {
    if v < 0 {
        0
    } else if v > 255 {
        255
    } else {
        v as u8
    }
}

fn to_byte(v: i32) -> (r: u8)
    ensures
        r == clamp_byte(v as int),
{
    if v < 0 {
        0
    } else if v > 255 {
        255
    } else {
        v as u8
    }
}

impl Sky {
    /// A sky.
    pub fn new() -> Sky {
        Sky {}
    }

    /// The RGBA bytes of a sky pixel from its red and green intensities
    /// and its brightness: brightness above 255 washes every channel
    /// towards white, blue is what red leaves, and each channel is
    /// clamped to a byte.
    pub fn color_bytes(r: i32, g: i32, brightness: i32) -> (c: [u8; 4])
        requires
            i32::MIN + 255 <= brightness,
            i32::MIN <= r + (if brightness > 255 { brightness - 255 } else { 0 }) <= i32::MAX,
            i32::MIN <= g + (if brightness > 255 { brightness - 255 } else { 0 }) <= i32::MAX,
            i32::MIN <= 255 - r + (if brightness > 255 { brightness - 255 } else { 0 }) <= i32::MAX,
        ensures
            ({
                let add = if brightness > 255 { brightness - 255 } else { 0 };
                c@ == seq![
                    clamp_byte(r + add),
                    clamp_byte(g + add),
                    clamp_byte(255 - r + add),
                    clamp_byte(brightness as int),
                ]
            }),
    {
        let over = brightness - 255;
        let add = if over > 0 { over } else { 0 };
        let c = [to_byte(r + add), to_byte(g + add), to_byte(255 - r + add), to_byte(brightness)];
        assert(c@ =~= seq![
            clamp_byte(r + add),
            clamp_byte(g + add),
            clamp_byte(255 - r + add),
            clamp_byte(brightness as int),
        ]);
        c
    }
}

} // verus!
