//! Logical and physical colours, and the brightness compositor between them.

use vstd::prelude::*;

verus! {

/// The user-facing colour: three channels and `a`, a brightness multiplier.
#[derive(Clone, Copy, Debug, PartialEq, Eq, Structural)]
pub struct LogicalColor {
    pub r: u8,
    pub g: u8,
    pub b: u8,
    pub a: u8,
}

/// The duty-cycle targets written to the three output channels.
#[derive(Clone, Copy, Debug, PartialEq, Eq, Structural)]
pub struct PhysicalColor {
    pub r: u8,
    pub g: u8,
    pub b: u8,
}

/// `channel * alpha / 255`, rounded to the nearest integer.
///
/// The quotient is never halfway between two integers (`2 * channel * alpha`
/// is even and `255` times an odd number is odd), so the rounding mode does
/// not matter.
pub open spec fn scaled_channel(channel: u8, alpha: u8) -> int {
    (2 * channel * alpha + 255) / 510
}

/// Whether `p` lies strictly within one half of `channel * alpha / 255`.
pub open spec fn within_half(p: int, channel: u8, alpha: u8) -> bool {
    2 * channel * alpha - 255 < 510 * p < 2 * channel * alpha + 255
}

/// The physical colour that a logical colour is rendered as.
pub open spec fn composited(color: LogicalColor) -> PhysicalColor {
    PhysicalColor {
        r: scaled_channel(color.r, color.a) as u8,
        g: scaled_channel(color.g, color.a) as u8,
        b: scaled_channel(color.b, color.a) as u8,
    }
}

/// `scaled_channel` is the integer nearest to `channel * alpha / 255`: it
/// lies strictly within one half of the exact quotient, and nothing else
/// does. It never exceeds the channel it scales.
pub proof fn lemma_scaled_channel_is_nearest(channel: u8, alpha: u8)
    ensures
        0 <= scaled_channel(channel, alpha) <= channel,
        within_half(scaled_channel(channel, alpha), channel, alpha),
        forall|p: int| #[trigger]
            within_half(p, channel, alpha) ==> p == scaled_channel(channel, alpha),
{
    let n = 2 * channel * alpha;
    let q = scaled_channel(channel, alpha);
    assert(0 <= channel * alpha <= 255 * channel) by (nonlinear_arith)
        requires
            0 <= channel,
            0 <= alpha <= 255,
    ;
    assert(n == 2 * (channel * alpha)) by (nonlinear_arith)
        requires
            n == 2 * channel * alpha,
    ;
    assert(q == (n + 255) / 510);
    assert((n + 255) % 510 != 0) by {
        // 510 divides n + 255 only if n + 255 is even, and n is even.
        assert((n + 255) % 2 == 1);
        if (n + 255) % 510 == 0 {
            assert((n + 255) == 510 * ((n + 255) / 510));
        }
    }
    assert forall|p: int| #[trigger] within_half(p, channel, alpha) implies p == q by {
        if p < q {
            assert(510 * p <= 510 * q - 510);
        } else if p > q {
            assert(510 * p >= 510 * q + 510);
        }
    }
}

/// Full brightness leaves every channel as it is, and zero brightness turns
/// every channel off.
pub proof fn lemma_composite_extremes(color: LogicalColor)
    ensures
        color.a == 255 ==> composited(color) == (PhysicalColor {
            r: color.r,
            g: color.g,
            b: color.b,
        }),
        color.a == 0 ==> composited(color) == (PhysicalColor { r: 0, g: 0, b: 0 }),
{
    lemma_scaled_full_and_zero(color.r);
    lemma_scaled_full_and_zero(color.g);
    lemma_scaled_full_and_zero(color.b);
}

proof fn lemma_scaled_full_and_zero(channel: u8)
    ensures
        scaled_channel(channel, 255) == channel,
        scaled_channel(channel, 0) == 0,
{
    assert(2 * channel * 255 + 255 == 510 * channel + 255);
    assert(2 * channel * 0 + 255 == 255) by (nonlinear_arith);
}

/// Scales one channel by the brightness `alpha`.
pub fn scale_channel(channel: u8, alpha: u8) -> (res: u8)
    ensures
        res == scaled_channel(channel, alpha),
{
    proof {
        lemma_scaled_channel_is_nearest(channel, alpha);
    }
    assert(channel * alpha <= 255 * 255) by (nonlinear_arith)
        requires
            0 <= channel <= 255,
            0 <= alpha <= 255,
    ;
    assert(2 * channel * alpha == 2 * (channel * alpha)) by (nonlinear_arith);
    let product: u32 = (channel as u32) * (alpha as u32);
    let rounded: u32 = (2 * product + 255) / 510;
    rounded as u8
}

/// Brightness compositing for a colour that carries its own multiplier.
pub trait RGBABrightnessExt {
    /// Overwrites `rgb` with the colour as it is to be rendered.
    fn update_channels(&self, rgb: &mut PhysicalColor);
}

impl RGBABrightnessExt for LogicalColor {
    fn update_channels(&self, rgb: &mut PhysicalColor)
        ensures
            *final(rgb) == composited(*self),
    {
        rgb.r = scale_channel(self.r, self.a);
        rgb.g = scale_channel(self.g, self.a);
        rgb.b = scale_channel(self.b, self.a);
    }
}

impl LogicalColor {
    /// The colour at start-up: black at full brightness.
    pub open spec fn initial() -> LogicalColor {
        LogicalColor { r: 0, g: 0, b: 0, a: 255 }
    }

    /// A colour from its four fields.
    pub fn new(r: u8, g: u8, b: u8, a: u8) -> (res: LogicalColor)
        ensures
            res == (LogicalColor { r, g, b, a }),
    {
        LogicalColor { r, g, b, a }
    }

    /// The colour as it is to be rendered.
    pub fn get_updated_channels(&self) -> (res: PhysicalColor)
        ensures
            res == composited(*self),
    {
        let mut rgb = PhysicalColor { r: 0, g: 0, b: 0 };
        self.update_channels(&mut rgb);
        rgb
    }
}

impl Default for LogicalColor {
    fn default() -> (res: LogicalColor)
        ensures
            res == LogicalColor::initial(),
    {
        LogicalColor { r: 0, g: 0, b: 0, a: 255 }
    }
}

impl Default for PhysicalColor {
    fn default() -> (res: PhysicalColor)
        ensures
            res == (PhysicalColor { r: 0, g: 0, b: 0 }),
    {
        PhysicalColor { r: 0, g: 0, b: 0 }
    }
}

} // verus!
