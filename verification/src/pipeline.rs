//! The push constants that accompany each draw command, and the flags that
//! tell the shader how to transform a command's vertices.
//!
//! The shader's scale and rotation are `f32` values; they travel here as
//! their IEEE-754 bit patterns, and two of them are compared as floats are.
use vstd::prelude::*;

use crate::geometry::Point;

verus! {

/// The vertices are in device-independent pixels.
pub const FLAG_DIPS: u32 = 1;

/// The vertices are scaled.
pub const FLAG_SCALE: u32 = 2;

/// The vertices are rotated.
pub const FLAG_ROTATE: u32 = 4;

/// The vertices are translated.
pub const FLAG_TRANSLATE: u32 = 8;

/// The vertices sample a texture.
pub const FLAG_TEXTURED: u32 = 16;

/// The texture is an alpha mask that the vertex color tints.
pub const FLAG_MASKED: u32 = 32;

/// The bit pattern of the `f32` value 1.0, the scale of an unscaled draw.
pub const ONE_F32_BITS: u32 = 0x3F80_0000;

/// The unit in which the vertices of a draw are given.
#[derive(Clone, Copy, Debug, PartialEq, Eq, Structural)]
pub enum Unit {
    /// Pixels.
    Px,
    /// Device-independent pixels, which the shader scales to pixels.
    Lp,
    /// Unsigned pixels.
    UPx,
}

impl Unit {
    pub open spec fn spec_flags(&self) -> u32 {
        match *self {
            Unit::Lp => FLAG_DIPS,
            _ => 0,
        }
    }

    /// The flags the shader needs for vertices in this unit.
    #[verifier::when_used_as_spec(spec_flags)]
    pub fn flags(&self) -> (flags: u32)
        ensures
            flags == self.spec_flags(),
    {
        match *self {
            Unit::Lp => FLAG_DIPS,
            _ => 0,
        }
    }
}

/// The values the shader receives with each draw command.
#[derive(Clone, Copy, Debug)]
pub struct PushConstants {
    pub flags: u32,
    /// The bit pattern of the `f32` scale factor.
    pub scale_bits: u32,
    /// The bit pattern of the `f32` rotation, in radians.
    pub rotation_bits: u32,
    pub translation: Point,
}

/// The `f32` whose bit pattern is `bits` is not a number.
pub open spec fn f32_is_nan(bits: u32) -> bool {
    (bits & 0x7F80_0000) == 0x7F80_0000 && (bits & 0x007F_FFFF) != 0
}

/// The `f32` values with bit patterns `a` and `b` compare equal: neither is
/// NaN, and they are the same value or both are zeros of either sign.
pub open spec fn f32_equal(a: u32, b: u32) -> bool {
    !f32_is_nan(a) && !f32_is_nan(b) && (a == b || ((a | b) & 0x7FFF_FFFF) == 0)
}

/// Whether the `f32` values with bit patterns `a` and `b` compare equal.
pub fn f32_bits_equal(a: u32, b: u32) -> (equal: bool)
    ensures
        equal == f32_equal(a, b),
{
    let a_nan = (a & 0x7F80_0000) == 0x7F80_0000 && (a & 0x007F_FFFF) != 0;
    let b_nan = (b & 0x7F80_0000) == 0x7F80_0000 && (b & 0x007F_FFFF) != 0;
    !a_nan && !b_nan && (a == b || ((a | b) & 0x7FFF_FFFF) == 0)
}

/// Two sets of push constants are equal field by field, the scale and the
/// rotation compared as floats.
pub open spec fn same_constants(a: PushConstants, b: PushConstants) -> bool {
    &&& a.flags == b.flags
    &&& f32_equal(a.scale_bits, b.scale_bits)
    &&& f32_equal(a.rotation_bits, b.rotation_bits)
    &&& a.translation == b.translation
}

/// `flag` when `on`, else no flag.
pub open spec fn flag_if(on: bool, flag: u32) -> u32 {
    if on {
        flag
    } else {
        0
    }
}

/// The push constants of a draw: the unit's flags, plus a flag for each
/// transformation and texture property that applies; an absent scale is
/// 1.0 and an absent rotation is 0.0.
pub open spec fn draw_constants(
    unit_flags: u32,
    textured: bool,
    masked: bool,
    scale: Option<u32>,
    rotation: Option<u32>,
    translation: Point,
) -> PushConstants {
    PushConstants {
        flags: unit_flags | flag_if(textured, FLAG_TEXTURED) | flag_if(masked, FLAG_MASKED)
            | flag_if(scale is Some, FLAG_SCALE) | flag_if(rotation is Some, FLAG_ROTATE)
            | flag_if(!translation.is_zero(), FLAG_TRANSLATE),
        scale_bits: match scale {
            Some(s) => s,
            None => ONE_F32_BITS,
        },
        rotation_bits: match rotation {
            Some(r) => r,
            None => 0,
        },
        translation,
    }
}

impl PushConstants {
    /// The push constants of a draw; see [`draw_constants`].
    pub fn for_draw(
        unit_flags: u32,
        textured: bool,
        masked: bool,
        scale: Option<u32>,
        rotation: Option<u32>,
        translation: Point,
    ) -> (constants: PushConstants)
        ensures
            constants == draw_constants(unit_flags, textured, masked, scale, rotation, translation),
    {
        let textured_flag: u32 = if textured { FLAG_TEXTURED } else { 0 };
        let masked_flag: u32 = if masked { FLAG_MASKED } else { 0 };
        let scale_flag: u32 = if scale.is_some() { FLAG_SCALE } else { 0 };
        let rotate_flag: u32 = if rotation.is_some() { FLAG_ROTATE } else { 0 };
        let translate_flag: u32 = if !translation.is_zero() { FLAG_TRANSLATE } else { 0 };
        let scale_bits = match scale {
            Some(s) => s,
            None => ONE_F32_BITS,
        };
        let rotation_bits = match rotation {
            Some(r) => r,
            None => 0,
        };
        PushConstants {
            flags: unit_flags | textured_flag | masked_flag | scale_flag | rotate_flag
                | translate_flag,
            scale_bits,
            rotation_bits,
            translation,
        }
    }

    /// Whether these constants equal `other`: field by field, with the
    /// scale and rotation compared as floats.
    pub fn same_as(&self, other: &PushConstants) -> (same: bool)
        ensures
            same == same_constants(*self, *other),
    {
        self.flags == other.flags && f32_bits_equal(self.scale_bits, other.scale_bits)
            && f32_bits_equal(self.rotation_bits, other.rotation_bits) && self.translation.x
            == other.translation.x && self.translation.y == other.translation.y
    }
}

} // verus!
