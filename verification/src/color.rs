//! Color representation and perceptual distance.
//!
//! Colors are compared in the perceptually uniform CIE Luv space. The
//! conversion from 8-bit sRGB (through linear-light RGB) and the hybrid
//! perceptual distance are computed by the `palette` crate; the library
//! stores a Luv color as a fixed-point triple so that all clustering state
//! is plain integer data.
//!
//! Fixed-point encoding: a Luv component value `x` is stored as the unsigned
//! 16-bit value `(x + 512) * 64`, rounded toward zero and saturated to the
//! `u16` range. The offset keeps the encoding non-negative (`u` and `v` are
//! negative for many colors) and the scale keeps a resolution of 1/64 of a
//! Luv unit, far below the distance thresholds the clustering uses. The
//! hybrid distance is invariant under the offset (it only reads component
//! differences), so distances are computed directly on encoded colors and
//! rescaled.

use vstd::prelude::*;
use palette::IntoColor;
use palette::color_difference::HyAb;

verus! {

/// A color in CIE Luv space, each component in the library's fixed-point
/// encoding.
#[derive(Clone, Copy, PartialEq, Eq, Structural, Debug)]
pub struct LuvColor {
    pub l: u16,
    pub u: u16,
    pub v: u16,
}

/// An output color: one RGB triple of the extracted palette.
#[derive(Clone, Copy, PartialEq, Eq, Structural, Debug)]
pub struct Rgb {
    pub r: u8,
    pub g: u8,
    pub b: u8,
}

/// The fixed-point Luv color that `rgb_to_luv` returns for an 8-bit RGB
/// triple: the `palette` crate's sRGB → linear RGB → Luv conversion,
/// quantized to the library's fixed-point grid.
pub uninterp spec fn luv_of(r: u8, g: u8, b: u8) -> LuvColor;

/// The scaled hybrid perceptual distance that `hybrid_dist100` returns for
/// two fixed-point Luv colors: 100 times the `palette` crate's hybrid
/// distance between the colors they encode, rounded toward zero.
pub uninterp spec fn hybrid_dist_scaled(a: LuvColor, b: LuvColor) -> nat;

/// Relies on the `palette` crate: `Srgb::new` and the `From` conversion into
/// linear-light RGB, then `IntoColor::into_color` into CIE Luv. The constant
/// color built with `Luv::new` only mints the fixed-point offset (512) and
/// scale (64) as component values.
#[verifier::external_body]
pub fn rgb_to_luv(r: u8, g: u8, b: u8) -> (c: LuvColor)
    ensures
        c == luv_of(r, g, b),
{
    let lin: palette::LinSrgb = palette::Srgb::new(r, g, b).into();
    let luv: palette::Luv = lin.into_color();
    let k: palette::Luv = palette::Luv::new(512u16.into(), 64u16.into(), 0u16.into());
    LuvColor {
        l: ((luv.l + k.l) * k.u) as u16,
        u: ((luv.u + k.l) * k.u) as u16,
        v: ((luv.v + k.l) * k.u) as u16,
    }
}

/// Relies on the `palette` crate: `HyAb::hybrid_distance` on CIE Luv colors,
/// which reads only component differences, so the fixed-point offset cancels
/// and the fixed-point scale (64) divides out; the result is scaled by 100
/// and truncated. The distance formula is symmetric in its two arguments, so
/// the same value is returned with the arguments swapped. The constant color
/// built with `Luv::new` only mints the scale (64) and the factor 100.
#[verifier::external_body]
pub fn hybrid_dist100(a: &LuvColor, b: &LuvColor) -> (d: u64)
    ensures
        d as nat == hybrid_dist_scaled(*a, *b),
        d as nat == hybrid_dist_scaled(*b, *a),
{
    let la: palette::Luv = palette::Luv::new(a.l.into(), a.u.into(), a.v.into());
    let lb: palette::Luv = palette::Luv::new(b.l.into(), b.u.into(), b.v.into());
    let k: palette::Luv = palette::Luv::new(64u16.into(), 100u16.into(), 0u16.into());
    (la.hybrid_distance(lb) * k.u / k.l) as u64
}

/// The fixed-point midpoint of two encoded components, rounded down. Because
/// both components carry the same offset, this encodes the arithmetic
/// midpoint of the underlying Luv component values.
pub open spec fn mid16(a: u16, b: u16) -> u16 {
    (((a as int) + (b as int)) / 2) as u16
}

/// The componentwise midpoint of two fixed-point Luv colors.
pub open spec fn luv_midpoint(a: LuvColor, b: LuvColor) -> LuvColor {
    LuvColor { l: mid16(a.l, b.l), u: mid16(a.u, b.u), v: mid16(a.v, b.v) }
}

/// The rounded average of two 8-bit color channels: the midpoint, rounded
/// half up.
pub open spec fn avg_round(a: u8, b: u8) -> u8 {
    (((a as int) + (b as int) + 1) / 2) as u8
}

/// Executable fixed-point midpoint of two encoded components.
pub fn mid_u16(a: u16, b: u16) -> (m: u16)
    ensures
        m == mid16(a, b),
{
    (((a as u32) + (b as u32)) / 2) as u16
}

/// Executable midpoint of two fixed-point Luv colors.
pub fn luv_mid(a: &LuvColor, b: &LuvColor) -> (m: LuvColor)
    ensures
        m == luv_midpoint(*a, *b),
{
    LuvColor { l: mid_u16(a.l, b.l), u: mid_u16(a.u, b.u), v: mid_u16(a.v, b.v) }
}

/// Executable rounded average of two 8-bit color channels.
pub fn avg_channel(a: u8, b: u8) -> (r: u8)
    ensures
        r == avg_round(a, b),
{
    (((a as u16) + (b as u16) + 1) / 2) as u8
}

} // verus!
