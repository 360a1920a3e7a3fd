//! The pixel sampler: which pixels of the RGBA buffer become samples.
//!
//! The buffer is visited at pixel indices `0, stride, 2 * stride, ...`. A
//! visited pixel is dropped when it is fully opaque black (a black pixel that
//! is only partially transparent is kept — the asymmetry is deliberate), when
//! it is fully transparent, or when its perceptual distance to the most
//! recently accepted sample is below the coherence threshold. The last rule
//! is a cheap shortcut over runs of near-identical pixels; it compares
//! against the single preceding accepted sample only, never against a
//! cluster.

use vstd::prelude::*;
use crate::color::{LuvColor, luv_of, hybrid_dist_scaled};

verus! {

/// Scaled coherence threshold: a visited pixel within a hybrid distance of
/// 60 (scaled by 100) of the previously accepted sample is dropped.
pub const COHERENCE_THRESHOLD_SCALED: u64 = 6000;

/// One accepted pixel sample: its fixed-point Luv color, its RGB bytes, and
/// its 2D position in the image.
pub ghost struct Sample {
    pub luv: LuvColor,
    pub red: u8,
    pub green: u8,
    pub blue: u8,
    pub x: nat,
    pub y: nat,
}

/// The number of whole RGBA pixels in the buffer.
pub open spec fn n_px(bytes: Seq<u8>) -> nat {
    bytes.len() / 4
}

/// The RGBA bytes of pixel `i`.
pub open spec fn pixel_rgba(bytes: Seq<u8>, i: nat) -> (u8, u8, u8, u8) {
    (
        bytes[4 * i as int],
        bytes[4 * i as int + 1],
        bytes[4 * i as int + 2],
        bytes[4 * i as int + 3],
    )
}

/// Whether a visited pixel is dropped before any color conversion: fully
/// opaque black pixels and fully transparent pixels carry no palette
/// information. The two arms are deliberately asymmetric: a black pixel that
/// is only partially transparent is dropped by neither arm and is sampled.
pub open spec fn skip_filtered(p: (u8, u8, u8, u8)) -> bool {
    (p.0 == 0 && p.1 == 0 && p.2 == 0 && p.3 == 255) || p.3 == 0
}

/// The fixed-point encoding of Luv black, the initial "previously accepted
/// sample" color: each component is (0 + 512) * 64.
pub open spec fn init_prev() -> LuvColor {
    LuvColor { l: 32768, u: 32768, v: 32768 }
}

/// The samples accepted from pixel index `i` on, when the most recently
/// accepted sample has color `prev`.
pub open spec fn samples_from(
    bytes: Seq<u8>,
    stride: nat,
    width: nat,
    i: nat,
    prev: LuvColor,
) -> Seq<Sample>
    decreases n_px(bytes) + stride - i,
{
    if i >= n_px(bytes) || stride == 0 || width == 0 {
        Seq::empty()
    } else {
        let p = pixel_rgba(bytes, i);
        if skip_filtered(p) {
            samples_from(bytes, stride, width, i + stride, prev)
        } else {
            let c = luv_of(p.0, p.1, p.2);
            if hybrid_dist_scaled(c, prev) < COHERENCE_THRESHOLD_SCALED {
                samples_from(bytes, stride, width, i + stride, prev)
            } else {
                let s = Sample {
                    luv: c,
                    red: p.0,
                    green: p.1,
                    blue: p.2,
                    x: i % width,
                    y: i / width,
                };
                seq![s] + samples_from(bytes, stride, width, i + stride, c)
            }
        }
    }
}

/// All samples accepted from the buffer.
pub open spec fn sample_seq(bytes: Seq<u8>, stride: nat, width: nat) -> Seq<Sample> {
    samples_from(bytes, stride, width, 0, init_prev())
}

/// The sample count from index `i` on is bounded by the pixels not yet
/// visited.
pub proof fn lemma_samples_from_count(
    bytes: Seq<u8>,
    stride: nat,
    width: nat,
    i: nat,
    prev: LuvColor,
)
    ensures
        i < n_px(bytes) ==> samples_from(bytes, stride, width, i, prev).len() <= n_px(bytes)
            - i,
        i >= n_px(bytes) ==> samples_from(bytes, stride, width, i, prev).len() == 0,
    decreases n_px(bytes) + stride - i,
{
    if i >= n_px(bytes) || stride == 0 || width == 0 {
    } else {
        let p = pixel_rgba(bytes, i);
        if skip_filtered(p) {
            lemma_samples_from_count(bytes, stride, width, i + stride, prev);
        } else {
            let c = luv_of(p.0, p.1, p.2);
            if hybrid_dist_scaled(c, prev) < COHERENCE_THRESHOLD_SCALED {
                lemma_samples_from_count(bytes, stride, width, i + stride, prev);
            } else {
                lemma_samples_from_count(bytes, stride, width, i + stride, c);
            }
        }
    }
}

/// A buffer whose visited pixels are all dropped by the opacity filter
/// yields no samples at all — in particular an all-black fully-opaque image
/// and an all-transparent image yield an empty palette.
pub proof fn lemma_all_filtered_no_samples(
    bytes: Seq<u8>,
    stride: nat,
    width: nat,
    i: nat,
    prev: LuvColor,
)
    requires
        forall|k: nat| k < n_px(bytes) ==> skip_filtered(#[trigger] pixel_rgba(bytes, k)),
    ensures
        samples_from(bytes, stride, width, i, prev) =~= Seq::empty(),
    decreases n_px(bytes) + stride - i,
{
    if i >= n_px(bytes) || stride == 0 || width == 0 {
    } else {
        lemma_all_filtered_no_samples(bytes, stride, width, i + stride, prev);
    }
}

} // verus!
