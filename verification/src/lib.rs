//! Extraction of a small weighted palette of representative colors from a
//! decoded RGBA pixel buffer.
//!
//! The core is a single-pass, order-sensitive clustering procedure: pixels
//! are sampled at a fixed stride, converted into a perceptually uniform
//! color space, and grouped into clusters by a perceptual distance
//! threshold. Each cluster accumulates a prominence weight blending color
//! similarity and spatial proximity. The highest-weighted clusters, in
//! non-increasing weight order, form the palette.

use vstd::prelude::*;

pub mod color;
pub mod engine;
pub mod rank;
pub mod sample;

verus! {

use crate::color::Rgb;
use crate::engine::{
    Cluster,
    ClusterModel,
    PaletteError,
    cluster_model,
    clusters_view,
    extract_clusters,
};
use crate::rank::{sorted_by_weight_desc, sort_clusters};

/// The RGB projection of a cluster: its representative display color, alpha
/// dropped.
pub open spec fn cluster_rgb(c: ClusterModel) -> Rgb {
    Rgb { r: c.red, g: c.green, b: c.blue }
}

/// Extracts a palette of at most `target_len` colors from a flat RGBA pixel
/// buffer (4 bytes per pixel, row-major, `width` pixels per row), visiting
/// every `step_by`-th pixel.
///
/// On success the palette holds the RGB colors of the discovered clusters,
/// ordered by non-increasing cluster weight (clusters of equal weight carry
/// no guaranteed order) and truncated to `target_len`; fewer colors than
/// `target_len` come back when fewer clusters were discovered, which is not
/// an error. The call fails exactly on a zero width, a zero stride, or a
/// buffer that is not whole RGBA pixels.
pub fn get_palette(bytes: &Vec<u8>, step_by: usize, target_len: usize, width: usize) -> (r: Result<
    Vec<Rgb>,
    PaletteError,
>)
    ensures
        match r {
            Ok(p) => {
                let model = cluster_model(bytes@, step_by as nat, width as nat);
                &&& width != 0 && step_by != 0 && bytes@.len() % 4 == 0
                &&& p@.len() <= target_len
                &&& p@.len() == if target_len as int <= model.len() {
                    target_len as int
                } else {
                    model.len() as int
                }
                &&& exists|w: Seq<ClusterModel>|
                    {
                        &&& #[trigger] w.to_multiset() == model.to_multiset()
                        &&& sorted_by_weight_desc(w)
                        &&& p@ == w.take(p@.len() as int).map_values(
                            |cm: ClusterModel| (Rgb { r: cm.red, g: cm.green, b: cm.blue }),
                        )
                    }
            },
            Err(e) => (e == PaletteError::ZeroWidth && width == 0) || (e == PaletteError::ZeroStride
                && width != 0 && step_by == 0) || (e == PaletteError::MisalignedBuffer && width != 0
                && step_by != 0 && bytes@.len() % 4 != 0),
        },
{
    let clusters = match extract_clusters(bytes, step_by, width) {
        Ok(cs) => cs,
        Err(e) => {
            return Err(e);
        },
    };
    let ghost model = cluster_model(bytes@, step_by as nat, width as nat);
    let ghost clusters0 = clusters@;
    let sorted = sort_clusters(clusters);
    let take_n = if target_len <= sorted.len() {
        target_len
    } else {
        sorted.len()
    };
    let mut out: Vec<Rgb> = Vec::new();
    let mut k: usize = 0;
    while k < take_n
        invariant
            k <= take_n,
            take_n <= sorted@.len(),
            out@.len() == k as int,
            forall|idx: int|
                0 <= idx < k ==> out@[idx] == cluster_rgb(#[trigger] clusters_view(sorted@)[idx]),
        decreases take_n - k,
    {
        out.push(Rgb { r: sorted[k].red, g: sorted[k].green, b: sorted[k].blue });
        k += 1;
    }
    proof {
        let w = clusters_view(sorted@);
        assert(clusters_view(clusters0) == model);
        assert(w.to_multiset() == model.to_multiset());
        assert(w.len() == model.len()) by {
            vstd::seq_lib::to_multiset_len(w);
            vstd::seq_lib::to_multiset_len(model);
        }
        assert(out@ =~= w.take(out@.len() as int).map_values(
            |cm: ClusterModel| (Rgb { r: cm.red, g: cm.green, b: cm.blue }),
        ));
        assert(sorted_by_weight_desc(w));
    }
    Ok(out)
}

} // verus!
