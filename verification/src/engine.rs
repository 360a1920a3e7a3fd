//! The clustering engine: the single-pass grouping of samples into weighted
//! color clusters.
//!
//! Clusters are kept in discovery order. Each accepted sample is compared
//! against the clusters in that order and merges into the *first* cluster
//! whose perceptual distance is strictly below the merge threshold — not the
//! closest one. First-match keeps the pass a single linear scan; the policy
//! is part of the engine's observable behavior and is pinned by the
//! functional model below. A merge moves the cluster's color to the midpoint
//! of its previous value and the sample, averages the display RGB, records
//! the sample's position, and adds a weight gain that grows both with the
//! perceptual distance (within the threshold) and with spatial proximity to
//! the cluster's previous position. A sample that matches no cluster starts
//! a new cluster of weight 1.

use vstd::prelude::*;
use crate::color::{
    LuvColor,
    luv_of,
    avg_round,
    avg_channel,
    hybrid_dist_scaled,
    hybrid_dist100,
    luv_midpoint,
    luv_mid,
    rgb_to_luv,
};
use crate::sample::{
    Sample,
    n_px,
    pixel_rgba,
    skip_filtered,
    init_prev,
    samples_from,
    sample_seq,
    lemma_samples_from_count,
    lemma_all_filtered_no_samples,
    COHERENCE_THRESHOLD_SCALED,
};

verus! {

/// Scaled merge threshold: a sample merges into the first cluster whose
/// hybrid distance (scaled by 100) is strictly below 30 * 100.
pub const MERGE_THRESHOLD_SCALED: u64 = 3000;

/// Numerator of the spatial proximity bonus: a merge at squared pixel
/// distance `g` adds `100 / g` to the weight. A merge at the identical
/// position adds the full numerator — the bonus saturates instead of
/// dividing by zero.
pub const GEO_BONUS_NUMERATOR: u64 = 100;

/// An upper bound on the weight gain of a single merge: the perceptual part
/// is below the merge threshold and the spatial bonus never exceeds its
/// numerator.
pub const MAX_MERGE_GAIN: u64 = 3100;

/// One discovered color cluster.
#[derive(Clone, Copy, PartialEq, Eq, Structural, Debug)]
pub struct Cluster {
    /// Representative color in fixed-point Luv, updated by averaging.
    pub luv: LuvColor,
    /// Representative display color, updated by averaging; alpha is always
    /// fully opaque and is not stored.
    pub red: u8,
    pub green: u8,
    pub blue: u8,
    /// Position of the most recently merged sample.
    pub x: usize,
    pub y: usize,
    /// Accumulated prominence weight; only ever grows.
    pub weight: u128,
}

/// The mathematical value of a cluster.
pub ghost struct ClusterModel {
    pub luv: LuvColor,
    pub red: u8,
    pub green: u8,
    pub blue: u8,
    pub x: nat,
    pub y: nat,
    pub weight: nat,
}

impl View for Cluster {
    type V = ClusterModel;

    open spec fn view(&self) -> ClusterModel {
        ClusterModel {
            luv: self.luv,
            red: self.red,
            green: self.green,
            blue: self.blue,
            x: self.x as nat,
            y: self.y as nat,
            weight: self.weight as nat,
        }
    }
}

/// The values of a cluster list.
pub open spec fn clusters_view(s: Seq<Cluster>) -> Seq<ClusterModel> {
    s.map_values(|cl: Cluster| cl@)
}

/// The index of the first cluster at or after `k` whose perceptual distance
/// to `c` is below the merge threshold, if any.
pub open spec fn first_match_from(cs: Seq<ClusterModel>, c: LuvColor, k: nat) -> Option<int>
    decreases cs.len() - k,
{
    if k >= cs.len() {
        None
    } else if hybrid_dist_scaled(c, cs[k as int].luv) < MERGE_THRESHOLD_SCALED {
        Some(k as int)
    } else {
        first_match_from(cs, c, k + 1)
    }
}

/// The index of the first cluster, in discovery order, that `c` merges into.
pub open spec fn first_match(cs: Seq<ClusterModel>, c: LuvColor) -> Option<int> {
    first_match_from(cs, c, 0)
}

/// The squared Euclidean distance between two pixel positions.
pub open spec fn sq_dist(x1: nat, y1: nat, x2: nat, y2: nat) -> nat {
    let dx = if x1 >= x2 {
        x1 - x2
    } else {
        x2 - x1
    };
    let dy = if y1 >= y2 {
        y1 - y2
    } else {
        y2 - y1
    };
    (dx * dx + dy * dy) as nat
}

/// The spatial proximity bonus for a merge at squared distance `g`: the
/// reciprocal share of the numerator, saturated at the numerator itself when
/// the positions coincide.
pub open spec fn geo_bonus(g: nat) -> nat {
    if g == 0 {
        GEO_BONUS_NUMERATOR as nat
    } else {
        (GEO_BONUS_NUMERATOR as nat) / g
    }
}

/// The weight a merge of sample `s` into cluster `c` adds.
pub open spec fn merge_gain(s: Sample, c: ClusterModel) -> nat {
    hybrid_dist_scaled(s.luv, c.luv) + geo_bonus(sq_dist(s.x, s.y, c.x, c.y))
}

/// The cluster after sample `s` merges into `c`.
pub open spec fn merge_cluster(c: ClusterModel, s: Sample) -> ClusterModel {
    ClusterModel {
        luv: luv_midpoint(c.luv, s.luv),
        red: avg_round(c.red, s.red),
        green: avg_round(c.green, s.green),
        blue: avg_round(c.blue, s.blue),
        x: s.x,
        y: s.y,
        weight: c.weight + merge_gain(s, c),
    }
}

/// The cluster a sample that matched nothing starts.
pub open spec fn new_cluster(s: Sample) -> ClusterModel {
    ClusterModel { luv: s.luv, red: s.red, green: s.green, blue: s.blue, x: s.x, y: s.y, weight: 1 }
}

/// One engine step: the sample merges into the first matching cluster, or
/// starts a new one at the end of the list.
pub open spec fn apply_sample(cs: Seq<ClusterModel>, s: Sample) -> Seq<ClusterModel> {
    match first_match(cs, s.luv) {
        Some(k) => cs.update(k, merge_cluster(cs[k], s)),
        None => cs.push(new_cluster(s)),
    }
}

/// The cluster list after the engine has consumed all samples, in order.
pub open spec fn run_engine(samples: Seq<Sample>) -> Seq<ClusterModel>
    decreases samples.len(),
{
    if samples.len() == 0 {
        Seq::empty()
    } else {
        apply_sample(run_engine(samples.drop_last()), samples.last())
    }
}

/// The clusters the whole pipeline discovers in a pixel buffer.
pub open spec fn cluster_model(bytes: Seq<u8>, stride: nat, width: nat) -> Seq<ClusterModel> {
    run_engine(sample_seq(bytes, stride, width))
}

/// Whether every cluster's weight is at most `b`.
pub open spec fn weights_bounded(cs: Seq<ClusterModel>, b: nat) -> bool {
    forall|k: int| 0 <= k < cs.len() ==> (#[trigger] cs[k]).weight <= b
}

/// A matched cluster lies within the merge threshold of the sample.
proof fn lemma_first_match_some(cs: Seq<ClusterModel>, c: LuvColor, k0: nat)
    ensures
        match first_match_from(cs, c, k0) {
            Some(k) => k0 <= k < cs.len() && hybrid_dist_scaled(c, cs[k].luv)
                < MERGE_THRESHOLD_SCALED,
            None => true,
        },
    decreases cs.len() - k0,
{
    if k0 >= cs.len() {
    } else if hybrid_dist_scaled(c, cs[k0 as int].luv) < MERGE_THRESHOLD_SCALED {
    } else {
        lemma_first_match_some(cs, c, k0 + 1);
    }
}

/// No cluster's weight can exceed one more than the maximal gain times the
/// number of samples consumed.
pub proof fn lemma_run_engine_weights(samples: Seq<Sample>)
    ensures
        weights_bounded(run_engine(samples), 1 + (MAX_MERGE_GAIN as nat) * samples.len()),
    decreases samples.len(),
{
    if samples.len() == 0 {
    } else {
        let butlast = samples.drop_last();
        let s = samples.last();
        let cs = run_engine(butlast);
        lemma_run_engine_weights(butlast);
        let bound = 1 + (MAX_MERGE_GAIN as nat) * samples.len();
        match first_match(cs, s.luv) {
            Some(k) => {
                lemma_first_match_some(cs, s.luv, 0);
                assert(geo_bonus(sq_dist(s.x, s.y, cs[k].x, cs[k].y)) <= GEO_BONUS_NUMERATOR) by {
                    let g = sq_dist(s.x, s.y, cs[k].x, cs[k].y);
                    if g > 0 {
                        vstd::arithmetic::div_mod::lemma_div_nonincreasing(
                            GEO_BONUS_NUMERATOR as int,
                            g as int,
                        );
                    }
                }
                assert(merge_gain(s, cs[k]) <= MAX_MERGE_GAIN);
                assert(weights_bounded(run_engine(samples), bound));
            },
            None => {
                assert(weights_bounded(run_engine(samples), bound));
            },
        }
    }
}

/// Whether every pixel of the buffer is fully opaque black: zero red, green
/// and blue, with full alpha.
pub open spec fn all_pixels_black_opaque(bytes: Seq<u8>) -> bool {
    forall|k: nat|
        k < n_px(bytes) ==> ((#[trigger] pixel_rgba(bytes, k)).0 == 0 && pixel_rgba(bytes, k).1
            == 0 && pixel_rgba(bytes, k).2 == 0 && pixel_rgba(bytes, k).3 == 255)
}

/// Whether every pixel of the buffer is fully transparent, whatever its RGB.
pub open spec fn all_pixels_transparent(bytes: Seq<u8>) -> bool {
    forall|k: nat| k < n_px(bytes) ==> (#[trigger] pixel_rgba(bytes, k)).3 == 0
}

/// Law: a buffer of only fully opaque black pixels yields no clusters at
/// all, for every stride and width, so its palette is empty: the opacity
/// filter drops every visited pixel before any color work.
pub proof fn lemma_black_image_empty(bytes: Seq<u8>, stride: nat, width: nat)
    requires
        all_pixels_black_opaque(bytes),
    ensures
        cluster_model(bytes, stride, width) =~= Seq::<ClusterModel>::empty(),
{
    assert(forall|k: nat| k < n_px(bytes) ==> skip_filtered(#[trigger] pixel_rgba(bytes, k)));
    lemma_all_filtered_no_samples(bytes, stride, width, 0, init_prev());
}

/// Law: a buffer of only fully transparent pixels yields no clusters at all,
/// for every stride and width, so its palette is empty.
pub proof fn lemma_transparent_image_empty(bytes: Seq<u8>, stride: nat, width: nat)
    requires
        all_pixels_transparent(bytes),
    ensures
        cluster_model(bytes, stride, width) =~= Seq::<ClusterModel>::empty(),
{
    assert(forall|k: nat| k < n_px(bytes) ==> skip_filtered(#[trigger] pixel_rgba(bytes, k)));
    lemma_all_filtered_no_samples(bytes, stride, width, 0, init_prev());
}

/// Executable scan for the first cluster the color merges into.
fn find_first_match(clusters: &Vec<Cluster>, c: &LuvColor) -> (r: Option<usize>)
    ensures
        match r {
            Some(j) => j < clusters@.len() && first_match(clusters_view(clusters@), *c) == Some(
                j as int,
            ),
            None => first_match(clusters_view(clusters@), *c) is None,
        },
{
    let ghost cv = clusters_view(clusters@);
    let mut j: usize = 0;
    while j < clusters.len()
        invariant
            j <= clusters@.len(),
            cv == clusters_view(clusters@),
            cv.len() == clusters@.len(),
            first_match_from(cv, *c, 0) == first_match_from(cv, *c, j as nat),
        decreases clusters@.len() - j,
    {
        proof {
            assert(cv[j as int].luv == clusters@[j as int].luv);
        }
        let d = hybrid_dist100(c, &clusters[j].luv);
        if d < MERGE_THRESHOLD_SCALED {
            return Some(j);
        }
        j += 1;
    }
    None
}

/// Executable squared distance between two pixel positions. The bound on the
/// coordinates keeps the squares within `u128`.
fn squared_distance(x1: usize, y1: usize, x2: usize, y2: usize) -> (g: u128)
    requires
        x1 <= 0x4000_0000_0000_0000,
        y1 <= 0x4000_0000_0000_0000,
        x2 <= 0x4000_0000_0000_0000,
        y2 <= 0x4000_0000_0000_0000,
    ensures
        g == sq_dist(x1 as nat, y1 as nat, x2 as nat, y2 as nat),
{
    let dx: u128 = if x1 >= x2 {
        (x1 - x2) as u128
    } else {
        (x2 - x1) as u128
    };
    let dy: u128 = if y1 >= y2 {
        (y1 - y2) as u128
    } else {
        (y2 - y1) as u128
    };
    proof {
        assert((dx as int) * (dx as int) <= 0x4000_0000_0000_0000 * 0x4000_0000_0000_0000
            && (dy as int) * (dy as int) <= 0x4000_0000_0000_0000 * 0x4000_0000_0000_0000)
            by (nonlinear_arith)
            requires
                0 <= dx <= 0x4000_0000_0000_0000,
                0 <= dy <= 0x4000_0000_0000_0000,
        ;
    }
    dx * dx + dy * dy
}

/// Why a pixel buffer is rejected before any clustering.
#[derive(Clone, Copy, PartialEq, Eq, Structural, Debug)]
pub enum PaletteError {
    /// The image width was zero, so no pixel position could be derived.
    ZeroWidth,
    /// The sample stride was zero, so the scan would not advance.
    ZeroStride,
    /// The buffer length was not a multiple of four bytes per pixel.
    MisalignedBuffer,
}

/// Scans the RGBA buffer at the given stride and returns the discovered
/// clusters in discovery order. The result is exactly the functional model
/// of the sampler and engine; it is an error precisely when the width is
/// zero, the stride is zero, or the buffer is not whole RGBA pixels.
pub fn extract_clusters(bytes: &Vec<u8>, step_by: usize, width: usize) -> (r: Result<
    Vec<Cluster>,
    PaletteError,
>)
    ensures
        match r {
            Ok(cs) => width != 0 && step_by != 0 && bytes@.len() % 4 == 0 && clusters_view(cs@)
                == cluster_model(bytes@, step_by as nat, width as nat),
            Err(e) => (e == PaletteError::ZeroWidth && width == 0) || (e == PaletteError::ZeroStride
                && width != 0 && step_by == 0) || (e == PaletteError::MisalignedBuffer && width != 0
                && step_by != 0 && bytes@.len() % 4 != 0),
        },
{
    if width == 0 {
        return Err(PaletteError::ZeroWidth);
    }
    if step_by == 0 {
        return Err(PaletteError::ZeroStride);
    }
    if bytes.len() % 4 != 0 {
        return Err(PaletteError::MisalignedBuffer);
    }
    let n_pixels: usize = bytes.len() / 4;
    let ghost stride_g = step_by as nat;
    let ghost width_g = width as nat;
    let ghost total = sample_seq(bytes@, stride_g, width_g);
    proof {
        lemma_samples_from_count(bytes@, stride_g, width_g, 0, init_prev());
    }
    let mut clusters: Vec<Cluster> = Vec::new();
    let mut prev = LuvColor { l: 32768, u: 32768, v: 32768 };
    let ghost mut done: Seq<Sample> = Seq::empty();
    let mut i: usize = 0;
    proof {
        assert(n_pixels <= 0x4000_0000_0000_0000) by {
            vstd::arithmetic::div_mod::lemma_div_is_ordered(
                bytes@.len() as int,
                0xFFFF_FFFF_FFFF_FFFF,
                4,
            );
        }
        assert(clusters_view(clusters@) =~= Seq::<ClusterModel>::empty());
        assert(done + samples_from(bytes@, stride_g, width_g, 0, init_prev()) =~= total);
    }
    loop
        invariant_except_break
            step_by >= 1,
            width >= 1,
            stride_g == step_by as nat,
            width_g == width as nat,
            bytes@.len() % 4 == 0,
            n_pixels == n_px(bytes@),
            bytes@.len() <= usize::MAX,
            n_pixels <= 0x4000_0000_0000_0000,
            i <= n_pixels,
            total == sample_seq(bytes@, stride_g, width_g),
            total.len() <= n_pixels,
            done + samples_from(bytes@, stride_g, width_g, i as nat, prev) == total,
            done.len() <= total.len(),
            clusters_view(clusters@) == run_engine(done),
            clusters@.len() == run_engine(done).len(),
            forall|k: int|
                0 <= k < clusters@.len() ==> (#[trigger] clusters@[k]).x < n_pixels
                    && clusters@[k].y < n_pixels,
        ensures
            done == total,
            clusters_view(clusters@) == run_engine(done),
        decreases n_px(bytes@) - i,
    {
        if i >= n_pixels {
            proof {
                assert(samples_from(bytes@, stride_g, width_g, i as nat, prev) =~= Seq::empty());
                assert(done =~= total);
            }
            break;
        }
        proof {
            vstd::arithmetic::div_mod::lemma_fundamental_div_mod(bytes@.len() as int, 4);
            assert(bytes@.len() == 4 * n_pixels);
            assert(4 * (i as int) + 3 < bytes@.len());
        }
        let base = 4 * i;
        let r8 = bytes[base];
        let g8 = bytes[base + 1];
        let b8 = bytes[base + 2];
        let a8 = bytes[base + 3];
        let ghost p = pixel_rgba(bytes@, i as nat);
        assert(p == (r8, g8, b8, a8));
        if (r8 == 0 && g8 == 0 && b8 == 0 && a8 == 255) || a8 == 0 {
            assert(samples_from(bytes@, stride_g, width_g, i as nat, prev) == samples_from(
                bytes@,
                stride_g,
                width_g,
                i as nat + stride_g,
                prev,
            ));
        } else {
            let c = rgb_to_luv(r8, g8, b8);
            let dprev = hybrid_dist100(&c, &prev);
            if dprev < COHERENCE_THRESHOLD_SCALED {
                assert(samples_from(bytes@, stride_g, width_g, i as nat, prev) == samples_from(
                    bytes@,
                    stride_g,
                    width_g,
                    i as nat + stride_g,
                    prev,
                ));
            } else {
                let x = i % width;
                let y = i / width;
                proof {
                    vstd::arithmetic::div_mod::lemma_mod_decreases(i as nat, width as nat);
                    vstd::arithmetic::div_mod::lemma_div_nonincreasing(i as int, width as int);
                }
                let ghost s = Sample {
                    luv: c,
                    red: r8,
                    green: g8,
                    blue: b8,
                    x: x as nat,
                    y: y as nat,
                };
                proof {
                    let rest = samples_from(bytes@, stride_g, width_g, i as nat + stride_g, c);
                    assert(!skip_filtered(p));
                    assert(luv_of(p.0, p.1, p.2) == c);
                    assert(hybrid_dist_scaled(c, prev) >= COHERENCE_THRESHOLD_SCALED);
                    assert(x as nat == (i as nat) % width_g);
                    assert(y as nat == (i as nat) / width_g);
                    assert(s == Sample {
                        luv: c,
                        red: p.0,
                        green: p.1,
                        blue: p.2,
                        x: (i as nat) % width_g,
                        y: (i as nat) / width_g,
                    });
                    assert(samples_from(bytes@, stride_g, width_g, i as nat, prev) =~= seq![s]
                        + rest);
                }
                let ghost cs_before = run_engine(done);
                match find_first_match(&clusters, &c) {
                    Some(j) => {
                        let d = hybrid_dist100(&c, &clusters[j].luv);
                        let gd = squared_distance(x, y, clusters[j].x, clusters[j].y);
                        let bonus: u128 = if gd == 0 {
                            GEO_BONUS_NUMERATOR as u128
                        } else {
                            (GEO_BONUS_NUMERATOR as u128) / gd
                        };
                        proof {
                            lemma_run_engine_weights(done);
                            assert(clusters_view(clusters@)[j as int] == clusters@[j as int]@);
                            assert(run_engine(done)[j as int].weight <= 1 + (MAX_MERGE_GAIN as nat)
                                * done.len());
                            assert(clusters@[j as int]@.weight <= 1 + (MAX_MERGE_GAIN as nat)
                                * done.len());
                            assert((MAX_MERGE_GAIN as nat) * done.len() <= (MAX_MERGE_GAIN as nat)
                                * total.len()) by (nonlinear_arith)
                                requires
                                    done.len() <= total.len(),
                            ;
                            if gd > 0 {
                                vstd::arithmetic::div_mod::lemma_div_nonincreasing(
                                    GEO_BONUS_NUMERATOR as int,
                                    gd as int,
                                );
                            }
                        }
                        let w_new: u128 = clusters[j].weight + (d as u128) + bonus;
                        let nl = luv_mid(&clusters[j].luv, &c);
                        let nr = avg_channel(clusters[j].red, r8);
                        let ng = avg_channel(clusters[j].green, g8);
                        let nb = avg_channel(clusters[j].blue, b8);
                        let ghost old_clusters = clusters@;
                        clusters[j] = Cluster {
                            luv: nl,
                            red: nr,
                            green: ng,
                            blue: nb,
                            x,
                            y,
                            weight: w_new,
                        };
                        proof {
                            assert(clusters@[j as int]@ == merge_cluster(cs_before[j as int], s));
                            assert(clusters_view(clusters@) =~= cs_before.update(
                                j as int,
                                merge_cluster(cs_before[j as int], s),
                            ));
                            assert(done.push(s).drop_last() =~= done);
                            assert(done.push(s).last() == s);
                            assert(clusters_view(clusters@) == run_engine(done.push(s)));
                            done = done.push(s);
                        }
                    },
                    None => {
                        clusters.push(
                            Cluster { luv: c, red: r8, green: g8, blue: b8, x, y, weight: 1 },
                        );
                        proof {
                            assert(clusters_view(clusters@) =~= cs_before.push(new_cluster(s)));
                            assert(done.push(s).drop_last() =~= done);
                            assert(done.push(s).last() == s);
                            assert(clusters_view(clusters@) == run_engine(done.push(s)));
                            done = done.push(s);
                        }
                    },
                }
                prev = c;
            }
        }
        if n_pixels - i <= step_by {
            proof {
                assert(samples_from(bytes@, stride_g, width_g, i as nat + stride_g, prev)
                    =~= Seq::empty());
                assert(done =~= total);
            }
            break;
        }
        i = i + step_by;
    }
    Ok(clusters)
}

} // verus!
