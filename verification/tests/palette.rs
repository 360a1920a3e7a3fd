use huepick::get_palette;
use huepick::color::Rgb;
use huepick::engine::{extract_clusters, PaletteError};
use huepick::rank::sort_clusters;

/// Builds a flat RGBA buffer from a list of pixels.
fn buffer(pixels: &[[u8; 4]]) -> Vec<u8> {
    let mut bytes = Vec::new();
    for p in pixels {
        bytes.extend_from_slice(p);
    }
    bytes
}

const RED: [u8; 4] = [255, 0, 0, 255];
const BLUE: [u8; 4] = [0, 0, 255, 255];

#[test]
fn black_opaque_image_yields_empty_palette() {
    let bytes = buffer(&[[0, 0, 0, 255]; 4]);
    let palette = get_palette(&bytes, 1, 5, 2).unwrap();
    assert_eq!(palette.len(), 0);
}

#[test]
fn transparent_image_yields_empty_palette() {
    let bytes = buffer(&[[10, 200, 30, 0], [255, 255, 255, 0], [1, 2, 3, 0], [90, 80, 70, 0]]);
    let palette = get_palette(&bytes, 1, 5, 2).unwrap();
    assert_eq!(palette.len(), 0);
}

#[test]
fn black_partially_transparent_pixels_are_kept() {
    // A black pixel that is only partially transparent is dropped by neither
    // filter arm: the black arm asks for full alpha and the transparent arm
    // for zero alpha. After a red pixel, such a black pixel is far from the
    // previously accepted sample, so it survives the coherence check too and
    // starts a cluster of its own.
    let bytes = buffer(&[RED, [0, 0, 0, 128]]);
    let clusters = extract_clusters(&bytes, 1, 2).unwrap();
    assert_eq!(clusters.len(), 2);
    assert_eq!(
        (clusters[1].red, clusters[1].green, clusters[1].blue, clusters[1].weight),
        (0, 0, 0, 1)
    );
}

#[test]
fn single_color_image_yields_one_cluster_of_input_color() {
    let bytes = buffer(&[RED; 4]);
    let clusters = extract_clusters(&bytes, 1, 2).unwrap();
    assert_eq!(clusters.len(), 1);
    assert_eq!(
        (clusters[0].red, clusters[0].green, clusters[0].blue),
        (RED[0], RED[1], RED[2])
    );
    // The first red pixel starts the cluster; the three identical pixels
    // after it sit at zero perceptual distance to the previously accepted
    // sample, so the coherence shortcut drops them before any merge.
    assert_eq!(clusters[0].weight, 1);
    let palette = get_palette(&bytes, 1, 5, 2).unwrap();
    assert_eq!(palette, vec![Rgb { r: 255, g: 0, b: 0 }]);
}

#[test]
fn two_far_colors_yield_two_clusters() {
    let bytes = buffer(&[RED, BLUE, RED, BLUE, RED, BLUE, RED, BLUE]);
    let clusters = extract_clusters(&bytes, 1, 4).unwrap();
    assert_eq!(clusters.len(), 2);
    let palette = get_palette(&bytes, 1, 5, 4).unwrap();
    assert_eq!(palette.len(), 2);
    assert!(palette.contains(&Rgb { r: 255, g: 0, b: 0 }));
    assert!(palette.contains(&Rgb { r: 0, g: 0, b: 255 }));
}

#[test]
fn alternating_colors_accumulate_exact_geometric_bonuses() {
    // Pixels: red at indices 0, 2 and blue at 1 in a single row of width 3.
    // The second red merges into the red cluster with zero color distance
    // from squared pixel distance 4, adding floor(100 / 4) = 25.
    let bytes = buffer(&[RED, BLUE, RED]);
    let clusters = extract_clusters(&bytes, 1, 3).unwrap();
    assert_eq!(clusters.len(), 2);
    assert_eq!(clusters[0].weight, 26);
    assert_eq!(clusters[1].weight, 1);
    assert_eq!((clusters[0].red, clusters[0].blue), (255, 0));
    assert_eq!((clusters[1].red, clusters[1].blue), (0, 255));
    assert_eq!((clusters[0].x, clusters[0].y), (2, 0));
}

#[test]
fn palette_is_sorted_by_non_increasing_weight() {
    // Red gathers merge weight; blue stays at weight 1, so red must come
    // first even though both are discovered in the same scan.
    let bytes = buffer(&[RED, BLUE, RED, BLUE, RED]);
    let clusters = extract_clusters(&bytes, 1, 5).unwrap();
    let sorted = sort_clusters(clusters);
    for pair in sorted.windows(2) {
        assert!(pair[0].weight >= pair[1].weight);
    }
    assert!(sorted[0].weight > sorted[1].weight);
    assert_eq!((sorted[0].red, sorted[0].blue), (255, 0));
    let palette = get_palette(&bytes, 1, 5, 5).unwrap();
    assert_eq!(palette[0], Rgb { r: 255, g: 0, b: 0 });
    assert_eq!(palette[1], Rgb { r: 0, g: 0, b: 255 });
}

#[test]
fn merging_averages_the_display_color() {
    // Two close reds separated by a far blue: the second red merges into the
    // first red's cluster and the cluster color becomes the rounded average
    // of the two reds.
    let bytes = buffer(&[[200, 10, 10, 255], BLUE, [206, 16, 16, 255]]);
    let clusters = extract_clusters(&bytes, 1, 3).unwrap();
    assert_eq!(clusters.len(), 2);
    assert_eq!(
        (clusters[0].red, clusters[0].green, clusters[0].blue),
        (203, 13, 13)
    );
    assert!(clusters[0].weight > clusters[1].weight);
    let palette = get_palette(&bytes, 1, 5, 3).unwrap();
    assert_eq!(palette[0], Rgb { r: 203, g: 13, b: 13 });
    assert_eq!(palette[1], Rgb { r: 0, g: 0, b: 255 });
}

#[test]
fn output_never_exceeds_target_len() {
    let bytes = buffer(&[
        RED,
        BLUE,
        [0, 255, 0, 255],
        [255, 255, 0, 255],
        [255, 0, 255, 255],
        [0, 255, 255, 255],
        RED,
        BLUE,
    ]);
    for target in 0..6 {
        let palette = get_palette(&bytes, 1, target, 4).unwrap();
        assert!(palette.len() <= target);
    }
}

#[test]
fn zero_target_len_yields_empty_palette() {
    let bytes = buffer(&[RED, BLUE, RED, BLUE]);
    let palette = get_palette(&bytes, 1, 0, 2).unwrap();
    assert_eq!(palette.len(), 0);
}

#[test]
fn fewer_clusters_than_target_is_not_an_error() {
    let bytes = buffer(&[RED, BLUE]);
    let palette = get_palette(&bytes, 1, 100, 2).unwrap();
    assert_eq!(palette.len(), 2);
}

#[test]
fn empty_buffer_yields_empty_palette() {
    let bytes: Vec<u8> = Vec::new();
    let palette = get_palette(&bytes, 1, 5, 2).unwrap();
    assert_eq!(palette.len(), 0);
}

#[test]
fn zero_width_is_an_invalid_input_error() {
    let bytes = buffer(&[RED, BLUE]);
    assert_eq!(get_palette(&bytes, 1, 5, 0), Err(PaletteError::ZeroWidth));
    // Width is checked first, before the stride.
    assert_eq!(get_palette(&bytes, 0, 5, 0), Err(PaletteError::ZeroWidth));
}

#[test]
fn zero_stride_is_an_invalid_input_error() {
    let bytes = buffer(&[RED, BLUE]);
    assert_eq!(get_palette(&bytes, 0, 5, 2), Err(PaletteError::ZeroStride));
}

#[test]
fn misaligned_buffer_is_an_invalid_input_error() {
    let bytes = vec![255u8, 0, 0, 255, 9];
    assert_eq!(
        get_palette(&bytes, 1, 5, 2),
        Err(PaletteError::MisalignedBuffer)
    );
}

#[test]
fn stride_skips_pixels() {
    // With stride 2 only the red pixels at indices 0 and 2 are visited; the
    // blue pixels are never sampled, and the second red is dropped by the
    // coherence shortcut.
    let bytes = buffer(&[RED, BLUE, RED, BLUE]);
    let clusters = extract_clusters(&bytes, 2, 4).unwrap();
    assert_eq!(clusters.len(), 1);
    assert_eq!((clusters[0].red, clusters[0].blue), (255, 0));
    let palette = get_palette(&bytes, 2, 5, 4).unwrap();
    assert_eq!(palette, vec![Rgb { r: 255, g: 0, b: 0 }]);
}

#[test]
fn stride_beyond_buffer_visits_only_first_pixel() {
    let bytes = buffer(&[RED, BLUE, BLUE, BLUE]);
    let clusters = extract_clusters(&bytes, 100, 4).unwrap();
    assert_eq!(clusters.len(), 1);
    assert_eq!((clusters[0].red, clusters[0].blue), (255, 0));
}
