use rust_qr::pipeline::grayscale_views::{
    contrast_stretch_grayscale, crop_grayscale_square, evenly_spaced_center, invert_grayscale,
    resize_grayscale_to_max_dim, rgb_channel_plane, rgb_to_grayscale, upscale_grayscale,
    ProposalCenter, hypothesis_center_candidates, proposal_center_by_id,
};

const GRID_RESCUE_STEPS: usize = 3;

#[test]
fn grayscale_fallback_views_are_deterministic() {
    let source = vec![10, 20, 30, 40, 50, 60, 90, 110, 200];
    let contrast = contrast_stretch_grayscale(&source);
    let inverted = invert_grayscale(&source);

    assert_eq!(contrast_stretch_grayscale(&source), contrast);
    assert_eq!(invert_grayscale(&source), inverted);
    assert_eq!(inverted.len(), source.len());
}

#[test]
fn crop_square_centers_and_bounds_are_stable() {
    let width = 6usize;
    let height = 5usize;
    let grayscale = (0u8..(width * height) as u8).collect::<Vec<_>>();

    let (crop, crop_w, crop_h, x0, y0) =
        crop_grayscale_square(&grayscale, width, height, 5, 4, 4).expect("crop should exist");
    assert_eq!((crop_w, crop_h), (4, 4));
    assert_eq!((x0, y0), (2, 1));
    assert_eq!(crop.len(), crop_w * crop_h);
    assert_eq!(crop[0], grayscale[y0 * width + x0]);
}

#[test]
fn resize_grayscale_to_max_dim_is_bounded_and_deterministic() {
    let width = 6usize;
    let height = 4usize;
    let grayscale = (0u8..(width * height) as u8).collect::<Vec<_>>();

    let (resized, out_w, out_h) =
        resize_grayscale_to_max_dim(&grayscale, width, height, 3).expect("resize should work");
    assert_eq!((out_w, out_h), (3, 2));
    assert_eq!(resized.len(), out_w * out_h);
    assert_eq!(
        resize_grayscale_to_max_dim(&grayscale, width, height, 3)
            .expect("resize should be deterministic")
            .0,
        resized
    );
}

#[test]
fn evenly_spaced_centers_cover_start_middle_end() {
    let centers = (0..GRID_RESCUE_STEPS)
        .map(|idx| evenly_spaced_center(1200, idx, GRID_RESCUE_STEPS))
        .collect::<Vec<_>>();
    assert_eq!(centers.len(), GRID_RESCUE_STEPS);
    assert!(centers[0] < centers[1] && centers[1] < centers[2]);
    assert!(centers[0] < 300);
    assert!(centers[2] > 800);
}

#[test]
fn upscale_grayscale_is_bounded_and_deterministic() {
    let width = 3usize;
    let height = 2usize;
    let source = vec![1u8, 2, 3, 4, 5, 6];

    let (upscaled, out_w, out_h) =
        upscale_grayscale(&source, width, height, 2).expect("upscale should work");
    assert_eq!((out_w, out_h), (6, 4));
    assert_eq!(upscaled.len(), out_w * out_h);
    assert_eq!(
        upscale_grayscale(&source, width, height, 2)
            .expect("upscale should be deterministic")
            .0,
        upscaled
    );
}

#[test]
fn rgb_channel_plane_extracts_expected_components() {
    let rgb = vec![10u8, 20, 30, 40, 50, 60];
    assert_eq!(rgb_channel_plane(&rgb, 0), vec![10, 40]);
    assert_eq!(rgb_channel_plane(&rgb, 1), vec![20, 50]);
    assert_eq!(rgb_channel_plane(&rgb, 2), vec![30, 60]);
}

#[test]
fn channel_past_blue_is_zero() {
    assert_eq!(rgb_channel_plane(&[1, 2, 3, 4], 3), vec![0]);
}

#[test]
fn contrast_stretch_maps_the_range_onto_full_scale() {
    let source = vec![10, 20, 30, 40, 50, 60, 90, 110, 200];
    // (v - 10) * 255 / 190
    assert_eq!(
        contrast_stretch_grayscale(&source),
        vec![0, 13, 26, 40, 53, 67, 107, 134, 255]
    );
    // a spread under six is left alone
    assert_eq!(contrast_stretch_grayscale(&[7, 9, 12]), vec![7, 9, 12]);
    assert_eq!(contrast_stretch_grayscale(&[]), Vec::<u8>::new());
}

#[test]
fn inversion_is_the_negative() {
    assert_eq!(invert_grayscale(&[0, 1, 128, 255]), vec![255, 254, 127, 0]);
}

#[test]
fn upscale_repeats_each_pixel() {
    let (out, w, h) = upscale_grayscale(&[1, 2, 3, 4], 2, 2, 2).unwrap();
    assert_eq!((w, h), (4, 4));
    assert_eq!(out, vec![1, 1, 2, 2, 1, 1, 2, 2, 3, 3, 4, 4, 3, 3, 4, 4]);
    assert!(upscale_grayscale(&[1, 2, 3], 2, 2, 2).is_none());
    assert!(upscale_grayscale(&[1, 2, 3, 4], 2, 2, 1).is_none());
}

#[test]
fn crop_and_resize_exact_values() {
    let grayscale = (0u8..30).collect::<Vec<_>>();
    let (crop, w, h, x0, y0) = crop_grayscale_square(&grayscale, 6, 5, 0, 0, 2).unwrap();
    assert_eq!((w, h, x0, y0), (2, 2, 0, 0));
    assert_eq!(crop, vec![0, 1, 6, 7]);
    assert!(crop_grayscale_square(&grayscale[..20], 6, 5, 5, 4, 4).is_none());
    assert!(crop_grayscale_square(&grayscale, 6, 5, 5, 4, 0).is_none());

    let grayscale = (0u8..24).collect::<Vec<_>>();
    let (resized, w, h) = resize_grayscale_to_max_dim(&grayscale, 6, 4, 3).unwrap();
    assert_eq!((w, h), (3, 2));
    // rows 0 and 2, columns 0, 2 and 4
    assert_eq!(resized, vec![0, 2, 4, 12, 14, 16]);
    let (same, w, h) = resize_grayscale_to_max_dim(&grayscale, 6, 4, 6).unwrap();
    assert_eq!((same, w, h), (grayscale.clone(), 6, 4));
    assert!(resize_grayscale_to_max_dim(&grayscale, 6, 4, 0).is_none());
}

#[test]
fn evenly_spaced_center_exact_values() {
    assert_eq!(evenly_spaced_center(1200, 0, 3), 200);
    assert_eq!(evenly_spaced_center(1200, 1, 3), 600);
    assert_eq!(evenly_spaced_center(1200, 2, 3), 1000);
    assert_eq!(evenly_spaced_center(10, 9, 3), 9);
    assert_eq!(evenly_spaced_center(0, 1, 3), 0);
    assert_eq!(evenly_spaced_center(10, 1, 0), 0);
}

#[test]
fn rgb_luma_rounds_to_nearest() {
    // (299 * 255 + 500) / 1000 = 76, (587 * 255 + 500) / 1000 = 150
    assert_eq!(rgb_to_grayscale(&[255, 0, 0, 0, 255, 0, 255, 255, 255, 9]), vec![76, 150, 255]);
}

#[test]
fn inverting_twice_restores_the_image() {
    let source = vec![0u8, 7, 128, 200, 255];
    assert_eq!(invert_grayscale(&invert_grayscale(&source)), source);
}

#[test]
fn downscale_keeps_the_larger_side_at_the_bound() {
    for (width, height) in [(10usize, 3usize), (3, 10), (9, 9), (100, 1)] {
        let source = vec![7u8; width * height];
        let (out, w, h) = resize_grayscale_to_max_dim(&source, width, height, 4).unwrap();
        assert_eq!(w.max(h), 4);
        assert!(w >= 1 && h >= 1);
        assert_eq!(out.len(), w * h);
    }
}

#[test]
fn hypothesis_centers_include_anchor_id_and_rank_fallback() {
    let proposals = vec![
        ProposalCenter { id: 0, x: 10, y: 20 },
        ProposalCenter { id: 1, x: 40, y: 60 },
    ];

    let centers = hypothesis_center_candidates(&proposals, 1, 0);
    assert!(centers.contains(&(40, 60)));
    assert!(centers.contains(&(10, 20)));
}

#[test]
fn hypothesis_centers_skip_duplicates_and_missing_ids() {
    let proposals = vec![
        ProposalCenter { id: 7, x: 5, y: 5 },
        ProposalCenter { id: 3, x: 9, y: 1 },
        ProposalCenter { id: 3, x: 2, y: 2 },
    ];
    assert_eq!(hypothesis_center_candidates(&proposals, 7, 0), vec![(5, 5)]);
    assert_eq!(hypothesis_center_candidates(&proposals, 42, 1), vec![(9, 1)]);
    assert_eq!(hypothesis_center_candidates(&proposals, 42, 9), Vec::<(usize, usize)>::new());
    assert_eq!(proposal_center_by_id(&proposals, 3), Some((9, 1)));
    assert_eq!(proposal_center_by_id(&proposals, 4), None);
}
