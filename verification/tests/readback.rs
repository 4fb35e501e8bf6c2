use capture_media::data::{DataSmuggler, IdMap, OrthoExtent, RenderData};
use capture_media::image_utils::{to_grouped_rgba, to_rgba, TextureFormat};
use capture_media::render::{
    align_byte_size, get_aligned_size, layout_data, smuggle_frame, trim_row_padding,
};

#[test]
fn alignment_rounds_up_to_256() {
    // 800 x 600 RGBA8: a row is 800 * 4 = 3200 bytes, which is not a
    // multiple of 256 (256 * 12 = 3072), so it rounds up to 3328.
    assert_eq!(align_byte_size(3200), 3328);
    // A narrow target of width 10: 40 bytes round up to one alignment unit.
    assert_eq!(align_byte_size(40), 256);
    // A value already aligned is unchanged: no padding is added.
    assert_eq!(align_byte_size(256), 256);
    assert_eq!(align_byte_size(512), 512);
    assert_eq!(align_byte_size(0), 0);
    assert_eq!(align_byte_size(1), 256);
}

#[test]
fn aligned_size_counts_padded_rows() {
    // Width 64: a row is exactly 256 bytes, so no padding.
    assert_eq!(get_aligned_size(64, 10, 4), 2560);
    // Width 10: each of the rows is padded to 256 bytes.
    assert_eq!(get_aligned_size(10, 3, 4), 768);
}

#[test]
fn layout_row_stride_only_for_multiple_rows() {
    assert_eq!(layout_data(10, 2, TextureFormat::Rgba8UnormSrgb), Some(256));
    assert_eq!(layout_data(10, 1, TextureFormat::Rgba8UnormSrgb), None);
    assert_eq!(layout_data(0, 5, TextureFormat::Rgba8UnormSrgb), None);
}

#[test]
fn depadding_strips_row_filler() {
    // Width 10, height 3, 4 bytes per pixel: rows of 40 payload bytes
    // padded to 256.
    let width = 10u32;
    let height = 3u32;
    let row = 40usize;
    let padded = 256usize;
    let mut data = vec![0u8; padded * height as usize];
    for r in 0..height as usize {
        for i in 0..row {
            data[r * padded + i] = (r * row + i) as u8;
        }
        for i in row..padded {
            data[r * padded + i] = 0xEE;
        }
    }
    let out = trim_row_padding(&data, width, height, 4, padded as u32);
    assert_eq!(out.len(), (width * height * 4) as usize);
    for r in 0..height as usize {
        for i in 0..row {
            assert_eq!(out[r * row + i], (r * row + i) as u8);
        }
    }
    assert!(!out.contains(&0xEE));
}

#[test]
fn depadding_accepts_any_alignment_at_least_row_size() {
    let data: Vec<u8> = (0u8..30).collect();
    // Width 2, height 3, pixel size 4: 8 payload bytes per 10-byte row.
    let out = trim_row_padding(&data, 2, 3, 4, 10);
    assert_eq!(
        out,
        vec![0, 1, 2, 3, 4, 5, 6, 7, 10, 11, 12, 13, 14, 15, 16, 17, 20, 21, 22, 23, 24, 25, 26, 27]
    );
}

#[test]
fn smuggle_strips_padding_before_handoff() {
    let mut smuggler = DataSmuggler(IdMap::new());
    smuggler
        .0
        .try_insert(1, RenderData { target_handle: 5, last_frame: None })
        .unwrap();
    // Width 10, height 2: the device hands over two 256-byte rows.
    let mut data = vec![0xAAu8; 512];
    for i in 0..40 {
        data[i] = i as u8;
        data[256 + i] = (40 + i) as u8;
    }
    let stored = smuggle_frame(
        &mut smuggler,
        1,
        data,
        10,
        2,
        TextureFormat::Rgba8UnormSrgb,
    );
    assert!(stored);
    let frame = smuggler.0.get(1).unwrap().last_frame.clone().unwrap();
    let expected: Vec<u8> = (0u8..80).collect();
    assert_eq!(frame, expected);
}

#[test]
fn smuggle_overwrites_pending_frame() {
    let mut smuggler = DataSmuggler(IdMap::new());
    smuggler
        .0
        .try_insert(1, RenderData { target_handle: 5, last_frame: None })
        .unwrap();
    // Width 64 rows are exactly aligned: the buffer is stored as it is.
    let first = vec![1u8; 256];
    let second = vec![2u8; 256];
    smuggle_frame(&mut smuggler, 1, first, 64, 1, TextureFormat::Rgba8UnormSrgb);
    smuggle_frame(&mut smuggler, 1, second, 64, 1, TextureFormat::Rgba8UnormSrgb);
    // Most-recent-wins: the second readback replaced the first.
    let frame = smuggler.0.get(1).unwrap().last_frame.clone().unwrap();
    assert_eq!(frame, vec![2u8; 256]);
}

#[test]
fn smuggle_to_torn_down_slot_is_dropped() {
    let mut smuggler = DataSmuggler(IdMap::new());
    let stored = smuggle_frame(
        &mut smuggler,
        42,
        vec![0u8; 256],
        64,
        1,
        TextureFormat::Rgba8UnormSrgb,
    );
    assert!(!stored);
    assert!(smuggler.0.get(42).is_none());
}

#[test]
fn channel_swap_is_self_inverse() {
    let original: Vec<u8> = (0u8..16).collect();
    let once = to_rgba(original.clone(), TextureFormat::Bgra8Unorm);
    assert_ne!(once, original);
    let twice = to_rgba(once, TextureFormat::Bgra8Unorm);
    assert_eq!(twice, original);
}

#[test]
fn rgba_input_passes_through() {
    let original: Vec<u8> = (0u8..12).collect();
    assert_eq!(to_rgba(original.clone(), TextureFormat::Rgba8Unorm), original);
    let empty: Vec<u8> = Vec::new();
    assert_eq!(to_rgba(empty, TextureFormat::Bgra8UnormSrgb), Vec::<u8>::new());
}

#[test]
fn bgra_swizzle_swaps_red_and_blue() {
    let bgra = vec![10, 20, 30, 40, 50, 60, 70, 80];
    let rgba = to_rgba(bgra, TextureFormat::Bgra8Unorm);
    assert_eq!(rgba, vec![30, 20, 10, 40, 70, 60, 50, 80]);
}

#[test]
fn grouped_rgba_groups_pixels() {
    let bgra = vec![10, 20, 30, 40, 50, 60, 70, 80];
    let grouped = to_grouped_rgba(&bgra, TextureFormat::Bgra8Unorm);
    assert_eq!(grouped, vec![[30, 20, 10, 40], [70, 60, 50, 80]]);
    let rgba = vec![1, 2, 3, 4];
    assert_eq!(to_grouped_rgba(&rgba, TextureFormat::Rgba8Uint), vec![[1, 2, 3, 4]]);
}

#[test]
fn ortho_extent_sizes_target() {
    let e = OrthoExtent { left: -1, right: 1, bottom: -1, top: 1 };
    assert_eq!(e.target_size(), (2, 2));
    let wide = OrthoExtent { left: -400, right: 400, bottom: -300, top: 300 };
    assert_eq!(wide.target_size(), (800, 600));
    // Inverted extents clamp to zero, never a negative dimension.
    let inverted = OrthoExtent { left: 10, right: -10, bottom: 10, top: -10 };
    assert_eq!(inverted.target_size(), (0, 0));
}
