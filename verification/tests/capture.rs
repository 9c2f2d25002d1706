//! Preview sizes, packing, hashing, frame conversion and window search.

use autorpg_mcp::capture::{
    average_hash, capture_window_by_title, pack_rgba_to_rgb, preview_dimensions, wanted_window,
    CaptureReceiver, Conversion, WindowChoice,
};
use autorpg_mcp::state::FramePayload;
use fast_image_resize::images::{Image, ImageRef};
use fast_image_resize::{FilterType, PixelType, ResizeAlg, ResizeOptions, Resizer};

#[test]
fn previews_fit_their_edge_and_are_never_upscaled() {
    assert_eq!(preview_dimensions(1920, 1080, 1024), (1024, 576));
    assert_eq!(preview_dimensions(1080, 1920, 1024), (576, 1024));
    assert_eq!(preview_dimensions(800, 600, 1024), (800, 600));
    assert_eq!(preview_dimensions(1024, 1024, 1024), (1024, 1024));
    assert_eq!(preview_dimensions(10_000, 2, 1024), (1024, 1));
    assert_eq!(preview_dimensions(1366, 768, 1024), (1024, 575));
    assert_eq!(preview_dimensions(u32::MAX, u32::MAX, 64), (64, 64));
}

#[test]
fn packing_drops_alpha_and_swaps_channels() {
    let rgba = [1, 2, 3, 4, 5, 6, 7, 8, 9];
    let mut rgb = vec![99; 50];
    pack_rgba_to_rgb(&rgba, &mut rgb, false);
    assert_eq!(rgb, vec![1, 2, 3, 5, 6, 7]);
    pack_rgba_to_rgb(&rgba, &mut rgb, true);
    assert_eq!(rgb, vec![3, 2, 1, 7, 6, 5]);
    pack_rgba_to_rgb(&[3, 2, 1, 4], &mut rgb, true);
    assert_eq!(rgb, vec![1, 2, 3]);
}

fn noise(len: usize) -> Vec<u8> {
    let mut state = 0x2545_F491u32;
    (0..len)
        .map(|_| {
            state ^= state << 13;
            state ^= state >> 17;
            state ^= state << 5;
            (state >> 8) as u8
        })
        .collect()
}

/// The hash, cell by cell.
fn expected_hash(rgb: &[u8], width: u32, height: u32) -> u64 {
    let mut cells = Vec::new();
    for gy in 0..8 {
        for gx in 0..8 {
            let (x0, x1) = (gx * width / 8, (gx + 1) * width / 8);
            let (y0, y1) = (gy * height / 8, (gy + 1) * height / 8);
            let mut sum = 0;
            for sy in 0..4 {
                for sx in 0..4 {
                    let x = x0 + (x1 - x0) * sx / 4;
                    let y = y0 + (y1 - y0) * sy / 4;
                    let at = ((y * width + x) * 3) as usize;
                    sum += (2126 * rgb[at] as u32
                        + 7152 * rgb[at + 1] as u32
                        + 722 * rgb[at + 2] as u32)
                        / 10_000;
                }
            }
            cells.push(sum / 16);
        }
    }
    let mean = cells.iter().sum::<u32>() / 64;
    let mut hash = 0;
    for (i, cell) in cells.iter().enumerate() {
        if *cell >= mean {
            hash |= 1u64 << (63 - i);
        }
    }
    hash
}

#[test]
fn hashes_compare_cells_with_the_mean() {
    for (width, height) in [(8, 8), (9, 31), (64, 36), (100, 57)] {
        let rgb = noise((width * height * 3) as usize);
        assert_eq!(average_hash(&rgb, width, height), expected_hash(&rgb, width, height));
    }
}

#[test]
fn hash_bits_are_most_significant_first() {
    let mut rgb = vec![0; 16 * 16 * 3];
    // The top left cell is the first one.
    for y in 0..2 {
        for x in 0..2 {
            let at = (y * 16 + x) * 3;
            rgb[at..at + 3].copy_from_slice(&[255, 255, 255]);
        }
    }
    assert_eq!(average_hash(&rgb, 16, 16), 1 << 63);
    assert_eq!(average_hash(&vec![7; 16 * 16 * 3], 16, 16), u64::MAX);
}

#[test]
fn frames_without_a_grid_hash_to_zero() {
    assert_eq!(average_hash(&vec![255; 7 * 8 * 3], 7, 8), 0);
    assert_eq!(average_hash(&vec![255; 8 * 7 * 3], 8, 7), 0);
    assert_eq!(average_hash(&vec![255; 8 * 8 * 3 - 1], 8, 8), 0);
    assert_eq!(average_hash(&[], u32::MAX, u32::MAX), 0);
}

fn preview(conversion: Result<Conversion, String>) -> FramePayload {
    match conversion {
        Ok(Conversion::Preview(payload)) => payload,
        Ok(Conversion::Incomplete) => panic!("incomplete"),
        Err(error) => panic!("{error}"),
    }
}

#[test]
fn small_frames_are_published_as_they_are() {
    let mut receiver = CaptureReceiver::new(64, 0);
    let pixels = noise(20 * 10 * 4 + 5);
    let payload = preview(receiver.process_frame(&pixels, 20, 10, false));
    let mut rgb = Vec::new();
    pack_rgba_to_rgb(&pixels[..800], &mut rgb, false);
    assert_eq!(payload.rgb, rgb);
    assert_eq!((payload.width, payload.height), (20, 10));
    assert_eq!((payload.source_width, payload.source_height), (20, 10));
    assert_eq!(payload.hash, average_hash(&rgb, 20, 10));

    let swapped = preview(receiver.process_frame(&pixels, 20, 10, true));
    assert_eq!(swapped.rgb[0], rgb[2]);
}

#[test]
fn large_frames_are_scaled_down() {
    let mut receiver = CaptureReceiver::new(64, 0);
    // A uniform colour stays what it is under any weighted mean.
    let pixels: Vec<u8> = [40, 90, 200, 255].repeat(256 * 128);
    let payload = preview(receiver.process_frame(&pixels, 256, 128, false));
    assert_eq!((payload.width, payload.height), (64, 32));
    assert_eq!(payload.rgb, [40, 90, 200].repeat(64 * 32));
    assert_eq!((payload.source_width, payload.source_height), (256, 128));

    receiver.reclaim(payload.rgb);
    let again = preview(receiver.process_frame(&pixels, 256, 128, true));
    assert_eq!(again.rgb, [200, 90, 40].repeat(64 * 32));
}

#[test]
fn a_downscale_averages_the_source() {
    let mut receiver = CaptureReceiver::new(64, 0);
    // Left half black, right half white.
    let mut pixels = Vec::new();
    for _ in 0..64 {
        for x in 0..128 {
            let value = if x < 64 { 0 } else { 255 };
            pixels.extend_from_slice(&[value, value, value, 255]);
        }
    }
    let payload = preview(receiver.process_frame(&pixels, 128, 64, false));
    assert_eq!((payload.width, payload.height), (64, 32));
    assert_eq!(payload.rgb[3 * 5], 0);
    assert_eq!(payload.rgb[3 * 60], 255);
}

#[test]
fn short_buffers_publish_nothing() {
    let mut receiver = CaptureReceiver::new(64, 0);
    let short = noise(20 * 10 * 4 - 1);
    assert!(matches!(
        receiver.process_frame(&short, 20, 10, false),
        Ok(Conversion::Incomplete)
    ));
    assert!(matches!(
        receiver.process_frame(&short, u32::MAX, u32::MAX, false),
        Ok(Conversion::Incomplete)
    ));
}

#[test]
fn a_frame_without_pixels_is_an_empty_preview() {
    let mut receiver = CaptureReceiver::new(64, 0);
    let payload = preview(receiver.process_frame(&[], 0, 0, false));
    assert_eq!((payload.width, payload.height), (0, 0));
    assert!(payload.rgb.is_empty());
    assert_eq!(payload.hash, 0);
}

#[test]
fn frames_are_paced_by_the_interval() {
    let mut receiver = CaptureReceiver::new(64, 100);
    assert!(receiver.frame_due(1000));
    assert!(!receiver.frame_due(1099));
    assert!(receiver.frame_due(1100));
    assert!(!receiver.frame_due(1000), "a clock that steps back is not due");
    assert!(receiver.frame_due(1200));
    let mut unpaced = CaptureReceiver::new(64, 0);
    assert!(unpaced.frame_due(5) && unpaced.frame_due(5) && unpaced.frame_due(1));
}

fn titles() -> Vec<String> {
    ["Notes", "My GAME - level 3", "game launcher"]
        .iter()
        .map(|title| title.to_string())
        .collect()
}

#[test]
fn the_first_window_that_contains_the_title_is_captured() {
    let pick = |wanted| capture_window_by_title(wanted, false, &titles());
    assert_eq!(pick("game"), Ok(WindowChoice::Listed(1)));
    assert_eq!(pick("LAUNCH"), Ok(WindowChoice::Listed(2)));
    assert_eq!(pick("notes"), Ok(WindowChoice::Listed(0)));
}

#[test]
fn an_exact_title_wins() {
    assert_eq!(
        capture_window_by_title("game", true, &titles()),
        Ok(WindowChoice::Exact)
    );
    assert_eq!(
        capture_window_by_title("closed", true, &Vec::new()),
        Ok(WindowChoice::Exact)
    );
}

#[test]
fn an_unknown_window_lists_the_open_ones() {
    assert_eq!(
        capture_window_by_title("a \"b\"", false, &titles()).unwrap_err(),
        "no window matching \"a \\\"b\\\"\" (open windows: Notes; My GAME - level 3; game launcher)"
    );
    assert_eq!(
        capture_window_by_title("x", false, &Vec::new()).unwrap_err(),
        "no window matching \"x\" (open windows: )"
    );
}

#[test]
fn a_window_title_is_required() {
    assert_eq!(wanted_window("  My Game\t\n").unwrap(), "My Game");
    for empty in ["", " \t ", "\u{3000}\u{A0}"] {
        assert_eq!(
            wanted_window(empty).unwrap_err(),
            "capture.target = \"window\" requires capture.window_name"
        );
    }
}

#[test]
fn previews_are_downscaled_with_the_hamming_filter() {
    use_filter(FilterType::Hamming, false, true);
    use_filter(FilterType::Lanczos3, false, false);
    use_filter(FilterType::Hamming, true, false);
}

/// Compares a preview of noise with what the resampler makes of it.
fn use_filter(filter: FilterType, use_alpha: bool, same: bool) {
    let pixels = noise(160 * 90 * 4);
    let mut receiver = CaptureReceiver::new(64, 0);
    let payload = preview(receiver.process_frame(&pixels, 160, 90, false));
    assert_eq!((payload.width, payload.height), (64, 36));

    let source = ImageRef::new(160, 90, &pixels, PixelType::U8x4).unwrap();
    let mut target = Image::new(64, 36, PixelType::U8x4);
    let options = ResizeOptions::new()
        .resize_alg(ResizeAlg::Convolution(filter))
        .use_alpha(use_alpha);
    Resizer::new().resize(&source, &mut target, &options).unwrap();
    let mut rgb = Vec::new();
    pack_rgba_to_rgb(target.buffer(), &mut rgb, false);
    assert_eq!(payload.rgb == rgb, same);
}
