use lumaway::capture::{
    average_rgb_bytes, average_rgb_horizontal_bands, average_rgb_horizontal_bands_sampled,
    average_rgb_region, average_rgb_sample_window, detect_black_bar_counts, point_sample_radius,
    sampling_grid_for, validate_frame_len, BlackBars, CaptureProfile, PixelLayout, RgbAverage,
};
use lumaway::error::CoreError;

fn message(error: CoreError) -> String {
    error.message()
}

#[test]
fn averages_rgb_bytes() {
    let average = average_rgb_bytes(&[255, 0, 0, 0, 255, 0, 0, 0, 255]).unwrap();
    assert_eq!(average, RgbAverage { red: 85, green: 85, blue: 85 });
}

#[test]
fn rejects_empty_rgb_buffer() {
    assert!(average_rgb_bytes(&[]).is_err());
    assert!(average_rgb_bytes(&[1, 2]).is_err());
}

#[test]
fn averages_horizontal_rgb_bands() {
    let bytes = [
        255, 0, 0, 255, 0, 0, 0, 0, 255, 0, 0, 255, // row 1
        255, 0, 0, 255, 0, 0, 0, 0, 255, 0, 0, 255, // row 2
    ];

    let averages = average_rgb_horizontal_bands(&bytes, 4, 2, 2, PixelLayout::rgb()).unwrap();

    assert_eq!(
        averages,
        vec![
            RgbAverage { red: 255, green: 0, blue: 0 },
            RgbAverage { red: 0, green: 0, blue: 255 }
        ]
    );
}

#[test]
fn rejects_too_small_rgb_frame_for_bands() {
    assert!(average_rgb_horizontal_bands(&[255, 0, 0], 2, 1, 1, PixelLayout::rgb()).is_err());
    assert_eq!(
        message(average_rgb_horizontal_bands(&[255, 0, 0], 2, 1, 1, PixelLayout::rgb()).unwrap_err()),
        "GStreamer error: RGB frame too small: got 3 bytes, expected at least 6"
    );
    assert_eq!(
        message(average_rgb_horizontal_bands(&[], 0, 1, 1, PixelLayout::rgb()).unwrap_err()),
        "GStreamer error: invalid RGB bands request: 0x1, bands=1"
    );
}

#[test]
fn more_bands_than_columns_are_refused() {
    assert_eq!(
        message(average_rgb_horizontal_bands(&[1, 2, 3], 1, 1, 2, PixelLayout::rgb()).unwrap_err()),
        "GStreamer error: invalid RGB region: start_x=0, end_x=0, width=1"
    );
}

#[test]
fn averages_bgrx_horizontal_bands() {
    let layout = PixelLayout::from_format("BGRx").unwrap();
    let bytes = [0, 0, 255, 0, 0, 0, 255, 0, 255, 0, 0, 0, 255, 0, 0, 0];

    let averages = average_rgb_horizontal_bands(&bytes, 4, 1, 2, layout).unwrap();

    assert_eq!(
        averages,
        vec![
            RgbAverage { red: 255, green: 0, blue: 0 },
            RgbAverage { red: 0, green: 0, blue: 255 }
        ]
    );
}

#[test]
fn pixel_layouts_by_format() {
    assert_eq!(
        PixelLayout::from_format("ABGR").unwrap(),
        PixelLayout { bytes_per_pixel: 4, red_offset: 3, green_offset: 2, blue_offset: 1 }
    );
    assert_eq!(
        message(PixelLayout::from_format("NV12").unwrap_err()),
        "GStreamer error: unsupported sample format: NV12"
    );
}

#[test]
fn sampled_horizontal_bands_use_requested_grid() {
    let bytes = [
        255, 0, 0, 10, 0, 0, 0, 0, 255, 0, 0, 10, // row 1
        255, 0, 0, 10, 0, 0, 0, 0, 255, 0, 0, 10, // row 2
        255, 0, 0, 10, 0, 0, 0, 0, 255, 0, 0, 10, // row 3
        255, 0, 0, 10, 0, 0, 0, 0, 255, 0, 0, 10, // row 4
    ];

    let averages =
        average_rgb_horizontal_bands_sampled(&bytes, 4, 4, 2, PixelLayout::rgb(), 2, 2).unwrap();

    assert_eq!(
        averages,
        vec![
            RgbAverage { red: 255, green: 0, blue: 0 },
            RgbAverage { red: 0, green: 0, blue: 255 }
        ]
    );
}

#[test]
fn sampled_horizontal_bands_reject_invalid_sample_grid() {
    assert!(average_rgb_horizontal_bands_sampled(&[255, 0, 0], 1, 1, 1, PixelLayout::rgb(), 0, 1).is_err());
}

#[test]
fn sampled_bands_widen_grid_to_band_count() {
    let bytes = [10, 20, 30, 50, 60, 70];
    let averages =
        average_rgb_horizontal_bands_sampled(&bytes, 2, 1, 3, PixelLayout::rgb(), 1, 1).unwrap();
    assert_eq!(averages.len(), 3);
    assert_eq!(averages[0], RgbAverage { red: 10, green: 20, blue: 30 });
    assert_eq!(averages[2], RgbAverage { red: 50, green: 60, blue: 70 });
}

#[test]
fn averages_sample_points_on_grid() {
    let bytes = [
        255, 0, 0, 255, 0, 0, 0, 255, 0, 0, 255, 0, // row 1
        255, 0, 0, 255, 0, 0, 0, 255, 0, 0, 255, 0, // row 2
        0, 0, 255, 0, 0, 255, 255, 255, 255, 255, 255, 255, // row 3
        0, 0, 255, 0, 0, 255, 255, 255, 255, 255, 255, 255, // row 4
    ];
    let (sw, sh) = sampling_grid_for(&bytes, 4, 4, PixelLayout::rgb(), 4, 4, "points").unwrap();
    let (rx, ry) = point_sample_radius(sw, sh);
    assert_eq!((rx, ry), (1, 1));
    // The points (0.0, 0.0) and (1.0, 1.0) land on samples (0, 0) and (3, 3).
    let first = average_rgb_sample_window(&bytes, 4, 4, PixelLayout::rgb(), sw, sh, 0, 0, rx, ry);
    let last = average_rgb_sample_window(&bytes, 4, 4, PixelLayout::rgb(), sw, sh, 3, 3, rx, ry);
    assert_eq!(first, RgbAverage { red: 255, green: 0, blue: 0 });
    assert_eq!(last, RgbAverage { red: 255, green: 255, blue: 255 });
}

#[test]
fn sampling_grid_is_clamped_and_checked() {
    assert_eq!(sampling_grid_for(&[0; 12], 2, 2, PixelLayout::rgb(), 9, 1, "regions").unwrap(), (2, 1));
    assert_eq!(
        message(sampling_grid_for(&[0; 12], 2, 2, PixelLayout::rgb(), 0, 1, "regions").unwrap_err()),
        "GStreamer error: invalid sampled RGB regions request: 2x2, sample=0x1"
    );
}

#[test]
fn region_average_over_columns() {
    let bytes = [0, 0, 0, 100, 100, 100, 200, 200, 200, 0, 0, 0, 50, 50, 50, 100, 100, 100];
    assert_eq!(
        average_rgb_region(&bytes, 3, 2, 1, 3, PixelLayout::rgb()).unwrap(),
        RgbAverage { red: 112, green: 112, blue: 112 }
    );
    assert!(average_rgb_region(&bytes, 3, 2, 2, 2, PixelLayout::rgb()).is_err());
    assert!(validate_frame_len(&bytes, 3, 2, PixelLayout::rgb()).is_ok());
    assert!(validate_frame_len(&bytes, usize::MAX, 2, PixelLayout::rgb()).is_err());
}

#[test]
fn detects_black_bars_on_all_edges() {
    let mut bytes = vec![0u8; 6 * 6 * 3];
    for y in 1..5 {
        for x in 1..5 {
            let offset = (y * 6 + x) * 3;
            bytes[offset] = 255;
            bytes[offset + 1] = 255;
            bytes[offset + 2] = 255;
        }
    }

    let bars = detect_black_bar_counts(&bytes, 6, 6, PixelLayout::rgb(), 6, 6, 8).unwrap();
    assert_eq!(
        bars,
        BlackBars { left: 1, right: 1, top: 1, bottom: 1, sample_width: 6, sample_height: 6 }
    );
}

#[test]
fn black_bar_detection_ignores_dark_content_inside_bright_edges() {
    let mut bytes = vec![255u8; 5 * 5 * 3];
    let center = (2 * 5 + 2) * 3;
    bytes[center] = 0;
    bytes[center + 1] = 0;
    bytes[center + 2] = 0;

    let bars = detect_black_bar_counts(&bytes, 5, 5, PixelLayout::rgb(), 5, 5, 8).unwrap();
    assert_eq!((bars.left, bars.right, bars.top, bars.bottom), (0, 0, 0, 0));
}

#[test]
fn black_bar_detection_ignores_fully_dark_frame() {
    let bytes = vec![0u8; 5 * 5 * 3];

    let bars = detect_black_bar_counts(&bytes, 5, 5, PixelLayout::rgb(), 5, 5, 8).unwrap();
    assert_eq!((bars.left, bars.right, bars.top, bars.bottom), (0, 0, 0, 0));
}

#[test]
fn capture_profiles_must_be_positive() {
    assert_eq!(CaptureProfile::new(120, 68, 8).unwrap().point_sample_radius(), (5, 4));
    assert_eq!(
        message(CaptureProfile::new(0, -1, 8).unwrap_err()),
        "GStreamer error: invalid capture profile: 0x-1@8"
    );
}
