use hex_assistant_app::capture::{
    analyze_rgba_pixels, bytes_to_hex, capture_samples_dir, is_stale_frame, luma_from_rgb, select_monitor_index,
};

#[test]
fn detects_stale_frame_by_hash() {
    assert!(is_stale_frame(Some("abc"), "abc"));
    assert!(!is_stale_frame(Some("abc"), "def"));
    assert!(!is_stale_frame(None, "abc"));
}

#[test]
fn builds_capture_samples_dir_under_captures() {
    let path = capture_samples_dir("/tmp/hex-app");

    assert!(path.ends_with("captures/samples"));
    assert_eq!(path, "/tmp/hex-app/captures/samples");
}

#[test]
fn analyzes_black_frame() {
    let raw = vec![0u8; 4 * 4 * 4];

    let stats = analyze_rgba_pixels(&raw, 4, 4).expect("a black frame is analysed");

    assert_eq!(stats.min_luma, 0);
    assert_eq!(stats.max_luma, 0);
    let mean_luma = stats.luma_sum as f64 / stats.pixel_count as f64;
    let bright_ratio = stats.bright_pixels as f64 / stats.pixel_count as f64;
    assert!(mean_luma <= 3.0 && bright_ratio <= 0.001);
    assert_eq!(stats.luma_sum, 0);
    assert_eq!(stats.bright_pixels, 0);
    assert_eq!(stats.pixel_count, 16);
    assert_eq!(stats.frame_hash.len(), 64);
}

#[test]
fn analyzes_visible_frame() {
    let image = image::RgbaImage::from_fn(2, 2, |x, y| {
        if x == y {
            image::Rgba([255, 255, 255, 255])
        } else {
            image::Rgba([0, 0, 0, 255])
        }
    });

    let stats = analyze_rgba_pixels(image.as_raw(), 2, 2).expect("a visible frame is analysed");
    let mean_luma = stats.luma_sum as f64 / stats.pixel_count as f64;
    let bright_ratio = stats.bright_pixels as f64 / stats.pixel_count as f64;
    assert!(!(mean_luma <= 3.0 && bright_ratio <= 0.001));
    assert_eq!(bright_ratio, 0.5);

    assert_eq!(stats.max_luma, 255);
    assert_eq!(stats.min_luma, 0);
    assert_eq!(stats.bright_pixels, 2);
    assert_eq!(stats.luma_sum, 510);
}

#[test]
fn rejects_wrong_rgba_length() {
    let error = analyze_rgba_pixels(&[0, 0, 0], 1, 1).expect_err("a short frame is refused");

    assert!(error.contains("RGBA 数据长度不匹配"));
    assert_eq!(error, "RGBA 数据长度不匹配: 期望 4 字节，实际 3 字节");
    assert_eq!(analyze_rgba_pixels(&[], 0, 5).unwrap_err(), "截图尺寸不能为 0");
}

#[test]
fn frame_hash_depends_on_size_and_pixels() {
    let raw = vec![10u8; 16];
    let a = analyze_rgba_pixels(&raw, 2, 2).unwrap();
    let b = analyze_rgba_pixels(&raw, 4, 1).unwrap();
    assert_ne!(a.frame_hash, b.frame_hash);
    assert_eq!(a.frame_hash, analyze_rgba_pixels(&raw, 2, 2).unwrap().frame_hash);
}

#[test]
fn luma_and_hex_formulas() {
    assert_eq!(luma_from_rgb(255, 255, 255), 255);
    assert_eq!(luma_from_rgb(100, 0, 0), 30);
    assert_eq!(luma_from_rgb(0, 0, 0), 0);
    assert_eq!(bytes_to_hex(&[0x00, 0x0f, 0xab, 0xff]), "000fabff");
}

#[test]
fn selects_preferred_then_primary_then_first_monitor() {
    let monitors = vec![(7u32, false), (9u32, true), (11u32, true)];
    assert_eq!(select_monitor_index(&monitors, Some(11)), Ok(2));
    assert_eq!(select_monitor_index(&monitors, None), Ok(1));
    assert_eq!(select_monitor_index(&vec![(7u32, false), (8u32, false)], None), Ok(0));
    assert_eq!(select_monitor_index(&monitors, Some(3)), Err("未找到指定显示器 ID 3".to_string()));
    assert_eq!(select_monitor_index(&vec![], None), Err("未发现可截图的显示器".to_string()));
}
