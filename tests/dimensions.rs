use eqrender::{
    parse_page_geometry, parse_point_micros, resolve_dimensions, round_div, PageGeometry,
    TargetDimensions,
};

fn geometry(w: u64, h: u64) -> PageGeometry {
    PageGeometry { width_micros: w * 1_000_000, height_micros: h * 1_000_000 }
}

fn dims(width: u32, height: u32) -> TargetDimensions {
    TargetDimensions { width, height }
}

#[test]
fn no_overrides_maps_points_to_pixels() {
    assert_eq!(resolve_dimensions(&geometry(200, 100), None, None), dims(200, 100));
}

#[test]
fn height_override_keeps_aspect() {
    assert_eq!(resolve_dimensions(&geometry(200, 100), None, Some(50)), dims(100, 50));
}

#[test]
fn width_override_keeps_aspect() {
    assert_eq!(resolve_dimensions(&geometry(200, 100), Some(50), None), dims(50, 25));
}

#[test]
fn both_overrides_win_exactly() {
    assert_eq!(resolve_dimensions(&geometry(200, 100), Some(60), Some(90)), dims(60, 90));
    assert_eq!(resolve_dimensions(&geometry(7, 3), Some(60), Some(90)), dims(60, 90));
}

#[test]
fn rounding_is_half_away_from_zero() {
    // 3 * 1.5 / 1 = 4.5 rounds to 5
    let g = PageGeometry { width_micros: 1_500_000, height_micros: 1_000_000 };
    assert_eq!(resolve_dimensions(&g, None, Some(3)), dims(5, 3));
    // 12.4 x 7.5 points without overrides
    let g = PageGeometry { width_micros: 12_400_000, height_micros: 7_500_000 };
    assert_eq!(resolve_dimensions(&g, None, None), dims(12, 8));
}

#[test]
fn tiny_page_clamps_to_one_pixel() {
    let g = PageGeometry { width_micros: 200_000, height_micros: 300_000 };
    assert_eq!(resolve_dimensions(&g, None, None), dims(1, 1));
    let g = PageGeometry { width_micros: 1_000_000, height_micros: 1_000_000_000 };
    assert_eq!(resolve_dimensions(&g, Some(10), None), dims(10, 10_000));
    assert_eq!(resolve_dimensions(&g, None, Some(10)), dims(1, 10));
}

#[test]
fn huge_ratio_saturates() {
    let g = PageGeometry { width_micros: 999_999_999_999_999, height_micros: 1 };
    assert_eq!(resolve_dimensions(&g, None, Some(u32::MAX)), dims(u32::MAX, u32::MAX));
}

#[test]
fn round_div_values() {
    assert_eq!(round_div(5, 2), 3);
    assert_eq!(round_div(4, 3), 1);
    assert_eq!(round_div(7, 2), 4);
    assert_eq!(round_div(0, 9), 0);
    assert_eq!(round_div(10, 5), 2);
}

#[test]
fn point_measures() {
    assert_eq!(parse_point_micros(&b"612".to_vec()), Some(612_000_000));
    assert_eq!(parse_point_micros(&b"12.951".to_vec()), Some(12_951_000));
    assert_eq!(parse_point_micros(&b"0.5".to_vec()), Some(500_000));
    assert_eq!(parse_point_micros(&b".25".to_vec()), Some(250_000));
    assert_eq!(parse_point_micros(&b"3.".to_vec()), Some(3_000_000));
    assert_eq!(parse_point_micros(&b"1.123456".to_vec()), Some(1_123_456));
    assert_eq!(parse_point_micros(&b"999999999.999999".to_vec()), Some(999_999_999_999_999));
}

#[test]
fn point_measures_rejected() {
    assert_eq!(parse_point_micros(&b"".to_vec()), None);
    assert_eq!(parse_point_micros(&b".".to_vec()), None);
    assert_eq!(parse_point_micros(&b"x".to_vec()), None);
    assert_eq!(parse_point_micros(&b"1.2.3".to_vec()), None);
    assert_eq!(parse_point_micros(&b"1.1234567".to_vec()), None);
    assert_eq!(parse_point_micros(&b"1234567890".to_vec()), None);
    assert_eq!(parse_point_micros(&b"-3".to_vec()), None);
}

#[test]
fn page_geometry_from_report() {
    let report = b"Producer:       pdfTeX-1.40.25\nPages:          1\nPage size:      12.951 x 11.955 pts\nPage rot:       0\n".to_vec();
    assert_eq!(
        parse_page_geometry(&report),
        Some(PageGeometry { width_micros: 12_951_000, height_micros: 11_955_000 })
    );
}

#[test]
fn page_geometry_first_marker_line_wins() {
    let report = b"Page size: 200 x 100 pts (letter)\r\nPage size: 1 x 1 pts\n".to_vec();
    assert_eq!(parse_page_geometry(&report), Some(geometry(200, 100)));
}

#[test]
fn page_geometry_marker_must_open_the_line() {
    let report = b"Title: Page size: 5 x 5\n".to_vec();
    assert_eq!(parse_page_geometry(&report), None);
}

#[test]
fn page_geometry_missing_or_bad() {
    assert_eq!(parse_page_geometry(&b"Pages: 1\n".to_vec()), None);
    assert_eq!(parse_page_geometry(&b"".to_vec()), None);
    assert_eq!(parse_page_geometry(&b"Page size: wide x tall\n".to_vec()), None);
    assert_eq!(parse_page_geometry(&b"Page size: 12 x\n3\n".to_vec()), None);
    assert_eq!(parse_page_geometry(&b"Page size: 0 x 10 pts\n".to_vec()), None);
}
