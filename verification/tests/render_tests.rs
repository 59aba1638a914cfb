use sup_linux::ascii::AsciiRenderer;
use sup_linux::quality::luma_region_stats;
use sup_linux::text::u32_to_string;

#[test]
fn decimal_rendering() {
    assert_eq!(u32_to_string(0), "0");
    assert_eq!(u32_to_string(7), "7");
    assert_eq!(u32_to_string(42), "42");
    assert_eq!(u32_to_string(1000), "1000");
    assert_eq!(u32_to_string(u32::MAX), "4294967295");
}

#[test]
fn renderer_sizes_from_terminal() {
    let r = AsciiRenderer::from_terminal_size(None, None, 120, 40);
    assert_eq!((r.width, r.height), (40, 15));
    let r = AsciiRenderer::from_terminal_size(None, None, 60, 20);
    assert_eq!((r.width, r.height), (30, 7));
    let r = AsciiRenderer::from_terminal_size(Some(64), Some(20), 120, 40);
    assert_eq!((r.width, r.height), (64, 20));
    assert_eq!(r.height(), 20);
    let r = AsciiRenderer::from_terminal_size(None, None, 9, 3);
    assert_eq!((r.width, r.height), (4, 0));
}

#[test]
fn progress_bar_fills_by_capture() {
    let r = AsciiRenderer { width: 10, height: 4 };
    assert_eq!(r.create_progress_bar(0), "[□□□□□]");
    assert_eq!(r.create_progress_bar(2), "[■■□□□]");
    assert_eq!(r.create_progress_bar(5), "[■■■■■]");
    assert_eq!(r.create_progress_bar(9), "[■■■■■]");
}

#[test]
fn grid_starts_blank_and_joins_with_crlf() {
    let r = AsciiRenderer { width: 3, height: 2 };
    let g = r.new_grid();
    assert_eq!(g.len(), 2);
    assert!(g.iter().all(|row| row.len() == 3 && row.iter().all(|c| *c == ' ')));
    assert_eq!(r.grid_to_string(&g), "   \r\n   ");
}

#[test]
fn text_overlays_centered_and_clipped() {
    let r = AsciiRenderer { width: 5, height: 2 };
    let mut g = r.new_grid();
    let text: Vec<char> = "ab".chars().collect();
    r.overlay_text(&mut g, &text, 2, 0);
    assert_eq!(r.grid_to_string(&g), " ab  \r\n     ");

    // Text wider than the row is clipped at the edge.
    let mut g = r.new_grid();
    let long: Vec<char> = "abcdefgh".chars().collect();
    r.overlay_text(&mut g, &long, 4, 1);
    assert_eq!(r.grid_to_string(&g), "     \r\nabcde");

    // A row outside the grid leaves it untouched.
    let mut g = r.new_grid();
    r.overlay_text(&mut g, &text, 2, 9);
    assert_eq!(r.grid_to_string(&g), "     \r\n     ");
}

#[test]
fn reports_are_padded_to_a_fixed_box() {
    let lines = vec!["abc".to_string(), "a much longer line".to_string()];
    let padded = sup_linux::ascii::pad_report_lines(&lines, 5, 4);
    assert_eq!(padded, "abc  \na muc\n     \n     ");
}

#[test]
fn region_stats_match_direct_sums() {
    // A 4x3 image with distinct pixel values; the stats over the inner
    // 2x2 region must match sums computed directly.
    let width = 4usize;
    let height = 3usize;
    let gray: Vec<u8> = (0..(width * height) as u8).map(|v| v * 10).collect();
    let (x1, y1, x2, y2) = (1usize, 1usize, 3usize, 3usize);
    let (sum, sum_sq, count) = luma_region_stats(&gray, width, height, x1, y1, x2, y2);
    let mut want_sum = 0u64;
    let mut want_sq = 0u64;
    for y in y1..y2 {
        for x in x1..x2 {
            let p = gray[y * width + x] as u64;
            want_sum += p;
            want_sq += p * p;
        }
    }
    assert_eq!(sum, want_sum);
    assert_eq!(sum_sq, want_sq);
    assert_eq!(count, 4);
}

#[test]
fn region_stats_feed_brightness_and_contrast() {
    // The brightness and contrast formulas work on mean and deviation
    // derived from these integer sums; an all-mid-gray region has the
    // ideal brightness and zero contrast.
    let width = 8usize;
    let height = 8usize;
    let gray: Vec<u8> = vec![128; width * height];
    let (sum, sum_sq, count) = luma_region_stats(&gray, width, height, 0, 0, 8, 8);
    let mean = sum as f32 / count as f32;
    let variance = (sum_sq as f32 / count as f32) - mean * mean;
    let brightness = 1.0 - ((mean - 127.5).abs() / 127.5).min(1.0);
    let contrast = (variance.sqrt() / 64.0).min(1.0);
    assert!(brightness > 0.99);
    assert_eq!(contrast, 0.0);
}

#[test]
fn empty_region_is_empty() {
    let gray: Vec<u8> = vec![1; 16];
    let (sum, sum_sq, count) = luma_region_stats(&gray, 4, 4, 2, 2, 2, 2);
    assert_eq!((sum, sum_sq, count), (0, 0, 0));
}
