use led_counter::{
    digit_cells, glyph_pixel, num_to_pixels, palette_color, Rgb, HEIGHT, NUM_DIGITS, WIDTH,
};

const BLACK: Rgb = Rgb { r: 0, g: 0, b: 0 };

fn glyph_on(digit: usize, row: usize, col: usize) -> bool {
    glyph_pixel(digit, row, col)
}

/// Checks that cell `cell` of `frame` shows `digit` (or is blank for `None`).
fn assert_cell(frame: &[Rgb; 256], cell: usize, digit: Option<usize>) {
    let color = palette_color(cell).quarter();
    for row in 0..HEIGHT {
        for col in 0..4 {
            let px = frame[row * WIDTH + cell * 4 + col];
            let expected = match digit {
                Some(d) if glyph_on(d, row, col) => color,
                _ => BLACK,
            };
            assert_eq!(px, expected, "cell {} row {} col {}", cell, row, col);
        }
    }
}

#[test]
fn zero_renders_visible_glyph() {
    let frame = num_to_pixels(0);
    assert!(frame.iter().any(|p| *p != BLACK));
    for cell in 0..7 {
        assert_cell(&frame, cell, None);
    }
    assert_cell(&frame, 7, Some(0));
    // Row 0 of "0" is 0b0110: columns 29 and 30 lit in red at quarter brightness.
    assert_eq!(frame[29], Rgb { r: 63, g: 0, b: 0 });
    assert_eq!(frame[30], Rgb { r: 63, g: 0, b: 0 });
    assert_eq!(frame[28], BLACK);
    assert_eq!(frame[31], BLACK);
}

#[test]
fn eight_digits_fill_every_cell() {
    let frame = num_to_pixels(12_345_678);
    for cell in 0..NUM_DIGITS {
        assert_cell(&frame, cell, Some(cell + 1));
    }
}

#[test]
fn short_numbers_leave_leading_cells_blank() {
    let frame = num_to_pixels(907);
    for cell in 0..5 {
        assert_cell(&frame, cell, None);
    }
    assert_cell(&frame, 5, Some(9));
    assert_cell(&frame, 6, Some(0));
    assert_cell(&frame, 7, Some(7));
}

#[test]
fn oversized_numbers_keep_low_digits() {
    let frame = num_to_pixels(1_234_567_890);
    let expected = [3usize, 4, 5, 6, 7, 8, 9, 0];
    for cell in 0..NUM_DIGITS {
        assert_cell(&frame, cell, Some(expected[cell]));
    }
}

#[test]
fn largest_counter_renders_all_nines() {
    let frame = num_to_pixels(99_999_999);
    for cell in 0..NUM_DIGITS {
        assert_cell(&frame, cell, Some(9));
    }
}

#[test]
fn digit_cells_are_right_aligned() {
    assert_eq!(digit_cells(0), [None, None, None, None, None, None, None, Some(0)]);
    assert_eq!(digit_cells(42), [None, None, None, None, None, None, Some(4), Some(2)]);
    assert_eq!(
        digit_cells(10_000_000),
        [Some(1), Some(0), Some(0), Some(0), Some(0), Some(0), Some(0), Some(0)]
    );
}

#[test]
fn palette_at_quarter_brightness() {
    assert_eq!(palette_color(0).quarter(), Rgb { r: 63, g: 55, b: 0 });
    assert_eq!(palette_color(2).quarter(), Rgb { r: 63, g: 2, b: 25 });
    assert_eq!(palette_color(6).quarter(), Rgb { r: 0, g: 31, b: 0 });
    assert_eq!(palette_color(7).quarter(), Rgb { r: 63, g: 0, b: 0 });
}

#[test]
fn nine_glyph_top_row() {
    // 0b0110: the two middle columns.
    assert!(!glyph_pixel(9, 0, 0));
    assert!(glyph_pixel(9, 0, 1));
    assert!(glyph_pixel(9, 0, 2));
    assert!(!glyph_pixel(9, 0, 3));
}
