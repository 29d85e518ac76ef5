use window_debug::font::FontError;
use window_debug::font::FontGlyph;
use window_debug::font::GLYPH_ASCENT;
use window_debug::font::GLYPH_BASELINE;
use window_debug::font::GLYPH_HEIGHT;
use window_debug::font::GLYPH_WIDTH;
use window_debug::font::LETTER_F;
use window_debug::font::NUM_0;
use window_debug::font::NUM_1;
use window_debug::font::NUM_2;
use window_debug::font::NUM_3;
use window_debug::font::NUM_4;
use window_debug::font::NUM_5;
use window_debug::font::NUM_6;
use window_debug::font::NUM_7;
use window_debug::font::NUM_8;
use window_debug::font::NUM_9;

fn authored_bit(rows: &[u8; 10], x: isize, y: isize) -> bool {
    if x < 0 || y < 2 || x >= 8 || y >= 12 {
        return false;
    }
    (rows[(y - 2) as usize] >> (7 - x)) & 1 == 1
}

fn assert_glyph_matches(ch: char, rows: &[u8; 10]) {
    let glyph = FontGlyph::map_char(ch).unwrap();
    for y in -3..20 {
        for x in -3..12 {
            assert_eq!(glyph.covers(x, y), authored_bit(rows, x, y), "{} at ({}, {})", ch, x, y);
        }
    }
}

#[test]
fn glyph_cell_metrics() {
    assert_eq!(GLYPH_WIDTH, 8);
    assert_eq!(GLYPH_HEIGHT, 16);
    assert_eq!(GLYPH_BASELINE, 12);
    assert_eq!(GLYPH_ASCENT, 2);
}

#[test]
fn zero_glyph_has_ink_in_its_first_row() {
    let glyph = FontGlyph::map_char('0').unwrap();
    assert!(glyph.covers(1, 2));
    assert!(!glyph.covers(0, 0));
}

#[test]
fn letter_a_is_not_in_the_font() {
    assert_eq!(FontGlyph::map_char('A'), Err(FontError::UnsupportedGlyph('A')));
}

#[test]
fn characters_outside_the_font_are_named_in_the_error() {
    for ch in [' ', 'x', 'f', '/', ':', 'G', 'E', '\n', '٣', '-'] {
        assert_eq!(FontGlyph::map_char(ch), Err(FontError::UnsupportedGlyph(ch)));
    }
}

#[test]
fn every_digit_shows_its_authored_rows() {
    assert_glyph_matches('0', &NUM_0);
    assert_glyph_matches('1', &NUM_1);
    assert_glyph_matches('2', &NUM_2);
    assert_glyph_matches('3', &NUM_3);
    assert_glyph_matches('4', &NUM_4);
    assert_glyph_matches('5', &NUM_5);
    assert_glyph_matches('6', &NUM_6);
    assert_glyph_matches('7', &NUM_7);
    assert_glyph_matches('8', &NUM_8);
    assert_glyph_matches('9', &NUM_9);
}

#[test]
fn focus_indicator_shows_its_authored_rows() {
    assert_glyph_matches('F', &LETTER_F);
}

#[test]
fn new_reads_each_row_most_significant_bit_first() {
    let mut rows = [0u8; 16];
    for (y, row) in rows.iter_mut().enumerate() {
        *row = (y as u8).wrapping_mul(37).wrapping_add(0x81);
    }
    let glyph = FontGlyph::new(rows);
    for y in 0..16isize {
        for x in 0..8isize {
            let bit = (rows[y as usize] >> (7 - x)) & 1 == 1;
            assert_eq!(glyph.covers(x, y), bit, "({}, {})", x, y);
        }
    }
}

#[test]
fn new_keeps_single_corner_bits_apart() {
    let mut rows = [0u8; 16];
    rows[0] = 0b1000_0000;
    rows[15] = 0b0000_0001;
    let glyph = FontGlyph::new(rows);
    assert!(glyph.covers(0, 0));
    assert!(glyph.covers(7, 15));
    assert!(!glyph.covers(7, 0));
    assert!(!glyph.covers(0, 15));
    assert!(!glyph.covers(1, 0));
}

#[test]
fn cells_outside_the_grid_are_blank() {
    let glyph = FontGlyph::new([0xFF; 16]);
    for y in 0..16 {
        for x in 0..8 {
            assert!(glyph.covers(x, y));
        }
    }
    assert!(!glyph.covers(-1, 0));
    assert!(!glyph.covers(0, -1));
    assert!(!glyph.covers(8, 0));
    assert!(!glyph.covers(0, 16));
    assert!(!glyph.covers(isize::MIN, isize::MIN));
    assert!(!glyph.covers(isize::MAX, isize::MAX));
    assert!(!glyph.covers(isize::MAX, 3));
    assert!(!glyph.covers(3, isize::MIN));
}

#[test]
fn x_height_rows_are_padded_above_and_below() {
    let lines = [1u8, 2, 3, 4, 5, 6, 7, 8, 9, 10];
    let padded = FontGlyph::new_fit_xheight(lines);
    let whole = FontGlyph::new([0, 0, 1, 2, 3, 4, 5, 6, 7, 8, 9, 10, 0, 0, 0, 0]);
    assert_eq!(padded, whole);
}

#[test]
fn equal_rows_make_equal_glyphs() {
    assert_eq!(FontGlyph::map_char('8').unwrap(), FontGlyph::new_fit_xheight(NUM_8));
    assert_ne!(FontGlyph::map_char('8').unwrap(), FontGlyph::map_char('9').unwrap());
}

#[test]
fn glyph_text_draws_each_row_in_binary() {
    let glyph = FontGlyph::map_char('1').unwrap();
    let expected = "\n00000000\n00000000\n00011000\n01111000\n00011000\n00011000\n00011000\n00011000\n00011000\n00011000\n00011000\n01111110\n00000000\n00000000\n00000000\n00000000\n";
    assert_eq!(glyph.to_text(), expected);
}

#[test]
fn glyph_text_of_a_blank_glyph() {
    let glyph = FontGlyph::new([0; 16]);
    let mut expected = String::from("\n");
    for _ in 0..16 {
        expected.push_str("00000000\n");
    }
    assert_eq!(glyph.to_text(), expected);
}
