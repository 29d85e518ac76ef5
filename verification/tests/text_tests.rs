use window_debug::font::FontError;
use window_debug::font::FontGlyph;
use window_debug::text::TextLine;
use window_debug::text::WorldFontGlyph;

fn full_glyph() -> FontGlyph {
    FontGlyph::new([0xFF; 16])
}

#[test]
fn placed_glyph_refuses_zero_scale() {
    assert_eq!(WorldFontGlyph::new([0, 0], 0, full_glyph()).err(), Some(FontError::InvalidScale));
}

#[test]
fn placed_glyph_refuses_negative_scale() {
    assert_eq!(WorldFontGlyph::new([0, 0], -1, full_glyph()).err(), Some(FontError::InvalidScale));
    assert_eq!(
        WorldFontGlyph::new([5, 5], isize::MIN, full_glyph()).err(),
        Some(FontError::InvalidScale)
    );
}

#[test]
fn placed_glyph_keeps_what_it_was_given() {
    let glyph = FontGlyph::map_char('7').unwrap();
    let placed = WorldFontGlyph::new([-3, 9], 4, glyph).unwrap();
    assert_eq!(placed.position(), [-3, 9]);
    assert_eq!(placed.scale(), 4);
    assert_eq!(placed.glyph(), glyph);
}

#[test]
fn placed_glyph_never_covers_left_of_or_above_its_origin() {
    for scale in [1isize, 2, 3, 4, 7, 64, isize::MAX] {
        for origin in [[0isize, 0isize], [10, 20], [-5, -7], [isize::MIN + 1, isize::MIN + 1]] {
            let placed = WorldFontGlyph::new(origin, scale, full_glyph()).unwrap();
            assert!(!placed.covers(origin[0] - 1, origin[1]), "scale {}", scale);
            assert!(!placed.covers(origin[0], origin[1] - 1), "scale {}", scale);
            assert!(placed.covers(origin[0], origin[1]), "scale {}", scale);
        }
    }
}

#[test]
fn placed_glyph_at_the_least_origin() {
    let placed = WorldFontGlyph::new([isize::MIN, isize::MIN], 1, full_glyph()).unwrap();
    assert!(placed.covers(isize::MIN, isize::MIN));
    assert!(placed.covers(isize::MIN + 7, isize::MIN + 15));
    assert!(!placed.covers(isize::MIN + 8, isize::MIN));
    assert!(!placed.covers(isize::MAX, isize::MAX));
    assert!(!placed.covers(0, 0));
}

#[test]
fn placed_glyph_far_from_the_pixel_does_not_overflow() {
    let placed = WorldFontGlyph::new([isize::MAX, isize::MAX], 1, full_glyph()).unwrap();
    assert!(!placed.covers(isize::MIN, isize::MIN));
    assert!(placed.covers(isize::MAX, isize::MAX));
}

#[test]
fn placed_glyph_scales_each_cell_to_a_square() {
    let glyph = FontGlyph::map_char('0').unwrap();
    let placed = WorldFontGlyph::new([100, 50], 3, glyph).unwrap();
    for y in 40..110 {
        for x in 90..140 {
            let rx = x - 100;
            let ry = y - 50;
            let expected = rx >= 0 && ry >= 0 && glyph.covers(rx / 3, ry / 3);
            assert_eq!(placed.covers(x, y), expected, "({}, {})", x, y);
        }
    }
    assert!(placed.covers(100 + 3, 50 + 6));
    assert!(placed.covers(100 + 5, 50 + 8));
    assert!(!placed.covers(100 + 2, 50 + 6));
    assert!(!placed.covers(100 + 24, 50 + 6));
}

#[test]
fn line_of_two_digits_has_a_box_of_two_cells() {
    let line = TextLine::new("42", [0, 0], 1).unwrap();
    assert_eq!(line.bounding_box(), [0, 16, 0, 16]);
    assert_eq!(line.len(), 2);
}

#[test]
fn line_box_grows_with_length_and_scale() {
    let line = TextLine::new("123", [10, -4], 3).unwrap();
    let bounds = line.bounding_box();
    assert_eq!(bounds, [10, 82, -4, 44]);
    assert_eq!(bounds[1] - bounds[0], 3 * 8 * 3);
    assert_eq!(bounds[3] - bounds[2], 16 * 3);
}

#[test]
fn line_places_its_glyphs_one_advance_apart() {
    let line = TextLine::new("907", [5, 6], 2).unwrap();
    for (i, ch) in ['9', '0', '7'].iter().enumerate() {
        let placed = line.glyph_at(i).unwrap();
        assert_eq!(placed.position(), [5 + (i as isize) * 16, 6]);
        assert_eq!(placed.scale(), 2);
        assert_eq!(placed.glyph(), FontGlyph::map_char(*ch).unwrap());
    }
    assert!(line.glyph_at(3).is_none());
}

#[test]
fn line_covers_what_its_glyphs_cover() {
    let line = TextLine::new("42", [3, 4], 2).unwrap();
    let four = WorldFontGlyph::new([3, 4], 2, FontGlyph::map_char('4').unwrap()).unwrap();
    let two = WorldFontGlyph::new([19, 4], 2, FontGlyph::map_char('2').unwrap()).unwrap();
    let mut inked = 0;
    for y in -2..45 {
        for x in -2..45 {
            let expected = four.covers(x, y) || two.covers(x, y);
            assert_eq!(line.covers(x, y), expected, "({}, {})", x, y);
            if expected {
                inked += 1;
            }
        }
    }
    assert!(inked > 0);
}

#[test]
fn line_from_the_empty_string_covers_nothing() {
    let line = TextLine::new("", [0, 0], 4).unwrap();
    assert_eq!(line.len(), 0);
    assert_eq!(line.bounding_box(), [0, 0, 0, 64]);
    for y in -5..70 {
        for x in -5..70 {
            assert!(!line.covers(x, y));
        }
    }
}

#[test]
fn empty_line_covers_nothing() {
    let line = TextLine::empty();
    assert_eq!(line.len(), 0);
    for y in -3..20 {
        for x in -3..20 {
            assert!(!line.covers(x, y));
        }
    }
}

#[test]
fn line_refuses_zero_and_negative_scale() {
    assert_eq!(TextLine::new("12", [0, 0], 0).err(), Some(FontError::InvalidScale));
    assert_eq!(TextLine::new("12", [0, 0], -2).err(), Some(FontError::InvalidScale));
    assert_eq!(TextLine::new("", [0, 0], 0).err(), Some(FontError::InvalidScale));
}

#[test]
fn line_refuses_the_scale_before_the_text() {
    assert_eq!(TextLine::new("1x", [0, 0], 0).err(), Some(FontError::InvalidScale));
}

#[test]
fn line_names_the_leftmost_unsupported_character() {
    assert_eq!(TextLine::new("12x4y", [0, 0], 1).err(), Some(FontError::UnsupportedGlyph('x')));
    assert_eq!(TextLine::new("300x200", [0, 0], 2).err(), Some(FontError::UnsupportedGlyph('x')));
    assert_eq!(TextLine::new(" 1", [0, 0], 2).err(), Some(FontError::UnsupportedGlyph(' ')));
}

#[test]
fn line_draws_the_focus_indicator() {
    let line = TextLine::new("F", [4, 2], 2).unwrap();
    assert_eq!(line.bounding_box(), [4, 20, 2, 34]);
    assert!(line.covers(4, 6));
    assert!(!line.covers(4, 2));
    assert!(!line.covers(3, 6));
}

#[test]
fn line_at_the_edge_of_the_coordinate_range() {
    let line = TextLine::new("8", [isize::MAX - 8, isize::MAX - 16], 1).unwrap();
    assert_eq!(line.bounding_box(), [isize::MAX - 8, isize::MAX, isize::MAX - 16, isize::MAX]);
    assert!(!line.covers(isize::MIN, isize::MIN));
    assert!(line.covers(isize::MAX - 7, isize::MAX - 13));
    assert!(!line.covers(isize::MAX - 6, isize::MAX - 13));
}
