//! The frame compositor: the canvas size written into its own corners.

use vstd::prelude::*;
use crate::cli::Color;
use crate::font::GLYPH_ASCENT;
use crate::font::GLYPH_BASELINE;
use crate::font::GLYPH_HEIGHT;
use crate::font::GLYPH_WIDTH;
use crate::font::is_supported;
use crate::numeral::decimal;
use crate::numeral::decimal_text;
use crate::numeral::lemma_decimal_digits;
use crate::numeral::lemma_decimal_len_of_word;
use crate::scale::compute_scale;
use crate::scale::lemma_scale_fits;
use crate::scale::min_bit_length;
use crate::scale::scale_for;
use crate::text::LineLayout;
use crate::text::TextLine;
use crate::text::all_supported;
use crate::text::line_layout;

verus! {

/// The number of glyphs that the scale of the size lines is chosen for:
/// twice the length of the longer of the two numbers.
pub open spec fn size_glyph_count(width: nat, height: nat) -> nat {
    if decimal(width).len() >= decimal(height).len() {
        decimal(width).len() * 2
    } else {
        decimal(height).len() * 2
    }
}

/// The scale of the two size lines on a canvas, chosen with a safety
/// multiplier of two.
pub open spec fn size_scale(width: nat, height: nat) -> nat {
    scale_for(width, height, size_glyph_count(width, height), 2)
}

/// The line that shows the canvas width, in the top-right corner: half a
/// glyph width away from the right edge, its ascent line half an x-height
/// below the top edge.
pub open spec fn width_line(width: nat, height: nat) -> LineLayout {
    let scale = size_scale(width, height) as int;
    line_layout(
        decimal(width),
        width - 4 * scale - 8 * decimal(width).len() * scale,
        5 * scale - 2 * scale,
        scale,
    )
}

/// The line that shows the canvas height, in the bottom-left corner: half
/// a glyph width away from the left edge, its baseline half an x-height
/// above the bottom edge.
pub open spec fn height_line(width: nat, height: nat) -> LineLayout {
    let scale = size_scale(width, height) as int;
    line_layout(decimal(height), 4 * scale, height - 5 * scale - 12 * scale, scale)
}

/// The focus indicator near the top-left corner, at scale two; a line
/// without glyphs while the canvas has no focus.
pub open spec fn focus_line(is_focused: bool) -> LineLayout {
    if is_focused {
        line_layout(seq!['F'], 4, 2, 2)
    } else {
        line_layout(Seq::<char>::empty(), 0, 0, 1)
    }
}

/// Whether the pixel `(x, y)` of a frame is drawn in the foreground colour:
/// one of the three lines covers it.
pub open spec fn frame_covers(width: nat, height: nat, is_focused: bool, x: int, y: int) -> bool {
    ||| focus_line(is_focused).covers(x, y)
    ||| width_line(width, height).covers(x, y)
    ||| height_line(width, height).covers(x, y)
}

/// The place of pixel `(x, y)` in a row-major buffer of rows `width` long.
pub open spec fn pixel_index(width: int, x: int, y: int) -> int {
    y * width + x
}

/// The decimal notation of a number is text that the font can draw.
pub proof fn lemma_decimal_supported(n: nat)
    ensures
        all_supported(decimal(n)),
{
    assert forall|i: int| 0 <= i < decimal(n).len() implies is_supported(
        #[trigger] decimal(n)[i],
    ) by {
        lemma_decimal_digits(n, i);
    }
}

/// Builds the focus indicator line.
pub fn build_focus_line(is_focused: bool) -> (line: TextLine)
    ensures
        line@ == focus_line(is_focused),
{
    if !is_focused {
        return TextLine::empty();
    }
    proof {
        reveal_strlit("F");
        assert("F"@ =~= seq!['F']);
    }
    let base: [isize; 2] = [
        GLYPH_WIDTH as isize / 2,
        GLYPH_HEIGHT as isize / 4 - GLYPH_ASCENT as isize,
    ];
    match TextLine::new("F", base, 2) {
        Ok(line) => line,
        Err(_) => {
            assert(false);
            TextLine::empty()
        },
    }
}

/// Builds the line of the canvas width and the line of the canvas height.
pub fn build_size_lines(size: (usize, usize)) -> (lines: (TextLine, TextLine))
    requires
        size.0 <= isize::MAX,
        size.1 <= isize::MAX,
    ensures
        lines.0@ == width_line(size.0 as nat, size.1 as nat),
        lines.1@ == height_line(size.0 as nat, size.1 as nat),
{
    let width_text = decimal_text(size.0);
    let height_text = decimal_text(size.1);
    let width_glyph_count = width_text.as_str().unicode_len();
    let height_glyph_count = height_text.as_str().unicode_len();
    proof {
        lemma_decimal_len_of_word(size.0);
        lemma_decimal_len_of_word(size.1);
        lemma_decimal_supported(size.0 as nat);
        lemma_decimal_supported(size.1 as nat);
    }
    let longer = if width_glyph_count >= height_glyph_count {
        width_glyph_count
    } else {
        height_glyph_count
    };
    let text_scale = compute_scale(size, longer * 2, 2);
    let ghost count = size_glyph_count(size.0 as nat, size.1 as nat);
    proof {
        lemma_scale_fits(size.0 as nat, size.1 as nat, count, 2);
        if min_bit_length(size.0 as nat, size.1 as nat, count, 2) > 0 {
            assert(text_scale * width_glyph_count <= text_scale * longer) by (nonlinear_arith)
                requires
                    text_scale >= 1,
                    width_glyph_count <= longer,
            ;
            assert(text_scale * height_glyph_count <= text_scale * longer) by (nonlinear_arith)
                requires
                    text_scale >= 1,
                    height_glyph_count <= longer,
            ;
            assert(text_scale * (longer * 32) == 32 * (text_scale * longer)) by (nonlinear_arith);
        }
        assert(height_glyph_count * 8 * text_scale == 8 * (height_glyph_count * text_scale))
            by (nonlinear_arith);
    }
    let half_width: isize = (GLYPH_WIDTH / 2) as isize;
    let half_x_height: isize = (GLYPH_BASELINE - GLYPH_ASCENT) as isize / 2;
    let ascent: isize = GLYPH_ASCENT as isize;
    let baseline: isize = GLYPH_BASELINE as isize;
    let width_cells: isize = (GLYPH_WIDTH * width_glyph_count) as isize;
    proof {
        assert(width_cells * text_scale == 8 * (width_glyph_count * text_scale))
            by (nonlinear_arith)
            requires
                width_cells == 8 * width_glyph_count,
        ;
    }
    let width_text_width: isize = width_cells * text_scale;
    let margin: [isize; 2] = [half_width * text_scale, half_x_height * text_scale];
    let base_width_position: [isize; 2] = [
        size.0 as isize - margin[0] - width_text_width,
        margin[1] - ascent * text_scale,
    ];
    let base_height_position: [isize; 2] = [
        margin[0],
        size.1 as isize - margin[1] - baseline * text_scale,
    ];
    let width_line = match TextLine::new(width_text.as_str(), base_width_position, text_scale) {
        Ok(line) => line,
        Err(_) => {
            assert(false);
            TextLine::empty()
        },
    };
    let height_line = match TextLine::new(height_text.as_str(), base_height_position, text_scale) {
        Ok(line) => line,
        Err(_) => {
            assert(false);
            TextLine::empty()
        },
    };
    (width_line, height_line)
}

/// Pixels of earlier rows stand before the pixels of later rows, and the
/// pixels of a canvas of `height` rows fill a buffer of `width * height`
/// places.
proof fn lemma_pixel_index_order(width: int, height: int, x: int, y: int, other_x: int, other_y: int)
    requires
        0 <= x < width,
        0 <= other_x < width,
        0 <= y < other_y < height,
    ensures
        0 <= pixel_index(width, x, y) < pixel_index(width, other_x, other_y) < width * height,
{
    assert(y * width >= 0 && (y + 1) * width <= other_y * width && (other_y + 1) * width <= height
        * width && (y + 1) * width == y * width + width && (other_y + 1) * width == other_y * width
        + width) by (nonlinear_arith)
        requires
            0 <= y < other_y < height,
            width > 0,
    ;
}

/// Paints a frame into `buffer`, row by row: each pixel that one of the
/// three lines covers gets the foreground colour, every other pixel the
/// background colour.
pub fn update_buffer(buffer: &mut [u32], color: Color, size: (usize, usize), is_focused: bool)
    requires
        old(buffer)@.len() == size.0 * size.1,
        size.0 <= isize::MAX,
        size.1 <= isize::MAX,
    ensures
        final(buffer)@.len() == size.0 * size.1,
        forall|x: int, y: int|
            0 <= x < size.0 && 0 <= y < size.1 ==> final(buffer)@[#[trigger] pixel_index(
                size.0 as int,
                x,
                y,
            )] == if frame_covers(size.0 as nat, size.1 as nat, is_focused, x, y) {
                color.foreground
            } else {
                color.background
            },
{
    let focus = build_focus_line(is_focused);
    let (width_text, height_text) = build_size_lines(size);
    let ghost width = size.0 as int;
    let ghost height = size.1 as int;
    let total: usize = buffer.len();
    let mut y: usize = 0;
    while y < size.1
        invariant
            y <= size.1,
            width == size.0,
            height == size.1,
            size.0 <= isize::MAX,
            size.1 <= isize::MAX,
            buffer@.len() == width * height,
            total == width * height,
            focus@ == focus_line(is_focused),
            width_text@ == width_line(size.0 as nat, size.1 as nat),
            height_text@ == height_line(size.0 as nat, size.1 as nat),
            forall|px: int, py: int|
                0 <= px < width && 0 <= py < y ==> buffer@[#[trigger] pixel_index(width, px, py)]
                    == if frame_covers(size.0 as nat, size.1 as nat, is_focused, px, py) {
                    color.foreground
                } else {
                    color.background
                },
        decreases size.1 - y,
    {
        let mut x: usize = 0;
        while x < size.0
            invariant
                x <= size.0,
                y < size.1,
                width == size.0,
                height == size.1,
                size.0 <= isize::MAX,
                size.1 <= isize::MAX,
                buffer@.len() == width * height,
            total == width * height,
                focus@ == focus_line(is_focused),
                width_text@ == width_line(size.0 as nat, size.1 as nat),
                height_text@ == height_line(size.0 as nat, size.1 as nat),
                forall|px: int, py: int|
                    0 <= px < width && (0 <= py < y || (py == y && px < x)) ==> buffer@[#[trigger] pixel_index(
                        width,
                        px,
                        py,
                    )] == if frame_covers(size.0 as nat, size.1 as nat, is_focused, px, py) {
                        color.foreground
                    } else {
                        color.background
                    },
            decreases size.0 - x,
        {
            let covered = focus.covers(x as isize, y as isize) || width_text.covers(
                x as isize,
                y as isize,
            ) || height_text.covers(x as isize, y as isize);
            proof {
                assert(0 <= y * width && y * width + width <= height * width) by (nonlinear_arith)
                    requires
                        0 <= y < height,
                        width > 0,
                ;
            }
            let place = y * size.0 + x;
            let ghost before = buffer@;
            buffer[place] = if covered {
                color.foreground
            } else {
                color.background
            };
            proof {
                assert forall|px: int, py: int|
                    0 <= px < width && (0 <= py < y || (py == y && px < x + 1)) implies buffer@[#[trigger] pixel_index(
                    width,
                    px,
                    py,
                )] == if frame_covers(size.0 as nat, size.1 as nat, is_focused, px, py) {
                    color.foreground
                } else {
                    color.background
                } by {
                    if py < y {
                        lemma_pixel_index_order(width, height, px, py, x as int, y as int);
                    }
                }
            }
            x += 1;
        }
        y += 1;
    }
}

} // verus!
