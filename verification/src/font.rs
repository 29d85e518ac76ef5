//! The fixed 8x16 bitmap font: glyph cells and the glyph table.

use vstd::prelude::*;

verus! {

/// Width of a glyph cell, in grid columns.
pub const GLYPH_WIDTH: usize = 8;

/// Height of a glyph cell, in grid rows.
pub const GLYPH_HEIGHT: usize = 16;

/// Row of the cell on which the text baseline lies.
pub const GLYPH_BASELINE: usize = 12;

/// First row of the cell that a glyph without ascender uses.
pub const GLYPH_ASCENT: usize = 2;

/// The digit 0.
pub const NUM_0: [u8; 10] = [
    0b01111100,
    0b11000110,
    0b11000110,
    0b11000110,
    0b11000110,
    0b11000110,
    0b11000110,
    0b11000110,
    0b11000110,
    0b01111100,
];

/// The digit 1.
pub const NUM_1: [u8; 10] = [
    0b00011000,
    0b01111000,
    0b00011000,
    0b00011000,
    0b00011000,
    0b00011000,
    0b00011000,
    0b00011000,
    0b00011000,
    0b01111110,
];

/// The digit 2.
pub const NUM_2: [u8; 10] = [
    0b01111100,
    0b11000110,
    0b11000110,
    0b00000110,
    0b00001100,
    0b00011000,
    0b00110000,
    0b01100000,
    0b11000110,
    0b11111110,
];

/// The digit 3.
pub const NUM_3: [u8; 10] = [
    0b01111100,
    0b11000110,
    0b00000110,
    0b00000110,
    0b00111100,
    0b00000110,
    0b00000110,
    0b00000110,
    0b11000110,
    0b01111100,
];

/// The digit 4.
pub const NUM_4: [u8; 10] = [
    0b00001100,
    0b00011100,
    0b00111100,
    0b01101100,
    0b11001100,
    0b11001100,
    0b11111110,
    0b00001100,
    0b00001100,
    0b00011110,
];

/// The digit 5.
pub const NUM_5: [u8; 10] = [
    0b11111110,
    0b11000000,
    0b11000000,
    0b11000000,
    0b11111100,
    0b00000110,
    0b00000110,
    0b00000110,
    0b11000110,
    0b01111100,
];

/// The digit 6.
pub const NUM_6: [u8; 10] = [
    0b01111100,
    0b11000110,
    0b11000000,
    0b11000000,
    0b11111100,
    0b11000110,
    0b11000110,
    0b11000110,
    0b11000110,
    0b01111100,
];

/// The digit 7.
pub const NUM_7: [u8; 10] = [
    0b11111110,
    0b11000110,
    0b00000110,
    0b00001100,
    0b00011000,
    0b00110000,
    0b00110000,
    0b00110000,
    0b00110000,
    0b00110000,
];

/// The digit 8.
pub const NUM_8: [u8; 10] = [
    0b01111100,
    0b11000110,
    0b11000110,
    0b11000110,
    0b01111100,
    0b11000110,
    0b11000110,
    0b11000110,
    0b11000110,
    0b01111100,
];

/// The digit 9.
pub const NUM_9: [u8; 10] = [
    0b01111100,
    0b11000110,
    0b11000110,
    0b11000110,
    0b11000110,
    0b01111110,
    0b00000110,
    0b00000110,
    0b11000110,
    0b01111100,
];

/// The focus indicator, drawn as the letter F.
pub const LETTER_F: [u8; 10] = [
    0b11111110,
    0b11000000,
    0b11000000,
    0b11000000,
    0b11111100,
    0b11000000,
    0b11000000,
    0b11000000,
    0b11000000,
    0b11000000,
];

/// Whether column `x` of a row is inked. Column 0 is the leftmost pixel and
/// is held by the most significant bit of the row.
pub open spec fn row_bit(row: u8, x: int) -> bool {
    0 <= x < 8 && (row >> ((7 - x) as u8)) & 1u8 == 1u8
}

/// Whether the cell at column `x`, row `y` of a glyph given by its rows is
/// inked. Every cell outside the 8x16 grid is blank.
pub open spec fn glyph_ink(rows: Seq<u8>, x: int, y: int) -> bool {
    0 <= x < 8 && 0 <= y < 16 && y < rows.len() && row_bit(rows[y], x)
}

/// Row `y` of a packed mask: the topmost row is the most significant byte.
spec fn mask_row(mask: u128, y: int) -> u8 {
    ((mask >> ((120 - 8 * y) as u128)) & 0xffu128) as u8
}

/// The sixteen rows of a glyph authored for the ten-row x-height box: two
/// blank rows above the authored rows and four below.
pub open spec fn fit_xheight(lines: Seq<u8>) -> Seq<u8> {
    seq![0u8, 0u8] + lines + seq![0u8, 0u8, 0u8, 0u8]
}

/// What the font engine refuses.
#[derive(Clone, Copy, Debug, PartialEq, Eq, Structural)]
pub enum FontError {
    /// A glyph was requested for a character that the font does not hold.
    UnsupportedGlyph(char),
    /// A scale was given that is zero or negative.
    InvalidScale,
}

/// An 8x16 monochrome bitmap, one bit per cell.
#[derive(Clone, Copy, Debug, PartialEq, Eq, Structural)]
pub struct FontGlyph {
    mask: u128,
}

impl View for FontGlyph {
    type V = Seq<u8>;

    /// The sixteen rows of the glyph, top row first.
    open spec fn view(&self) -> Seq<u8> {
        Seq::new(16, |y: int| self.row(y))
    }
}

proof fn lemma_or_row(m: u128, b: u8, i: u128, j: u128)
    by (bit_vector)
    requires
        i < 16,
        j < 16,
    ensures
        (((m | ((b as u128) << ((120 - 8 * i) as u128))) >> ((120 - 8 * j) as u128)) & 0xffu128) as u8
            == if i == j {
            (((m >> ((120 - 8 * j) as u128)) & 0xffu128) as u8) | b
        } else {
            ((m >> ((120 - 8 * j) as u128)) & 0xffu128) as u8
        },
{
}

proof fn lemma_cell_bit(m: u128, x: u128, y: u128)
    by (bit_vector)
    requires
        x < 8,
        y < 16,
    ensures
        ((m >> ((127 - (8 * y + x)) as u128)) & 1u128 == 1u128) == (((((m >> ((120 - 8 * y) as u128))
            & 0xffu128) as u8) >> ((7 - x) as u8)) & 1u8 == 1u8),
{
}

proof fn lemma_rows_determine_mask(a: u128, b: u128)
    by (bit_vector)
    requires
        (a >> 120u128) & 0xffu128 == (b >> 120u128) & 0xffu128,
        (a >> 112u128) & 0xffu128 == (b >> 112u128) & 0xffu128,
        (a >> 104u128) & 0xffu128 == (b >> 104u128) & 0xffu128,
        (a >> 96u128) & 0xffu128 == (b >> 96u128) & 0xffu128,
        (a >> 88u128) & 0xffu128 == (b >> 88u128) & 0xffu128,
        (a >> 80u128) & 0xffu128 == (b >> 80u128) & 0xffu128,
        (a >> 72u128) & 0xffu128 == (b >> 72u128) & 0xffu128,
        (a >> 64u128) & 0xffu128 == (b >> 64u128) & 0xffu128,
        (a >> 56u128) & 0xffu128 == (b >> 56u128) & 0xffu128,
        (a >> 48u128) & 0xffu128 == (b >> 48u128) & 0xffu128,
        (a >> 40u128) & 0xffu128 == (b >> 40u128) & 0xffu128,
        (a >> 32u128) & 0xffu128 == (b >> 32u128) & 0xffu128,
        (a >> 24u128) & 0xffu128 == (b >> 24u128) & 0xffu128,
        (a >> 16u128) & 0xffu128 == (b >> 16u128) & 0xffu128,
        (a >> 8u128) & 0xffu128 == (b >> 8u128) & 0xffu128,
        (a >> 0u128) & 0xffu128 == (b >> 0u128) & 0xffu128,
    ensures
        a == b,
{
}

proof fn lemma_row_byte(m: u128, s: u128)
    by (bit_vector)
    ensures
        ((m >> s) & 0xffu128) as u8 == (m >> s) & 0xffu128,
{
}

impl FontGlyph {
    /// Row `y` of the glyph, counted from the top.
    pub closed spec fn row(&self, y: int) -> u8 {
        mask_row(self.mask, y)
    }

    /// Packs sixteen rows, top row first, into a glyph.
    pub fn new(mask_lines: [u8; 16]) -> (glyph: FontGlyph)
        ensures
            glyph@ == mask_lines@,
    {
        let mut mask: u128 = 0;
        let mut i: usize = 0;
        assert forall|j: int| 0 <= j < 16 implies mask_row(0u128, j) == 0u8 by {
            let s: u128 = (120 - 8 * j) as u128;
            assert(((0u128 >> s) & 0xffu128) as u8 == 0u8) by (bit_vector);
        }
        while i < 16
            invariant
                i <= 16,
                forall|j: int| 0 <= j < i ==> mask_row(mask, j) == mask_lines[j],
                forall|j: int| i <= j < 16 ==> mask_row(mask, j) == 0u8,
            decreases 16 - i,
        {
            let line: u8 = mask_lines[i];
            let shift: u32 = ((GLYPH_HEIGHT - 1 - i) * GLYPH_WIDTH) as u32;
            let next: u128 = mask | ((line as u128) << shift);
            proof {
                assert forall|j: int| 0 <= j < 16 implies mask_row(next, j) == (if j == i {
                    line
                } else {
                    mask_row(mask, j)
                }) by {
                    lemma_or_row(mask, line, i as u128, j as u128);
                    let before: u8 = mask_row(mask, j);
                    if j == i {
                        assert(before | line == line) by (bit_vector)
                            requires
                                before == 0u8,
                        ;
                    }
                }
            }
            mask = next;
            i += 1;
        }
        let glyph = FontGlyph { mask };
        assert(glyph@ =~= mask_lines@);
        glyph
    }

    /// Whether the cell at column `x`, row `y` is inked.
    pub fn covers(&self, x: isize, y: isize) -> (inked: bool)
        ensures
            inked == glyph_ink(self@, x as int, y as int),
            0 <= x < 8 && 0 <= y < 16 ==> inked == row_bit(self@[y as int], x as int),
            x < 0 || y < 0 || x >= 8 || y >= 16 ==> !inked,
    {
        if x < 0 || y < 0 {
            return false;
        }
        if x >= 8 || y >= 16 {
            return false;
        }
        let shift: u32 = (y * 8 + x) as u32;
        proof {
            lemma_cell_bit(self.mask, x as u128, y as u128);
        }
        (self.mask >> (127 - shift)) & 1 == 1
    }

    proof fn lemma_same_row(self, other: FontGlyph, y: int, shift: u128)
        requires
            self@ == other@,
            0 <= y < 16,
            shift == 120 - 8 * y,
        ensures
            (self.mask >> shift) & 0xffu128 == (other.mask >> shift) & 0xffu128,
    {
        assert(self@[y] == other@[y]);
        assert((120 - 8 * y) as u128 == shift);
        assert(self@[y] == self.row(y));
        assert(other@[y] == other.row(y));
        lemma_row_byte(self.mask, shift);
        lemma_row_byte(other.mask, shift);
    }

    /// A glyph is its sixteen rows and nothing more: two glyphs with the
    /// same rows are the same glyph.
    pub proof fn lemma_rows_determine_glyph(self, other: FontGlyph)
        requires
            self@ == other@,
        ensures
            self == other,
    {
        self.lemma_same_row(other, 0, 120u128);
        self.lemma_same_row(other, 1, 112u128);
        self.lemma_same_row(other, 2, 104u128);
        self.lemma_same_row(other, 3, 96u128);
        self.lemma_same_row(other, 4, 88u128);
        self.lemma_same_row(other, 5, 80u128);
        self.lemma_same_row(other, 6, 72u128);
        self.lemma_same_row(other, 7, 64u128);
        self.lemma_same_row(other, 8, 56u128);
        self.lemma_same_row(other, 9, 48u128);
        self.lemma_same_row(other, 10, 40u128);
        self.lemma_same_row(other, 11, 32u128);
        self.lemma_same_row(other, 12, 24u128);
        self.lemma_same_row(other, 13, 16u128);
        self.lemma_same_row(other, 14, 8u128);
        self.lemma_same_row(other, 15, 0u128);
        lemma_rows_determine_mask(self.mask, other.mask);
    }

    /// The bitmap as text, for a reader: one line of zeros and ones for
    /// each row, after a line break.
    pub fn to_text(&self) -> (text: String)
        ensures
            text@ == rows_text(self@),
    {
        let mut text = String::new();
        text.push('\n');
        let mut y: isize = 0;
        while y < 16
            invariant
                0 <= y <= 16,
                text@ == rows_text(self@.take(y as int)),
            decreases 16 - y,
        {
            let ghost done = text@;
            let ghost row = self@[y as int];
            let mut x: isize = 0;
            while x < 8
                invariant
                    0 <= x <= 8,
                    0 <= y < 16,
                    row == self@[y as int],
                    text@ == done + row_text(row).take(x as int),
                decreases 8 - x,
            {
                let mark = if self.covers(x, y) {
                    '1'
                } else {
                    '0'
                };
                text.push(mark);
                assert(row_text(row).take(x + 1) =~= row_text(row).take(x as int).push(mark));
                x += 1;
            }
            text.push('\n');
            proof {
                let rows = self@.take(y + 1);
                assert(rows.drop_last() =~= self@.take(y as int));
                assert(rows.last() == row);
                assert(row_text(row).take(8) =~= row_text(row));
            }
            y += 1;
        }
        assert(self@.take(16) =~= self@);
        text
    }

    /// Builds a glyph from the ten rows of the x-height box, padded with two
    /// blank rows above and four below.
    pub fn new_fit_xheight(mask_lines: [u8; 10]) -> (glyph: FontGlyph)
        ensures
            glyph@ == fit_xheight(mask_lines@),
    {
        let rows: [u8; 16] = [
            0,
            0,
            mask_lines[0],
            mask_lines[1],
            mask_lines[2],
            mask_lines[3],
            mask_lines[4],
            mask_lines[5],
            mask_lines[6],
            mask_lines[7],
            mask_lines[8],
            mask_lines[9],
            0,
            0,
            0,
            0,
        ];
        assert(rows@ =~= fit_xheight(mask_lines@));
        FontGlyph::new(rows)
    }

    /// The glyph of a character of the font, or `UnsupportedGlyph` naming
    /// the character where the font has none for it.
    pub fn map_char(ch: char) -> (found: Result<FontGlyph, FontError>)
        ensures
            match found {
                Ok(glyph) => is_supported(ch) && glyph@ == glyph_rows(ch),
                Err(e) => !is_supported(ch) && e == FontError::UnsupportedGlyph(ch),
            },
    {
        match ch {
            '0' => Ok(FontGlyph::new_fit_xheight(NUM_0)),
            '1' => Ok(FontGlyph::new_fit_xheight(NUM_1)),
            '2' => Ok(FontGlyph::new_fit_xheight(NUM_2)),
            '3' => Ok(FontGlyph::new_fit_xheight(NUM_3)),
            '4' => Ok(FontGlyph::new_fit_xheight(NUM_4)),
            '5' => Ok(FontGlyph::new_fit_xheight(NUM_5)),
            '6' => Ok(FontGlyph::new_fit_xheight(NUM_6)),
            '7' => Ok(FontGlyph::new_fit_xheight(NUM_7)),
            '8' => Ok(FontGlyph::new_fit_xheight(NUM_8)),
            '9' => Ok(FontGlyph::new_fit_xheight(NUM_9)),
            'F' => Ok(FontGlyph::new_fit_xheight(LETTER_F)),
            _ => Err(FontError::UnsupportedGlyph(ch)),
        }
    }
}

/// One row as text: a `1` for each inked column and a `0` for each blank
/// one, from left to right.
pub open spec fn row_text(row: u8) -> Seq<char> {
    Seq::new(
        8,
        |x: int|
            if row_bit(row, x) {
                '1'
            } else {
                '0'
            },
    )
}

/// Rows as text: a line break, then each row followed by a line break.
pub open spec fn rows_text(rows: Seq<u8>) -> Seq<char>
    decreases rows.len(),
{
    if rows.len() == 0 {
        seq!['\n']
    } else {
        rows_text(rows.drop_last()) + row_text(rows.last()) + seq!['\n']
    }
}

/// The authored rows of each character of the font, within the x-height box.
pub open spec fn authored_rows(ch: char) -> Option<Seq<u8>> {
    match ch {
        '0' => Some(NUM_0@),
        '1' => Some(NUM_1@),
        '2' => Some(NUM_2@),
        '3' => Some(NUM_3@),
        '4' => Some(NUM_4@),
        '5' => Some(NUM_5@),
        '6' => Some(NUM_6@),
        '7' => Some(NUM_7@),
        '8' => Some(NUM_8@),
        '9' => Some(NUM_9@),
        'F' => Some(LETTER_F@),
        _ => None,
    }
}

/// Whether the font holds a glyph for `ch`: the decimal digits and the
/// focus indicator `'F'`.
pub open spec fn is_supported(ch: char) -> bool {
    authored_rows(ch) is Some
}

/// The sixteen rows of the glyph of a supported character.
pub open spec fn glyph_rows(ch: char) -> Seq<u8>
    recommends
        is_supported(ch),
{
    fit_xheight(authored_rows(ch)->0)
}

} // verus!
