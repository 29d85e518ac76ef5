//! Glyphs placed on the canvas, and lines of text laid out from them.

use vstd::prelude::*;
use crate::font::FontError;
use crate::font::FontGlyph;
use crate::font::glyph_ink;
use crate::font::glyph_rows;
use crate::font::is_supported;

verus! {

/// A glyph bound to a place on the canvas: the canvas coordinates of its
/// top-left cell, the number of canvas pixels per grid cell on both axes,
/// and its sixteen rows.
pub struct PlacedGlyph {
    pub origin_x: int,
    pub origin_y: int,
    pub scale: int,
    pub rows: Seq<u8>,
}

impl PlacedGlyph {
    /// Whether the canvas pixel `(x, y)` falls on the ink of the glyph.
    /// Pixels to the left of the origin or above it are never covered; the
    /// others are mapped back into the grid by dividing by the scale.
    pub open spec fn covers(self, x: int, y: int) -> bool {
        &&& x >= self.origin_x
        &&& y >= self.origin_y
        &&& glyph_ink(self.rows, (x - self.origin_x) / self.scale, (y - self.origin_y) / self.scale)
    }
}

/// A positioned and uniformly scaled glyph. The scale is always positive.
#[derive(Clone, Copy, Debug)]
pub struct WorldFontGlyph {
    position: [isize; 2],
    scale: isize,
    glyph: FontGlyph,
}

impl View for WorldFontGlyph {
    type V = PlacedGlyph;

    closed spec fn view(&self) -> PlacedGlyph {
        PlacedGlyph {
            origin_x: self.position[0] as int,
            origin_y: self.position[1] as int,
            scale: self.scale as int,
            rows: self.glyph@,
        }
    }
}

impl WorldFontGlyph {
    #[verifier::type_invariant]
    spec fn positive_scale(self) -> bool {
        self.scale > 0
    }

    /// Places `glyph` with its top-left cell at `position`, each grid cell
    /// `scale` canvas pixels wide and high. A scale of zero or less is
    /// refused with `InvalidScale`.
    pub fn new(position: [isize; 2], scale: isize, glyph: FontGlyph) -> (placed: Result<
        WorldFontGlyph,
        FontError,
    >)
        ensures
            match placed {
                Ok(g) => scale > 0 && g@ == (PlacedGlyph {
                    origin_x: position[0] as int,
                    origin_y: position[1] as int,
                    scale: scale as int,
                    rows: glyph@,
                }),
                Err(e) => scale <= 0 && e == FontError::InvalidScale,
            },
    {
        if scale <= 0 {
            return Err(FontError::InvalidScale);
        }
        Ok(WorldFontGlyph { position, scale, glyph })
    }

    /// The canvas coordinates of the top-left cell.
    pub fn position(&self) -> (position: [isize; 2])
        ensures
            position[0] == self@.origin_x,
            position[1] == self@.origin_y,
    {
        self.position
    }

    /// The number of canvas pixels per grid cell, on both axes.
    pub fn scale(&self) -> (scale: isize)
        ensures
            scale == self@.scale,
            scale > 0,
    {
        proof {
            use_type_invariant(self);
        }
        self.scale
    }

    /// The glyph that is placed.
    pub fn glyph(&self) -> (glyph: FontGlyph)
        ensures
            glyph@ == self@.rows,
    {
        self.glyph
    }

    /// Whether the canvas pixel `(x, y)` falls on the ink of the glyph.
    pub fn covers(&self, x: isize, y: isize) -> (inked: bool)
        ensures
            inked == self@.covers(x as int, y as int),
            x < self@.origin_x || y < self@.origin_y ==> !inked,
            self@.scale > 0,
    {
        proof {
            use_type_invariant(self);
        }
        let relative_x: i128 = x as i128 - self.position[0] as i128;
        let relative_y: i128 = y as i128 - self.position[1] as i128;
        if relative_x < 0 || relative_y < 0 {
            return false;
        }
        let grid_x: u128 = relative_x as u128 / self.scale as u128;
        let grid_y: u128 = relative_y as u128 / self.scale as u128;
        if grid_x >= 8 || grid_y >= 16 {
            return false;
        }
        self.glyph.covers(grid_x as isize, grid_y as isize)
    }
}

/// A laid-out line of text: its glyphs from left to right, and the box that
/// bounds them.
pub struct LineLayout {
    pub glyphs: Seq<PlacedGlyph>,
    pub min_x: int,
    pub max_x: int,
    pub min_y: int,
    pub max_y: int,
}

impl LineLayout {
    /// Whether `(x, y)` lies inside the bounding box, edges included.
    pub open spec fn in_bounds(self, x: int, y: int) -> bool {
        self.min_x <= x <= self.max_x && self.min_y <= y <= self.max_y
    }

    /// Whether some glyph of the line covers `(x, y)`.
    pub open spec fn some_glyph_covers(self, x: int, y: int) -> bool {
        exists|i: int| 0 <= i < self.glyphs.len() && (#[trigger] self.glyphs[i]).covers(x, y)
    }

    /// Whether the line covers `(x, y)`: the pixel lies inside the bounding
    /// box and on the ink of one of the glyphs.
    pub open spec fn covers(self, x: int, y: int) -> bool {
        self.in_bounds(x, y) && self.some_glyph_covers(x, y)
    }
}

/// The layout of `text` at `scale` with its top-left corner at
/// `(base_x, base_y)`: glyph `i` stands `i` advances to the right of the
/// base position, an advance being eight cells, and the box spans all the
/// advances and one glyph height.
pub open spec fn line_layout(text: Seq<char>, base_x: int, base_y: int, scale: int) -> LineLayout {
    LineLayout {
        glyphs: Seq::new(
            text.len(),
            |i: int|
                PlacedGlyph {
                    origin_x: base_x + i * 8 * scale,
                    origin_y: base_y,
                    scale: scale,
                    rows: glyph_rows(text[i]),
                },
        ),
        min_x: base_x,
        max_x: base_x + text.len() * 8 * scale,
        min_y: base_y,
        max_y: base_y + 16 * scale,
    }
}

/// Whether every character of `text` has a glyph in the font.
pub open spec fn all_supported(text: Seq<char>) -> bool {
    forall|i: int| 0 <= i < text.len() ==> is_supported(#[trigger] text[i])
}

/// Whether `text[i]` is the leftmost character without a glyph in the font.
pub open spec fn first_unsupported_at(text: Seq<char>, i: int) -> bool {
    &&& 0 <= i < text.len()
    &&& !is_supported(text[i])
    &&& all_supported(text.take(i))
}

/// What a line was laid out from.
pub struct LineSource {
    pub text: Seq<char>,
    pub base_x: int,
    pub base_y: int,
    pub scale: int,
}

/// A string laid out as scaled glyphs, with its bounding box. Every line
/// is the layout of a text that the font can draw, at a positive scale.
pub struct TextLine {
    glyphs: Vec<WorldFontGlyph>,
    bounding_box: [isize; 4],
    source: Ghost<LineSource>,
}

impl View for TextLine {
    type V = LineLayout;

    closed spec fn view(&self) -> LineLayout {
        LineLayout {
            glyphs: Seq::new(self.glyphs@.len(), |i: int| self.glyphs@[i]@),
            min_x: self.bounding_box[0] as int,
            max_x: self.bounding_box[1] as int,
            min_y: self.bounding_box[2] as int,
            max_y: self.bounding_box[3] as int,
        }
    }
}

impl TextLine {
    #[verifier::type_invariant]
    spec fn is_layout(self) -> bool {
        &&& self.source@.scale > 0
        &&& all_supported(self.source@.text)
        &&& self@ == line_layout(
            self.source@.text,
            self.source@.base_x,
            self.source@.base_y,
            self.source@.scale,
        )
    }

    /// The text that the line was laid out from.
    pub closed spec fn text(&self) -> Seq<char> {
        self.source@.text
    }

    /// Lays `text` out from left to right with its top-left corner at
    /// `base_position`. A scale of zero or less is refused first, with
    /// `InvalidScale`; then the leftmost character that the font does not
    /// hold is refused with `UnsupportedGlyph`. The bounding box has to
    /// fit the coordinate type.
    pub fn new(text: &str, base_position: [isize; 2], scale: isize) -> (line: Result<
        TextLine,
        FontError,
    >)
        requires
            scale > 0 ==> base_position[0] + text@.len() * 8 * scale <= isize::MAX,
            scale > 0 ==> base_position[1] + 16 * scale <= isize::MAX,
        ensures
            match line {
                Ok(l) => {
                    &&& scale > 0
                    &&& all_supported(text@)
                    &&& l@ == line_layout(
                        text@,
                        base_position[0] as int,
                        base_position[1] as int,
                        scale as int,
                    )
                    &&& l.text() == text@
                },
                Err(FontError::InvalidScale) => scale <= 0,
                Err(FontError::UnsupportedGlyph(ch)) => {
                    &&& scale > 0
                    &&& exists|i: int| first_unsupported_at(text@, i) && text@[i] == ch
                },
            },
    {
        if scale <= 0 {
            return Err(FontError::InvalidScale);
        }
        let ghost base_x = base_position[0] as int;
        let ghost base_y = base_position[1] as int;
        let ghost want = line_layout(text@, base_x, base_y, scale as int);
        let advance: i128 = 8 * (scale as i128);
        let mut cursor: i128 = base_position[0] as i128;
        let mut glyphs: Vec<WorldFontGlyph> = Vec::new();
        for ch in it: text.chars()
            invariant
                scale > 0,
                it.seq() == text@,
                advance == 8 * scale,
                base_x == base_position[0],
                base_y == base_position[1],
                base_x + text@.len() * 8 * scale <= isize::MAX,
                cursor == base_x + it.index() * 8 * scale,
                want == line_layout(text@, base_x, base_y, scale as int),
                glyphs@.len() == it.index(),
                forall|j: int| 0 <= j < it.index() ==> is_supported(#[trigger] text@[j]),
                forall|j: int| 0 <= j < it.index() ==> (#[trigger] glyphs@[j])@ == want.glyphs[j],
        {
            let ghost i = it.index() as int;
            let ghost count = text@.len() as int;
            let glyph = match FontGlyph::map_char(ch) {
                Ok(glyph) => glyph,
                Err(e) => {
                    proof {
                        assert(all_supported(text@.take(i)));
                        assert(first_unsupported_at(text@, i));
                    }
                    return Err(e);
                },
            };
            proof {
                assert(0 <= i * 8 * scale <= count * 8 * scale) by (nonlinear_arith)
                    requires
                        0 <= i <= count,
                        scale > 0,
                ;
                assert((i + 1) * 8 * scale == i * 8 * scale + 8 * scale) by (nonlinear_arith);
                assert((i + 1) * 8 * scale <= count * 8 * scale) by (nonlinear_arith)
                    requires
                        i + 1 <= count,
                        scale > 0,
                ;
            }
            let origin: [isize; 2] = [cursor as isize, base_position[1]];
            let placed = WorldFontGlyph { position: origin, scale, glyph };
            assert(placed@ == want.glyphs[i]);
            glyphs.push(placed);
            cursor = cursor + advance;
        }
        let bottom: i128 = base_position[1] as i128 + 16 * (scale as i128);
        let bounding_box: [isize; 4] = [
            base_position[0],
            cursor as isize,
            base_position[1],
            bottom as isize,
        ];
        proof {
            assert(all_supported(text@));
            assert(Seq::new(glyphs@.len(), |i: int| glyphs@[i]@) =~= want.glyphs);
        }
        Ok(
            TextLine {
                glyphs,
                bounding_box,
                source: Ghost(
                    LineSource { text: text@, base_x, base_y, scale: scale as int },
                ),
            },
        )
    }

    /// A line without glyphs, which covers no pixel.
    pub fn empty() -> (line: TextLine)
        ensures
            line@ == line_layout(Seq::<char>::empty(), 0, 0, 1),
            line.text() == Seq::<char>::empty(),
    {
        let glyphs: Vec<WorldFontGlyph> = Vec::new();
        proof {
            assert(Seq::new(glyphs@.len(), |i: int| glyphs@[i]@) =~= line_layout(
                Seq::<char>::empty(),
                0,
                0,
                1,
            ).glyphs);
        }
        TextLine {
            glyphs,
            bounding_box: [0, 0, 0, 16],
            source: Ghost(LineSource { text: Seq::empty(), base_x: 0, base_y: 0, scale: 1 }),
        }
    }

    /// The bounding box: the least and the greatest `x`, then the least and
    /// the greatest `y`.
    pub fn bounding_box(&self) -> (bounds: [isize; 4])
        ensures
            bounds[0] == self@.min_x,
            bounds[1] == self@.max_x,
            bounds[2] == self@.min_y,
            bounds[3] == self@.max_y,
    {
        self.bounding_box
    }

    /// The number of glyphs of the line.
    pub fn len(&self) -> (count: usize)
        ensures
            count == self@.glyphs.len(),
            count == self.text().len(),
    {
        proof {
            use_type_invariant(self);
            assert(self@.glyphs.len() == self.glyphs@.len());
        }
        self.glyphs.len()
    }

    /// The glyph at place `index`, counted from the left; none where the
    /// line is shorter.
    pub fn glyph_at(&self, index: usize) -> (placed: Option<WorldFontGlyph>)
        ensures
            match placed {
                Some(g) => index < self@.glyphs.len() && g@ == self@.glyphs[index as int],
                None => index >= self@.glyphs.len(),
            },
    {
        if index < self.glyphs.len() {
            Some(self.glyphs[index])
        } else {
            None
        }
    }

    /// Whether the line covers the canvas pixel `(x, y)`. The bounding box
    /// only saves work: the line covers exactly the pixels that one of its
    /// glyphs covers.
    pub fn covers(&self, x: isize, y: isize) -> (inked: bool)
        ensures
            inked == self@.covers(x as int, y as int),
            inked == self@.some_glyph_covers(x as int, y as int),
            self.text().len() == 0 ==> !inked,
    {
        proof {
            use_type_invariant(self);
            lemma_bounding_box_holds_ink(
                self.source@.text,
                self.source@.base_x,
                self.source@.base_y,
                self.source@.scale,
                x as int,
                y as int,
            );
            assert(self@.glyphs.len() == self.glyphs@.len());
            assert(self@.glyphs.len() == self.source@.text.len());
        }
        if x < self.bounding_box[0] || x > self.bounding_box[1] {
            return false;
        }
        if y < self.bounding_box[2] || y > self.bounding_box[3] {
            return false;
        }
        let mut i: usize = 0;
        while i < self.glyphs.len()
            invariant
                i <= self.glyphs@.len(),
                self.glyphs@.len() == self.text().len(),
                self@.in_bounds(x as int, y as int),
                forall|j: int| 0 <= j < i ==> !(#[trigger] self@.glyphs[j]).covers(x as int, y as int),
            decreases self.glyphs@.len() - i,
        {
            if self.glyphs[i].covers(x, y) {
                assert(self@.glyphs[i as int].covers(x as int, y as int));
                return true;
            }
            i += 1;
        }
        false
    }
}

/// A glyph covers no pixel to the left of its origin and none above it,
/// whatever its scale: in particular not the pixel just left of the origin
/// and not the one just above it.
pub proof fn lemma_left_and_above_uncovered(g: PlacedGlyph, x: int, y: int)
    ensures
        x < g.origin_x || y < g.origin_y ==> !g.covers(x, y),
        !g.covers(g.origin_x - 1, g.origin_y),
        !g.covers(g.origin_x, g.origin_y - 1),
{
}

/// A pixel that a glyph of positive scale covers lies inside the square
/// cells of the glyph: at most eight scaled columns right of the origin and
/// sixteen scaled rows below it.
pub proof fn lemma_covered_pixel_in_cell(g: PlacedGlyph, x: int, y: int)
    requires
        g.scale > 0,
        g.covers(x, y),
    ensures
        g.origin_x <= x < g.origin_x + 8 * g.scale,
        g.origin_y <= y < g.origin_y + 16 * g.scale,
{
    let s = g.scale;
    let rx = x - g.origin_x;
    let ry = y - g.origin_y;
    assert(rx < 8 * s) by (nonlinear_arith)
        requires
            s > 0,
            rx >= 0,
            rx / s < 8,
    ;
    assert(ry < 16 * s) by (nonlinear_arith)
        requires
            s > 0,
            ry >= 0,
            ry / s < 16,
    ;
}

/// A line laid out from the empty string covers no pixel.
pub proof fn lemma_empty_line_covers_nothing(base_x: int, base_y: int, scale: int, x: int, y: int)
    ensures
        !line_layout(Seq::<char>::empty(), base_x, base_y, scale).covers(x, y),
{
}

/// The bounding box of a line of `n` characters at scale `s` is `n * 8 * s`
/// wide and `16 * s` high, and the line has one glyph per character.
pub proof fn lemma_bounding_box_size(text: Seq<char>, base_x: int, base_y: int, scale: int)
    ensures
        ({
            let l = line_layout(text, base_x, base_y, scale);
            &&& l.max_x - l.min_x == text.len() * 8 * scale
            &&& l.max_y - l.min_y == 16 * scale
            &&& l.glyphs.len() == text.len()
        }),
{
}

/// The bounding box of a laid-out line holds every pixel that one of its
/// glyphs covers, so the line covers exactly the pixels that its glyphs
/// cover.
pub proof fn lemma_bounding_box_holds_ink(
    text: Seq<char>,
    base_x: int,
    base_y: int,
    scale: int,
    x: int,
    y: int,
)
    requires
        scale > 0,
    ensures
        ({
            let l = line_layout(text, base_x, base_y, scale);
            &&& l.some_glyph_covers(x, y) ==> l.in_bounds(x, y)
            &&& l.covers(x, y) == l.some_glyph_covers(x, y)
        }),
{
    let l = line_layout(text, base_x, base_y, scale);
    if l.some_glyph_covers(x, y) {
        let i = choose|i: int| 0 <= i < l.glyphs.len() && (#[trigger] l.glyphs[i]).covers(x, y);
        lemma_covered_pixel_in_cell(l.glyphs[i], x, y);
        let n = text.len() as int;
        assert(i * 8 * scale >= 0) by (nonlinear_arith)
            requires
                i >= 0,
                scale > 0,
        ;
        assert(i * 8 * scale + 8 * scale <= n * 8 * scale) by (nonlinear_arith)
            requires
                i + 1 <= n,
                scale > 0,
        ;
    }
}

/// The glyphs of a laid-out line do not overlap: no pixel is covered by two
/// of them.
pub proof fn lemma_glyphs_disjoint(
    text: Seq<char>,
    base_x: int,
    base_y: int,
    scale: int,
    i: int,
    j: int,
    x: int,
    y: int,
)
    requires
        scale > 0,
        0 <= i < j < text.len(),
    ensures
        ({
            let l = line_layout(text, base_x, base_y, scale);
            !(l.glyphs[i].covers(x, y) && l.glyphs[j].covers(x, y))
        }),
{
    let l = line_layout(text, base_x, base_y, scale);
    if l.glyphs[i].covers(x, y) && l.glyphs[j].covers(x, y) {
        lemma_covered_pixel_in_cell(l.glyphs[i], x, y);
        lemma_covered_pixel_in_cell(l.glyphs[j], x, y);
        assert(i * 8 * scale + 8 * scale <= j * 8 * scale) by (nonlinear_arith)
            requires
                i + 1 <= j,
                scale > 0,
        ;
    }
}

} // verus!
