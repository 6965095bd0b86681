use vstd::prelude::*;

use vstd::arithmetic::div_mod::lemma_div_plus_one;

use crate::base::Color;

verus! {

/// The dark cells of a checkered pattern.
pub open spec fn checker_dark() -> (u8, u8, u8) {
    (20, 20, 20)
}

/// A texture of one colour everywhere.
pub struct ConstantTexture {
    color: Color,
}

impl ConstantTexture {
    /// The colour that the texture shows.
    pub closed spec fn color(&self) -> Color {
        self.color
    }

    pub fn new(color: Color) -> (t: ConstantTexture)
        ensures
            t.color() == color,
    {
        ConstantTexture { color: color }
    }

    /// The colour at the texture coordinates `(x, y)`, rounded to
    /// non-negative integers: the same everywhere.
    pub fn color_at(&self, _x: u32, _y: u32) -> (c: Color)
        ensures
            c == self.color(),
    {
        self.color
    }
}

/// A checkerboard of `width` × `height` cells that alternate between the dark
/// grey (20, 20, 20) and a colour of choice.
pub struct CheckeredPatternTexture {
    color: Color,
    width: u32,
    height: u32,
}

/// Whether the cell that holds the point `(x, y)` shows the dark grey: the
/// cells are `w` wide and `h` high, and the cell at the origin is dark.
pub open spec fn is_dark_cell(x: u32, y: u32, w: u32, h: u32) -> bool
    recommends
        w > 0,
        h > 0,
{
    ((x / w) as int + (y / h) as int) % 2 == 0
}

/// Cells alternate: one cell width to the right, or one cell height up, the
/// pattern switches between the dark grey and the texture's colour.
pub proof fn lemma_cells_alternate(x: u32, y: u32, w: u32, h: u32)
    requires
        w > 0,
        h > 0,
        x + w <= u32::MAX,
        y + h <= u32::MAX,
    ensures
        is_dark_cell((x + w) as u32, y, w, h) != is_dark_cell(x, y, w, h),
        is_dark_cell(x, (y + h) as u32, w, h) != is_dark_cell(x, y, w, h),
{
    lemma_div_plus_one(x as int, w as int);
    lemma_div_plus_one(y as int, h as int);
}

impl CheckeredPatternTexture {
    /// The colour of the light cells.
    pub closed spec fn color(&self) -> Color {
        self.color
    }

    /// The width of a cell.
    pub closed spec fn cell_width(&self) -> u32 {
        self.width
    }

    /// The height of a cell.
    pub closed spec fn cell_height(&self) -> u32 {
        self.height
    }

    pub fn new(color: Color, width: u32, height: u32) -> (t: CheckeredPatternTexture)
        ensures
            t.color() == color,
            t.cell_width() == width,
            t.cell_height() == height,
    {
        CheckeredPatternTexture { color: color, width: width, height: height }
    }

    pub fn get_width(&self) -> (r: u32)
        ensures
            r == self.cell_width(),
    {
        self.width
    }

    pub fn get_height(&self) -> (r: u32)
        ensures
            r == self.cell_height(),
    {
        self.height
    }

    /// The colour at the texture coordinates `(x, y)`, rounded to
    /// non-negative integers; cells of zero width or height are not allowed.
    pub fn color_at(&self, x: u32, y: u32) -> (c: Color)
        requires
            self.cell_width() > 0,
            self.cell_height() > 0,
        ensures
            c@ == if is_dark_cell(x, y, self.cell_width(), self.cell_height()) {
                checker_dark()
            } else {
                self.color()@
            },
    {
        let cell_x = x / self.width;
        let cell_y = y / self.height;
        if (cell_x % 2 == 0) == (cell_y % 2 == 0) {
            Color::new(20, 20, 20)
        } else {
            self.color
        }
    }
}

} // verus!
