//! Sprites of a sprite sheet, located in exact arithmetic.
//!
//! A texture coordinate is kept as a fraction of the texture's size in pixels,
//! so that every sprite is described without rounding. The horizontal axis runs
//! from the left edge of the image, the vertical axis from its bottom edge, while
//! pixel rows are counted from the top: the layout flips them.

use vstd::prelude::*;

verus! {

/// A fraction whose denominator is a texture dimension in pixels.
#[derive(Clone, Copy, Debug, PartialEq, Eq, Structural)]
pub struct Ratio {
    /// Distance in pixels; negative once a sprite reaches past the image.
    pub numerator: i128,
    /// The texture's size in pixels along the same axis.
    pub denominator: u32,
}

/// The rectangle of a sprite on its texture, each edge a fraction of the
/// texture's width (`left`, `right`) or height (`bottom`, `top`).
#[derive(Clone, Copy, Debug, PartialEq, Eq, Structural)]
pub struct TextureCoordinates {
    /// Left edge, measured from the left edge of the image.
    pub left: Ratio,
    /// Right edge, measured from the left edge of the image.
    pub right: Ratio,
    /// Bottom edge, measured from the bottom edge of the image: one minus the
    /// share of the image that lies above the sprite's last row of pixels.
    pub bottom: Ratio,
    /// Top edge, measured from the bottom edge of the image: one minus the
    /// share of the image that lies above the sprite.
    pub top: Ratio,
}

impl TextureCoordinates {
    /// The rectangle has a positive width and a positive height.
    pub open spec fn ordered(&self) -> bool {
        &&& self.left.numerator < self.right.numerator
        &&& self.bottom.numerator < self.top.numerator
    }

    /// Every edge lies between 0 and 1.
    pub open spec fn normalized(&self) -> bool {
        &&& 0 <= self.left.numerator <= self.left.denominator
        &&& 0 <= self.right.numerator <= self.right.denominator
        &&& 0 <= self.bottom.numerator <= self.bottom.denominator
        &&& 0 <= self.top.numerator <= self.top.denominator
    }
}

/// One sprite of a sheet: its size in pixels, the offset of its pivot, and
/// where it lies on the texture.
#[derive(Clone, Copy, Debug, PartialEq, Eq)]
pub struct Sprite {
    /// Width in pixels.
    pub width: u32,
    /// Height in pixels.
    pub height: u32,
    /// Pixels to shift the sprite left and down relative to its entity, as the
    /// bit patterns of two single-precision numbers. The library carries them
    /// through unchanged; `[0, 0]` is no shift.
    pub offsets: [u32; 2],
    /// The sprite's rectangle on the texture.
    pub tex_coords: TextureCoordinates,
}

impl Sprite {
    /// The sprite that covers `sprite_w` by `sprite_h` pixels of an image of
    /// `image_w` by `image_h` pixels, its top left corner `pixel_left` pixels
    /// from the left edge and `pixel_top` pixels below the top edge.
    pub open spec fn spec_from_pixel_values(
        image_w: u32,
        image_h: u32,
        sprite_w: u32,
        sprite_h: u32,
        pixel_left: u64,
        pixel_top: u64,
        offsets: [u32; 2],
    ) -> Sprite {
        Sprite {
            width: sprite_w,
            height: sprite_h,
            offsets,
            tex_coords: TextureCoordinates {
                left: Ratio { numerator: pixel_left as i128, denominator: image_w },
                right: Ratio { numerator: (pixel_left + sprite_w) as i128, denominator: image_w },
                bottom: Ratio {
                    numerator: (image_h - (pixel_top + sprite_h)) as i128,
                    denominator: image_h,
                },
                top: Ratio { numerator: (image_h - pixel_top) as i128, denominator: image_h },
            },
        }
    }

    /// Locates a sprite from pixel values. Rows of pixels are counted from the
    /// top of the image, texture coordinates from its bottom, so the vertical
    /// axis is flipped.
    pub fn from_pixel_values(
        image_w: u32,
        image_h: u32,
        sprite_w: u32,
        sprite_h: u32,
        pixel_left: u64,
        pixel_top: u64,
        offsets: [u32; 2],
    ) -> (sprite: Sprite)
        ensures
            sprite == Self::spec_from_pixel_values(
                image_w,
                image_h,
                sprite_w,
                sprite_h,
                pixel_left,
                pixel_top,
                offsets,
            ),
    {
        let pixel_right: i128 = pixel_left as i128 + sprite_w as i128;
        let pixel_bottom: i128 = pixel_top as i128 + sprite_h as i128;
        Sprite {
            width: sprite_w,
            height: sprite_h,
            offsets,
            tex_coords: TextureCoordinates {
                left: Ratio { numerator: pixel_left as i128, denominator: image_w },
                right: Ratio { numerator: pixel_right, denominator: image_w },
                bottom: Ratio { numerator: image_h as i128 - pixel_bottom, denominator: image_h },
                top: Ratio { numerator: image_h as i128 - pixel_top as i128, denominator: image_h },
            },
        }
    }
}

/// The rectangle of a sprite has a positive width and height exactly where the
/// sprite has, and lies between 0 and 1 exactly where the sprite lies within
/// the image.
pub proof fn lemma_region_of_pixel_values(
    image_w: u32,
    image_h: u32,
    sprite_w: u32,
    sprite_h: u32,
    pixel_left: u64,
    pixel_top: u64,
    offsets: [u32; 2],
)
    ensures
        ({
            let region = Sprite::spec_from_pixel_values(
                image_w,
                image_h,
                sprite_w,
                sprite_h,
                pixel_left,
                pixel_top,
                offsets,
            ).tex_coords;
            &&& region.ordered() <==> sprite_w > 0 && sprite_h > 0
            &&& region.normalized() <==> pixel_left + sprite_w <= image_w && pixel_top + sprite_h
                <= image_h
        }),
{
}

/// Where one sprite lies on its texture, in pixels from the top left corner of
/// the image.
#[derive(Clone, Copy, Debug, PartialEq, Eq)]
pub struct SpritePosition {
    /// Horizontal position of the sprite's left edge.
    pub x: u32,
    /// Vertical position of the sprite's top edge.
    pub y: u32,
    /// Width of the sprite.
    pub width: u32,
    /// Height of the sprite.
    pub height: u32,
    /// Pivot offsets of the sprite, as in [`Sprite::offsets`]; none means no shift.
    pub offsets: Option<[u32; 2]>,
}

impl SpritePosition {
    /// The sprite at this position on a texture of the given size.
    pub open spec fn spec_sprite(&self, texture_width: u32, texture_height: u32) -> Sprite {
        Sprite::spec_from_pixel_values(
            texture_width,
            texture_height,
            self.width,
            self.height,
            self.x as u64,
            self.y as u64,
            match self.offsets {
                Some(offsets) => offsets,
                None => [0u32, 0u32],
            },
        )
    }
}

/// Sprites given one by one, each by its rectangle in pixels.
#[derive(Debug, PartialEq, Eq)]
pub struct SpriteList {
    /// Width of the texture in pixels.
    pub texture_width: u32,
    /// Height of the texture in pixels.
    pub texture_height: u32,
    /// The rectangles, in the order of the sprites.
    pub sprites: Vec<SpritePosition>,
}

impl Clone for SpriteList {
    fn clone(&self) -> (copy: Self)
        ensures
            copy.texture_width == self.texture_width,
            copy.texture_height == self.texture_height,
            copy.sprites@ == self.sprites@,
    {
        let mut sprites: Vec<SpritePosition> = Vec::new();
        let mut i: usize = 0;
        while i < self.sprites.len()
            invariant
                i <= self.sprites@.len(),
                sprites@ == self.sprites@.take(i as int),
            decreases self.sprites@.len() - i,
        {
            sprites.push(self.sprites[i]);
            assert(self.sprites@.take(i + 1) == self.sprites@.take(i as int).push(
                self.sprites@[i as int],
            ));
            i += 1;
        }
        assert(self.sprites@.take(i as int) == self.sprites@);
        SpriteList {
            texture_width: self.texture_width,
            texture_height: self.texture_height,
            sprites,
        }
    }
}

impl SpriteList {
    /// One sprite for each rectangle, in the order given.
    pub open spec fn spec_sprites(&self) -> Seq<Sprite> {
        Seq::new(
            self.sprites@.len(),
            |i: int| self.sprites@[i].spec_sprite(self.texture_width, self.texture_height),
        )
    }

    /// Locates every sprite of the list on the texture.
    pub fn build_sprites(&self) -> (sprites: Vec<Sprite>)
        ensures
            sprites@ == self.spec_sprites(),
    {
        let mut sprites: Vec<Sprite> = Vec::new();
        let mut i: usize = 0;
        while i < self.sprites.len()
            invariant
                i <= self.sprites@.len(),
                sprites@.len() == i,
                forall|k: int|
                    0 <= k < i ==> sprites@[k] == (#[trigger] self.sprites@[k]).spec_sprite(
                        self.texture_width,
                        self.texture_height,
                    ),
            decreases self.sprites@.len() - i,
        {
            let position = &self.sprites[i];
            let offsets = match position.offsets {
                Some(offsets) => offsets,
                None => [0u32, 0u32],
            };
            sprites.push(
                Sprite::from_pixel_values(
                    self.texture_width,
                    self.texture_height,
                    position.width,
                    position.height,
                    position.x as u64,
                    position.y as u64,
                    offsets,
                ),
            );
            i += 1;
        }
        assert(sprites@ =~= self.spec_sprites());
        sprites
    }
}

/// The quotient of `n` by `d`, rounded up.
pub open spec fn div_ceil(n: int, d: int) -> int {
    if n % d == 0 {
        n / d
    } else {
        n / d + 1
    }
}

/// Sprites laid out as a regular grid of cells on a texture. What is not given
/// is derived from what is.
#[derive(Clone, Copy, Debug, PartialEq, Eq)]
pub struct SpriteGrid {
    /// Width of the texture in pixels.
    pub texture_width: u32,
    /// Height of the texture in pixels.
    pub texture_height: u32,
    /// Number of cells in a row of the grid.
    pub columns: u32,
    /// Number of rows of the grid.
    pub rows: Option<u32>,
    /// Number of sprites; the cells are taken row by row from the top left.
    pub sprite_count: Option<u32>,
    /// Width and height of a cell in pixels.
    pub cell_size: Option<(u32, u32)>,
    /// Where the grid starts, in pixels from the top left corner of the image.
    pub position: Option<(u32, u32)>,
    /// Pivot offsets shared by every sprite of the grid, as in
    /// [`Sprite::offsets`]; none means no shift.
    pub offsets: Option<[u32; 2]>,
}

impl Default for SpriteGrid {
    fn default() -> (grid: Self)
        ensures
            grid == (SpriteGrid {
                texture_width: 0,
                texture_height: 0,
                columns: 0,
                rows: None,
                sprite_count: None,
                cell_size: None,
                position: None,
                offsets: None,
            }),
    {
        SpriteGrid {
            texture_width: 0,
            texture_height: 0,
            columns: 0,
            rows: None,
            sprite_count: None,
            cell_size: None,
            position: None,
            offsets: None,
        }
    }
}

impl SpriteGrid {
    /// The number of rows: the one given; else as many cells of the given height
    /// as fit in the texture; else as many as hold the given number of sprites;
    /// else one.
    pub open spec fn spec_rows(&self) -> int {
        match self.rows {
            Some(rows) => rows as int,
            None => match self.cell_size {
                Some(size) => self.texture_height as int / size.1 as int,
                None => match self.sprite_count {
                    Some(count) => div_ceil(count as int, self.columns as int),
                    None => 1,
                },
            },
        }
    }

    /// The number of sprites: the one given, else every cell of the grid.
    pub open spec fn spec_sprite_count(&self) -> int {
        match self.sprite_count {
            Some(count) => count as int,
            None => self.spec_rows() * self.columns,
        }
    }

    /// Width and height of a cell: the ones given, else the texture divided
    /// evenly among columns and rows.
    pub open spec fn spec_cell_size(&self) -> (int, int) {
        match self.cell_size {
            Some(size) => (size.0 as int, size.1 as int),
            None => (
                self.texture_width as int / self.columns as int,
                self.texture_height as int / self.spec_rows(),
            ),
        }
    }

    /// The number of rows can be derived without dividing by zero.
    pub open spec fn rows_derivable(&self) -> bool {
        self.rows is None ==> match self.cell_size {
            Some(size) => size.1 > 0,
            None => self.sprite_count is Some ==> self.columns > 0,
        }
    }

    /// The size of a cell can be derived without dividing by zero.
    pub open spec fn cell_size_derivable(&self) -> bool {
        self.cell_size is None ==> self.columns > 0 && self.rows_derivable() && self.spec_rows()
            > 0
    }

    /// The grid has a column, and rows and cell size can be derived.
    pub open spec fn valid(&self) -> bool {
        &&& self.columns > 0
        &&& self.rows_derivable()
        &&& self.cell_size_derivable()
    }

    /// The sprite in cell number `cell`, cells counted row by row from the top
    /// left of the grid.
    pub open spec fn spec_sprite(&self, cell: int) -> Sprite {
        let size = self.spec_cell_size();
        let position = match self.position {
            Some(position) => position,
            None => (0u32, 0u32),
        };
        let row = cell / self.columns as int;
        let column = cell % self.columns as int;
        Sprite::spec_from_pixel_values(
            self.texture_width,
            self.texture_height,
            size.0 as u32,
            size.1 as u32,
            (column * size.0 + position.0) as u64,
            (row * size.1 + position.1) as u64,
            match self.offsets {
                Some(offsets) => offsets,
                None => [0u32, 0u32],
            },
        )
    }

    /// The sprites of the grid, row by row from the top, each row from the left.
    pub open spec fn spec_sprites(&self) -> Seq<Sprite> {
        Seq::new(self.spec_sprite_count() as nat, |cell: int| self.spec_sprite(cell))
    }

    /// Tells whether the grid is [`valid`](Self::valid).
    pub fn is_valid(&self) -> (valid: bool)
        ensures
            valid == self.valid(),
    {
        if self.columns == 0 {
            return false;
        }
        match self.cell_size {
            Some(size) => self.rows.is_some() || size.1 > 0,
            None => match self.rows {
                Some(rows) => rows > 0,
                None => match self.sprite_count {
                    Some(count) => {
                        proof {
                            lemma_div_ceil_positive(count as int, self.columns as int);
                        }
                        count > 0
                    },
                    None => true,
                },
            },
        }
    }

    /// The number of rows of the grid.
    pub fn rows(&self) -> (rows: u32)
        requires
            self.rows_derivable(),
        ensures
            rows == self.spec_rows(),
            self.rows is None && self.cell_size is None && self.sprite_count is None ==> rows == 1,
    {
        match self.rows {
            Some(rows) => rows,
            None => match self.cell_size {
                Some(size) => self.texture_height / size.1,
                None => match self.sprite_count {
                    Some(count) => {
                        if count % self.columns == 0 {
                            count / self.columns
                        } else {
                            proof {
                                lemma_div_ceil_bounds(count as int, self.columns as int);
                            }
                            count / self.columns + 1
                        }
                    },
                    None => 1,
                },
            },
        }
    }

    /// The number of sprites of the grid.
    pub fn sprite_count(&self) -> (count: u64)
        requires
            self.sprite_count is None ==> self.rows_derivable(),
        ensures
            count == self.spec_sprite_count(),
    {
        match self.sprite_count {
            Some(count) => count as u64,
            None => {
                let rows = self.rows();
                assert(rows * self.columns <= 0xFFFF_FFFF * 0xFFFF_FFFF) by (nonlinear_arith)
                    requires
                        rows <= 0xFFFF_FFFF,
                        self.columns <= 0xFFFF_FFFF,
                ;
                rows as u64 * self.columns as u64
            },
        }
    }

    /// Width and height of a cell of the grid.
    pub fn cell_size(&self) -> (size: (u32, u32))
        requires
            self.cell_size_derivable(),
        ensures
            size.0 == self.spec_cell_size().0,
            size.1 == self.spec_cell_size().1,
    {
        match self.cell_size {
            Some(size) => size,
            None => (self.texture_width / self.columns, self.texture_height / self.rows()),
        }
    }

    /// Locates every sprite of the grid on the texture.
    pub fn build_sprites(&self) -> (sprites: Vec<Sprite>)
        requires
            self.valid(),
        ensures
            sprites@ == self.spec_sprites(),
    {
        let count = self.sprite_count();
        let size = self.cell_size();
        let position = match self.position {
            Some(position) => position,
            None => (0u32, 0u32),
        };
        let offsets = match self.offsets {
            Some(offsets) => offsets,
            None => [0u32, 0u32],
        };
        let columns = self.columns as u64;
        let mut sprites: Vec<Sprite> = Vec::new();
        let mut cell: u64 = 0;
        while cell < count
            invariant
                self.valid(),
                cell <= count,
                count == self.spec_sprite_count(),
                columns == self.columns,
                size.0 == self.spec_cell_size().0,
                size.1 == self.spec_cell_size().1,
                position == match self.position {
                    Some(position) => position,
                    None => (0u32, 0u32),
                },
                offsets == match self.offsets {
                    Some(offsets) => offsets,
                    None => [0u32, 0u32],
                },
                sprites@.len() == cell,
                forall|k: int| 0 <= k < cell ==> sprites@[k] == #[trigger] self.spec_sprite(k),
            decreases count - cell,
        {
            let row = cell / columns;
            let column = cell % columns;
            proof {
                self.lemma_cell_bounds(cell as int);
                assert(row * size.1 <= 0xFFFF_FFFF * 0xFFFF_FFFF) by (nonlinear_arith)
                    requires
                        0 <= row <= 0xFFFF_FFFF,
                        size.1 <= 0xFFFF_FFFF,
                ;
                assert(column * size.0 <= 0xFFFF_FFFF * 0xFFFF_FFFF) by (nonlinear_arith)
                    requires
                        0 <= column <= 0xFFFF_FFFF,
                        size.0 <= 0xFFFF_FFFF,
                ;
            }
            let x = column * size.0 as u64 + position.0 as u64;
            let y = row * size.1 as u64 + position.1 as u64;
            sprites.push(
                Sprite::from_pixel_values(
                    self.texture_width,
                    self.texture_height,
                    size.0,
                    size.1,
                    x,
                    y,
                    offsets,
                ),
            );
            cell += 1;
        }
        assert(sprites@ =~= self.spec_sprites());
        sprites
    }

    /// Two runs of [`build_sprites`](Self::build_sprites) on one grid give the
    /// same sprites: what is built depends on the grid alone.
    pub proof fn lemma_build_is_repeatable(&self, first: Seq<Sprite>, second: Seq<Sprite>)
        requires
            first == self.spec_sprites(),
            second == self.spec_sprites(),
        ensures
            first == second,
    {
    }

    /// A grid with a column and nothing else set has one row, whatever its
    /// texture and position.
    pub proof fn lemma_rows_default(&self)
        requires
            self.columns >= 1,
            self.rows is None,
            self.cell_size is None,
            self.sprite_count is None,
        ensures
            self.rows_derivable(),
            self.spec_rows() == 1,
    {
    }

    /// Rows derived from a number of sprites are the fewest that hold them.
    pub proof fn lemma_rows_hold_the_count(&self)
        requires
            self.columns >= 1,
            self.rows is None,
            self.cell_size is None,
            self.sprite_count is Some,
        ensures
            (self.spec_rows() - 1) * self.columns < self.sprite_count->0 <= self.spec_rows()
                * self.columns,
    {
        let count = self.sprite_count->0 as int;
        let columns = self.columns as int;
        assert(count == (count / columns) * columns + count % columns && 0 <= count % columns
            < columns) by (nonlinear_arith)
            requires
                columns > 0,
                count >= 0,
        ;
        assert((count / columns + 1) * columns == (count / columns) * columns + columns
            && (count / columns - 1) * columns == (count / columns) * columns - columns)
            by (nonlinear_arith);
    }

    /// Where the size of the cells is derived and the grid starts at the corner
    /// of the image, every cell within the rows of the grid lies within the
    /// image: its rectangle lies between 0 and 1.
    pub proof fn lemma_derived_cells_lie_within(&self, cell: int)
        requires
            self.valid(),
            self.cell_size is None,
            self.position is None,
            0 <= cell < self.spec_sprite_count(),
            cell < self.spec_rows() * self.columns,
        ensures
            self.spec_sprite(cell).tex_coords.normalized(),
    {
        let columns = self.columns as int;
        let rows = self.spec_rows();
        let width = self.texture_width as int;
        let height = self.texture_height as int;
        let row = cell / columns;
        let column = cell % columns;
        self.lemma_rows_bounds();
        assert(0 <= row < rows && 0 <= column < columns) by (nonlinear_arith)
            requires
                0 <= cell < rows * columns,
                columns > 0,
                row == cell / columns,
                column == cell % columns,
        ;
        assert(0 <= column * (width / columns) && (column + 1) * (width / columns) <= width
            && column * (width / columns) + width / columns == (column + 1) * (width / columns)
            && 0 <= width / columns <= width) by (nonlinear_arith)
            requires
                0 <= column < columns,
                0 <= width,
        ;
        assert(0 <= row * (height / rows) && (row + 1) * (height / rows) <= height && row * (
        height / rows) + height / rows == (row + 1) * (height / rows) && 0 <= height / rows
            <= height) by (nonlinear_arith)
            requires
                0 <= row < rows,
                0 <= height,
        ;
    }

    /// Row and column of a cell of a valid grid fit in 32 bits.
    pub proof fn lemma_cell_bounds(&self, cell: int)
        requires
            self.valid(),
            0 <= cell < self.spec_sprite_count(),
        ensures
            0 <= cell / (self.columns as int) <= u32::MAX,
            0 <= cell % (self.columns as int) < self.columns,
    {
        let columns = self.columns as int;
        assert(0 <= cell / columns <= cell && 0 <= cell % columns < columns) by (nonlinear_arith)
            requires
                0 <= cell,
                columns > 0,
        ;
        if self.sprite_count is None {
            let rows = self.spec_rows();
            assert(cell / columns < rows) by (nonlinear_arith)
                requires
                    0 <= cell < rows * columns,
                    columns > 0,
            ;
            self.lemma_rows_bounds();
        }
    }

    /// The derived number of rows fits in 32 bits.
    pub proof fn lemma_rows_bounds(&self)
        requires
            self.rows_derivable(),
        ensures
            0 <= self.spec_rows() <= u32::MAX,
    {
        match self.rows {
            Some(rows) => {},
            None => match self.cell_size {
                Some(size) => {
                    let height = self.texture_height as int;
                    let cell = size.1 as int;
                    assert(0 <= height / cell <= height) by (nonlinear_arith)
                        requires
                            0 <= height,
                            cell > 0,
                    ;
                },
                None => match self.sprite_count {
                    Some(count) => {
                        lemma_div_ceil_bounds(count as int, self.columns as int);
                    },
                    None => {},
                },
            },
        }
    }
}

/// A block of sprites of a sheet: a list of rectangles or a grid.
#[derive(Debug, PartialEq, Eq)]
pub enum Sprites {
    /// Sprites given one by one.
    List(SpriteList),
    /// Sprites laid out as a grid.
    Grid(SpriteGrid),
}

impl Clone for Sprites {
    fn clone(&self) -> (copy: Self)
        ensures
            copy.spec_sprites() == self.spec_sprites(),
            copy.valid() == self.valid(),
    {
        match self {
            Sprites::List(list) => {
                let copy = list.clone();
                assert(copy.spec_sprites() =~= list.spec_sprites());
                Sprites::List(copy)
            },
            Sprites::Grid(grid) => Sprites::Grid(*grid),
        }
    }
}

impl Sprites {
    /// A list is always valid, a grid where [`SpriteGrid::valid`] holds.
    pub open spec fn valid(&self) -> bool {
        match self {
            Sprites::List(_) => true,
            Sprites::Grid(grid) => grid.valid(),
        }
    }

    /// The sprites of the block, in order.
    pub open spec fn spec_sprites(&self) -> Seq<Sprite> {
        match self {
            Sprites::List(list) => list.spec_sprites(),
            Sprites::Grid(grid) => grid.spec_sprites(),
        }
    }

    /// Tells whether the block is [`valid`](Self::valid).
    pub fn is_valid(&self) -> (valid: bool)
        ensures
            valid == self.valid(),
    {
        match self {
            Sprites::List(_) => true,
            Sprites::Grid(grid) => grid.is_valid(),
        }
    }

    /// Locates every sprite of the block on the texture.
    pub fn build_sprites(&self) -> (sprites: Vec<Sprite>)
        requires
            self.valid(),
        ensures
            sprites@ == self.spec_sprites(),
    {
        match self {
            Sprites::List(list) => list.build_sprites(),
            Sprites::Grid(grid) => grid.build_sprites(),
        }
    }
}

/// What makes an entity draw a sprite: a sheet and the number of one of its
/// sprites. `H` is the handle by which the sheet is shared.
#[derive(Debug, PartialEq, Eq)]
pub struct SpriteRender<H> {
    /// Handle of the sprite sheet.
    pub sprite_sheet: H,
    /// Number of the sprite on the sheet.
    pub sprite_number: usize,
}

/// Rounding a quotient up stays between zero and the dividend.
pub proof fn lemma_div_ceil_bounds(n: int, d: int)
    requires
        0 <= n,
        0 < d,
    ensures
        0 <= div_ceil(n, d) <= n,
{
    assert(0 <= n / d <= n && (n % d != 0 ==> n / d + 1 <= n)) by (nonlinear_arith)
        requires
            0 <= n,
            0 < d,
    ;
}

/// A quotient rounded up is zero only if the dividend is.
pub proof fn lemma_div_ceil_positive(n: int, d: int)
    requires
        0 <= n,
        0 < d,
    ensures
        div_ceil(n, d) > 0 <==> n > 0,
{
    assert((n / d > 0 || n % d != 0) <==> n > 0) by (nonlinear_arith)
        requires
            0 <= n,
            0 < d,
    ;
    assert(n / d >= 0) by (nonlinear_arith)
        requires
            0 <= n,
            0 < d,
    ;
}

} // verus!
