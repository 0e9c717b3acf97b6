use vstd::prelude::*;
use crate::color::{corrected, rgb, Color};
use crate::texture::{Texture, TEX_HEIGHT, TEX_WIDTH};

verus! {

/// The largest width and height a grid may have: every cell of such a grid can
/// hold a position that the fixed-point coordinates represent.
pub const GRID_DIM_MAX: usize = 32768;

/// What a grid cell holds: nothing, or a wall that shows one of the map's
/// textures, named by its index in the map's texture table.
#[derive(Clone, Copy, Debug, PartialEq, Eq, Structural)]
pub enum Cell {
    Empty,
    Wall(usize),
}

/// Why a map could not be built from a list of cell descriptors.
#[derive(Clone, Copy, Debug, PartialEq, Eq, Structural)]
pub enum GridError {
    /// The width or the height is above `GRID_DIM_MAX`.
    TooLarge,
    /// The number of descriptors is not width times height.
    CellCount,
    /// The descriptor at this index is the first that names a texture which
    /// the table lacks.
    UnknownDescriptor(usize),
}

/// A rectangular grid of cells together with the textures its walls show.
#[derive(Debug)]
pub struct Grid {
    width: usize,
    height: usize,
    rows: Vec<Vec<Cell>>,
    textures: Vec<Texture>,
}

/// The cell that a descriptor stands for: 0 is the empty cell, and `d > 0`
/// is a wall with texture `d - 1`.
pub open spec fn cell_of_descriptor(d: usize) -> Cell {
    if d == 0 {
        Cell::Empty
    } else {
        Cell::Wall((d - 1) as usize)
    }
}

/// Whether every texture of the table is well formed.
pub open spec fn textures_wf(textures: Seq<Texture>) -> bool {
    forall|t: int| 0 <= t < textures.len() ==> (#[trigger] textures[t]).wf()
}

/// Whether the descriptors before index `end` all name the empty cell or a
/// texture of a table of `count` textures.
pub open spec fn descriptors_known(descriptors: Seq<usize>, count: nat, end: int) -> bool {
    forall|k: int| 0 <= k < end && k < descriptors.len() ==> #[trigger] descriptors[k] <= count
}

impl Grid {
    /// Whether the grid is a rectangle within the size limit whose walls all
    /// name a texture of the table, and the textures are well formed.
    pub closed spec fn wf(&self) -> bool {
        &&& self.width <= GRID_DIM_MAX
        &&& self.height <= GRID_DIM_MAX
        &&& self.rows@.len() == self.height
        &&& forall|y: int| 0 <= y < self.height ==> (#[trigger] self.rows@[y])@.len() == self.width
        &&& forall|x: int, y: int|
            0 <= x < self.width && 0 <= y < self.height ==> match #[trigger] self.rows@[y]@[x] {
                Cell::Wall(t) => t < self.textures@.len(),
                Cell::Empty => true,
            }
        &&& textures_wf(self.textures@)
    }

    /// The number of columns of the grid.
    pub closed spec fn spec_width(&self) -> usize {
        self.width
    }

    /// The number of rows of the grid.
    pub closed spec fn spec_height(&self) -> usize {
        self.height
    }

    /// The cell in column `x` of row `y`.
    pub closed spec fn cell_at(&self, x: int, y: int) -> Cell {
        self.rows@[y]@[x]
    }

    /// The texture table.
    pub closed spec fn textures(&self) -> Seq<Texture> {
        self.textures@
    }

    /// Whether column `x` of row `y` lies inside the grid.
    pub open spec fn in_bounds(&self, x: int, y: int) -> bool {
        0 <= x < self.width() && 0 <= y < self.height()
    }

    /// A well-formed map is within the size limit, its walls name textures of
    /// its table, and those textures are well formed.
    pub proof fn lemma_wf(&self)
        requires
            self.wf(),
        ensures
            self.width() <= GRID_DIM_MAX,
            self.height() <= GRID_DIM_MAX,
            textures_wf(self.textures()),
            forall|x: int, y: int|
                self.in_bounds(x, y) ==> match #[trigger] self.cell_at(x, y) {
                    Cell::Wall(t) => t < self.textures().len(),
                    Cell::Empty => true,
                },
    {
        assert forall|x: int, y: int| self.in_bounds(x, y) implies match #[trigger] self.cell_at(x, y) {
            Cell::Wall(t) => t < self.textures().len(),
            Cell::Empty => true,
        } by {
            let c = self.rows@[y]@[x];
        }
    }

    /// Builds a map of the given size from one descriptor per cell, row by
    /// row, and the table of textures that the descriptors refer to.
    pub fn from_descriptors(
        width: usize,
        height: usize,
        descriptors: &Vec<usize>,
        textures: Vec<Texture>,
    ) -> (r: Result<Grid, GridError>)
        requires
            textures_wf(textures@),
        ensures
            match r {
                Ok(m) => {
                    &&& width <= GRID_DIM_MAX && height <= GRID_DIM_MAX
                    &&& descriptors@.len() == width * height
                    &&& descriptors_known(descriptors@, textures@.len(), descriptors@.len() as int)
                    &&& m.wf()
                    &&& m.width() == width
                    &&& m.height() == height
                    &&& m.textures() == textures@
                    &&& forall|x: int, y: int|
                        0 <= x < width && 0 <= y < height ==> #[trigger] m.cell_at(x, y)
                            == cell_of_descriptor(descriptors@[y * width + x])
                },
                Err(GridError::TooLarge) => width > GRID_DIM_MAX || height > GRID_DIM_MAX,
                Err(GridError::CellCount) => {
                    &&& width <= GRID_DIM_MAX && height <= GRID_DIM_MAX
                    &&& descriptors@.len() != width * height
                },
                Err(GridError::UnknownDescriptor(i)) => {
                    &&& width <= GRID_DIM_MAX && height <= GRID_DIM_MAX
                    &&& descriptors@.len() == width * height
                    &&& i < descriptors@.len()
                    &&& descriptors@[i as int] > textures@.len()
                    &&& descriptors_known(descriptors@, textures@.len(), i as int)
                },
            },
    {
        if width > GRID_DIM_MAX || height > GRID_DIM_MAX {
            return Err(GridError::TooLarge);
        }
        assert(width * height <= 32768 * 32768) by (nonlinear_arith)
            requires
                width <= 32768,
                height <= 32768,
        ;
        if descriptors.len() != width * height {
            return Err(GridError::CellCount);
        }
        let count = textures.len();
        let mut rows: Vec<Vec<Cell>> = Vec::new();
        let mut y: usize = 0;
        while y < height
            invariant
                y <= height,
                width <= GRID_DIM_MAX,
                height <= GRID_DIM_MAX,
                descriptors@.len() == width * height,
                width * height <= 0x4000_0000,
                count == textures@.len(),
                rows@.len() == y,
                forall|j: int| 0 <= j < y ==> (#[trigger] rows@[j])@.len() == width,
                forall|i: int, j: int|
                    0 <= i < width && 0 <= j < y ==> #[trigger] rows@[j]@[i] == cell_of_descriptor(
                        descriptors@[j * width + i],
                    ),
                forall|k: int| 0 <= k < y * width ==> descriptors@[k] <= count,
            decreases height - y,
        {
            assert(y * width + width <= width * height) by (nonlinear_arith)
                requires
                    y < height,
            ;
            let base: usize = y * width;
            let mut row: Vec<Cell> = Vec::new();
            let mut x: usize = 0;
            while x < width
                invariant
                    x <= width,
                    width <= GRID_DIM_MAX,
                    height <= GRID_DIM_MAX,
                    descriptors@.len() == width * height,
                    width * height <= 0x4000_0000,
                    base == y * width,
                    base + width <= descriptors@.len(),
                    count == textures@.len(),
                    row@.len() == x,
                    forall|i: int| 0 <= i < x ==> #[trigger] row@[i] == cell_of_descriptor(descriptors@[base + i]),
                    forall|k: int| 0 <= k < base + x ==> descriptors@[k] <= count,
                decreases width - x,
            {
                let d = descriptors[base + x];
                if d > count {
                    return Err(GridError::UnknownDescriptor(base + x));
                }
                row.push(if d == 0 {
                    Cell::Empty
                } else {
                    Cell::Wall(d - 1)
                });
                x += 1;
            }
            rows.push(row);
            assert((y + 1) * width == y * width + width) by (nonlinear_arith);
            y += 1;
        }
        let m = Grid { width, height, rows, textures };
        assert forall|x: int, y: int| 0 <= x < width && 0 <= y < height implies match #[trigger] m.rows@[y]@[x] {
            Cell::Wall(t) => t < m.textures@.len(),
            Cell::Empty => true,
        } by {
            assert(0 <= y * width + x < y * width + width <= height * width) by (nonlinear_arith)
                requires
                    0 <= x < width,
                    0 <= y < height,
            ;
        }
        Ok(m)
    }

    /// The number of columns of the grid.
    #[verifier::when_used_as_spec(spec_width)]
    pub fn width(&self) -> (w: usize)
        ensures
            w == self.width(),
    {
        self.width
    }

    /// The number of rows of the grid.
    #[verifier::when_used_as_spec(spec_height)]
    pub fn height(&self) -> (h: usize)
        ensures
            h == self.height(),
    {
        self.height
    }

    /// The cell in column `x` of row `y`.
    pub fn get_cell(&self, x: usize, y: usize) -> (c: &Cell)
        requires
            self.wf(),
            x < self.width(),
            y < self.height(),
        ensures
            *c == self.cell_at(x as int, y as int),
    {
        &self.rows[y][x]
    }

    /// The texture with the given index in the table.
    pub fn texture(&self, index: usize) -> (t: &Texture)
        requires
            self.wf(),
            index < self.textures().len(),
        ensures
            *t == self.textures()[index as int],
            t.wf(),
    {
        &self.textures[index]
    }
}

/// The index of the gradient texture in the table of the built-in grid.
pub const TEXTURE_GRADIENT: usize = 0;

/// The index of the texture with vertical stripes.
pub const TEXTURE_STRIPES: usize = 1;

/// The index of the texture with horizontal stripes.
pub const TEXTURE_STRIPES_H: usize = 2;

/// The index of the outlined texture.
pub const TEXTURE_OUTLINE: usize = 3;

/// The index of the texture with a red left and a blue right edge.
pub const TEXTURE_A: usize = 4;

/// The gradient texture: blue, brighter from row to row.
pub open spec fn gradient_texel(x: int, y: int) -> Color {
    corrected(rgb(0, 121, 241), y)
}

/// The texture with vertical stripes of two colours.
pub open spec fn stripes_texel(x: int, y: int) -> Color {
    if x % 2 == 0 {
        rgb(0x21, 0xc4, 0xab)
    } else {
        rgb(0x21, 0x68, 0xc4)
    }
}

/// The texture with horizontal stripes of two colours.
pub open spec fn stripes_h_texel(x: int, y: int) -> Color {
    if y % 2 == 0 {
        rgb(0xe2, 0xb8, 0x1f)
    } else {
        rgb(0xb0, 0xba, 0xc4)
    }
}

/// The black texture with a red left and a blue right edge.
pub open spec fn a_texel(x: int, y: int) -> Color {
    if x == 0 {
        rgb(230, 41, 55)
    } else if x == TEX_WIDTH - 1 {
        rgb(0, 121, 241)
    } else {
        rgb(0, 0, 0)
    }
}

/// The black texture with a violet outline and a red texel in the middle.
pub open spec fn outline_texel(x: int, y: int) -> Color {
    if x == 0 || x == TEX_WIDTH - 1 || y == 0 || y == TEX_HEIGHT - 1 {
        rgb(0x6c, 0x1e, 0xfc)
    } else if x == TEX_WIDTH / 2 && y == TEX_HEIGHT / 2 {
        rgb(230, 41, 55)
    } else {
        rgb(0, 0, 0)
    }
}

/// Whether a texture shows the picture that `picture` describes.
pub open spec fn shows(texture: Texture, picture: spec_fn(int, int) -> Color) -> bool {
    forall|x: int, y: int|
        0 <= x < TEX_WIDTH && 0 <= y < TEX_HEIGHT ==> #[trigger] texture.texel(x, y) == picture(x, y)
}

/// The width of the built-in grid.
pub const DEFAULT_WIDTH: usize = 10;

/// The height of the built-in grid.
pub const DEFAULT_HEIGHT: usize = 15;

/// The cell in column `x` of row `y` of the built-in grid: a room enclosed
/// by outlined walls, with a few textured blocks inside.
pub open spec fn default_cell(x: int, y: int) -> Cell {
    if x == 0 || x == DEFAULT_WIDTH - 1 || y == 0 || y == DEFAULT_HEIGHT - 1 {
        Cell::Wall(TEXTURE_OUTLINE)
    } else if y == 4 && x == 2 {
        Cell::Wall(TEXTURE_STRIPES)
    } else if y == 4 && x == 4 {
        Cell::Wall(TEXTURE_GRADIENT)
    } else if y == 4 && x == 6 {
        Cell::Wall(TEXTURE_OUTLINE)
    } else if y == 4 && x == 8 {
        Cell::Wall(TEXTURE_A)
    } else if y == 7 && x == 2 {
        Cell::Wall(TEXTURE_STRIPES_H)
    } else if y == 9 && x == 2 {
        Cell::Wall(TEXTURE_A)
    } else if y == 11 && 2 <= x <= 5 {
        Cell::Wall(TEXTURE_GRADIENT)
    } else if y == 11 && x == 7 {
        Cell::Wall(TEXTURE_OUTLINE)
    } else {
        Cell::Empty
    }
}

impl Grid {
    /// Whether this is the built-in grid with its five textures.
    pub open spec fn is_default(&self) -> bool {
        &&& self.wf()
        &&& self.width() == DEFAULT_WIDTH
        &&& self.height() == DEFAULT_HEIGHT
        &&& forall|x: int, y: int| self.in_bounds(x, y) ==> #[trigger] self.cell_at(x, y) == default_cell(x, y)
        &&& self.textures().len() == 5
        &&& shows(self.textures()[TEXTURE_GRADIENT as int], |x: int, y: int| gradient_texel(x, y))
        &&& shows(self.textures()[TEXTURE_STRIPES as int], |x: int, y: int| stripes_texel(x, y))
        &&& shows(self.textures()[TEXTURE_STRIPES_H as int], |x: int, y: int| stripes_h_texel(x, y))
        &&& shows(self.textures()[TEXTURE_OUTLINE as int], |x: int, y: int| outline_texel(x, y))
        &&& shows(self.textures()[TEXTURE_A as int], |x: int, y: int| a_texel(x, y))
    }

    /// The built-in grid.
    pub fn new() -> (grid: Grid)
        ensures
            grid.is_default(),
    {
        let mut textures: Vec<Texture> = Vec::new();
        textures.push(Grid::texture_gradient());
        textures.push(Grid::texture_stripes());
        textures.push(Grid::texture_stripes_h());
        textures.push(Grid::texture_outline());
        textures.push(Grid::texture_a());
        let mut rows: Vec<Vec<Cell>> = Vec::new();
        let mut y: usize = 0;
        while y < DEFAULT_HEIGHT
            invariant
                y <= DEFAULT_HEIGHT,
                rows@.len() == y,
                forall|j: int| 0 <= j < y ==> (#[trigger] rows@[j])@.len() == DEFAULT_WIDTH,
                forall|i: int, j: int|
                    0 <= i < DEFAULT_WIDTH && 0 <= j < y ==> #[trigger] rows@[j]@[i] == default_cell(i, j),
            decreases DEFAULT_HEIGHT - y,
        {
            rows.push(Grid::default_row(y));
            y += 1;
        }
        Grid { width: DEFAULT_WIDTH, height: DEFAULT_HEIGHT, rows, textures }
    }

    fn default_row(y: usize) -> (row: Vec<Cell>)
        requires
            y < DEFAULT_HEIGHT,
        ensures
            row@.len() == DEFAULT_WIDTH,
            forall|i: int| 0 <= i < DEFAULT_WIDTH ==> #[trigger] row@[i] == default_cell(i, y as int),
    {
        let o = Cell::Wall(TEXTURE_OUTLINE);
        let g = Cell::Wall(TEXTURE_GRADIENT);
        let i = Cell::Wall(TEXTURE_STRIPES);
        let u = Cell::Wall(TEXTURE_STRIPES_H);
        let a = Cell::Wall(TEXTURE_A);
        let n = Cell::Empty;
        if y == 0 || y == DEFAULT_HEIGHT - 1 {
            vec![o, o, o, o, o, o, o, o, o, o]
        } else if y == 4 {
            vec![o, n, i, n, g, n, o, n, a, o]
        } else if y == 7 {
            vec![o, n, u, n, n, n, n, n, n, o]
        } else if y == 9 {
            vec![o, n, a, n, n, n, n, n, n, o]
        } else if y == 11 {
            vec![o, n, g, g, g, g, n, o, n, o]
        } else {
            vec![o, n, n, n, n, n, n, n, n, o]
        }
    }

    fn texture_gradient() -> (t: Texture)
        ensures
            t.wf(),
            shows(t, |x: int, y: int| gradient_texel(x, y)),
    {
        let mut tex = Texture::filled(Color::black());
        let mut y: usize = 0;
        while y < TEX_HEIGHT
            invariant
                tex.wf(),
                y <= TEX_HEIGHT,
                forall|i: int, j: int| 0 <= i < TEX_WIDTH && 0 <= j < y ==> tex.texel(i, j) == gradient_texel(i, j),
            decreases TEX_HEIGHT - y,
        {
            tex.fill_row(y, Color::blue().brightness(y as i8));
            y += 1;
        }
        tex
    }

    fn texture_stripes() -> (t: Texture)
        ensures
            t.wf(),
            shows(t, |x: int, y: int| stripes_texel(x, y)),
    {
        let mut tex = Texture::filled(Color::black());
        let color_a = Color::rgb(0x21, 0xc4, 0xab);
        let color_b = Color::rgb(0x21, 0x68, 0xc4);
        let mut x: usize = 0;
        while x < TEX_WIDTH
            invariant
                tex.wf(),
                x <= TEX_WIDTH,
                color_a == rgb(0x21, 0xc4, 0xab),
                color_b == rgb(0x21, 0x68, 0xc4),
                forall|i: int, j: int| 0 <= i < x && 0 <= j < TEX_HEIGHT ==> tex.texel(i, j) == stripes_texel(i, j),
            decreases TEX_WIDTH - x,
        {
            let color = if x % 2 == 0 {
                color_a
            } else {
                color_b
            };
            let mut y: usize = 0;
            while y < TEX_HEIGHT
                invariant
                    tex.wf(),
                    x < TEX_WIDTH,
                    y <= TEX_HEIGHT,
                    color == stripes_texel(x as int, 0),
                    forall|i: int, j: int|
                        0 <= i < x && 0 <= j < TEX_HEIGHT ==> tex.texel(i, j) == stripes_texel(i, j),
                    forall|j: int| 0 <= j < y ==> tex.texel(x as int, j) == stripes_texel(x as int, j),
                decreases TEX_HEIGHT - y,
            {
                tex.set(x, y, color);
                y += 1;
            }
            x += 1;
        }
        tex
    }

    fn texture_stripes_h() -> (t: Texture)
        ensures
            t.wf(),
            shows(t, |x: int, y: int| stripes_h_texel(x, y)),
    {
        let mut tex = Texture::filled(Color::black());
        let color_a = Color::rgb(0xe2, 0xb8, 0x1f);
        let color_b = Color::rgb(0xb0, 0xba, 0xc4);
        let mut y: usize = 0;
        while y < TEX_HEIGHT
            invariant
                tex.wf(),
                y <= TEX_HEIGHT,
                color_a == rgb(0xe2, 0xb8, 0x1f),
                color_b == rgb(0xb0, 0xba, 0xc4),
                forall|i: int, j: int| 0 <= i < TEX_WIDTH && 0 <= j < y ==> tex.texel(i, j) == stripes_h_texel(i, j),
            decreases TEX_HEIGHT - y,
        {
            tex.fill_row(
                y,
                if y % 2 == 0 {
                    color_a
                } else {
                    color_b
                },
            );
            y += 1;
        }
        tex
    }

    fn texture_a() -> (t: Texture)
        ensures
            t.wf(),
            shows(t, |x: int, y: int| a_texel(x, y)),
    {
        let mut tex = Texture::filled(Color::black());
        let color_left = Color::red();
        let color_right = Color::blue();
        let mut y: usize = 0;
        while y < TEX_HEIGHT
            invariant
                tex.wf(),
                y <= TEX_HEIGHT,
                color_left == rgb(230, 41, 55),
                color_right == rgb(0, 121, 241),
                forall|i: int, j: int| 0 <= i < TEX_WIDTH && 0 <= j < y ==> tex.texel(i, j) == a_texel(i, j),
                forall|i: int, j: int|
                    0 <= i < TEX_WIDTH && y <= j < TEX_HEIGHT ==> tex.texel(i, j) == rgb(0, 0, 0),
            decreases TEX_HEIGHT - y,
        {
            tex.set(0, y, color_left);
            tex.set(TEX_WIDTH - 1, y, color_right);
            y += 1;
        }
        tex
    }

    fn texture_outline() -> (t: Texture)
        ensures
            t.wf(),
            shows(t, |x: int, y: int| outline_texel(x, y)),
    {
        let mut tex = Texture::filled(Color::black());
        let color_a = Color::rgb(0x6c, 0x1e, 0xfc);
        let color_b = Color::red();
        tex.set(TEX_WIDTH / 2, TEX_HEIGHT / 2, color_b);
        let mut y: usize = 0;
        while y < TEX_HEIGHT
            invariant
                tex.wf(),
                y <= TEX_HEIGHT,
                color_a == rgb(0x6c, 0x1e, 0xfc),
                forall|i: int, j: int| 0 <= i < TEX_WIDTH && 0 <= j < y ==> tex.texel(i, j) == outline_texel(i, j),
                forall|i: int, j: int|
                    0 <= i < TEX_WIDTH && y <= j < TEX_HEIGHT ==> tex.texel(i, j) == if i == TEX_WIDTH / 2 && j
                        == TEX_HEIGHT / 2 {
                        rgb(230, 41, 55)
                    } else {
                        rgb(0, 0, 0)
                    },
            decreases TEX_HEIGHT - y,
        {
            tex.set(0, y, color_a);
            tex.set(TEX_WIDTH - 1, y, color_a);
            if y == 0 {
                tex.fill_row(y, color_a);
            }
            if y == TEX_HEIGHT - 1 {
                tex.fill_row(y, color_a);
            }
            y += 1;
        }
        tex
    }
}

} // verus!
