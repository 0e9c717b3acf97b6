use vstd::prelude::*;
use crate::color::Color;

verus! {

/// The width in pixels of the standard screen.
pub const SCREEN_WIDTH: usize = 1600;

/// The height in pixels of the standard screen.
pub const SCREEN_HEIGHT: usize = 900;

/// The largest width and height, in pixels, of a frame buffer.
pub const SCREEN_DIM_MAX: usize = 32768;

/// The picture of one frame, stored column by column so that each screen
/// column can be computed and written on its own.
#[derive(Debug)]
pub struct Framebuffer {
    width: usize,
    height: usize,
    columns: Vec<Vec<Color>>,
}

fn uniform_column(height: usize, color: Color) -> (column: Vec<Color>)
    ensures
        column@.len() == height,
        forall|y: int| 0 <= y < height ==> column@[y] == color,
{
    let mut column: Vec<Color> = Vec::new();
    let mut y: usize = 0;
    while y < height
        invariant
            y <= height,
            column@.len() == y,
            forall|j: int| 0 <= j < y ==> column@[j] == color,
        decreases height - y,
    {
        column.push(color);
        y += 1;
    }
    column
}

impl Framebuffer {
    /// Whether the buffer holds one colour for each pixel of a screen within
    /// the size limit.
    pub closed spec fn wf(&self) -> bool {
        &&& self.width <= SCREEN_DIM_MAX
        &&& self.height <= SCREEN_DIM_MAX
        &&& self.columns@.len() == self.width
        &&& forall|x: int| 0 <= x < self.width ==> (#[trigger] self.columns@[x])@.len() == self.height
    }

    /// The number of pixel columns.
    pub closed spec fn spec_width(&self) -> usize {
        self.width
    }

    /// The number of pixel rows.
    pub closed spec fn spec_height(&self) -> usize {
        self.height
    }

    /// The colour of the pixel in column `x` of row `y`.
    pub closed spec fn pixel(&self, x: int, y: int) -> Color {
        self.columns@[x]@[y]
    }

    /// Whether column `x` of row `y` is a pixel of the buffer.
    pub open spec fn on_screen(&self, x: int, y: int) -> bool {
        0 <= x < self.width() && 0 <= y < self.height()
    }

    /// A well-formed buffer is within the size limit.
    pub proof fn lemma_wf(&self)
        requires
            self.wf(),
        ensures
            self.width() <= SCREEN_DIM_MAX,
            self.height() <= SCREEN_DIM_MAX,
    {
    }

    fn uniform(width: usize, height: usize, color: Color) -> (fb: Framebuffer)
        requires
            width <= SCREEN_DIM_MAX,
            height <= SCREEN_DIM_MAX,
        ensures
            fb.wf(),
            fb.width() == width,
            fb.height() == height,
            forall|x: int, y: int| fb.on_screen(x, y) ==> #[trigger] fb.pixel(x, y) == color,
    {
        let mut columns: Vec<Vec<Color>> = Vec::new();
        let mut x: usize = 0;
        while x < width
            invariant
                x <= width,
                columns@.len() == x,
                forall|i: int| 0 <= i < x ==> (#[trigger] columns@[i])@.len() == height,
                forall|i: int, j: int| 0 <= i < x && 0 <= j < height ==> #[trigger] columns@[i]@[j] == color,
            decreases width - x,
        {
            columns.push(uniform_column(height, color));
            x += 1;
        }
        Framebuffer { width, height, columns }
    }

    /// A buffer of the standard screen size with every pixel of one colour.
    pub fn new(color: Color) -> (fb: Framebuffer)
        ensures
            fb.wf(),
            fb.width() == SCREEN_WIDTH,
            fb.height() == SCREEN_HEIGHT,
            forall|x: int, y: int| fb.on_screen(x, y) ==> #[trigger] fb.pixel(x, y) == color,
    {
        Framebuffer::uniform(SCREEN_WIDTH, SCREEN_HEIGHT, color)
    }

    /// A buffer of the given size with every pixel of one colour, or nothing
    /// if the size is above the limit.
    pub fn with_size(width: usize, height: usize, color: Color) -> (r: Option<Framebuffer>)
        ensures
            r is Some <==> width <= SCREEN_DIM_MAX && height <= SCREEN_DIM_MAX,
            match r {
                Some(fb) => {
                    &&& fb.wf()
                    &&& fb.width() == width
                    &&& fb.height() == height
                    &&& forall|x: int, y: int| fb.on_screen(x, y) ==> #[trigger] fb.pixel(x, y) == color
                },
                None => true,
            },
    {
        if width > SCREEN_DIM_MAX || height > SCREEN_DIM_MAX {
            None
        } else {
            Some(Framebuffer::uniform(width, height, color))
        }
    }

    /// The number of pixel columns.
    #[verifier::when_used_as_spec(spec_width)]
    pub fn width(&self) -> (w: usize)
        ensures
            w == self.width(),
    {
        self.width
    }

    /// The number of pixel rows.
    #[verifier::when_used_as_spec(spec_height)]
    pub fn height(&self) -> (h: usize)
        ensures
            h == self.height(),
    {
        self.height
    }

    /// The colour of the pixel in column `x` of row `y`.
    pub fn get_pixel(&self, x: usize, y: usize) -> (c: Color)
        requires
            self.wf(),
            x < self.width(),
            y < self.height(),
        ensures
            c == self.pixel(x as int, y as int),
    {
        self.columns[x][y]
    }

    /// Gives every pixel the same colour.
    pub fn clear(&mut self, color: Color)
        requires
            old(self).wf(),
        ensures
            final(self).wf(),
            final(self).width() == old(self).width(),
            final(self).height() == old(self).height(),
            forall|x: int, y: int| final(self).on_screen(x, y) ==> #[trigger] final(self).pixel(x, y) == color,
    {
        let mut x: usize = 0;
        while x < self.width
            invariant
                self.wf(),
                self.width == old(self).width,
                self.height == old(self).height,
                x <= self.width,
                forall|i: int, j: int| 0 <= i < x && 0 <= j < self.height ==> #[trigger] self.columns@[i]@[j] == color,
            decreases self.width - x,
        {
            let column = uniform_column(self.height, color);
            self.columns.set(x, column);
            x += 1;
        }
    }

    /// Replaces column `x` by the given colours, listed from the top row down.
    pub fn write_column(&mut self, x: usize, colors: Vec<Color>)
        requires
            old(self).wf(),
            x < old(self).width(),
            colors@.len() == old(self).height(),
        ensures
            final(self).wf(),
            final(self).width() == old(self).width(),
            final(self).height() == old(self).height(),
            forall|y: int| 0 <= y < old(self).height() ==> #[trigger] final(self).pixel(x as int, y) == colors@[y],
            forall|i: int, y: int|
                old(self).on_screen(i, y) && i != x ==> #[trigger] final(self).pixel(i, y) == old(self).pixel(i, y),
    {
        self.columns.set(x, colors);
    }
}

} // verus!
