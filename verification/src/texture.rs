use vstd::prelude::*;
use crate::color::Color;

verus! {

/// The number of texels in a texture row.
pub const TEX_WIDTH: usize = 10;

/// The number of texel rows in a texture.
pub const TEX_HEIGHT: usize = 10;

/// A square picture of `TEX_WIDTH` by `TEX_HEIGHT` colours that is drawn on
/// the faces of wall cells.
#[derive(Debug)]
pub struct Texture {
    texels: Vec<Color>,
}

impl Texture {
    /// Whether the texture holds exactly one colour for each of its texels.
    pub closed spec fn wf(&self) -> bool {
        self.texels@.len() == TEX_WIDTH * TEX_HEIGHT
    }

    /// The colour at column `x` of row `y`.
    pub closed spec fn texel(&self, x: int, y: int) -> Color {
        self.texels@[y * TEX_WIDTH + x]
    }

    /// A texture of one colour.
    pub fn filled(color: Color) -> (t: Texture)
        ensures
            t.wf(),
            forall|x: int, y: int| 0 <= x < TEX_WIDTH && 0 <= y < TEX_HEIGHT ==> t.texel(x, y) == color,
    {
        let mut texels: Vec<Color> = Vec::new();
        let mut i: usize = 0;
        while i < TEX_WIDTH * TEX_HEIGHT
            invariant
                i <= TEX_WIDTH * TEX_HEIGHT,
                texels@.len() == i,
                forall|k: int| 0 <= k < i ==> texels@[k] == color,
            decreases TEX_WIDTH * TEX_HEIGHT - i,
        {
            texels.push(color);
            i += 1;
        }
        Texture { texels }
    }

    /// The colour at column `x` of row `y`.
    pub fn get(&self, x: usize, y: usize) -> (c: Color)
        requires
            self.wf(),
            x < TEX_WIDTH,
            y < TEX_HEIGHT,
        ensures
            c == self.texel(x as int, y as int),
    {
        self.texels[y * TEX_WIDTH + x]
    }

    /// Replaces the colour at column `x` of row `y`.
    pub fn set(&mut self, x: usize, y: usize, color: Color)
        requires
            old(self).wf(),
            x < TEX_WIDTH,
            y < TEX_HEIGHT,
        ensures
            final(self).wf(),
            final(self).texel(x as int, y as int) == color,
            forall|i: int, j: int|
                0 <= i < TEX_WIDTH && 0 <= j < TEX_HEIGHT && (i != x || j != y) ==> final(self).texel(i, j)
                    == old(self).texel(i, j),
    {
        self.texels.set(y * TEX_WIDTH + x, color);
    }

    /// Gives every texel of row `y` the same colour.
    pub fn fill_row(&mut self, y: usize, color: Color)
        requires
            old(self).wf(),
            y < TEX_HEIGHT,
        ensures
            final(self).wf(),
            forall|i: int| 0 <= i < TEX_WIDTH ==> #[trigger] final(self).texel(i, y as int) == color,
            forall|i: int, j: int|
                0 <= i < TEX_WIDTH && 0 <= j < TEX_HEIGHT && j != y ==> final(self).texel(i, j) == old(
                    self,
                ).texel(i, j),
    {
        let mut x: usize = 0;
        while x < TEX_WIDTH
            invariant
                self.wf(),
                y < TEX_HEIGHT,
                x <= TEX_WIDTH,
                forall|i: int| 0 <= i < x ==> #[trigger] self.texel(i, y as int) == color,
                forall|i: int, j: int|
                    0 <= i < TEX_WIDTH && 0 <= j < TEX_HEIGHT && j != y ==> self.texel(i, j) == old(self).texel(
                        i,
                        j,
                    ),
            decreases TEX_WIDTH - x,
        {
            self.set(x, y, color);
            x += 1;
        }
    }
}

} // verus!
