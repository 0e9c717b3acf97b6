use vstd::arithmetic::div_mod::{lemma_fundamental_div_mod, lemma_fundamental_div_mod_converse};
use vstd::prelude::*;
use crate::color::{corrected, Color, SIDE_SHADE};
use crate::fixed::{abs, lemma_product_bound, lemma_product_sign, representable, Vector2, SCALE};
use crate::framebuffer::{Framebuffer, SCREEN_DIM_MAX};
use crate::grid::{Cell, Grid, GRID_DIM_MAX};
use crate::player::Player;
use crate::texture::{Texture, TEX_HEIGHT, TEX_WIDTH};

verus! {

/// Which kind of cell boundary a ray crossed when it entered a wall: `X` is a
/// boundary between two columns of the grid, `Y` one between two rows.
#[derive(Clone, Copy, Debug, PartialEq, Eq, Structural)]
pub enum Side {
    X,
    Y,
}

/// The direction of the ray through one screen column. It is the camera's
/// direction plus the share of the camera plane that belongs to the column,
/// multiplied by the screen width, which keeps it exact: the real direction
/// is `(x, y) / (SCALE * screen_width)`.
#[derive(Clone, Copy, Debug, PartialEq, Eq, Structural)]
pub struct Ray {
    pub x: i64,
    pub y: i64,
}

/// Where a ray met a wall.
#[derive(Clone, Copy, Debug, PartialEq, Eq, Structural)]
pub struct WallHit {
    /// The column of the wall cell.
    pub cell_x: usize,
    /// The row of the wall cell.
    pub cell_y: usize,
    /// The kind of boundary through which the ray entered the cell.
    pub side: Side,
    /// The index of the wall's texture in the grid's table.
    pub texture: usize,
    /// The fixed-point distance, measured along the axis that the boundary
    /// crosses, from the ray's origin to that boundary.
    pub travel: i64,
}

/// The mathematical content of a `WallHit`.
pub struct Hit {
    pub cell_x: int,
    pub cell_y: int,
    pub side: Side,
    pub texture: int,
    pub travel: int,
}

impl View for WallHit {
    type V = Hit;

    open spec fn view(&self) -> Hit {
        Hit {
            cell_x: self.cell_x as int,
            cell_y: self.cell_y as int,
            side: self.side,
            texture: self.texture as int,
            travel: self.travel as int,
        }
    }
}

/// One coordinate of the ray through `column` on a screen `screen_width`
/// pixels wide, for a camera whose direction and plane have the coordinates
/// `direction` and `plane`. With `camera = 2 * column / screen_width - 1`
/// this is `(direction + plane * camera) * screen_width`.
pub open spec fn ray_coordinate(direction: int, plane: int, column: int, screen_width: int) -> int {
    direction * screen_width + plane * (2 * column - screen_width)
}

/// The index of the grid line at or below the fixed-point coordinate `p`,
/// which is the index of the cell that holds `p`.
pub open spec fn cell_index(p: int) -> int {
    p / (SCALE as int)
}

/// The fixed-point distance along one axis from the coordinate `p` to the
/// boundary through which a ray with coordinate `r` on that axis leaves the
/// cell with index `cell`.
pub open spec fn reach(p: int, r: int, cell: int) -> int {
    if r < 0 {
        p - cell * SCALE
    } else {
        (cell + 1) * SCALE - p
    }
}

/// The change of the cell index when a ray with coordinate `r` on an axis
/// crosses a boundary of that axis.
pub open spec fn step_of(r: int) -> int {
    if r < 0 {
        -1
    } else {
        1
    }
}

/// Whether the ray, now in cell `(cx, cy)`, next crosses a boundary between
/// columns. It does when that boundary is nearer along the ray than the next
/// boundary between rows: `reach_x / |ray.x| < reach_y / |ray.y|`, written
/// without the divisions, so that an axis on which the ray does not move is
/// never the nearer one.
pub open spec fn crosses_x(position: Vector2, ray: Ray, cx: int, cy: int) -> bool {
    reach(position.x as int, ray.x as int, cx) * abs(ray.y as int) < reach(
        position.y as int,
        ray.y as int,
        cy,
    ) * abs(ray.x as int)
}

/// The number of cells with index `cell` or beyond, in the direction of `r`,
/// on an axis of `len` cells.
pub open spec fn room(len: int, r: int, cell: int) -> int {
    if r < 0 {
        if cell >= 0 {
            cell + 1
        } else {
            0
        }
    } else {
        if cell < len {
            len - cell
        } else {
            0
        }
    }
}

/// The traversal of the grid by a ray that has reached cell `(cx, cy)`: the
/// ray crosses the nearer boundary into the next cell; outside the grid it
/// has met no wall, in a wall cell it stops, and from an empty cell it goes
/// on.
pub open spec fn trace(grid: Grid, position: Vector2, ray: Ray, cx: int, cy: int) -> Option<Hit>
    decreases room(grid.width() as int, ray.x as int, cx) + room(grid.height() as int, ray.y as int, cy),
{
    let by_x = crosses_x(position, ray, cx, cy);
    let nx = if by_x {
        cx + step_of(ray.x as int)
    } else {
        cx
    };
    let ny = if by_x {
        cy
    } else {
        cy + step_of(ray.y as int)
    };
    if !grid.in_bounds(nx, ny) {
        None
    } else {
        match grid.cell_at(nx, ny) {
            Cell::Wall(t) => Some(
                Hit {
                    cell_x: nx,
                    cell_y: ny,
                    side: if by_x {
                        Side::X
                    } else {
                        Side::Y
                    },
                    texture: t as int,
                    travel: if by_x {
                        reach(position.x as int, ray.x as int, cx)
                    } else {
                        reach(position.y as int, ray.y as int, cy)
                    },
                },
            ),
            Cell::Empty => trace(grid, position, ray, nx, ny),
        }
    }
}

/// What a ray from `position` meets: nothing if it has no direction, else
/// what the traversal from the cell that holds `position` meets. That cell
/// itself is never tested.
pub open spec fn cast(grid: Grid, position: Vector2, ray: Ray) -> Option<Hit> {
    if ray.x == 0 && ray.y == 0 {
        None
    } else {
        trace(grid, position, ray, cell_index(position.x as int), cell_index(position.y as int))
    }
}

/// The coordinate of the ray on the axis that a boundary of the given kind
/// crosses.
pub open spec fn ray_along(ray: Ray, side: Side) -> int {
    match side {
        Side::X => ray.x as int,
        Side::Y => ray.y as int,
    }
}

/// What holds of a cell `(cx, cy)` that the traversal from `position` can
/// reach: the boundaries ahead of the ray are not behind its origin, and on
/// an axis on which the ray does not move backwards they are strictly ahead.
pub open spec fn on_path(position: Vector2, ray: Ray, cx: int, cy: int) -> bool {
    &&& reach(position.x as int, ray.x as int, cx) >= 0
    &&& reach(position.y as int, ray.y as int, cy) >= 0
    &&& ray.x >= 0 ==> reach(position.x as int, ray.x as int, cx) > 0
    &&& ray.y >= 0 ==> reach(position.y as int, ray.y as int, cy) > 0
}

/// The cell that holds the start of a ray is on the ray's path.
pub proof fn lemma_start_on_path(position: Vector2, ray: Ray)
    ensures
        on_path(position, ray, cell_index(position.x as int), cell_index(position.y as int)),
{
}

/// Crossing a boundary keeps the ray on its path, and the boundary crossed
/// lies on an axis along which the ray moves.
pub proof fn lemma_step_on_path(position: Vector2, ray: Ray, cx: int, cy: int)
    requires
        on_path(position, ray, cx, cy),
        ray.x != 0 || ray.y != 0,
    ensures
        crosses_x(position, ray, cx, cy) ==> ray.x != 0 && on_path(
            position,
            ray,
            cx + step_of(ray.x as int),
            cy,
        ),
        !crosses_x(position, ray, cx, cy) ==> ray.y != 0 && on_path(
            position,
            ray,
            cx,
            cy + step_of(ray.y as int),
        ),
{
    let tx = reach(position.x as int, ray.x as int, cx);
    let ty = reach(position.y as int, ray.y as int, cy);
    lemma_product_sign(tx, abs(ray.y as int));
    lemma_product_sign(ty, abs(ray.x as int));
}

fn floor_cell(p: i64) -> (c: i64)
    requires
        representable(p as int),
    ensures
        c == cell_index(p as int),
        -32768 <= c < 32768,
{
    let shifted: i64 = p + 0x8000_0000_0000;
    shifted / 0x1_0000_0000 - 32768
}

impl Ray {
    /// The ray through `column` of a screen `screen_width` pixels wide, for
    /// a camera with the given direction and plane.
    pub fn through(direction: Vector2, plane: Vector2, column: usize, screen_width: usize) -> (ray: Ray)
        requires
            direction.in_range(),
            plane.in_range(),
            column < screen_width <= SCREEN_DIM_MAX,
        ensures
            ray.x == ray_coordinate(direction.x as int, plane.x as int, column as int, screen_width as int),
            ray.y == ray_coordinate(direction.y as int, plane.y as int, column as int, screen_width as int),
    {
        let w: i64 = screen_width as i64;
        let offset: i64 = 2 * (column as i64) - w;
        proof {
            lemma_ray_coordinate_bound(direction.x as int, plane.x as int, w as int, offset as int);
            lemma_ray_coordinate_bound(direction.y as int, plane.y as int, w as int, offset as int);
        }
        Ray {
            x: (direction.x as i64) * w + (plane.x as i64) * offset,
            y: (direction.y as i64) * w + (plane.y as i64) * offset,
        }
    }
}

proof fn lemma_ray_coordinate_bound(d: int, q: int, w: int, offset: int)
    by (nonlinear_arith)
    requires
        -0x7fff_ffff_ffff <= d <= 0x7fff_ffff_ffff,
        -0x7fff_ffff_ffff <= q <= 0x7fff_ffff_ffff,
        0 <= w <= 32768,
        -w <= offset <= w,
    ensures
        -0x3fff_ffff_ffff_8000 <= d * w <= 0x3fff_ffff_ffff_8000,
        -0x3fff_ffff_ffff_8000 <= q * offset <= 0x3fff_ffff_ffff_8000,
{
}

fn magnitude(r: i64) -> (m: i128)
    ensures
        m == abs(r as int),
{
    if r < 0 {
        -(r as i128)
    } else {
        r as i128
    }
}

/// Casts a ray from `position` through the grid and reports the first wall
/// it enters, if it enters one before it leaves the grid.
pub fn cast_ray(grid: &Grid, position: Vector2, ray: Ray) -> (out: Option<WallHit>)
    requires
        grid.wf(),
        position.in_range(),
    ensures
        match out {
            Some(hit) => {
                &&& cast(*grid, position, ray) == Some(hit@)
                &&& grid.in_bounds(hit.cell_x as int, hit.cell_y as int)
                &&& grid.cell_at(hit.cell_x as int, hit.cell_y as int) == Cell::Wall(hit.texture)
                &&& hit.travel >= 0
                &&& ray_along(ray, hit.side) != 0
            },
            None => cast(*grid, position, ray) is None,
        },
{
    if ray.x == 0 && ray.y == 0 {
        return None;
    }
    let width: i64 = grid.width() as i64;
    let height: i64 = grid.height() as i64;
    let ax: i128 = magnitude(ray.x);
    let ay: i128 = magnitude(ray.y);
    let step_x: i64 = if ray.x < 0 {
        -1
    } else {
        1
    };
    let step_y: i64 = if ray.y < 0 {
        -1
    } else {
        1
    };
    let mut cx: i64 = floor_cell(position.x);
    let mut cy: i64 = floor_cell(position.y);
    let mut tx: i64 = if ray.x < 0 {
        position.x - cx * 0x1_0000_0000
    } else {
        (cx + 1) * 0x1_0000_0000 - position.x
    };
    let mut ty: i64 = if ray.y < 0 {
        position.y - cy * 0x1_0000_0000
    } else {
        (cy + 1) * 0x1_0000_0000 - position.y
    };
    proof {
        grid.lemma_wf();
        lemma_start_on_path(position, ray);
    }
    loop
        invariant
            grid.wf(),
            position.in_range(),
            ray.x != 0 || ray.y != 0,
            width == grid.width(),
            height == grid.height(),
            width <= GRID_DIM_MAX,
            height <= GRID_DIM_MAX,
            ax == abs(ray.x as int),
            ay == abs(ray.y as int),
            step_x == step_of(ray.x as int),
            step_y == step_of(ray.y as int),
            -32768 <= cx < 32768,
            -32768 <= cy < 32768,
            tx == reach(position.x as int, ray.x as int, cx as int),
            ty == reach(position.y as int, ray.y as int, cy as int),
            on_path(position, ray, cx as int, cy as int),
            trace(*grid, position, ray, cx as int, cy as int) == cast(*grid, position, ray),
        decreases room(width as int, ray.x as int, cx as int) + room(height as int, ray.y as int, cy as int),
    {
        proof {
            lemma_product_bound(tx as int, ay as int, 0x2_0000_0000_0000, 0x8000_0000_0000_0000);
            lemma_product_bound(ty as int, ax as int, 0x2_0000_0000_0000, 0x8000_0000_0000_0000);
            lemma_step_on_path(position, ray, cx as int, cy as int);
        }
        let by_x = (tx as i128) * ay < (ty as i128) * ax;
        let travel: i64;
        let side: Side;
        if by_x {
            travel = tx;
            tx = tx + 0x1_0000_0000;
            cx = cx + step_x;
            side = Side::X;
        } else {
            travel = ty;
            ty = ty + 0x1_0000_0000;
            cy = cy + step_y;
            side = Side::Y;
        }
        if cx < 0 || cx >= width || cy < 0 || cy >= height {
            return None;
        }
        match *grid.get_cell(cx as usize, cy as usize) {
            Cell::Wall(texture) => {
                return Some(WallHit { cell_x: cx as usize, cell_y: cy as usize, side, texture, travel });
            },
            Cell::Empty => {},
        }
    }
}

/// The largest projected height of a wall, in pixels.
pub const LINE_HEIGHT_MAX: i64 = 0x7fff_ffff;

/// The height in pixels at which a wall is drawn: the screen height divided
/// by the wall's perpendicular distance, which is
/// `travel * screen_width / |ray_axis|` for a ray whose coordinate on the
/// axis of the boundary it crossed is `ray_axis`. The height is rounded
/// down, and it is `LINE_HEIGHT_MAX` where the quotient is larger or the
/// distance is zero.
pub open spec fn line_height(screen_width: int, screen_height: int, travel: int, ray_axis: int) -> int {
    let num = screen_height * abs(ray_axis);
    let den = travel * screen_width;
    if den <= 0 || num / den > LINE_HEIGHT_MAX {
        LINE_HEIGHT_MAX as int
    } else {
        num / den
    }
}

/// The perpendicular distance of a wall in fixed point, rounded down: the
/// distance from the ray's origin to the wall, measured along the camera's
/// direction and in units of that direction's length. It is
/// `travel * screen_width / |ray_axis|` for a ray whose coordinate on the
/// axis of the boundary it crossed is `ray_axis`.
pub open spec fn perp_distance(screen_width: int, travel: int, ray_axis: int) -> int {
    travel * screen_width * SCALE / abs(ray_axis)
}

/// The projected height of the wall that the ray of a screen column meets,
/// or 0 if it meets none.
pub open spec fn wall_height(grid: Grid, player: Player, screen_width: int, screen_height: int, column: int) -> int {
    let ray = player_ray(player, column, screen_width);
    match cast(grid, player.position, ray) {
        None => 0,
        Some(hit) => line_height(screen_width, screen_height, hit.travel, ray_along(ray, hit.side)),
    }
}

/// The first screen row of a wall drawn `height` pixels high and centred on
/// a screen of `screen_height` rows, or row 0 if the wall is higher than the
/// screen.
pub open spec fn stripe_start(screen_height: int, height: int) -> int {
    let top = screen_height / 2 - height / 2;
    if top < 0 {
        0
    } else {
        top
    }
}

/// The texture row shown in screen row `row` of a wall that is drawn from
/// row `start` on, `height` pixels high.
pub open spec fn texture_row(row: int, start: int, height: int) -> int {
    (row - start) * TEX_HEIGHT / height
}

/// The texture column shown where the ray met the wall. The ray meets the
/// boundary at the coordinate `p + travel * other / |along|` on the other
/// axis, where `p` is the origin's coordinate on that axis; the fractional
/// part of that coordinate, in cells, selects the column. A ray that does
/// not move along the axis of the boundary selects column 0.
pub open spec fn texture_column(position: Vector2, ray: Ray, side: Side, travel: int) -> int {
    let p = match side {
        Side::X => position.y as int,
        Side::Y => position.x as int,
    };
    let along = match side {
        Side::X => abs(ray.x as int),
        Side::Y => abs(ray.y as int),
    };
    let other = match side {
        Side::X => ray.y as int,
        Side::Y => ray.x as int,
    };
    let den = SCALE * along;
    if den == 0 {
        0
    } else {
        TEX_WIDTH * ((p * along + travel * other) % den) / den
    }
}

/// The colour of a texel as it is drawn: walls met on a Y side are darkened
/// by `SIDE_SHADE`.
pub open spec fn wall_color(texture: Texture, side: Side, column: int, row: int) -> Color {
    let c = texture.texel(column, row);
    match side {
        Side::X => c,
        Side::Y => corrected(c, SIDE_SHADE as int),
    }
}

/// The colour of screen row `row` in the column of a ray that met a wall:
/// inside the wall's stripe the colour of the wall, elsewhere `behind`.
pub open spec fn stripe_pixel(
    texture: Texture,
    position: Vector2,
    ray: Ray,
    screen_width: int,
    screen_height: int,
    hit: Hit,
    row: int,
    behind: Color,
) -> Color {
    let height = line_height(screen_width, screen_height, hit.travel, ray_along(ray, hit.side));
    let start = stripe_start(screen_height, height);
    if start <= row < start + height {
        wall_color(
            texture,
            hit.side,
            texture_column(position, ray, hit.side, hit.travel),
            texture_row(row, start, height),
        )
    } else {
        behind
    }
}

/// The ray through screen column `column` for a player's camera.
pub open spec fn player_ray(player: Player, column: int, screen_width: int) -> Ray {
    Ray {
        x: ray_coordinate(player.direction.x as int, player.plane.x as int, column, screen_width) as i64,
        y: ray_coordinate(player.direction.y as int, player.plane.y as int, column, screen_width) as i64,
    }
}

/// The colour of the pixel in column `column` of row `row` after the view of
/// `player` into `grid` is drawn over a pixel of colour `behind`: the pixel
/// is kept where the column's ray meets no wall.
pub open spec fn view_pixel(
    grid: Grid,
    player: Player,
    screen_width: int,
    screen_height: int,
    column: int,
    row: int,
    behind: Color,
) -> Color {
    let ray = player_ray(player, column, screen_width);
    match cast(grid, player.position, ray) {
        None => behind,
        Some(hit) => stripe_pixel(
            grid.textures()[hit.texture],
            player.position,
            ray,
            screen_width,
            screen_height,
            hit,
            row,
            behind,
        ),
    }
}

/// Scaling an index below `d` to a range of `n` values gives an index below
/// `n`.
proof fn lemma_scaled_index(m: int, d: int, n: int)
    requires
        0 <= m < d,
        0 <= n,
    ensures
        0 <= n * m / d < n || (n == 0 && n * m / d == 0),
{
    let x = n * m;
    lemma_fundamental_div_mod(x, d);
    let q = x / d;
    assert(0 <= x % d < d);
    assert(0 <= x <= n * d - n || n == 0) by (nonlinear_arith)
        requires
            x == n * m,
            0 <= m < d,
            0 <= n,
    ;
    assert(q >= 0 && (q < n || n == 0)) by (nonlinear_arith)
        requires
            x == d * q + x % d,
            0 <= x % d < d,
            0 <= x,
            x <= n * d - n || n == 0,
            0 <= n,
            d > 0,
    ;
    if n == 0 {
        assert(x == 0) by (nonlinear_arith)
            requires
                x == n * m,
                n == 0,
        ;
    }
}

/// The remainder of a negative number, from the remainder of its opposite.
proof fn lemma_mod_of_negative(n: int, d: int)
    requires
        n < 0,
        d > 0,
    ensures
        n % d == if (-n) % d == 0 {
            0
        } else {
            d - (-n) % d
        },
{
    let q = (-n) / d;
    let r = (-n) % d;
    lemma_fundamental_div_mod(-n, d);
    if r == 0 {
        assert(n == (-q) * d + 0) by (nonlinear_arith)
            requires
                -n == d * q + r,
                r == 0,
        ;
        lemma_fundamental_div_mod_converse(n, d, -q, 0);
    } else {
        assert(n == (-q - 1) * d + (d - r)) by (nonlinear_arith)
            requires
                -n == d * q + r,
        ;
        lemma_fundamental_div_mod_converse(n, d, -q - 1, d - r);
    }
}

/// The height in pixels at which a wall at the given distance is drawn.
pub fn project_height(screen_width: usize, screen_height: usize, travel: i64, ray_axis: i64) -> (height: i64)
    requires
        screen_width <= SCREEN_DIM_MAX,
        screen_height <= SCREEN_DIM_MAX,
    ensures
        height == line_height(screen_width as int, screen_height as int, travel as int, ray_axis as int),
        0 <= height <= LINE_HEIGHT_MAX,
{
    let along: i128 = magnitude(ray_axis);
    proof {
        lemma_product_bound(screen_height as int, along as int, 32768, 0x8000_0000_0000_0000);
        if travel >= 0 {
            lemma_product_bound(travel as int, screen_width as int, 0x8000_0000_0000_0000, 32768);
        } else {
            lemma_product_bound(-travel, screen_width as int, 0x8000_0000_0000_0000, 32768);
            assert(travel * screen_width == -((-travel) * screen_width)) by (nonlinear_arith);
        }
    }
    let num: i128 = (screen_height as i128) * along;
    let den: i128 = (travel as i128) * (screen_width as i128);
    if den <= 0 {
        return LINE_HEIGHT_MAX;
    }
    let quotient: i128 = num / den;
    proof {
        lemma_fundamental_div_mod(num as int, den as int);
        assert(quotient >= 0) by (nonlinear_arith)
            requires
                num == den * quotient + num % den,
                0 <= num % den < den,
                num >= 0,
        ;
    }
    if quotient > LINE_HEIGHT_MAX as i128 {
        LINE_HEIGHT_MAX
    } else {
        quotient as i64
    }
}

/// The perpendicular distance, in fixed point, of a wall that a ray met
/// after `travel` along an axis on which its coordinate is `ray_axis`.
pub fn perp_wall_distance(screen_width: usize, travel: i64, ray_axis: i64) -> (distance: i128)
    requires
        screen_width <= SCREEN_DIM_MAX,
        travel >= 0,
        ray_axis != 0,
    ensures
        distance == perp_distance(screen_width as int, travel as int, ray_axis as int),
{
    let along: i128 = magnitude(ray_axis);
    proof {
        lemma_product_bound(travel as int, screen_width as int, 0x8000_0000_0000_0000, 32768);
    }
    let num: i128 = (travel as i128) * (screen_width as i128) * 0x1_0000_0000;
    num / along
}

/// The texture column shown where a ray met a wall.
pub fn wall_column(position: Vector2, ray: Ray, side: Side, travel: i64) -> (column: usize)
    requires
        position.in_range(),
    ensures
        column == texture_column(position, ray, side, travel as int),
        column < TEX_WIDTH,
{
    let p: i128 = match side {
        Side::X => position.y as i128,
        Side::Y => position.x as i128,
    };
    let along: i128 = match side {
        Side::X => magnitude(ray.x),
        Side::Y => magnitude(ray.y),
    };
    let other: i128 = match side {
        Side::X => ray.y as i128,
        Side::Y => ray.x as i128,
    };
    if along == 0 {
        return 0;
    }
    proof {
        lemma_product_bound(abs(p as int), along as int, 0x8000_0000_0000, 0x8000_0000_0000_0000);
        lemma_product_bound(abs(travel as int), abs(other as int), 0x8000_0000_0000_0000, 0x8000_0000_0000_0000);
        assert(abs(p * along) == abs(p as int) * along) by (nonlinear_arith)
            requires
                along >= 0,
        ;
        assert(abs(travel * other) == abs(travel as int) * abs(other as int)) by (nonlinear_arith);
    }
    let den: i128 = 0x1_0000_0000 * along;
    let num: i128 = p * along + (travel as i128) * other;
    let fraction: i128 = if num >= 0 {
        num % den
    } else {
        let opposite: i128 = (-num) % den;
        proof {
            lemma_mod_of_negative(num as int, den as int);
        }
        if opposite == 0 {
            0
        } else {
            den - opposite
        }
    };
    proof {
        lemma_scaled_index(fraction as int, den as int, 10);
    }
    (10 * fraction / den) as usize
}

/// Draws the wall that the ray of screen column `x` met into that column of
/// the frame buffer: the rows of the wall's stripe take the colours of the
/// texture, the others are kept.
pub fn render_texture(
    fb: &mut Framebuffer,
    x: usize,
    position: Vector2,
    ray: Ray,
    hit: &WallHit,
    texture: &Texture,
)
    requires
        old(fb).wf(),
        texture.wf(),
        position.in_range(),
        x < old(fb).width(),
    ensures
        final(fb).wf(),
        final(fb).width() == old(fb).width(),
        final(fb).height() == old(fb).height(),
        forall|y: int|
            0 <= y < old(fb).height() ==> #[trigger] final(fb).pixel(x as int, y) == stripe_pixel(
                *texture,
                position,
                ray,
                old(fb).width() as int,
                old(fb).height() as int,
                hit@,
                y,
                old(fb).pixel(x as int, y),
            ),
        forall|i: int, y: int|
            old(fb).on_screen(i, y) && i != x ==> #[trigger] final(fb).pixel(i, y) == old(fb).pixel(i, y),
{
    proof {
        fb.lemma_wf();
    }
    let width = fb.width();
    let height = fb.height();
    let along: i64 = match hit.side {
        Side::X => ray.x,
        Side::Y => ray.y,
    };
    let line: i64 = project_height(width, height, hit.travel, along);
    let top: i64 = (height as i64) / 2 - line / 2;
    let start: i64 = if top < 0 {
        0
    } else {
        top
    };
    let tex_x = wall_column(position, ray, hit.side, hit.travel);
    let mut column: Vec<Color> = Vec::new();
    let mut y: usize = 0;
    while y < height
        invariant
            fb.wf(),
            texture.wf(),
            position.in_range(),
            *fb == *old(fb),
            width == fb.width(),
            height == fb.height(),
            height <= SCREEN_DIM_MAX,
            x < width,
            y <= height,
            0 <= line <= LINE_HEIGHT_MAX,
            line == line_height(width as int, height as int, hit.travel as int, ray_along(ray, hit.side)),
            start == stripe_start(height as int, line as int),
            0 <= start <= height,
            tex_x == texture_column(position, ray, hit.side, hit.travel as int),
            tex_x < TEX_WIDTH,
            column@.len() == y,
            forall|j: int|
                0 <= j < y ==> #[trigger] column@[j] == stripe_pixel(
                    *texture,
                    position,
                    ray,
                    width as int,
                    height as int,
                    hit@,
                    j,
                    fb.pixel(x as int, j),
                ),
        decreases height - y,
    {
        let row: i64 = y as i64;
        let color = if start <= row && row < start + line {
            proof {
                lemma_scaled_index(row - start, line as int, 10);
            }
            let tex_y = ((row - start) * 10 / line) as usize;
            let texel = texture.get(tex_x, tex_y);
            match hit.side {
                Side::X => texel,
                Side::Y => texel.brightness(SIDE_SHADE),
            }
        } else {
            fb.get_pixel(x, y)
        };
        column.push(color);
        y += 1;
    }
    fb.write_column(x, column);
}

/// Casts the ray of screen column `x` and draws what it meets into that
/// column of the frame buffer. A ray that meets no wall leaves the column as
/// it is.
pub fn render_stripe(fb: &mut Framebuffer, x: usize, player: &Player, grid: &Grid)
    requires
        old(fb).wf(),
        grid.wf(),
        player.in_range(),
        x < old(fb).width(),
    ensures
        final(fb).wf(),
        final(fb).width() == old(fb).width(),
        final(fb).height() == old(fb).height(),
        forall|y: int|
            0 <= y < old(fb).height() ==> #[trigger] final(fb).pixel(x as int, y) == view_pixel(
                *grid,
                *player,
                old(fb).width() as int,
                old(fb).height() as int,
                x as int,
                y,
                old(fb).pixel(x as int, y),
            ),
        forall|i: int, y: int|
            old(fb).on_screen(i, y) && i != x ==> #[trigger] final(fb).pixel(i, y) == old(fb).pixel(i, y),
{
    proof {
        fb.lemma_wf();
        grid.lemma_wf();
    }
    let ray = Ray::through(player.direction, player.plane, x, fb.width());
    assert(ray == player_ray(*player, x as int, fb.width() as int));
    match cast_ray(grid, player.position, ray) {
        None => {},
        Some(hit) => {
            render_texture(fb, x, player.position, ray, &hit, grid.texture(hit.texture));
        },
    }
}

/// Draws the player's view of the grid into the frame buffer, one ray for
/// each screen column. Pixels that no wall covers are kept.
pub fn cast_rays(fb: &mut Framebuffer, player: &Player, grid: &Grid)
    requires
        old(fb).wf(),
        grid.wf(),
        player.in_range(),
    ensures
        final(fb).wf(),
        final(fb).width() == old(fb).width(),
        final(fb).height() == old(fb).height(),
        forall|x: int, y: int|
            old(fb).on_screen(x, y) ==> #[trigger] final(fb).pixel(x, y) == view_pixel(
                *grid,
                *player,
                old(fb).width() as int,
                old(fb).height() as int,
                x,
                y,
                old(fb).pixel(x, y),
            ),
{
    let width = fb.width();
    let mut x: usize = 0;
    while x < width
        invariant
            fb.wf(),
            grid.wf(),
            player.in_range(),
            width == fb.width(),
            fb.width() == old(fb).width(),
            fb.height() == old(fb).height(),
            x <= width,
            forall|i: int, y: int|
                0 <= i < x && 0 <= y < fb.height() ==> #[trigger] fb.pixel(i, y) == view_pixel(
                    *grid,
                    *player,
                    width as int,
                    fb.height() as int,
                    i,
                    y,
                    old(fb).pixel(i, y),
                ),
            forall|i: int, y: int|
                x <= i < width && 0 <= y < fb.height() ==> #[trigger] fb.pixel(i, y) == old(fb).pixel(i, y),
        decreases width - x,
    {
        render_stripe(fb, x, player, grid);
        x += 1;
    }
}

} // verus!
