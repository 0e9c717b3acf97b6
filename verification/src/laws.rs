use vstd::arithmetic::div_mod::lemma_div_multiples_vanish;
use vstd::prelude::*;
use crate::color::{corrected, intensity, lemma_corrected_channel_range, Color, SIDE_SHADE};
use crate::fixed::{
    abs, lemma_abs_product, lemma_product_bound, lemma_product_sign, Vector2, COORD_MAX, SCALE,
};
use crate::grid::{Cell, Grid};
use crate::player::{
    can_resize, can_turn, resized, round_turned, turn_sine, turned_x, turned_y, Direction, Player,
};
use crate::raycasting::{
    cast, cell_index, crosses_x, lemma_start_on_path, lemma_step_on_path, line_height, on_path, perp_distance,
    player_ray, ray_along, reach, room, step_of, stripe_pixel, stripe_start, texture_column, trace, wall_color,
    wall_height, Hit, Ray, Side,
};
use crate::texture::Texture;

verus! {

/// Whether every cell on the border of the grid holds a wall.
pub open spec fn enclosed(grid: Grid) -> bool {
    forall|x: int, y: int|
        grid.in_bounds(x, y) && (x == 0 || x == grid.width() - 1 || y == 0 || y == grid.height() - 1)
            ==> #[trigger] grid.cell_at(x, y) is Wall
}

/// Whether cell `(x, y)` lies inside the grid and not on its border.
pub open spec fn interior(grid: Grid, x: int, y: int) -> bool {
    0 < x < grid.width() - 1 && 0 < y < grid.height() - 1
}

/// In an enclosed grid the traversal from a cell that is not on the border
/// ends in a wall.
pub proof fn lemma_enclosed_trace_hits(grid: Grid, position: Vector2, ray: Ray, cx: int, cy: int)
    requires
        enclosed(grid),
        interior(grid, cx, cy),
    ensures
        trace(grid, position, ray, cx, cy) is Some,
    decreases room(grid.width() as int, ray.x as int, cx) + room(grid.height() as int, ray.y as int, cy),
{
    let by_x = crosses_x(position, ray, cx, cy);
    let nx = if by_x {
        cx + step_of(ray.x as int)
    } else {
        cx
    };
    let ny = if by_x {
        cy
    } else {
        cy + step_of(ray.y as int)
    };
    assert(grid.in_bounds(nx, ny));
    if grid.cell_at(nx, ny) is Empty {
        lemma_enclosed_trace_hits(grid, position, ray, nx, ny);
    }
}

/// In a grid whose border cells all hold walls, every ray that has a
/// direction and starts in a cell inside the border meets a wall: the
/// traversal never leaves the grid.
pub proof fn law_enclosed_grid_always_hits(grid: Grid, position: Vector2, ray: Ray)
    requires
        enclosed(grid),
        interior(grid, cell_index(position.x as int), cell_index(position.y as int)),
        ray.x != 0 || ray.y != 0,
    ensures
        cast(grid, position, ray) is Some,
{
    lemma_enclosed_trace_hits(grid, position, ray, cell_index(position.x as int), cell_index(position.y as int));
}

/// In a grid whose border cells all hold walls, the ray of every screen
/// column meets a wall, for a player who stands in a cell inside the border,
/// unless the camera gives that column no direction at all.
pub proof fn law_enclosed_grid_every_column_hits(grid: Grid, player: Player, screen_width: int, column: int)
    requires
        enclosed(grid),
        interior(grid, cell_index(player.position.x as int), cell_index(player.position.y as int)),
        player_ray(player, column, screen_width).x != 0 || player_ray(player, column, screen_width).y != 0,
    ensures
        cast(grid, player.position, player_ray(player, column, screen_width)) is Some,
{
    law_enclosed_grid_always_hits(grid, player.position, player_ray(player, column, screen_width));
}

/// What the traversal reports when it stops in a wall: a wall cell of the
/// grid with its texture, entered through a boundary on an axis along which
/// the ray moves, and the distance along that axis from the ray's origin to
/// that boundary.
pub open spec fn hit_fits(grid: Grid, position: Vector2, ray: Ray, hit: Hit) -> bool {
    &&& grid.in_bounds(hit.cell_x, hit.cell_y)
    &&& grid.cell_at(hit.cell_x, hit.cell_y) == Cell::Wall(hit.texture as usize)
    &&& ray_along(ray, hit.side) != 0
    &&& hit.travel >= 0
    &&& hit.travel == match hit.side {
        Side::X => reach(position.x as int, ray.x as int, hit.cell_x - step_of(ray.x as int)),
        Side::Y => reach(position.y as int, ray.y as int, hit.cell_y - step_of(ray.y as int)),
    }
}

/// A wall that the traversal reports is as `hit_fits` says.
pub proof fn lemma_trace_hit_fits(grid: Grid, position: Vector2, ray: Ray, cx: int, cy: int)
    requires
        on_path(position, ray, cx, cy),
        ray.x != 0 || ray.y != 0,
    ensures
        match trace(grid, position, ray, cx, cy) {
            Some(hit) => hit_fits(grid, position, ray, hit),
            None => true,
        },
    decreases room(grid.width() as int, ray.x as int, cx) + room(grid.height() as int, ray.y as int, cy),
{
    lemma_step_on_path(position, ray, cx, cy);
    let by_x = crosses_x(position, ray, cx, cy);
    let nx = if by_x {
        cx + step_of(ray.x as int)
    } else {
        cx
    };
    let ny = if by_x {
        cy
    } else {
        cy + step_of(ray.y as int)
    };
    if grid.in_bounds(nx, ny) && grid.cell_at(nx, ny) is Empty {
        lemma_trace_hit_fits(grid, position, ray, nx, ny);
    }
}

/// A wall that a ray meets is a wall cell of the grid, and the distance
/// reported with it is the distance, along the axis of the boundary through
/// which the ray entered the cell, from the ray's origin to that boundary.
pub proof fn law_hit_is_wall_face(grid: Grid, position: Vector2, ray: Ray)
    ensures
        match cast(grid, position, ray) {
            Some(hit) => hit_fits(grid, position, ray, hit),
            None => true,
        },
{
    if ray.x != 0 || ray.y != 0 {
        lemma_start_on_path(position, ray);
        lemma_trace_hit_fits(grid, position, ray, cell_index(position.x as int), cell_index(position.y as int));
    }
}

/// Whether cell index `i` lies ahead of cell index `c` for a ray with
/// coordinate `r` on the axis.
pub open spec fn ahead(r: int, c: int, i: int) -> bool {
    if r < 0 {
        i < c
    } else {
        i > c
    }
}

/// Whether cell index `i` lies ahead of `c` and before `stop`.
pub open spec fn between(r: int, c: int, i: int, stop: int) -> bool {
    ahead(r, c, i) && ahead(r, i, stop)
}

/// A ray that moves along the x axis only crosses boundaries between columns.
pub proof fn lemma_crosses_along_x(position: Vector2, ray: Ray, cx: int, cy: int)
    requires
        ray.y == 0,
        ray.x != 0,
        on_path(position, ray, cx, cy),
    ensures
        crosses_x(position, ray, cx, cy),
        on_path(position, ray, cx + step_of(ray.x as int), cy),
{
    lemma_product_sign(reach(position.y as int, ray.y as int, cy), abs(ray.x as int));
    lemma_step_on_path(position, ray, cx, cy);
}

/// A ray that moves along the y axis only crosses boundaries between rows.
pub proof fn lemma_crosses_along_y(position: Vector2, ray: Ray, cx: int, cy: int)
    requires
        ray.x == 0,
        ray.y != 0,
        on_path(position, ray, cx, cy),
    ensures
        !crosses_x(position, ray, cx, cy),
        on_path(position, ray, cx, cy + step_of(ray.y as int)),
{
    lemma_product_sign(reach(position.x as int, ray.x as int, cx), abs(ray.y as int));
    lemma_step_on_path(position, ray, cx, cy);
}

/// A ray along the x axis, in a row whose cells ahead are all empty as far
/// as they lie in the grid, meets no wall.
pub proof fn lemma_open_row(grid: Grid, position: Vector2, ray: Ray, cx: int, cy: int)
    requires
        ray.y == 0,
        ray.x != 0,
        on_path(position, ray, cx, cy),
        forall|i: int| ahead(ray.x as int, cx, i) && grid.in_bounds(i, cy) ==> #[trigger] grid.cell_at(i, cy) is Empty,
    ensures
        trace(grid, position, ray, cx, cy) is None,
    decreases room(grid.width() as int, ray.x as int, cx) + room(grid.height() as int, ray.y as int, cy),
{
    lemma_crosses_along_x(position, ray, cx, cy);
    let nx = cx + step_of(ray.x as int);
    if grid.in_bounds(nx, cy) {
        assert(grid.cell_at(nx, cy) is Empty);
        lemma_open_row(grid, position, ray, nx, cy);
    }
}

/// A ray along the y axis, in a column whose cells ahead are all empty as
/// far as they lie in the grid, meets no wall.
pub proof fn lemma_open_column(grid: Grid, position: Vector2, ray: Ray, cx: int, cy: int)
    requires
        ray.x == 0,
        ray.y != 0,
        on_path(position, ray, cx, cy),
        forall|j: int| ahead(ray.y as int, cy, j) && grid.in_bounds(cx, j) ==> #[trigger] grid.cell_at(cx, j) is Empty,
    ensures
        trace(grid, position, ray, cx, cy) is None,
    decreases room(grid.width() as int, ray.x as int, cx) + room(grid.height() as int, ray.y as int, cy),
{
    lemma_crosses_along_y(position, ray, cx, cy);
    let ny = cy + step_of(ray.y as int);
    if grid.in_bounds(cx, ny) {
        assert(grid.cell_at(cx, ny) is Empty);
        lemma_open_column(grid, position, ray, cx, ny);
    }
}

/// A ray aimed along an axis through a gap leaves the grid: where every
/// cell of the grid that lies ahead of the ray's first cell, in the row or
/// column along which the ray moves, is empty, the ray meets no wall.
pub proof fn law_ray_through_gap_escapes(grid: Grid, position: Vector2, ray: Ray)
    requires
        (ray.x == 0) != (ray.y == 0),
        ray.y == 0 ==> forall|i: int|
            ahead(ray.x as int, cell_index(position.x as int), i) && grid.in_bounds(
                i,
                cell_index(position.y as int),
            ) ==> #[trigger] grid.cell_at(i, cell_index(position.y as int)) is Empty,
        ray.x == 0 ==> forall|j: int|
            ahead(ray.y as int, cell_index(position.y as int), j) && grid.in_bounds(
                cell_index(position.x as int),
                j,
            ) ==> #[trigger] grid.cell_at(cell_index(position.x as int), j) is Empty,
    ensures
        cast(grid, position, ray) is None,
{
    lemma_start_on_path(position, ray);
    if ray.y == 0 {
        lemma_open_row(grid, position, ray, cell_index(position.x as int), cell_index(position.y as int));
    } else {
        lemma_open_column(grid, position, ray, cell_index(position.x as int), cell_index(position.y as int));
    }
}

/// A ray along the x axis meets the first wall of its row, if the cells
/// before that wall are empty cells of the grid.
pub proof fn lemma_first_wall_in_row(
    grid: Grid,
    position: Vector2,
    ray: Ray,
    cx: int,
    cy: int,
    wall_x: int,
    texture: usize,
)
    requires
        ray.y == 0,
        ray.x != 0,
        on_path(position, ray, cx, cy),
        ahead(ray.x as int, cx, wall_x),
        grid.in_bounds(wall_x, cy),
        grid.cell_at(wall_x, cy) == Cell::Wall(texture),
        forall|i: int|
            between(ray.x as int, cx, i, wall_x) ==> grid.in_bounds(i, cy) && #[trigger] grid.cell_at(i, cy) is Empty,
    ensures
        trace(grid, position, ray, cx, cy) == Some(
            Hit {
                cell_x: wall_x,
                cell_y: cy,
                side: Side::X,
                texture: texture as int,
                travel: reach(position.x as int, ray.x as int, wall_x - step_of(ray.x as int)),
            },
        ),
    decreases abs(wall_x - cx),
{
    lemma_crosses_along_x(position, ray, cx, cy);
    let nx = cx + step_of(ray.x as int);
    if nx != wall_x {
        assert(between(ray.x as int, cx, nx, wall_x));
        assert(grid.cell_at(nx, cy) is Empty);
        assert forall|i: int| between(ray.x as int, nx, i, wall_x) implies grid.in_bounds(i, cy)
            && #[trigger] grid.cell_at(i, cy) is Empty by {
            assert(between(ray.x as int, cx, i, wall_x));
        }
        lemma_first_wall_in_row(grid, position, ray, nx, cy, wall_x, texture);
    }
}

/// A ray along the y axis meets the first wall of its column, if the cells
/// before that wall are empty cells of the grid.
pub proof fn lemma_first_wall_in_column(
    grid: Grid,
    position: Vector2,
    ray: Ray,
    cx: int,
    cy: int,
    wall_y: int,
    texture: usize,
)
    requires
        ray.x == 0,
        ray.y != 0,
        on_path(position, ray, cx, cy),
        ahead(ray.y as int, cy, wall_y),
        grid.in_bounds(cx, wall_y),
        grid.cell_at(cx, wall_y) == Cell::Wall(texture),
        forall|j: int|
            between(ray.y as int, cy, j, wall_y) ==> grid.in_bounds(cx, j) && #[trigger] grid.cell_at(cx, j) is Empty,
    ensures
        trace(grid, position, ray, cx, cy) == Some(
            Hit {
                cell_x: cx,
                cell_y: wall_y,
                side: Side::Y,
                texture: texture as int,
                travel: reach(position.y as int, ray.y as int, wall_y - step_of(ray.y as int)),
            },
        ),
    decreases abs(wall_y - cy),
{
    lemma_crosses_along_y(position, ray, cx, cy);
    let ny = cy + step_of(ray.y as int);
    if ny != wall_y {
        assert(between(ray.y as int, cy, ny, wall_y));
        assert(grid.cell_at(cx, ny) is Empty);
        assert forall|j: int| between(ray.y as int, ny, j, wall_y) implies grid.in_bounds(cx, j)
            && #[trigger] grid.cell_at(cx, j) is Empty by {
            assert(between(ray.y as int, cy, j, wall_y));
        }
        lemma_first_wall_in_column(grid, position, ray, cx, ny, wall_y, texture);
    }
}

/// A wall that a ray along an axis meets lies in the ray's row or column
/// and is entered through a boundary that the ray's axis crosses.
pub proof fn lemma_axis_aligned_side(grid: Grid, position: Vector2, ray: Ray, cx: int, cy: int)
    requires
        (ray.x == 0) != (ray.y == 0),
        on_path(position, ray, cx, cy),
    ensures
        match trace(grid, position, ray, cx, cy) {
            Some(hit) => if ray.y == 0 {
                hit.side == Side::X && hit.cell_y == cy
            } else {
                hit.side == Side::Y && hit.cell_x == cx
            },
            None => true,
        },
    decreases room(grid.width() as int, ray.x as int, cx) + room(grid.height() as int, ray.y as int, cy),
{
    if ray.y == 0 {
        lemma_crosses_along_x(position, ray, cx, cy);
        let nx = cx + step_of(ray.x as int);
        if grid.in_bounds(nx, cy) && grid.cell_at(nx, cy) is Empty {
            lemma_axis_aligned_side(grid, position, ray, nx, cy);
        }
    } else {
        lemma_crosses_along_y(position, ray, cx, cy);
        let ny = cy + step_of(ray.y as int);
        if grid.in_bounds(cx, ny) && grid.cell_at(cx, ny) is Empty {
            lemma_axis_aligned_side(grid, position, ray, cx, ny);
        }
    }
}

/// For a ray along an axis, cast by a camera whose direction has length one,
/// the perpendicular distance of the wall it meets is the length of the ray:
/// the distance along that axis from the ray's origin to the face of the
/// wall, which lies on a grid line.
pub proof fn law_axis_aligned_distance(grid: Grid, position: Vector2, ray: Ray, screen_width: int)
    requires
        screen_width > 0,
        (ray.x == 0) != (ray.y == 0),
        abs(ray.x as int) + abs(ray.y as int) == SCALE * screen_width,
        cast(grid, position, ray) is Some,
    ensures
        ({
            let hit = cast(grid, position, ray)->0;
            &&& hit.side == if ray.y == 0 {
                Side::X
            } else {
                Side::Y
            }
            &&& perp_distance(screen_width, hit.travel, ray_along(ray, hit.side)) == hit.travel
            &&& ray.x > 0 ==> hit.travel == hit.cell_x * SCALE - position.x
            &&& ray.x < 0 ==> hit.travel == position.x - (hit.cell_x + 1) * SCALE
            &&& ray.y > 0 ==> hit.travel == hit.cell_y * SCALE - position.y
            &&& ray.y < 0 ==> hit.travel == position.y - (hit.cell_y + 1) * SCALE
        }),
{
    lemma_start_on_path(position, ray);
    lemma_axis_aligned_side(grid, position, ray, cell_index(position.x as int), cell_index(position.y as int));
    law_hit_is_wall_face(grid, position, ray);
    let hit = cast(grid, position, ray)->0;
    let unit = SCALE * screen_width;
    assert(hit.travel * screen_width * SCALE == unit * hit.travel) by (nonlinear_arith)
        requires
            unit == SCALE * screen_width,
    ;
    lemma_div_multiples_vanish(hit.travel, unit);
}

/// Whether the grid is a square room of `n` by `n` cells: walls all around,
/// and nothing inside.
pub open spec fn square_room(grid: Grid, n: int) -> bool {
    &&& grid.width() == n
    &&& grid.height() == n
    &&& enclosed(grid)
    &&& forall|x: int, y: int| interior(grid, x, y) ==> #[trigger] grid.cell_at(x, y) is Empty
}

/// The direction of length `d` along the x axis, turned by a number of right
/// angles.
pub open spec fn heading(d: i64, quarters: int) -> Vector2 {
    if quarters == 0 {
        Vector2 { x: d, y: 0 }
    } else if quarters == 1 {
        Vector2 { x: 0, y: d }
    } else if quarters == 2 {
        Vector2 { x: (-d) as i64, y: 0 }
    } else {
        Vector2 { x: 0, y: (-d) as i64 }
    }
}

/// In a square room the wall in the middle of the screen is drawn at the
/// same height whichever of the four walls the player faces from the centre
/// of the room: the screen height divided by the distance from the centre
/// to a wall, in units of the length `d` of the direction.
pub proof fn law_square_room_symmetry(
    grid: Grid,
    n: int,
    d: i64,
    quarters: int,
    plane: Vector2,
    screen_width: int,
    screen_height: int,
)
    requires
        square_room(grid, n),
        3 <= n <= 32768,
        0 < d <= COORD_MAX,
        0 <= quarters < 4,
        0 < screen_width <= 32768,
        screen_width % 2 == 0,
    ensures
        wall_height(
            grid,
            Player {
                position: Vector2 { x: (n * 0x8000_0000) as i64, y: (n * 0x8000_0000) as i64 },
                direction: heading(d, quarters),
                plane,
            },
            screen_width,
            screen_height,
            screen_width / 2,
        ) == line_height(screen_width, screen_height, n * 0x8000_0000 - SCALE, d * screen_width),
{
    let centre = Vector2 { x: (n * 0x8000_0000) as i64, y: (n * 0x8000_0000) as i64 };
    let player = Player { position: centre, direction: heading(d, quarters), plane };
    let ray = player_ray(player, screen_width / 2, screen_width);
    let length = d * screen_width;
    lemma_product_bound(d as int, screen_width, 0x7fff_ffff_ffff, 32768);
    assert(plane.x * (2 * (screen_width / 2) - screen_width) == 0) by (nonlinear_arith)
        requires
            2 * (screen_width / 2) - screen_width == 0,
    ;
    assert(plane.y * (2 * (screen_width / 2) - screen_width) == 0) by (nonlinear_arith)
        requires
            2 * (screen_width / 2) - screen_width == 0,
    ;
    assert((-d) * screen_width == -length) by (nonlinear_arith)
        requires
            length == d * screen_width,
    ;
    assert(0 * screen_width == 0);
    assert(length > 0) by (nonlinear_arith)
        requires
            length == d * screen_width,
            d > 0,
            screen_width > 0,
    ;
    let c = cell_index(centre.x as int);
    assert(0 < c < n - 1);
    lemma_start_on_path(centre, ray);
    if quarters == 0 {
        assert(ray.x == length && ray.y == 0);
        let wall = grid.cell_at(n - 1, c);
        assert(wall is Wall);
        assert forall|i: int| between(ray.x as int, c, i, n - 1) implies grid.in_bounds(i, c)
            && #[trigger] grid.cell_at(i, c) is Empty by {
            assert(interior(grid, i, c));
        }
        lemma_first_wall_in_row(grid, centre, ray, c, c, n - 1, wall->0);
    } else if quarters == 1 {
        assert(ray.x == 0 && ray.y == length);
        let wall = grid.cell_at(c, n - 1);
        assert(wall is Wall);
        assert forall|j: int| between(ray.y as int, c, j, n - 1) implies grid.in_bounds(c, j)
            && #[trigger] grid.cell_at(c, j) is Empty by {
            assert(interior(grid, c, j));
        }
        lemma_first_wall_in_column(grid, centre, ray, c, c, n - 1, wall->0);
    } else if quarters == 2 {
        assert(ray.x == -length && ray.y == 0);
        let wall = grid.cell_at(0, c);
        assert(wall is Wall);
        assert forall|i: int| between(ray.x as int, c, i, 0) implies grid.in_bounds(i, c)
            && #[trigger] grid.cell_at(i, c) is Empty by {
            assert(interior(grid, i, c));
        }
        lemma_first_wall_in_row(grid, centre, ray, c, c, 0, wall->0);
    } else {
        assert(ray.x == 0 && ray.y == -length);
        let wall = grid.cell_at(c, 0);
        assert(wall is Wall);
        assert forall|j: int| between(ray.y as int, c, j, 0) implies grid.in_bounds(c, j)
            && #[trigger] grid.cell_at(c, j) is Empty by {
            assert(interior(grid, c, j));
        }
        lemma_first_wall_in_column(grid, centre, ray, c, c, 0, wall->0);
    }
}

/// A wall met on a Y side is drawn darker than the same texel of a wall met
/// on an X side: no channel is brighter, the alpha channel is the same, and
/// unless the texel is black the colour is strictly darker.
pub proof fn law_side_shading(texture: Texture, column: int, row: int)
    ensures
        ({
            let lit = wall_color(texture, Side::X, column, row);
            let shaded = wall_color(texture, Side::Y, column, row);
            &&& shaded == corrected(lit, SIDE_SHADE as int)
            &&& shaded.r <= lit.r
            &&& shaded.g <= lit.g
            &&& shaded.b <= lit.b
            &&& shaded.a == lit.a
            &&& intensity(lit) > 0 ==> intensity(shaded) < intensity(lit)
        }),
{
    let lit = wall_color(texture, Side::X, column, row);
    lemma_corrected_channel_range(lit.r as int, SIDE_SHADE as int);
    lemma_corrected_channel_range(lit.g as int, SIDE_SHADE as int);
    lemma_corrected_channel_range(lit.b as int, SIDE_SHADE as int);
}

/// Two walls at the same distance that show the same texture column, one met
/// on an X side and one on a Y side, are drawn in the same rows of the
/// screen, and in each of those rows the second is the darkened first.
pub proof fn law_side_shading_of_stripes(
    texture: Texture,
    position: Vector2,
    ray: Ray,
    other_position: Vector2,
    other_ray: Ray,
    screen_width: int,
    screen_height: int,
    travel: int,
    row: int,
    behind: Color,
)
    requires
        abs(ray.x as int) == abs(other_ray.y as int),
        texture_column(position, ray, Side::X, travel) == texture_column(other_position, other_ray, Side::Y, travel),
    ensures
        ({
            let lit = stripe_pixel(
                texture,
                position,
                ray,
                screen_width,
                screen_height,
                Hit { cell_x: 0, cell_y: 0, side: Side::X, texture: 0, travel },
                row,
                behind,
            );
            let shaded = stripe_pixel(
                texture,
                other_position,
                other_ray,
                screen_width,
                screen_height,
                Hit { cell_x: 0, cell_y: 0, side: Side::Y, texture: 0, travel },
                row,
                behind,
            );
            let height = line_height(screen_width, screen_height, travel, ray.x as int);
            let start = stripe_start(screen_height, height);
            if start <= row < start + height {
                shaded == corrected(lit, SIDE_SHADE as int)
            } else {
                shaded == behind && lit == behind
            }
        }),
{
}

/// How far a coordinate may be from `c` after a turn and a turn back: one
/// unit of the fixed-point format, which is 2^-32.
pub open spec fn within_turn_tolerance(c: int, after: int) -> bool {
    abs(after - c) <= 1
}

/// A turn followed by the opposite turn brings a vector back to where it
/// was, up to one unit of the fixed-point format in each coordinate.
pub proof fn lemma_turn_round_trip(v: Vector2, counter_clockwise: bool)
    requires
        can_turn(v, counter_clockwise),
    ensures
        ({
            let there = Vector2 {
                x: turned_x(v, counter_clockwise) as i64,
                y: turned_y(v, counter_clockwise) as i64,
            };
            &&& within_turn_tolerance(v.x as int, turned_x(there, !counter_clockwise))
            &&& within_turn_tolerance(v.y as int, turned_y(there, !counter_clockwise))
        }),
{
    let x = v.x as int;
    let y = v.y as int;
    if counter_clockwise {
        lemma_round_trip_counter_clockwise(x, y);
    } else {
        lemma_round_trip_clockwise(x, y);
    }
}

/// The arithmetic of a counter-clockwise turn followed by a clockwise turn.
proof fn lemma_round_trip_counter_clockwise(x: int, y: int)
    requires
        -0x8000_0000_0000_0000 <= x <= 0x8000_0000_0000_0000,
        -0x8000_0000_0000_0000 <= y <= 0x8000_0000_0000_0000,
    ensures
        ({
            let x1 = round_turned(x * 4609124207857233729 - y * (-153694401664737459));
            let y1 = round_turned(x * (-153694401664737459) + y * 4609124207857233729);
            &&& within_turn_tolerance(x, round_turned(x1 * 4609124207857233729 - y1 * 153694401664737459))
            &&& within_turn_tolerance(y, round_turned(x1 * 153694401664737459 + y1 * 4609124207857233729))
        }),
{
    let a = x * 4609124207857233729 - y * (-153694401664737459);
    let b = x * (-153694401664737459) + y * 4609124207857233729;
    let x1 = round_turned(a);
    let y1 = round_turned(b);
    let e1 = x1 * 0x4000_0000_0000_0000 - a;
    let e2 = y1 * 0x4000_0000_0000_0000 - b;
    assert(-0x2000_0000_0000_0000 < e1 <= 0x2000_0000_0000_0000);
    assert(-0x2000_0000_0000_0000 < e2 <= 0x2000_0000_0000_0000);
    let a2 = x1 * 4609124207857233729 - y1 * 153694401664737459;
    let b2 = x1 * 153694401664737459 + y1 * 4609124207857233729;
    let x2 = round_turned(a2);
    let y2 = round_turned(b2);
    let e3 = x2 * 0x4000_0000_0000_0000 - a2;
    let e4 = y2 * 0x4000_0000_0000_0000 - b2;
    assert(-0x2000_0000_0000_0000 < e3 <= 0x2000_0000_0000_0000);
    assert(-0x2000_0000_0000_0000 < e4 <= 0x2000_0000_0000_0000);
    assert(a2 * 0x4000_0000_0000_0000 == 21267647932558653965124815479533022122 * x + 4609124207857233729 * e1 - 153694401664737459 * e2);
    assert(b2 * 0x4000_0000_0000_0000 == 21267647932558653965124815479533022122 * y + 153694401664737459 * e1 + 4609124207857233729 * e2);
    assert((x2 - x) * 21267647932558653966460912964485513216 == -1336097484952491094 * x + 4609124207857233729 * e1 - 153694401664737459 * e2 + 0x4000_0000_0000_0000 * e3);
    assert((y2 - y) * 21267647932558653966460912964485513216 == -1336097484952491094 * y + 153694401664737459 * e1 + 4609124207857233729 * e2 + 0x4000_0000_0000_0000 * e4);
}

/// The arithmetic of a clockwise turn followed by a counter-clockwise turn.
proof fn lemma_round_trip_clockwise(x: int, y: int)
    requires
        -0x8000_0000_0000_0000 <= x <= 0x8000_0000_0000_0000,
        -0x8000_0000_0000_0000 <= y <= 0x8000_0000_0000_0000,
    ensures
        ({
            let x1 = round_turned(x * 4609124207857233729 - y * 153694401664737459);
            let y1 = round_turned(x * 153694401664737459 + y * 4609124207857233729);
            &&& within_turn_tolerance(x, round_turned(x1 * 4609124207857233729 - y1 * (-153694401664737459)))
            &&& within_turn_tolerance(y, round_turned(x1 * (-153694401664737459) + y1 * 4609124207857233729))
        }),
{
    let a = x * 4609124207857233729 - y * 153694401664737459;
    let b = x * 153694401664737459 + y * 4609124207857233729;
    let x1 = round_turned(a);
    let y1 = round_turned(b);
    let e1 = x1 * 0x4000_0000_0000_0000 - a;
    let e2 = y1 * 0x4000_0000_0000_0000 - b;
    assert(-0x2000_0000_0000_0000 < e1 <= 0x2000_0000_0000_0000);
    assert(-0x2000_0000_0000_0000 < e2 <= 0x2000_0000_0000_0000);
    let a2 = x1 * 4609124207857233729 - y1 * (-153694401664737459);
    let b2 = x1 * (-153694401664737459) + y1 * 4609124207857233729;
    let x2 = round_turned(a2);
    let y2 = round_turned(b2);
    let e3 = x2 * 0x4000_0000_0000_0000 - a2;
    let e4 = y2 * 0x4000_0000_0000_0000 - b2;
    assert(-0x2000_0000_0000_0000 < e3 <= 0x2000_0000_0000_0000);
    assert(-0x2000_0000_0000_0000 < e4 <= 0x2000_0000_0000_0000);
    assert(a2 * 0x4000_0000_0000_0000 == 21267647932558653965124815479533022122 * x + 4609124207857233729 * e1 + 153694401664737459 * e2);
    assert(b2 * 0x4000_0000_0000_0000 == 21267647932558653965124815479533022122 * y - 153694401664737459 * e1 + 4609124207857233729 * e2);
    assert((x2 - x) * 21267647932558653966460912964485513216 == -1336097484952491094 * x + 4609124207857233729 * e1 + 153694401664737459 * e2 + 0x4000_0000_0000_0000 * e3);
    assert((y2 - y) * 21267647932558653966460912964485513216 == -1336097484952491094 * y - 153694401664737459 * e1 + 4609124207857233729 * e2 + 0x4000_0000_0000_0000 * e4);
}

/// Turning the player one way and then the other way restores the position
/// exactly, and each coordinate of the direction and of the camera plane to
/// within one unit of the fixed-point format, which is 2^-32.
pub proof fn law_rotation_round_trip(player: Player, counter_clockwise: bool)
    requires
        player.can_rotate(counter_clockwise),
        player.turned(counter_clockwise).can_rotate(!counter_clockwise),
    ensures
        ({
            let back = player.turned(counter_clockwise).turned(!counter_clockwise);
            &&& back.position == player.position
            &&& within_turn_tolerance(player.direction.x as int, back.direction.x as int)
            &&& within_turn_tolerance(player.direction.y as int, back.direction.y as int)
            &&& within_turn_tolerance(player.plane.x as int, back.plane.x as int)
            &&& within_turn_tolerance(player.plane.y as int, back.plane.y as int)
        }),
{
    lemma_turn_round_trip(player.direction, counter_clockwise);
    lemma_turn_round_trip(player.plane, counter_clockwise);
}

/// Whether the ray passes through cell `(cx, cy)`: the cell is on the ray's
/// path, and the ray reaches neither boundary ahead before it has crossed
/// the boundary behind on the other axis.
pub open spec fn passes_through(position: Vector2, ray: Ray, cx: int, cy: int) -> bool {
    let ahead_x = reach(position.x as int, ray.x as int, cx);
    let ahead_y = reach(position.y as int, ray.y as int, cy);
    &&& on_path(position, ray, cx, cy)
    &&& (ahead_x - SCALE) * abs(ray.y as int) <= ahead_y * abs(ray.x as int)
    &&& (ahead_y - SCALE) * abs(ray.x as int) <= ahead_x * abs(ray.y as int)
}

/// Whether the point at which the ray crosses the boundary of a hit lies on
/// the face of the wall cell: on the axis along the boundary, the point's
/// coordinate `p + travel * other / |along|` lies between the two grid lines
/// that bound the cell. Here `p` is the origin's coordinate on that axis and
/// `other` and `along` are the ray's coordinates on that axis and on the
/// axis that the boundary crosses.
pub open spec fn hit_point_on_face(position: Vector2, ray: Ray, hit: Hit) -> bool {
    match hit.side {
        Side::X => {
            let scaled = position.y * abs(ray.x as int) + hit.travel * ray.y;
            hit.cell_y * SCALE * abs(ray.x as int) <= scaled <= (hit.cell_y + 1) * SCALE * abs(ray.x as int)
        },
        Side::Y => {
            let scaled = position.x * abs(ray.y as int) + hit.travel * ray.x;
            hit.cell_x * SCALE * abs(ray.y as int) <= scaled <= (hit.cell_x + 1) * SCALE * abs(ray.y as int)
        },
    }
}

/// The ray passes through the cell in which it starts.
pub proof fn lemma_start_passes_through(position: Vector2, ray: Ray)
    ensures
        passes_through(position, ray, cell_index(position.x as int), cell_index(position.y as int)),
{
    let cx = cell_index(position.x as int);
    let cy = cell_index(position.y as int);
    lemma_start_on_path(position, ray);
    let ahead_x = reach(position.x as int, ray.x as int, cx);
    let ahead_y = reach(position.y as int, ray.y as int, cy);
    lemma_product_sign(ahead_x, abs(ray.y as int));
    lemma_product_sign(ahead_y, abs(ray.x as int));
    lemma_product_sign(SCALE - ahead_x, abs(ray.y as int));
    lemma_product_sign(SCALE - ahead_y, abs(ray.x as int));
    lemma_opposite_product(SCALE - ahead_x, abs(ray.y as int));
    lemma_opposite_product(SCALE - ahead_y, abs(ray.x as int));
}

/// The product with the opposite of a number is the opposite of the product.
proof fn lemma_opposite_product(a: int, b: int)
    by (nonlinear_arith)
    ensures
        (-a) * b == -(a * b),
{
}

/// Products with a sum or a difference, term by term.
proof fn lemma_product_of_sum(a: int, b: int, c: int)
    by (nonlinear_arith)
    ensures
        (a + b) * c == a * c + b * c,
        (a - b) * c == a * c - b * c,
        c * (a + b) == c * a + c * b,
        a * c == c * a,
{
}

/// The ray passes through the cell it enters when it crosses a boundary.
pub proof fn lemma_step_passes_through(position: Vector2, ray: Ray, cx: int, cy: int)
    requires
        passes_through(position, ray, cx, cy),
        ray.x != 0 || ray.y != 0,
    ensures
        crosses_x(position, ray, cx, cy) ==> passes_through(position, ray, cx + step_of(ray.x as int), cy),
        !crosses_x(position, ray, cx, cy) ==> passes_through(position, ray, cx, cy + step_of(ray.y as int)),
{
    lemma_step_on_path(position, ray, cx, cy);
    let ahead_x = reach(position.x as int, ray.x as int, cx);
    let ahead_y = reach(position.y as int, ray.y as int, cy);
    let along_x = abs(ray.x as int);
    let along_y = abs(ray.y as int);
    lemma_product_of_sum(ahead_x, SCALE as int, along_y);
    lemma_product_of_sum(ahead_y, SCALE as int, along_x);
    lemma_product_sign(SCALE as int, along_y);
    lemma_product_sign(SCALE as int, along_x);
    if crosses_x(position, ray, cx, cy) {
        assert(reach(position.x as int, ray.x as int, cx + step_of(ray.x as int)) == ahead_x + SCALE);
    } else {
        assert(reach(position.y as int, ray.y as int, cy + step_of(ray.y as int)) == ahead_y + SCALE);
    }
}

/// Where the ray crosses a boundary between columns, it is in its row: the
/// crossing point lies on the face between the two cells.
proof fn lemma_crossing_on_face(p: int, r: int, other: int, cell: int, ahead: int)
    requires
        reach(p, other, cell) >= 0,
        ahead >= 0,
        r > 0,
        (reach(p, other, cell) - SCALE) * r <= ahead * abs(other),
        ahead * abs(other) <= reach(p, other, cell) * r,
    ensures
        cell * SCALE * r <= p * r + ahead * other <= (cell + 1) * SCALE * r,
{
    let lines = cell * SCALE;
    if other < 0 {
        lemma_opposite_product(other, ahead);
        lemma_product_of_sum(p, lines, r);
        lemma_product_of_sum(p - lines, SCALE as int, r);
        lemma_product_of_sum(lines, SCALE as int, r);
        assert(ahead * abs(other) == -(ahead * other)) by (nonlinear_arith)
            requires
                abs(other) == -other,
        ;
    } else {
        lemma_product_of_sum(lines, SCALE as int, r);
        lemma_product_of_sum(lines + SCALE, p, r);
        lemma_product_of_sum(lines, p, r);
    }
}

/// A wall that the traversal reports is entered at a point of its face.
pub proof fn lemma_trace_hit_on_face(grid: Grid, position: Vector2, ray: Ray, cx: int, cy: int)
    requires
        passes_through(position, ray, cx, cy),
        ray.x != 0 || ray.y != 0,
    ensures
        match trace(grid, position, ray, cx, cy) {
            Some(hit) => hit_point_on_face(position, ray, hit),
            None => true,
        },
    decreases room(grid.width() as int, ray.x as int, cx) + room(grid.height() as int, ray.y as int, cy),
{
    lemma_step_passes_through(position, ray, cx, cy);
    lemma_step_on_path(position, ray, cx, cy);
    let by_x = crosses_x(position, ray, cx, cy);
    let nx = if by_x {
        cx + step_of(ray.x as int)
    } else {
        cx
    };
    let ny = if by_x {
        cy
    } else {
        cy + step_of(ray.y as int)
    };
    if grid.in_bounds(nx, ny) {
        if grid.cell_at(nx, ny) is Empty {
            lemma_trace_hit_on_face(grid, position, ray, nx, ny);
        } else if by_x {
            lemma_crossing_on_face(
                position.y as int,
                abs(ray.x as int),
                ray.y as int,
                cy,
                reach(position.x as int, ray.x as int, cx),
            );
        } else {
            lemma_crossing_on_face(
                position.x as int,
                abs(ray.y as int),
                ray.x as int,
                cx,
                reach(position.y as int, ray.y as int, cy),
            );
        }
    }
}

/// The traversal follows the ray: the point at which a ray crosses the
/// boundary reported with a hit lies on the face of the wall cell that the
/// hit names.
pub proof fn law_hit_point_on_face(grid: Grid, position: Vector2, ray: Ray)
    ensures
        match cast(grid, position, ray) {
            Some(hit) => hit_point_on_face(position, ray, hit),
            None => true,
        },
{
    if ray.x != 0 || ray.y != 0 {
        lemma_start_passes_through(position, ray);
        lemma_trace_hit_on_face(grid, position, ray, cell_index(position.x as int), cell_index(position.y as int));
    }
}

/// The dot product of two vectors. Its unit is the square of the unit of the
/// coordinates.
pub open spec fn dot(a: Vector2, b: Vector2) -> int {
    a.x * b.x + a.y * b.y
}

/// The sum of the absolute values of the coordinates of a vector.
pub open spec fn extent(a: Vector2) -> int {
    abs(a.x as int) + abs(a.y as int)
}

/// How far the dot product of two vectors may be from `before` after both
/// are turned. The bound is given times the square of `TURN_SCALE`: a share
/// of `before` of less than 7 in 10^20, which is what the rounded sine and
/// cosine take from a length, and for the rounding of the coordinates little
/// more than half a unit for each unit of `extents`, the sum of the extents
/// of the two vectors, and half a unit more.
pub open spec fn turn_keeps(before: int, after: int, extents: int) -> bool {
    abs(after - before) * 21267647932558653966460912964485513216 <= 1336097484952491094 * abs(before) + 10982311994919123627077119545993854976 * extents + 10633823966279326983230456482242756608
}

/// Whether a product that is large beside the extents of its vectors is kept
/// within a hundred-thousandth of itself.
pub open spec fn turn_keeps_relatively(before: int, after: int, extents: int) -> bool {
    abs(before) >= 65536 * extents && extents >= 4 ==> abs(after - before) * 100000 <= abs(before)
}

/// The products of the turned coordinates of two vectors, before rounding:
/// the turn multiplies the dot product by the squared length of the pair of
/// sine and cosine.
proof fn lemma_turned_dot(x: int, y: int, u: int, v: int, s: int)
    by (nonlinear_arith)
    requires
        s == 153694401664737459 || s == -153694401664737459,
    ensures
        (x * 4609124207857233729 - y * s) * (u * 4609124207857233729 - v * s) + (x * s + y * 4609124207857233729) * (u * s + v * 4609124207857233729)
            == 21267647932558653965124815479533022122 * (x * u + y * v),
{
}

/// The turned coordinates of a vector, before rounding, are bounded by the
/// extent of the vector.
proof fn lemma_turned_extent(x: int, y: int, s: int)
    by (nonlinear_arith)
    requires
        s == 153694401664737459 || s == -153694401664737459,
    ensures
        abs(x * 4609124207857233729 - y * s) <= 4609124207857233729 * abs(x) + 153694401664737459 * abs(y),
        abs(x * s + y * 4609124207857233729) <= 153694401664737459 * abs(x) + 4609124207857233729 * abs(y),
{
}

/// The product of two rounded quotients, from the numbers that were rounded
/// and the errors of the rounding.
proof fn lemma_rounded_product(p: int, q: int, a: int, b: int, e: int, f: int)
    by (nonlinear_arith)
    requires
        p * 0x4000_0000_0000_0000 == a + e,
        q * 0x4000_0000_0000_0000 == b + f,
    ensures
        21267647932558653966460912964485513216 * (p * q) == a * b + a * f + e * b + e * f,
{
}

/// The arithmetic of `law_turn_keeps_shape`: the dot product of two vectors
/// `(x, y)` and `(u, v)` after a turn with sine `s`.
proof fn lemma_turn_keeps_dot(x: int, y: int, u: int, v: int, s: int)
    requires
        s == 153694401664737459 || s == -153694401664737459,
    ensures
        turn_keeps(
            x * u + y * v,
            round_turned(x * 4609124207857233729 - y * s) * round_turned(u * 4609124207857233729 - v * s) + round_turned(x * s + y * 4609124207857233729)
                * round_turned(u * s + v * 4609124207857233729),
            abs(x) + abs(y) + abs(u) + abs(v),
        ),
        turn_keeps_relatively(
            x * u + y * v,
            round_turned(x * 4609124207857233729 - y * s) * round_turned(u * 4609124207857233729 - v * s) + round_turned(x * s + y * 4609124207857233729)
                * round_turned(u * s + v * 4609124207857233729),
            abs(x) + abs(y) + abs(u) + abs(v),
        ),
{
    let a = x * 4609124207857233729 - y * s;
    let b = x * s + y * 4609124207857233729;
    let c = u * 4609124207857233729 - v * s;
    let d = u * s + v * 4609124207857233729;
    let ra = round_turned(a);
    let rb = round_turned(b);
    let rc = round_turned(c);
    let rd = round_turned(d);
    let ea = ra * 0x4000_0000_0000_0000 - a;
    let eb = rb * 0x4000_0000_0000_0000 - b;
    let ec = rc * 0x4000_0000_0000_0000 - c;
    let ed = rd * 0x4000_0000_0000_0000 - d;
    assert(-0x2000_0000_0000_0000 <= ea <= 0x2000_0000_0000_0000 && -0x2000_0000_0000_0000 <= eb <= 0x2000_0000_0000_0000);
    assert(-0x2000_0000_0000_0000 <= ec <= 0x2000_0000_0000_0000 && -0x2000_0000_0000_0000 <= ed <= 0x2000_0000_0000_0000);
    lemma_turned_dot(x, y, u, v, s);
    lemma_turned_extent(x, y, s);
    lemma_turned_extent(u, v, s);
    lemma_rounded_product(ra, rc, a, c, ea, ec);
    lemma_rounded_product(rb, rd, b, d, eb, ed);
    let bound_a = 4609124207857233729 * abs(x) + 153694401664737459 * abs(y);
    let bound_b = 153694401664737459 * abs(x) + 4609124207857233729 * abs(y);
    let bound_c = 4609124207857233729 * abs(u) + 153694401664737459 * abs(v);
    let bound_d = 153694401664737459 * abs(u) + 4609124207857233729 * abs(v);
    lemma_abs_product(a, ec, bound_a, 0x2000_0000_0000_0000);
    lemma_abs_product(ea, c, 0x2000_0000_0000_0000, bound_c);
    lemma_abs_product(b, ed, bound_b, 0x2000_0000_0000_0000);
    lemma_abs_product(eb, d, 0x2000_0000_0000_0000, bound_d);
    lemma_abs_product(ea, ec, 0x2000_0000_0000_0000, 0x2000_0000_0000_0000);
    lemma_abs_product(eb, ed, 0x2000_0000_0000_0000, 0x2000_0000_0000_0000);
    let before = x * u + y * v;
    let after = ra * rc + rb * rd;
    assert(21267647932558653966460912964485513216 * (after - before) == -1336097484952491094 * before + (a * ec + ea * c + ea * ec) + (b * ed + eb * d + eb
        * ed));
}

/// The squared length of a vector that is not very short is large beside
/// its extent.
proof fn lemma_squared_length_is_large(x: int, y: int)
    by (nonlinear_arith)
    requires
        abs(x) + abs(y) >= 262144,
    ensures
        x * x + y * y >= 131072 * (abs(x) + abs(y)),
{
}

/// Twice a dot product is at most the sum of the squared lengths.
proof fn lemma_dot_below_lengths(x: int, y: int, u: int, v: int)
    by (nonlinear_arith)
    ensures
        2 * abs(x * u + y * v) <= (x * x + y * y) + (u * u + v * v),
        x * x + y * y >= 0,
        u * u + v * v >= 0,
{
}

/// The least extent of a vector, 2^-14 in real numbers, from which a turn
/// keeps its squared length within a hundred-thousandth.
pub const SHAPE_EXTENT_MIN: i64 = 262144;

/// A turn keeps the shape of the view up to the rounding of the fixed-point
/// format. The squared lengths of the direction and of the camera plane and
/// their dot product, which together fix the lengths of the two vectors and
/// the angle between them, change by no more than `turn_keeps` allows. For
/// vectors with an extent of `SHAPE_EXTENT_MIN` or more, each squared length
/// changes by no more than a hundred-thousandth of itself, and the dot
/// product by no more than a hundred-thousandth of the mean of the two
/// squared lengths.
pub proof fn law_turn_keeps_shape(player: Player, counter_clockwise: bool)
    requires
        player.can_rotate(counter_clockwise),
    ensures
        ({
            let after = player.turned(counter_clockwise);
            let d = player.direction;
            let q = player.plane;
            &&& turn_keeps(dot(d, d), dot(after.direction, after.direction), 2 * extent(d))
            &&& turn_keeps(dot(q, q), dot(after.plane, after.plane), 2 * extent(q))
            &&& turn_keeps(dot(d, q), dot(after.direction, after.plane), extent(d) + extent(q))
            &&& turn_keeps_relatively(dot(d, d), dot(after.direction, after.direction), 2 * extent(d))
            &&& turn_keeps_relatively(dot(q, q), dot(after.plane, after.plane), 2 * extent(q))
            &&& turn_keeps_relatively(dot(d, q), dot(after.direction, after.plane), extent(d) + extent(q))
            &&& extent(d) >= SHAPE_EXTENT_MIN ==> abs(dot(after.direction, after.direction) - dot(d, d)) * 100000
                <= dot(d, d)
            &&& extent(q) >= SHAPE_EXTENT_MIN ==> abs(dot(after.plane, after.plane) - dot(q, q)) * 100000 <= dot(
                q,
                q,
            )
            &&& extent(d) >= SHAPE_EXTENT_MIN && extent(q) >= SHAPE_EXTENT_MIN ==> abs(
                dot(after.direction, after.plane) - dot(d, q),
            ) * 200000 <= dot(d, d) + dot(q, q)
        }),
{
    let d = player.direction;
    let q = player.plane;
    let s = turn_sine(counter_clockwise);
    lemma_turn_keeps_dot(d.x as int, d.y as int, d.x as int, d.y as int, s);
    lemma_turn_keeps_dot(q.x as int, q.y as int, q.x as int, q.y as int, s);
    lemma_turn_keeps_dot(d.x as int, d.y as int, q.x as int, q.y as int, s);
    lemma_dot_below_lengths(d.x as int, d.y as int, q.x as int, q.y as int);
    if extent(d) >= SHAPE_EXTENT_MIN {
        lemma_squared_length_is_large(d.x as int, d.y as int);
    }
    if extent(q) >= SHAPE_EXTENT_MIN {
        lemma_squared_length_is_large(q.x as int, q.y as int);
    }
}

/// Whether the coordinate `after` is `before` made longer (`increase`) or
/// shorter: it has the sign of `before`, its absolute value is not smaller,
/// or not larger, and it is strictly larger, or smaller, unless `before` is
/// so short, below three units, that a quarter of it rounds to nothing.
pub open spec fn resized_as_asked(before: int, after: int, increase: bool) -> bool {
    &&& before >= 0 ==> after >= 0
    &&& before <= 0 ==> after <= 0
    &&& increase ==> abs(after) >= abs(before)
    &&& !increase ==> abs(after) <= abs(before)
    &&& increase && abs(before) >= 3 ==> abs(after) > abs(before)
    &&& !increase && abs(before) >= 3 ==> abs(after) < abs(before)
}

/// The arithmetic of the two laws on the field of view.
proof fn lemma_resized_as_asked(c: int, increase: bool)
    ensures
        resized_as_asked(c, resized(c, increase), increase),
{
}

/// A true flag lengthens the direction and a false flag shortens it: every
/// coordinate keeps its sign and moves away from zero, or towards it.
pub proof fn law_fov_length_follows_flag(player: Player, increase: bool)
    requires
        can_resize(player.direction, increase),
    ensures
        ({
            let after = player.zoomed(increase);
            &&& resized_as_asked(player.direction.x as int, after.direction.x as int, increase)
            &&& resized_as_asked(player.direction.y as int, after.direction.y as int, increase)
            &&& after.plane == player.plane
            &&& after.position == player.position
        }),
{
    lemma_resized_as_asked(player.direction.x as int, increase);
    lemma_resized_as_asked(player.direction.y as int, increase);
}

/// A true flag lengthens the camera plane and a false flag shortens it:
/// every coordinate keeps its sign and moves away from zero, or towards it.
pub proof fn law_fov_width_follows_flag(player: Player, increase: bool)
    requires
        can_resize(player.plane, increase),
    ensures
        ({
            let after = player.widened(increase);
            &&& resized_as_asked(player.plane.x as int, after.plane.x as int, increase)
            &&& resized_as_asked(player.plane.y as int, after.plane.y as int, increase)
            &&& after.direction == player.direction
            &&& after.position == player.position
        }),
{
    lemma_resized_as_asked(player.plane.x as int, increase);
    lemma_resized_as_asked(player.plane.y as int, increase);
}

/// Whether `step`, taken twenty times, is the coordinate `d` of a
/// direction up to the rounding of the fixed-point format: ten units for
/// the rounding of the step, and four units in 2^32 of `d` for the rounding
/// of the twentieth itself.
pub open spec fn is_twentieth(step: int, d: int) -> bool {
    abs(20 * step - d) * SCALE <= 4 * abs(d) + 10 * SCALE
}

/// One step moves the player by a twentieth of the direction vector, or of
/// the direction vector turned by a right angle, forwards or backwards, up
/// to the rounding of the fixed-point format.
pub proof fn law_step_is_a_twentieth_of_the_direction(player: Player, way: Direction)
    requires
        player.can_move(way),
    ensures
        ({
            let d = player.direction;
            let after = player.moved(way);
            let moved_x = after.position.x - player.position.x;
            let moved_y = after.position.y - player.position.y;
            match way {
                Direction::North => is_twentieth(moved_x, d.x as int) && is_twentieth(moved_y, d.y as int),
                Direction::South => is_twentieth(moved_x, -d.x) && is_twentieth(moved_y, -d.y),
                Direction::East => is_twentieth(moved_x, -d.y) && is_twentieth(moved_y, d.x as int),
                Direction::West => is_twentieth(moved_x, d.y as int) && is_twentieth(moved_y, -d.x),
            }
        }),
{
}

/// Whether `after`, taken four times, is `before` taken five times, or
/// three times, up to two units for the rounding.
pub open spec fn is_quarter_more_or_less(before: int, after: int, increase: bool) -> bool {
    if increase {
        abs(4 * after - 5 * before) <= 2
    } else {
        abs(4 * after - 3 * before) <= 2
    }
}

/// The arithmetic of `law_fov_changes_by_a_quarter`.
proof fn lemma_quarter_more_or_less(c: int, increase: bool)
    ensures
        is_quarter_more_or_less(c, resized(c, increase), increase),
{
}

/// Lengthening multiplies each coordinate of the direction, or of the
/// camera plane, by five quarters and shortening by three quarters, up to
/// half a unit of the fixed-point format.
pub proof fn law_fov_changes_by_a_quarter(player: Player, increase: bool)
    ensures
        can_resize(player.direction, increase) ==> {
            let after = player.zoomed(increase);
            &&& is_quarter_more_or_less(player.direction.x as int, after.direction.x as int, increase)
            &&& is_quarter_more_or_less(player.direction.y as int, after.direction.y as int, increase)
        },
        can_resize(player.plane, increase) ==> {
            let after = player.widened(increase);
            &&& is_quarter_more_or_less(player.plane.x as int, after.plane.x as int, increase)
            &&& is_quarter_more_or_less(player.plane.y as int, after.plane.y as int, increase)
        },
{
    lemma_quarter_more_or_less(player.direction.x as int, increase);
    lemma_quarter_more_or_less(player.direction.y as int, increase);
    lemma_quarter_more_or_less(player.plane.x as int, increase);
    lemma_quarter_more_or_less(player.plane.y as int, increase);
}

/// A vector whose extent is within the range of the coordinates can be
/// turned either way, and a turn does not double its extent.
pub proof fn law_vectors_of_small_extent_can_turn(v: Vector2, counter_clockwise: bool)
    requires
        extent(v) <= COORD_MAX,
    ensures
        can_turn(v, counter_clockwise),
        abs(turned_x(v, counter_clockwise)) + abs(turned_y(v, counter_clockwise)) <= 2 * extent(v) + 1,
{
    lemma_turned_extent(v.x as int, v.y as int, turn_sine(counter_clockwise));
}

/// For a player whose direction and camera plane have an extent of less
/// than half the range of the coordinates, a turn and the turn back are
/// always possible, and they restore the position exactly and each
/// coordinate of the direction and of the camera plane to within one unit
/// of the fixed-point format.
pub proof fn law_rotation_round_trip_of_small_vectors(player: Player, counter_clockwise: bool)
    requires
        2 * extent(player.direction) + 1 <= COORD_MAX,
        2 * extent(player.plane) + 1 <= COORD_MAX,
    ensures
        player.can_rotate(counter_clockwise),
        player.turned(counter_clockwise).can_rotate(!counter_clockwise),
        ({
            let back = player.turned(counter_clockwise).turned(!counter_clockwise);
            &&& back.position == player.position
            &&& within_turn_tolerance(player.direction.x as int, back.direction.x as int)
            &&& within_turn_tolerance(player.direction.y as int, back.direction.y as int)
            &&& within_turn_tolerance(player.plane.x as int, back.plane.x as int)
            &&& within_turn_tolerance(player.plane.y as int, back.plane.y as int)
        }),
{
    law_vectors_of_small_extent_can_turn(player.direction, counter_clockwise);
    law_vectors_of_small_extent_can_turn(player.plane, counter_clockwise);
    let there = player.turned(counter_clockwise);
    law_vectors_of_small_extent_can_turn(there.direction, !counter_clockwise);
    law_vectors_of_small_extent_can_turn(there.plane, !counter_clockwise);
    law_rotation_round_trip(player, counter_clockwise);
}

} // verus!
