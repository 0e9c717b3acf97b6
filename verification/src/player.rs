use vstd::prelude::*;
use crate::fixed::{lemma_abs_product, representable, round_scaled, round_to_scale, Vector2, COORD_MAX};

verus! {

/// The length of one step of the player, as a fraction of the direction
/// vector, in fixed point: 0.05.
pub const MOVE_STEP: i64 = 214748365;

/// The fraction by which one command lengthens or shortens the direction or
/// the camera plane, in fixed point: 0.25.
pub const FOV_STEP: i64 = 0x4000_0000;

/// The representation of 1 for the sine and the cosine of a turn, which are
/// held with 62 fractional bits, so that turns neither lengthen nor shorten
/// a vector by more than the rounding of its coordinates does.
pub const TURN_SCALE: i64 = 0x4000_0000_0000_0000;

/// The cosine of the angle of one turn, a thirtieth of a radian, as a
/// multiple of `1 / TURN_SCALE`.
pub const TURN_COS: i64 = 4609124207857233729;

/// The sine of the angle of one turn, a thirtieth of a radian, as a multiple
/// of `1 / TURN_SCALE`.
pub const TURN_SIN: i64 = 153694401664737459;

/// The four ways the player can move, named as on a compass whose north is
/// the direction the player faces.
#[derive(Clone, Copy, Debug, PartialEq, Eq, Structural)]
pub enum Direction {
    North,
    East,
    South,
    West,
}

/// The player's camera: where it stands, where it looks, and the camera
/// plane, whose length relative to the direction sets the field of view.
#[derive(Clone, Copy, Debug, PartialEq, Eq, Structural)]
pub struct Player {
    pub position: Vector2,
    pub direction: Vector2,
    pub plane: Vector2,
}

/// `n / TURN_SCALE`, rounded to the nearest integer (halves go up).
pub open spec fn round_turned(n: int) -> int {
    (n + 0x2000_0000_0000_0000) / 0x4000_0000_0000_0000
}

/// The sine of the angle of a turn: counter-clockwise turns have a negative
/// angle.
pub open spec fn turn_sine(counter_clockwise: bool) -> int {
    if counter_clockwise {
        -(TURN_SIN as int)
    } else {
        TURN_SIN as int
    }
}

/// The x coordinate of `v` after one turn.
pub open spec fn turned_x(v: Vector2, counter_clockwise: bool) -> int {
    round_turned(v.x * TURN_COS - v.y * turn_sine(counter_clockwise))
}

/// The y coordinate of `v` after one turn.
pub open spec fn turned_y(v: Vector2, counter_clockwise: bool) -> int {
    round_turned(v.x * turn_sine(counter_clockwise) + v.y * TURN_COS)
}

/// Whether `v` can be turned: whether its coordinates after one turn are
/// fixed-point coordinates.
pub open spec fn can_turn(v: Vector2, counter_clockwise: bool) -> bool {
    representable(turned_x(v, counter_clockwise)) && representable(turned_y(v, counter_clockwise))
}

/// A coordinate after it is lengthened (`increase`) or shortened by the
/// share `FOV_STEP` of itself.
pub open spec fn resized(c: int, increase: bool) -> int {
    if increase {
        c + round_scaled(c * FOV_STEP)
    } else {
        c - round_scaled(c * FOV_STEP)
    }
}

/// Whether `v` can be resized: whether its coordinates after the change are
/// coordinates of the fixed-point format. A vector with such coordinates can
/// always be shortened.
pub open spec fn can_resize(v: Vector2, increase: bool) -> bool {
    representable(resized(v.x as int, increase)) && representable(resized(v.y as int, increase))
}

/// The x coordinate of the step that moves a player with direction `d` one
/// step in the given way: a step of `MOVE_STEP` times the direction, or
/// times the direction turned by a right angle, taken forwards or backwards.
pub open spec fn step_x(d: Vector2, way: Direction) -> int {
    match way {
        Direction::North => round_scaled(d.x * MOVE_STEP),
        Direction::South => -round_scaled(d.x * MOVE_STEP),
        Direction::East => round_scaled(-d.y * MOVE_STEP),
        Direction::West => -round_scaled(-d.y * MOVE_STEP),
    }
}

/// The y coordinate of the step that moves a player with direction `d` one
/// step in the given way.
pub open spec fn step_y(d: Vector2, way: Direction) -> int {
    match way {
        Direction::North => round_scaled(d.y * MOVE_STEP),
        Direction::South => -round_scaled(d.y * MOVE_STEP),
        Direction::East => round_scaled(d.x * MOVE_STEP),
        Direction::West => -round_scaled(d.x * MOVE_STEP),
    }
}

fn round_to_turn(n: i128) -> (r: i128)
    requires
        -0x4000_0000_0000_0000_0000_0000_0000_0000 <= n <= 0x4000_0000_0000_0000_0000_0000_0000_0000,
    ensures
        r == round_turned(n as int),
{
    let m: i128 = n + 0x2000_0000_0000_0000;
    if m >= 0 {
        m / 0x4000_0000_0000_0000
    } else {
        -((-m + 0x3fff_ffff_ffff_ffff) / 0x4000_0000_0000_0000)
    }
}

fn turn_coordinates(v: Vector2, counter_clockwise: bool) -> (r: (i128, i128))
    ensures
        r.0 == turned_x(v, counter_clockwise),
        r.1 == turned_y(v, counter_clockwise),
{
    let sine: i128 = if counter_clockwise {
        -153694401664737459
    } else {
        153694401664737459
    };
    let x: i128 = v.x as i128;
    let y: i128 = v.y as i128;
    proof {
        lemma_abs_product(x as int, 4609124207857233729, 0x8000_0000_0000_0000, 4609124207857233729);
        lemma_abs_product(y as int, 4609124207857233729, 0x8000_0000_0000_0000, 4609124207857233729);
        lemma_abs_product(x as int, sine as int, 0x8000_0000_0000_0000, 153694401664737459);
        lemma_abs_product(y as int, sine as int, 0x8000_0000_0000_0000, 153694401664737459);
    }
    let a: i128 = x * 4609124207857233729 - y * sine;
    let b: i128 = x * sine + y * 4609124207857233729;
    (round_to_turn(a), round_to_turn(b))
}

fn resize_coordinate(c: i64, increase: bool) -> (r: i128)
    ensures
        r == resized(c as int, increase),
        !increase && representable(c as int) ==> representable(r as int),
{
    proof {
        lemma_abs_product(c as int, FOV_STEP as int, 0x8000_0000_0000_0000, 0x4000_0000);
    }
    let change = round_to_scale((c as i128) * (FOV_STEP as i128));
    if increase {
        c as i128 + change
    } else {
        c as i128 - change
    }
}

fn step_coordinates(d: Vector2, way: Direction) -> (r: (i128, i128))
    ensures
        r.0 == step_x(d, way),
        r.1 == step_y(d, way),
        -0x1000_0000_0000_0000 <= r.0 <= 0x1000_0000_0000_0000,
        -0x1000_0000_0000_0000 <= r.1 <= 0x1000_0000_0000_0000,
{
    let x: i128 = d.x as i128;
    let y: i128 = d.y as i128;
    let along_x: i128 = round_to_scale(x * 214748365);
    let along_y: i128 = round_to_scale(y * 214748365);
    let across_x: i128 = round_to_scale(-y * 214748365);
    match way {
        Direction::North => (along_x, along_y),
        Direction::South => (-along_x, -along_y),
        Direction::East => (across_x, along_x),
        Direction::West => (-across_x, -along_x),
    }
}

fn in_range(n: i128) -> (ok: bool)
    ensures
        ok == representable(n as int),
{
    -(COORD_MAX as i128) <= n && n <= COORD_MAX as i128
}

impl Player {
    /// The player at the start: at (5, 7), facing along the x axis, with a
    /// camera plane of length 0.66.
    pub open spec fn start() -> Player {
        Player {
            position: Vector2 { x: 0x5_0000_0000, y: 0x7_0000_0000 },
            direction: Vector2 { x: 0x1_0000_0000, y: 0 },
            plane: Vector2 { x: 0, y: 2834678415 },
        }
    }

    /// Whether position, direction and camera plane all have coordinates of
    /// the fixed-point format.
    pub open spec fn spec_in_range(&self) -> bool {
        self.position.in_range() && self.direction.in_range() && self.plane.in_range()
    }

    /// Whether position, direction and camera plane all have coordinates of
    /// the fixed-point format.
    #[verifier::when_used_as_spec(spec_in_range)]
    pub fn in_range(&self) -> (ok: bool)
        ensures
            ok == self.in_range(),
    {
        self.position.in_range() && self.direction.in_range() && self.plane.in_range()
    }

    /// The player at the start.
    pub fn new() -> (p: Player)
        ensures
            p == Player::start(),
            p.in_range(),
    {
        Player {
            position: Vector2 { x: 0x5_0000_0000, y: 0x7_0000_0000 },
            direction: Vector2 { x: 0x1_0000_0000, y: 0 },
            plane: Vector2 { x: 0, y: 2834678415 },
        }
    }

    /// Whether the player can take one step in the given way: whether the
    /// position after the step has fixed-point coordinates.
    pub open spec fn spec_can_move(&self, way: Direction) -> bool {
        &&& representable(self.position.x + step_x(self.direction, way))
        &&& representable(self.position.y + step_y(self.direction, way))
    }

    /// Whether the player can turn: whether direction and camera plane can.
    pub open spec fn spec_can_rotate(&self, counter_clockwise: bool) -> bool {
        can_turn(self.direction, counter_clockwise) && can_turn(self.plane, counter_clockwise)
    }

    /// The player after one step in the given way.
    pub open spec fn moved(&self, way: Direction) -> Player {
        Player {
            position: Vector2 {
                x: (self.position.x + step_x(self.direction, way)) as i64,
                y: (self.position.y + step_y(self.direction, way)) as i64,
            },
            direction: self.direction,
            plane: self.plane,
        }
    }

    /// The player after one turn.
    pub open spec fn turned(&self, counter_clockwise: bool) -> Player {
        Player {
            position: self.position,
            direction: Vector2 {
                x: turned_x(self.direction, counter_clockwise) as i64,
                y: turned_y(self.direction, counter_clockwise) as i64,
            },
            plane: Vector2 {
                x: turned_x(self.plane, counter_clockwise) as i64,
                y: turned_y(self.plane, counter_clockwise) as i64,
            },
        }
    }

    /// The player after the direction is lengthened (`increase`) or shortened.
    pub open spec fn zoomed(&self, increase: bool) -> Player {
        Player {
            position: self.position,
            direction: Vector2 {
                x: resized(self.direction.x as int, increase) as i64,
                y: resized(self.direction.y as int, increase) as i64,
            },
            plane: self.plane,
        }
    }

    /// The player after the camera plane is lengthened (`increase`) or
    /// shortened.
    pub open spec fn widened(&self, increase: bool) -> Player {
        Player {
            position: self.position,
            direction: self.direction,
            plane: Vector2 {
                x: resized(self.plane.x as int, increase) as i64,
                y: resized(self.plane.y as int, increase) as i64,
            },
        }
    }

    /// Whether the player can take one step in the given way.
    #[verifier::when_used_as_spec(spec_can_move)]
    pub fn can_move(&self, way: Direction) -> (ok: bool)
        ensures
            ok == self.can_move(way),
    {
        let step = step_coordinates(self.direction, way);
        in_range(self.position.x as i128 + step.0) && in_range(self.position.y as i128 + step.1)
    }

    /// Whether the player can turn.
    #[verifier::when_used_as_spec(spec_can_rotate)]
    pub fn can_rotate(&self, counter_clockwise: bool) -> (ok: bool)
        ensures
            ok == self.can_rotate(counter_clockwise),
    {
        let d = turn_coordinates(self.direction, counter_clockwise);
        let p = turn_coordinates(self.plane, counter_clockwise);
        in_range(d.0) && in_range(d.1) && in_range(p.0) && in_range(p.1)
    }

    /// Whether the direction can be lengthened (`increase`) or shortened.
    pub fn can_increase_fov(&self, increase: bool) -> (ok: bool)
        ensures
            ok == can_resize(self.direction, increase),
    {
        in_range(resize_coordinate(self.direction.x, increase)) && in_range(resize_coordinate(self.direction.y, increase))
    }

    /// Whether the camera plane can be lengthened (`increase`) or shortened.
    pub fn can_increase_fov_width(&self, increase: bool) -> (ok: bool)
        ensures
            ok == can_resize(self.plane, increase),
    {
        in_range(resize_coordinate(self.plane.x, increase)) && in_range(resize_coordinate(self.plane.y, increase))
    }

    /// Moves the player one step: north is forwards, south backwards, east
    /// and west are sideways. Walls do not stop the player.
    pub fn move_(&mut self, dir: Direction)
        requires
            old(self).can_move(dir),
        ensures
            final(self).position.x == old(self).position.x + step_x(old(self).direction, dir),
            final(self).position.y == old(self).position.y + step_y(old(self).direction, dir),
            final(self).direction == old(self).direction,
            final(self).plane == old(self).plane,
            *final(self) == old(self).moved(dir),
            old(self).in_range() ==> final(self).in_range(),
    {
        let step = step_coordinates(self.direction, dir);
        self.position = Vector2 {
            x: (self.position.x as i128 + step.0) as i64,
            y: (self.position.y as i128 + step.1) as i64,
        };
    }

    /// Turns the player by a thirtieth of a radian. Direction and camera
    /// plane turn by the same angle, which keeps the shape of the view.
    pub fn rotate(&mut self, counter_clockwise: bool)
        requires
            old(self).can_rotate(counter_clockwise),
        ensures
            final(self).direction.x == turned_x(old(self).direction, counter_clockwise),
            final(self).direction.y == turned_y(old(self).direction, counter_clockwise),
            final(self).plane.x == turned_x(old(self).plane, counter_clockwise),
            final(self).plane.y == turned_y(old(self).plane, counter_clockwise),
            final(self).position == old(self).position,
            *final(self) == old(self).turned(counter_clockwise),
            old(self).in_range() ==> final(self).in_range(),
    {
        let d = turn_coordinates(self.direction, counter_clockwise);
        let p = turn_coordinates(self.plane, counter_clockwise);
        self.direction = Vector2 { x: d.0 as i64, y: d.1 as i64 };
        self.plane = Vector2 { x: p.0 as i64, y: p.1 as i64 };
    }

    /// Lengthens (`increase`) or shortens the direction vector by a quarter,
    /// which zooms the view in or out. The camera plane is kept.
    pub fn increase_fov(&mut self, increase: bool)
        requires
            can_resize(old(self).direction, increase),
        ensures
            final(self).direction.x == resized(old(self).direction.x as int, increase),
            final(self).direction.y == resized(old(self).direction.y as int, increase),
            final(self).plane == old(self).plane,
            final(self).position == old(self).position,
            *final(self) == old(self).zoomed(increase),
            old(self).in_range() ==> final(self).in_range(),
    {
        self.direction = Vector2 {
            x: resize_coordinate(self.direction.x, increase) as i64,
            y: resize_coordinate(self.direction.y, increase) as i64,
        };
    }

    /// Lengthens (`increase`) or shortens the camera plane by a quarter,
    /// which widens or narrows the field of view. The direction is kept.
    pub fn increase_fov_width(&mut self, increase: bool)
        requires
            can_resize(old(self).plane, increase),
        ensures
            final(self).plane.x == resized(old(self).plane.x as int, increase),
            final(self).plane.y == resized(old(self).plane.y as int, increase),
            final(self).direction == old(self).direction,
            final(self).position == old(self).position,
            *final(self) == old(self).widened(increase),
            old(self).in_range() ==> final(self).in_range(),
    {
        self.plane = Vector2 {
            x: resize_coordinate(self.plane.x, increase) as i64,
            y: resize_coordinate(self.plane.y, increase) as i64,
        };
    }
}

} // verus!
