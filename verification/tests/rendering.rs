use raycaster::color::{Color, SIDE_SHADE};
use raycaster::fixed::{Vector2, SCALE};
use raycaster::framebuffer::Framebuffer;
use raycaster::grid::Grid;
use raycaster::player::Player;
use raycaster::raycasting::{cast_ray, cast_rays, render_stripe, render_texture, Ray, Side, WallHit};
use raycaster::texture::Texture;

const ONE: i64 = SCALE;
const PLANE: i64 = 2834678415;

/// A texture whose texel in column x of row y is (10 * x, 10 * y, 200).
fn ramp() -> Texture {
    let mut texture = Texture::filled(Color::black());
    for y in 0..10 {
        for x in 0..10 {
            texture.set(x, y, Color::rgb(10 * x as u8, 10 * y as u8, 200));
        }
    }
    texture
}

fn ramp_room(n: usize) -> Grid {
    let mut descriptors = Vec::new();
    for y in 0..n {
        for x in 0..n {
            descriptors.push(if x == 0 || y == 0 || x == n - 1 || y == n - 1 { 1 } else { 0 });
        }
    }
    Grid::from_descriptors(n, n, &descriptors, vec![ramp()]).unwrap()
}

fn grey() -> Color {
    Color::rgb(9, 9, 9)
}

fn column(fb: &Framebuffer, x: usize) -> Vec<Color> {
    (0..fb.height()).map(|y| fb.get_pixel(x, y)).collect()
}

#[test]
fn stripe_is_centred_and_samples_the_texture_rows() {
    let mut fb = Framebuffer::with_size(4, 40, grey()).unwrap();
    let position = Vector2::new(2 * ONE, 5 * ONE + ONE / 4);
    let ray = Ray { x: 4 * ONE, y: 0 };
    let hit = WallHit { cell_x: 4, cell_y: 5, side: Side::X, texture: 0, travel: 2 * ONE };
    render_texture(&mut fb, 1, position, ray, &hit, &ramp());
    let drawn = column(&fb, 1);
    for y in 0..40 {
        let expected = if (10..30).contains(&y) {
            Color::rgb(20, 10 * ((y - 10) / 2) as u8, 200)
        } else {
            grey()
        };
        assert_eq!(drawn[y], expected, "row {}", y);
    }
    for x in [0, 2, 3] {
        assert_eq!(column(&fb, x), vec![grey(); 40]);
    }
}

#[test]
fn stripe_higher_than_the_screen_starts_at_the_top_of_the_texture() {
    let mut fb = Framebuffer::with_size(2, 20, grey()).unwrap();
    let position = Vector2::new(2 * ONE, 5 * ONE);
    let ray = Ray { x: 2 * ONE, y: 0 };
    let hit = WallHit { cell_x: 3, cell_y: 5, side: Side::X, texture: 0, travel: ONE / 4 };
    render_texture(&mut fb, 0, position, ray, &hit, &ramp());
    let drawn = column(&fb, 0);
    for y in 0..20 {
        assert_eq!(drawn[y], Color::rgb(0, 10 * (y / 8) as u8, 200), "row {}", y);
    }
}

#[test]
fn wall_of_height_zero_draws_nothing() {
    let mut fb = Framebuffer::with_size(2, 20, grey()).unwrap();
    let hit = WallHit { cell_x: 3, cell_y: 5, side: Side::X, texture: 0, travel: 100 * ONE };
    render_texture(&mut fb, 0, Vector2::new(0, 0), Ray { x: 2 * ONE, y: 0 }, &hit, &ramp());
    assert_eq!(column(&fb, 0), vec![grey(); 20]);
}

#[test]
fn wall_at_distance_zero_fills_the_column_with_the_first_texture_row() {
    let mut fb = Framebuffer::with_size(2, 20, grey()).unwrap();
    let hit = WallHit { cell_x: 0, cell_y: 5, side: Side::X, texture: 0, travel: 0 };
    render_texture(&mut fb, 1, Vector2::new(ONE, 5 * ONE + ONE / 2), Ray { x: -2 * ONE, y: 0 }, &hit, &ramp());
    assert_eq!(column(&fb, 1), vec![Color::rgb(50, 0, 200); 20]);
}

#[test]
fn y_side_is_drawn_darker_than_x_side() {
    let position = Vector2::new(2 * ONE + ONE / 2, 2 * ONE + ONE / 2);
    let mut lit = Framebuffer::with_size(2, 30, grey()).unwrap();
    let mut shaded = Framebuffer::with_size(2, 30, grey()).unwrap();
    let hit_x = WallHit { cell_x: 4, cell_y: 2, side: Side::X, texture: 0, travel: ONE + ONE / 2 };
    let hit_y = WallHit { cell_x: 2, cell_y: 4, side: Side::Y, texture: 0, travel: ONE + ONE / 2 };
    render_texture(&mut lit, 1, position, Ray { x: 2 * ONE, y: 0 }, &hit_x, &ramp());
    render_texture(&mut shaded, 1, position, Ray { x: 0, y: 2 * ONE }, &hit_y, &ramp());
    let lit = column(&lit, 1);
    let shaded = column(&shaded, 1);
    let mut walls = 0;
    for y in 0..30 {
        if lit[y] == grey() {
            assert_eq!(shaded[y], grey());
            continue;
        }
        walls += 1;
        assert_eq!(shaded[y], lit[y].brightness(SIDE_SHADE));
        assert_eq!(shaded[y].r as u32, lit[y].r as u32 * 7 / 10);
        assert_eq!(shaded[y].g as u32, lit[y].g as u32 * 7 / 10);
        assert_eq!(shaded[y].b, 140);
        assert_eq!(shaded[y].a, 255);
        let sum = |c: Color| c.r as u32 + c.g as u32 + c.b as u32;
        assert!(sum(shaded[y]) < sum(lit[y]));
    }
    assert_eq!(walls, 20);
}

#[test]
fn stripe_of_a_ray_that_meets_no_wall_keeps_the_column() {
    let grid = Grid::from_descriptors(3, 3, &vec![0; 9], vec![]).unwrap();
    let mut fb = Framebuffer::with_size(8, 6, grey()).unwrap();
    render_stripe(&mut fb, 3, &Player::new(), &grid);
    for x in 0..8 {
        assert_eq!(column(&fb, x), vec![grey(); 6]);
    }
}

#[test]
fn stripe_of_a_camera_without_direction_keeps_the_column() {
    let grid = ramp_room(5);
    let player = Player {
        position: Vector2::new(2 * ONE, 2 * ONE),
        direction: Vector2::new(0, 0),
        plane: Vector2::new(0, PLANE),
    };
    let mut fb = Framebuffer::with_size(8, 600, grey()).unwrap();
    render_stripe(&mut fb, 4, &player, &grid);
    assert_eq!(column(&fb, 4), vec![grey(); 600]);
    render_stripe(&mut fb, 5, &player, &grid);
    assert_eq!(column(&fb, 5).iter().filter(|c| **c != grey()).count(), 49);
}

#[test]
fn stripe_draws_what_the_ray_of_its_column_meets() {
    let grid = ramp_room(6);
    let player = Player {
        position: Vector2::new(2 * ONE, 3 * ONE + ONE / 2),
        direction: Vector2::new(ONE, 0),
        plane: Vector2::new(0, PLANE),
    };
    let mut fb = Framebuffer::with_size(10, 24, grey()).unwrap();
    render_stripe(&mut fb, 5, &player, &grid);
    let mut expected = Framebuffer::with_size(10, 24, grey()).unwrap();
    let ray = Ray::through(player.direction, player.plane, 5, 10);
    let hit = cast_ray(&grid, player.position, ray).unwrap();
    assert_eq!(hit.travel, 3 * ONE);
    render_texture(&mut expected, 5, player.position, ray, &hit, grid.texture(hit.texture));
    for x in 0..10 {
        assert_eq!(column(&fb, x), column(&expected, x));
    }
    let drawn = column(&fb, 5);
    for y in 0..24 {
        let expected = if (8..16).contains(&y) {
            Color::rgb(50, 10 * ((y - 8) * 10 / 8) as u8, 200)
        } else {
            grey()
        };
        assert_eq!(drawn[y], expected, "row {}", y);
    }
}

#[test]
fn all_columns_are_drawn_as_their_stripes() {
    let grid = ramp_room(6);
    let player = Player {
        position: Vector2::new(2 * ONE + 300, 3 * ONE + (21000 << 16)),
        direction: Vector2::new(40000 << 16, 30000 << 16),
        plane: Vector2::new(-20000 << 16, 27000 << 16),
    };
    let mut fb = Framebuffer::with_size(16, 24, grey()).unwrap();
    cast_rays(&mut fb, &player, &grid);
    for x in 0..16 {
        let mut single = Framebuffer::with_size(16, 24, grey()).unwrap();
        render_stripe(&mut single, x, &player, &grid);
        assert_eq!(column(&fb, x), column(&single, x));
        assert!(column(&fb, x) != vec![grey(); 24]);
    }
}

#[test]
fn middle_columns_of_a_square_room_are_equally_high() {
    let grid = ramp_room(7);
    let centre = 7 * (ONE / 2);
    let mut heights = Vec::new();
    for (dx, dy) in [(ONE, 0), (0, ONE), (-ONE, 0), (0, -ONE)] {
        let player = Player {
            position: Vector2::new(centre, centre),
            direction: Vector2::new(dx, dy),
            plane: Vector2::new(-dy * 2 / 3, dx * 2 / 3),
        };
        let mut fb = Framebuffer::with_size(8, 100, grey()).unwrap();
        render_stripe(&mut fb, 4, &player, &grid);
        heights.push(column(&fb, 4).iter().filter(|c| **c != grey()).count());
    }
    assert_eq!(heights, vec![40; 4]);
}
