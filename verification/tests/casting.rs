use raycaster::color::Color;
use raycaster::fixed::{Vector2, SCALE};
use raycaster::grid::{Cell, Grid};
use raycaster::player::Player;
use raycaster::raycasting::{cast_ray, perp_wall_distance, project_height, wall_column, Ray, Side, WallHit};
use raycaster::texture::Texture;

const ONE: i64 = SCALE;
const PLANE: i64 = 2834678415;

/// A room of the given size with walls of texture 0 all around, but for the
/// cells listed in `gaps`.
fn room(width: usize, height: usize, gaps: &[(usize, usize)]) -> Grid {
    let mut descriptors = Vec::new();
    for y in 0..height {
        for x in 0..width {
            let border = x == 0 || y == 0 || x == width - 1 || y == height - 1;
            descriptors.push(if border && !gaps.contains(&(x, y)) { 1 } else { 0 });
        }
    }
    Grid::from_descriptors(width, height, &descriptors, vec![Texture::filled(Color::rgb(200, 100, 50))]).unwrap()
}

fn camera(x: i64, y: i64, dx: i64, dy: i64) -> Player {
    Player {
        position: Vector2::new(x, y),
        direction: Vector2::new(dx, dy),
        plane: Vector2::new(-dy * 66 / 100, dx * 66 / 100),
    }
}

fn centre_ray(player: &Player, width: usize) -> Ray {
    Ray::through(player.direction, player.plane, width / 2, width)
}

#[test]
fn centre_ray_is_the_direction_times_the_width() {
    let player = camera(2 * ONE, 5 * ONE, ONE, 0);
    let ray = centre_ray(&player, 640);
    assert_eq!(ray, Ray { x: 640 * ONE, y: 0 });
}

#[test]
fn ray_of_the_first_column_leans_against_the_plane() {
    let player = Player {
        position: Vector2::new(0, 0),
        direction: Vector2::new(ONE, 0),
        plane: Vector2::new(0, PLANE),
    };
    let ray = Ray::through(player.direction, player.plane, 0, 100);
    assert_eq!(ray, Ray { x: 429496729600, y: -283467841500 });
    let ray = Ray::through(player.direction, player.plane, 75, 100);
    assert_eq!(ray, Ray { x: 429496729600, y: PLANE * 50 });
}

#[test]
fn facing_east_hits_the_east_wall() {
    let grid = room(10, 10, &[]);
    let player = camera(2 * ONE, 5 * ONE, ONE, 0);
    let ray = centre_ray(&player, 640);
    let hit = cast_ray(&grid, player.position, ray).unwrap();
    assert_eq!(
        hit,
        WallHit { cell_x: 9, cell_y: 5, side: Side::X, texture: 0, travel: 7 * ONE }
    );
    assert_eq!(perp_wall_distance(640, hit.travel, ray.x), 7 * ONE as i128);
    assert_eq!(project_height(640, 480, hit.travel, ray.x), 480 / 7);
}

#[test]
fn wall_six_cells_to_the_east_is_a_sixth_of_the_screen_high() {
    // The player stands two cells east and five cells south of the inner
    // corner of the room, which is cell (1, 1) of the grid.
    let grid = room(10, 10, &[]);
    let player = camera(ONE + 2 * ONE, ONE + 5 * ONE, ONE, 0);
    let ray = centre_ray(&player, 640);
    let hit = cast_ray(&grid, player.position, ray).unwrap();
    assert_eq!((hit.cell_x, hit.cell_y, hit.side), (9, 6, Side::X));
    assert_eq!(perp_wall_distance(640, hit.travel, ray.x), 6 * ONE as i128);
    assert_eq!(project_height(640, 480, hit.travel, ray.x), 480 / 6);
    let distance = perp_wall_distance(640, hit.travel, ray.x) as f64 / ONE as f64;
    assert!((distance - (8.0 - 2.0)).abs() < 1e-9);
}

#[test]
fn facing_west_hits_the_west_wall() {
    let grid = room(10, 10, &[]);
    let player = camera(2 * ONE, 5 * ONE, -ONE, 0);
    let ray = centre_ray(&player, 640);
    let hit = cast_ray(&grid, player.position, ray).unwrap();
    assert_eq!(
        hit,
        WallHit { cell_x: 0, cell_y: 5, side: Side::X, texture: 0, travel: ONE }
    );
    assert_eq!(perp_wall_distance(640, hit.travel, ray.x), ONE as i128);
    assert_eq!(project_height(640, 480, hit.travel, ray.x), 480);
}

#[test]
fn wall_two_cells_to_the_west_is_half_the_screen_high() {
    let grid = room(10, 10, &[]);
    let player = camera(ONE + 2 * ONE, ONE + 5 * ONE, -ONE, 0);
    let ray = centre_ray(&player, 640);
    let hit = cast_ray(&grid, player.position, ray).unwrap();
    assert_eq!((hit.cell_x, hit.cell_y, hit.side), (0, 6, Side::X));
    assert_eq!(perp_wall_distance(640, hit.travel, ray.x), 2 * ONE as i128);
    assert_eq!(project_height(640, 480, hit.travel, ray.x), 240);
}

#[test]
fn turning_half_round_faces_the_west_wall() {
    let grid = room(10, 10, &[]);
    let mut player = Player {
        position: Vector2::new(ONE + 2 * ONE, ONE + 5 * ONE),
        direction: Vector2::new(ONE, 0),
        plane: Vector2::new(0, PLANE),
    };
    // 94 turns of a thirtieth of a radian are half a turn, short of 0.5 degrees.
    for _ in 0..94 {
        assert!(player.can_rotate(false));
        player.rotate(false);
    }
    assert!(player.direction.x < -ONE + ONE / 1000 && player.direction.y.abs() < ONE / 100);
    let ray = centre_ray(&player, 640);
    let hit = cast_ray(&grid, player.position, ray).unwrap();
    assert_eq!((hit.cell_x, hit.cell_y, hit.side), (0, 6, Side::X));
    assert_eq!(hit.travel, 2 * ONE);
    let distance = perp_wall_distance(640, hit.travel, ray.x) as f64 / ONE as f64;
    let short_of_half_a_turn = std::f64::consts::PI - 94.0 / 30.0;
    assert!((distance - 2.0 / short_of_half_a_turn.cos()).abs() < 1e-6, "{}", distance);
    assert!((distance - 2.0).abs() < 1e-4, "{}", distance);
    assert_eq!(project_height(640, 480, hit.travel, ray.x), 239);
}

#[test]
fn ray_through_a_gap_meets_no_wall() {
    let grid = room(10, 10, &[(9, 5)]);
    let player = camera(2 * ONE, 5 * ONE + ONE / 2, ONE, 0);
    let ray = centre_ray(&player, 640);
    assert_eq!(cast_ray(&grid, player.position, ray), None);
    let closed = room(10, 10, &[]);
    assert!(cast_ray(&closed, player.position, ray).is_some());
}

#[test]
fn ray_beside_the_gap_still_hits_the_border() {
    let grid = room(10, 10, &[(9, 5)]);
    let player = camera(2 * ONE, 4 * ONE + ONE / 2, ONE, 0);
    let ray = centre_ray(&player, 640);
    let hit = cast_ray(&grid, player.position, ray).unwrap();
    assert_eq!((hit.cell_x, hit.cell_y), (9, 4));
}

#[test]
fn every_column_hits_in_an_enclosed_grid() {
    let grid = room(10, 10, &[]);
    let headings = [(ONE, 0), (0, ONE), (-ONE, 0), (0, -ONE), (46341 << 16, 46341 << 16), (-30000 << 16, 58000 << 16)];
    for (dx, dy) in headings {
        let player = camera(2 * ONE + 1234, 5 * ONE + (40000 << 16), dx, dy);
        for column in 0..64 {
            let ray = Ray::through(player.direction, player.plane, column, 64);
            let hit = cast_ray(&grid, player.position, ray).unwrap();
            assert!(hit.cell_x == 0 || hit.cell_x == 9 || hit.cell_y == 0 || hit.cell_y == 9);
            assert_eq!(*grid.get_cell(hit.cell_x, hit.cell_y), Cell::Wall(0));
        }
    }
}

#[test]
fn ray_without_direction_meets_nothing() {
    let grid = room(10, 10, &[]);
    assert_eq!(cast_ray(&grid, Vector2::new(2 * ONE, 5 * ONE), Ray { x: 0, y: 0 }), None);
}

#[test]
fn ray_along_y_never_crosses_a_column_boundary() {
    let grid = room(10, 10, &[]);
    let hit = cast_ray(&grid, Vector2::new(3 * ONE, 5 * ONE), Ray { x: 0, y: 77 }).unwrap();
    assert_eq!(
        hit,
        WallHit { cell_x: 3, cell_y: 9, side: Side::Y, texture: 0, travel: 4 * ONE }
    );
    let hit = cast_ray(&grid, Vector2::new(3 * ONE, 5 * ONE), Ray { x: 0, y: -77 }).unwrap();
    assert_eq!(
        hit,
        WallHit { cell_x: 3, cell_y: 0, side: Side::Y, texture: 0, travel: 4 * ONE }
    );
}

#[test]
fn starting_cell_is_not_tested() {
    let grid = room(10, 10, &[]);
    let hit = cast_ray(&grid, Vector2::new(ONE / 2, 5 * ONE + ONE / 2), Ray { x: 1000, y: 0 }).unwrap();
    assert_eq!((hit.cell_x, hit.cell_y, hit.side), (9, 5, Side::X));
    assert_eq!(hit.travel, 8 * ONE + ONE / 2);
}

#[test]
fn ray_from_outside_the_grid_meets_nothing_at_once() {
    let grid = room(10, 10, &[]);
    assert_eq!(cast_ray(&grid, Vector2::new(-3 * ONE, 5 * ONE), Ray { x: 1000, y: 0 }), None);
    let hit = cast_ray(&grid, Vector2::new(-ONE / 2, 5 * ONE), Ray { x: 1000, y: 0 }).unwrap();
    assert_eq!((hit.cell_x, hit.cell_y), (0, 5));
    assert_eq!(hit.travel, ONE / 2);
}

#[test]
fn wall_at_distance_zero() {
    let grid = room(10, 10, &[]);
    let hit = cast_ray(&grid, Vector2::new(ONE, 5 * ONE), Ray { x: -1000, y: 0 }).unwrap();
    assert_eq!((hit.cell_x, hit.travel), (0, 0));
    assert_eq!(project_height(640, 480, hit.travel, -1000), 0x7fff_ffff);
}

#[test]
fn diagonal_ray_takes_the_nearer_boundary_first() {
    let mut descriptors = vec![0; 25];
    descriptors[1 * 5 + 3] = 1;
    descriptors[3 * 5 + 1] = 1;
    let grid = Grid::from_descriptors(5, 5, &descriptors, vec![Texture::filled(Color::black())]).unwrap();
    let start = Vector2::new(ONE + ONE / 2, ONE + ONE / 4);
    let hit = cast_ray(&grid, start, Ray { x: 1000, y: 0 }).unwrap();
    assert_eq!((hit.cell_x, hit.cell_y, hit.side), (3, 1, Side::X));
    let hit = cast_ray(&grid, start, Ray { x: 2, y: 1 });
    assert_eq!(hit, None);
    let hit = cast_ray(&grid, Vector2::new(ONE + ONE / 2, ONE + ONE / 2), Ray { x: -1, y: 20 }).unwrap();
    assert_eq!((hit.cell_x, hit.cell_y, hit.side), (1, 3, Side::Y));
    assert_eq!(hit.travel, ONE + ONE / 2);
}

#[test]
fn equal_distances_cross_the_row_boundary() {
    let mut descriptors = vec![0; 9];
    descriptors[1 * 3 + 2] = 1;
    descriptors[2 * 3 + 1] = 2;
    let textures = vec![Texture::filled(Color::black()), Texture::filled(Color::red())];
    let grid = Grid::from_descriptors(3, 3, &descriptors, textures).unwrap();
    let hit = cast_ray(&grid, Vector2::new(ONE + ONE / 2, ONE + ONE / 2), Ray { x: 5, y: 5 }).unwrap();
    assert_eq!(
        hit,
        WallHit { cell_x: 1, cell_y: 2, side: Side::Y, texture: 1, travel: ONE / 2 }
    );
}

#[test]
fn square_room_looks_the_same_in_four_directions() {
    for n in [3usize, 4, 7, 10] {
        let grid = room(n, n, &[]);
        let centre = (n as i64) * (ONE / 2);
        let d: i64 = 50000 << 16;
        let mut heights = Vec::new();
        for (dx, dy) in [(d, 0), (0, d), (-d, 0), (0, -d)] {
            let player = camera(centre, centre, dx, dy);
            let ray = centre_ray(&player, 320);
            let hit = cast_ray(&grid, player.position, ray).unwrap();
            assert_eq!(hit.travel, centre - ONE);
            let along = if hit.side == Side::X { ray.x } else { ray.y };
            heights.push(project_height(320, 200, hit.travel, along));
        }
        let expected = ((200 * d as i128) / (centre - ONE) as i128) as i64;
        assert_eq!(heights, vec![expected; 4]);
    }
}

#[test]
fn axis_aligned_distance_is_the_distance_to_the_face() {
    let grid = room(10, 10, &[]);
    let position = Vector2::new(2 * ONE + 1000, 5 * ONE + 17);
    let ray = Ray { x: ONE * 320, y: 0 };
    let hit = cast_ray(&grid, position, ray).unwrap();
    assert_eq!(hit.travel, 9 * ONE - (2 * ONE + 1000));
    assert_eq!(perp_wall_distance(320, hit.travel, ray.x), hit.travel as i128);
    let ray = Ray { x: 0, y: -ONE * 320 };
    let hit = cast_ray(&grid, position, ray).unwrap();
    assert_eq!(hit.travel, 4 * ONE + 17);
    assert_eq!(perp_wall_distance(320, hit.travel, ray.y), hit.travel as i128);
}

#[test]
fn perpendicular_distance_scales_with_the_direction() {
    assert_eq!(perp_wall_distance(100, 3 * ONE, 2 * ONE * 100), 3 * (ONE as i128 / 2));
    assert_eq!(perp_wall_distance(100, ONE, -3 * ONE * 100), 1431655765);
}

#[test]
fn projected_height_rounds_down_and_saturates() {
    assert_eq!(project_height(640, 480, 7 * ONE, 640 * ONE), 68);
    assert_eq!(project_height(640, 480, 7 * ONE, -640 * ONE), 68);
    assert_eq!(project_height(640, 480, ONE / 65536, 640 * ONE), 31457280);
    assert_eq!(project_height(640, 480, 1, 640 * ONE), 0x7fff_ffff);
    assert_eq!(project_height(640, 32768, 1, i64::MAX), 0x7fff_ffff);
    assert_eq!(project_height(640, 480, 500 * ONE, 640 * ONE), 0);
    assert_eq!(project_height(640, 480, 7 * ONE, 0), 0);
    assert_eq!(project_height(640, 480, -5, 640 * ONE), 0x7fff_ffff);
    assert_eq!(project_height(0, 480, 5, 640 * ONE), 0x7fff_ffff);
}

#[test]
fn texture_column_is_the_fraction_of_the_hit_coordinate() {
    let position = Vector2::new(2 * ONE, 5 * ONE + ONE / 4);
    assert_eq!(wall_column(position, Ray { x: 1000, y: 0 }, Side::X, 7 * ONE), 2);
    assert_eq!(wall_column(position, Ray { x: 70, y: 1 }, Side::X, 7 * ONE), 3);
    assert_eq!(wall_column(position, Ray { x: 70, y: -3 }, Side::X, 7 * ONE), 9);
    assert_eq!(wall_column(position, Ray { x: 0, y: 9 }, Side::Y, ONE), 0);
    assert_eq!(wall_column(position, Ray { x: -9, y: 18 }, Side::Y, 3 * ONE / 4), 6);
    assert_eq!(wall_column(position, Ray { x: 0, y: 5 }, Side::X, ONE), 0);
}

#[test]
fn texture_column_of_a_negative_coordinate() {
    let position = Vector2::new(-ONE / 4, -ONE / 4);
    assert_eq!(wall_column(position, Ray { x: 1, y: 0 }, Side::X, ONE), 7);
    assert_eq!(wall_column(position, Ray { x: 4, y: -1 }, Side::X, ONE), 5);
    assert_eq!(wall_column(position, Ray { x: 4, y: -3 }, Side::X, ONE), 0);
}
