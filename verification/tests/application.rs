use raycaster::application::{Application, Command, Input, Key};
use raycaster::color::Color;
use raycaster::fixed::{Vector2, COORD_MAX, SCALE};
use raycaster::framebuffer::Framebuffer;
use raycaster::grid::{Cell, Grid, TEXTURE_OUTLINE};
use raycaster::player::{Direction, Player};
use raycaster::raycasting::cast_rays;

fn idle() -> Input {
    Input {
        mouse_left: false,
        mouse_right: false,
        ctrl: false,
        key_h: false,
        key_l: false,
        key_d: false,
        key_a: false,
        key_s: false,
        key_w: false,
        pressed: None,
    }
}

#[test]
fn application_starts_with_the_built_in_scene() {
    let app = Application::new();
    assert_eq!(app.player, Player::new());
    assert!(!app.show_minimap);
    assert_eq!((app.grid.width(), app.grid.height()), (10, 15));
    assert_eq!(*app.grid.get_cell(0, 0), Cell::Wall(TEXTURE_OUTLINE));
    assert_eq!(*app.grid.get_cell(5, 7), Cell::Empty);
}

#[test]
fn keys_stand_for_commands() {
    assert_eq!(Key::J.command(false), Some(Command::DecreaseFovLength));
    assert_eq!(Key::J.command(true), Some(Command::DecreaseFovWidth));
    assert_eq!(Key::K.command(false), Some(Command::IncreaseFovLength));
    assert_eq!(Key::K.command(true), Some(Command::IncreaseFovWidth));
    assert_eq!(Key::Tab.command(false), Some(Command::ToggleMinimap));
    assert_eq!(Key::Tab.command(true), Some(Command::ToggleMinimap));
    assert_eq!(Key::Q.command(false), Some(Command::Quit));
    assert_eq!(Key::Other.command(true), None);
}

#[test]
fn commands_change_the_player() {
    let cases = [
        (Command::MoveForward, {
            let mut p = Player::new();
            p.move_(Direction::North);
            p
        }),
        (Command::MoveBackward, {
            let mut p = Player::new();
            p.move_(Direction::South);
            p
        }),
        (Command::StrafeRight, {
            let mut p = Player::new();
            p.move_(Direction::East);
            p
        }),
        (Command::StrafeLeft, {
            let mut p = Player::new();
            p.move_(Direction::West);
            p
        }),
        (Command::RotateCcw, {
            let mut p = Player::new();
            p.rotate(true);
            p
        }),
        (Command::RotateCw, {
            let mut p = Player::new();
            p.rotate(false);
            p
        }),
        (Command::IncreaseFovLength, {
            let mut p = Player::new();
            p.increase_fov(true);
            p
        }),
        (Command::DecreaseFovLength, {
            let mut p = Player::new();
            p.increase_fov(false);
            p
        }),
        (Command::IncreaseFovWidth, {
            let mut p = Player::new();
            p.increase_fov_width(true);
            p
        }),
        (Command::DecreaseFovWidth, {
            let mut p = Player::new();
            p.increase_fov_width(false);
            p
        }),
        (Command::ToggleMinimap, Player::new()),
        (Command::Quit, Player::new()),
    ];
    for (command, expected) in cases {
        let mut app = Application::new();
        let quit = app.apply(command);
        assert_eq!(app.player, expected, "{:?}", command);
        assert_eq!(quit, command == Command::Quit);
        assert_eq!(app.show_minimap, command == Command::ToggleMinimap);
    }
    let mut app = Application::new();
    app.apply(Command::MoveForward);
    assert_eq!(app.player.position, Vector2::new(5 * SCALE + 214748365, 7 * SCALE));
    app.apply(Command::StrafeLeft);
    assert_eq!(app.player.position, Vector2::new(5 * SCALE + 214748365, 7 * SCALE - 214748365));
}

#[test]
fn commands_beyond_the_coordinates_are_ignored() {
    let mut app = Application::new();
    app.player.position = Vector2::new(COORD_MAX, 0);
    app.player.direction = Vector2::new(COORD_MAX, 0);
    let before = app.player;
    assert!(!app.apply(Command::MoveForward));
    assert_eq!(app.player, before);
    app.apply(Command::IncreaseFovLength);
    assert_eq!(app.player, before);
    app.player.direction = Vector2::new(COORD_MAX, COORD_MAX);
    let before = app.player;
    app.apply(Command::RotateCw);
    app.apply(Command::RotateCcw);
    assert_eq!(app.player, before);
    app.player.plane = Vector2::new(-COORD_MAX, 5);
    let before = app.player;
    app.apply(Command::IncreaseFovWidth);
    assert_eq!(app.player, before);
    app.apply(Command::DecreaseFovWidth);
    assert_eq!(app.player.plane, Vector2::new(-105553116266495, 4));
    app.apply(Command::MoveBackward);
    assert_eq!(app.player.position, Vector2::new(COORD_MAX - 7036874424320, -7036874424320));
}

#[test]
fn minimap_toggles() {
    let mut app = Application::new();
    let input = Input { pressed: Some(Key::Tab), ..idle() };
    assert!(!app.handle_input(&input));
    assert!(app.show_minimap);
    assert!(!app.handle_input(&input));
    assert!(!app.show_minimap);
    assert_eq!(app.player, Player::new());
}

#[test]
fn idle_input_changes_nothing() {
    let mut app = Application::new();
    assert!(!app.handle_input(&idle()));
    assert_eq!(app.player, Player::new());
    assert!(!app.show_minimap);
    let input = Input { ctrl: true, pressed: Some(Key::Other), ..idle() };
    assert!(!app.handle_input(&input));
    assert_eq!(app.player, Player::new());
}

#[test]
fn quit_is_reported() {
    let mut app = Application::new();
    let input = Input { pressed: Some(Key::Q), key_w: true, ..idle() };
    assert!(app.handle_input(&input));
    let mut moved = Player::new();
    moved.move_(Direction::North);
    assert_eq!(app.player, moved);
}

#[test]
fn held_keys_act_in_order() {
    let mut app = Application::new();
    let input = Input { mouse_left: true, key_l: true, key_d: true, key_s: true, pressed: Some(Key::K), ..idle() };
    assert!(!app.handle_input(&input));
    let mut p = Player::new();
    p.rotate(true);
    p.rotate(false);
    p.move_(Direction::East);
    p.move_(Direction::South);
    p.increase_fov(true);
    assert_eq!(app.player, p);

    let mut app = Application::new();
    let input = Input {
        key_h: true,
        mouse_right: true,
        key_a: true,
        key_w: true,
        ctrl: true,
        pressed: Some(Key::J),
        ..idle()
    };
    app.handle_input(&input);
    let mut p = Player::new();
    p.rotate(true);
    p.rotate(false);
    p.move_(Direction::West);
    p.move_(Direction::North);
    p.increase_fov_width(false);
    assert_eq!(app.player, p);
}

#[test]
fn each_held_key_has_its_command() {
    let cases: [(Input, fn(&mut Player)); 8] = [
        (Input { mouse_left: true, ..idle() }, |p| p.rotate(true)),
        (Input { key_h: true, ..idle() }, |p| p.rotate(true)),
        (Input { mouse_right: true, ..idle() }, |p| p.rotate(false)),
        (Input { key_l: true, ..idle() }, |p| p.rotate(false)),
        (Input { key_d: true, ..idle() }, |p| p.move_(Direction::East)),
        (Input { key_a: true, ..idle() }, |p| p.move_(Direction::West)),
        (Input { key_s: true, ..idle() }, |p| p.move_(Direction::South)),
        (Input { key_w: true, ..idle() }, |p| p.move_(Direction::North)),
    ];
    for (input, act) in cases {
        let mut app = Application::new();
        app.handle_input(&input);
        let mut p = Player::new();
        act(&mut p);
        assert_eq!(app.player, p);
    }
}

#[test]
fn frame_is_the_view_over_black() {
    let app = Application::new();
    let mut fb = Framebuffer::with_size(32, 24, Color::red()).unwrap();
    app.render(&mut fb);
    let mut expected = Framebuffer::with_size(32, 24, Color::black()).unwrap();
    cast_rays(&mut expected, &Player::new(), &Grid::new());
    let mut walls = 0;
    for x in 0..32 {
        for y in 0..24 {
            assert_eq!(fb.get_pixel(x, y), expected.get_pixel(x, y));
            if fb.get_pixel(x, y) != Color::black() {
                walls += 1;
            }
        }
    }
    assert!(walls > 0);
    let violet = Color::rgb(0x6c, 0x1e, 0xfc);
    for y in 0..24 {
        let expected = if (9..15).contains(&y) { violet } else { Color::black() };
        assert_eq!(fb.get_pixel(16, y), expected, "row {}", y);
    }
}

#[test]
fn k_lengthens_and_j_shortens() {
    let press = |key: Key, ctrl: bool| {
        let mut app = Application::new();
        app.handle_input(&Input { ctrl, pressed: Some(key), ..idle() });
        app.player
    };
    let start = Player::new();
    assert_eq!(start.direction, Vector2::new(SCALE, 0));
    assert_eq!(start.plane, Vector2::new(0, 2834678415));
    let longer = press(Key::K, false);
    assert_eq!((longer.direction, longer.plane), (Vector2::new(5 * SCALE / 4, 0), start.plane));
    let shorter = press(Key::J, false);
    assert_eq!((shorter.direction, shorter.plane), (Vector2::new(3 * SCALE / 4, 0), start.plane));
    let wider = press(Key::K, true);
    assert_eq!((wider.direction, wider.plane), (start.direction, Vector2::new(0, 3543348019)));
    let narrower = press(Key::J, true);
    assert_eq!((narrower.direction, narrower.plane), (start.direction, Vector2::new(0, 2126008811)));
}

#[test]
fn commands_keep_the_player_within_the_format() {
    let mut app = Application::new();
    let commands = [
        Command::IncreaseFovLength,
        Command::MoveForward,
        Command::RotateCw,
        Command::IncreaseFovWidth,
        Command::StrafeLeft,
        Command::MoveBackward,
        Command::RotateCcw,
        Command::StrafeRight,
    ];
    for round in 0..400 {
        for command in commands {
            app.apply(command);
            assert!(app.player.in_range(), "round {} after {:?}", round, command);
        }
    }
    assert!(app.player.direction.x.abs() > COORD_MAX / 2 || app.player.direction.y.abs() > COORD_MAX / 2);
    let mut fb = Framebuffer::with_size(8, 8, Color::black()).unwrap();
    app.render(&mut fb);
}
