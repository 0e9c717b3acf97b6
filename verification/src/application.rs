use vstd::prelude::*;
use crate::color::Color;
use crate::framebuffer::Framebuffer;
use crate::grid::Grid;
use crate::player::{can_resize, Direction, Player};
use crate::raycasting::{cast_rays, view_pixel};

verus! {

/// What the player can ask for.
#[derive(Clone, Copy, Debug, PartialEq, Eq, Structural)]
pub enum Command {
    MoveForward,
    MoveBackward,
    StrafeLeft,
    StrafeRight,
    RotateCw,
    RotateCcw,
    IncreaseFovLength,
    DecreaseFovLength,
    IncreaseFovWidth,
    DecreaseFovWidth,
    ToggleMinimap,
    Quit,
}

/// A key whose press, as opposed to its being held, means something.
#[derive(Clone, Copy, Debug, PartialEq, Eq, Structural)]
pub enum Key {
    J,
    K,
    Tab,
    Q,
    Other,
}

/// The state of the input devices in one frame.
#[derive(Clone, Copy, Debug, PartialEq, Eq, Structural)]
pub struct Input {
    /// The mouse has moved to the left since the last frame.
    pub mouse_left: bool,
    /// The mouse has moved to the right since the last frame.
    pub mouse_right: bool,
    /// The left control key is held.
    pub ctrl: bool,
    pub key_h: bool,
    pub key_l: bool,
    pub key_d: bool,
    pub key_a: bool,
    pub key_s: bool,
    pub key_w: bool,
    /// The key that was pressed in this frame, if one was.
    pub pressed: Option<Key>,
}

/// The player, the grid the player walks in, and whether the minimap shows.
#[derive(Debug)]
pub struct Application {
    pub player: Player,
    pub grid: Grid,
    pub show_minimap: bool,
}

/// The command that a pressed key stands for, given whether the control key
/// is held.
pub open spec fn key_command(key: Key, ctrl: bool) -> Option<Command> {
    match key {
        Key::J => Some(
            if ctrl {
                Command::DecreaseFovWidth
            } else {
                Command::DecreaseFovLength
            },
        ),
        Key::K => Some(
            if ctrl {
                Command::IncreaseFovWidth
            } else {
                Command::IncreaseFovLength
            },
        ),
        Key::Tab => Some(Command::ToggleMinimap),
        Key::Q => Some(Command::Quit),
        Key::Other => None,
    }
}

/// The player after a command. A command that would take a coordinate of
/// the player out of the range of the fixed-point format changes nothing.
pub open spec fn player_after(player: Player, command: Command) -> Player {
    match command {
        Command::MoveForward => if player.can_move(Direction::North) {
            player.moved(Direction::North)
        } else {
            player
        },
        Command::MoveBackward => if player.can_move(Direction::South) {
            player.moved(Direction::South)
        } else {
            player
        },
        Command::StrafeRight => if player.can_move(Direction::East) {
            player.moved(Direction::East)
        } else {
            player
        },
        Command::StrafeLeft => if player.can_move(Direction::West) {
            player.moved(Direction::West)
        } else {
            player
        },
        Command::RotateCcw => if player.can_rotate(true) {
            player.turned(true)
        } else {
            player
        },
        Command::RotateCw => if player.can_rotate(false) {
            player.turned(false)
        } else {
            player
        },
        Command::IncreaseFovLength => if can_resize(player.direction, true) {
            player.zoomed(true)
        } else {
            player
        },
        Command::DecreaseFovLength => if can_resize(player.direction, false) {
            player.zoomed(false)
        } else {
            player
        },
        Command::IncreaseFovWidth => if can_resize(player.plane, true) {
            player.widened(true)
        } else {
            player
        },
        Command::DecreaseFovWidth => if can_resize(player.plane, false) {
            player.widened(false)
        } else {
            player
        },
        Command::ToggleMinimap => player,
        Command::Quit => player,
    }
}

/// The player after a command that is given only if `given` holds.
pub open spec fn player_after_if(player: Player, given: bool, command: Command) -> Player {
    if given {
        player_after(player, command)
    } else {
        player
    }
}

/// The player after the held keys and the mouse of one frame have had their
/// effect: first the turns, then the steps sideways, backwards and forwards.
pub open spec fn player_after_held(player: Player, input: Input) -> Player {
    let turned_left = player_after_if(player, input.mouse_left || input.key_h, Command::RotateCcw);
    let turned = player_after_if(turned_left, input.mouse_right || input.key_l, Command::RotateCw);
    let stepped_right = player_after_if(turned, input.key_d, Command::StrafeRight);
    let stepped_aside = player_after_if(stepped_right, input.key_a, Command::StrafeLeft);
    let stepped_back = player_after_if(stepped_aside, input.key_s, Command::MoveBackward);
    player_after_if(stepped_back, input.key_w, Command::MoveForward)
}

/// The command of the key pressed in a frame, if a key was pressed that
/// stands for one.
pub open spec fn pressed_command(input: Input) -> Option<Command> {
    match input.pressed {
        Some(key) => key_command(key, input.ctrl),
        None => None,
    }
}

/// The player after all the input of one frame: the held keys and the mouse
/// first, then the pressed key.
pub open spec fn player_after_input(player: Player, input: Input) -> Player {
    let held = player_after_held(player, input);
    match pressed_command(input) {
        Some(command) => player_after(held, command),
        None => held,
    }
}

impl Key {
    /// The command that a press of this key stands for.
    pub fn command(self, ctrl: bool) -> (c: Option<Command>)
        ensures
            c == key_command(self, ctrl),
    {
        match self {
            Key::J => Some(
                if ctrl {
                    Command::DecreaseFovWidth
                } else {
                    Command::DecreaseFovLength
                },
            ),
            Key::K => Some(
                if ctrl {
                    Command::IncreaseFovWidth
                } else {
                    Command::IncreaseFovLength
                },
            ),
            Key::Tab => Some(Command::ToggleMinimap),
            Key::Q => Some(Command::Quit),
            Key::Other => None,
        }
    }
}

impl Application {
    /// Whether the application's grid is well formed and its player has
    /// coordinates of the fixed-point format.
    pub open spec fn wf(&self) -> bool {
        self.grid.wf() && self.player.in_range()
    }

    /// The application at the start: the player at the starting position in
    /// the built-in grid, the minimap hidden.
    pub fn new() -> (app: Application)
        ensures
            app.wf(),
            app.player == Player::start(),
            app.grid.is_default(),
            app.show_minimap == false,
    {
        Application { player: Player::new(), grid: Grid::new(), show_minimap: false }
    }

    /// Carries out one command and says whether the application is to end.
    /// A command that would take a coordinate of the player out of the
    /// fixed-point range is ignored.
    pub fn apply(&mut self, command: Command) -> (quit: bool)
        ensures
            final(self).player == player_after(old(self).player, command),
            final(self).grid == old(self).grid,
            old(self).wf() ==> final(self).wf(),
            final(self).show_minimap == (old(self).show_minimap != (command == Command::ToggleMinimap)),
            quit == (command == Command::Quit),
    {
        match command {
            Command::MoveForward => {
                if self.player.can_move(Direction::North) {
                    self.player.move_(Direction::North);
                }
            },
            Command::MoveBackward => {
                if self.player.can_move(Direction::South) {
                    self.player.move_(Direction::South);
                }
            },
            Command::StrafeRight => {
                if self.player.can_move(Direction::East) {
                    self.player.move_(Direction::East);
                }
            },
            Command::StrafeLeft => {
                if self.player.can_move(Direction::West) {
                    self.player.move_(Direction::West);
                }
            },
            Command::RotateCcw => {
                if self.player.can_rotate(true) {
                    self.player.rotate(true);
                }
            },
            Command::RotateCw => {
                if self.player.can_rotate(false) {
                    self.player.rotate(false);
                }
            },
            Command::IncreaseFovLength => {
                if self.player.can_increase_fov(true) {
                    self.player.increase_fov(true);
                }
            },
            Command::DecreaseFovLength => {
                if self.player.can_increase_fov(false) {
                    self.player.increase_fov(false);
                }
            },
            Command::IncreaseFovWidth => {
                if self.player.can_increase_fov_width(true) {
                    self.player.increase_fov_width(true);
                }
            },
            Command::DecreaseFovWidth => {
                if self.player.can_increase_fov_width(false) {
                    self.player.increase_fov_width(false);
                }
            },
            Command::ToggleMinimap => {
                self.show_minimap = !self.show_minimap;
            },
            Command::Quit => {
                return true;
            },
        }
        false
    }

    /// Carries out what the input of one frame asks for and says whether the
    /// application is to end.
    pub fn handle_input(&mut self, input: &Input) -> (quit: bool)
        ensures
            final(self).player == player_after_input(old(self).player, *input),
            final(self).grid == old(self).grid,
            old(self).wf() ==> final(self).wf(),
            final(self).show_minimap == (old(self).show_minimap != (pressed_command(*input) == Some(
                Command::ToggleMinimap,
            ))),
            quit == (pressed_command(*input) == Some(Command::Quit)),
    {
        if input.mouse_left || input.key_h {
            self.apply(Command::RotateCcw);
        }
        if input.mouse_right || input.key_l {
            self.apply(Command::RotateCw);
        }
        if input.key_d {
            self.apply(Command::StrafeRight);
        }
        if input.key_a {
            self.apply(Command::StrafeLeft);
        }
        if input.key_s {
            self.apply(Command::MoveBackward);
        }
        if input.key_w {
            self.apply(Command::MoveForward);
        }
        match input.pressed {
            Some(key) => match key.command(input.ctrl) {
                Some(command) => self.apply(command),
                None => false,
            },
            None => false,
        }
    }

    /// Draws one frame: the frame buffer is cleared to black, then the
    /// player's view of the grid is drawn over it.
    pub fn render(&self, fb: &mut Framebuffer)
        requires
            self.wf(),
            old(fb).wf(),
        ensures
            final(fb).wf(),
            final(fb).width() == old(fb).width(),
            final(fb).height() == old(fb).height(),
            forall|x: int, y: int|
                old(fb).on_screen(x, y) ==> #[trigger] final(fb).pixel(x, y) == view_pixel(
                    self.grid,
                    self.player,
                    old(fb).width() as int,
                    old(fb).height() as int,
                    x,
                    y,
                    Color { r: 0, g: 0, b: 0, a: 255 },
                ),
    {
        fb.clear(Color::black());
        cast_rays(fb, &self.player, &self.grid);
    }
}

} // verus!
