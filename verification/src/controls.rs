//! Keyboard bindings of both players.

use vstd::prelude::*;

verus! {

/// One of the two vehicles.
#[derive(Clone, Copy, Debug, PartialEq, Eq, Structural)]
pub enum Player {
    One,
    Two,
}

/// What a key press asks a vehicle to do.
#[derive(Clone, Copy, Debug, PartialEq, Eq, Structural)]
pub enum Command {
    /// Lower the heading by a tenth of a radian.
    TurnClockwise,
    /// Raise the heading by a tenth of a radian.
    TurnCounterClockwise,
    /// Add a fixed impulse along the heading to the velocity.
    Thrust,
    /// Launch a torpedo along the heading.
    Fire,
}

/// Arrow-right: player one turns clockwise.
pub const P1_TURN_CLOCKWISE: u32 = 39;
/// Arrow-up: player one thrusts.
pub const P1_THRUST: u32 = 38;
/// Arrow-left: player one turns counter-clockwise.
pub const P1_TURN_COUNTER_CLOCKWISE: u32 = 37;
/// Numpad zero: player one fires.
pub const P1_FIRE: u32 = 96;
/// `J`: player two turns clockwise.
pub const P2_TURN_CLOCKWISE: u32 = 74;
/// `O`: player two thrusts.
pub const P2_THRUST: u32 = 79;
/// Semicolon: player two turns counter-clockwise.
pub const P2_TURN_COUNTER_CLOCKWISE: u32 = 186;
/// Space: player two fires.
pub const P2_FIRE: u32 = 32;

/// The key code bound to `command` for `player`.
pub open spec fn binding(player: Player, command: Command) -> u32 {
    match player {
        Player::One => match command {
            Command::TurnClockwise => P1_TURN_CLOCKWISE,
            Command::TurnCounterClockwise => P1_TURN_COUNTER_CLOCKWISE,
            Command::Thrust => P1_THRUST,
            Command::Fire => P1_FIRE,
        },
        Player::Two => match command {
            Command::TurnClockwise => P2_TURN_CLOCKWISE,
            Command::TurnCounterClockwise => P2_TURN_COUNTER_CLOCKWISE,
            Command::Thrust => P2_THRUST,
            Command::Fire => P2_FIRE,
        },
    }
}

/// The command a key press gives to `player`, if the key is one of theirs.
pub open spec fn command_of(player: Player, key: u32) -> Option<Command> {
    if key == binding(player, Command::TurnClockwise) {
        Some(Command::TurnClockwise)
    } else if key == binding(player, Command::TurnCounterClockwise) {
        Some(Command::TurnCounterClockwise)
    } else if key == binding(player, Command::Thrust) {
        Some(Command::Thrust)
    } else if key == binding(player, Command::Fire) {
        Some(Command::Fire)
    } else {
        None
    }
}

/// The key code that gives `command` to `player`.
pub fn key_for(player: Player, command: Command) -> (key: u32)
    ensures
        key == binding(player, command),
{
    match player {
        Player::One => match command {
            Command::TurnClockwise => P1_TURN_CLOCKWISE,
            Command::TurnCounterClockwise => P1_TURN_COUNTER_CLOCKWISE,
            Command::Thrust => P1_THRUST,
            Command::Fire => P1_FIRE,
        },
        Player::Two => match command {
            Command::TurnClockwise => P2_TURN_CLOCKWISE,
            Command::TurnCounterClockwise => P2_TURN_COUNTER_CLOCKWISE,
            Command::Thrust => P2_THRUST,
            Command::Fire => P2_FIRE,
        },
    }
}

/// The command that a key press gives player one: arrow right and left
/// turn, arrow up thrusts, numpad zero fires; any other key does nothing.
pub fn player_one_command(key: u32) -> (command: Option<Command>)
    ensures
        command == command_of(Player::One, key),
        command == (if key == 39 {
            Some(Command::TurnClockwise)
        } else if key == 37 {
            Some(Command::TurnCounterClockwise)
        } else if key == 38 {
            Some(Command::Thrust)
        } else if key == 96 {
            Some(Command::Fire)
        } else {
            None
        }),
{
    if key == P1_TURN_CLOCKWISE {
        Some(Command::TurnClockwise)
    } else if key == P1_TURN_COUNTER_CLOCKWISE {
        Some(Command::TurnCounterClockwise)
    } else if key == P1_THRUST {
        Some(Command::Thrust)
    } else if key == P1_FIRE {
        Some(Command::Fire)
    } else {
        None
    }
}

/// The command that a key press gives player two: `J` and `;` turn, `O`
/// thrusts, space fires; any other key does nothing.
pub fn player_two_command(key: u32) -> (command: Option<Command>)
    ensures
        command == command_of(Player::Two, key),
        command == (if key == 74 {
            Some(Command::TurnClockwise)
        } else if key == 186 {
            Some(Command::TurnCounterClockwise)
        } else if key == 79 {
            Some(Command::Thrust)
        } else if key == 32 {
            Some(Command::Fire)
        } else {
            None
        }),
{
    if key == P2_TURN_CLOCKWISE {
        Some(Command::TurnClockwise)
    } else if key == P2_TURN_COUNTER_CLOCKWISE {
        Some(Command::TurnCounterClockwise)
    } else if key == P2_THRUST {
        Some(Command::Thrust)
    } else if key == P2_FIRE {
        Some(Command::Fire)
    } else {
        None
    }
}

/// Who a key press steers and how, with both players listening to the same
/// keyboard.
pub fn dispatch_key(key: u32) -> (target: Option<(Player, Command)>)
    ensures
        target == (match command_of(Player::One, key) {
            Some(c) => Some((Player::One, c)),
            None => match command_of(Player::Two, key) {
                Some(c) => Some((Player::Two, c)),
                None => None,
            },
        }),
{
    match player_one_command(key) {
        Some(c) => Some((Player::One, c)),
        None => match player_two_command(key) {
            Some(c) => Some((Player::Two, c)),
            None => None,
        },
    }
}

/// No key steers both vehicles: a key bound for one player gives the other
/// player no command.
pub proof fn lemma_bindings_disjoint(player: Player, command: Command)
    ensures
        command_of(
            match player {
                Player::One => Player::Two,
                Player::Two => Player::One,
            },
            binding(player, command),
        ) is None,
{
}

/// Each binding gives back its own command: pressing the key bound to a
/// command of a player gives that player exactly that command, and the
/// dispatcher routes it to that player.
pub proof fn lemma_binding_round_trip(player: Player, command: Command)
    ensures
        command_of(player, binding(player, command)) == Some(command),
{
}

/// A key that gives a player a command is the key bound to that command, so
/// each command of each player has exactly one key.
pub proof fn lemma_command_has_one_key(player: Player, key: u32)
    ensures
        command_of(player, key) matches Some(c) ==> key == binding(player, c),
{
}

} // verus!
