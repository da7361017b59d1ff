use torpedo_duel::controls::{dispatch_key, key_for, player_one_command, player_two_command, Command, Player};

#[test]
fn player_one_keys_map_to_commands() {
    assert_eq!(player_one_command(39), Some(Command::TurnClockwise));
    assert_eq!(player_one_command(38), Some(Command::Thrust));
    assert_eq!(player_one_command(37), Some(Command::TurnCounterClockwise));
    assert_eq!(player_one_command(96), Some(Command::Fire));
    assert_eq!(player_one_command(40), None);
    assert_eq!(player_one_command(32), None);
}

#[test]
fn player_two_keys_map_to_commands() {
    assert_eq!(player_two_command(74), Some(Command::TurnClockwise));
    assert_eq!(player_two_command(79), Some(Command::Thrust));
    assert_eq!(player_two_command(186), Some(Command::TurnCounterClockwise));
    assert_eq!(player_two_command(32), Some(Command::Fire));
    assert_eq!(player_two_command(96), None);
    assert_eq!(player_two_command(0), None);
}

#[test]
fn dispatch_routes_each_key_to_its_player() {
    assert_eq!(dispatch_key(96), Some((Player::One, Command::Fire)));
    assert_eq!(dispatch_key(32), Some((Player::Two, Command::Fire)));
    assert_eq!(dispatch_key(79), Some((Player::Two, Command::Thrust)));
    assert_eq!(dispatch_key(13), None);
}

#[test]
fn bindings_round_trip_and_are_disjoint() {
    let commands = [Command::TurnClockwise, Command::TurnCounterClockwise, Command::Thrust, Command::Fire];
    for command in commands {
        let k1 = key_for(Player::One, command);
        let k2 = key_for(Player::Two, command);
        assert_eq!(player_one_command(k1), Some(command));
        assert_eq!(player_two_command(k2), Some(command));
        assert_eq!(player_two_command(k1), None);
        assert_eq!(player_one_command(k2), None);
        assert_eq!(dispatch_key(k1), Some((Player::One, command)));
        assert_eq!(dispatch_key(k2), Some((Player::Two, command)));
    }
}
