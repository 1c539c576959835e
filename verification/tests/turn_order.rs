use gravity_wars::turn::{GamePhase, Turn, TurnState};

#[test]
fn new_turn_starts_aiming() {
    let turn = Turn::new(2);
    assert_eq!(turn.current_player, 2);
    assert_eq!(turn.state, TurnState::Aiming);
}

#[test]
fn phase_gives_its_turn_only_while_playing() {
    let turn = Turn::new(1);
    assert_eq!(GamePhase::Playing(turn).turn(), Some(&turn));
    assert_eq!(GamePhase::NotStarted.turn(), None);
    assert_eq!(GamePhase::GameOver.turn(), None);
}

#[test]
fn turn_wraps_round_three_players() {
    let remaining = vec![0usize, 1, 2];
    let first = Turn::new(0).next_player(3, &remaining);
    assert_eq!(first, GamePhase::Playing(Turn::new(1)));
    let second = Turn::new(1).next_player(3, &remaining);
    assert_eq!(second, GamePhase::Playing(Turn::new(2)));
    let third = Turn::new(2).next_player(3, &remaining);
    assert_eq!(third, GamePhase::Playing(Turn::new(0)));
}

#[test]
fn next_player_skips_the_eliminated() {
    let remaining = vec![0usize, 3];
    assert_eq!(Turn::new(0).next_player(4, &remaining), GamePhase::Playing(Turn::new(3)));
    assert_eq!(Turn::new(3).next_player(4, &remaining), GamePhase::Playing(Turn::new(0)));
    assert_eq!(Turn::new(1).next_player(4, &remaining), GamePhase::Playing(Turn::new(3)));
}

#[test]
fn next_player_ends_game_for_sole_survivor() {
    assert_eq!(Turn::new(1).next_player(2, &[1]), GamePhase::GameOver);
    assert_eq!(Turn::new(0).next_player(1, &[0]), GamePhase::GameOver);
}

#[test]
fn next_player_goes_on_when_only_the_other_is_left() {
    assert_eq!(Turn::new(0).next_player(2, &[1]), GamePhase::Playing(Turn::new(1)));
}

#[test]
fn next_player_without_players_or_survivors_ends_game() {
    assert_eq!(Turn::new(0).next_player(0, &[0, 1]), GamePhase::GameOver);
    assert_eq!(Turn::new(0).next_player(3, &[]), GamePhase::GameOver);
}

#[test]
fn next_player_ignores_players_without_a_seat() {
    assert_eq!(Turn::new(0).next_player(2, &[5, 7]), GamePhase::GameOver);
    assert_eq!(Turn::new(0).next_player(3, &[9, 2, 9]), GamePhase::Playing(Turn::new(2)));
}

#[test]
fn next_player_gives_a_fresh_turn() {
    let firing = Turn { current_player: 0, state: TurnState::Firing };
    assert_eq!(
        firing.next_player(2, &[0, 1]),
        GamePhase::Playing(Turn { current_player: 1, state: TurnState::Aiming })
    );
}

#[test]
fn next_player_does_not_mind_repeated_or_unordered_entries() {
    assert_eq!(Turn::new(1).next_player(4, &[3, 0, 3, 0]), GamePhase::Playing(Turn::new(3)));
    assert_eq!(Turn::new(3).next_player(4, &[2, 1, 1]), GamePhase::Playing(Turn::new(1)));
}

#[test]
fn next_player_from_the_largest_player_number() {
    let turn = Turn::new(usize::MAX);
    let seat = usize::MAX % 3;
    let expected = (seat + 1) % 3;
    assert_eq!(turn.next_player(3, &[0, 1, 2]), GamePhase::Playing(Turn::new(expected)));
}

#[test]
fn skip_keeps_an_eligible_player() {
    assert_eq!(
        Turn::new(1).skip_eliminated_players(3, &[0, 1, 2]),
        GamePhase::Playing(Turn::new(1))
    );
}

#[test]
fn skip_moves_to_the_nearest_eligible_player() {
    assert_eq!(Turn::new(1).skip_eliminated_players(4, &[0, 3]), GamePhase::Playing(Turn::new(3)));
    assert_eq!(Turn::new(3).skip_eliminated_players(4, &[1, 2]), GamePhase::Playing(Turn::new(1)));
}

#[test]
fn skip_keeps_the_state_of_the_turn() {
    let firing = Turn { current_player: 0, state: TurnState::Firing };
    assert_eq!(
        firing.skip_eliminated_players(3, &[2]),
        GamePhase::Playing(Turn { current_player: 2, state: TurnState::Firing })
    );
}

#[test]
fn skip_ends_game_without_players_or_survivors() {
    assert_eq!(Turn::new(0).skip_eliminated_players(0, &[0]), GamePhase::GameOver);
    assert_eq!(Turn::new(0).skip_eliminated_players(2, &[]), GamePhase::GameOver);
    assert_eq!(Turn::new(0).skip_eliminated_players(2, &[2, 3]), GamePhase::GameOver);
}

#[test]
fn every_turn_order_of_up_to_four_players() {
    for num_players in 1usize..=4 {
        for survivors in 0u32..(1 << num_players) {
            let remaining: Vec<usize> =
                (0..num_players).filter(|p| survivors & (1 << p) != 0).collect();
            for current in 0..num_players {
                let mut expected = GamePhase::GameOver;
                for step in 1..num_players {
                    let candidate = (current + step) % num_players;
                    if remaining.contains(&candidate) {
                        expected = GamePhase::Playing(Turn::new(candidate));
                        break;
                    }
                }
                assert_eq!(Turn::new(current).next_player(num_players, &remaining), expected);
            }
        }
    }
}
