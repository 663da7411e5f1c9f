use nim_game::NimGame;
use nim_game::Player;

fn computer_to_move(total_sticks: u32) -> NimGame {
    NimGame::new(Player::new(true), Player::new(false), total_sticks)
}

#[test]
fn best_move_forced_on_single_stick() {
    let game = computer_to_move(1);
    assert_eq!(game.get_best_move(), 1);
}

#[test]
fn best_move_on_four_takes_three() {
    // Taking three leaves a single stick, a losing position for the opponent.
    let game = computer_to_move(4);
    assert_eq!(game.get_best_move(), 3);
}

#[test]
fn best_move_is_deterministic() {
    for total in 1u32..=20 {
        let game = computer_to_move(total);
        let first = game.get_best_move();
        let second = game.get_best_move();
        let again = computer_to_move(total).get_best_move();
        assert_eq!(first, second);
        assert_eq!(first, again);
    }
}

#[test]
fn best_move_is_bounded() {
    for total in 1u32..=20 {
        let game = computer_to_move(total);
        let chosen = game.get_best_move();
        assert!(chosen >= 1);
        assert!(chosen <= 3);
        assert!(chosen <= total);
    }
}

#[test]
fn minimax_scores_terminal_states_by_turn() {
    let computer_holds_turn = computer_to_move(0);
    assert_eq!(computer_holds_turn.minimax(9, true, i32::MIN, i32::MAX), 1);
    let human_holds_turn = NimGame::new(Player::new(false), Player::new(true), 0);
    assert_eq!(human_holds_turn.minimax(9, false, i32::MIN, i32::MAX), -1);
}

#[test]
fn minimax_scores_depth_limit_by_turn() {
    let game = computer_to_move(7);
    assert_eq!(game.minimax(0, true, i32::MIN, i32::MAX), 1);
}

#[test]
fn minimax_sees_forced_loss_one_ply_ahead() {
    // The computer must take the last stick, leaving the human as the
    // recorded winner.
    let game = computer_to_move(1);
    assert_eq!(game.minimax(9, true, i32::MIN, i32::MAX), -1);
    // Symmetrically, the human forced to take the last stick scores +1.
    let game = NimGame::new(Player::new(false), Player::new(true), 1);
    assert_eq!(game.minimax(9, false, i32::MIN, i32::MAX), 1);
}

#[test]
fn full_game_from_six_conserves_all_sticks() {
    // The human always takes one stick; the computer plays its best move.
    let mut game = NimGame::new(Player::new(false), Player::new(true), 6);
    let mut taken_total = 0u32;
    let mut turns = 0u32;
    while !game.is_game_over() {
        assert!(turns < 6, "the game must end within six moves");
        let amount = if game.current_player.is_computer() {
            game.get_best_move()
        } else {
            1
        };
        assert!(game.take_sticks(amount).is_ok());
        taken_total += amount;
        turns += 1;
    }
    assert_eq!(taken_total, 6);
    assert!(game.is_game_over());
}
