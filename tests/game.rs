use fifteenpuzzle::board::is_solvable;
use fifteenpuzzle::game::{GameInfo, GameState};

const SOLVED: [u16; 16] = [1, 2, 3, 4, 5, 6, 7, 8, 9, 10, 11, 12, 13, 14, 15, 0];
const CORNER: [u16; 16] = [0, 1, 2, 3, 4, 5, 6, 7, 8, 9, 10, 11, 12, 13, 14, 15];

fn game_with(numbers: [u16; 16], state: GameState) -> GameInfo {
    let mut game = GameInfo::new();
    game.numbers = numbers;
    game.game_state = state;
    game
}

#[test]
fn test_default_game_info() {
    let game_info = GameInfo::default();

    assert_eq!(game_info.moves, 0);
}

#[test]
fn invalid_input() {
    let mut game = GameInfo::new();

    //invalid char
    assert_eq!(game.move_key('x'), false);
    assert_eq!(game.move_key(' '), false);

    // Starting state
    game.handle_game_change(false, 'x');
    assert_eq!(game.game_state, GameState::STARTED);

    // Playing state
    game.handle_game_change(true, 'w');
    assert_eq!(game.game_state, GameState::PLAYING);

    // Exit state
    game.exit();
    assert_eq!(game.game_state, GameState::EXIT);
}

#[test]
fn win_condition() {
    let mut game = GameInfo::new();
    game.numbers = [1, 2, 3, 4, 5, 6, 7, 8, 9, 10, 11, 12, 13, 14, 15, 0];
    game.move_key('w');
    game.handle_game_change(true, 'w');
    game.move_key('s');
    game.handle_game_change(true, 's');
    assert_eq!(game.check_win(game.numbers), true);
    assert_eq!(game.game_state, GameState::FINISHED);
}

#[test]
fn new_game_is_fresh() {
    let game = GameInfo::new();
    assert_eq!(game.game_state, GameState::STARTED);
    assert_eq!(game.seconds, 0);
    assert!(is_solvable(&game.numbers));
}

#[test]
fn corner_blank_refuses_up_and_left() {
    let mut game = game_with(CORNER, GameState::STARTED);
    assert!(!game.move_key('w'));
    assert!(!game.move_key('a'));
    assert_eq!(game.numbers, CORNER);
    assert!(game.move_key('s'));
    assert_eq!(game.numbers[0], 4);
    assert_eq!(game.numbers[4], 0);
    let mut game = game_with(CORNER, GameState::STARTED);
    assert!(game.move_key('d'));
    assert_eq!(game.numbers[0], 1);
    assert_eq!(game.numbers[1], 0);
}

#[test]
fn opposite_move_restores_board() {
    let start = [5, 1, 2, 3, 4, 9, 6, 7, 8, 0, 10, 11, 12, 13, 14, 15];
    for (key, back) in [('w', 's'), ('s', 'w'), ('a', 'd'), ('d', 'a')] {
        let mut game = game_with(start, GameState::PLAYING);
        assert!(game.move_key(key));
        assert_ne!(game.numbers, start);
        assert!(game.move_key(back));
        assert_eq!(game.numbers, start);
    }
}

#[test]
fn move_swaps_with_neighbour() {
    let mut game = game_with(SOLVED, GameState::STARTED);
    assert_eq!(game.find_empty(), 15);
    assert!(game.move_key('a'));
    assert_eq!(game.find_empty(), 14);
    assert_eq!(game.numbers[15], 15);
    assert!(!game.move_key('s'));
    assert!(!game.move_key('x'));
    assert_eq!(game.find_empty(), 14);
}

#[test]
fn find_empty_without_blank_is_zero() {
    let game = game_with([1; 16], GameState::STARTED);
    assert_eq!(game.find_empty(), 0);
}

#[test]
fn check_win_detects_unsolved() {
    let game = game_with(SOLVED, GameState::STARTED);
    assert!(game.check_win(SOLVED));
    assert!(!game.check_win(CORNER));
    let mut near = SOLVED;
    near.swap(13, 14);
    assert!(!game.check_win(near));
}

#[test]
fn started_waits_for_a_move_key() {
    let mut game = game_with(CORNER, GameState::STARTED);
    game.handle_key('p');
    assert_eq!(game.game_state, GameState::STARTED);
    game.handle_key('x');
    assert_eq!(game.game_state, GameState::STARTED);
    game.handle_key('w');
    // an illegal move key still starts the game, but does not count
    assert_eq!(game.game_state, GameState::PLAYING);
    assert_eq!(game.moves, 0);
}

#[test]
fn playing_on_solved_board_finishes() {
    let mut game = game_with(SOLVED, GameState::PLAYING);
    game.handle_game_change(false, 'x');
    assert_eq!(game.game_state, GameState::FINISHED);
}

#[test]
fn pause_wins_over_solved_board() {
    let mut game = game_with(SOLVED, GameState::PLAYING);
    game.handle_game_change(false, 'p');
    assert_eq!(game.game_state, GameState::PAUSED);
    game.handle_game_change(false, 'x');
    assert_eq!(game.game_state, GameState::PLAYING);
}

#[test]
fn finished_only_restarts_on_restart_key() {
    let mut game = game_with(SOLVED, GameState::FINISHED);
    game.moves = 7;
    game.seconds = 30;
    game.handle_game_change(true, 'w');
    assert_eq!(game.game_state, GameState::FINISHED);
    assert_eq!(game.moves, 7);
    game.handle_game_change(false, 'r');
    assert_eq!(game.game_state, GameState::STARTED);
    assert_eq!(game.moves, 0);
    assert_eq!(game.seconds, 0);
    assert!(is_solvable(&game.numbers));
}

#[test]
fn three_legal_moves_count_three() {
    let mut game = game_with(SOLVED, GameState::STARTED);
    game.handle_key('w');
    game.handle_key('a');
    game.handle_key('s');
    assert_eq!(game.moves, 3);
    assert_eq!(game.game_state, GameState::PLAYING);
    assert_eq!(game.numbers, [1, 2, 3, 4, 5, 6, 7, 8, 9, 10, 15, 11, 13, 14, 0, 12]);
    // blank on the bottom row: down is illegal
    game.handle_key('s');
    assert_eq!(game.moves, 3);
}

#[test]
fn exit_from_every_state_is_final() {
    for state in [
        GameState::STARTED,
        GameState::PLAYING,
        GameState::PAUSED,
        GameState::FINISHED,
        GameState::EXIT,
    ] {
        let mut game = game_with(CORNER, state);
        game.exit();
        assert_eq!(game.game_state, GameState::EXIT);
        for key in ['s', 'd', 'p', 'r', 'q', 'x'] {
            game.handle_key(key);
            assert_eq!(game.game_state, GameState::EXIT);
            assert_eq!(game.numbers, CORNER);
            assert_eq!(game.moves, 0);
        }
    }
}

#[test]
fn quit_key_exits() {
    let mut game = game_with(SOLVED, GameState::PAUSED);
    game.handle_key('q');
    assert_eq!(game.game_state, GameState::EXIT);
    assert_eq!(game.numbers, SOLVED);
}

#[test]
fn time_runs_only_while_playing() {
    let mut game = game_with(CORNER, GameState::STARTED);
    game.advance(true, 's', 100, CORNER);
    assert_eq!(game.game_state, GameState::PLAYING);
    assert_eq!(game.start_time, 100);
    assert_eq!(game.moves, 1);
    assert_eq!(game.elapsed_at(130), 30);
    game.advance(false, 'p', 140, CORNER);
    assert_eq!(game.game_state, GameState::PAUSED);
    assert_eq!(game.seconds, 40);
    assert_eq!(game.elapsed_at(500), 40);
    game.advance(false, 'x', 200, CORNER);
    assert_eq!(game.game_state, GameState::PLAYING);
    assert_eq!(game.elapsed_at(205), 45);
    // a clock reading before the anchor adds nothing
    assert_eq!(game.elapsed_at(150), 40);
}

#[test]
fn finishing_freezes_time_and_restart_resets() {
    let mut game = game_with(SOLVED, GameState::PLAYING);
    game.start_time = 10;
    game.seconds = 5;
    game.moves = 4;
    game.advance(true, 'd', 17, CORNER);
    assert_eq!(game.game_state, GameState::FINISHED);
    assert_eq!(game.seconds, 12);
    assert_eq!(game.moves, 5);
    assert_eq!(game.elapsed_at(1000), 12);
    game.advance(true, 'w', 20, CORNER);
    assert_eq!(game.moves, 5);
    game.advance(false, 'r', 30, CORNER);
    assert_eq!(game.game_state, GameState::STARTED);
    assert_eq!(game.numbers, CORNER);
    assert_eq!(game.moves, 0);
    assert_eq!(game.seconds, 0);
}

#[test]
fn elapsed_saturates() {
    let mut game = game_with(SOLVED, GameState::PLAYING);
    game.seconds = u64::MAX - 1;
    game.start_time = 0;
    assert_eq!(game.elapsed_at(10), u64::MAX);
}

#[test]
fn tick_stands_still_out_of_play() {
    let mut game = game_with(SOLVED, GameState::PAUSED);
    game.seconds = 42;
    assert_eq!(game.tick(), 42);
}

#[test]
fn generate_puzzle_deals_on_started_only() {
    let mut game = game_with(CORNER, GameState::PLAYING);
    game.generate_puzzle(GameState::PLAYING);
    assert_eq!(game.numbers, CORNER);
    game.generate_puzzle(GameState::STARTED);
    assert_ne!(game.numbers, CORNER);
    assert!(is_solvable(&game.numbers));
}
