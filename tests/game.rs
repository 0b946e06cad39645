use tic_tac_toe::{
    Game, GameStates, StepOutcome, EMPTY, NOT_A_NUMBER_MSG, OUT_OF_RANGE_MSG, SLOT_FULL_MSG,
};

fn cells(g: &Game) -> Vec<char> {
    (1..=9).map(|p| g.grid().at(p)).collect()
}

#[test]
fn new_game_is_empty() {
    let g = Game::new();
    assert_eq!(g.count, 0);
    assert!(cells(&g).iter().all(|&c| c == EMPTY));
}

#[test]
fn marks_alternate_on_successful_steps() {
    let mut g = Game::new();
    for (i, p) in ["1", "2", "3", "5"].iter().enumerate() {
        assert!(matches!(g.step(p), StepOutcome::Continue));
        assert_eq!(g.count, (i + 1) as u32);
    }
    assert_eq!(g.grid().at(1), 'X');
    assert_eq!(g.grid().at(2), 'O');
    assert_eq!(g.grid().at(3), 'X');
    assert_eq!(g.grid().at(5), 'O');
}

#[test]
fn top_row_win_for_x() {
    let mut g = Game::new();
    for p in ["1", "4", "2", "5"] {
        let out = g.step(p);
        assert!(matches!(out, StepOutcome::Continue));
        assert!(!out.is_over());
    }
    let out = g.step("3");
    assert!(out.is_over());
    match out {
        StepOutcome::Over(state) => {
            assert_eq!(state, GameStates::Win('X'));
            assert_eq!(state.win_msg(), "X wins!");
        }
        _ => panic!("the game should be over"),
    }
    assert_eq!(g.count, 4);
    assert_eq!(g.grid().at(3), 'X');
}

#[test]
fn full_board_ends_in_tie() {
    let mut g = Game::new();
    // X: 1, 2, 6, 7, 8; O: 3, 4, 5, 9
    let moves = ["1", "3", "2", "4", "6", "5", "7", "9"];
    for p in moves {
        assert!(matches!(g.step(p), StepOutcome::Continue));
    }
    assert_eq!(g.count, 8);
    match g.step("8") {
        StepOutcome::Over(state) => {
            assert_eq!(state, GameStates::Tie);
            assert_eq!(state.win_msg(), "The game is a tie!");
        }
        _ => panic!("the game should be over"),
    }
    assert_eq!(g.count, 8);
    assert!(cells(&g).iter().all(|&c| c != EMPTY));
}

#[test]
fn voided_steps_change_nothing() {
    let mut g = Game::new();
    assert!(matches!(g.step("5"), StepOutcome::Continue));
    let before = cells(&g);
    match g.step("15") {
        StepOutcome::Voided(msg) => assert_eq!(msg, OUT_OF_RANGE_MSG),
        _ => panic!("the step should be voided"),
    }
    match g.step("5") {
        StepOutcome::Voided(msg) => assert_eq!(msg, SLOT_FULL_MSG),
        _ => panic!("the step should be voided"),
    }
    let out = g.step("five");
    assert!(!out.is_over());
    match out {
        StepOutcome::Voided(msg) => assert_eq!(msg, NOT_A_NUMBER_MSG),
        _ => panic!("the step should be voided"),
    }
    assert_eq!(g.count, 1);
    assert_eq!(cells(&g), before);
    assert!(matches!(g.step("1"), StepOutcome::Continue));
    assert_eq!(g.grid().at(1), 'O');
}

#[test]
fn clean_up_resets() {
    let mut g = Game::new();
    g.step("1");
    g.step("2");
    g.clean_up();
    assert_eq!(g.count, 0);
    assert!(cells(&g).iter().all(|&c| c == EMPTY));
    assert!(matches!(g.step("2"), StepOutcome::Continue));
    assert_eq!(g.grid().at(2), 'X');
}
