use connect_four::{
    cell_mark, parse_command, pos_fetch, pos_offset, run_length, top_level, wins_at, Command,
    Feedback, Game, GameControl, InputError, HEIGHT, WIDTH,
};

fn board(cols: &[(usize, Vec<bool>)]) -> Vec<Vec<bool>> {
    let mut b = vec![Vec::new(); WIDTH];
    for (i, c) in cols {
        b[*i] = c.clone();
    }
    b
}

fn game(cols: &[(usize, Vec<bool>)], control: GameControl) -> Game {
    Game::with_board(board(cols), control).unwrap()
}

fn all_empty(g: &Game) -> bool {
    g.columns().len() == WIDTH && g.columns().iter().all(|c| c.is_empty())
}

#[test]
fn first_cross_move_hands_turn_to_circle() {
    let mut g = Game::new();
    assert_eq!(g.handle("X5"), Feedback::Silent);
    assert_eq!(g.control(), GameControl::Circle);
    assert_eq!(g.columns()[5], vec![true]);
    assert_eq!(pos_fetch(5, 0, g.columns()), Some(true));
    for i in 0..WIDTH {
        if i != 5 {
            assert!(g.columns()[i].is_empty());
        }
    }
}

#[test]
fn vertical_four_wins_for_cross() {
    let mut g = game(&[(3, vec![true, true, true, true]), (0, vec![false])], GameControl::Cross);
    assert_eq!(g.handle("X3"), Feedback::Wins(true));
    assert_eq!(g.control(), GameControl::WaitRestart);
    assert_eq!(g.winner(), Some(true));
    assert_eq!(g.columns()[3].len(), 5);
}

#[test]
fn third_cross_on_stack_of_three_wins() {
    let mut g = game(&[(3, vec![true, true, true])], GameControl::Cross);
    assert_eq!(g.handle("x3"), Feedback::Wins(true));
    assert_eq!(g.control(), GameControl::WaitRestart);
    assert_eq!(g.winner(), Some(true));
}

#[test]
fn full_column_is_rejected() {
    let full = vec![true, false, true, false, true, false, true, false, true, false];
    let mut g = game(&[(9, full.clone())], GameControl::Circle);
    assert_eq!(g.handle("O9"), Feedback::ColumnFull);
    assert_eq!(g.control(), GameControl::Circle);
    assert_eq!(g.columns()[9], full);
    assert_eq!(g.columns()[9].len(), HEIGHT);
}

#[test]
fn soft_restart_after_game_over_clears_board() {
    let mut g = game(&[(1, vec![true, false]), (4, vec![true])], GameControl::WaitRestart);
    assert_eq!(g.handle("r"), Feedback::Silent);
    assert_eq!(g.control(), GameControl::Unknown);
    assert!(all_empty(&g));
}

#[test]
fn soft_restart_refused_while_playing() {
    for control in [GameControl::Cross, GameControl::Circle, GameControl::Unknown] {
        let mut g = game(&[(2, vec![true])], control);
        assert_eq!(g.handle("r"), Feedback::RestartRefused);
        assert_eq!(g.control(), control);
        assert_eq!(g.columns()[2], vec![true]);
    }
}

#[test]
fn full_restart_from_every_state() {
    for control in [
        GameControl::Cross,
        GameControl::Circle,
        GameControl::Unknown,
        GameControl::WaitRestart,
    ] {
        let mut g = game(&[(0, vec![true, false, true]), (7, vec![false])], control);
        assert_eq!(g.handle("R"), Feedback::Silent);
        assert_eq!(g.control(), GameControl::Unknown);
        assert_eq!(g.winner(), None);
        assert!(all_empty(&g));
    }
}

#[test]
fn turns_alternate_without_a_win() {
    let mut g = Game::new();
    let moves = ["O0", "X1", "O2", "X3", "O4", "X5", "O6", "X7"];
    for (i, m) in moves.iter().enumerate() {
        assert_eq!(g.handle(m), Feedback::Silent);
        let expected = if i % 2 == 0 { GameControl::Cross } else { GameControl::Circle };
        assert_eq!(g.control(), expected);
    }
}

#[test]
fn wrong_turn_is_rejected() {
    let mut g = Game::new();
    assert_eq!(g.handle("X0"), Feedback::Silent);
    assert_eq!(g.handle("X1"), Feedback::WrongTurn(false));
    assert_eq!(g.control(), GameControl::Circle);
    assert!(g.columns()[1].is_empty());
    assert_eq!(g.handle("o1"), Feedback::Silent);
    assert_eq!(g.handle("O2"), Feedback::WrongTurn(true));
    assert_eq!(g.control(), GameControl::Cross);
}

#[test]
fn placement_after_game_over_is_rejected() {
    let mut g = game(&[(5, vec![true])], GameControl::WaitRestart);
    assert_eq!(g.handle("X5"), Feedback::GameOver);
    assert_eq!(g.handle("O6"), Feedback::GameOver);
    assert_eq!(g.columns()[5], vec![true]);
    assert!(g.columns()[6].is_empty());
    assert_eq!(g.control(), GameControl::WaitRestart);
}

#[test]
fn bad_formats_are_rejected() {
    let cases = [
        ("", InputError::Length),
        ("X12", InputError::Length),
        ("hello", InputError::Length),
        ("Q", InputError::Length),
        ("Z1", InputError::Side),
        ("11", InputError::Side),
        ("XX", InputError::Column),
        ("Oa", InputError::Column),
        ("é", InputError::Side),
    ];
    for (input, err) in cases {
        let mut g = game(&[(4, vec![false])], GameControl::Cross);
        assert_eq!(g.handle(input), Feedback::Invalid(err), "input {:?}", input);
        assert_eq!(g.control(), GameControl::Cross);
        assert_eq!(g.columns()[4], vec![false]);
    }
}

#[test]
fn queries_answer_without_changing_state() {
    let mut g = game(&[], GameControl::Cross);
    assert_eq!(g.handle("X"), Feedback::TurnConfirmed(true));
    assert_eq!(g.handle("x"), Feedback::TurnConfirmed(true));
    assert_eq!(g.handle("O"), Feedback::TurnDenied(true));
    assert_eq!(g.control(), GameControl::Cross);
    let mut g = game(&[], GameControl::Circle);
    assert_eq!(g.handle("o"), Feedback::TurnConfirmed(false));
    assert_eq!(g.handle("X"), Feedback::TurnDenied(false));
    assert_eq!(g.control(), GameControl::Circle);
    for control in [GameControl::Unknown, GameControl::WaitRestart] {
        let mut g = game(&[], control);
        assert_eq!(g.handle("X"), Feedback::Silent);
        assert_eq!(g.handle("o"), Feedback::Silent);
        assert_eq!(g.control(), control);
    }
}

#[test]
fn tokens_stack_from_the_bottom() {
    let mut g = Game::new();
    assert_eq!(g.handle("X4"), Feedback::Silent);
    assert_eq!(g.handle("O4"), Feedback::Silent);
    assert_eq!(g.handle("X4"), Feedback::Silent);
    assert_eq!(g.columns()[4], vec![true, false, true]);
    assert_eq!(pos_fetch(4, 2, g.columns()), Some(true));
    assert_eq!(pos_fetch(4, 3, g.columns()), None);
    assert_eq!(top_level(g.columns()), 3);
}

#[test]
fn horizontal_four_wins_from_the_middle() {
    let mut g = game(
        &[(0, vec![false]), (1, vec![false]), (3, vec![false]), (8, vec![true])],
        GameControl::Circle,
    );
    assert_eq!(g.handle("O2"), Feedback::Wins(false));
    assert_eq!(g.control(), GameControl::WaitRestart);
    assert_eq!(g.winner(), Some(false));
}

#[test]
fn rising_diagonal_wins() {
    let mut g = game(
        &[
            (2, vec![true]),
            (3, vec![false, true]),
            (4, vec![false, false, true]),
            (5, vec![false, true, false]),
        ],
        GameControl::Cross,
    );
    assert_eq!(g.handle("X5"), Feedback::Wins(true));
}

#[test]
fn falling_diagonal_wins() {
    let mut g = game(
        &[
            (0, vec![false, true, false, true]),
            (1, vec![true, false, true]),
            (2, vec![false, true]),
        ],
        GameControl::Unknown,
    );
    assert_eq!(g.handle("X3"), Feedback::Wins(true));
    assert_eq!(g.winner(), Some(true));
}

#[test]
fn three_in_a_row_does_not_win() {
    let mut g = game(&[(0, vec![true]), (1, vec![true]), (5, vec![true])], GameControl::Cross);
    assert_eq!(g.handle("X2"), Feedback::Silent);
    assert_eq!(g.control(), GameControl::Circle);
    assert_eq!(g.winner(), None);
}

#[test]
fn column_out_of_range_is_rejected() {
    let mut g = Game::new();
    assert_eq!(g.apply(Command::Place(true, 10)), Feedback::Invalid(InputError::Column));
    assert_eq!(g.place(false, 42), Feedback::Invalid(InputError::Column));
    assert_eq!(g.control(), GameControl::Unknown);
    assert!(all_empty(&g));
}

#[test]
fn with_board_checks_shape() {
    assert!(Game::with_board(vec![Vec::new(); 9], GameControl::Unknown).is_none());
    assert!(Game::with_board(vec![Vec::new(); 11], GameControl::Unknown).is_none());
    let mut b = vec![Vec::new(); WIDTH];
    b[2] = vec![true; 11];
    assert!(Game::with_board(b, GameControl::Unknown).is_none());
    let mut b = vec![Vec::new(); WIDTH];
    b[2] = vec![true; 10];
    assert!(Game::with_board(b, GameControl::Unknown).is_some());
}

#[test]
fn parse_reads_commands() {
    assert_eq!(parse_command("R"), Ok(Command::FullRestart));
    assert_eq!(parse_command("r"), Ok(Command::SoftRestart));
    assert_eq!(parse_command("x"), Ok(Command::Query(true)));
    assert_eq!(parse_command("O"), Ok(Command::Query(false)));
    assert_eq!(parse_command("o7"), Ok(Command::Place(false, 7)));
    assert_eq!(parse_command("X0"), Ok(Command::Place(true, 0)));
    assert_eq!(parse_command("X9"), Ok(Command::Place(true, 9)));
    assert_eq!(parse_command("RR"), Err(InputError::Side));
}

#[test]
fn offsets_stop_below_zero() {
    assert_eq!(pos_offset(0, 0, -1, 0), None);
    assert_eq!(pos_offset(0, 3, 0, -1), Some((0, 2)));
    assert_eq!(pos_offset(3, 4, 1, -1), Some((4, 3)));
    assert_eq!(pos_offset(3, 0, 1, -1), None);
    assert_eq!(pos_offset(9, 9, 1, 1), Some((10, 10)));
    assert_eq!(pos_offset(usize::MAX, 0, 1, 0), None);
    assert_eq!(pos_offset(5, 5, isize::MIN, 0), None);
}

#[test]
fn fetch_outside_the_board_is_none() {
    let b = board(&[(0, vec![true, false]), (9, vec![false])]);
    assert_eq!(pos_fetch(0, 1, &b), Some(false));
    assert_eq!(pos_fetch(9, 0, &b), Some(false));
    assert_eq!(pos_fetch(10, 0, &b), None);
    assert_eq!(pos_fetch(1, 0, &b), None);
    assert_eq!(pos_fetch(0, 2, &b), None);
}

#[test]
fn runs_count_both_ways() {
    let b = board(&[(0, vec![true]), (1, vec![true]), (2, vec![true]), (3, vec![false])]);
    assert_eq!(run_length(&b, 1, 0, 1, 0, true), 1);
    assert_eq!(run_length(&b, 1, 0, -1, 0, true), 1);
    assert_eq!(run_length(&b, 2, 0, -1, 0, true), 2);
    assert_eq!(run_length(&b, 2, 0, 0, 1, true), 0);
    assert!(!wins_at(&b, 1, 0, true));
    let b = board(&[(0, vec![true]), (1, vec![true]), (2, vec![true]), (3, vec![true])]);
    assert!(wins_at(&b, 1, 0, true));
}

#[test]
fn drawing_helpers() {
    assert_eq!(cell_mark(Some(true)), 'X');
    assert_eq!(cell_mark(Some(false)), 'O');
    assert_eq!(cell_mark(None), ' ');
    assert_eq!(top_level(&board(&[])), 0);
    assert_eq!(top_level(&board(&[(3, vec![true; 4]), (6, vec![false; 7])])), 7);
}
