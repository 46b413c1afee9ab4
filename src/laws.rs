use vstd::prelude::*;
use crate::board::{board_wf, cell, four_from, is_direction, line_through, same_at, HEIGHT, WIDTH};
use crate::game::{
    apply_spec, empty_board, fresh_game, handle_spec, parse_spec, place_spec, turn_of, Command,
    Feedback, GameControl, GameModel, KEY_FULL_RESTART, KEY_SOFT_RESTART,
};

verus! {

/// The placements `moves` (side, column) made one after another from `m`.
pub open spec fn play(m: GameModel, moves: Seq<(bool, int)>) -> GameModel
    decreases moves.len(),
{
    if moves.len() == 0 {
        m
    } else {
        place_spec(play(m, moves.drop_last()), moves.last().0, moves.last().1).0
    }
}

/// Each of `moves` is accepted and none makes four in a row.
pub open spec fn all_quiet(m: GameModel, moves: Seq<(bool, int)>) -> bool {
    forall|i: int|
        0 <= i < moves.len() ==> (#[trigger] place_spec(play(m, moves.take(i)), moves[i].0, moves[i].1)).1
            == Feedback::Silent
}

/// The answer to a command that the game turns down.
pub open spec fn is_rejection(f: Feedback) -> bool {
    ||| f is Invalid
    ||| f is ColumnFull
    ||| f is GameOver
    ||| f is WrongTurn
    ||| f is RestartRefused
}

proof fn lemma_play_step(m: GameModel, moves: Seq<(bool, int)>, i: int)
    requires
        0 <= i < moves.len(),
    ensures
        play(m, moves.take(i + 1)) == place_spec(play(m, moves.take(i)), moves[i].0, moves[i].1).0,
{
    assert(moves.take(i + 1).drop_last() =~= moves.take(i));
}

/// Placements that are all accepted and never make four in a row leave the
/// turn with the other side after each move, so that after the first move the
/// sides alternate strictly.
pub proof fn law_turns_alternate(m: GameModel, moves: Seq<(bool, int)>)
    requires
        all_quiet(m, moves),
    ensures
        forall|i: int|
            0 <= i < moves.len() ==> (#[trigger] play(m, moves.take(i + 1))).control == turn_of(
                !moves[i].0,
            ),
        forall|i: int| 0 < i < moves.len() ==> (#[trigger] moves[i]).0 == !moves[i - 1].0,
{
    assert forall|i: int| 0 <= i < moves.len() implies (#[trigger] play(
        m,
        moves.take(i + 1),
    )).control == turn_of(!moves[i].0) by {
        lemma_play_step(m, moves, i);
        assert(place_spec(play(m, moves.take(i)), moves[i].0, moves[i].1).1 == Feedback::Silent);
    }
    assert forall|i: int| 0 < i < moves.len() implies (#[trigger] moves[i]).0 == !moves[i - 1].0 by {
        lemma_play_step(m, moves, i - 1);
        assert(play(m, moves.take(i - 1 + 1)).control == turn_of(!moves[i - 1].0));
        assert(place_spec(play(m, moves.take(i)), moves[i].0, moves[i].1).1 == Feedback::Silent);
    }
}

/// A placement that is accepted puts the token at row `L`, the column's fill
/// level before it; the column then holds `L + 1` tokens, no more than
/// `HEIGHT`, and the other columns are as they were.
pub proof fn law_placement_stacks(m: GameModel, side: bool, col: int)
    requires
        board_wf(m.columns),
        !is_rejection(place_spec(m, side, col).1),
    ensures
        ({
            let after = place_spec(m, side, col).0.columns;
            let level = m.columns[col].len() as int;
            &&& cell(after, col, level) == Some(side)
            &&& after[col].len() == level + 1
            &&& after[col].len() <= HEIGHT
            &&& board_wf(after)
            &&& forall|i: int| 0 <= i < WIDTH && i != col ==> #[trigger] after[i] == m.columns[i]
        }),
{
}

/// No command, accepted or not, takes a column past `HEIGHT` tokens.
pub proof fn law_board_stays_bounded(m: GameModel, cmd: Command)
    requires
        board_wf(m.columns),
    ensures
        board_wf(apply_spec(m, cmd).0.columns),
{
    assert(board_wf(empty_board()));
}

/// A placement that is allowed on the board and in turn ends the game, with
/// the placing side as winner, exactly when four consecutive tokens of that
/// side in some orientation pass through the new token.
pub proof fn law_line_wins(m: GameModel, side: bool, col: int)
    requires
        board_wf(m.columns),
        0 <= col < WIDTH,
        m.columns[col].len() < HEIGHT,
        m.control == GameControl::Unknown || m.control == turn_of(side),
    ensures
        ({
            let (after, f) = place_spec(m, side, col);
            line_through(after.columns, col, m.columns[col].len() as int, side) <==> {
                &&& after.control == GameControl::WaitRestart
                &&& after.winner == Some(side)
                &&& f == Feedback::Wins(side)
            }
        }),
{
}

/// Four in a row is the same line read either way: four consecutive `side`
/// cells along `(dx, dy)` through `(x, y)` are four along `(-dx, -dy)`.
pub proof fn law_line_reversal(
    b: Seq<Seq<bool>>,
    x: int,
    y: int,
    dx: int,
    dy: int,
    side: bool,
    s: int,
)
    requires
        is_direction(dx, dy),
    ensures
        four_from(b, x, y, dx, dy, side, s) == four_from(b, x, y, -dx, -dy, side, -s - 3),
{
    if four_from(b, x, y, dx, dy, side, s) {
        assert forall|j: int| -s - 3 <= j < -s - 3 + 4 implies #[trigger] same_at(b, x, y, -dx, -dy, side, j) by {
            assert(same_at(b, x, y, dx, dy, side, -j));
        }
    }
    if four_from(b, x, y, -dx, -dy, side, -s - 3) {
        assert forall|j: int| s <= j < s + 4 implies #[trigger] same_at(b, x, y, dx, dy, side, j) by {
            assert(same_at(b, x, y, -dx, -dy, side, -j));
        }
    }
}

/// A line that is turned down, for a wrong turn, a full column, a bad format
/// or a restart before the game is over, changes neither the board nor the
/// turn; neither does a question about the turn.
pub proof fn law_rejection_keeps_state(m: GameModel, s: Seq<u8>)
    ensures
        is_rejection(handle_spec(m, s).1) ==> handle_spec(m, s).0 == m,
        parse_spec(s) matches Ok(Command::Query(_)) ==> handle_spec(m, s).0 == m,
{
}

/// `R` clears every column and lets either side start, whatever the state.
pub proof fn law_full_restart(m: GameModel)
    ensures
        handle_spec(m, seq![KEY_FULL_RESTART]) == (fresh_game(), Feedback::Silent),
        forall|i: int| 0 <= i < WIDTH ==> (#[trigger] fresh_game().columns[i]).len() == 0,
        fresh_game().control == GameControl::Unknown,
{
}

/// `r` clears the board once the game is over; in any other state it leaves
/// board and state as they are and answers that a restart is refused.
pub proof fn law_soft_restart(m: GameModel)
    ensures
        handle_spec(m, seq![KEY_SOFT_RESTART]) == if m.control == GameControl::WaitRestart {
            (fresh_game(), Feedback::Silent)
        } else {
            (m, Feedback::RestartRefused)
        },
{
    assert(seq![KEY_SOFT_RESTART] != seq![KEY_FULL_RESTART]) by {
        assert(seq![KEY_SOFT_RESTART][0] != seq![KEY_FULL_RESTART][0]);
    }
}

} // verus!
