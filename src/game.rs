use vstd::prelude::*;
use vstd::string::StringSliceAdditionalSpecFns;
use crate::board::{board_wf, columns_of, line_through, wins_at, HEIGHT, WIDTH};

verus! {

/// `R`: full restart.
pub const KEY_FULL_RESTART: u8 = 82;

/// `r`: soft restart.
pub const KEY_SOFT_RESTART: u8 = 114;

/// `X`: Cross.
pub const KEY_CROSS: u8 = 88;

/// `x`: Cross.
pub const KEY_CROSS_LOWER: u8 = 120;

/// `O`: Circle.
pub const KEY_CIRCLE: u8 = 79;

/// `o`: Circle.
pub const KEY_CIRCLE_LOWER: u8 = 111;

/// `0`.
pub const DIGIT_ZERO: u8 = 48;

/// `9`.
pub const DIGIT_NINE: u8 = 57;

/// Whose move it is, or that the game is over and waits for a restart.
#[derive(Debug, Clone, Copy, PartialEq, Eq, Structural)]
pub enum GameControl {
    Cross,
    Circle,
    /// Either side may move first.
    Unknown,
    WaitRestart,
}

/// One line of input, classified.
#[derive(Debug, Clone, Copy, PartialEq, Eq, Structural)]
pub enum Command {
    /// `R`: clear the board, whatever the state.
    FullRestart,
    /// `r`: clear the board once the game is over.
    SoftRestart,
    /// `X` / `x` (true) or `O` / `o` (false): ask whether it is that side's turn.
    Query(bool),
    /// A side (true is Cross) and a column.
    Place(bool, usize),
}

/// Why a line is not a command.
#[derive(Debug, Clone, Copy, PartialEq, Eq, Structural)]
pub enum InputError {
    /// Not two bytes long.
    Length,
    /// The first character is not one of `X`, `x`, `O`, `o`.
    Side,
    /// The column is not one decimal digit.
    Column,
}

/// What the game answers to a line of input.
#[derive(Debug, Clone, Copy, PartialEq, Eq, Structural)]
pub enum Feedback {
    /// Nothing to report.
    Silent,
    /// A soft restart while the game is not over.
    RestartRefused,
    /// Yes, it is this side's turn.
    TurnConfirmed(bool),
    /// No, it is this side's turn.
    TurnDenied(bool),
    Invalid(InputError),
    ColumnFull,
    /// A placement after the game is over.
    GameOver,
    /// A placement out of turn: it is this side's turn.
    WrongTurn(bool),
    /// This side has just made four in a row.
    Wins(bool),
}

/// The game as a mathematical value.
pub struct GameModel {
    pub columns: Seq<Seq<bool>>,
    pub control: GameControl,
    pub winner: Option<bool>,
}

/// The state in which `side` moves next.
pub open spec fn turn_of(side: bool) -> GameControl {
    if side {
        GameControl::Cross
    } else {
        GameControl::Circle
    }
}

/// `side` may place a token in state `c`.
pub open spec fn may_place(c: GameControl, side: bool) -> bool {
    match c {
        GameControl::Unknown => true,
        GameControl::Cross => side,
        GameControl::Circle => !side,
        GameControl::WaitRestart => false,
    }
}

/// `WIDTH` empty columns.
pub open spec fn empty_board() -> Seq<Seq<bool>> {
    Seq::new(WIDTH as nat, |i: int| Seq::<bool>::empty())
}

/// An empty board on which either side may start.
pub open spec fn fresh_game() -> GameModel {
    GameModel { columns: empty_board(), control: GameControl::Unknown, winner: None }
}

/// The side that a first character names (`X`, `x`: Cross; `O`, `o`: Circle).
pub open spec fn side_of(c: u8) -> Option<bool> {
    if c == KEY_CROSS || c == KEY_CROSS_LOWER {
        Some(true)
    } else if c == KEY_CIRCLE || c == KEY_CIRCLE_LOWER {
        Some(false)
    } else {
        None
    }
}

/// The column that a decimal digit names.
pub open spec fn digit_of(c: u8) -> Option<usize> {
    if DIGIT_ZERO <= c <= DIGIT_NINE {
        Some((c - DIGIT_ZERO) as usize)
    } else {
        None
    }
}

/// How a line of input (its bytes, trimmed) is read.
pub open spec fn parse_spec(s: Seq<u8>) -> Result<Command, InputError> {
    if s == seq![KEY_FULL_RESTART] {
        Ok(Command::FullRestart)
    } else if s == seq![KEY_SOFT_RESTART] {
        Ok(Command::SoftRestart)
    } else if s == seq![KEY_CROSS] || s == seq![KEY_CROSS_LOWER] {
        Ok(Command::Query(true))
    } else if s == seq![KEY_CIRCLE] || s == seq![KEY_CIRCLE_LOWER] {
        Ok(Command::Query(false))
    } else if s.len() != 2 {
        Err(InputError::Length)
    } else if side_of(s[0]) is None {
        Err(InputError::Side)
    } else if digit_of(s[1]) is None {
        Err(InputError::Column)
    } else {
        Ok(Command::Place(side_of(s[0])->0, digit_of(s[1])->0))
    }
}

/// The outcome of `side` dropping a token into column `col`: checks in order
/// the column index, a full column, a finished game and the turn; then the
/// token goes on top and either wins or hands the turn over.
pub open spec fn place_spec(m: GameModel, side: bool, col: int) -> (GameModel, Feedback) {
    if !(0 <= col < WIDTH) {
        (m, Feedback::Invalid(InputError::Column))
    } else if m.columns[col].len() >= HEIGHT {
        (m, Feedback::ColumnFull)
    } else if m.control == GameControl::WaitRestart {
        (m, Feedback::GameOver)
    } else if !may_place(m.control, side) {
        (m, Feedback::WrongTurn(!side))
    } else {
        let columns = m.columns.update(col, m.columns[col].push(side));
        if line_through(columns, col, m.columns[col].len() as int, side) {
            (
                GameModel { columns, control: GameControl::WaitRestart, winner: Some(side) },
                Feedback::Wins(side),
            )
        } else {
            (GameModel { columns, control: turn_of(!side), winner: m.winner }, Feedback::Silent)
        }
    }
}

/// The answer to "is it `side`'s turn?": none unless one side is to move.
pub open spec fn query_spec(c: GameControl, side: bool) -> Feedback {
    match c {
        GameControl::Cross => if side {
            Feedback::TurnConfirmed(true)
        } else {
            Feedback::TurnDenied(true)
        },
        GameControl::Circle => if side {
            Feedback::TurnDenied(false)
        } else {
            Feedback::TurnConfirmed(false)
        },
        _ => Feedback::Silent,
    }
}

/// The state after a command, and the answer to it.
pub open spec fn apply_spec(m: GameModel, cmd: Command) -> (GameModel, Feedback) {
    match cmd {
        Command::FullRestart => (fresh_game(), Feedback::Silent),
        Command::SoftRestart => if m.control == GameControl::WaitRestart {
            (fresh_game(), Feedback::Silent)
        } else {
            (m, Feedback::RestartRefused)
        },
        Command::Query(side) => (m, query_spec(m.control, side)),
        Command::Place(side, col) => place_spec(m, side, col as int),
    }
}

/// The state after a line of input, and the answer to it.
pub open spec fn handle_spec(m: GameModel, s: Seq<u8>) -> (GameModel, Feedback) {
    match parse_spec(s) {
        Ok(cmd) => apply_spec(m, cmd),
        Err(e) => (m, Feedback::Invalid(e)),
    }
}

/// Reads a line of input (already trimmed) as a command.
pub fn parse_command(input: &str) -> (r: Result<Command, InputError>)
    ensures
        r == parse_spec(input.spec_bytes()),
{
    let s = input.as_bytes();
    let ghost b = input.spec_bytes();
    if s.len() == 1 {
        let c = s[0];
        if c == KEY_FULL_RESTART {
            assert(b =~= seq![KEY_FULL_RESTART]);
            return Ok(Command::FullRestart);
        } else if c == KEY_SOFT_RESTART {
            assert(b =~= seq![KEY_SOFT_RESTART]);
            return Ok(Command::SoftRestart);
        } else if c == KEY_CROSS || c == KEY_CROSS_LOWER {
            assert(b =~= seq![KEY_CROSS] || b =~= seq![KEY_CROSS_LOWER]);
            return Ok(Command::Query(true));
        } else if c == KEY_CIRCLE || c == KEY_CIRCLE_LOWER {
            assert(b =~= seq![KEY_CIRCLE] || b =~= seq![KEY_CIRCLE_LOWER]);
            return Ok(Command::Query(false));
        }
        assert(b != seq![KEY_FULL_RESTART] && b != seq![KEY_SOFT_RESTART] && b != seq![KEY_CROSS] && b != seq![KEY_CROSS_LOWER]) by {
            assert(seq![KEY_FULL_RESTART][0] == KEY_FULL_RESTART && seq![KEY_SOFT_RESTART][0] == KEY_SOFT_RESTART && seq![KEY_CROSS][0] == KEY_CROSS && seq![KEY_CROSS_LOWER][0] == KEY_CROSS_LOWER);
        }
        assert(b != seq![KEY_CIRCLE] && b != seq![KEY_CIRCLE_LOWER]) by {
            assert(seq![KEY_CIRCLE][0] == KEY_CIRCLE && seq![KEY_CIRCLE_LOWER][0] == KEY_CIRCLE_LOWER);
        }
        return Err(InputError::Length);
    }
    assert(b != seq![KEY_FULL_RESTART] && b != seq![KEY_SOFT_RESTART] && b != seq![KEY_CROSS] && b != seq![KEY_CROSS_LOWER]
        && b != seq![KEY_CIRCLE] && b != seq![KEY_CIRCLE_LOWER]) by {
        assert(seq![KEY_FULL_RESTART].len() == 1);
    }
    if s.len() != 2 {
        return Err(InputError::Length);
    }
    let side = if s[0] == KEY_CROSS || s[0] == KEY_CROSS_LOWER {
        true
    } else if s[0] == KEY_CIRCLE || s[0] == KEY_CIRCLE_LOWER {
        false
    } else {
        return Err(InputError::Side);
    };
    if s[1] < DIGIT_ZERO || s[1] > DIGIT_NINE {
        return Err(InputError::Column);
    }
    Ok(Command::Place(side, (s[1] - DIGIT_ZERO) as usize))
}

/// `WIDTH` empty columns.
fn empty_columns() -> (r: Vec<Vec<bool>>)
    ensures
        columns_of(r@) == empty_board(),
{
    let mut r: Vec<Vec<bool>> = Vec::new();
    let mut i: usize = 0;
    while i < WIDTH
        invariant
            i <= WIDTH,
            r@.len() == i,
            forall|j: int| 0 <= j < i ==> (#[trigger] r@[j])@ == Seq::<bool>::empty(),
        decreases WIDTH - i,
    {
        r.push(Vec::new());
        i = i + 1;
    }
    assert(columns_of(r@) =~= empty_board());
    r
}

/// A game: the board, whose move it is, and the side that won last.
pub struct Game {
    columns: Vec<Vec<bool>>,
    control: GameControl,
    winner: Option<bool>,
}

impl View for Game {
    type V = GameModel;

    closed spec fn view(&self) -> GameModel {
        GameModel { columns: columns_of(self.columns@), control: self.control, winner: self.winner }
    }
}

impl Game {
    /// The board is `WIDTH` columns of at most `HEIGHT` tokens.
    pub open spec fn wf(&self) -> bool {
        board_wf(self@.columns)
    }

    /// An empty board on which either side may start.
    pub fn new() -> (r: Game)
        ensures
            r.wf(),
            r@ == fresh_game(),
    {
        let columns = empty_columns();
        Game { columns, control: GameControl::Unknown, winner: None }
    }

    /// A game on the given columns in state `control`, with no winner
    /// recorded; `None` unless there are `WIDTH` columns of at most `HEIGHT` tokens.
    pub fn with_board(columns: Vec<Vec<bool>>, control: GameControl) -> (r: Option<Game>)
        ensures
            r is Some <==> board_wf(columns_of(columns@)),
            r matches Some(g) ==> g.wf() && g@ == (GameModel { columns: columns_of(columns@), control, winner: None }),
    {
        if columns.len() != WIDTH {
            return None;
        }
        let mut i: usize = 0;
        while i < columns.len()
            invariant
                i <= columns@.len(),
                forall|j: int| 0 <= j < i ==> (#[trigger] columns@[j])@.len() <= HEIGHT,
            decreases columns@.len() - i,
        {
            if columns[i].len() > HEIGHT {
                assert(columns_of(columns@)[i as int].len() > HEIGHT);
                return None;
            }
            i = i + 1;
        }
        Some(Game { columns, control, winner: None })
    }

    /// Whose move it is.
    pub fn control(&self) -> (r: GameControl)
        ensures
            r == self@.control,
    {
        self.control
    }

    /// The side that made the last four in a row, if any since the last restart.
    pub fn winner(&self) -> (r: Option<bool>)
        ensures
            r == self@.winner,
    {
        self.winner
    }

    /// The columns, bottom token first.
    pub fn columns(&self) -> (r: &[Vec<bool>])
        ensures
            columns_of(r@) == self@.columns,
    {
        self.columns.as_slice()
    }

    /// Clears the board; either side may start.
    fn reset(&mut self)
        ensures
            final(self).wf(),
            final(self)@ == fresh_game(),
    {
        self.columns = empty_columns();
        self.control = GameControl::Unknown;
        self.winner = None;
    }

    /// `side` (true is Cross) drops a token into column `col`.
    pub fn place(&mut self, side: bool, col: usize) -> (r: Feedback)
        requires
            old(self).wf(),
        ensures
            final(self).wf(),
            (final(self)@, r) == place_spec(old(self)@, side, col as int),
    {
        if col >= WIDTH {
            return Feedback::Invalid(InputError::Column);
        }
        let row = self.columns[col].len();
        if row >= HEIGHT {
            return Feedback::ColumnFull;
        }
        match self.control {
            GameControl::WaitRestart => {
                return Feedback::GameOver;
            },
            GameControl::Cross => {
                if !side {
                    return Feedback::WrongTurn(true);
                }
            },
            GameControl::Circle => {
                if side {
                    return Feedback::WrongTurn(false);
                }
            },
            GameControl::Unknown => {},
        }
        let ghost before = self.columns@;
        let mut column = self.columns.remove(col);
        column.push(side);
        self.columns.insert(col, column);
        let ghost b = columns_of(self.columns@);
        assert(self.columns@ =~= before.update(col as int, column));
        assert(b =~= old(self)@.columns.update(col as int, old(self)@.columns[col as int].push(side)));
        let win = wins_at(self.columns.as_slice(), col, row, side);
        if win {
            self.control = GameControl::WaitRestart;
            self.winner = Some(side);
            Feedback::Wins(side)
        } else {
            self.control = if side {
                GameControl::Circle
            } else {
                GameControl::Cross
            };
            Feedback::Silent
        }
    }

    /// Carries out a command.
    pub fn apply(&mut self, cmd: Command) -> (r: Feedback)
        requires
            old(self).wf(),
        ensures
            final(self).wf(),
            (final(self)@, r) == apply_spec(old(self)@, cmd),
    {
        match cmd {
            Command::FullRestart => {
                self.reset();
                Feedback::Silent
            },
            Command::SoftRestart => {
                if self.control == GameControl::WaitRestart {
                    self.reset();
                    Feedback::Silent
                } else {
                    Feedback::RestartRefused
                }
            },
            Command::Query(side) => match self.control {
                GameControl::Cross => if side {
                    Feedback::TurnConfirmed(true)
                } else {
                    Feedback::TurnDenied(true)
                },
                GameControl::Circle => if side {
                    Feedback::TurnDenied(false)
                } else {
                    Feedback::TurnConfirmed(false)
                },
                _ => Feedback::Silent,
            },
            Command::Place(side, col) => self.place(side, col),
        }
    }

    /// Reads a line of input (already trimmed) and carries it out.
    pub fn handle(&mut self, input: &str) -> (r: Feedback)
        requires
            old(self).wf(),
        ensures
            final(self).wf(),
            (final(self)@, r) == handle_spec(old(self)@, input.spec_bytes()),
    {
        match parse_command(input) {
            Ok(cmd) => self.apply(cmd),
            Err(e) => Feedback::Invalid(e),
        }
    }
}

} // verus!
