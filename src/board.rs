use vstd::prelude::*;

verus! {

/// Number of columns on the board.
pub const WIDTH: usize = 10;

/// Number of tokens a column can hold.
pub const HEIGHT: usize = 10;

/// The columns as sequences of tokens, bottom first (`true` is Cross).
pub open spec fn columns_of(c: Seq<Vec<bool>>) -> Seq<Seq<bool>> {
    c.map_values(|v: Vec<bool>| v@)
}

/// The token at column `x`, row `y`, if there is one.
pub open spec fn cell(b: Seq<Seq<bool>>, x: int, y: int) -> Option<bool> {
    if 0 <= x < b.len() && 0 <= y < b[x].len() {
        Some(b[x][y])
    } else {
        None
    }
}

/// A board of `WIDTH` columns, none of them holding more than `HEIGHT` tokens.
pub open spec fn board_wf(b: Seq<Seq<bool>>) -> bool {
    &&& b.len() == WIDTH
    &&& forall|i: int| 0 <= i < b.len() ==> #[trigger] b[i].len() <= HEIGHT
}

/// `p + o` when it is a valid `usize`.
pub open spec fn shifted(p: int, o: int) -> Option<int> {
    if 0 <= p + o <= usize::MAX {
        Some(p + o)
    } else {
        None
    }
}

/// Coordinate `k` unit steps from `x` in direction `d`, where `d` is -1, 0 or 1.
pub open spec fn along(x: int, d: int, k: int) -> int {
    if d > 0 {
        x + k
    } else if d < 0 {
        x - k
    } else {
        x
    }
}

/// A unit step: each component is -1, 0 or 1, and not both are 0.
pub open spec fn is_direction(dx: int, dy: int) -> bool {
    &&& -1 <= dx <= 1
    &&& -1 <= dy <= 1
    &&& !(dx == 0 && dy == 0)
}

/// The cell `k` steps from `(x, y)` along `(dx, dy)` holds a token of `side`.
pub open spec fn same_at(
    b: Seq<Seq<bool>>,
    x: int,
    y: int,
    dx: int,
    dy: int,
    side: bool,
    k: int,
) -> bool {
    cell(b, along(x, dx, k), along(y, dy, k)) == Some(side)
}

/// `n` is the length of the run of `side` tokens that begins one step from
/// `(x, y)` along `(dx, dy)`: the next `n` cells hold `side`, the one after does not.
pub open spec fn is_run(
    b: Seq<Seq<bool>>,
    x: int,
    y: int,
    dx: int,
    dy: int,
    side: bool,
    n: int,
) -> bool {
    &&& 0 <= n
    &&& forall|k: int| 1 <= k <= n ==> #[trigger] same_at(b, x, y, dx, dy, side, k)
    &&& !same_at(b, x, y, dx, dy, side, n + 1)
}

/// The four line orientations: vertical, horizontal and the two diagonals.
pub open spec fn orientation(i: int) -> (int, int) {
    if i == 0 {
        (0, 1)
    } else if i == 1 {
        (1, 0)
    } else if i == 2 {
        (1, 1)
    } else {
        (1, -1)
    }
}

/// The four cells at steps `s .. s + 4` from `(x, y)` along `(dx, dy)` all hold `side`.
pub open spec fn four_from(
    b: Seq<Seq<bool>>,
    x: int,
    y: int,
    dx: int,
    dy: int,
    side: bool,
    s: int,
) -> bool {
    forall|j: int| s <= j < s + 4 ==> #[trigger] same_at(b, x, y, dx, dy, side, j)
}

/// Some four consecutive cells of one orientation, one of them `(x, y)`, all hold `side`.
pub open spec fn line_through(b: Seq<Seq<bool>>, x: int, y: int, side: bool) -> bool {
    exists|i: int, s: int|
        0 <= i < 4 && -3 <= s <= 0 && #[trigger] four_from(
            b,
            x,
            y,
            orientation(i).0,
            orientation(i).1,
            side,
            s,
        )
}

/// The token at column `pos_x`, row `pos_y`, or `None` where that cell is empty
/// or off the board.
pub fn pos_fetch(pos_x: usize, pos_y: usize, crosses: &[Vec<bool>]) -> (r: Option<bool>)
    ensures
        r == cell(columns_of(crosses@), pos_x as int, pos_y as int),
{
    if pos_x < crosses.len() {
        let column = &crosses[pos_x];
        if pos_y < column.len() {
            return Some(column[pos_y]);
        }
    }
    None
}

fn shift(p: usize, o: isize) -> (r: Option<usize>)
    ensures
        r == (match shifted(p as int, o as int) {
            Some(v) => Some(v as usize),
            None => None,
        }),
{
    if o >= 0 {
        let d = o as usize;
        if p <= usize::MAX - d {
            Some(p + d)
        } else {
            None
        }
    } else {
        let d = (-(o + 1)) as usize + 1;
        if p >= d {
            Some(p - d)
        } else {
            None
        }
    }
}

/// The position `(pos_x + offset_x, pos_y + offset_y)`, or `None` where a
/// coordinate would fall below zero (or past `usize::MAX`).
pub fn pos_offset(pos_x: usize, pos_y: usize, offset_x: isize, offset_y: isize) -> (r: Option<
    (usize, usize),
>)
    ensures
        r == (match (shifted(pos_x as int, offset_x as int), shifted(pos_y as int, offset_y as int)) {
            (Some(x), Some(y)) => Some((x as usize, y as usize)),
            _ => None,
        }),
{
    let x = shift(pos_x, offset_x);
    let y = shift(pos_y, offset_y);
    match (x, y) {
        (Some(x), Some(y)) => Some((x, y)),
        _ => None,
    }
}

/// Counts the `side` tokens met walking from `(x, y)` along `(dx, dy)` until
/// the first cell that is empty, off the board or of the other side.
pub fn run_length(crosses: &[Vec<bool>], x: usize, y: usize, dx: isize, dy: isize, side: bool) -> (n: usize)
    requires
        board_wf(columns_of(crosses@)),
        x < WIDTH,
        y < HEIGHT,
        is_direction(dx as int, dy as int),
    ensures
        is_run(columns_of(crosses@), x as int, y as int, dx as int, dy as int, side, n as int),
        n < WIDTH,
{
    let ghost b = columns_of(crosses@);
    let mut n: usize = 0;
    let mut px = x;
    let mut py = y;
    loop
        invariant
            board_wf(b),
            b == columns_of(crosses@),
            x < WIDTH,
            y < HEIGHT,
            is_direction(dx as int, dy as int),
            n < WIDTH,
            px as int == along(x as int, dx as int, n as int),
            py as int == along(y as int, dy as int, n as int),
            forall|k: int| 1 <= k <= n ==> #[trigger] same_at(b, x as int, y as int, dx as int, dy as int, side, k),
        decreases WIDTH - n,
    {
        let next = pos_offset(px, py, dx, dy);
        match next {
            None => {
                return n;
            },
            Some((nx, ny)) => {
                match pos_fetch(nx, ny, crosses) {
                    Some(c) => {
                        if c != side {
                            return n;
                        }
                        assert(same_at(b, x as int, y as int, dx as int, dy as int, side, n + 1));
                        assert(b[nx as int].len() <= HEIGHT);
                        n = n + 1;
                        px = nx;
                        py = ny;
                    },
                    None => {
                        return n;
                    },
                }
            },
        }
    }
}

/// Stepping backwards along `(dx, dy)` is stepping forwards along `(-dx, -dy)`.
proof fn lemma_reverse_step(b: Seq<Seq<bool>>, x: int, y: int, dx: int, dy: int, side: bool, k: int)
    requires
        is_direction(dx, dy),
    ensures
        same_at(b, x, y, -dx, -dy, side, k) == same_at(b, x, y, dx, dy, side, -k),
{
}

/// With the cell `(x, y)` holding `side`, a forward run of `n1` and a backward
/// run of `n2` add up to four or more exactly when four consecutive cells along
/// `(dx, dy)`, one of them `(x, y)`, all hold `side`.
proof fn lemma_runs_make_line(
    b: Seq<Seq<bool>>,
    x: int,
    y: int,
    dx: int,
    dy: int,
    side: bool,
    n1: int,
    n2: int,
)
    requires
        is_direction(dx, dy),
        same_at(b, x, y, dx, dy, side, 0),
        is_run(b, x, y, dx, dy, side, n1),
        is_run(b, x, y, -dx, -dy, side, n2),
    ensures
        (n1 + n2 + 1 >= 4) == (exists|s: int| -3 <= s <= 0 && #[trigger] four_from(b, x, y, dx, dy, side, s)),
{
    if n1 + n2 + 1 >= 4 {
        let s = if -n2 > -3 { -n2 } else { -3 };
        assert forall|j: int| s <= j < s + 4 implies #[trigger] same_at(b, x, y, dx, dy, side, j) by {
            if j < 0 {
                lemma_reverse_step(b, x, y, dx, dy, side, -j);
                assert(same_at(b, x, y, -dx, -dy, side, -j));
            } else if j > 0 {
                assert(same_at(b, x, y, dx, dy, side, j));
            }
        }
        assert(four_from(b, x, y, dx, dy, side, s));
    }
    if exists|s: int| -3 <= s <= 0 && #[trigger] four_from(b, x, y, dx, dy, side, s) {
        let s = choose|s: int| -3 <= s <= 0 && #[trigger] four_from(b, x, y, dx, dy, side, s);
        if n1 < s + 3 {
            assert(same_at(b, x, y, dx, dy, side, n1 + 1));
        }
        if n2 < -s {
            assert(same_at(b, x, y, dx, dy, side, -(n2 + 1)));
            lemma_reverse_step(b, x, y, dx, dy, side, n2 + 1);
        }
    }
}

fn orientation_at(i: usize) -> (r: (isize, isize))
    requires
        i < 4,
    ensures
        (r.0 as int, r.1 as int) == orientation(i as int),
{
    if i == 0 {
        (0, 1)
    } else if i == 1 {
        (1, 0)
    } else if i == 2 {
        (1, 1)
    } else {
        (1, -1)
    }
}

/// Whether the `side` token at column `x`, row `y` stands in four consecutive
/// tokens of its side along some orientation: its own token, the run walked
/// forwards and the run walked backwards count together.
pub fn wins_at(crosses: &[Vec<bool>], x: usize, y: usize, side: bool) -> (r: bool)
    requires
        board_wf(columns_of(crosses@)),
        x < WIDTH,
        y < HEIGHT,
        cell(columns_of(crosses@), x as int, y as int) == Some(side),
    ensures
        r == line_through(columns_of(crosses@), x as int, y as int, side),
{
    let ghost b = columns_of(crosses@);
    let mut i: usize = 0;
    while i < 4
        invariant
            i <= 4,
            board_wf(b),
            b == columns_of(crosses@),
            x < WIDTH,
            y < HEIGHT,
            cell(b, x as int, y as int) == Some(side),
            forall|i2: int, s: int|
                0 <= i2 < i && -3 <= s <= 0 ==> !#[trigger] four_from(
                    b,
                    x as int,
                    y as int,
                    orientation(i2).0,
                    orientation(i2).1,
                    side,
                    s,
                ),
        decreases 4 - i,
    {
        let (ox, oy) = orientation_at(i);
        let forward = run_length(crosses, x, y, ox, oy, side);
        let backward = run_length(crosses, x, y, -ox, -oy, side);
        proof {
            assert(same_at(b, x as int, y as int, ox as int, oy as int, side, 0));
            lemma_runs_make_line(b, x as int, y as int, ox as int, oy as int, side, forward as int, backward as int);
        }
        if forward + backward + 1 >= 4 {
            return true;
        }
        i = i + 1;
    }
    proof {
        if line_through(b, x as int, y as int, side) {
            let (i2, s) = choose|i2: int, s: int|
                0 <= i2 < 4 && -3 <= s <= 0 && #[trigger] four_from(
                    b,
                    x as int,
                    y as int,
                    orientation(i2).0,
                    orientation(i2).1,
                    side,
                    s,
                );
            assert(false);
        }
    }
    false
}

/// The fill level of the fullest column (0 for no columns): how many rows a
/// drawing of the board needs.
pub fn top_level(crosses: &[Vec<bool>]) -> (r: usize)
    ensures
        forall|i: int| 0 <= i < crosses@.len() ==> (#[trigger] crosses@[i])@.len() <= r,
        r == 0 || exists|i: int| 0 <= i < crosses@.len() && (#[trigger] crosses@[i])@.len() == r,
{
    let mut r: usize = 0;
    let mut i: usize = 0;
    while i < crosses.len()
        invariant
            i <= crosses@.len(),
            forall|j: int| 0 <= j < i ==> (#[trigger] crosses@[j])@.len() <= r,
            r == 0 || exists|j: int| 0 <= j < i && (#[trigger] crosses@[j])@.len() == r,
        decreases crosses@.len() - i,
    {
        let level = crosses[i].len();
        if level > r {
            r = level;
        }
        i = i + 1;
    }
    r
}

/// How a cell is drawn: `X` for Cross, `O` for Circle, a blank when empty.
pub fn cell_mark(c: Option<bool>) -> (r: char)
    ensures
        r == (match c {
            Some(true) => 'X',
            Some(false) => 'O',
            None => ' ',
        }),
{
    match c {
        Some(true) => 'X',
        Some(false) => 'O',
        None => ' ',
    }
}

} // verus!
