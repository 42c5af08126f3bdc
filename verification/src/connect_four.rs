//! Connect Four: the board, the selection row above it, and the rules for
//! dropping a piece and for winning.

use crate::text::decimal;
use vstd::prelude::*;
use vstd::string::StringExecFns;

verus! {

/// A colour in red, green and blue.
#[derive(Clone, Copy, Debug, PartialEq, Eq, Structural)]
pub struct Color(pub u8, pub u8, pub u8);

/// Whether two colours are the same in all three components.
pub fn same_color(c1: &Color, c2: &Color) -> (same: bool)
    ensures
        same == (*c1 == *c2),
{
    c1.0 == c2.0 && c1.1 == c2.1 && c1.2 == c2.2
}

/// A rectangle of cells, stored column by column.
#[derive(Debug)]
pub struct Grid<T> {
    cells: Vec<T>,
    width: usize,
    height: usize,
}

impl<T> View for Grid<T> {
    type V = Seq<T>;

    closed spec fn view(&self) -> Seq<T> {
        self.cells@
    }
}

impl<T> Grid<T> {
    pub closed spec fn width_spec(&self) -> nat {
        self.width as nat
    }

    pub closed spec fn height_spec(&self) -> nat {
        self.height as nat
    }

    /// A grid holds one cell for every place.
    pub open spec fn wf(&self) -> bool {
        self@.len() == self.width_spec() * self.height_spec()
    }

    /// Whether `(x, y)` is a place of the grid.
    pub open spec fn contains(&self, x: int, y: int) -> bool {
        0 <= x < self.width_spec() && 0 <= y < self.height_spec()
    }

    /// The position of `(x, y)` in the store.
    pub open spec fn index_of(&self, x: int, y: int) -> int {
        x * self.height_spec() + y
    }

    /// The cell at column `x`, row `y`.
    pub open spec fn cell(&self, x: int, y: int) -> T {
        self@[self.index_of(x, y)]
    }

    /// Every place of a well-formed grid has a position in the store.
    pub proof fn lemma_index_in_range(&self, x: int, y: int)
        requires
            self.wf(),
            self.contains(x, y),
        ensures
            0 <= self.index_of(x, y) < self@.len(),
    {
        let h = self.height_spec() as int;
        let w = self.width_spec() as int;
        assert(x * h + y < w * h) by (nonlinear_arith)
            requires
                0 <= x < w,
                0 <= y < h,
        ;
        assert(0 <= x * h) by (nonlinear_arith)
            requires
                0 <= x,
                0 <= h,
        ;
    }

    /// Every place of a well-formed grid has its own position in the store.
    pub proof fn lemma_index_of(&self, x: int, y: int)
        requires
            self.wf(),
            self.contains(x, y),
        ensures
            0 <= self.index_of(x, y) < self@.len(),
            forall|x2: int, y2: int|
                self.contains(x2, y2) && (x2 != x || y2 != y) ==> #[trigger] self.index_of(x2, y2)
                    != self.index_of(x, y),
    {
        self.lemma_index_in_range(x, y);
        let h = self.height_spec() as int;
        assert forall|x2: int, y2: int|
            self.contains(x2, y2) && (x2 != x || y2 != y) implies #[trigger] self.index_of(x2, y2)
            != self.index_of(x, y) by {
            assert(x2 * h + y2 != x * h + y) by (nonlinear_arith)
                requires
                    0 <= y < h,
                    0 <= y2 < h,
                    x2 != x || y2 != y,
            ;
        }
    }

    pub fn width(&self) -> (w: usize)
        ensures
            w == self.width_spec(),
    {
        self.width
    }

    pub fn height(&self) -> (h: usize)
        ensures
            h == self.height_spec(),
    {
        self.height
    }

    /// The cell at column `x`, row `y`.
    pub fn at(&self, x: usize, y: usize) -> (c: &T)
        requires
            0 <= self.index_of(x as int, y as int) < self@.len(),
        ensures
            *c == self.cell(x as int, y as int),
    {
        let len: usize = self.cells.len();
        assert(x * self.height + y < len);
        &self.cells[x * self.height + y]
    }

    /// The cell at column `x`, row `y`, to be written to.
    pub fn at_mut(&mut self, x: usize, y: usize) -> (c: &mut T)
        requires
            0 <= old(self).index_of(x as int, y as int) < old(self)@.len(),
        ensures
            *c == old(self).cell(x as int, y as int),
            final(self)@ == old(self)@.update(old(self).index_of(x as int, y as int), *final(c)),
            final(self).width_spec() == old(self).width_spec(),
            final(self).height_spec() == old(self).height_spec(),
    {
        let len: usize = self.cells.len();
        assert(x * self.height + y < len);
        &mut self.cells[x * self.height + y]
    }
}

impl<T: Copy> Grid<T> {
    /// A grid of `width` columns and `height` rows with `value` in every
    /// cell.
    pub fn new(value: T, width: usize, height: usize) -> (g: Self)
        requires
            width * height <= usize::MAX,
        ensures
            g.wf(),
            g.width_spec() == width,
            g.height_spec() == height,
            forall|i: int| 0 <= i < g@.len() ==> g@[i] == value,
    {
        let n: usize = width * height;
        let mut cells: Vec<T> = Vec::new();
        let mut i: usize = 0;
        while i < n
            invariant
                i <= n,
                cells@.len() == i,
                forall|j: int| 0 <= j < i ==> cells@[j] == value,
            decreases n - i,
        {
            cells.push(value);
            i += 1;
        }
        Self { cells, width, height }
    }
}

/// The four lines through a place along which four in a row count.
#[derive(Clone, Copy, Debug, PartialEq, Eq, Structural)]
pub enum Axis {
    /// Left to right.
    Row,
    /// Top to bottom.
    Column,
    /// From the upper left to the lower right.
    Diagonal,
    /// From the lower left to the upper right.
    AntiDiagonal,
}

impl Axis {
    /// How far `t` steps along the line lead in `x`.
    pub open spec fn dx(self, t: int) -> int {
        match self {
            Axis::Column => 0,
            _ => t,
        }
    }

    /// How far `t` steps along the line lead in `y`.
    pub open spec fn dy(self, t: int) -> int {
        match self {
            Axis::Row => 0,
            Axis::AntiDiagonal => -t,
            _ => t,
        }
    }
}

/// Whether the place `t` steps along `axis` from `(x, y)` lies on the board.
pub open spec fn within(grid: &Grid<Color>, x: int, y: int, axis: Axis, t: int) -> bool {
    grid.contains(x + axis.dx(t), y + axis.dy(t))
}

/// Whether the place `t` steps along `axis` from `(x, y)` lies on the board
/// and holds the colour of `(x, y)`.
pub open spec fn on_line(grid: &Grid<Color>, x: int, y: int, axis: Axis, t: int) -> bool {
    &&& within(grid, x, y, axis, t)
    &&& grid.cell(x + axis.dx(t), y + axis.dy(t)) == grid.cell(x, y)
}

/// Whether the four places from step `s` to step `s + 3` along `axis` all
/// hold the colour of `(x, y)`.
pub open spec fn four_from(grid: &Grid<Color>, x: int, y: int, axis: Axis, s: int) -> bool {
    &&& on_line(grid, x, y, axis, s)
    &&& on_line(grid, x, y, axis, s + 1)
    &&& on_line(grid, x, y, axis, s + 2)
    &&& on_line(grid, x, y, axis, s + 3)
}

/// Whether `(x, y)` is one of four neighbours in a row of its colour along
/// `axis`.
pub open spec fn four_in_line(grid: &Grid<Color>, x: int, y: int, axis: Axis) -> bool {
    ||| four_from(grid, x, y, axis, -3)
    ||| four_from(grid, x, y, axis, -2)
    ||| four_from(grid, x, y, axis, -1)
    ||| four_from(grid, x, y, axis, 0)
}

/// Whether the piece at `(x, y)` completes four in a row in any direction.
pub open spec fn wins_at(grid: &Grid<Color>, x: int, y: int) -> bool {
    ||| four_in_line(grid, x, y, Axis::Row)
    ||| four_in_line(grid, x, y, Axis::Column)
    ||| four_in_line(grid, x, y, Axis::Diagonal)
    ||| four_in_line(grid, x, y, Axis::AntiDiagonal)
}

/// The lesser of two numbers.
fn lesser(a: usize, b: usize) -> (m: usize)
    ensures
        m <= a,
        m <= b,
        m == a || m == b,
{
    if a < b {
        a
    } else {
        b
    }
}

/// Whether the place `i - back` steps along `axis` from `(x, y)` holds the
/// colour of `(x, y)`.
fn matches_at(grid: &Grid<Color>, x: usize, y: usize, axis: Axis, back: usize, i: usize) -> (same:
    bool)
    requires
        grid.wf(),
        grid.contains(x as int, y as int),
        back <= 3,
        i <= 6,
        within(grid, x as int, y as int, axis, i - back),
        within(grid, x as int, y as int, axis, -back),
    ensures
        same == on_line(grid, x as int, y as int, axis, i - back),
{
    let cx: usize = match axis {
        Axis::Column => x,
        _ => x - back + i,
    };
    let cy: usize = match axis {
        Axis::Row => y,
        Axis::AntiDiagonal => y + back - i,
        _ => y - back + i,
    };
    proof {
        grid.lemma_index_in_range(x as int, y as int);
        grid.lemma_index_in_range(cx as int, cy as int);
    }
    same_color(grid.at(cx, cy), grid.at(x, y))
}

/// Walks the line through `(x, y)` along `axis`, from `back` steps before
/// the place to `forth` steps behind it, and counts neighbours of the
/// place's colour: four of them in a row are a win.
fn scan_line(grid: &Grid<Color>, x: usize, y: usize, axis: Axis, back: usize, forth: usize) -> (found:
    bool)
    requires
        grid.wf(),
        grid.contains(x as int, y as int),
        back <= 3,
        forth <= 3,
        forall|t: int| -back <= t <= forth ==> #[trigger] within(grid, x as int, y as int, axis, t),
    ensures
        found <==> {
            ||| back >= 3 && four_from(grid, x as int, y as int, axis, -3)
            ||| back >= 2 && forth >= 1 && four_from(grid, x as int, y as int, axis, -2)
            ||| back >= 1 && forth >= 2 && four_from(grid, x as int, y as int, axis, -1)
            ||| forth >= 3 && four_from(grid, x as int, y as int, axis, 0)
        },
{
    let ghost gx = x as int;
    let ghost gy = y as int;
    let mut count: usize = 0;
    let mut i: usize = 0;
    while i <= back + forth
        invariant
            grid.wf(),
            grid.contains(gx, gy),
            gx == x,
            gy == y,
            back <= 3,
            forth <= 3,
            forall|t: int| -back <= t <= forth ==> #[trigger] within(grid, gx, gy, axis, t),
            i <= back + forth + 1,
            count <= 3,
            count <= i,
            count >= 1 ==> on_line(grid, gx, gy, axis, i - back - 1),
            count >= 2 ==> on_line(grid, gx, gy, axis, i - back - 2),
            count >= 3 ==> on_line(grid, gx, gy, axis, i - back - 3),
            count < i ==> !on_line(grid, gx, gy, axis, i - back - count - 1),
            back >= 3 && i >= 4 ==> !four_from(grid, gx, gy, axis, -3),
            back >= 2 && i - back >= 2 ==> !four_from(grid, gx, gy, axis, -2),
            back >= 1 && i - back >= 3 ==> !four_from(grid, gx, gy, axis, -1),
            i - back >= 4 ==> !four_from(grid, gx, gy, axis, 0),
        decreases back + forth + 1 - i,
    {
        assert(within(grid, gx, gy, axis, i - back));
        assert(within(grid, gx, gy, axis, -back));
        if matches_at(grid, x, y, axis, back, i) {
            count += 1;
            if count >= 4 {
                assert(four_from(grid, gx, gy, axis, i - back - 3));
                return true;
            }
        } else {
            count = 0;
        }
        i += 1;
    }
    false
}

/// Whether `(x, y)` is one of four neighbours in a row of its colour along
/// `axis`, given how far the board reaches from the place in both
/// directions.
fn line_wins(grid: &Grid<Color>, x: usize, y: usize, axis: Axis, back: usize, forth: usize) -> (found:
    bool)
    requires
        grid.wf(),
        grid.contains(x as int, y as int),
        back == reach_back(grid, x as int, y as int, axis),
        forth == reach_forth(grid, x as int, y as int, axis),
    ensures
        found == four_in_line(grid, x as int, y as int, axis),
{
    proof {
        lemma_reach(grid, x as int, y as int, axis, back as int, forth as int);
    }
    let found = scan_line(grid, x, y, axis, back, forth);
    proof {
        let gx = x as int;
        let gy = y as int;
        // A run of four that starts before the reach, or ends behind it,
        // holds a place off the board.
        if back < 3 {
            assert(!on_line(grid, gx, gy, axis, -back - 1));
        }
        if forth < 3 {
            assert(!on_line(grid, gx, gy, axis, forth + 1));
        }
        assert(back < 3 ==> !four_from(grid, gx, gy, axis, -3));
        assert(back < 2 || forth < 1 ==> !four_from(grid, gx, gy, axis, -2));
        assert(back < 1 || forth < 2 ==> !four_from(grid, gx, gy, axis, -1));
        assert(forth < 3 ==> !four_from(grid, gx, gy, axis, 0));
    }
    found
}

/// Whether the piece at `(x, y)` completes four in a row: along its row, its
/// column or one of its two diagonals.
pub fn check_winner(grid: &Grid<Color>, x: usize, y: usize) -> (won: bool)
    requires
        grid.wf(),
        grid.contains(x as int, y as int),
    ensures
        won == wins_at(grid, x as int, y as int),
{
    let left = lesser(x, 3);
    let right = lesser(grid.width() - 1 - x, 3);
    let up = lesser(y, 3);
    let down = lesser(grid.height() - 1 - y, 3);

    if line_wins(grid, x, y, Axis::Row, left, right) {
        return true;
    }
    if line_wins(grid, x, y, Axis::Column, up, down) {
        return true;
    }
    let d_min = lesser(up, left);
    let d_max = lesser(down, right);
    if line_wins(grid, x, y, Axis::Diagonal, d_min, d_max) {
        return true;
    }
    let d_min = lesser(down, left);
    let d_max = lesser(up, right);
    if line_wins(grid, x, y, Axis::AntiDiagonal, d_min, d_max) {
        return true;
    }
    false
}

/// How far the board reaches from `(x, y)` against `axis`, at most three
/// steps.
pub open spec fn reach_back(grid: &Grid<Color>, x: int, y: int, axis: Axis) -> int {
    let w = grid.width_spec() as int;
    let h = grid.height_spec() as int;
    let by_x = if x < 3 {
        x
    } else {
        3
    };
    let by_y_up = if y < 3 {
        y
    } else {
        3
    };
    let by_y_down = if h - 1 - y < 3 {
        h - 1 - y
    } else {
        3
    };
    match axis {
        Axis::Row => by_x,
        Axis::Column => by_y_up,
        Axis::Diagonal => if by_x < by_y_up {
            by_x
        } else {
            by_y_up
        },
        Axis::AntiDiagonal => if by_x < by_y_down {
            by_x
        } else {
            by_y_down
        },
    }
}

/// How far the board reaches from `(x, y)` along `axis`, at most three
/// steps.
pub open spec fn reach_forth(grid: &Grid<Color>, x: int, y: int, axis: Axis) -> int {
    let w = grid.width_spec() as int;
    let h = grid.height_spec() as int;
    let by_x = if w - 1 - x < 3 {
        w - 1 - x
    } else {
        3
    };
    let by_y_up = if y < 3 {
        y
    } else {
        3
    };
    let by_y_down = if h - 1 - y < 3 {
        h - 1 - y
    } else {
        3
    };
    match axis {
        Axis::Row => by_x,
        Axis::Column => by_y_down,
        Axis::Diagonal => if by_x < by_y_down {
            by_x
        } else {
            by_y_down
        },
        Axis::AntiDiagonal => if by_x < by_y_up {
            by_x
        } else {
            by_y_up
        },
    }
}

/// The places within reach of `(x, y)` are the places of the line that lie
/// on the board, so a run of four that is not within reach is no run.
proof fn lemma_reach(grid: &Grid<Color>, x: int, y: int, axis: Axis, back: int, forth: int)
    requires
        grid.wf(),
        grid.contains(x, y),
        back == reach_back(grid, x, y, axis),
        forth == reach_forth(grid, x, y, axis),
    ensures
        0 <= back <= 3,
        0 <= forth <= 3,
        forall|t: int| -back <= t <= forth ==> #[trigger] within(grid, x, y, axis, t),
        back < 3 ==> !on_line(grid, x, y, axis, -back - 1),
        forth < 3 ==> !on_line(grid, x, y, axis, forth + 1),
{
}

/// Columns of the board.
pub const BOARD_WIDTH: usize = 7;

/// Rows of the board.
pub const BOARD_HEIGHT: usize = 6;

/// The column that the selection starts at, for every player's turn.
pub const START_COLUMN: usize = 3;

/// The first row from `y` downwards in column `x` that holds a piece, or the
/// height of the board if the column is free from `y` on.
pub open spec fn first_piece(grid: &Grid<Color>, background: Color, x: int, y: int) -> int
    decreases grid.height_spec() - y,
{
    if y >= grid.height_spec() || grid.cell(x, y) != background {
        y
    } else {
        first_piece(grid, background, x, y + 1)
    }
}

/// The row in which a piece dropped into column `x` comes to rest: the one
/// above the column's topmost piece, or the bottom row.
pub open spec fn landing_row(grid: &Grid<Color>, background: Color, x: int) -> int {
    first_piece(grid, background, x, 0) - 1
}

/// `first_piece` names the first row that is not free: every row before it
/// is.
pub proof fn lemma_first_piece(grid: &Grid<Color>, background: Color, x: int, y: int)
    requires
        0 <= y <= grid.height_spec(),
    ensures
        y <= first_piece(grid, background, x, y) <= grid.height_spec(),
        forall|r: int|
            y <= r < first_piece(grid, background, x, y) ==> #[trigger] grid.cell(x, r)
                == background,
        first_piece(grid, background, x, y) < grid.height_spec() ==> grid.cell(
            x,
            first_piece(grid, background, x, y),
        ) != background,
    decreases grid.height_spec() - y,
{
    if y < grid.height_spec() && grid.cell(x, y) == background {
        lemma_first_piece(grid, background, x, y + 1);
    }
}

/// A game of two players on a board of seven columns and six rows.
#[derive(Debug)]
pub struct Game {
    grid: Grid<Color>,
    active_player: usize,
    players: [Color; 2],
    background: Color,
    selection: Grid<Color>,
    active_selection: usize,
}

impl Game {
    /// The board.
    pub closed spec fn board(&self) -> &Grid<Color> {
        &self.grid
    }

    /// The row above the board that shows where the next piece is dropped.
    pub closed spec fn selection_row(&self) -> &Grid<Color> {
        &self.selection
    }

    /// The player whose turn it is: 0 or 1.
    pub closed spec fn active_player_spec(&self) -> int {
        self.active_player as int
    }

    /// The selected column.
    pub closed spec fn active_column(&self) -> int {
        self.active_selection as int
    }

    /// The colour of player `i`.
    pub closed spec fn player_color(&self, i: int) -> Color {
        self.players[i]
    }

    /// The colour of a free cell.
    pub closed spec fn background_spec(&self) -> Color {
        self.background
    }

    /// The colour of the player whose turn it is.
    pub open spec fn active_color(&self) -> Color {
        self.player_color(self.active_player_spec())
    }

    /// Whether the selection row shows `color` in column `column` and the
    /// background everywhere else.
    pub open spec fn selection_shows(&self, column: int, color: Color) -> bool {
        forall|x: int|
            0 <= x < BOARD_WIDTH ==> #[trigger] self.selection_row().cell(x, 0) == (if x
                == column {
                color
            } else {
                self.background_spec()
            })
    }

    /// The board has seven columns and six rows, the selection row seven
    /// columns; one of two players is active and one of seven columns is
    /// selected, and the selection row shows the active player's colour there.
    pub open spec fn wf(&self) -> bool {
        &&& self.board().wf()
        &&& self.board().width_spec() == BOARD_WIDTH
        &&& self.board().height_spec() == BOARD_HEIGHT
        &&& self.selection_row().wf()
        &&& self.selection_row().width_spec() == BOARD_WIDTH
        &&& self.selection_row().height_spec() == 1
        &&& 0 <= self.active_player_spec() < 2
        &&& 0 <= self.active_column() < BOARD_WIDTH
        &&& self.selection_shows(self.active_column(), self.active_color())
    }

    /// Whether the rest of the game is the same in `self` and `other`:
    /// everything but the board.
    pub open spec fn same_turn(&self, other: &Game) -> bool {
        &&& self.selection_row() == other.selection_row()
        &&& self.active_player_spec() == other.active_player_spec()
        &&& self.active_column() == other.active_column()
        &&& self.same_colors(other)
    }

    /// Whether the colours of the players and of the background are the same
    /// in `self` and `other`.
    pub open spec fn same_colors(&self, other: &Game) -> bool {
        &&& self.player_color(0) == other.player_color(0)
        &&& self.player_color(1) == other.player_color(1)
        &&& self.background_spec() == other.background_spec()
    }

    /// A new game: the board is free, the first player is to move and the
    /// middle column is selected.
    pub fn new(player1_color: Color, player2_color: Color, board_color: Color) -> (g: Self)
        ensures
            g.wf(),
            g.player_color(0) == player1_color,
            g.player_color(1) == player2_color,
            g.background_spec() == board_color,
            g.active_player_spec() == 0,
            g.active_column() == START_COLUMN,
            forall|x: int, y: int|
                g.board().contains(x, y) ==> #[trigger] g.board().cell(x, y) == board_color,
    {
        let players = [player1_color, player2_color];
        let active_player = 0usize;
        let grid = Grid::<Color>::new(board_color, BOARD_WIDTH, BOARD_HEIGHT);
        let active_selection = START_COLUMN;
        let mut selection = Grid::<Color>::new(board_color, BOARD_WIDTH, 1);
        *selection.at_mut(active_selection, 0) = player1_color;

        let g = Self {
            players,
            active_player,
            grid,
            background: board_color,
            selection,
            active_selection,
        };
        proof {
            assert forall|x: int, y: int| g.board().contains(x, y) implies #[trigger] g.board().cell(
                x,
                y,
            ) == board_color by {
                g.board().lemma_index_of(x, y);
            }
        }
        g
    }

    /// Moves the selection one column to the left, from the first column to
    /// the last.
    pub fn move_selection_left(&mut self)
        requires
            old(self).wf(),
        ensures
            final(self).wf(),
            final(self).active_column() == (if old(self).active_column() > 0 {
                old(self).active_column() - 1
            } else {
                BOARD_WIDTH - 1
            }),
            final(self).board() == old(self).board(),
            final(self).active_player_spec() == old(self).active_player_spec(),
            final(self).same_colors(old(self)),
    {
        let mut new_index = self.selection.width() - 1;
        if self.active_selection > 0usize {
            new_index = self.active_selection - 1;
        }
        self.move_selection(new_index);
    }

    /// Moves the selection one column to the right, from the last column to
    /// the first.
    pub fn move_selection_right(&mut self)
        requires
            old(self).wf(),
        ensures
            final(self).wf(),
            final(self).active_column() == (if old(self).active_column() < BOARD_WIDTH - 1 {
                old(self).active_column() + 1
            } else {
                0
            }),
            final(self).board() == old(self).board(),
            final(self).active_player_spec() == old(self).active_player_spec(),
            final(self).same_colors(old(self)),
    {
        let mut new_index = 0usize;
        if self.active_selection < self.selection.width() - 1 {
            new_index = self.active_selection + 1;
        }
        self.move_selection(new_index);
    }

    /// Clears the selected column of the selection row and selects
    /// `new_index` for the active player instead.
    fn move_selection(&mut self, new_index: usize)
        requires
            old(self).board().wf(),
            old(self).board().width_spec() == BOARD_WIDTH,
            old(self).board().height_spec() == BOARD_HEIGHT,
            old(self).selection_row().wf(),
            old(self).selection_row().width_spec() == BOARD_WIDTH,
            old(self).selection_row().height_spec() == 1,
            0 <= old(self).active_player_spec() < 2,
            0 <= old(self).active_column() < BOARD_WIDTH,
            exists|c: Color| old(self).selection_shows(old(self).active_column(), c),
            new_index < BOARD_WIDTH,
        ensures
            final(self).wf(),
            final(self).active_column() == new_index,
            final(self).board() == old(self).board(),
            final(self).active_player_spec() == old(self).active_player_spec(),
            final(self).same_colors(old(self)),
    {
        let ghost before = *self.selection_row();
        let ghost shown = choose|c: Color| self.selection_shows(self.active_column(), c);
        proof {
            before.lemma_index_of(self.active_column(), 0);
            before.lemma_index_of(new_index as int, 0);
        }
        *self.selection.at_mut(self.active_selection, 0) = self.background;
        *self.selection.at_mut(new_index, 0) = self.players[self.active_player];
        self.active_selection = new_index;
        proof {
            let after = *self.selection_row();
            assert forall|x: int| 0 <= x < BOARD_WIDTH implies #[trigger] after.cell(x, 0) == (if x
                == new_index {
                self.active_color()
            } else {
                self.background_spec()
            }) by {
                assert(before.cell(x, 0) == (if x == old(self).active_column() {
                    shown
                } else {
                    self.background_spec()
                }));
            }
        }
    }

    /// Drops the active player's piece into the selected column. The piece
    /// comes to rest in the column's landing row; the result tells whether it
    /// completes four in a row.
    pub fn drop_selected(&mut self) -> (won: bool)
        requires
            old(self).wf(),
            old(self).can_drop(),
        ensures
            final(self).wf(),
            final(self).same_turn(old(self)),
            final(self).board().width_spec() == old(self).board().width_spec(),
            final(self).board().height_spec() == old(self).board().height_spec(),
            0 <= landing_row(old(self).board(), old(self).background_spec(), old(self).active_column())
                < BOARD_HEIGHT,
            final(self).board()@ == old(self).board()@.update(
                old(self).board().index_of(
                    old(self).active_column(),
                    landing_row(
                        old(self).board(),
                        old(self).background_spec(),
                        old(self).active_column(),
                    ),
                ),
                old(self).active_color(),
            ),
            won == wins_at(
                final(self).board(),
                old(self).active_column(),
                landing_row(old(self).board(), old(self).background_spec(), old(self).active_column()),
            ),
    {
        let x = self.active_selection;
        let mut y_final = self.grid.height() - 1;

        let mut y: usize = 0;
        while y < self.grid.height()
            invariant_except_break
                y <= BOARD_HEIGHT,
                y_final == BOARD_HEIGHT - 1,
                first_piece(self.board(), self.background_spec(), x as int, 0) == first_piece(
                    self.board(),
                    self.background_spec(),
                    x as int,
                    y as int,
                ),
            invariant
                self.wf(),
                *self == *old(self),
                x == self.active_column(),
                self.board().cell(x as int, 0) == self.background_spec(),
            ensures
                y_final < BOARD_HEIGHT,
                y_final == landing_row(self.board(), self.background_spec(), x as int),
            decreases BOARD_HEIGHT - y,
        {
            proof {
                self.board().lemma_index_in_range(x as int, y as int);
            }
            if !same_color(self.grid.at(x, y), &self.background) {
                y_final = y - 1;
                break ;
            }
            y += 1;
        }

        proof {
            self.board().lemma_index_of(x as int, y_final as int);
        }
        *self.grid.at_mut(x, y_final) = self.players[self.active_player];

        check_winner(&self.grid, x, y_final)
    }

    /// Hands the turn to the other player and puts the selection back to the
    /// middle column.
    pub fn switch_player(&mut self)
        requires
            old(self).wf(),
        ensures
            final(self).wf(),
            final(self).active_player_spec() == 1 - old(self).active_player_spec(),
            final(self).active_column() == START_COLUMN,
            final(self).board() == old(self).board(),
            final(self).same_colors(old(self)),
    {
        self.active_player += 1;
        if self.active_player >= self.players.len() {
            self.active_player = 0;
        }
        assert(self.selection_shows(self.active_column(), old(self).active_color()));
        self.move_selection(START_COLUMN);
    }

    /// Whether the selected column has room for a piece: its top cell is
    /// free.
    pub open spec fn can_drop(&self) -> bool {
        self.board().cell(self.active_column(), 0) == self.background_spec()
    }

    pub fn can_drop_selected(&self) -> (can: bool)
        requires
            self.wf(),
        ensures
            can == self.can_drop(),
    {
        proof {
            self.board().lemma_index_in_range(self.active_column(), 0);
        }
        same_color(self.grid.at(self.active_selection, 0), &self.background)
    }

    /// The colour shown at column `x`, row `y` of the board.
    pub fn board_cell(&self, x: usize, y: usize) -> (c: Color)
        requires
            self.wf(),
            x < BOARD_WIDTH,
            y < BOARD_HEIGHT,
        ensures
            c == self.board().cell(x as int, y as int),
    {
        proof {
            self.board().lemma_index_in_range(x as int, y as int);
        }
        *self.grid.at(x, y)
    }

    /// The colour shown at column `x` of the selection row.
    pub fn selection_cell(&self, x: usize) -> (c: Color)
        requires
            self.wf(),
            x < BOARD_WIDTH,
        ensures
            c == self.selection_row().cell(x as int, 0),
    {
        proof {
            self.selection_row().lemma_index_in_range(x as int, 0);
        }
        *self.selection.at(x, 0)
    }
}

/// The control sequence that moves the cursor to column `x`, row `y`, both
/// counted from 1.
pub open spec fn goto_text(x: u16, y: u16) -> Seq<char> {
    "\x1B["@ + decimal(y as nat) + ";"@ + decimal(x as nat) + "H"@
}

/// The control sequence that clears the line the cursor is in.
pub open spec fn clear_line_text() -> Seq<char> {
    "\x1B[2K"@
}

/// The control sequence that makes `c` the colour of what is written next.
pub open spec fn foreground_text(c: Color) -> Seq<char> {
    "\x1B[38;2;"@ + decimal(c.0 as nat) + ";"@ + decimal(c.1 as nat) + ";"@ + decimal(c.2 as nat)
        + "m"@
}

/// The mark that stands for a cell, with a blank on either side.
pub open spec fn cell_mark() -> Seq<char> {
    " \u{201a}\u{f3}\u{e8} "@
}

/// `termion`'s conversion of `termion::cursor::Goto(x, y)` into a `String`:
/// the escape character and `[`, the row in decimal, `;`, the column in
/// decimal, `H`.
#[verifier::external_body]
fn goto_sequence(x: u16, y: u16) -> (s: String)
    ensures
        s@ == goto_text(x, y),
{
    String::from(termion::cursor::Goto(x, y))
}

/// `termion::clear::CurrentLine` as a string slice: the escape character
/// and `[2K`.
#[verifier::external_body]
fn clear_line_sequence() -> (s: &'static str)
    ensures
        s@ == clear_line_text(),
{
    termion::clear::CurrentLine.as_ref()
}

/// `termion::color::Rgb::fg_string`: the escape character and `[38;2;`, then
/// red, green and blue in decimal with `;` between them, then `m`.
#[verifier::external_body]
fn foreground_sequence(c: Color) -> (s: String)
    ensures
        s@ == foreground_text(c),
{
    termion::color::Rgb(c.0, c.1, c.2).fg_string()
}

/// What shows the first `n` cells of row `y`: for every cell its colour and
/// the mark.
pub open spec fn cells_text(cells: &Grid<Color>, y: int, n: nat) -> Seq<char>
    decreases n,
{
    if n == 0 {
        Seq::empty()
    } else {
        cells_text(cells, y, (n - 1) as nat) + foreground_text(cells.cell(n - 1, y)) + cell_mark()
    }
}

/// The terminal line on which row `row_index` of a grid is shown, when the
/// grid begins `offset` lines below the first line. Rows are shown on every
/// second line.
pub open spec fn terminal_line(row_index: u16, offset: u16) -> int {
    1 + row_index * 2 + offset
}

/// What shows row `row_index` of `cells`: the cursor goes to the row's
/// line, the line is cleared, and the cells are written.
pub open spec fn row_text(cells: &Grid<Color>, row_index: u16, offset: u16) -> Seq<char> {
    goto_text(1, terminal_line(row_index, offset) as u16) + clear_line_text() + cells_text(
        cells,
        row_index as int,
        cells.width_spec(),
    )
}

/// What shows the first `n` rows of `cells`.
pub open spec fn rows_text(cells: &Grid<Color>, offset: u16, n: nat) -> Seq<char>
    decreases n,
{
    if n == 0 {
        Seq::empty()
    } else {
        rows_text(cells, offset, (n - 1) as nat) + row_text(cells, (n - 1) as u16, offset)
    }
}

/// Writes what shows row `row_index` of `cells` to `out`.
pub fn print_row(out: &mut String, cells: &Grid<Color>, row_index: u16, offset: u16)
    requires
        cells.wf(),
        row_index < cells.height_spec(),
        terminal_line(row_index, offset) <= u16::MAX,
    ensures
        final(out)@ == old(out)@ + row_text(cells, row_index, offset),
{
    let line = goto_sequence(1, 1 + row_index * 2 + offset);
    out.append(line.as_str());
    out.append(clear_line_sequence());

    let ghost start = out@;
    let mut i: usize = 0;
    while i < cells.width()
        invariant
            cells.wf(),
            row_index < cells.height_spec(),
            i <= cells.width_spec(),
            out@ == start + cells_text(cells, row_index as int, i as nat),
        decreases cells.width_spec() - i,
    {
        proof {
            cells.lemma_index_in_range(i as int, row_index as int);
        }
        let ghost before = out@;
        let colour = foreground_sequence(*cells.at(i, row_index as usize));
        out.append(colour.as_str());
        out.append(" \u{201a}\u{f3}\u{e8} ");
        i += 1;
        assert(out@ =~= start + cells_text(cells, row_index as int, i as nat));
    }
    assert(out@ =~= old(out)@ + row_text(cells, row_index, offset));
}

/// Writes what shows all rows of `cells` to `out`, from the first row down.
pub fn print_grid(out: &mut String, cells: &Grid<Color>, offset: u16)
    requires
        cells.wf(),
        cells.height_spec() > 0 ==> cells.height_spec() * 2 + offset - 1 <= u16::MAX,
    ensures
        final(out)@ == old(out)@ + rows_text(cells, offset, cells.height_spec()),
{
    let mut i: usize = 0;
    while i < cells.height()
        invariant
            cells.wf(),
            cells.height_spec() > 0 ==> cells.height_spec() * 2 + offset - 1 <= u16::MAX,
            i <= cells.height_spec(),
            out@ == old(out)@ + rows_text(cells, offset, i as nat),
        decreases cells.height_spec() - i,
    {
        print_row(out, cells, i as u16, offset);
        i += 1;
        assert(out@ =~= old(out)@ + rows_text(cells, offset, i as nat));
    }
}

impl Game {
    /// What shows the game: the selection row on the first line, the board
    /// from the third line on.
    pub open spec fn board_text(&self) -> Seq<char> {
        rows_text(self.selection_row(), 0, 1) + rows_text(self.board(), 2, BOARD_HEIGHT as nat)
    }

    /// Writes what shows the game to `out`.
    pub fn print_board(&self, out: &mut String)
        requires
            self.wf(),
        ensures
            final(out)@ == old(out)@ + self.board_text(),
    {
        print_grid(out, &self.selection, 0u16);
        print_grid(out, &self.grid, 2u16);
        assert(final(out)@ =~= old(out)@ + self.board_text());
    }
}

} // verus!
