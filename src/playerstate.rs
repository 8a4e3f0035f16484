//! A participant's snapshot: board, active and upcoming pieces, score and
//! handshake stages, with the piece shapes and the drawing of new pieces.
use vstd::prelude::*;

verus! {

/// Number of rows of a board.
pub const ROWS: usize = 22;

/// Number of columns of a board.
pub const COLS: usize = 10;

/// The content of one board cell: empty, or the colour of the piece that left it.
#[derive(Copy, Clone, Debug, PartialEq, Eq, Structural)]
pub enum Cell {
    E,
    I,
    J,
    L,
    O,
    S,
    T,
    Z,
}

/// The seven piece shapes.
#[derive(Copy, Clone, Debug, PartialEq, Eq, Structural)]
pub enum Shape {
    I,
    J,
    L,
    O,
    S,
    T,
    Z,
}

/// The board colour that a piece of shape `s` leaves behind.
pub open spec fn spec_cell_of_shape(s: Shape) -> Cell {
    match s {
        Shape::I => Cell::I,
        Shape::J => Cell::J,
        Shape::L => Cell::L,
        Shape::O => Cell::O,
        Shape::S => Cell::S,
        Shape::T => Cell::T,
        Shape::Z => Cell::Z,
    }
}

/// The board colour that a piece of shape `s` leaves behind.
pub fn cell_of_shape(s: Shape) -> (r: Cell)
    ensures
        r == spec_cell_of_shape(s),
        r != Cell::E,
{
    match s {
        Shape::I => Cell::I,
        Shape::J => Cell::J,
        Shape::L => Cell::L,
        Shape::O => Cell::O,
        Shape::S => Cell::S,
        Shape::T => Cell::T,
        Shape::Z => Cell::Z,
    }
}

/// The four cells that a piece of shape `s` covers at rotation `rot`, as
/// (row, column) offsets inside its 4 x 4 frame.
pub open spec fn shape_blocks(s: Shape, rot: int) -> Seq<(int, int)> {
    match s {
        Shape::I => if rot % 2 == 0 {
            seq![(0, 1), (1, 1), (2, 1), (3, 1)]
        } else {
            seq![(1, 0), (1, 1), (1, 2), (1, 3)]
        },
        Shape::J => if rot % 4 == 0 {
            seq![(0, 1), (1, 1), (2, 0), (2, 1)]
        } else if rot % 4 == 1 {
            seq![(0, 0), (1, 0), (1, 1), (1, 2)]
        } else if rot % 4 == 2 {
            seq![(0, 1), (0, 2), (1, 1), (2, 1)]
        } else {
            seq![(1, 0), (1, 1), (1, 2), (2, 2)]
        },
        Shape::L => if rot % 4 == 0 {
            seq![(0, 1), (1, 1), (2, 1), (2, 2)]
        } else if rot % 4 == 1 {
            seq![(1, 0), (1, 1), (1, 2), (2, 0)]
        } else if rot % 4 == 2 {
            seq![(0, 0), (0, 1), (1, 1), (2, 1)]
        } else {
            seq![(0, 2), (1, 0), (1, 1), (1, 2)]
        },
        Shape::O => seq![(0, 0), (0, 1), (1, 0), (1, 1)],
        Shape::S => if rot % 2 == 0 {
            seq![(0, 1), (0, 2), (1, 0), (1, 1)]
        } else {
            seq![(0, 0), (1, 0), (1, 1), (2, 1)]
        },
        Shape::T => if rot % 4 == 0 {
            seq![(0, 1), (1, 0), (1, 1), (1, 2)]
        } else if rot % 4 == 1 {
            seq![(0, 1), (1, 1), (1, 2), (2, 1)]
        } else if rot % 4 == 2 {
            seq![(1, 0), (1, 1), (1, 2), (2, 1)]
        } else {
            seq![(0, 1), (1, 0), (1, 1), (2, 1)]
        },
        Shape::Z => if rot % 2 == 0 {
            seq![(0, 0), (0, 1), (1, 1), (1, 2)]
        } else {
            seq![(0, 2), (1, 1), (1, 2), (2, 1)]
        },
    }
}

/// The executable form of `shape_blocks`.
pub(crate) fn blocks_of(s: Shape, rot: usize) -> (r: [(i8, i8); 4])
    ensures
        forall|k: int| 0 <= k < 4 ==> (#[trigger] r@[k]).0 as int == shape_blocks(s, rot as int)[k].0
            && r@[k].1 as int == shape_blocks(s, rot as int)[k].1,
{
    match s {
        Shape::I => if rot % 2 == 0 {
            [(0, 1), (1, 1), (2, 1), (3, 1)]
        } else {
            [(1, 0), (1, 1), (1, 2), (1, 3)]
        },
        Shape::J => if rot % 4 == 0 {
            [(0, 1), (1, 1), (2, 0), (2, 1)]
        } else if rot % 4 == 1 {
            [(0, 0), (1, 0), (1, 1), (1, 2)]
        } else if rot % 4 == 2 {
            [(0, 1), (0, 2), (1, 1), (2, 1)]
        } else {
            [(1, 0), (1, 1), (1, 2), (2, 2)]
        },
        Shape::L => if rot % 4 == 0 {
            [(0, 1), (1, 1), (2, 1), (2, 2)]
        } else if rot % 4 == 1 {
            [(1, 0), (1, 1), (1, 2), (2, 0)]
        } else if rot % 4 == 2 {
            [(0, 0), (0, 1), (1, 1), (2, 1)]
        } else {
            [(0, 2), (1, 0), (1, 1), (1, 2)]
        },
        Shape::O => [(0, 0), (0, 1), (1, 0), (1, 1)],
        Shape::S => if rot % 2 == 0 {
            [(0, 1), (0, 2), (1, 0), (1, 1)]
        } else {
            [(0, 0), (1, 0), (1, 1), (2, 1)]
        },
        Shape::T => if rot % 4 == 0 {
            [(0, 1), (1, 0), (1, 1), (1, 2)]
        } else if rot % 4 == 1 {
            [(0, 1), (1, 1), (1, 2), (2, 1)]
        } else if rot % 4 == 2 {
            [(1, 0), (1, 1), (1, 2), (2, 1)]
        } else {
            [(0, 1), (1, 0), (1, 1), (2, 1)]
        },
        Shape::Z => if rot % 2 == 0 {
            [(0, 0), (0, 1), (1, 1), (1, 2)]
        } else {
            [(0, 2), (1, 1), (1, 2), (2, 1)]
        },
    }
}

/// Where a participant stands in the piece-trade handshake; the payload is
/// the identity of the peer it trades with.
#[derive(Copy, Clone, Debug, PartialEq, Eq, Structural)]
pub enum TradeState {
    NoTrade,
    Pending(usize),
    Confirm(usize),
}

/// Where a participant stands in the board-rotation barrier.
#[derive(Copy, Clone, Debug, PartialEq, Eq, Structural)]
pub enum BoardState {
    Stable,
    Ready,
    Confirm,
}

/// One participant's full game state, the unit that is synchronised.
///
/// The board is stored row-major, row 0 at the bottom: the cell at row `r`
/// and column `c` is `board[r * COLS + c]`.
pub struct PlayerState {
    pub paused: bool,
    pub board: Vec<Cell>,
    pub tetromino: (Shape, usize),
    pub next_tetromino: (Shape, usize, TradeState),
    pub tetro_pos: (i8, i8),
    pub score: u32,
    pub board_state: BoardState,
    pub id: usize,
}

/// The mathematical value of a `PlayerState`.
pub struct PlayerStateView {
    pub paused: bool,
    pub board: Seq<Cell>,
    pub tetromino: (Shape, usize),
    pub next_tetromino: (Shape, usize, TradeState),
    pub tetro_pos: (i8, i8),
    pub score: u32,
    pub board_state: BoardState,
    pub id: usize,
}

impl View for PlayerState {
    type V = PlayerStateView;

    open spec fn view(&self) -> PlayerStateView {
        PlayerStateView {
            paused: self.paused,
            board: self.board@,
            tetromino: self.tetromino,
            next_tetromino: self.next_tetromino,
            tetro_pos: self.tetro_pos,
            score: self.score,
            board_state: self.board_state,
            id: self.id,
        }
    }
}

/// Index of the cell at row `r`, column `c` in a row-major board.
pub open spec fn cell_index(r: int, c: int) -> int {
    r * COLS + c
}

/// The position at which every new piece appears.
pub open spec fn spawn_pos() -> (i8, i8) {
    ((ROWS - 3) as i8, (COLS / 2 - 1) as i8)
}

/// A board with no filled cell.
pub open spec fn empty_board() -> Seq<Cell> {
    Seq::new((ROWS * COLS) as nat, |i: int| Cell::E)
}

/// The state a participant starts a session with.
pub open spec fn initial_state(id: usize) -> PlayerStateView {
    PlayerStateView {
        paused: false,
        board: empty_board(),
        tetromino: (Shape::I, 0),
        next_tetromino: (Shape::I, 0, TradeState::NoTrade),
        tetro_pos: spawn_pos(),
        score: 0,
        board_state: BoardState::Stable,
        id,
    }
}

/// The piece shape that a roll of the random source stands for.
pub open spec fn spec_shape_from_roll(roll: u8) -> Shape {
    if roll == 0 {
        Shape::I
    } else if roll == 1 {
        Shape::J
    } else if roll == 2 {
        Shape::L
    } else if roll == 3 {
        Shape::O
    } else if roll == 4 {
        Shape::S
    } else if roll == 5 {
        Shape::T
    } else if roll == 6 {
        Shape::Z
    } else {
        Shape::I
    }
}

impl PlayerStateView {
    /// The board has its full size.
    pub open spec fn board_wf(self) -> bool {
        self.board.len() == ROWS * COLS
    }

    /// What a participant's own, locally mutated state always satisfies.
    pub open spec fn wf(self) -> bool {
        &&& self.board_wf()
        &&& self.tetromino.1 < 4
        &&& self.next_tetromino.1 < 4
        &&& -2 <= self.tetro_pos.0 <= ROWS
        &&& -2 <= self.tetro_pos.1 <= COLS
    }

    /// `s` is the new upcoming piece, with no trade on it.
    pub open spec fn with_next_shape(self, s: Shape) -> PlayerStateView {
        PlayerStateView { next_tetromino: (s, 0, TradeState::NoTrade), ..self }
    }

    /// The upcoming piece becomes the active one, and `s` is the new
    /// upcoming piece, with no trade on it.
    pub open spec fn advanced(self, s: Shape) -> PlayerStateView {
        PlayerStateView {
            tetromino: (self.next_tetromino.0, self.next_tetromino.1),
            next_tetromino: (s, 0, TradeState::NoTrade),
            ..self
        }
    }
}

/// Relies on rand's `OsRng::new` and `Rng::gen_range`: a value in
/// `0..bound`, or `None` where the operating system's entropy source could
/// not be opened.
#[verifier::external_body]
fn os_roll_below(bound: u8) -> (r: Option<u8>)
    requires
        bound > 0,
    ensures
        r matches Some(v) ==> v < bound,
{
    match rand::OsRng::new() {
        Ok(mut rng) => Some(rand::Rng::gen_range(&mut rng, 0, bound)),
        Err(_) => None,
    }
}

/// Maps a roll in `0..7` to a shape; any other roll gives `Shape::I`.
pub fn shape_from_roll(roll: u8) -> (r: Shape)
    ensures
        r == spec_shape_from_roll(roll),
{
    match roll {
        0 => Shape::I,
        1 => Shape::J,
        2 => Shape::L,
        3 => Shape::O,
        4 => Shape::S,
        5 => Shape::T,
        6 => Shape::Z,
        _ => Shape::I,
    }
}

/// A randomly drawn shape; `Shape::I` where no random source is available.
fn draw_shape() -> Shape {
    match os_roll_below(7) {
        Some(roll) => shape_from_roll(roll),
        None => Shape::I,
    }
}

impl Clone for PlayerState {
    fn clone(&self) -> (r: PlayerState)
        ensures
            r@ == self@,
    {
        let mut board: Vec<Cell> = Vec::new();
        let mut i: usize = 0;
        while i < self.board.len()
            invariant
                i <= self.board.len(),
                board@ == self.board@.subrange(0, i as int),
            decreases self.board.len() - i,
        {
            board.push(self.board[i]);
            i = i + 1;
        }
        assert(board@ == self.board@);
        PlayerState {
            paused: self.paused,
            board,
            tetromino: self.tetromino,
            next_tetromino: self.next_tetromino,
            tetro_pos: self.tetro_pos,
            score: self.score,
            board_state: self.board_state,
            id: self.id,
        }
    }
}

impl PlayerState {
    pub fn new(id: usize) -> (r: PlayerState)
        ensures
            r@ == initial_state(id),
            r@.wf(),
    {
        let mut board: Vec<Cell> = Vec::new();
        while board.len() < ROWS * COLS
            invariant
                board.len() <= ROWS * COLS,
                forall|i: int| 0 <= i < board.len() ==> board@[i] == Cell::E,
            decreases ROWS * COLS - board.len(),
        {
            board.push(Cell::E);
        }
        assert(board@ == empty_board());
        PlayerState {
            paused: false,
            board,
            tetromino: (Shape::I, 0),
            next_tetromino: (Shape::I, 0, TradeState::NoTrade),
            tetro_pos: ((ROWS - 3) as i8, (COLS / 2 - 1) as i8),
            score: 0,
            board_state: BoardState::Stable,
            id,
        }
    }

    /// Draws the first active piece and the first upcoming piece.
    pub fn begin(&mut self)
        ensures
            exists|a: Shape, b: Shape| final(self)@ == old(self)@.with_next_shape(a).advanced(b),
    {
        self.select_next_shape();
        let ghost mid = self@;
        self.new_tetromino();
        proof {
            let a = choose|a: Shape| mid == old(self)@.with_next_shape(a);
            let b = choose|b: Shape| self@ == mid.advanced(b);
            assert(self@ == old(self)@.with_next_shape(a).advanced(b));
        }
    }

    /// Replaces the upcoming piece by a randomly drawn one, with no trade on it.
    fn select_next_shape(&mut self)
        ensures
            exists|s: Shape| final(self)@ == old(self)@.with_next_shape(s),
    {
        let s = draw_shape();
        self.next_tetromino = (s, 0, TradeState::NoTrade);
        assert(self@ == old(self)@.with_next_shape(s));
    }

    /// The upcoming piece becomes the active one; `next` becomes the upcoming one.
    pub fn advance_piece(&mut self, next: Shape)
        ensures
            final(self)@ == old(self)@.advanced(next),
    {
        self.tetromino = (self.next_tetromino.0, self.next_tetromino.1);
        self.next_tetromino = (next, 0, TradeState::NoTrade);
    }

    /// The upcoming piece becomes the active one, and a new upcoming piece is drawn.
    pub fn new_tetromino(&mut self)
        ensures
            exists|s: Shape| final(self)@ == old(self)@.advanced(s),
    {
        let s = draw_shape();
        self.advance_piece(s);
    }
}

} // verus!
