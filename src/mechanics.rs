//! The single-player rules that move the active piece over a participant's
//! own board: collision, movement, rotation, landing and line clearing.
use vstd::prelude::*;

use crate::playerstate::{
    blocks_of, cell_index, cell_of_shape, shape_blocks, spawn_pos, spec_cell_of_shape, Cell,
    PlayerState, PlayerStateView, Shape, COLS, ROWS,
};

verus! {

/// Block `k` of the piece `s` at rotation `rot`, placed with its frame at row
/// `r` and column `c`, lies on the board over an empty cell.
pub open spec fn block_fits(board: Seq<Cell>, s: Shape, rot: int, r: int, c: int, k: int) -> bool {
    let (i, j) = shape_blocks(s, rot)[k];
    &&& 0 <= r + i < ROWS
    &&& 0 <= c + j < COLS
    &&& board[cell_index(r + i, c + j)] == Cell::E
}

/// The piece `s` at rotation `rot` fits with its frame at row `r`, column `c`.
pub open spec fn fits(board: Seq<Cell>, s: Shape, rot: int, r: int, c: int) -> bool {
    forall|k: int| 0 <= k < 4 ==> #[trigger] block_fits(board, s, rot, r, c, k)
}

/// `board` with block `k` of the piece written in the piece's colour, where
/// that block lies on the board.
pub open spec fn place_block(board: Seq<Cell>, s: Shape, rot: int, r: int, c: int, k: int) -> Seq<
    Cell,
> {
    let (i, j) = shape_blocks(s, rot)[k];
    if 0 <= r + i < ROWS && 0 <= c + j < COLS {
        board.update(cell_index(r + i, c + j), spec_cell_of_shape(s))
    } else {
        board
    }
}

/// `board` with the first `n` blocks of the piece written.
pub open spec fn place_blocks(board: Seq<Cell>, s: Shape, rot: int, r: int, c: int, n: nat) -> Seq<
    Cell,
>
    decreases n,
{
    if n == 0 {
        board
    } else {
        place_block(place_blocks(board, s, rot, r, c, (n - 1) as nat), s, rot, r, c, n - 1)
    }
}

/// Every cell of row `r` is filled.
pub open spec fn row_full(board: Seq<Cell>, r: int) -> bool {
    forall|c: int| 0 <= c < COLS ==> #[trigger] board[cell_index(r, c)] != Cell::E
}

/// `board` with every row from `line` up to the one below the top moved down
/// by one; the top row stays as it is.
pub open spec fn delete_row(board: Seq<Cell>, line: int) -> Seq<Cell> {
    Seq::new(
        board.len(),
        |p: int|
            if cell_index(line, 0) <= p < cell_index(ROWS - 1, 0) {
                board[p + COLS]
            } else {
                board[p]
            },
    )
}

/// Line clearing from the `i`-th row counted from the top downwards: each
/// full row met is deleted. Returns the board and the number of rows deleted.
pub open spec fn clear_rows_from(board: Seq<Cell>, i: int) -> (Seq<Cell>, nat)
    decreases ROWS - i,
{
    if i >= ROWS || i < 0 {
        (board, 0)
    } else if row_full(board, ROWS - 1 - i) {
        let (b, n) = clear_rows_from(delete_row(board, ROWS - 1 - i), i + 1);
        (b, n + 1)
    } else {
        clear_rows_from(board, i + 1)
    }
}

/// Four to the power `n`.
pub open spec fn pow4(n: nat) -> nat
    decreases n,
{
    if n == 0 {
        1
    } else {
        4 * pow4((n - 1) as nat)
    }
}

/// The points for clearing `n` rows at once: four to the power `n`, capped
/// at the largest score.
pub open spec fn line_points(n: nat) -> u32 {
    if pow4(n) > u32::MAX {
        u32::MAX
    } else {
        pow4(n) as u32
    }
}

/// The state after the active piece lands where it stands: it is written to
/// the board, full rows are cleared and scored, and the next piece will
/// appear at the spawn position.
pub open spec fn landed(v: PlayerStateView) -> PlayerStateView {
    let b = place_blocks(v.board, v.tetromino.0, v.tetromino.1 as int, v.tetro_pos.0 as int, v.tetro_pos.1 as int, 4);
    let (cleared, n) = clear_rows_from(b, 0);
    PlayerStateView {
        board: cleared,
        score: v.score.saturating_add(line_points(n)),
        tetro_pos: spawn_pos(),
        ..v
    }
}

/// A piece that fits lies with its frame at most one cell outside the board,
/// since every shape covers the second cell of the second row of its frame.
pub proof fn lemma_fits_bounds(board: Seq<Cell>, s: Shape, rot: int, r: int, c: int)
    requires
        fits(board, s, rot, r, c),
    ensures
        -1 <= r <= ROWS - 2,
        -1 <= c <= COLS - 2,
{
    assert(block_fits(board, s, rot, r, c, 0));
    assert(block_fits(board, s, rot, r, c, 1));
    assert(block_fits(board, s, rot, r, c, 2));
    assert(block_fits(board, s, rot, r, c, 3));
}

impl PlayerState {
    /// Whether the active piece, moved by `dr` rows and `dc` columns, would
    /// leave the board or overlap a filled cell.
    fn collision(&self, dr: i8, dc: i8) -> (r: bool)
        requires
            self@.board_wf(),
            self.tetromino.1 < 4,
            -3 <= self.tetro_pos.0 <= ROWS + 1,
            -3 <= self.tetro_pos.1 <= COLS + 1,
            -1 <= dr <= 1,
            -1 <= dc <= 1,
        ensures
            r == !fits(
                self.board@,
                self.tetromino.0,
                self.tetromino.1 as int,
                self.tetro_pos.0 + dr,
                self.tetro_pos.1 + dc,
            ),
    {
        let nr: i8 = self.tetro_pos.0 + dr;
        let nc: i8 = self.tetro_pos.1 + dc;
        let blocks = blocks_of(self.tetromino.0, self.tetromino.1);
        let mut k: usize = 0;
        while k < 4
            invariant
                k <= 4,
                self@.board_wf(),
                nr == self.tetro_pos.0 + dr,
                nc == self.tetro_pos.1 + dc,
                -4 <= nr <= ROWS + 2,
                -4 <= nc <= COLS + 2,
                forall|q: int|
                    0 <= q < 4 ==> (#[trigger] blocks@[q]).0 as int == shape_blocks(
                        self.tetromino.0,
                        self.tetromino.1 as int,
                    )[q].0 && blocks@[q].1 as int == shape_blocks(
                        self.tetromino.0,
                        self.tetromino.1 as int,
                    )[q].1,
                forall|q: int|
                    0 <= q < k ==> #[trigger] block_fits(
                        self.board@,
                        self.tetromino.0,
                        self.tetromino.1 as int,
                        nr as int,
                        nc as int,
                        q,
                    ),
            decreases 4 - k,
        {
            let (i, j) = blocks[k];
            assert(0 <= i <= 3 && 0 <= j <= 3);
            let rr: i8 = nr + i;
            let cc: i8 = nc + j;
            if rr < 0 || rr >= ROWS as i8 || cc < 0 || cc >= COLS as i8 {
                assert(!block_fits(self.board@, self.tetromino.0, self.tetromino.1 as int, nr as int, nc as int, k as int));
                return true;
            }
            if self.board[rr as usize * COLS + cc as usize] != Cell::E {
                assert(!block_fits(self.board@, self.tetromino.0, self.tetromino.1 as int, nr as int, nc as int, k as int));
                return true;
            }
            k = k + 1;
        }
        false
    }
    /// Turns the active piece to its next rotation, unless it would not fit
    /// there; ignored while paused.
    pub fn rotate_tetromino(&mut self)
        requires
            old(self)@.wf(),
        ensures
            final(self)@.wf(),
            old(self).paused ==> final(self)@ == old(self)@,
            !old(self).paused ==> final(self)@ == (if fits(
                old(self).board@,
                old(self).tetromino.0,
                (old(self).tetromino.1 + 1) % 4,
                old(self).tetro_pos.0 as int,
                old(self).tetro_pos.1 as int,
            ) {
                PlayerStateView {
                    tetromino: (old(self).tetromino.0, ((old(self).tetromino.1 + 1) % 4) as usize),
                    ..old(self)@
                }
            } else {
                old(self)@
            }),
    {
        if !self.paused {
            self.tetromino.1 = (self.tetromino.1 + 1) % 4;
            if self.collision(0, 0) {
                self.tetromino.1 = (self.tetromino.1 + 3) % 4;
            }
        }
    }

    /// Moves the active piece one column towards column 0, unless it would
    /// not fit there; ignored while paused.
    pub fn move_right(&mut self)
        requires
            old(self)@.wf(),
        ensures
            final(self)@.wf(),
            old(self).paused ==> final(self)@ == old(self)@,
            !old(self).paused ==> final(self)@ == (if fits(
                old(self).board@,
                old(self).tetromino.0,
                old(self).tetromino.1 as int,
                old(self).tetro_pos.0 as int,
                old(self).tetro_pos.1 - 1,
            ) {
                PlayerStateView {
                    tetro_pos: (old(self).tetro_pos.0, (old(self).tetro_pos.1 - 1) as i8),
                    ..old(self)@
                }
            } else {
                old(self)@
            }),
    {
        if !self.paused {
            self.tetro_pos.1 = self.tetro_pos.1 - 1;
            if self.collision(0, 0) {
                self.tetro_pos.1 = self.tetro_pos.1 + 1;
            } else {
                proof {
                    lemma_fits_bounds(
                        self.board@,
                        self.tetromino.0,
                        self.tetromino.1 as int,
                        self.tetro_pos.0 as int,
                        self.tetro_pos.1 as int,
                    );
                }
            }
        }
    }

    /// Moves the active piece one column away from column 0, unless it would
    /// not fit there; ignored while paused.
    pub fn move_left(&mut self)
        requires
            old(self)@.wf(),
        ensures
            final(self)@.wf(),
            old(self).paused ==> final(self)@ == old(self)@,
            !old(self).paused ==> final(self)@ == (if fits(
                old(self).board@,
                old(self).tetromino.0,
                old(self).tetromino.1 as int,
                old(self).tetro_pos.0 as int,
                old(self).tetro_pos.1 + 1,
            ) {
                PlayerStateView {
                    tetro_pos: (old(self).tetro_pos.0, (old(self).tetro_pos.1 + 1) as i8),
                    ..old(self)@
                }
            } else {
                old(self)@
            }),
    {
        if !self.paused {
            self.tetro_pos.1 = self.tetro_pos.1 + 1;
            if self.collision(0, 0) {
                self.tetro_pos.1 = self.tetro_pos.1 - 1;
            } else {
                proof {
                    lemma_fits_bounds(
                        self.board@,
                        self.tetromino.0,
                        self.tetromino.1 as int,
                        self.tetro_pos.0 as int,
                        self.tetro_pos.1 as int,
                    );
                }
            }
        }
    }

    /// Lowers the active piece row by row for as long as it fits one row
    /// lower; ignored while paused.
    pub fn drop(&mut self)
        requires
            old(self)@.wf(),
        ensures
            final(self)@.wf(),
            old(self).paused ==> final(self)@ == old(self)@,
            !old(self).paused ==> {
                let v = old(self)@;
                let low = final(self).tetro_pos.0 as int;
                &&& final(self)@ == (PlayerStateView {
                    tetro_pos: (final(self).tetro_pos.0, v.tetro_pos.1),
                    ..v
                })
                &&& low <= v.tetro_pos.0
                &&& forall|r: int|
                    low <= r < v.tetro_pos.0 ==> #[trigger] fits(
                        v.board,
                        v.tetromino.0,
                        v.tetromino.1 as int,
                        r,
                        v.tetro_pos.1 as int,
                    )
                &&& !fits(v.board, v.tetromino.0, v.tetromino.1 as int, low - 1, v.tetro_pos.1 as int)
            },
    {
        if !self.paused {
            while !self.collision(-1, 0)
                invariant
                    self@.wf(),
                    !old(self).paused,
                    self@ == (PlayerStateView {
                        tetro_pos: (self.tetro_pos.0, old(self).tetro_pos.1),
                        ..old(self)@
                    }),
                    self.tetro_pos.0 <= old(self).tetro_pos.0,
                    forall|r: int|
                        self.tetro_pos.0 <= r < old(self).tetro_pos.0 ==> #[trigger] fits(
                            old(self).board@,
                            old(self).tetromino.0,
                            old(self).tetromino.1 as int,
                            r,
                            old(self).tetro_pos.1 as int,
                        ),
                decreases self.tetro_pos.0 + 3,
            {
                proof {
                    lemma_fits_bounds(
                        self.board@,
                        self.tetromino.0,
                        self.tetromino.1 as int,
                        self.tetro_pos.0 - 1,
                        self.tetro_pos.1 as int,
                    );
                }
                self.tetro_pos.0 = self.tetro_pos.0 - 1;
            }
        }
    }
    /// Writes the active piece into the board where it stands, in its colour;
    /// blocks that lie off the board are left out.
    fn tetro_to_board(&mut self)
        requires
            old(self)@.wf(),
        ensures
            final(self)@ == (PlayerStateView {
                board: place_blocks(
                    old(self).board@,
                    old(self).tetromino.0,
                    old(self).tetromino.1 as int,
                    old(self).tetro_pos.0 as int,
                    old(self).tetro_pos.1 as int,
                    4,
                ),
                ..old(self)@
            }),
            final(self)@.wf(),
    {
        let s = self.tetromino.0;
        let rot = self.tetromino.1;
        let r0 = self.tetro_pos.0;
        let c0 = self.tetro_pos.1;
        let colour = cell_of_shape(s);
        let blocks = blocks_of(s, rot);
        let mut k: usize = 0;
        while k < 4
            invariant
                k <= 4,
                self@ == (PlayerStateView {
                    board: place_blocks(old(self).board@, s, rot as int, r0 as int, c0 as int, k as nat),
                    ..old(self)@
                }),
                self.board@.len() == ROWS * COLS,
                -2 <= r0 <= ROWS,
                -2 <= c0 <= COLS,
                colour == spec_cell_of_shape(s),
                forall|q: int|
                    0 <= q < 4 ==> (#[trigger] blocks@[q]).0 as int == shape_blocks(s, rot as int)[q].0
                        && blocks@[q].1 as int == shape_blocks(s, rot as int)[q].1,
            decreases 4 - k,
        {
            let (i, j) = blocks[k];
            assert(0 <= i <= 3 && 0 <= j <= 3);
            let rr: i8 = r0 + i;
            let cc: i8 = c0 + j;
            if 0 <= rr && rr < ROWS as i8 && 0 <= cc && cc < COLS as i8 {
                self.board.set(rr as usize * COLS + cc as usize, colour);
            }
            k = k + 1;
        }
    }

    /// Deletes row `line`: every row above it, but the top one, moves down by
    /// one.
    fn delete_line(&mut self, line: usize)
        requires
            old(self)@.board_wf(),
            line < ROWS,
        ensures
            final(self)@ == (PlayerStateView {
                board: delete_row(old(self).board@, line as int),
                ..old(self)@
            }),
    {
        let mut p: usize = line * COLS;
        while p < (ROWS - 1) * COLS
            invariant
                line < ROWS,
                line * COLS <= p <= (ROWS - 1) * COLS,
                self.board@.len() == ROWS * COLS,
                self@ == (PlayerStateView { board: self.board@, ..old(self)@ }),
                forall|q: int|
                    0 <= q < ROWS * COLS ==> #[trigger] self.board@[q] == if line * COLS <= q < p {
                        old(self).board@[q + COLS]
                    } else {
                        old(self).board@[q]
                    },
            decreases (ROWS - 1) * COLS - p,
        {
            let v = self.board[p + COLS];
            self.board.set(p, v);
            p = p + 1;
        }
        assert(self.board@ == delete_row(old(self).board@, line as int));
    }

    /// Whether every cell of row `r` is filled.
    fn line_full(&self, r: usize) -> (full: bool)
        requires
            self@.board_wf(),
            r < ROWS,
        ensures
            full == row_full(self.board@, r as int),
    {
        let mut full = true;
        let mut j: usize = 0;
        while j < COLS
            invariant
                j <= COLS,
                r < ROWS,
                self@.board_wf(),
                full == forall|c: int| 0 <= c < j ==> #[trigger] self.board@[cell_index(r as int, c)] != Cell::E,
            decreases COLS - j,
        {
            let filled = self.board[r * COLS + j] != Cell::E;
            assert(filled == (self.board@[cell_index(r as int, j as int)] != Cell::E));
            if !filled {
                full = false;
            }
            j = j + 1;
        }
        full
    }

    /// Deletes the full rows, from the top row downwards, and adds the
    /// points for them to the score.
    fn clear_lines(&mut self)
        requires
            old(self)@.board_wf(),
        ensures
            ({
                let (b, n) = clear_rows_from(old(self).board@, 0);
                final(self)@ == (PlayerStateView {
                    board: b,
                    score: old(self).score.saturating_add(line_points(n)),
                    ..old(self)@
                })
            }),
            final(self)@.board_wf(),
    {
        let ghost total = clear_rows_from(old(self).board@, 0);
        let mut lines: u32 = 0;
        let mut i: usize = 0;
        while i < ROWS
            invariant
                i <= ROWS,
                lines <= i,
                self@.board_wf(),
                self@ == (PlayerStateView { board: self.board@, ..old(self)@ }),
                clear_rows_from(self.board@, i as int).0 == total.0,
                clear_rows_from(self.board@, i as int).1 + lines == total.1,
            decreases ROWS - i,
        {
            let r = ROWS - i - 1;
            if self.line_full(r) {
                lines = lines + 1;
                self.delete_line(r);
            }
            i = i + 1;
        }
        let mut points: u64 = 1;
        let mut k: u32 = 0;
        while k < lines
            invariant
                k <= lines,
                points == if pow4(k as nat) > u32::MAX { u32::MAX as nat } else { pow4(k as nat) },
            decreases lines - k,
        {
            points = if points * 4 > u32::MAX as u64 { u32::MAX as u64 } else { points * 4 };
            k = k + 1;
        }
        self.score = self.score.saturating_add(points as u32);
    }

    /// Lowers the active piece by one row; where it does not fit there, it
    /// lands instead (see `landed`) and the next piece comes in. Ignored while
    /// paused.
    pub fn move_down(&mut self)
        requires
            old(self)@.wf(),
        ensures
            final(self)@.wf(),
            old(self).paused ==> final(self)@ == old(self)@,
            !old(self).paused && fits(
                old(self).board@,
                old(self).tetromino.0,
                old(self).tetromino.1 as int,
                old(self).tetro_pos.0 - 1,
                old(self).tetro_pos.1 as int,
            ) ==> final(self)@ == (PlayerStateView {
                tetro_pos: ((old(self).tetro_pos.0 - 1) as i8, old(self).tetro_pos.1),
                ..old(self)@
            }),
            !old(self).paused && !fits(
                old(self).board@,
                old(self).tetromino.0,
                old(self).tetromino.1 as int,
                old(self).tetro_pos.0 - 1,
                old(self).tetro_pos.1 as int,
            ) ==> exists|s: Shape| final(self)@ == landed(old(self)@).advanced(s),
    {
        if !self.paused {
            self.tetro_pos.0 = self.tetro_pos.0 - 1;
            if self.collision(0, 0) {
                self.tetro_pos.0 = self.tetro_pos.0 + 1;
                self.tetro_to_board();
                self.clear_lines();
                self.tetro_pos = ((ROWS - 3) as i8, (COLS / 2 - 1) as i8);
                let ghost mid = self@;
                assert(mid == landed(old(self)@));
                self.new_tetromino();
                proof {
                    let s = choose|s: Shape| self@ == mid.advanced(s);
                    assert(self@ == landed(old(self)@).advanced(s));
                }
            } else {
                proof {
                    lemma_fits_bounds(
                        self.board@,
                        self.tetromino.0,
                        self.tetromino.1 as int,
                        self.tetro_pos.0 as int,
                        self.tetro_pos.1 as int,
                    );
                }
            }
        }
    }
}

} // verus!
