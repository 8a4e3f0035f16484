//! The board-rotation barrier: every participant must leave `Stable`, then
//! leave `Ready`, before each one rotates its board from the preserved states.
use vstd::prelude::*;
use vstd::arithmetic::div_mod::{
    lemma_div_is_ordered, lemma_div_multiples_vanish, lemma_div_pos_is_pos,
    lemma_fundamental_div_mod, lemma_fundamental_div_mod_converse_div,
    lemma_fundamental_div_mod_converse_mod, lemma_mod_pos_bound,
};

use crate::playerstate::{BoardState, Cell, PlayerState, PlayerStateView, Shape, cell_index, COLS, ROWS};

verus! {

/// Why the board transform cannot run.
#[derive(Copy, Clone, Debug, PartialEq, Eq, Structural)]
pub enum RotateError {
    /// No state was preserved.
    NoPreservedStates,
    /// The participant's identity is not below the number of preserved
    /// states, so some donor column would fall left of the board.
    ColumnOutOfRange(usize),
}

/// Which preserved participant gives its column to local column `c`, for
/// participant `id` among `l` preserved states.
pub open spec fn rotation_donor(id: int, l: int, c: int) -> int {
    ((id * COLS) % l + c) % l
}

/// Which column of the donor board feeds local column `c`.
pub open spec fn rotation_column(id: int, l: int, c: int) -> int {
    (COLS - 1) - (id * COLS) / l - ((id * COLS) % l + c) / l
}

/// `b` is the board that participant `id` builds from the `preserved` states:
/// each cell at row `r`, column `c` is the cell at row `r` and column
/// `rotation_column` of the board of preserved participant `rotation_donor`.
pub open spec fn is_rotated_board(b: Seq<Cell>, preserved: Seq<PlayerState>, id: int) -> bool {
    &&& b.len() == ROWS * COLS
    &&& forall|r: int, c: int|
        0 <= r < ROWS && 0 <= c < COLS ==> #[trigger] b[cell_index(r, c)]
            == preserved[rotation_donor(id, preserved.len() as int, c)].board@[cell_index(
            r,
            rotation_column(id, preserved.len() as int, c),
        )]
}

/// Every preserved board has its full size.
pub open spec fn boards_wf(states: Seq<PlayerState>) -> bool {
    forall|k: int| 0 <= k < states.len() ==> (#[trigger] states[k])@.board_wf()
}

/// For a participant among the `l` preserved ones, every local column has a
/// donor among them and a donor column on the board.
pub proof fn lemma_rotation_in_range(id: int, l: int, c: int)
    requires
        0 <= id < l,
        0 <= c < COLS,
    ensures
        0 <= rotation_donor(id, l, c) < l,
        0 <= rotation_column(id, l, c) < COLS,
{
    let x = id * COLS;
    lemma_fundamental_div_mod(x, l);
    lemma_mod_pos_bound(x, l);
    lemma_div_pos_is_pos(x, l);
    let co = x / l;
    let ss = x % l;
    lemma_fundamental_div_mod(ss + c, l);
    lemma_mod_pos_bound(ss + c, l);
    lemma_div_pos_is_pos(ss + c, l);
    let q = (ss + c) / l;
    let rem = (ss + c) % l;
    assert(x + c < COLS * l);
    assert((co + q) * l <= x + c) by (nonlinear_arith)
        requires
            x == l * co + ss,
            ss + c == l * q + rem,
            rem >= 0,
    ;
    assert(co + q < COLS) by (nonlinear_arith)
        requires
            (co + q) * l < COLS * l,
            l > 0,
    ;
}

impl PlayerState {
    /// Rebuilds this participant's board from the boards of the preserved
    /// states (see `is_rotated_board`). Fails, changing nothing, where no
    /// state was preserved or where this participant's identity is not below
    /// their number.
    pub fn rotate_board(&mut self, preserved_states: &Vec<PlayerState>) -> (r: Result<(), RotateError>)
        requires
            old(self)@.board_wf(),
            boards_wf(preserved_states@),
        ensures
            preserved_states.len() == 0 ==> r == Err::<(), RotateError>(RotateError::NoPreservedStates),
            preserved_states.len() > 0 && old(self).id >= preserved_states.len() ==> r == Err::<
                (),
                RotateError,
            >(RotateError::ColumnOutOfRange(old(self).id)),
            r is Err ==> final(self)@ == old(self)@,
            0 <= old(self).id < preserved_states.len() ==> {
                &&& r is Ok
                &&& is_rotated_board(final(self).board@, preserved_states@, old(self).id as int)
                &&& final(self)@ == (PlayerStateView { board: final(self).board@, ..old(self)@ })
            },
    {
        let l = preserved_states.len();
        if l == 0 {
            return Err(RotateError::NoPreservedStates);
        }
        if self.id >= l {
            return Err(RotateError::ColumnOutOfRange(self.id));
        }
        let ghost id = self.id as int;
        let lw: u128 = l as u128;
        let x: u128 = self.id as u128 * COLS as u128;
        let col_offset: u128 = x / lw;
        let state_start: u128 = x % lw;
        let mut c: usize = 0;
        while c < COLS
            invariant
                0 <= id < l,
                l == preserved_states.len(),
                lw == l,
                col_offset == (id * COLS) / (l as int),
                state_start == (id * COLS) % (l as int),
                boards_wf(preserved_states@),
                self.board@.len() == ROWS * COLS,
                self.id == id,
                self@ == (PlayerStateView { board: self.board@, ..old(self)@ }),
                c <= COLS,
                forall|r: int, cc: int|
                    0 <= r < ROWS && 0 <= cc < c ==> #[trigger] self.board@[cell_index(r, cc)]
                        == preserved_states@[rotation_donor(id, l as int, cc)].board@[cell_index(
                        r,
                        rotation_column(id, l as int, cc),
                    )],
            decreases COLS - c,
        {
            proof {
                lemma_rotation_in_range(id, l as int, c as int);
            }
            let k: u128 = state_start + c as u128;
            let donor: usize = (k % lw) as usize;
            let col: usize = (COLS as u128 - 1 - col_offset - k / lw) as usize;
            let mut r: usize = 0;
            while r < ROWS
                invariant
                    0 <= id < l,
                    l == preserved_states.len(),
                    boards_wf(preserved_states@),
                    self.board@.len() == ROWS * COLS,
                    self@ == (PlayerStateView { board: self.board@, ..old(self)@ }),
                    c < COLS,
                    donor == rotation_donor(id, l as int, c as int),
                    col == rotation_column(id, l as int, c as int),
                    0 <= donor < l,
                    0 <= col < COLS,
                    r <= ROWS,
                    forall|rr: int, cc: int|
                        0 <= rr < ROWS && 0 <= cc < c ==> #[trigger] self.board@[cell_index(rr, cc)]
                            == preserved_states@[rotation_donor(id, l as int, cc)].board@[cell_index(
                            rr,
                            rotation_column(id, l as int, cc),
                        )],
                    forall|rr: int|
                        0 <= rr < r ==> #[trigger] self.board@[cell_index(rr, c as int)]
                            == preserved_states@[donor as int].board@[cell_index(rr, col as int)],
                decreases ROWS - r,
            {
                let v = preserved_states[donor].board[r * COLS + col];
                self.board.set(r * COLS + c, v);
                r = r + 1;
            }
            c = c + 1;
        }
        Ok(())
    }
}

/// The sum of the scores of `states`.
pub open spec fn score_sum(states: Seq<PlayerState>) -> int
    decreases states.len(),
{
    if states.len() == 0 {
        0
    } else {
        score_sum(states.drop_last()) + states.last().score
    }
}

/// No state of `states` is at barrier stage `b`.
pub open spec fn none_at(states: Seq<PlayerState>, b: BoardState) -> bool {
    forall|k: int| 0 <= k < states.len() ==> (#[trigger] states[k]).board_state != b
}

/// `a` and `b` hold the same states, in the same order.
pub open spec fn same_states(a: Seq<PlayerState>, b: Seq<PlayerState>) -> bool {
    &&& a.len() == b.len()
    &&& forall|k: int| 0 <= k < a.len() ==> (#[trigger] a[k])@ == b[k]@
}

/// The score rise, over the last rotation, at which a participant with
/// `n` visible participants becomes ready to rotate.
pub open spec fn rotation_threshold(n: int) -> int {
    50 * n
}

/// The barrier stages that one tick may lead to from stage `b`: the same
/// stage, or the next one in the cycle `Stable`, `Ready`, `Confirm`.
pub open spec fn barrier_step_allowed(b: BoardState, next: BoardState) -> bool {
    ||| next == b
    ||| (b == BoardState::Stable && next == BoardState::Ready)
    ||| (b == BoardState::Ready && next == BoardState::Confirm)
    ||| (b == BoardState::Confirm && next == BoardState::Stable)
}

/// What a rotation does to a participant: its board is rebuilt from the
/// preserved states, it goes back to `Stable`, it is unpaused and it takes its
/// next piece, `s` being the new upcoming one.
pub open spec fn after_rotation(
    old_state: PlayerStateView,
    board: Seq<Cell>,
    s: Shape,
) -> PlayerStateView {
    (PlayerStateView {
        board,
        board_state: BoardState::Stable,
        paused: false,
        ..old_state
    }).advanced(s)
}

/// Copies every state of `states`.
fn copy_states(states: &Vec<PlayerState>) -> (r: Vec<PlayerState>)
    ensures
        same_states(r@, states@),
{
    let mut r: Vec<PlayerState> = Vec::new();
    let mut i: usize = 0;
    while i < states.len()
        invariant
            i <= states.len(),
            r@.len() == i,
            forall|k: int| 0 <= k < i ==> (#[trigger] r@[k])@ == states@[k]@,
        decreases states.len() - i,
    {
        r.push(states[i].clone());
        i = i + 1;
    }
    r
}

/// Adds up the scores of `states`.
fn sum_scores(states: &Vec<PlayerState>) -> (r: u64)
    requires
        states.len() <= u32::MAX,
    ensures
        r == score_sum(states@),
{
    let mut total: u64 = 0;
    let mut i: usize = 0;
    while i < states.len()
        invariant
            i <= states.len(),
            states.len() <= u32::MAX,
            total == score_sum(states@.subrange(0, i as int)),
            total <= i * 4294967295,
        decreases states.len() - i,
    {
        assert(states@.subrange(0, i as int + 1).drop_last() == states@.subrange(0, i as int));
        total = total + states[i].score as u64;
        i = i + 1;
    }
    assert(states@.subrange(0, states.len() as int) == states@);
    total
}

/// Runs one tick of the rotation barrier for `my_state` against `cur_states`,
/// the latest snapshot of every visible participant; returns the sum of their
/// scores and whether the board was rotated on this tick.
///
/// - `Stable`: once the score sum has risen by `rotation_threshold` since
///   `last_score`, the sum is recorded, the participant pauses and becomes
///   `Ready`.
/// - `Ready`: once no visible participant is `Stable`, the visible states are
///   preserved and the participant becomes `Confirm`.
/// - `Confirm`: once no visible participant is `Ready`, the board is rebuilt
///   from the preserved states, and the participant is unpaused, becomes
///   `Stable` and takes its next piece. Where the transform cannot run the
///   error is returned and nothing changes.
pub fn check_rot(
    my_state: &mut PlayerState,
    cur_states: &Vec<PlayerState>,
    preserved_states: &mut Vec<PlayerState>,
    last_score: &mut u64,
) -> (r: Result<(u64, bool), RotateError>)
    requires
        old(my_state)@.board_wf(),
        boards_wf(old(preserved_states)@),
        boards_wf(cur_states@),
        cur_states.len() <= u32::MAX,
    ensures
        barrier_step_allowed(old(my_state).board_state, final(my_state).board_state),
        boards_wf(final(preserved_states)@),
        final(my_state)@.board_wf(),
        ({
            let sum = score_sum(cur_states@);
            let unchanged = final(my_state)@ == old(my_state)@ && final(preserved_states)@
                == old(preserved_states)@ && *final(last_score) == *old(last_score);
            match old(my_state).board_state {
                BoardState::Stable => if sum - *old(last_score) >= rotation_threshold(
                    cur_states.len() as int,
                ) {
                    &&& r == Ok::<(u64, bool), RotateError>((sum as u64, false))
                    &&& final(my_state)@ == (PlayerStateView {
                        paused: true,
                        board_state: BoardState::Ready,
                        ..old(my_state)@
                    })
                    &&& *final(last_score) == sum
                    &&& final(preserved_states)@ == old(preserved_states)@
                } else {
                    r == Ok::<(u64, bool), RotateError>((sum as u64, false)) && unchanged
                },
                BoardState::Ready => if none_at(cur_states@, BoardState::Stable) {
                    &&& r == Ok::<(u64, bool), RotateError>((sum as u64, false))
                    &&& final(my_state)@ == (PlayerStateView {
                        board_state: BoardState::Confirm,
                        ..old(my_state)@
                    })
                    &&& same_states(final(preserved_states)@, cur_states@)
                    &&& *final(last_score) == *old(last_score)
                } else {
                    r == Ok::<(u64, bool), RotateError>((sum as u64, false)) && unchanged
                },
                BoardState::Confirm => if !none_at(cur_states@, BoardState::Ready) {
                    r == Ok::<(u64, bool), RotateError>((sum as u64, false)) && unchanged
                } else if old(preserved_states).len() == 0 {
                    r == Err::<(u64, bool), RotateError>(RotateError::NoPreservedStates)
                        && unchanged
                } else if old(my_state).id >= old(preserved_states).len() {
                    r == Err::<(u64, bool), RotateError>(
                        RotateError::ColumnOutOfRange(old(my_state).id),
                    ) && unchanged
                } else {
                    &&& r == Ok::<(u64, bool), RotateError>((sum as u64, true))
                    &&& is_rotated_board(
                        final(my_state).board@,
                        old(preserved_states)@,
                        old(my_state).id as int,
                    )
                    &&& exists|s: Shape|
                        final(my_state)@ == after_rotation(old(my_state)@, final(my_state).board@, s)
                    &&& final(preserved_states)@ == old(preserved_states)@
                    &&& *final(last_score) == *old(last_score)
                },
            }
        }),
{
    let score = sum_scores(cur_states);
    let n = cur_states.len();
    match my_state.board_state {
        BoardState::Stable => {
            if score >= *last_score && score - *last_score >= 50 * (n as u64) {
                *last_score = score;
                my_state.paused = true;
                my_state.board_state = BoardState::Ready;
            }
            Ok((score, false))
        },
        BoardState::Ready => {
            let mut all_moved = true;
            let mut i: usize = 0;
            while i < n
                invariant
                    i <= n,
                    n == cur_states.len(),
                    all_moved == (forall|k: int|
                        0 <= k < i ==> (#[trigger] cur_states@[k]).board_state
                            != BoardState::Stable),
                decreases n - i,
            {
                if cur_states[i].board_state == BoardState::Stable {
                    all_moved = false;
                }
                i = i + 1;
            }
            if all_moved {
                *preserved_states = copy_states(cur_states);
                my_state.board_state = BoardState::Confirm;
            }
            Ok((score, false))
        },
        BoardState::Confirm => {
            let mut all_moved = true;
            let mut i: usize = 0;
            while i < n
                invariant
                    i <= n,
                    n == cur_states.len(),
                    all_moved == (forall|k: int|
                        0 <= k < i ==> (#[trigger] cur_states@[k]).board_state
                            != BoardState::Ready),
                decreases n - i,
            {
                if cur_states[i].board_state == BoardState::Ready {
                    all_moved = false;
                }
                i = i + 1;
            }
            if !all_moved {
                return Ok((score, false));
            }
            match my_state.rotate_board(preserved_states) {
                Err(e) => Err(e),
                Ok(()) => {
                    let ghost rotated = my_state.board@;
                    my_state.board_state = BoardState::Stable;
                    my_state.paused = false;
                    let ghost mid = my_state@;
                    my_state.new_tetromino();
                    proof {
                        let s = choose|s: Shape| my_state@ == mid.advanced(s);
                        assert(my_state@ == after_rotation(old(my_state)@, rotated, s));
                    }
                    Ok((score, true))
                },
            }
        },
    }
}

/// Along any run of barrier ticks, a participant that is `Ready` gets back to
/// `Stable` only by way of `Confirm`.
pub proof fn lemma_ready_returns_through_confirm(trace: Seq<BoardState>, i: int, j: int)
    requires
        forall|k: int|
            0 <= k < trace.len() - 1 ==> barrier_step_allowed(#[trigger] trace[k], trace[k + 1]),
        0 <= i < j < trace.len(),
        trace[i] == BoardState::Ready,
        trace[j] == BoardState::Stable,
    ensures
        exists|k: int| i < k < j && trace[k] == BoardState::Confirm,
    decreases j - i,
{
    assert(barrier_step_allowed(trace[i], trace[i + 1]));
    if trace[i + 1] == BoardState::Confirm {
        assert(trace[i + 1] == BoardState::Confirm);
    } else {
        lemma_ready_returns_through_confirm(trace, i + 1, j);
        let k = choose|k: int| i + 1 < k < j && trace[k] == BoardState::Confirm;
        assert(i < k < j && trace[k] == BoardState::Confirm);
    }
}

/// The donor and donor column of local column `c` of participant `id` are the
/// remainder and the quotient of `id * COLS + c` by `l`.
pub proof fn lemma_rotation_source(id: int, l: int, c: int)
    requires
        0 <= id,
        0 < l,
        0 <= c,
    ensures
        rotation_donor(id, l, c) == (id * COLS + c) % l,
        rotation_column(id, l, c) == (COLS - 1) - (id * COLS + c) / l,
{
    let x = id * COLS;
    lemma_fundamental_div_mod(x, l);
    lemma_mod_pos_bound(x, l);
    let co = x / l;
    let ss = x % l;
    lemma_fundamental_div_mod(ss + c, l);
    lemma_mod_pos_bound(ss + c, l);
    let q = (ss + c) / l;
    let rem = (ss + c) % l;
    assert(x + c == (co + q) * l + rem) by (nonlinear_arith)
        requires
            x == l * co + ss,
            ss + c == l * q + rem,
    ;
    lemma_fundamental_div_mod_converse_div(x + c, l, co + q, rem);
    lemma_fundamental_div_mod_converse_mod(x + c, l, co + q, rem);
}

/// The board transform is a permutation of columns: across the `l`
/// participants and their columns, no two local columns are fed by the same
/// column of the same preserved board.
pub proof fn lemma_rotation_is_permutation(l: int, id1: int, c1: int, id2: int, c2: int)
    requires
        0 <= id1 < l,
        0 <= id2 < l,
        0 <= c1 < COLS,
        0 <= c2 < COLS,
        rotation_donor(id1, l, c1) == rotation_donor(id2, l, c2),
        rotation_column(id1, l, c1) == rotation_column(id2, l, c2),
    ensures
        id1 == id2,
        c1 == c2,
{
    lemma_rotation_source(id1, l, c1);
    lemma_rotation_source(id2, l, c2);
    let x1 = id1 * COLS + c1;
    let x2 = id2 * COLS + c2;
    lemma_fundamental_div_mod(x1, l);
    lemma_fundamental_div_mod(x2, l);
    assert(x1 == x2);
}

/// For a participant whose identity is not below the number `l` of preserved
/// states, the last local column would be fed from left of the board.
pub proof fn lemma_rotation_out_of_range(id: int, l: int)
    requires
        0 < l <= id,
    ensures
        rotation_column(id, l, COLS - 1) < 0,
{
    lemma_rotation_source(id, l, COLS - 1);
    assert(l * COLS <= id * COLS + (COLS - 1)) by (nonlinear_arith)
        requires
            l <= id,
    ;
    lemma_div_is_ordered(l * COLS, id * COLS + (COLS - 1), l);
    lemma_div_multiples_vanish(COLS as int, l);
}

} // verus!
