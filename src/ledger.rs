use vstd::prelude::*;

verus! {

/// Number of columns on the board.
pub const COLUMNS: usize = 7;

/// Number of rows in each column.
pub const ROWS: usize = 6;

/// One accepted drop: `player` is 1 or 2, `column` is 0..7 and `row` is 0..6,
/// counted from the bottom.
#[derive(Debug, Clone, Copy, PartialEq, Eq, Structural)]
pub struct PlayerMove {
    pub player: usize,
    pub column: usize,
    pub row: usize,
}

/// The cell (`column`, `row`) lies on the board.
pub open spec fn in_bounds(column: int, row: int) -> bool {
    0 <= column < COLUMNS && 0 <= row < ROWS
}

/// `moves` holds a move of `player` at (`column`, `row`).
pub open spec fn occupied_by(moves: Seq<PlayerMove>, player: usize, column: int, row: int) -> bool {
    exists|i: int|
        0 <= i < moves.len() && #[trigger] moves[i].player == player && moves[i].column == column
            && moves[i].row == row
}

/// Length of the run of `player`'s moves met when walking from (`column`, `row`)
/// one step at a time by (`dc`, `dr`), the start cell excluded, looking at most
/// `limit` steps ahead. The walk stops at the first cell off the board or not
/// held by `player`.
pub open spec fn streak(
    moves: Seq<PlayerMove>,
    player: usize,
    column: int,
    row: int,
    dc: int,
    dr: int,
    limit: nat,
) -> nat
    decreases limit,
{
    if limit == 0 {
        0
    } else if in_bounds(column + dc, row + dr) && occupied_by(
        moves,
        player,
        column + dc,
        row + dr,
    ) {
        1 + streak(moves, player, column + dc, row + dr, dc, dr, (limit - 1) as nat)
    } else {
        0
    }
}

/// A unit step along one of the eight compass directions.
pub open spec fn is_direction(dc: int, dr: int) -> bool {
    -1 <= dc <= 1 && -1 <= dr <= 1 && !(dc == 0 && dr == 0)
}

/// Number of `m.player`'s moves in a row next to `m` in direction (`dc`, `dr`).
/// No walk on the board is longer than `COLUMNS` steps.
pub open spec fn direction_count(moves: Seq<PlayerMove>, m: PlayerMove, dc: int, dr: int) -> nat {
    streak(moves, m.player, m.column as int, m.row as int, dc, dr, COLUMNS as nat)
}

/// `m` and its neighbours along the axis (`dc`, `dr`), both ways, make at least four.
pub open spec fn wins_on_axis(moves: Seq<PlayerMove>, m: PlayerMove, dc: int, dr: int) -> bool {
    direction_count(moves, m, dc, dr) + direction_count(moves, m, -dc, -dr) + 1 >= 4
}

/// `m` completes four in a row on a column, a row or either diagonal.
pub open spec fn is_winning(moves: Seq<PlayerMove>, m: PlayerMove) -> bool {
    ||| wins_on_axis(moves, m, 0, 1)
    ||| wins_on_axis(moves, m, 1, 0)
    ||| wins_on_axis(moves, m, 1, 1)
    ||| wins_on_axis(moves, m, 1, -1)
}

/// Whether `moves` holds a move of `player` at (`column`, `row`).
fn holds_move(moves: &[PlayerMove], player: usize, column: usize, row: usize) -> (r: bool)
    ensures
        r == occupied_by(moves@, player, column as int, row as int),
{
    let mut i: usize = 0;
    while i < moves.len()
        invariant
            i <= moves@.len(),
            forall|j: int|
                0 <= j < i ==> !(#[trigger] moves@[j].player == player && moves@[j].column
                    == column && moves@[j].row == row),
        decreases moves@.len() - i,
    {
        let m = moves[i];
        if m.player == player && m.column == column && m.row == row {
            return true;
        }
        i += 1;
    }
    false
}

impl PlayerMove {
    pub fn new(player: usize, column: usize, row: usize) -> (r: Self)
        ensures
            r == (PlayerMove { player, column, row }),
    {
        PlayerMove { player, column, row }
    }

    /// Counts `self.player`'s moves in a row next to `self`, walking by
    /// (`column_direction`, `row_direction`) until a cell is off the board or
    /// not held by that player.
    pub fn check_direction(
        &self,
        moves: &[PlayerMove],
        column_direction: isize,
        row_direction: isize,
    ) -> (r: usize)
        requires
            in_bounds(self.column as int, self.row as int),
            is_direction(column_direction as int, row_direction as int),
        ensures
            r == direction_count(moves@, *self, column_direction as int, row_direction as int),
            r < COLUMNS,
    {
        let ghost c0 = self.column as int;
        let ghost r0 = self.row as int;
        let ghost dc = column_direction as int;
        let ghost dr = row_direction as int;
        let mut count: usize = 0;
        let mut column: isize = self.column as isize + column_direction;
        let mut row: isize = self.row as isize + row_direction;
        while column >= 0 && row >= 0 && column < 7 && row < 6 && holds_move(
            moves,
            self.player,
            column as usize,
            row as usize,
        )
            invariant
                in_bounds(c0, r0),
                is_direction(dc, dr),
                c0 == self.column,
                r0 == self.row,
                dc == column_direction,
                dr == row_direction,
                count < COLUMNS,
                dc == 1 ==> column == c0 + count + 1,
                dc == 0 ==> column == c0,
                dc == -1 ==> column == c0 - count - 1,
                dr == 1 ==> row == r0 + count + 1,
                dr == 0 ==> row == r0,
                dr == -1 ==> row == r0 - count - 1,
                direction_count(moves@, *self, dc, dr) == count + streak(
                    moves@,
                    self.player,
                    column - dc,
                    row - dr,
                    dc,
                    dr,
                    (COLUMNS - count) as nat,
                ),
            decreases COLUMNS - count,
        {
            assert(count + 1 < COLUMNS);
            let ghost rest = (COLUMNS - count - 1) as nat;
            assert(streak(moves@, self.player, column - dc, row - dr, dc, dr, rest + 1) == 1 + streak(
                moves@,
                self.player,
                column as int,
                row as int,
                dc,
                dr,
                rest,
            ));
            count += 1;
            column += column_direction;
            row += row_direction;
        }
        count
    }
}


impl PlayerMove {
    /// Whether `self` and its neighbours along (`dc`, `dr`), both ways, make four.
    fn wins_along(&self, moves: &[PlayerMove], dc: isize, dr: isize) -> (r: bool)
        requires
            in_bounds(self.column as int, self.row as int),
            is_direction(dc as int, dr as int),
        ensures
            r == wins_on_axis(moves@, *self, dc as int, dr as int),
    {
        let ahead = self.check_direction(moves, dc, dr);
        let behind = self.check_direction(moves, -dc, -dr);
        ahead + behind + 1 >= 4
    }

    /// Whether `self` completes four in a row, among `moves`, on its column, its
    /// row or one of its two diagonals.
    pub fn is_winner(&self, moves: &[PlayerMove]) -> (r: bool)
        requires
            in_bounds(self.column as int, self.row as int),
        ensures
            r == is_winning(moves@, *self),
    {
        self.wins_along(moves, 0, 1) || self.wins_along(moves, 1, 0) || self.wins_along(moves, 1, 1)
            || self.wins_along(moves, 1, -1)
    }
}

/// Whether some move of `moves` completes four in a row among `moves`.
pub fn has_winning_move(moves: &[PlayerMove]) -> (r: bool)
    requires
        forall|i: int|
            0 <= i < moves@.len() ==> in_bounds(#[trigger] moves@[i].column as int, moves@[i].row as int),
    ensures
        r == exists|i: int| 0 <= i < moves@.len() && is_winning(moves@, #[trigger] moves@[i]),
{
    let mut i: usize = 0;
    while i < moves.len()
        invariant
            i <= moves@.len(),
            forall|k: int|
                0 <= k < moves@.len() ==> in_bounds(#[trigger] moves@[k].column as int, moves@[k].row as int),
            forall|k: int| 0 <= k < i ==> !is_winning(moves@, #[trigger] moves@[k]),
        decreases moves@.len() - i,
    {
        if moves[i].is_winner(moves) {
            return true;
        }
        i += 1;
    }
    false
}

/// Number of moves of `moves` in `column`.
pub open spec fn column_count(moves: Seq<PlayerMove>, column: int) -> nat
    decreases moves.len(),
{
    if moves.len() == 0 {
        0
    } else {
        column_count(moves.drop_last(), column) + if moves.last().column == column {
            1nat
        } else {
            0nat
        }
    }
}

/// The player whose turn it is after `n` moves: player 1 opens.
pub open spec fn turn_after(n: nat) -> usize {
    if n % 2 == 0 {
        1
    } else {
        2
    }
}

/// Move `i` of `moves` lies on the board, sits right on top of the moves made
/// before it in its column, and was made by the player whose turn it was.
pub open spec fn fits(moves: Seq<PlayerMove>, i: int) -> bool {
    &&& moves[i].column < COLUMNS
    &&& moves[i].row < ROWS
    &&& moves[i].row == column_count(moves.take(i), moves[i].column as int)
    &&& moves[i].player == turn_after(i as nat)
}

/// A move log that the rules can produce: every move fits.
pub open spec fn is_ledger(moves: Seq<PlayerMove>) -> bool {
    forall|i: int| 0 <= i < moves.len() ==> #[trigger] fits(moves, i)
}

/// The winner of a game played as `moves`: the player of the first move that
/// completed four in a row, if any did.
pub open spec fn winner_of(moves: Seq<PlayerMove>) -> Option<usize>
    decreases moves.len(),
{
    if moves.len() == 0 {
        None
    } else if winner_of(moves.drop_last()) is Some {
        winner_of(moves.drop_last())
    } else if is_winning(moves, moves.last()) {
        Some(moves.last().player)
    } else {
        None
    }
}

/// Number of cells on the board.
pub const CELLS: usize = 42;

/// The board is full and nobody won.
pub open spec fn is_draw(moves: Seq<PlayerMove>) -> bool {
    moves.len() == CELLS && winner_of(moves) is None
}

/// What a `Board` holds, as mathematical values.
pub struct LedgerView {
    pub moves: Seq<PlayerMove>,
    pub player_turn: usize,
    pub winner: Option<usize>,
    pub in_progress: bool,
    pub draw: bool,
}

impl LedgerView {
    /// The board state reached by playing `moves`.
    pub open spec fn of(moves: Seq<PlayerMove>, in_progress: bool) -> LedgerView {
        LedgerView {
            moves,
            player_turn: turn_after(moves.len()),
            winner: winner_of(moves),
            in_progress,
            draw: is_draw(moves),
        }
    }

    /// The empty board.
    pub open spec fn empty() -> LedgerView {
        LedgerView::of(Seq::empty(), false)
    }

    pub open spec fn wf(self) -> bool {
        is_ledger(self.moves) && self == LedgerView::of(self.moves, self.in_progress)
    }

    /// `column` is on the board and not yet full.
    pub open spec fn accepts(self, column: usize) -> bool {
        column < COLUMNS && column_count(self.moves, column as int) < ROWS
    }

    /// The move that a drop into `column` makes now.
    pub open spec fn next_move(self, column: usize) -> PlayerMove {
        PlayerMove {
            player: self.player_turn,
            column,
            row: column_count(self.moves, column as int) as usize,
        }
    }

    /// The board after a drop into `column`; unchanged where the column is
    /// off the board or full.
    pub open spec fn dropped(self, column: usize) -> LedgerView {
        if self.accepts(column) {
            LedgerView::of(self.moves.push(self.next_move(column)), self.in_progress)
        } else {
            self
        }
    }
}

/// Moves land in each column from the bottom up: in a ledger, the rows that a
/// column holds are exactly `0 .. k`, where `k` is the number of moves in it.
pub proof fn lemma_columns_fill_from_bottom(moves: Seq<PlayerMove>)
    requires
        is_ledger(moves),
    ensures
        forall|c: int, r: int|
            #![trigger column_count(moves, c), is_cell_taken(moves, c, r)]
            0 <= c < COLUMNS ==> (is_cell_taken(moves, c, r) <==> 0 <= r < column_count(moves, c)),
    decreases moves.len(),
{
    if moves.len() > 0 {
        let prev = moves.drop_last();
        lemma_ledger_prefix(moves, (moves.len() - 1) as int);
        assert(moves.take(moves.len() - 1) == prev);
        lemma_columns_fill_from_bottom(prev);
        let m = moves.last();
        assert(fits(moves, moves.len() - 1));
        assert forall|c: int, r: int| 0 <= c < COLUMNS implies (is_cell_taken(moves, c, r) <==> 0 <= r
            < column_count(moves, c)) by {
            if is_cell_taken(moves, c, r) {
                let i = choose|i: int|
                    0 <= i < moves.len() && #[trigger] moves[i].column == c && moves[i].row == r;
                if i < moves.len() - 1 {
                    assert(prev[i] == moves[i]);
                    assert(is_cell_taken(prev, c, r));
                }
            }
            if 0 <= r < column_count(moves, c) {
                if r < column_count(prev, c) {
                    assert(is_cell_taken(prev, c, r));
                    let i = choose|i: int|
                        0 <= i < prev.len() && #[trigger] prev[i].column == c && prev[i].row == r;
                    assert(moves[i] == prev[i]);
                } else {
                    assert(moves[moves.len() - 1] == m);
                }
            }
        }
    }
}

/// Some move of `moves` lies at (`column`, `row`).
pub open spec fn is_cell_taken(moves: Seq<PlayerMove>, column: int, row: int) -> bool {
    exists|i: int| 0 <= i < moves.len() && #[trigger] moves[i].column == column && moves[i].row == row
}

/// Every prefix of a ledger is a ledger.
pub proof fn lemma_ledger_prefix(moves: Seq<PlayerMove>, n: int)
    requires
        is_ledger(moves),
        0 <= n <= moves.len(),
    ensures
        is_ledger(moves.take(n)),
{
    assert forall|i: int| 0 <= i < n implies #[trigger] fits(moves.take(n), i) by {
        assert(fits(moves, i));
        assert(moves.take(n).take(i) == moves.take(i));
    }
}

/// No column of a ledger holds more than `ROWS` moves.
pub proof fn lemma_column_count_bounded(moves: Seq<PlayerMove>, column: int)
    requires
        is_ledger(moves),
    ensures
        column_count(moves, column) <= ROWS,
    decreases moves.len(),
{
    if moves.len() > 0 {
        let prev = moves.drop_last();
        lemma_ledger_prefix(moves, (moves.len() - 1) as int);
        assert(moves.take(moves.len() - 1) == prev);
        lemma_column_count_bounded(prev, column);
        assert(fits(moves, moves.len() - 1));
    }
}

/// Sum of the move counts of the columns `0 .. k`.
pub open spec fn count_below(moves: Seq<PlayerMove>, k: nat) -> nat
    decreases k,
{
    if k == 0 {
        0
    } else {
        count_below(moves, (k - 1) as nat) + column_count(moves, k - 1)
    }
}

proof fn lemma_count_below_push(moves: Seq<PlayerMove>, m: PlayerMove, k: nat)
    ensures
        count_below(moves.push(m), k) == count_below(moves, k) + if m.column < k {
            1nat
        } else {
            0nat
        },
    decreases k,
{
    assert(moves.push(m).drop_last() == moves);
    if k > 0 {
        lemma_count_below_push(moves, m, (k - 1) as nat);
    }
}

/// Where every move lies in a column of the board, the moves are the sum of
/// the columns' counts.
proof fn lemma_len_is_column_sum(moves: Seq<PlayerMove>)
    requires
        forall|i: int| 0 <= i < moves.len() ==> (#[trigger] moves[i]).column < COLUMNS,
    ensures
        moves.len() == count_below(moves, COLUMNS as nat),
    decreases moves.len(),
{
    if moves.len() == 0 {
        lemma_count_below_empty(moves, COLUMNS as nat);
    } else {
        let prev = moves.drop_last();
        assert(forall|i: int| 0 <= i < prev.len() ==> prev[i] == moves[i]);
        lemma_len_is_column_sum(prev);
        assert(prev.push(moves.last()) == moves);
        lemma_count_below_push(prev, moves.last(), COLUMNS as nat);
    }
}

proof fn lemma_count_below_empty(moves: Seq<PlayerMove>, k: nat)
    requires
        moves.len() == 0,
    ensures
        count_below(moves, k) == 0,
    decreases k,
{
    if k > 0 {
        lemma_count_below_empty(moves, (k - 1) as nat);
    }
}

proof fn lemma_count_below_bounded(moves: Seq<PlayerMove>, k: nat)
    requires
        is_ledger(moves),
    ensures
        count_below(moves, k) <= k * ROWS,
    decreases k,
{
    if k > 0 {
        lemma_count_below_bounded(moves, (k - 1) as nat);
        lemma_column_count_bounded(moves, k - 1);
    }
}

/// A ledger never holds more moves than the board has cells.
pub proof fn lemma_ledger_len_bounded(moves: Seq<PlayerMove>)
    requires
        is_ledger(moves),
    ensures
        moves.len() <= CELLS,
{
    assert forall|i: int| 0 <= i < moves.len() implies (#[trigger] moves[i]).column < COLUMNS by {
        assert(fits(moves, i));
    }
    lemma_len_is_column_sum(moves);
    lemma_count_below_bounded(moves, COLUMNS as nat);
}

/// A drop accepted by the rules keeps a ledger a ledger.
pub proof fn lemma_drop_keeps_ledger(b: LedgerView, column: usize)
    requires
        b.wf(),
        b.accepts(column),
    ensures
        b.dropped(column).wf(),
{
    let m = b.next_move(column);
    let moves = b.moves.push(m);
    assert forall|i: int| 0 <= i < moves.len() implies #[trigger] fits(moves, i) by {
        if i < b.moves.len() {
            assert(fits(b.moves, i));
            assert(moves.take(i) == b.moves.take(i));
        } else {
            assert(moves.take(i) == b.moves);
        }
    }
}

/// The move log and turn state of one game.
pub struct Board {
    pub moves: Vec<PlayerMove>,
    pub player_turn: usize,
    pub winner: Option<usize>,
    pub in_progress: bool,
    pub draw: bool,
}

impl View for Board {
    type V = LedgerView;

    open spec fn view(&self) -> LedgerView {
        LedgerView {
            moves: self.moves@,
            player_turn: self.player_turn,
            winner: self.winner,
            in_progress: self.in_progress,
            draw: self.draw,
        }
    }
}

impl Board {
    /// An empty board with player 1 to move.
    pub fn new() -> (r: Self)
        ensures
            r@ == LedgerView::empty(),
            r@.wf(),
    {
        let r = Board {
            moves: Vec::new(),
            player_turn: 1,
            winner: None,
            in_progress: false,
            draw: false,
        };
        assert(r.moves@ == Seq::<PlayerMove>::empty());
        r
    }

    /// Number of moves in `column`: the row that the next drop there lands on.
    pub fn column_height(&self, column: usize) -> (r: usize)
        ensures
            r == column_count(self.moves@, column as int),
    {
        let mut count: usize = 0;
        let mut i: usize = 0;
        while i < self.moves.len()
            invariant
                i <= self.moves@.len(),
                count == column_count(self.moves@.take(i as int), column as int),
                count <= i,
            decreases self.moves@.len() - i,
        {
            assert(self.moves@.take(i + 1).drop_last() == self.moves@.take(i as int));
            if self.moves[i].column == column {
                count += 1;
            }
            i += 1;
        }
        assert(self.moves@.take(i as int) == self.moves@);
        count
    }

    /// Whether the board is full: `CELLS` moves.
    pub fn is_full(&self) -> (r: bool)
        ensures
            r == (self.moves@.len() == CELLS),
    {
        self.moves.len() == CELLS
    }

    /// Drops a coin of the player to move into `column`. Where the column is on
    /// the board and not full, the move is appended, the turn passes, and the
    /// winner and draw flags are brought up to date; otherwise nothing changes.
    pub fn drop_coin(&mut self, column: usize) -> (r: Option<PlayerMove>)
        requires
            old(self)@.wf(),
        ensures
            final(self)@ == old(self)@.dropped(column),
            final(self)@.wf(),
            r == (if old(self)@.accepts(column) {
                Some(old(self)@.next_move(column))
            } else {
                None
            }),
    {
        if column >= COLUMNS {
            return None;
        }
        let row = self.column_height(column);
        if row >= ROWS {
            return None;
        }
        proof {
            lemma_drop_keeps_ledger(self@, column);
        }
        let ghost before = self.moves@;
        let m = PlayerMove::new(self.player_turn, column, row);
        self.moves.push(m);
        assert(self.moves@.drop_last() == before);
        if self.winner.is_none() && m.is_winner(self.moves.as_slice()) {
            self.winner = Some(m.player);
        }
        self.player_turn = if self.player_turn == 1 {
            2
        } else {
            1
        };
        self.draw = self.is_full() && self.winner.is_none();
        Some(m)
    }
}

proof fn lemma_streak_grows(
    moves: Seq<PlayerMove>,
    n: int,
    player: usize,
    column: int,
    row: int,
    dc: int,
    dr: int,
    limit: nat,
)
    requires
        0 <= n <= moves.len(),
    ensures
        streak(moves.take(n), player, column, row, dc, dr, limit) <= streak(
            moves,
            player,
            column,
            row,
            dc,
            dr,
            limit,
        ),
    decreases limit,
{
    if limit > 0 {
        lemma_streak_grows(moves, n, player, column + dc, row + dr, dc, dr, (limit - 1) as nat);
        if occupied_by(moves.take(n), player, column + dc, row + dr) {
            let i = choose|i: int|
                0 <= i < moves.take(n).len() && #[trigger] moves.take(n)[i].player == player
                    && moves.take(n)[i].column == column + dc && moves.take(n)[i].row == row + dr;
            assert(moves[i] == moves.take(n)[i]);
        }
    }
}

/// A line that is four long among the first `n` moves stays so among all.
proof fn lemma_winning_grows(moves: Seq<PlayerMove>, n: int, m: PlayerMove)
    requires
        0 <= n <= moves.len(),
        is_winning(moves.take(n), m),
    ensures
        is_winning(moves, m),
{
    let (c, r, p, k) = (m.column as int, m.row as int, m.player, COLUMNS as nat);
    lemma_streak_grows(moves, n, p, c, r, 0, 1, k);
    lemma_streak_grows(moves, n, p, c, r, 0, -1, k);
    lemma_streak_grows(moves, n, p, c, r, 1, 0, k);
    lemma_streak_grows(moves, n, p, c, r, -1, 0, k);
    lemma_streak_grows(moves, n, p, c, r, 1, 1, k);
    lemma_streak_grows(moves, n, p, c, r, -1, -1, k);
    lemma_streak_grows(moves, n, p, c, r, 1, -1, k);
    lemma_streak_grows(moves, n, p, c, r, -1, 1, k);
}

proof fn lemma_no_line_no_winner_prefix(moves: Seq<PlayerMove>, n: int)
    requires
        0 <= n <= moves.len(),
        forall|i: int| 0 <= i < moves.len() ==> !is_winning(moves, #[trigger] moves[i]),
    ensures
        winner_of(moves.take(n)) is None,
    decreases n,
{
    if n > 0 {
        lemma_no_line_no_winner_prefix(moves, n - 1);
        assert(moves.take(n).drop_last() == moves.take(n - 1));
        assert(moves.take(n).last() == moves[n - 1]);
        if is_winning(moves.take(n), moves[n - 1]) {
            lemma_winning_grows(moves, n, moves[n - 1]);
        }
    }
}

/// Draw: a full board on which no move makes four in a row is a draw, with no
/// winner.
pub proof fn lemma_full_board_without_line_is_draw(moves: Seq<PlayerMove>, in_progress: bool)
    requires
        moves.len() == CELLS,
        forall|i: int| 0 <= i < moves.len() ==> !is_winning(moves, #[trigger] moves[i]),
    ensures
        LedgerView::of(moves, in_progress).draw,
        LedgerView::of(moves, in_progress).winner is None,
{
    lemma_no_line_no_winner_prefix(moves, moves.len() as int);
    assert(moves.take(moves.len() as int) == moves);
}

} // verus!
