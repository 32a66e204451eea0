//! The board: grid, turn state machine, move queue, adjacency and snapshot.
use vstd::prelude::*;
use crate::location::{
    code_of, decodable, expand_id, gen_id, lemma_code_round_trip, lemma_loc_code, on_board,
    row_of_letter, col_of_digit, valid_code, SquareLoc,
};
use crate::location::{col_digits, digit_text};
use crate::tile::{decode_token, expand_tile_id, gen_tile_id, token_of, Tile, Turn};

verus! {

/// Whether a row or column index lies inside the grid.
pub open spec fn in_range(x: int) -> bool {
    0 <= x < 8
}

/// The row one step "up" from `row` as the side to move sees it.
pub open spec fn up_row(turn: Turn, row: int) -> int {
    if turn == Turn::Orange {
        row + 1
    } else {
        row - 1
    }
}

/// The row one step "down" from `row` as the side to move sees it.
pub open spec fn down_row(turn: Turn, row: int) -> int {
    if turn == Turn::Orange {
        row - 1
    } else {
        row + 1
    }
}

/// The "left" offset; like the other sideways offsets it is taken on the row
/// index and then used as a column.
pub open spec fn left_of(turn: Turn, row: int) -> int {
    if turn == Turn::Orange {
        row + 1
    } else {
        row - 1
    }
}

/// The "right" offset, taken on the row index like `left_of`.
pub open spec fn right_of(turn: Turn, row: int) -> int {
    if turn == Turn::Orange {
        row - 1
    } else {
        row + 1
    }
}

pub open spec fn slot(present: bool, row: int, col: int) -> Option<(int, int)> {
    if present {
        Some((row, col))
    } else {
        None
    }
}

/// The cells around `(row, col)` under the orientation of `turn`, in the order
/// up, down, right, left, up-left, up-right, down-left, down-right; all empty
/// when no side is to move.
pub open spec fn neighbor_cells(turn: Turn, row: int, col: int) -> Seq<Option<(int, int)>> {
    if turn == Turn::Nil {
        seq![None, None, None, None, None, None, None, None]
    } else {
        let up = up_row(turn, row);
        let down = down_row(turn, row);
        let left = left_of(turn, row);
        let right = right_of(turn, row);
        seq![
            slot(in_range(up), up, col),
            slot(in_range(down), down, col),
            slot(in_range(right), row, right),
            slot(in_range(left), row, left),
            slot(in_range(up) && in_range(left), up, left),
            slot(in_range(up) && in_range(right), up, right),
            slot(in_range(down) && in_range(left), down, left),
            slot(in_range(down) && in_range(right), down, right),
        ]
    }
}

pub open spec fn cell_of(o: Option<SquareLoc>) -> Option<(int, int)> {
    match o {
        Some(l) => Some(l.cell()),
        None => None,
    }
}

/// The eight neighbouring locations of a square under one side's orientation.
#[derive(Debug, Clone)]
pub struct Around {
    pub left: Option<SquareLoc>,
    pub right: Option<SquareLoc>,
    pub up: Option<SquareLoc>,
    pub down: Option<SquareLoc>,
    pub up_diag_left: Option<SquareLoc>,
    pub up_diag_right: Option<SquareLoc>,
    pub down_diag_left: Option<SquareLoc>,
    pub down_diag_right: Option<SquareLoc>,
}

fn copy_slot(o: &Option<SquareLoc>) -> (r: Option<SquareLoc>)
    ensures
        r == *o,
{
    match o {
        Some(l) => Some(l.copy()),
        None => None,
    }
}

impl Around {
    /// The slots in the order up, down, right, left, then the four diagonals.
    pub open spec fn slots(&self) -> Seq<Option<SquareLoc>> {
        seq![
            self.up,
            self.down,
            self.right,
            self.left,
            self.up_diag_left,
            self.up_diag_right,
            self.down_diag_left,
            self.down_diag_right,
        ]
    }

    pub open spec fn cells(&self) -> Seq<Option<(int, int)>> {
        self.slots().map_values(|o: Option<SquareLoc>| cell_of(o))
    }

    /// Every filled slot is an on-board location carrying its own code.
    pub open spec fn well_formed(&self) -> bool {
        forall|i: int|
            0 <= i < 8 && (#[trigger] self.slots()[i]) is Some ==> {
                let l = self.slots()[i].unwrap();
                l.wf() && l.on_board() && l.id@ == code_of(l.row as int, l.col as int)
            }
    }

    /// The eight slots as a sequence, in the order of `slots`.
    pub fn to_vec(&self) -> (r: Vec<Option<SquareLoc>>)
        ensures
            r@ == self.slots(),
    {
        let mut arr: Vec<Option<SquareLoc>> = Vec::new();
        arr.push(copy_slot(&self.up));
        arr.push(copy_slot(&self.down));
        arr.push(copy_slot(&self.right));
        arr.push(copy_slot(&self.left));
        arr.push(copy_slot(&self.up_diag_left));
        arr.push(copy_slot(&self.up_diag_right));
        arr.push(copy_slot(&self.down_diag_left));
        arr.push(copy_slot(&self.down_diag_right));
        assert(arr@ =~= self.slots());
        arr
    }
}

/// The location of an on-board cell, with its canonical code.
fn make_loc(row: usize, col: usize) -> (l: SquareLoc)
    requires
        row < 8,
        col < 8,
    ensures
        l.row == row,
        l.col == col,
        l.wf(),
        l.id@ == code_of(row as int, col as int),
{
    proof {
        lemma_code_round_trip(row as int, col as int);
    }
    SquareLoc { row, col, id: gen_id(row, col) }
}

fn loc_if(present: bool, row: i64, col: i64) -> (r: Option<SquareLoc>)
    requires
        present ==> in_range(row as int) && in_range(col as int),
    ensures
        cell_of(r) == slot(present, row as int, col as int),
        r matches Some(l) ==> l.wf() && l.on_board() && l.id@ == code_of(l.row as int, l.col as int),
{
    if present {
        Some(make_loc(row as usize, col as usize))
    } else {
        None
    }
}

/// The neighbours of `sel` under the orientation of `turn`.
pub fn neighbors(sel: &SquareLoc, turn: Turn) -> (r: Around)
    requires
        on_board(sel.row as int, sel.col as int),
    ensures
        r.cells() == neighbor_cells(turn, sel.row as int, sel.col as int),
        r.well_formed(),
        forall|i: int|
            0 <= i < 8 && (#[trigger] r.cells()[i]) is Some ==> on_board(
                r.cells()[i].unwrap().0,
                r.cells()[i].unwrap().1,
            ),
{
    let row = sel.row as i64;
    let col = sel.col as i64;
    let (up, down, left, right): (i64, i64, i64, i64) = match turn {
        Turn::Orange => (row + 1, row - 1, row + 1, row - 1),
        Turn::White => (row - 1, row + 1, row - 1, row + 1),
        Turn::Nil => {
            let r = Around {
                left: None,
                right: None,
                up: None,
                down: None,
                up_diag_left: None,
                up_diag_right: None,
                down_diag_left: None,
                down_diag_right: None,
            };
            assert(r.cells() =~= neighbor_cells(turn, sel.row as int, sel.col as int));
            return r;
        },
    };
    let up_ok = 0 <= up && up < 8;
    let down_ok = 0 <= down && down < 8;
    let left_ok = 0 <= left && left < 8;
    let right_ok = 0 <= right && right < 8;
    let r = Around {
        up: loc_if(up_ok, up, col),
        down: loc_if(down_ok, down, col),
        right: loc_if(right_ok, row, right),
        left: loc_if(left_ok, row, left),
        up_diag_left: loc_if(up_ok && left_ok, up, left),
        up_diag_right: loc_if(up_ok && right_ok, up, right),
        down_diag_left: loc_if(down_ok && left_ok, down, left),
        down_diag_right: loc_if(down_ok && right_ok, down, right),
    };
    assert(r.cells() =~= neighbor_cells(turn, sel.row as int, sel.col as int));
    r
}

/// One square of the grid.
#[derive(Debug, Clone)]
pub struct Square {
    pub id: String,
    pub tile: Option<Tile>,
}

/// A queued move, tagged with the side that was to move when it was queued.
#[derive(Debug, Clone)]
pub struct Move {
    pub from: SquareLoc,
    pub to: SquareLoc,
    pub color: Turn,
}

impl Move {
    pub open spec fn wf(&self) -> bool {
        self.from.wf() && self.to.wf()
    }

    pub open spec fn on_board(&self) -> bool {
        self.from.on_board() && self.to.on_board()
    }

    /// A field-by-field copy.
    pub fn copy(&self) -> (r: Move)
        ensures
            r == *self,
    {
        Move { from: self.from.copy(), to: self.to.copy(), color: self.color }
    }
}

/// The side to move after a successful move.
pub open spec fn flipped(turn: Turn) -> Turn {
    if turn == Turn::White {
        Turn::Orange
    } else {
        Turn::White
    }
}

/// A move succeeds when its source holds a tile and its destination is one of
/// the source's neighbours under the orientation of the side to move.
pub open spec fn move_allowed(grid: Seq<Seq<Option<Tile>>>, turn: Turn, m: Move) -> bool {
    &&& grid[m.from.row as int][m.from.col as int] is Some
    &&& neighbor_cells(turn, m.from.row as int, m.from.col as int).contains(Some(m.to.cell()))
}

/// The side to move after a queue pass visits `m`: only a move tagged with
/// the side to move is tried, and only a successful one flips the turn.
pub open spec fn step(grid: Seq<Seq<Option<Tile>>>, turn: Turn, m: Move) -> Turn {
    if m.color == turn && move_allowed(grid, turn, m) {
        flipped(turn)
    } else {
        turn
    }
}

/// The side to move after a queue pass has visited the first `n` moves.
pub open spec fn run_queue(grid: Seq<Seq<Option<Tile>>>, queue: Seq<Move>, turn: Turn, n: nat) -> Turn
    decreases n,
{
    if n == 0 {
        turn
    } else {
        step(grid, run_queue(grid, queue, turn, (n - 1) as nat), queue[n - 1])
    }
}

/// Every move that a queue pass tries among the first `n` names on-board
/// cells; a move that is skipped may name any cells.
pub open spec fn pass_safe(grid: Seq<Seq<Option<Tile>>>, queue: Seq<Move>, turn: Turn, n: nat) -> bool
    decreases n,
{
    n == 0 || {
        &&& pass_safe(grid, queue, turn, (n - 1) as nat)
        &&& queue[n - 1].color == run_queue(grid, queue, turn, (n - 1) as nat) ==> queue[n - 1].on_board()
    }
}

proof fn lemma_pass_safe_prefix(grid: Seq<Seq<Option<Tile>>>, queue: Seq<Move>, turn: Turn, m: nat, n: nat)
    requires
        m <= n,
        pass_safe(grid, queue, turn, n),
    ensures
        pass_safe(grid, queue, turn, m),
    decreases n,
{
    if m < n {
        lemma_pass_safe_prefix(grid, queue, turn, m, (n - 1) as nat);
    }
}

/// The grid of a fresh board: 8 rows of 8 empty cells.
pub open spec fn empty_grid() -> Seq<Seq<Option<Tile>>> {
    Seq::new(8, |r: int| Seq::new(8, |c: int| None::<Tile>))
}

/// The decimal text of a run of `k` empty cells; nothing for no run.
pub open spec fn run_text(k: nat) -> Seq<char> {
    if k == 0 {
        Seq::empty()
    } else {
        seq![col_digits()[k - 1]]
    }
}

/// The text written for the first `n` cells of a row, and the length of the
/// run of empty cells that is still open after them.
pub open spec fn fen_row_prefix(cells: Seq<Option<Tile>>, n: nat) -> (Seq<char>, nat)
    decreases n,
{
    if n == 0 {
        (Seq::empty(), 0)
    } else {
        let (text, run) = fen_row_prefix(cells, (n - 1) as nat);
        match cells[n - 1] {
            None => (text, run + 1),
            Some(t) => (text + run_text(run) + seq![token_of(t)], 0),
        }
    }
}

/// A row in snapshot form: tile tokens, with each run of empty cells written
/// as its length.
pub open spec fn fen_row(cells: Seq<Option<Tile>>) -> Seq<char> {
    let (text, run) = fen_row_prefix(cells, cells.len());
    text + run_text(run)
}

/// The first `n` rows in snapshot form, joined by `/`.
pub open spec fn fen_rows(grid: Seq<Seq<Option<Tile>>>, n: nat) -> Seq<char>
    decreases n,
{
    if n == 0 {
        Seq::empty()
    } else if n == 1 {
        fen_row(grid[0])
    } else {
        fen_rows(grid, (n - 1) as nat) + seq!['/'] + fen_row(grid[n - 1])
    }
}

/// The snapshot of a grid.
pub open spec fn fen(grid: Seq<Seq<Option<Tile>>>) -> Seq<char> {
    fen_rows(grid, grid.len())
}

proof fn lemma_run_bounded(cells: Seq<Option<Tile>>, n: nat)
    ensures
        fen_row_prefix(cells, n).1 <= n,
    decreases n,
{
    if n > 0 {
        lemma_run_bounded(cells, (n - 1) as nat);
    }
}

/// The snapshot of an empty grid is eight rows of `8` joined by `/`.
pub proof fn lemma_empty_fen()
    ensures
        fen(empty_grid()) == seq!['8', '/', '8', '/', '8', '/', '8', '/', '8', '/', '8', '/', '8', '/', '8'],
{
    let row = empty_grid()[0];
    reveal_with_fuel(fen_row_prefix, 9);
    assert(fen_row_prefix(row, 8) == (Seq::<char>::empty(), 8nat));
    assert(fen_row(row) =~= seq!['8']);
    assert forall|r: int| 0 <= r < 8 implies #[trigger] empty_grid()[r] == row by {
        assert(empty_grid()[r] =~= row);
    }
    reveal_with_fuel(fen_rows, 9);
    assert(fen(empty_grid()) =~= seq!['8', '/', '8', '/', '8', '/', '8', '/', '8', '/', '8', '/', '8', '/', '8']);
}

/// A queue pass leaves the turn alone when no queued move is tagged with the
/// side to move, whatever the board holds.
pub proof fn lemma_untagged_moves_skipped(grid: Seq<Seq<Option<Tile>>>, queue: Seq<Move>, turn: Turn, n: nat)
    requires
        n <= queue.len(),
        forall|i: int| 0 <= i < queue.len() ==> (#[trigger] queue[i]).color != turn,
    ensures
        run_queue(grid, queue, turn, n) == turn,
    decreases n,
{
    if n > 0 {
        lemma_untagged_moves_skipped(grid, queue, turn, (n - 1) as nat);
    }
}

/// The abstract state of a board.
pub struct BoardView {
    pub grid: Seq<Seq<Option<Tile>>>,
    pub turn: Turn,
    pub queue: Seq<Move>,
}

/// An 8x8 board with the side to move and the queue of requested moves.
#[derive(Debug, Clone)]
pub struct Board {
    state: Vec<Vec<Square>>,
    turn: Turn,
    queue: Vec<Move>,
}

impl View for Board {
    type V = BoardView;

    closed spec fn view(&self) -> BoardView {
        BoardView {
            grid: Seq::new(8, |r: int| Seq::new(8, |c: int| self.state@[r]@[c].tile)),
            turn: self.turn,
            queue: self.queue@,
        }
    }
}

impl Board {
    /// The grid is 8x8, each square carries the code of its cell, and each
    /// queued move holds what its codes decode to.
    pub closed spec fn wf(&self) -> bool {
        &&& self.state@.len() == 8
        &&& forall|r: int| 0 <= r < 8 ==> (#[trigger] self.state@[r])@.len() == 8
        &&& forall|r: int, c: int|
            0 <= r < 8 && 0 <= c < 8 ==> (#[trigger] self.state@[r]@[c]).id@ == code_of(r, c)
        &&& forall|i: int| 0 <= i < self.queue@.len() ==> (#[trigger] self.queue@[i]).wf()
    }

    /// A board with 64 empty squares, no side to move and an empty queue.
    pub fn new() -> (r: Board)
        ensures
            r.wf(),
            r@.grid == empty_grid(),
            r@.turn == Turn::Nil,
            r@.queue == Seq::<Move>::empty(),
    {
        let mut state: Vec<Vec<Square>> = Vec::new();
        let mut row: usize = 0;
        while row < 8
            invariant
                row <= 8,
                state@.len() == row,
                forall|r: int| 0 <= r < row ==> (#[trigger] state@[r])@.len() == 8,
                forall|r: int, c: int|
                    0 <= r < row && 0 <= c < 8 ==> (#[trigger] state@[r]@[c]).id@ == code_of(r, c)
                        && state@[r]@[c].tile is None,
            decreases 8 - row,
        {
            let mut line: Vec<Square> = Vec::new();
            let mut col: usize = 0;
            while col < 8
                invariant
                    row < 8,
                    col <= 8,
                    line@.len() == col,
                    forall|c: int|
                        0 <= c < col ==> (#[trigger] line@[c]).id@ == code_of(row as int, c)
                            && line@[c].tile is None,
                decreases 8 - col,
            {
                line.push(Square { id: gen_id(row, col), tile: None });
                col += 1;
            }
            state.push(line);
            row += 1;
        }
        let b = Board { state, turn: Turn::Nil, queue: Vec::new() };
        assert(b@.grid =~~= empty_grid());
        assert(b@.queue =~= Seq::<Move>::empty());
        b
    }

    /// Starts the game: White is to move. The grid is not checked.
    pub fn start(&mut self)
        ensures
            final(self)@.turn == Turn::White,
            final(self)@.grid == old(self)@.grid,
            final(self)@.queue == old(self)@.queue,
            old(self).wf() ==> final(self).wf(),
    {
        self.turn = Turn::White;
    }

    /// Sets the side to move directly.
    pub fn set_turn(&mut self, color: Turn)
        ensures
            final(self)@.turn == color,
            final(self)@.grid == old(self)@.grid,
            final(self)@.queue == old(self)@.queue,
            old(self).wf() ==> final(self).wf(),
    {
        self.turn = color;
    }

    /// Places the tile of token `t` on the cell of code `pos`, replacing what
    /// was there, while the game has not started; afterwards nothing changes.
    pub fn add_tile(&mut self, t: String, pos: String)
        requires
            old(self).wf(),
            t@.len() >= 1,
            decodable(pos@),
            old(self)@.turn == Turn::Nil ==> valid_code(pos@),
        ensures
            final(self).wf(),
            final(self)@.turn == old(self)@.turn,
            final(self)@.queue == old(self)@.queue,
            old(self)@.turn != Turn::Nil ==> final(self)@.grid == old(self)@.grid,
            old(self)@.turn == Turn::Nil ==> final(self)@.grid == old(self)@.grid.update(
                row_of_letter(pos@[0]),
                old(self)@.grid[row_of_letter(pos@[0])].update(
                    col_of_digit(pos@[1]),
                    Some(decode_token(t@)),
                ),
            ),
    {
        let tile = expand_tile_id(t);
        let pos = expand_id(pos);
        if self.turn != Turn::Nil {
            return;
        }
        let ghost before = *self;
        self.state[pos.row][pos.col].tile = Some(tile);
        proof {
            assert(self@.grid =~~= before@.grid.update(
                pos.row as int,
                before@.grid[pos.row as int].update(pos.col as int, Some(tile)),
            ));
        }
    }

    /// Queues a move between two codes, tagged with the side to move now.
    pub fn add_move(&mut self, from: String, to: String)
        requires
            old(self).wf(),
            decodable(from@),
            decodable(to@),
        ensures
            final(self).wf(),
            final(self)@.grid == old(self)@.grid,
            final(self)@.turn == old(self)@.turn,
            final(self)@.queue.len() == old(self)@.queue.len() + 1,
            final(self)@.queue.drop_last() == old(self)@.queue,
            ({
                let m = final(self)@.queue.last();
                &&& m.from.wf() && m.from.id@ == from@
                &&& m.to.wf() && m.to.id@ == to@
                &&& m.color == old(self)@.turn
            }),
    {
        let from_loc = expand_id(from);
        let to_loc = expand_id(to);
        let color = self.turn;
        self.queue.push(Move { from: from_loc, to: to_loc, color });
        assert(self@.queue.drop_last() =~= old(self)@.queue);
    }

    /// One pass over the queue in order: each move tagged with the side to
    /// move at the time it is visited is tried. The queue is kept as it is.
    fn proc(&mut self)
        requires
            old(self).wf(),
            pass_safe(old(self)@.grid, old(self)@.queue, old(self)@.turn, old(self)@.queue.len()),
        ensures
            final(self).wf(),
            final(self)@.grid == old(self)@.grid,
            final(self)@.queue == old(self)@.queue,
            final(self)@.turn == run_queue(old(self)@.grid, old(self)@.queue, old(self)@.turn, old(self)@.queue.len()),
    {
        let ghost grid0 = self@.grid;
        let ghost queue0 = self@.queue;
        let ghost turn0 = self@.turn;
        let n = self.queue.len();
        let mut i: usize = 0;
        while i < n
            invariant
                self.wf(),
                n == queue0.len(),
                i <= n,
                self@.grid == grid0,
                self@.queue == queue0,
                self@.turn == run_queue(grid0, queue0, turn0, i as nat),
                pass_safe(grid0, queue0, turn0, n as nat),
            decreases n - i,
        {
            let mov = self.queue[i].copy();
            assert(self.queue@[i as int].wf());
            if mov.color == self.turn {
                proof {
                    lemma_pass_safe_prefix(grid0, queue0, turn0, (i + 1) as nat, n as nat);
                }
                self.exec(mov);
            }
            i += 1;
        }
    }

    /// Processes the queue once; see `proc`.
    pub fn proc_moves(&mut self)
        requires
            old(self).wf(),
            pass_safe(old(self)@.grid, old(self)@.queue, old(self)@.turn, old(self)@.queue.len()),
        ensures
            final(self).wf(),
            final(self)@.grid == old(self)@.grid,
            final(self)@.queue == old(self)@.queue,
            final(self)@.turn == run_queue(old(self)@.grid, old(self)@.queue, old(self)@.turn, old(self)@.queue.len()),
    {
        self.proc()
    }

    /// Row `r` in snapshot form.
    fn fen_row_text(&self, r: usize) -> (s: String)
        requires
            self.wf(),
            r < 8,
        ensures
            s@ == fen_row(self@.grid[r as int]),
    {
        let ghost cells = self@.grid[r as int];
        let mut text = String::new();
        let mut run: usize = 0;
        let mut c: usize = 0;
        while c < 8
            invariant
                self.wf(),
                r < 8,
                c <= 8,
                cells == self@.grid[r as int],
                cells.len() == 8,
                run <= c,
                (text@, run as nat) == fen_row_prefix(cells, c as nat),
            decreases 8 - c,
        {
            match self.state[r][c].tile {
                None => {
                    run = run + 1;
                },
                Some(t) => {
                    if run > 0 {
                        text.append(digit_text(run));
                    }
                    let token = gen_tile_id(t);
                    text.append(token.as_str());
                    run = 0;
                },
            }
            c += 1;
        }
        if run > 0 {
            text.append(digit_text(run));
        }
        proof {
            assert(text@ =~= fen_row(cells));
        }
        text
    }

    /// The board in snapshot form: rows 0 to 7 joined by `/`, each row the
    /// tokens of its tiles with each run of empty cells written as its length.
    pub fn to_fen(&self) -> (s: String)
        requires
            self.wf(),
        ensures
            s@ == fen(self@.grid),
    {
        let mut out = String::new();
        let mut r: usize = 0;
        while r < 8
            invariant
                self.wf(),
                r <= 8,
                out@ == fen_rows(self@.grid, r as nat),
            decreases 8 - r,
        {
            let line = self.fen_row_text(r);
            let ghost prev = out@;
            if r > 0 {
                proof {
                    reveal_strlit("/");
                }
                out.append("/");
                assert(out@ =~= prev + seq!['/']);
            }
            out.append(line.as_str());
            proof {
                if r == 0 {
                    assert(out@ =~= fen_rows(self@.grid, 1));
                } else {
                    assert(out@ =~= prev + seq!['/'] + fen_row(self@.grid[r as int]));
                    assert(fen_rows(self@.grid, (r + 1) as nat) == prev + seq!['/'] + fen_row(
                        self@.grid[r as int],
                    ));
                }
            }
            r += 1;
        }
        out
    }

    /// Whether `proc_moves` can run now: every move that the pass would try
    /// names on-board cells.
    pub fn pass_is_safe(&self) -> (r: bool)
        requires
            self.wf(),
        ensures
            r == pass_safe(self@.grid, self@.queue, self@.turn, self@.queue.len()),
    {
        let ghost grid0 = self@.grid;
        let ghost queue0 = self@.queue;
        let mut t = self.turn;
        let mut i: usize = 0;
        while i < self.queue.len()
            invariant
                self.wf(),
                grid0 == self@.grid,
                queue0 == self@.queue,
                i <= queue0.len(),
                t == run_queue(grid0, queue0, self@.turn, i as nat),
                pass_safe(grid0, queue0, self@.turn, i as nat),
            decreases queue0.len() - i,
        {
            let m = &self.queue[i];
            assert(queue0[i as int].wf());
            if m.color == t {
                if !(m.from.row < 8 && m.from.col < 8 && m.to.row < 8 && m.to.col < 8) {
                    proof {
                        assert(!pass_safe(grid0, queue0, self@.turn, (i + 1) as nat));
                        if pass_safe(grid0, queue0, self@.turn, queue0.len()) {
                            lemma_pass_safe_prefix(grid0, queue0, self@.turn, (i + 1) as nat, queue0.len());
                        }
                    }
                    return false;
                }
                if self.move_ok(m, t) {
                    t = if t == Turn::White {
                        Turn::Orange
                    } else {
                        Turn::White
                    };
                }
            }
            i += 1;
        }
        true
    }

    /// The side to move.
    pub fn turn(&self) -> (r: Turn)
        ensures
            r == self@.turn,
    {
        self.turn
    }

    /// The tile on the cell `(row, col)`.
    pub fn tile_at(&self, row: usize, col: usize) -> (r: Option<Tile>)
        requires
            self.wf(),
            row < 8,
            col < 8,
        ensures
            r == self@.grid[row as int][col as int],
    {
        self.state[row][col].tile
    }

    /// The number of queued moves.
    pub fn queue_len(&self) -> (r: usize)
        ensures
            r == self@.queue.len(),
    {
        self.queue.len()
    }

    /// The neighbours of `sel` under the orientation of the side to move.
    pub fn around(&self, sel: SquareLoc) -> (r: Around)
        requires
            on_board(sel.row as int, sel.col as int),
        ensures
            r.cells() == neighbor_cells(self@.turn, sel.row as int, sel.col as int),
            r.well_formed(),
    {
        neighbors(&sel, self.turn)
    }

    /// Whether `mov` would succeed with `turn` to move.
    fn move_ok(&self, mov: &Move, turn: Turn) -> (r: bool)
        requires
            self.wf(),
            mov.wf(),
            mov.on_board(),
        ensures
            r == move_allowed(self@.grid, turn, *mov),
    {
        let occupied = self.state[mov.from.row][mov.from.col].tile.is_some();
        if !occupied {
            return false;
        }
        let near = neighbors(&mov.from, turn).to_vec();
        proof {
            lemma_loc_code(mov.to);
        }
        let mut found = false;
        let mut i: usize = 0;
        while i < near.len()
            invariant
                near@.len() == 8,
                i <= 8,
                forall|j: int|
                    0 <= j < 8 && (#[trigger] near@[j]) is Some ==> {
                        let l = near@[j].unwrap();
                        l.id@ == code_of(l.row as int, l.col as int)
                    },
                forall|j: int|
                    0 <= j < 8 ==> cell_of(#[trigger] near@[j]) == neighbor_cells(
                        turn,
                        mov.from.row as int,
                        mov.from.col as int,
                    )[j],
                mov.to.id@ == code_of(mov.to.row as int, mov.to.col as int),
                found == exists|j: int|
                    0 <= j < i && #[trigger] cell_of(near@[j]) == Some(mov.to.cell()),
            decreases 8 - i,
        {
            match &near[i] {
                Some(l) => {
                    if l.row == mov.to.row && l.col == mov.to.col && l.id == mov.to.id {
                        found = true;
                    }
                },
                None => {},
            }
            i += 1;
        }
        proof {
            let cells = neighbor_cells(turn, mov.from.row as int, mov.from.col as int);
            if found {
                let j = choose|j: int| 0 <= j < 8 && #[trigger] cell_of(near@[j]) == Some(mov.to.cell());
                assert(cells[j] == Some(mov.to.cell()));
            }
            if cells.contains(Some(mov.to.cell())) {
                let j = choose|j: int| 0 <= j < cells.len() && cells[j] == Some(mov.to.cell());
                assert(cell_of(near@[j]) == Some(mov.to.cell()));
            }
        }
        found
    }

    /// Tries one move. It succeeds when the source holds a tile and the
    /// destination is a neighbour of the source under the orientation of the
    /// side to move; then the turn passes to the other side. The grid is not
    /// changed either way.
    pub fn exec(&mut self, mov: Move) -> (r: bool)
        requires
            old(self).wf(),
            mov.wf(),
            mov.on_board(),
        ensures
            final(self).wf(),
            r == move_allowed(old(self)@.grid, old(self)@.turn, mov),
            final(self)@.turn == (if r { flipped(old(self)@.turn) } else { old(self)@.turn }),
            final(self)@.grid == old(self)@.grid,
            final(self)@.queue == old(self)@.queue,
    {
        if !self.move_ok(&mov, self.turn) {
            return false;
        }
        if self.turn == Turn::White {
            self.turn = Turn::Orange;
        } else {
            self.turn = Turn::White;
        }
        true
    }
}

} // verus!
