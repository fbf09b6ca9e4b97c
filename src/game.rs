use vstd::prelude::*;

use crate::block::{rotate_cw, shape_cells, shape_color, BlockShape, BlockType, Cell, ShapeView};

verus! {

/// Columns of the board.
pub const BOARD_WIDTH: usize = 10;

/// Rows of the board.
pub const BOARD_HEIGHT: usize = 20;

/// Mathematical value of a game: the board addressed `board[row][col]`, its
/// size, the active piece if any, and the board column and row of the top-left
/// corner of that piece's bounding box.
pub struct GameView {
    pub board: Seq<Seq<Cell>>,
    pub board_width: usize,
    pub board_height: usize,
    pub current_block: Option<ShapeView>,
    pub current_pos: (usize, usize),
}

impl GameView {
    /// The board has its fixed size, and an active piece is well formed with
    /// its bounding box inside the board.
    pub open spec fn wf(self) -> bool {
        &&& self.board_width == BOARD_WIDTH
        &&& self.board_height == BOARD_HEIGHT
        &&& self.board.len() == self.board_height
        &&& forall|r: int| 0 <= r < self.board.len() ==> #[trigger] self.board[r].len() == self.board_width
        &&& match self.current_block {
            Some(b) => {
                &&& b.wf()
                &&& self.current_pos.0 + b.cells.len() <= self.board_width
                &&& self.current_pos.1 + b.cells.len() <= self.board_height
            },
            None => true,
        }
    }

    /// A fresh game: an empty board and no active piece at the origin.
    pub open spec fn initial(self) -> bool {
        &&& self.board_width == BOARD_WIDTH
        &&& self.board_height == BOARD_HEIGHT
        &&& self.board.len() == BOARD_HEIGHT
        &&& forall|r: int|
            0 <= r < BOARD_HEIGHT ==> #[trigger] self.board[r] == Seq::new(
                BOARD_WIDTH as nat,
                |c: int| Cell::Empty,
            )
        &&& self.current_block is None
        &&& self.current_pos == (0usize, 0usize)
    }

    /// The same game with the anchor at `pos`.
    pub open spec fn with_pos(self, pos: (usize, usize)) -> GameView {
        GameView { current_pos: pos, ..self }
    }

    /// One column to the left, unless no piece is active or it is at the left wall.
    pub open spec fn after_move_left(self) -> GameView {
        if self.current_block is Some && self.current_pos.0 > 0 {
            self.with_pos(((self.current_pos.0 - 1) as usize, self.current_pos.1))
        } else {
            self
        }
    }

    /// One column to the right, when a piece is active and its bounding box
    /// ends left of the right wall.
    pub open spec fn after_move_right(self) -> GameView {
        match self.current_block {
            Some(b) => if self.current_pos.0 + b.cells.len() < self.board_width {
                self.with_pos(((self.current_pos.0 + 1) as usize, self.current_pos.1))
            } else {
                self
            },
            None => self,
        }
    }

    /// One row down, when a piece is active and its bounding box ends above
    /// the floor.
    pub open spec fn after_move_down(self) -> GameView {
        match self.current_block {
            Some(b) => if self.current_pos.1 + b.cells.len() < self.board_height {
                self.with_pos((self.current_pos.0, (self.current_pos.1 + 1) as usize))
            } else {
                self
            },
            None => self,
        }
    }

    /// The active piece turned a quarter clockwise; nothing else changes.
    pub open spec fn after_rotate(self) -> GameView {
        match self.current_block {
            Some(b) => GameView {
                current_block: Some(ShapeView { cells: rotate_cw(b.cells), ..b }),
                ..self
            },
            None => self,
        }
    }

    /// A new piece of kind `t` at the top, its bounding box two columns left
    /// of the middle; the board stays.
    pub open spec fn after_spawn(self, t: BlockType) -> GameView {
        GameView {
            current_block: Some(
                ShapeView { block_type: t, cells: shape_cells(t), color: shape_color(t) },
            ),
            current_pos: ((self.board_width / 2 - 2) as usize, 0usize),
            ..self
        }
    }

    /// The cell at `r`, `c` after the debug fill: three cells of the diagonal
    /// get colors 0, 1 and 2, the others keep their value.
    pub open spec fn test_fill_cell(self, r: int, c: int) -> Cell {
        if r == 0 && c == 0 {
            Cell::Filled(0)
        } else if r == 1 && c == 1 {
            Cell::Filled(1)
        } else if r == 2 && c == 2 {
            Cell::Filled(2)
        } else {
            self.board[r][c]
        }
    }
    /// Whether board position `p = (x, y)` lies under an occupied entry of the
    /// active piece placed at the anchor.
    pub open spec fn covers(self, p: (usize, usize)) -> bool {
        match self.current_block {
            Some(b) => exists|i: int, j: int|
                0 <= i < b.cells.len() && 0 <= j < b.cells.len() && #[trigger] b.cells[i][j]
                    && p.0 == self.current_pos.0 + j && p.1 == self.current_pos.1 + i,
            None => false,
        }
    }
}

/// A board with an optional falling piece.
pub struct Game {
    board: Vec<Vec<Cell>>,
    board_width: usize,
    board_height: usize,
    current_block: Option<BlockShape>,
    current_pos: (usize, usize),
}

impl View for Game {
    type V = GameView;

    closed spec fn view(&self) -> GameView {
        GameView {
            board: self.board@.map_values(|row: Vec<Cell>| row@),
            board_width: self.board_width,
            board_height: self.board_height,
            current_block: match self.current_block {
                Some(b) => Some(b@),
                None => None,
            },
            current_pos: self.current_pos,
        }
    }
}

impl Game {
    pub open spec fn wf(&self) -> bool {
        self@.wf()
    }

    /// An empty board of `BOARD_WIDTH` columns and `BOARD_HEIGHT` rows, with no
    /// active piece.
    pub fn new() -> (r: Game)
        ensures
            r.wf(),
            r@.initial(),
    {
        let mut board: Vec<Vec<Cell>> = Vec::new();
        let mut r: usize = 0;
        while r < BOARD_HEIGHT
            invariant
                r <= BOARD_HEIGHT,
                board@.len() == r,
                forall|k: int|
                    0 <= k < r ==> (#[trigger] board@[k])@ == Seq::new(
                        BOARD_WIDTH as nat,
                        |c: int| Cell::Empty,
                    ),
            decreases BOARD_HEIGHT - r,
        {
            let mut row: Vec<Cell> = Vec::new();
            let mut c: usize = 0;
            while c < BOARD_WIDTH
                invariant
                    c <= BOARD_WIDTH,
                    row@.len() == c,
                    forall|k: int| 0 <= k < c ==> #[trigger] row@[k] == Cell::Empty,
                decreases BOARD_WIDTH - c,
            {
                row.push(Cell::Empty);
                c += 1;
            }
            proof {
                assert(row@ =~= Seq::new(BOARD_WIDTH as nat, |c: int| Cell::Empty));
            }
            board.push(row);
            r += 1;
        }
        Game {
            board,
            board_width: BOARD_WIDTH,
            board_height: BOARD_HEIGHT,
            current_block: None,
            current_pos: (0, 0),
        }
    }

    /// Moves the active piece one column left; at the left wall, or with no
    /// active piece, nothing changes.
    pub fn move_left(&mut self)
        requires
            old(self).wf(),
        ensures
            final(self).wf(),
            final(self)@ == old(self)@.after_move_left(),
            old(self)@.current_pos.0 == 0 ==> final(self)@ == old(self)@,
            old(self)@.current_block is None ==> final(self)@ == old(self)@,
    {
        if self.current_block.is_some() {
            if self.current_pos.0 > 0 {
                self.current_pos.0 = self.current_pos.0 - 1;
            }
        }
    }

    /// Moves the active piece one column right while its bounding box ends left
    /// of the right wall; otherwise, or with no active piece, nothing changes.
    pub fn move_right(&mut self)
        requires
            old(self).wf(),
        ensures
            final(self).wf(),
            final(self)@ == old(self)@.after_move_right(),
            old(self)@.current_block is None ==> final(self)@ == old(self)@,
            old(self)@.current_block is Some ==> {
                let n = old(self)@.current_block->Some_0.cells.len();
                &&& old(self)@.current_pos.0 + n == old(self)@.board_width ==> final(self)@ == old(self)@
                &&& old(self)@.current_pos.0 + n < old(self)@.board_width ==> {
                    &&& final(self)@.current_pos.0 == old(self)@.current_pos.0 + 1
                    &&& final(self)@.current_pos.1 == old(self)@.current_pos.1
                }
            },
    {
        match &self.current_block {
            Some(block) => {
                if self.current_pos.0 + block.size() < self.board_width {
                    self.current_pos.0 = self.current_pos.0 + 1;
                }
            },
            None => {},
        }
    }

    /// Moves the active piece one row down while its bounding box ends above
    /// the floor; otherwise, or with no active piece, nothing changes. Filled
    /// cells of the board are not consulted.
    pub fn move_down(&mut self)
        requires
            old(self).wf(),
        ensures
            final(self).wf(),
            final(self)@ == old(self)@.after_move_down(),
            old(self)@.current_block is None ==> final(self)@ == old(self)@,
            old(self)@.current_block is Some ==> {
                let n = old(self)@.current_block->Some_0.cells.len();
                &&& old(self)@.current_pos.1 + n == old(self)@.board_height ==> final(self)@ == old(self)@
                &&& old(self)@.current_pos.1 + n < old(self)@.board_height ==> {
                    &&& final(self)@.current_pos.0 == old(self)@.current_pos.0
                    &&& final(self)@.current_pos.1 == old(self)@.current_pos.1 + 1
                }
            },
    {
        match &self.current_block {
            Some(block) => {
                if self.current_pos.1 + block.size() < self.board_height {
                    self.current_pos.1 = self.current_pos.1 + 1;
                }
            },
            None => {},
        }
    }

    /// Turns the active piece a quarter clockwise where it stands; with no
    /// active piece nothing changes. The result is not checked against the board.
    pub fn rotate(&mut self)
        requires
            old(self).wf(),
        ensures
            final(self).wf(),
            final(self)@ == old(self)@.after_rotate(),
            old(self)@.current_block is None ==> final(self)@ == old(self)@,
    {
        match &mut self.current_block {
            Some(block) => {
                block.rotate();
            },
            None => {},
        }
        proof {
            assert(self@ =~= old(self)@.after_rotate());
        }
    }

    /// Replaces the active piece by a new piece of kind `block_type` at the top
    /// of the board, its bounding box two columns left of the middle.
    pub fn spawn(&mut self, block_type: BlockType)
        requires
            old(self).wf(),
        ensures
            final(self).wf(),
            final(self)@ == old(self)@.after_spawn(block_type),
    {
        let block = BlockShape::new(block_type);
        self.current_block = Some(block);
        self.current_pos = (self.board_width / 2 - 2, 0);
        proof {
            assert(self@ =~= old(self)@.after_spawn(block_type));
        }
    }

    /// Spawns a `T` piece.
    pub fn spawn_test_mino(&mut self)
        requires
            old(self).wf(),
        ensures
            final(self).wf(),
            final(self)@ == old(self)@.after_spawn(BlockType::T),
            final(self)@.current_pos == (3usize, 0usize),
    {
        self.spawn(BlockType::T);
    }

    /// Fills cell (0, 0) with color 0, (1, 1) with color 1 and (2, 2) with
    /// color 2, whatever they held; every other cell and the piece stay.
    pub fn test_fill(&mut self)
        requires
            old(self).wf(),
        ensures
            final(self).wf(),
            final(self)@.board.len() == old(self)@.board.len(),
            forall|r: int, c: int|
                0 <= r < old(self)@.board_height && 0 <= c < old(self)@.board_width
                    ==> #[trigger] final(self)@.board[r][c] == old(self)@.test_fill_cell(r, c),
            final(self)@.board_width == old(self)@.board_width,
            final(self)@.board_height == old(self)@.board_height,
            final(self)@.current_block == old(self)@.current_block,
            final(self)@.current_pos == old(self)@.current_pos,
    {
        self.set_cell(0, 0, Cell::Filled(0));
        self.set_cell(1, 1, Cell::Filled(1));
        self.set_cell(2, 2, Cell::Filled(2));
    }

    /// Writes `cell` at `row`, `col`.
    fn set_cell(&mut self, row: usize, col: usize, cell: Cell)
        requires
            old(self).wf(),
            row < old(self)@.board_height,
            col < old(self)@.board_width,
        ensures
            final(self).wf(),
            final(self)@ == (GameView {
                board: old(self)@.board.update(
                    row as int,
                    old(self)@.board[row as int].update(col as int, cell),
                ),
                ..old(self)@
            }),
    {
        proof {
            assert(self.board@[row as int]@ == self@.board[row as int]);
        }
        self.board[row][col] = cell;
        proof {
            let target = old(self)@.board.update(
                row as int,
                old(self)@.board[row as int].update(col as int, cell),
            );
            assert(self@.board =~~= target);
        }
    }

    /// Number of columns.
    pub fn board_width(&self) -> (r: usize)
        ensures
            r == self@.board_width,
    {
        self.board_width
    }

    /// Number of rows.
    pub fn board_height(&self) -> (r: usize)
        ensures
            r == self@.board_height,
    {
        self.board_height
    }

    /// The cell at `row`, `col`.
    pub fn cell(&self, row: usize, col: usize) -> (r: Cell)
        requires
            self.wf(),
            row < self@.board_height,
            col < self@.board_width,
        ensures
            r == self@.board[row as int][col as int],
    {
        proof {
            assert(self.board@[row as int]@ == self@.board[row as int]);
        }
        self.board[row][col]
    }

    /// The active piece, if any.
    pub fn current_block(&self) -> (r: Option<&BlockShape>)
        ensures
            match r {
                Some(b) => self@.current_block == Some(b@),
                None => self@.current_block is None,
            },
    {
        self.current_block.as_ref()
    }

    /// Board column and row of the top-left corner of the active piece's
    /// bounding box.
    pub fn current_pos(&self) -> (r: (usize, usize))
        ensures
            r == self@.current_pos,
    {
        self.current_pos
    }

    /// Board positions `(x, y)` covered by the active piece: `anchor + (col, row)`
    /// for each occupied entry of its matrix, each once. Empty when
    /// no piece is active.
    pub fn piece_cells(&self) -> (r: Vec<(usize, usize)>)
        requires
            self.wf(),
        ensures
            r@.no_duplicates(),
            self@.current_block is None ==> r@.len() == 0,
            forall|p: (usize, usize)|
                r@.contains(p) <==> self@.covers(p),
    {
        let mut out: Vec<(usize, usize)> = Vec::new();
        match &self.current_block {
            Some(block) => {
                let n = block.size();
                let (x, y) = self.current_pos;
                let mut i: usize = 0;
                while i < n
                    invariant
                        self.wf(),
                        self@.current_block == Some(block@),
                        n == block@.cells.len(),
                        (x, y) == self@.current_pos,
                        i <= n,
                        forall|k: int|
                            0 <= k < out@.len() ==> (#[trigger] out@[k]).1 < y + i,
                        out@.no_duplicates(),
                        forall|p: (usize, usize)|
                            out@.contains(p) <==> (self@.covers(p) && p.1 < y + i),
                    decreases n - i,
                {
                    let mut j: usize = 0;
                    while j < n
                        invariant
                            self.wf(),
                            self@.current_block == Some(block@),
                            n == block@.cells.len(),
                            (x, y) == self@.current_pos,
                            i < n,
                            j <= n,
                            forall|k: int|
                                0 <= k < out@.len() ==> (#[trigger] out@[k]).1 < y + i || (
                                out@[k].1 == y + i && out@[k].0 < x + j),
                            out@.no_duplicates(),
                            forall|p: (usize, usize)|
                                out@.contains(p) <==> (self@.covers(p) && (p.1 < y + i || (p.1
                                    == y + i && p.0 < x + j))),
                        decreases n - j,
                    {
                        let ghost prev = out@;
                        let ghost pp: (usize, usize) = ((x + j) as usize, (y + i) as usize);
                        let filled = block.is_filled(i, j);
                        if filled {
                            let p = (x + j, y + i);
                            proof {
                                assert(self@.covers(p));
                                assert(!out@.contains(p));
                            }
                            out.push(p);
                        }
                        proof {
                            assert forall|q: (usize, usize)| out@.contains(q) <==> (self@.covers(q)
                                && (q.1 < y + i || (q.1 == y + i && q.0 < x + j + 1))) by {
                                if filled {
                                    assert(out@ == prev.push(pp));
                                    assert(out@.contains(q) <==> (prev.contains(q) || q == pp)) by {
                                        if prev.contains(q) {
                                            let k = choose|k: int| 0 <= k < prev.len() && prev[k] == q;
                                            assert(out@[k] == q);
                                        }
                                        if q == pp {
                                            assert(out@[prev.len() as int] == q);
                                        }
                                    }
                                }
                                if self@.covers(q) && q.1 == y + i && q.0 == x + j {
                                    let b = block@;
                                    let (i2, j2) = choose|i2: int, j2: int|
                                        0 <= i2 < b.cells.len() && 0 <= j2 < b.cells.len()
                                            && #[trigger] b.cells[i2][j2] && q.0 == x + j2 && q.1
                                            == y + i2;
                                    assert(i2 == i && j2 == j);
                                }
                            }
                        }
                        j += 1;
                    }
                    proof {
                        assert forall|q: (usize, usize)| out@.contains(q) <==> (self@.covers(q)
                            && q.1 < y + i + 1) by {
                            if self@.covers(q) && q.1 == y + i {
                                assert(q.0 < x + n);
                            }
                        }
                    }
                    i += 1;
                }
            },
            None => {},
        }
        out
    }
}

} // verus!
