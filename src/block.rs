use vstd::prelude::*;

verus! {

/// One slot of the board: empty, or filled with a color index.
#[derive(Clone, Copy, PartialEq, Eq, Structural, Debug)]
pub enum Cell {
    Empty,
    Filled(u8),
}

/// The seven canonical piece kinds.
#[derive(Clone, Copy, PartialEq, Eq, Structural, Debug)]
pub enum BlockType {
    I,
    O,
    T,
    S,
    Z,
    J,
    L,
}

/// Side of the square bounding box of each kind.
pub open spec fn shape_size(t: BlockType) -> nat {
    match t {
        BlockType::I => 4,
        BlockType::O => 2,
        _ => 3,
    }
}

/// Color index of each kind.
pub open spec fn shape_color(t: BlockType) -> u8 {
    match t {
        BlockType::I => 0,
        BlockType::O => 1,
        BlockType::T => 2,
        BlockType::J => 3,
        BlockType::L => 4,
        BlockType::S => 5,
        BlockType::Z => 6,
    }
}

/// Occupancy matrix of each kind in its spawn orientation.
pub open spec fn shape_cells(t: BlockType) -> Seq<Seq<bool>> {
    match t {
        BlockType::I => seq![
            seq![false, false, false, false],
            seq![true, true, true, true],
            seq![false, false, false, false],
            seq![false, false, false, false],
        ],
        BlockType::O => seq![seq![true, true], seq![true, true]],
        BlockType::T => seq![
            seq![false, true, false],
            seq![true, true, true],
            seq![false, false, false],
        ],
        BlockType::S => seq![
            seq![false, true, true],
            seq![true, true, false],
            seq![false, false, false],
        ],
        BlockType::Z => seq![
            seq![true, true, false],
            seq![false, true, true],
            seq![false, false, false],
        ],
        BlockType::J => seq![
            seq![true, false, false],
            seq![true, true, true],
            seq![false, false, false],
        ],
        BlockType::L => seq![
            seq![false, false, true],
            seq![true, true, true],
            seq![false, false, false],
        ],
    }
}

/// Every row is as long as the matrix is tall.
pub open spec fn is_square(m: Seq<Seq<bool>>) -> bool {
    forall|i: int| 0 <= i < m.len() ==> #[trigger] m[i].len() == m.len()
}

/// One clockwise quarter turn of a square matrix: row `r`, column `c` of the
/// result is read from row `n - 1 - c`, column `r` of the input.
pub open spec fn rotate_cw(m: Seq<Seq<bool>>) -> Seq<Seq<bool>> {
    Seq::new(m.len(), |r: int| Seq::new(m.len(), |c: int| m[m.len() - 1 - c][r]))
}

/// Mathematical value of a piece.
pub struct ShapeView {
    pub block_type: BlockType,
    pub cells: Seq<Seq<bool>>,
    pub color: u8,
}

impl ShapeView {
    /// The matrix is square with the side of the kind, and the color is the kind's.
    pub open spec fn wf(self) -> bool {
        &&& is_square(self.cells)
        &&& self.cells.len() == shape_size(self.block_type)
        &&& self.color == shape_color(self.block_type)
    }
}

/// A piece: its kind, its occupancy matrix in the current orientation, and its color.
pub struct BlockShape {
    block_type: BlockType,
    cells: Vec<Vec<bool>>,
    color: u8,
}

impl View for BlockShape {
    type V = ShapeView;

    closed spec fn view(&self) -> ShapeView {
        ShapeView {
            block_type: self.block_type,
            cells: self.cells@.map_values(|row: Vec<bool>| row@),
            color: self.color,
        }
    }
}

fn row2(a: bool, b: bool) -> (r: Vec<bool>)
    ensures
        r@ == seq![a, b],
{
    let mut r: Vec<bool> = Vec::new();
    r.push(a);
    r.push(b);
    proof {
        assert(r@ =~= seq![a, b]);
    }
    r
}

fn row3(a: bool, b: bool, c: bool) -> (r: Vec<bool>)
    ensures
        r@ == seq![a, b, c],
{
    let mut r: Vec<bool> = Vec::new();
    r.push(a);
    r.push(b);
    r.push(c);
    proof {
        assert(r@ =~= seq![a, b, c]);
    }
    r
}

fn row4(a: bool, b: bool, c: bool, d: bool) -> (r: Vec<bool>)
    ensures
        r@ == seq![a, b, c, d],
{
    let mut r: Vec<bool> = Vec::new();
    r.push(a);
    r.push(b);
    r.push(c);
    r.push(d);
    proof {
        assert(r@ =~= seq![a, b, c, d]);
    }
    r
}

impl BlockShape {
    pub open spec fn wf(&self) -> bool {
        self@.wf()
    }

    /// The piece of kind `block_type` in its spawn orientation.
    pub fn new(block_type: BlockType) -> (r: BlockShape)
        ensures
            r.wf(),
            r@.block_type == block_type,
            r@.cells == shape_cells(block_type),
            r@.color == shape_color(block_type),
            r@.cells.len() > 0,
            is_square(r@.cells),
            r@.color <= 6,
    {
        let mut cells: Vec<Vec<bool>> = Vec::new();
        let color: u8;
        match block_type {
            BlockType::I => {
                cells.push(row4(false, false, false, false));
                cells.push(row4(true, true, true, true));
                cells.push(row4(false, false, false, false));
                cells.push(row4(false, false, false, false));
                color = 0;
            },
            BlockType::O => {
                cells.push(row2(true, true));
                cells.push(row2(true, true));
                color = 1;
            },
            BlockType::T => {
                cells.push(row3(false, true, false));
                cells.push(row3(true, true, true));
                cells.push(row3(false, false, false));
                color = 2;
            },
            BlockType::S => {
                cells.push(row3(false, true, true));
                cells.push(row3(true, true, false));
                cells.push(row3(false, false, false));
                color = 5;
            },
            BlockType::Z => {
                cells.push(row3(true, true, false));
                cells.push(row3(false, true, true));
                cells.push(row3(false, false, false));
                color = 6;
            },
            BlockType::J => {
                cells.push(row3(true, false, false));
                cells.push(row3(true, true, true));
                cells.push(row3(false, false, false));
                color = 3;
            },
            BlockType::L => {
                cells.push(row3(false, false, true));
                cells.push(row3(true, true, true));
                cells.push(row3(false, false, false));
                color = 4;
            },
        }
        let r = BlockShape { block_type, cells, color };
        proof {
            assert(r@.cells =~~= shape_cells(block_type));
        }
        r
    }

    /// One clockwise quarter turn in place; the side of the matrix, the kind
    /// and the color stay.
    pub fn rotate(&mut self)
        requires
            old(self).wf(),
        ensures
            final(self).wf(),
            final(self)@.cells == rotate_cw(old(self)@.cells),
            final(self)@.block_type == old(self)@.block_type,
            final(self)@.color == old(self)@.color,
    {
        let n = self.cells.len();
        let ghost m = self@.cells;
        let mut rotated: Vec<Vec<bool>> = Vec::new();
        let mut r: usize = 0;
        while r < n
            invariant
                n == m.len(),
                m == self@.cells,
                self.wf(),
                r <= n,
                rotated@.len() == r,
                forall|k: int| 0 <= k < r ==> (#[trigger] rotated@[k])@ == rotate_cw(m)[k],
            decreases n - r,
        {
            let mut row: Vec<bool> = Vec::new();
            let mut c: usize = 0;
            while c < n
                invariant
                    n == m.len(),
                    m == self@.cells,
                    self.wf(),
                    r < n,
                    c <= n,
                    row@.len() == c,
                    forall|k: int| 0 <= k < c ==> #[trigger] row@[k] == m[n - 1 - k][r as int],
                decreases n - c,
            {
                proof {
                    assert(self.cells@[n - 1 - c]@ == m[n - 1 - c]);
                }
                row.push(self.cells[n - 1 - c][r]);
                c += 1;
            }
            proof {
                assert(row@ =~= rotate_cw(m)[r as int]);
            }
            rotated.push(row);
            r += 1;
        }
        self.cells = rotated;
        proof {
            assert(self@.cells =~~= rotate_cw(m));
        }
    }

    /// Kind of the piece.
    pub fn block_type(&self) -> (r: BlockType)
        ensures
            r == self@.block_type,
    {
        self.block_type
    }

    /// Color index of the piece.
    pub fn color(&self) -> (r: u8)
        ensures
            r == self@.color,
    {
        self.color
    }

    /// Side of the bounding box.
    pub fn size(&self) -> (r: usize)
        ensures
            r == self@.cells.len(),
    {
        self.cells.len()
    }

    /// Occupancy matrix in the current orientation, rows first.
    pub fn cells(&self) -> (r: &Vec<Vec<bool>>)
        ensures
            r@.map_values(|row: Vec<bool>| row@) == self@.cells,
    {
        &self.cells
    }

    /// Whether the sub-cell at `row`, `col` of the bounding box is occupied.
    pub fn is_filled(&self, row: usize, col: usize) -> (r: bool)
        requires
            self.wf(),
            row < self@.cells.len(),
            col < self@.cells.len(),
        ensures
            r == self@.cells[row as int][col as int],
    {
        proof {
            assert(self.cells@[row as int]@ == self@.cells[row as int]);
        }
        self.cells[row][col]
    }
}

/// A quarter turn of a square matrix is square of the same side, and takes the
/// entry at row `i`, column `j` to row `j`, column `n - 1 - i`.
pub proof fn lemma_rotate_cw_moves_entries(m: Seq<Seq<bool>>)
    requires
        is_square(m),
    ensures
        is_square(rotate_cw(m)),
        rotate_cw(m).len() == m.len(),
        forall|i: int, j: int|
            0 <= i < m.len() && 0 <= j < m.len() ==> rotate_cw(m)[j][m.len() - 1 - i]
                == #[trigger] m[i][j],
{
}

/// Four quarter turns of a piece give back its matrix.
pub proof fn lemma_four_rotations(s: BlockShape)
    requires
        s.wf(),
    ensures
        rotate_cw(rotate_cw(rotate_cw(rotate_cw(s@.cells)))) == s@.cells,
{
    let m = s@.cells;
    let n = m.len();
    let m2 = rotate_cw(rotate_cw(m));
    assert(m2.len() == n);
    assert forall|r: int, c: int| 0 <= r < n && 0 <= c < n implies #[trigger] m2[r][c]
        == m[n - 1 - r][n - 1 - c] by {
        assert(rotate_cw(m)[n - 1 - c].len() == n);
    }
    let m4 = rotate_cw(rotate_cw(m2));
    assert forall|r: int| 0 <= r < n implies #[trigger] m4[r] =~= m[r] by {
        assert forall|c: int| 0 <= c < n implies #[trigger] m4[r][c] == m[r][c] by {
            assert(m2[n - 1 - r][n - 1 - c] == m[r][c]);
        }
    }
    assert(m4 =~~= m);
}

} // verus!
