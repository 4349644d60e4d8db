use vstd::prelude::*;

verus! {

/// A mirror cube: a 3x3x3 cube whose pieces have different thicknesses.
pub struct Mirror;

/// The piece at `(x, y, z)`, each counted 0, 1, 2 along its axis, is the
/// hidden centre of the cube.
pub open spec fn is_center(x: int, y: int, z: int) -> bool {
    x == 1 && y == 1 && z == 1
}

/// The number `9x + 3y + z` of the cell `(x, y, z)` of a 3x3x3 grid.
pub open spec fn cell_number(x: int, y: int, z: int) -> int {
    9 * x + 3 * y + z
}

/// The cell of a 3x3x3 grid with number `n`.
pub open spec fn cell_of_number(n: int) -> (int, int, int) {
    (n / 9, (n / 3) % 3, n % 3)
}

/// The cell number of the `i`-th piece: the cells in order, with the centre
/// (number 13) left out.
pub open spec fn piece_number(i: int) -> int {
    if i < 13 {
        i
    } else {
        i + 1
    }
}

pub open spec fn index_triple(p: [usize; 3]) -> (int, int, int) {
    (p[0] as int, p[1] as int, p[2] as int)
}

impl Mirror {
    pub fn new() -> (mirror: Self) {
        Mirror
    }

    /// The grid positions of the 26 pieces: every cell of the 3x3x3 grid but
    /// the centre, in the order x, then y, then z.
    pub fn piece_positions(&self) -> (positions: Vec<[usize; 3]>)
        ensures
            positions@.len() == 26,
            forall|i: int|
                0 <= i < 26 ==> index_triple(#[trigger] positions@[i]) == cell_of_number(
                    piece_number(i),
                ),
    {
        let mut positions: Vec<[usize; 3]> = Vec::new();
        let mut x: usize = 0;
        while x < 3
            invariant
                x <= 3,
                positions@.len() == piece_count_before(cell_number(x as int, 0, 0)),
                forall|i: int|
                    0 <= i < positions@.len() ==> index_triple(#[trigger] positions@[i])
                        == cell_of_number(piece_number(i)),
            decreases 3 - x,
        {
            let mut y: usize = 0;
            while y < 3
                invariant
                    x < 3,
                    y <= 3,
                    positions@.len() == piece_count_before(cell_number(x as int, y as int, 0)),
                    forall|i: int|
                        0 <= i < positions@.len() ==> index_triple(#[trigger] positions@[i])
                            == cell_of_number(piece_number(i)),
                decreases 3 - y,
            {
                let mut z: usize = 0;
                while z < 3
                    invariant
                        x < 3,
                        y < 3,
                        z <= 3,
                        positions@.len() == piece_count_before(
                            cell_number(x as int, y as int, z as int),
                        ),
                        forall|i: int|
                            0 <= i < positions@.len() ==> index_triple(#[trigger] positions@[i])
                                == cell_of_number(piece_number(i)),
                    decreases 3 - z,
                {
                    assert((x & y & z == 1) == (x == 1 && y == 1 && z == 1)) by (bit_vector)
                        requires
                            x < 3,
                            y < 3,
                            z < 3,
                    ;
                    if x & y & z != 1 {
                        let ghost n = cell_number(x as int, y as int, z as int);
                        assert(cell_of_number(n) == (x as int, y as int, z as int));
                        assert(piece_number(piece_count_before(n)) == n);
                        positions.push([x, y, z]);
                    }
                    z = z + 1;
                }
                y = y + 1;
            }
            x = x + 1;
        }
        positions
    }
}

/// How many pieces come before the cell with number `n`.
pub open spec fn piece_count_before(n: int) -> int {
    if n <= 13 {
        n
    } else {
        n - 1
    }
}

/// The pieces of a mirror cube are the 26 cells of its 3x3x3 grid other than
/// the centre, each exactly once.
pub proof fn lemma_pieces_are_outer_cells()
    ensures
        forall|i: int|
            0 <= i < 26 ==> {
                let c = #[trigger] cell_of_number(piece_number(i));
                &&& 0 <= c.0 < 3 && 0 <= c.1 < 3 && 0 <= c.2 < 3
                &&& !is_center(c.0, c.1, c.2)
            },
        forall|i: int, j: int|
            0 <= i < j < 26 ==> #[trigger] cell_of_number(piece_number(i)) != #[trigger] cell_of_number(
                piece_number(j),
            ),
        forall|x: int, y: int, z: int|
            0 <= x < 3 && 0 <= y < 3 && 0 <= z < 3 && !is_center(x, y, z) ==> {
                let i = piece_count_before(#[trigger] cell_number(x, y, z));
                0 <= i < 26 && cell_of_number(piece_number(i)) == (x, y, z)
            },
{
    assert forall|i: int, j: int| 0 <= i < j < 26 implies #[trigger] cell_of_number(
        piece_number(i),
    ) != #[trigger] cell_of_number(piece_number(j)) by {
        let a = cell_of_number(piece_number(i));
        let b = cell_of_number(piece_number(j));
        assert(piece_number(i) == cell_number(a.0, a.1, a.2));
        assert(piece_number(j) == cell_number(b.0, b.1, b.2));
    }
}

} // verus!
