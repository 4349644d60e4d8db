use vstd::prelude::*;
use crate::box_mesh::{cross, dot, Triple};

verus! {

/// Sides of the tetrahedron of a pyraminx.
pub const NUMBER_OF_TETRAHEDRON_SIDES: u32 = 4;

/// Sides of the triangular bipyramid that is drawn for a pyraminx.
pub const NUMBER_OF_BIPYRAMID_SIDES: u32 = 8;

/// Colours in the pyraminx texture: one per tetrahedron side, then grey.
pub const NUMBER_OF_COLORS: u32 = 5;

/// Vertices of each (triangular) side.
pub const NUMBER_OF_VERTICES_PER_SIDE: u32 = 3;

/// A pyraminx with `dimension` pieces along each edge.
pub struct Pyraminx {
    pub dimension: u32,
}

/// Corners of the tetrahedron.
pub const TETRA_BACK: u8 = 0;
pub const TETRA_LEFT: u8 = 1;
pub const TETRA_RIGHT: u8 = 2;
pub const TETRA_TOP: u8 = 3;

/// Corners of the bipyramid: three on the upper plane, three on the lower.
pub const UPPER_BACK: u8 = 0;
pub const UPPER_LEFT: u8 = 1;
pub const UPPER_RIGHT: u8 = 2;
pub const LOWER_FRONT: u8 = 3;
pub const LOWER_LEFT: u8 = 4;
pub const LOWER_RIGHT: u8 = 5;

/// The sides of the tetrahedron (bottom, front, right, left), each as its
/// three corners.
pub open spec fn tetrahedron_side_seq() -> Seq<[u8; 3]> {
    seq![
        [TETRA_BACK, TETRA_RIGHT, TETRA_LEFT],
        [TETRA_TOP, TETRA_LEFT, TETRA_RIGHT],
        [TETRA_TOP, TETRA_RIGHT, TETRA_BACK],
        [TETRA_TOP, TETRA_BACK, TETRA_LEFT],
    ]
}

/// The sides of the bipyramid (bottom, top, upper front, upper right, upper
/// left, lower back, lower right, lower left), each as its three corners.
pub open spec fn bipyramid_side_seq() -> Seq<[u8; 3]> {
    seq![
        [LOWER_FRONT, LOWER_LEFT, LOWER_RIGHT],
        [UPPER_BACK, UPPER_LEFT, UPPER_RIGHT],
        [LOWER_FRONT, UPPER_RIGHT, UPPER_LEFT],
        [LOWER_RIGHT, UPPER_BACK, UPPER_RIGHT],
        [LOWER_LEFT, UPPER_LEFT, UPPER_BACK],
        [UPPER_BACK, LOWER_RIGHT, LOWER_LEFT],
        [UPPER_RIGHT, LOWER_FRONT, LOWER_RIGHT],
        [UPPER_LEFT, LOWER_LEFT, LOWER_FRONT],
    ]
}

impl Pyraminx {
    pub fn new(dimension: u32) -> (pyraminx: Self)
        ensures
            pyraminx.dimension == dimension,
    {
        Pyraminx { dimension }
    }

    /// The corners of each side of the tetrahedron, in the order in which
    /// its triangles are drawn.
    pub fn tetrahedron_sides(&self) -> (sides: Vec<[u8; 3]>)
        ensures
            sides@ == tetrahedron_side_seq(),
            closed_oriented(sides@),
            forall|f: int| 0 <= f < 4 ==> #[trigger] tetrahedron_side_faces_out(sides@, f),
    {
        let sides = vec![
            [TETRA_BACK, TETRA_RIGHT, TETRA_LEFT],  // bottom
            [TETRA_TOP, TETRA_LEFT, TETRA_RIGHT],  // front
            [TETRA_TOP, TETRA_RIGHT, TETRA_BACK],  // right
            [TETRA_TOP, TETRA_BACK, TETRA_LEFT],  // left
        ];
        assert(sides@ == tetrahedron_side_seq());
        proof {
            lemma_tetrahedron_closed_oriented();
            lemma_tetrahedron_outward();
        }
        sides
    }

    /// The corners of each side of the bipyramid, in the order in which its
    /// triangles are drawn.
    pub fn bipyramid_sides(&self) -> (sides: Vec<[u8; 3]>)
        ensures
            sides@ == bipyramid_side_seq(),
            closed_oriented(sides@),
            forall|f: int, k: int, m: int|
                0 <= f < 8 && 0 <= k < 3 && 0 <= m < 3 ==> !opposite_corners(
                    #[trigger] sides@[f][k],
                    #[trigger] sides@[f][m],
                ),
            forall|f: int| 0 <= f < 8 ==> #[trigger] octahedron_side_faces_out(sides@, f),
    {
        let sides = vec![
            [LOWER_FRONT, LOWER_LEFT, LOWER_RIGHT],  // bottom
            [UPPER_BACK, UPPER_LEFT, UPPER_RIGHT],  // top
            [LOWER_FRONT, UPPER_RIGHT, UPPER_LEFT],  // upper front
            [LOWER_RIGHT, UPPER_BACK, UPPER_RIGHT],  // upper right
            [LOWER_LEFT, UPPER_LEFT, UPPER_BACK],  // upper left
            [UPPER_BACK, LOWER_RIGHT, LOWER_LEFT],  // lower back
            [UPPER_RIGHT, LOWER_FRONT, LOWER_RIGHT],  // lower right
            [UPPER_LEFT, LOWER_LEFT, LOWER_FRONT],  // lower left
        ];
        assert(sides@ == bipyramid_side_seq());
        proof {
            lemma_bipyramid_closed_oriented();
            lemma_bipyramid_convex_outward();
        }
        sides
    }
}

/// The vertex indices of a triangle list whose `sides` triangles each have
/// three vertices of their own: triangle `i` is vertices `3i, 3i+1, 3i+2`.
pub fn sequential_triangle_indices(sides: u32) -> (indices: Vec<u32>)
    requires
        3 * sides <= u32::MAX,
    ensures
        indices@.len() == 3 * sides,
        forall|i: int| 0 <= i < indices@.len() ==> #[trigger] indices@[i] == i,
{
    let mut indices: Vec<u32> = Vec::new();
    let mut i: u32 = 0;
    while i < sides
        invariant
            i <= sides,
            3 * sides <= u32::MAX,
            indices@.len() == 3 * i,
            forall|k: int| 0 <= k < indices@.len() ==> #[trigger] indices@[k] == k,
        decreases sides - i,
    {
        let offset = i * NUMBER_OF_VERTICES_PER_SIDE;
        let mut k: u32 = offset;
        while k < offset + NUMBER_OF_VERTICES_PER_SIDE
            invariant
                i < sides,
                3 * sides <= u32::MAX,
                offset == 3 * i,
                offset <= k <= offset + 3,
                indices@.len() == k,
                forall|m: int| 0 <= m < indices@.len() ==> #[trigger] indices@[m] == m,
            decreases offset + 3 - k,
        {
            indices.push(k);
            k = k + 1;
        }
        i = i + 1;
    }
    indices
}

/// Edge `k` of side `f`, walked in the side's own order.
pub open spec fn edge(sides: Seq<[u8; 3]>, f: int, k: int) -> (u8, u8) {
    (sides[f][k], sides[f][(k + 1) % 3])
}

/// Some side of `sides` walks edge `k` of side `f` the other way.
pub open spec fn has_reverse_edge(sides: Seq<[u8; 3]>, f: int, k: int) -> bool {
    exists|g: int, m: int|
        0 <= g < sides.len() && 0 <= m < 3 && #[trigger] edge(sides, g, m) == (
            edge(sides, f, k).1,
            edge(sides, f, k).0,
        )
}

/// `sides` bound a closed, consistently oriented surface: every edge of a
/// side is walked the other way by a side, and no edge is walked twice in the
/// same direction, so each edge joins exactly two sides, walked both ways.
pub open spec fn closed_oriented(sides: Seq<[u8; 3]>) -> bool {
    &&& forall|f: int, k: int|
        0 <= f < sides.len() && 0 <= k < 3 ==> #[trigger] has_reverse_edge(sides, f, k)
    &&& forall|f: int, k: int, g: int, m: int|
        0 <= f < sides.len() && 0 <= k < 3 && 0 <= g < sides.len() && 0 <= m < 3 && (f != g || k
            != m) ==> #[trigger] edge(sides, f, k) != #[trigger] edge(sides, g, m)
}

/// The number `3f + k` of the edge `(u, v)` of the tetrahedron.
spec fn tetrahedron_edge_slot(e: (u8, u8)) -> int {
    if e == (0u8, 2u8) {
        0
    } else if e == (2u8, 1u8) {
        1
    } else if e == (1u8, 0u8) {
        2
    } else if e == (3u8, 1u8) {
        3
    } else if e == (1u8, 2u8) {
        4
    } else if e == (2u8, 3u8) {
        5
    } else if e == (3u8, 2u8) {
        6
    } else if e == (2u8, 0u8) {
        7
    } else if e == (0u8, 3u8) {
        8
    } else if e == (3u8, 0u8) {
        9
    } else if e == (0u8, 1u8) {
        10
    } else if e == (1u8, 3u8) {
        11
    } else {
        -1
    }
}

proof fn lemma_tetrahedron_edge(f: int, k: int)
    requires
        0 <= f < 4,
        0 <= k < 3,
    ensures
        tetrahedron_edge_slot(edge(tetrahedron_side_seq(), f, k)) == 3 * f + k,
        ({
            let r = (edge(tetrahedron_side_seq(), f, k).1, edge(tetrahedron_side_seq(), f, k).0);
            let s = tetrahedron_edge_slot(r);
            0 <= s < 12 && edge(tetrahedron_side_seq(), s / 3, s % 3) == r
        }),
{
    let sides = tetrahedron_side_seq();
    if f == 0 && k == 0 {
        assert(sides[0] == [0u8, 2u8, 1u8]);
        assert(sides[2] == [3u8, 2u8, 0u8]);
        assert(edge(sides, 0, 0) == (0u8, 2u8));
        assert(edge(sides, 2, 1) == (2u8, 0u8));
    } else if f == 0 && k == 1 {
        assert(sides[0] == [0u8, 2u8, 1u8]);
        assert(sides[1] == [3u8, 1u8, 2u8]);
        assert(edge(sides, 0, 1) == (2u8, 1u8));
        assert(edge(sides, 1, 1) == (1u8, 2u8));
    } else if f == 0 && k == 2 {
        assert(sides[0] == [0u8, 2u8, 1u8]);
        assert(sides[3] == [3u8, 0u8, 1u8]);
        assert(edge(sides, 0, 2) == (1u8, 0u8));
        assert(edge(sides, 3, 1) == (0u8, 1u8));
    } else if f == 1 && k == 0 {
        assert(sides[1] == [3u8, 1u8, 2u8]);
        assert(sides[3] == [3u8, 0u8, 1u8]);
        assert(edge(sides, 1, 0) == (3u8, 1u8));
        assert(edge(sides, 3, 2) == (1u8, 3u8));
    } else if f == 1 && k == 1 {
        assert(sides[1] == [3u8, 1u8, 2u8]);
        assert(sides[0] == [0u8, 2u8, 1u8]);
        assert(edge(sides, 1, 1) == (1u8, 2u8));
        assert(edge(sides, 0, 1) == (2u8, 1u8));
    } else if f == 1 && k == 2 {
        assert(sides[1] == [3u8, 1u8, 2u8]);
        assert(sides[2] == [3u8, 2u8, 0u8]);
        assert(edge(sides, 1, 2) == (2u8, 3u8));
        assert(edge(sides, 2, 0) == (3u8, 2u8));
    } else if f == 2 && k == 0 {
        assert(sides[2] == [3u8, 2u8, 0u8]);
        assert(sides[1] == [3u8, 1u8, 2u8]);
        assert(edge(sides, 2, 0) == (3u8, 2u8));
        assert(edge(sides, 1, 2) == (2u8, 3u8));
    } else if f == 2 && k == 1 {
        assert(sides[2] == [3u8, 2u8, 0u8]);
        assert(sides[0] == [0u8, 2u8, 1u8]);
        assert(edge(sides, 2, 1) == (2u8, 0u8));
        assert(edge(sides, 0, 0) == (0u8, 2u8));
    } else if f == 2 && k == 2 {
        assert(sides[2] == [3u8, 2u8, 0u8]);
        assert(sides[3] == [3u8, 0u8, 1u8]);
        assert(edge(sides, 2, 2) == (0u8, 3u8));
        assert(edge(sides, 3, 0) == (3u8, 0u8));
    } else if f == 3 && k == 0 {
        assert(sides[3] == [3u8, 0u8, 1u8]);
        assert(sides[2] == [3u8, 2u8, 0u8]);
        assert(edge(sides, 3, 0) == (3u8, 0u8));
        assert(edge(sides, 2, 2) == (0u8, 3u8));
    } else if f == 3 && k == 1 {
        assert(sides[3] == [3u8, 0u8, 1u8]);
        assert(sides[0] == [0u8, 2u8, 1u8]);
        assert(edge(sides, 3, 1) == (0u8, 1u8));
        assert(edge(sides, 0, 2) == (1u8, 0u8));
    } else {
        assert(sides[3] == [3u8, 0u8, 1u8]);
        assert(sides[1] == [3u8, 1u8, 2u8]);
        assert(edge(sides, 3, 2) == (1u8, 3u8));
        assert(edge(sides, 1, 0) == (3u8, 1u8));
    }
}

/// The tetrahedron is a closed surface whose sides are consistently oriented:
/// each edge joins exactly two sides, which walk it in opposite directions.
pub proof fn lemma_tetrahedron_closed_oriented()
    ensures
        closed_oriented(tetrahedron_side_seq()),
{
    let sides = tetrahedron_side_seq();
    assert forall|f: int, k: int| 0 <= f < sides.len() && 0 <= k < 3 implies #[trigger] has_reverse_edge(sides, f, k) by {
        lemma_tetrahedron_edge(f, k);
        let s = tetrahedron_edge_slot((edge(sides, f, k).1, edge(sides, f, k).0));
        assert(edge(sides, s / 3, s % 3) == (edge(sides, f, k).1, edge(sides, f, k).0));
    }
    assert forall|f: int, k: int, g: int, m: int|
        0 <= f < sides.len() && 0 <= k < 3 && 0 <= g < sides.len() && 0 <= m < 3 && (f != g || k
            != m) implies #[trigger] edge(sides, f, k) != #[trigger] edge(sides, g, m) by {
        lemma_tetrahedron_edge(f, k);
        lemma_tetrahedron_edge(g, m);
    }
}
/// The number `3f + k` of the edge `(u, v)` of the bipyramid.
spec fn bipyramid_edge_slot(e: (u8, u8)) -> int {
    if e == (3u8, 4u8) {
        0
    } else if e == (4u8, 5u8) {
        1
    } else if e == (5u8, 3u8) {
        2
    } else if e == (0u8, 1u8) {
        3
    } else if e == (1u8, 2u8) {
        4
    } else if e == (2u8, 0u8) {
        5
    } else if e == (3u8, 2u8) {
        6
    } else if e == (2u8, 1u8) {
        7
    } else if e == (1u8, 3u8) {
        8
    } else if e == (5u8, 0u8) {
        9
    } else if e == (0u8, 2u8) {
        10
    } else if e == (2u8, 5u8) {
        11
    } else if e == (4u8, 1u8) {
        12
    } else if e == (1u8, 0u8) {
        13
    } else if e == (0u8, 4u8) {
        14
    } else if e == (0u8, 5u8) {
        15
    } else if e == (5u8, 4u8) {
        16
    } else if e == (4u8, 0u8) {
        17
    } else if e == (2u8, 3u8) {
        18
    } else if e == (3u8, 5u8) {
        19
    } else if e == (5u8, 2u8) {
        20
    } else if e == (1u8, 4u8) {
        21
    } else if e == (4u8, 3u8) {
        22
    } else if e == (3u8, 1u8) {
        23
    } else {
        -1
    }
}

proof fn lemma_bipyramid_edge(f: int, k: int)
    requires
        0 <= f < 8,
        0 <= k < 3,
    ensures
        bipyramid_edge_slot(edge(bipyramid_side_seq(), f, k)) == 3 * f + k,
        ({
            let r = (edge(bipyramid_side_seq(), f, k).1, edge(bipyramid_side_seq(), f, k).0);
            let s = bipyramid_edge_slot(r);
            0 <= s < 24 && edge(bipyramid_side_seq(), s / 3, s % 3) == r
        }),
{
    let sides = bipyramid_side_seq();
    if f == 0 && k == 0 {
        assert(sides[0] == [3u8, 4u8, 5u8]);
        assert(sides[7] == [1u8, 4u8, 3u8]);
        assert(edge(sides, 0, 0) == (3u8, 4u8));
        assert(edge(sides, 7, 1) == (4u8, 3u8));
    } else if f == 0 && k == 1 {
        assert(sides[0] == [3u8, 4u8, 5u8]);
        assert(sides[5] == [0u8, 5u8, 4u8]);
        assert(edge(sides, 0, 1) == (4u8, 5u8));
        assert(edge(sides, 5, 1) == (5u8, 4u8));
    } else if f == 0 && k == 2 {
        assert(sides[0] == [3u8, 4u8, 5u8]);
        assert(sides[6] == [2u8, 3u8, 5u8]);
        assert(edge(sides, 0, 2) == (5u8, 3u8));
        assert(edge(sides, 6, 1) == (3u8, 5u8));
    } else if f == 1 && k == 0 {
        assert(sides[1] == [0u8, 1u8, 2u8]);
        assert(sides[4] == [4u8, 1u8, 0u8]);
        assert(edge(sides, 1, 0) == (0u8, 1u8));
        assert(edge(sides, 4, 1) == (1u8, 0u8));
    } else if f == 1 && k == 1 {
        assert(sides[1] == [0u8, 1u8, 2u8]);
        assert(sides[2] == [3u8, 2u8, 1u8]);
        assert(edge(sides, 1, 1) == (1u8, 2u8));
        assert(edge(sides, 2, 1) == (2u8, 1u8));
    } else if f == 1 && k == 2 {
        assert(sides[1] == [0u8, 1u8, 2u8]);
        assert(sides[3] == [5u8, 0u8, 2u8]);
        assert(edge(sides, 1, 2) == (2u8, 0u8));
        assert(edge(sides, 3, 1) == (0u8, 2u8));
    } else if f == 2 && k == 0 {
        assert(sides[2] == [3u8, 2u8, 1u8]);
        assert(sides[6] == [2u8, 3u8, 5u8]);
        assert(edge(sides, 2, 0) == (3u8, 2u8));
        assert(edge(sides, 6, 0) == (2u8, 3u8));
    } else if f == 2 && k == 1 {
        assert(sides[2] == [3u8, 2u8, 1u8]);
        assert(sides[1] == [0u8, 1u8, 2u8]);
        assert(edge(sides, 2, 1) == (2u8, 1u8));
        assert(edge(sides, 1, 1) == (1u8, 2u8));
    } else if f == 2 && k == 2 {
        assert(sides[2] == [3u8, 2u8, 1u8]);
        assert(sides[7] == [1u8, 4u8, 3u8]);
        assert(edge(sides, 2, 2) == (1u8, 3u8));
        assert(edge(sides, 7, 2) == (3u8, 1u8));
    } else if f == 3 && k == 0 {
        assert(sides[3] == [5u8, 0u8, 2u8]);
        assert(sides[5] == [0u8, 5u8, 4u8]);
        assert(edge(sides, 3, 0) == (5u8, 0u8));
        assert(edge(sides, 5, 0) == (0u8, 5u8));
    } else if f == 3 && k == 1 {
        assert(sides[3] == [5u8, 0u8, 2u8]);
        assert(sides[1] == [0u8, 1u8, 2u8]);
        assert(edge(sides, 3, 1) == (0u8, 2u8));
        assert(edge(sides, 1, 2) == (2u8, 0u8));
    } else if f == 3 && k == 2 {
        assert(sides[3] == [5u8, 0u8, 2u8]);
        assert(sides[6] == [2u8, 3u8, 5u8]);
        assert(edge(sides, 3, 2) == (2u8, 5u8));
        assert(edge(sides, 6, 2) == (5u8, 2u8));
    } else if f == 4 && k == 0 {
        assert(sides[4] == [4u8, 1u8, 0u8]);
        assert(sides[7] == [1u8, 4u8, 3u8]);
        assert(edge(sides, 4, 0) == (4u8, 1u8));
        assert(edge(sides, 7, 0) == (1u8, 4u8));
    } else if f == 4 && k == 1 {
        assert(sides[4] == [4u8, 1u8, 0u8]);
        assert(sides[1] == [0u8, 1u8, 2u8]);
        assert(edge(sides, 4, 1) == (1u8, 0u8));
        assert(edge(sides, 1, 0) == (0u8, 1u8));
    } else if f == 4 && k == 2 {
        assert(sides[4] == [4u8, 1u8, 0u8]);
        assert(sides[5] == [0u8, 5u8, 4u8]);
        assert(edge(sides, 4, 2) == (0u8, 4u8));
        assert(edge(sides, 5, 2) == (4u8, 0u8));
    } else if f == 5 && k == 0 {
        assert(sides[5] == [0u8, 5u8, 4u8]);
        assert(sides[3] == [5u8, 0u8, 2u8]);
        assert(edge(sides, 5, 0) == (0u8, 5u8));
        assert(edge(sides, 3, 0) == (5u8, 0u8));
    } else if f == 5 && k == 1 {
        assert(sides[5] == [0u8, 5u8, 4u8]);
        assert(sides[0] == [3u8, 4u8, 5u8]);
        assert(edge(sides, 5, 1) == (5u8, 4u8));
        assert(edge(sides, 0, 1) == (4u8, 5u8));
    } else if f == 5 && k == 2 {
        assert(sides[5] == [0u8, 5u8, 4u8]);
        assert(sides[4] == [4u8, 1u8, 0u8]);
        assert(edge(sides, 5, 2) == (4u8, 0u8));
        assert(edge(sides, 4, 2) == (0u8, 4u8));
    } else if f == 6 && k == 0 {
        assert(sides[6] == [2u8, 3u8, 5u8]);
        assert(sides[2] == [3u8, 2u8, 1u8]);
        assert(edge(sides, 6, 0) == (2u8, 3u8));
        assert(edge(sides, 2, 0) == (3u8, 2u8));
    } else if f == 6 && k == 1 {
        assert(sides[6] == [2u8, 3u8, 5u8]);
        assert(sides[0] == [3u8, 4u8, 5u8]);
        assert(edge(sides, 6, 1) == (3u8, 5u8));
        assert(edge(sides, 0, 2) == (5u8, 3u8));
    } else if f == 6 && k == 2 {
        assert(sides[6] == [2u8, 3u8, 5u8]);
        assert(sides[3] == [5u8, 0u8, 2u8]);
        assert(edge(sides, 6, 2) == (5u8, 2u8));
        assert(edge(sides, 3, 2) == (2u8, 5u8));
    } else if f == 7 && k == 0 {
        assert(sides[7] == [1u8, 4u8, 3u8]);
        assert(sides[4] == [4u8, 1u8, 0u8]);
        assert(edge(sides, 7, 0) == (1u8, 4u8));
        assert(edge(sides, 4, 0) == (4u8, 1u8));
    } else if f == 7 && k == 1 {
        assert(sides[7] == [1u8, 4u8, 3u8]);
        assert(sides[0] == [3u8, 4u8, 5u8]);
        assert(edge(sides, 7, 1) == (4u8, 3u8));
        assert(edge(sides, 0, 0) == (3u8, 4u8));
    } else {
        assert(sides[7] == [1u8, 4u8, 3u8]);
        assert(sides[2] == [3u8, 2u8, 1u8]);
        assert(edge(sides, 7, 2) == (3u8, 1u8));
        assert(edge(sides, 2, 2) == (1u8, 3u8));
    }
}

/// The bipyramid is a closed surface whose sides are consistently oriented:
/// each edge joins exactly two sides, which walk it in opposite directions.
pub proof fn lemma_bipyramid_closed_oriented()
    ensures
        closed_oriented(bipyramid_side_seq()),
{
    let sides = bipyramid_side_seq();
    assert forall|f: int, k: int| 0 <= f < sides.len() && 0 <= k < 3 implies #[trigger] has_reverse_edge(sides, f, k) by {
        lemma_bipyramid_edge(f, k);
        let s = bipyramid_edge_slot((edge(sides, f, k).1, edge(sides, f, k).0));
        assert(edge(sides, s / 3, s % 3) == (edge(sides, f, k).1, edge(sides, f, k).0));
    }
    assert forall|f: int, k: int, g: int, m: int|
        0 <= f < sides.len() && 0 <= k < 3 && 0 <= g < sides.len() && 0 <= m < 3 && (f != g || k
            != m) implies #[trigger] edge(sides, f, k) != #[trigger] edge(sides, g, m) by {
        lemma_bipyramid_edge(f, k);
        lemma_bipyramid_edge(g, m);
    }
}


/// The determinant of the matrix with rows `a`, `b`, `c`: positive exactly
/// when the triangle `a, b, c` winds counter-clockwise seen from the side
/// away from the origin.
pub open spec fn det3(a: Triple, b: Triple, c: Triple) -> int {
    dot(a, cross(b, c))
}


/// The bipyramid's corners as the vertices of an octahedron centred at the
/// origin: upper back and lower front on the x axis, upper left and lower
/// right on the y axis, upper right and lower left on the z axis, each
/// opposite corner at the opposite end of its axis. The drawn corners are
/// this octahedron under a linear map that keeps orientation.
pub open spec fn octahedron_corner(c: u8) -> Triple {
    if c == UPPER_BACK {
        (1, 0, 0)
    } else if c == UPPER_LEFT {
        (0, 1, 0)
    } else if c == UPPER_RIGHT {
        (0, 0, 1)
    } else if c == LOWER_FRONT {
        (-1, 0, 0)
    } else if c == LOWER_LEFT {
        (0, 0, -1)
    } else {
        (0, -1, 0)
    }
}

/// `c` and `d` are opposite corners of the bipyramid: the two ends of one
/// of its three diagonals through the centre.
pub open spec fn opposite_corners(c: u8, d: u8) -> bool {
    ||| (c == UPPER_BACK && d == LOWER_FRONT) || (c == LOWER_FRONT && d == UPPER_BACK)
    ||| (c == UPPER_LEFT && d == LOWER_RIGHT) || (c == LOWER_RIGHT && d == UPPER_LEFT)
    ||| (c == UPPER_RIGHT && d == LOWER_LEFT) || (c == LOWER_LEFT && d == UPPER_RIGHT)
}

/// Side `f` of `sides`, its corners placed on the octahedron, winds
/// counter-clockwise seen from outside.
pub open spec fn octahedron_side_faces_out(sides: Seq<[u8; 3]>, f: int) -> bool {
    det3(
        octahedron_corner(sides[f][0]),
        octahedron_corner(sides[f][1]),
        octahedron_corner(sides[f][2]),
    ) > 0
}

/// The tetrahedron's corners as alternate corners of the cube `[-1, 1]^3`,
/// a regular tetrahedron centred at the origin; the drawn corners are this
/// tetrahedron under an affine map that keeps orientation.
pub open spec fn tetrahedron_corner(c: u8) -> Triple {
    if c == TETRA_BACK {
        (1, 1, 1)
    } else if c == TETRA_LEFT {
        (-1, 1, -1)
    } else if c == TETRA_RIGHT {
        (1, -1, -1)
    } else {
        (-1, -1, 1)
    }
}

/// Side `f` of `sides`, its corners placed on the regular tetrahedron, winds
/// counter-clockwise seen from outside.
pub open spec fn tetrahedron_side_faces_out(sides: Seq<[u8; 3]>, f: int) -> bool {
    det3(
        tetrahedron_corner(sides[f][0]),
        tetrahedron_corner(sides[f][1]),
        tetrahedron_corner(sides[f][2]),
    ) > 0
}

/// The sides of the bipyramid are the eight faces of the octahedron on its
/// corners: no side holds two opposite corners (so a side never cuts through
/// the body), and every side winds counter-clockwise seen from outside, so
/// the drawn body is convex and all its sides face outward.
pub proof fn lemma_bipyramid_convex_outward()
    ensures
        bipyramid_side_seq().len() == 8,
        forall|f: int, k: int, m: int|
            0 <= f < 8 && 0 <= k < 3 && 0 <= m < 3 ==> !opposite_corners(
                #[trigger] bipyramid_side_seq()[f][k],
                #[trigger] bipyramid_side_seq()[f][m],
            ),
        forall|f: int|
            0 <= f < 8 ==> #[trigger] octahedron_side_faces_out(bipyramid_side_seq(), f),
{
    let sides = bipyramid_side_seq();
    assert(sides[0] == [3u8, 4u8, 5u8]);
    assert(sides[1] == [0u8, 1u8, 2u8]);
    assert(sides[2] == [3u8, 2u8, 1u8]);
    assert(sides[3] == [5u8, 0u8, 2u8]);
    assert(sides[4] == [4u8, 1u8, 0u8]);
    assert(sides[5] == [0u8, 5u8, 4u8]);
    assert(sides[6] == [2u8, 3u8, 5u8]);
    assert(sides[7] == [1u8, 4u8, 3u8]);
    assert forall|f: int, k: int, m: int|
        0 <= f < 8 && 0 <= k < 3 && 0 <= m < 3 implies !opposite_corners(
        #[trigger] sides[f][k],
        #[trigger] sides[f][m],
    ) by {
        if f == 0 {
        } else if f == 1 {
        } else if f == 2 {
        } else if f == 3 {
        } else if f == 4 {
        } else if f == 5 {
        } else if f == 6 {
        } else {
        }
    }
    assert forall|f: int| 0 <= f < 8 implies #[trigger] octahedron_side_faces_out(sides, f) by {
        assert(octahedron_corner(0u8) == (1int, 0int, 0int));
        assert(octahedron_corner(1u8) == (0int, 1int, 0int));
        assert(octahedron_corner(2u8) == (0int, 0int, 1int));
        assert(octahedron_corner(3u8) == (-1int, 0int, 0int));
        assert(octahedron_corner(4u8) == (0int, 0int, -1int));
        assert(octahedron_corner(5u8) == (0int, -1int, 0int));
        if f == 0 {
            assert(octahedron_side_faces_out(sides, 0)) by (nonlinear_arith)
                requires
                    sides[0] == [3u8, 4u8, 5u8],
                    octahedron_corner(3u8) == (-1int, 0int, 0int), octahedron_corner(4u8) == (0int, 0int, -1int), octahedron_corner(5u8) == (0int, -1int, 0int),
            ;
        } else if f == 1 {
            assert(octahedron_side_faces_out(sides, 1)) by (nonlinear_arith)
                requires
                    sides[1] == [0u8, 1u8, 2u8],
                    octahedron_corner(0u8) == (1int, 0int, 0int), octahedron_corner(1u8) == (0int, 1int, 0int), octahedron_corner(2u8) == (0int, 0int, 1int),
            ;
        } else if f == 2 {
            assert(octahedron_side_faces_out(sides, 2)) by (nonlinear_arith)
                requires
                    sides[2] == [3u8, 2u8, 1u8],
                    octahedron_corner(3u8) == (-1int, 0int, 0int), octahedron_corner(2u8) == (0int, 0int, 1int), octahedron_corner(1u8) == (0int, 1int, 0int),
            ;
        } else if f == 3 {
            assert(octahedron_side_faces_out(sides, 3)) by (nonlinear_arith)
                requires
                    sides[3] == [5u8, 0u8, 2u8],
                    octahedron_corner(5u8) == (0int, -1int, 0int), octahedron_corner(0u8) == (1int, 0int, 0int), octahedron_corner(2u8) == (0int, 0int, 1int),
            ;
        } else if f == 4 {
            assert(octahedron_side_faces_out(sides, 4)) by (nonlinear_arith)
                requires
                    sides[4] == [4u8, 1u8, 0u8],
                    octahedron_corner(4u8) == (0int, 0int, -1int), octahedron_corner(1u8) == (0int, 1int, 0int), octahedron_corner(0u8) == (1int, 0int, 0int),
            ;
        } else if f == 5 {
            assert(octahedron_side_faces_out(sides, 5)) by (nonlinear_arith)
                requires
                    sides[5] == [0u8, 5u8, 4u8],
                    octahedron_corner(0u8) == (1int, 0int, 0int), octahedron_corner(5u8) == (0int, -1int, 0int), octahedron_corner(4u8) == (0int, 0int, -1int),
            ;
        } else if f == 6 {
            assert(octahedron_side_faces_out(sides, 6)) by (nonlinear_arith)
                requires
                    sides[6] == [2u8, 3u8, 5u8],
                    octahedron_corner(2u8) == (0int, 0int, 1int), octahedron_corner(3u8) == (-1int, 0int, 0int), octahedron_corner(5u8) == (0int, -1int, 0int),
            ;
        } else {
            assert(octahedron_side_faces_out(sides, 7)) by (nonlinear_arith)
                requires
                    sides[7] == [1u8, 4u8, 3u8],
                    octahedron_corner(1u8) == (0int, 1int, 0int), octahedron_corner(4u8) == (0int, 0int, -1int), octahedron_corner(3u8) == (-1int, 0int, 0int),
            ;
        }
    }
}

/// Every side of the tetrahedron winds counter-clockwise seen from outside,
/// so all its sides face outward.
pub proof fn lemma_tetrahedron_outward()
    ensures
        tetrahedron_side_seq().len() == 4,
        forall|f: int|
            0 <= f < 4 ==> #[trigger] tetrahedron_side_faces_out(tetrahedron_side_seq(), f),
{
    let sides = tetrahedron_side_seq();
    assert(sides[0] == [0u8, 2u8, 1u8]);
    assert(sides[1] == [3u8, 1u8, 2u8]);
    assert(sides[2] == [3u8, 2u8, 0u8]);
    assert(sides[3] == [3u8, 0u8, 1u8]);
    assert forall|f: int| 0 <= f < 4 implies #[trigger] tetrahedron_side_faces_out(sides, f) by {
        assert(tetrahedron_corner(0u8) == (1int, 1int, 1int));
        assert(tetrahedron_corner(1u8) == (-1int, 1int, -1int));
        assert(tetrahedron_corner(2u8) == (1int, -1int, -1int));
        assert(tetrahedron_corner(3u8) == (-1int, -1int, 1int));
        if f == 0 {
            assert(tetrahedron_side_faces_out(sides, 0)) by (nonlinear_arith)
                requires
                    sides[0] == [0u8, 2u8, 1u8],
                    tetrahedron_corner(0u8) == (1int, 1int, 1int), tetrahedron_corner(2u8) == (1int, -1int, -1int), tetrahedron_corner(1u8) == (-1int, 1int, -1int),
            ;
        } else if f == 1 {
            assert(tetrahedron_side_faces_out(sides, 1)) by (nonlinear_arith)
                requires
                    sides[1] == [3u8, 1u8, 2u8],
                    tetrahedron_corner(3u8) == (-1int, -1int, 1int), tetrahedron_corner(1u8) == (-1int, 1int, -1int), tetrahedron_corner(2u8) == (1int, -1int, -1int),
            ;
        } else if f == 2 {
            assert(tetrahedron_side_faces_out(sides, 2)) by (nonlinear_arith)
                requires
                    sides[2] == [3u8, 2u8, 0u8],
                    tetrahedron_corner(3u8) == (-1int, -1int, 1int), tetrahedron_corner(2u8) == (1int, -1int, -1int), tetrahedron_corner(0u8) == (1int, 1int, 1int),
            ;
        } else {
            assert(tetrahedron_side_faces_out(sides, 3)) by (nonlinear_arith)
                requires
                    sides[3] == [3u8, 0u8, 1u8],
                    tetrahedron_corner(3u8) == (-1int, -1int, 1int), tetrahedron_corner(0u8) == (1int, 1int, 1int), tetrahedron_corner(1u8) == (-1int, 1int, -1int),
            ;
        }
    }
}

} // verus!
