use vstd::prelude::*;

verus! {

/// Vertices of each side of a box mesh: every side is a square of its own
/// four corners, so that each side can carry its own normal and colour.
pub const VERTICES_PER_SIDE: usize = 4;

/// Vertices of a box mesh: six sides of four vertices.
pub const BOX_VERTICES: usize = 24;

/// A point or direction with a small integer per axis.
pub type Triple = (int, int, int);

/// `1` for bit 0, `-1` for bit 1.
pub open spec fn sign_of_bit(bit: int) -> int {
    if bit == 0 {
        1
    } else {
        -1
    }
}

/// The coordinates `p` moved `axis` places to the right: `[x, y, z]` becomes
/// `[z, x, y]` for one place and `[y, z, x]` for two.
pub open spec fn rotate_right(axis: int, p: Triple) -> Triple {
    if axis == 0 {
        p
    } else if axis == 1 {
        (p.2, p.0, p.1)
    } else {
        (p.1, p.2, p.0)
    }
}

/// The side (0 +x, 1 -x, 2 +y, 3 -y, 4 +z, 5 -z) that vertex `v` belongs to.
pub open spec fn vertex_side(v: int) -> int {
    v / 4
}

/// The corner of the box `[-1, 1]^3` at vertex `v`: vertices `8a..8a+8` are
/// the eight corners with the coordinates taken in the order of a rotation by
/// `a`, the first coordinate positive for the first four.
pub open spec fn corner(v: int) -> Triple {
    rotate_right(
        v / 8,
        (sign_of_bit((v / 4) % 2), sign_of_bit((v / 2) % 2), sign_of_bit(v % 2)),
    )
}

/// The outward unit normal of side `side`.
pub open spec fn side_normal(side: int) -> Triple {
    rotate_right(side / 2, (sign_of_bit(side % 2), 0, 0))
}

pub open spec fn minus(p: Triple, q: Triple) -> Triple {
    (p.0 - q.0, p.1 - q.1, p.2 - q.2)
}

pub open spec fn dot(p: Triple, q: Triple) -> int {
    p.0 * q.0 + p.1 * q.1 + p.2 * q.2
}

pub open spec fn cross(p: Triple, q: Triple) -> Triple {
    (p.1 * q.2 - p.2 * q.1, p.2 * q.0 - p.0 * q.2, p.0 * q.1 - p.1 * q.0)
}

pub open spec fn triple_of(p: [i8; 3]) -> Triple {
    (p[0] as int, p[1] as int, p[2] as int)
}

/// The triangles of the box mesh, three vertex indices each, two per side.
pub open spec fn box_index_seq() -> Seq<u32> {
    seq![
        0u32, 2, 1, 1, 2, 3,
        4, 5, 6, 6, 5, 7,
        8, 10, 9, 9, 10, 11,
        12, 13, 14, 14, 13, 15,
        16, 18, 17, 17, 18, 19,
        20, 21, 22, 22, 21, 23,
    ]
}

fn sign(bit: usize) -> (s: i8)
    requires
        bit < 2,
    ensures
        s as int == sign_of_bit(bit as int),
{
    if bit == 0 {
        1
    } else {
        -1
    }
}

fn rotated(axis: usize, p: [i8; 3]) -> (r: [i8; 3])
    requires
        axis < 3,
    ensures
        triple_of(r) == rotate_right(axis as int, triple_of(p)),
{
    let r = if axis == 0 {
        [p[0], p[1], p[2]]
    } else if axis == 1 {
        [p[2], p[0], p[1]]
    } else {
        [p[1], p[2], p[0]]
    };
    r
}

/// The signs of the vertex positions of a box mesh: vertex `v` sits at
/// `corner(v)` scaled by the half side lengths of the box.
pub fn corner_signs() -> (signs: Vec<[i8; 3]>)
    ensures
        signs@.len() == BOX_VERTICES,
        forall|v: int| 0 <= v < BOX_VERTICES ==> triple_of(#[trigger] signs@[v]) == corner(v),
        forall|v: int|
            0 <= v < BOX_VERTICES ==> is_corner_of_side(
                triple_of(#[trigger] signs@[v]),
                vertex_side(v),
            ),
        forall|v: int, w: int|
            0 <= v < BOX_VERTICES && 0 <= w < BOX_VERTICES && v != w && vertex_side(v)
                == vertex_side(w) ==> #[trigger] signs@[v] != #[trigger] signs@[w],
{
    let mut signs: Vec<[i8; 3]> = Vec::new();
    let mut v: usize = 0;
    while v < BOX_VERTICES
        invariant
            v <= BOX_VERTICES,
            signs@.len() == v,
            forall|w: int| 0 <= w < v ==> triple_of(#[trigger] signs@[w]) == corner(w),
        decreases BOX_VERTICES - v,
    {
        let local: [i8; 3] = [sign((v / 4) % 2), sign((v / 2) % 2), sign(v % 2)];
        let p = rotated(v / 8, local);
        signs.push(p);
        v = v + 1;
    }
    proof {
        lemma_sides_are_squares();
        assert forall|v: int, w: int|
            0 <= v < BOX_VERTICES && 0 <= w < BOX_VERTICES && v != w && vertex_side(v)
                == vertex_side(w) implies #[trigger] signs@[v] != #[trigger] signs@[w] by {
            assert(corner(v) != corner(w));
        }
    }
    signs
}

/// The normal of every vertex of a box mesh: the outward normal of its side,
/// the same for the four vertices of a side.
pub fn vertex_normals() -> (normals: Vec<[i8; 3]>)
    ensures
        normals@.len() == BOX_VERTICES,
        forall|v: int|
            0 <= v < BOX_VERTICES ==> triple_of(#[trigger] normals@[v]) == side_normal(
                vertex_side(v),
            ),
        forall|v: int|
            0 <= v < BOX_VERTICES ==> is_axis_normal_of_side(
                triple_of(#[trigger] normals@[v]),
                vertex_side(v),
            ),
{
    let mut normals: Vec<[i8; 3]> = Vec::new();
    let mut axis: usize = 0;
    while axis < 3
        invariant
            axis <= 3,
            normals@.len() == 8 * axis,
            forall|w: int|
                0 <= w < normals@.len() ==> triple_of(#[trigger] normals@[w]) == side_normal(
                    vertex_side(w),
                ),
        decreases 3 - axis,
    {
        let mut bit: usize = 0;
        while bit < 2
            invariant
                axis < 3,
                bit <= 2,
                normals@.len() == 8 * axis + 4 * bit,
                forall|w: int|
                    0 <= w < normals@.len() ==> triple_of(#[trigger] normals@[w]) == side_normal(
                        vertex_side(w),
                    ),
            decreases 2 - bit,
        {
            let normal = rotated(axis, [sign(bit), 0, 0]);
            let mut k: usize = 0;
            while k < VERTICES_PER_SIDE
                invariant
                    axis < 3,
                    bit < 2,
                    k <= VERTICES_PER_SIDE,
                    triple_of(normal) == side_normal(2 * axis + bit),
                    normals@.len() == 8 * axis + 4 * bit + k,
                    forall|w: int|
                        0 <= w < normals@.len() ==> triple_of(#[trigger] normals@[w])
                            == side_normal(vertex_side(w)),
                decreases VERTICES_PER_SIDE - k,
            {
                normals.push(normal);
                k = k + 1;
            }
            bit = bit + 1;
        }
        axis = axis + 1;
    }
    proof {
        lemma_normals_point_out();
        assert forall|v: int| 0 <= v < BOX_VERTICES implies is_axis_normal_of_side(
            triple_of(#[trigger] normals@[v]),
            vertex_side(v),
        ) by {
            assert(0 <= vertex_side(v) < 6);
        }
    }
    normals
}

/// The vertex indices of the twelve triangles of a box mesh.
pub fn triangle_indices() -> (indices: Vec<u32>)
    ensures
        indices@ == box_index_seq(),
{
    let indices: Vec<u32> = vec![
        0, 2, 1, 1, 2, 3,  // right
        4, 5, 6, 6, 5, 7,  // left
        8, 10, 9, 9, 10, 11,  // top
        12, 13, 14, 14, 13, 15,  // bottom
        16, 18, 17, 17, 18, 19,  // front
        20, 21, 22, 22, 21, 23,  // back
    ];
    assert(indices@ == box_index_seq());
    indices
}

/// The texture colour of every vertex of a box mesh whose side `s` is
/// painted with colour `color_map[s]`.
pub fn side_texels(color_map: [u32; 6]) -> (texels: Vec<u32>)
    ensures
        texels@.len() == BOX_VERTICES,
        forall|v: int|
            0 <= v < BOX_VERTICES ==> #[trigger] texels@[v] == color_map[vertex_side(v)],
{
    let mut texels: Vec<u32> = Vec::new();
    let mut side: usize = 0;
    while side < 6
        invariant
            side <= 6,
            texels@.len() == 4 * side,
            forall|w: int|
                0 <= w < texels@.len() ==> #[trigger] texels@[w] == color_map[vertex_side(w)],
        decreases 6 - side,
    {
        let color_id = color_map[side];
        let mut k: usize = 0;
        while k < VERTICES_PER_SIDE
            invariant
                side < 6,
                k <= VERTICES_PER_SIDE,
                color_id == color_map[side as int],
                texels@.len() == 4 * side + k,
                forall|w: int|
                    0 <= w < texels@.len() ==> #[trigger] texels@[w] == color_map[vertex_side(w)],
            decreases VERTICES_PER_SIDE - k,
        {
            texels.push(color_id);
            k = k + 1;
        }
        side = side + 1;
    }
    texels
}


/// Every vertex of a box mesh lies on the plane of its side: one unit out
/// along the side's normal.
pub proof fn lemma_vertices_on_their_side()
    ensures
        forall|v: int|
            0 <= v < BOX_VERTICES ==> #[trigger] dot(corner(v), side_normal(vertex_side(v))) == 1,
{
    assert forall|v: int| 0 <= v < BOX_VERTICES implies #[trigger] dot(
        corner(v),
        side_normal(vertex_side(v)),
    ) == 1 by {
        if v == 0 {
        } else if v == 1 {
        } else if v == 2 {
        } else if v == 3 {
        } else if v == 4 {
        } else if v == 5 {
        } else if v == 6 {
        } else if v == 7 {
        } else if v == 8 {
        } else if v == 9 {
        } else if v == 10 {
        } else if v == 11 {
        } else if v == 12 {
        } else if v == 13 {
        } else if v == 14 {
        } else if v == 15 {
        } else if v == 16 {
        } else if v == 17 {
        } else if v == 18 {
        } else if v == 19 {
        } else if v == 20 {
        } else if v == 21 {
        } else if v == 22 {
        } else {
        }
    }
}

/// The vertex `n` of the triangle list of a box mesh.
pub open spec fn tri_vertex(n: int) -> int {
    box_index_seq()[n] as int
}

/// Triangle `t` of a box mesh joins three vertices of side `t / 2` and winds
/// counter-clockwise seen from outside: its normal by the right-hand rule
/// points the way the side's outward normal points.
pub open spec fn triangle_faces_out(t: int) -> bool {
    let a = tri_vertex(3 * t);
    let b = tri_vertex(3 * t + 1);
    let c = tri_vertex(3 * t + 2);
    &&& 0 <= a < BOX_VERTICES && 0 <= b < BOX_VERTICES && 0 <= c < BOX_VERTICES
    &&& vertex_side(a) == t / 2 && vertex_side(b) == t / 2 && vertex_side(c) == t / 2
    &&& dot(cross(minus(corner(b), corner(a)), minus(corner(c), corner(a))), side_normal(t / 2))
        > 0
}

/// All twelve triangles of a box mesh (two per side) join vertices of the
/// side they draw and face outward, so none is culled when seen from outside.
pub proof fn lemma_triangles_face_outward()
    ensures
        box_index_seq().len() == 36,
        forall|t: int| 0 <= t < 12 ==> #[trigger] triangle_faces_out(t),
{
    assert forall|t: int| 0 <= t < 12 implies #[trigger] triangle_faces_out(t) by {
        if t == 0 {
            assert(tri_vertex(0) == 0 && tri_vertex(1) == 2 && tri_vertex(2) == 1);
            assert(corner(0) == (1int, 1int, 1int) && corner(2) == (1int, -1int, 1int) && corner(1) == (1int, 1int, -1int));
            assert(side_normal(0) == (1int, 0int, 0int));
            assert(triangle_faces_out(0)) by (nonlinear_arith)
                requires
                    tri_vertex(0) == 0, tri_vertex(1) == 2, tri_vertex(2) == 1,
                    corner(0) == (1int, 1int, 1int), corner(2) == (1int, -1int, 1int), corner(1) == (1int, 1int, -1int),
                    side_normal(0) == (1int, 0int, 0int),
            ;
        } else if t == 1 {
            assert(tri_vertex(3) == 1 && tri_vertex(4) == 2 && tri_vertex(5) == 3);
            assert(corner(1) == (1int, 1int, -1int) && corner(2) == (1int, -1int, 1int) && corner(3) == (1int, -1int, -1int));
            assert(side_normal(0) == (1int, 0int, 0int));
            assert(triangle_faces_out(1)) by (nonlinear_arith)
                requires
                    tri_vertex(3) == 1, tri_vertex(4) == 2, tri_vertex(5) == 3,
                    corner(1) == (1int, 1int, -1int), corner(2) == (1int, -1int, 1int), corner(3) == (1int, -1int, -1int),
                    side_normal(0) == (1int, 0int, 0int),
            ;
        } else if t == 2 {
            assert(tri_vertex(6) == 4 && tri_vertex(7) == 5 && tri_vertex(8) == 6);
            assert(corner(4) == (-1int, 1int, 1int) && corner(5) == (-1int, 1int, -1int) && corner(6) == (-1int, -1int, 1int));
            assert(side_normal(1) == (-1int, 0int, 0int));
            assert(triangle_faces_out(2)) by (nonlinear_arith)
                requires
                    tri_vertex(6) == 4, tri_vertex(7) == 5, tri_vertex(8) == 6,
                    corner(4) == (-1int, 1int, 1int), corner(5) == (-1int, 1int, -1int), corner(6) == (-1int, -1int, 1int),
                    side_normal(1) == (-1int, 0int, 0int),
            ;
        } else if t == 3 {
            assert(tri_vertex(9) == 6 && tri_vertex(10) == 5 && tri_vertex(11) == 7);
            assert(corner(6) == (-1int, -1int, 1int) && corner(5) == (-1int, 1int, -1int) && corner(7) == (-1int, -1int, -1int));
            assert(side_normal(1) == (-1int, 0int, 0int));
            assert(triangle_faces_out(3)) by (nonlinear_arith)
                requires
                    tri_vertex(9) == 6, tri_vertex(10) == 5, tri_vertex(11) == 7,
                    corner(6) == (-1int, -1int, 1int), corner(5) == (-1int, 1int, -1int), corner(7) == (-1int, -1int, -1int),
                    side_normal(1) == (-1int, 0int, 0int),
            ;
        } else if t == 4 {
            assert(tri_vertex(12) == 8 && tri_vertex(13) == 10 && tri_vertex(14) == 9);
            assert(corner(8) == (1int, 1int, 1int) && corner(10) == (1int, 1int, -1int) && corner(9) == (-1int, 1int, 1int));
            assert(side_normal(2) == (0int, 1int, 0int));
            assert(triangle_faces_out(4)) by (nonlinear_arith)
                requires
                    tri_vertex(12) == 8, tri_vertex(13) == 10, tri_vertex(14) == 9,
                    corner(8) == (1int, 1int, 1int), corner(10) == (1int, 1int, -1int), corner(9) == (-1int, 1int, 1int),
                    side_normal(2) == (0int, 1int, 0int),
            ;
        } else if t == 5 {
            assert(tri_vertex(15) == 9 && tri_vertex(16) == 10 && tri_vertex(17) == 11);
            assert(corner(9) == (-1int, 1int, 1int) && corner(10) == (1int, 1int, -1int) && corner(11) == (-1int, 1int, -1int));
            assert(side_normal(2) == (0int, 1int, 0int));
            assert(triangle_faces_out(5)) by (nonlinear_arith)
                requires
                    tri_vertex(15) == 9, tri_vertex(16) == 10, tri_vertex(17) == 11,
                    corner(9) == (-1int, 1int, 1int), corner(10) == (1int, 1int, -1int), corner(11) == (-1int, 1int, -1int),
                    side_normal(2) == (0int, 1int, 0int),
            ;
        } else if t == 6 {
            assert(tri_vertex(18) == 12 && tri_vertex(19) == 13 && tri_vertex(20) == 14);
            assert(corner(12) == (1int, -1int, 1int) && corner(13) == (-1int, -1int, 1int) && corner(14) == (1int, -1int, -1int));
            assert(side_normal(3) == (0int, -1int, 0int));
            assert(triangle_faces_out(6)) by (nonlinear_arith)
                requires
                    tri_vertex(18) == 12, tri_vertex(19) == 13, tri_vertex(20) == 14,
                    corner(12) == (1int, -1int, 1int), corner(13) == (-1int, -1int, 1int), corner(14) == (1int, -1int, -1int),
                    side_normal(3) == (0int, -1int, 0int),
            ;
        } else if t == 7 {
            assert(tri_vertex(21) == 14 && tri_vertex(22) == 13 && tri_vertex(23) == 15);
            assert(corner(14) == (1int, -1int, -1int) && corner(13) == (-1int, -1int, 1int) && corner(15) == (-1int, -1int, -1int));
            assert(side_normal(3) == (0int, -1int, 0int));
            assert(triangle_faces_out(7)) by (nonlinear_arith)
                requires
                    tri_vertex(21) == 14, tri_vertex(22) == 13, tri_vertex(23) == 15,
                    corner(14) == (1int, -1int, -1int), corner(13) == (-1int, -1int, 1int), corner(15) == (-1int, -1int, -1int),
                    side_normal(3) == (0int, -1int, 0int),
            ;
        } else if t == 8 {
            assert(tri_vertex(24) == 16 && tri_vertex(25) == 18 && tri_vertex(26) == 17);
            assert(corner(16) == (1int, 1int, 1int) && corner(18) == (-1int, 1int, 1int) && corner(17) == (1int, -1int, 1int));
            assert(side_normal(4) == (0int, 0int, 1int));
            assert(triangle_faces_out(8)) by (nonlinear_arith)
                requires
                    tri_vertex(24) == 16, tri_vertex(25) == 18, tri_vertex(26) == 17,
                    corner(16) == (1int, 1int, 1int), corner(18) == (-1int, 1int, 1int), corner(17) == (1int, -1int, 1int),
                    side_normal(4) == (0int, 0int, 1int),
            ;
        } else if t == 9 {
            assert(tri_vertex(27) == 17 && tri_vertex(28) == 18 && tri_vertex(29) == 19);
            assert(corner(17) == (1int, -1int, 1int) && corner(18) == (-1int, 1int, 1int) && corner(19) == (-1int, -1int, 1int));
            assert(side_normal(4) == (0int, 0int, 1int));
            assert(triangle_faces_out(9)) by (nonlinear_arith)
                requires
                    tri_vertex(27) == 17, tri_vertex(28) == 18, tri_vertex(29) == 19,
                    corner(17) == (1int, -1int, 1int), corner(18) == (-1int, 1int, 1int), corner(19) == (-1int, -1int, 1int),
                    side_normal(4) == (0int, 0int, 1int),
            ;
        } else if t == 10 {
            assert(tri_vertex(30) == 20 && tri_vertex(31) == 21 && tri_vertex(32) == 22);
            assert(corner(20) == (1int, 1int, -1int) && corner(21) == (1int, -1int, -1int) && corner(22) == (-1int, 1int, -1int));
            assert(side_normal(5) == (0int, 0int, -1int));
            assert(triangle_faces_out(10)) by (nonlinear_arith)
                requires
                    tri_vertex(30) == 20, tri_vertex(31) == 21, tri_vertex(32) == 22,
                    corner(20) == (1int, 1int, -1int), corner(21) == (1int, -1int, -1int), corner(22) == (-1int, 1int, -1int),
                    side_normal(5) == (0int, 0int, -1int),
            ;
        } else {
            assert(tri_vertex(33) == 22 && tri_vertex(34) == 21 && tri_vertex(35) == 23);
            assert(corner(22) == (-1int, 1int, -1int) && corner(21) == (1int, -1int, -1int) && corner(23) == (-1int, -1int, -1int));
            assert(side_normal(5) == (0int, 0int, -1int));
            assert(triangle_faces_out(11)) by (nonlinear_arith)
                requires
                    tri_vertex(33) == 22, tri_vertex(34) == 21, tri_vertex(35) == 23,
                    corner(22) == (-1int, 1int, -1int), corner(21) == (1int, -1int, -1int), corner(23) == (-1int, -1int, -1int),
                    side_normal(5) == (0int, 0int, -1int),
            ;
        }
    }
}


/// A coordinate of a point: `k` is 0, 1 or 2 for x, y or z.
pub open spec fn coord(p: Triple, k: int) -> int {
    if k == 0 {
        p.0
    } else if k == 1 {
        p.1
    } else {
        p.2
    }
}

/// `p` is a corner of the square of side `side` of the box `[-1, 1]^3`:
/// every coordinate is 1 or -1, and the one across the side is the side's
/// sign (1 for sides 0, 2, 4, -1 for sides 1, 3, 5).
pub open spec fn is_corner_of_side(p: Triple, side: int) -> bool {
    &&& (p.0 == 1 || p.0 == -1)
    &&& (p.1 == 1 || p.1 == -1)
    &&& (p.2 == 1 || p.2 == -1)
    &&& coord(p, side / 2) == if side % 2 == 0 {
        1int
    } else {
        -1int
    }
}

/// `n` is the outward unit normal of side `side` of the box `[-1, 1]^3`: the
/// side's sign across the side, zero along it.
pub open spec fn is_axis_normal_of_side(n: Triple, side: int) -> bool {
    &&& coord(n, side / 2) == if side % 2 == 0 {
        1int
    } else {
        -1int
    }
    &&& forall|k: int| 0 <= k < 3 && k != side / 2 ==> #[trigger] coord(n, k) == 0
}

/// The normal that every box mesh vertex carries is the outward unit normal
/// of its side.
pub proof fn lemma_normals_point_out()
    ensures
        forall|side: int| 0 <= side < 6 ==> #[trigger] is_axis_normal_of_side(side_normal(side), side),
{
    assert forall|side: int| 0 <= side < 6 implies #[trigger] is_axis_normal_of_side(
        side_normal(side),
        side,
    ) by {
        if side == 0 {
        } else if side == 1 {
        } else if side == 2 {
        } else if side == 3 {
        } else if side == 4 {
        } else {
        }
    }
}

/// The four vertices of each side of a box mesh are the four corners of
/// that side's square: each is a corner of the box on that side, and no two
/// of them are the same corner.
pub proof fn lemma_sides_are_squares()
    ensures
        forall|v: int|
            0 <= v < BOX_VERTICES ==> is_corner_of_side(#[trigger] corner(v), vertex_side(v)),
        forall|v: int, w: int|
            0 <= v < BOX_VERTICES && 0 <= w < BOX_VERTICES && v != w && vertex_side(v)
                == vertex_side(w) ==> #[trigger] corner(v) != #[trigger] corner(w),
{
    assert(corner(0) == (1int, 1int, 1int));
    assert(corner(1) == (1int, 1int, -1int));
    assert(corner(2) == (1int, -1int, 1int));
    assert(corner(3) == (1int, -1int, -1int));
    assert(corner(4) == (-1int, 1int, 1int));
    assert(corner(5) == (-1int, 1int, -1int));
    assert(corner(6) == (-1int, -1int, 1int));
    assert(corner(7) == (-1int, -1int, -1int));
    assert(corner(8) == (1int, 1int, 1int));
    assert(corner(9) == (-1int, 1int, 1int));
    assert(corner(10) == (1int, 1int, -1int));
    assert(corner(11) == (-1int, 1int, -1int));
    assert(corner(12) == (1int, -1int, 1int));
    assert(corner(13) == (-1int, -1int, 1int));
    assert(corner(14) == (1int, -1int, -1int));
    assert(corner(15) == (-1int, -1int, -1int));
    assert(corner(16) == (1int, 1int, 1int));
    assert(corner(17) == (1int, -1int, 1int));
    assert(corner(18) == (-1int, 1int, 1int));
    assert(corner(19) == (-1int, -1int, 1int));
    assert(corner(20) == (1int, 1int, -1int));
    assert(corner(21) == (1int, -1int, -1int));
    assert(corner(22) == (-1int, 1int, -1int));
    assert(corner(23) == (-1int, -1int, -1int));
    assert forall|v: int|
        0 <= v < BOX_VERTICES implies is_corner_of_side(#[trigger] corner(v), vertex_side(v)) by {
        if v == 0 {
        } else if v == 1 {
        } else if v == 2 {
        } else if v == 3 {
        } else if v == 4 {
        } else if v == 5 {
        } else if v == 6 {
        } else if v == 7 {
        } else if v == 8 {
        } else if v == 9 {
        } else if v == 10 {
        } else if v == 11 {
        } else if v == 12 {
        } else if v == 13 {
        } else if v == 14 {
        } else if v == 15 {
        } else if v == 16 {
        } else if v == 17 {
        } else if v == 18 {
        } else if v == 19 {
        } else if v == 20 {
        } else if v == 21 {
        } else if v == 22 {
        } else {
        }
    }
    assert forall|v: int, w: int|
        0 <= v < BOX_VERTICES && 0 <= w < BOX_VERTICES && v != w && vertex_side(v) == vertex_side(
            w,
        ) implies #[trigger] corner(v) != #[trigger] corner(w) by {
        if v == 0 {
            if w == 0 {
            } else if w == 1 {
            } else if w == 2 {
            } else {
            }
        } else if v == 1 {
            if w == 0 {
            } else if w == 1 {
            } else if w == 2 {
            } else {
            }
        } else if v == 2 {
            if w == 0 {
            } else if w == 1 {
            } else if w == 2 {
            } else {
            }
        } else if v == 3 {
            if w == 0 {
            } else if w == 1 {
            } else if w == 2 {
            } else {
            }
        } else if v == 4 {
            if w == 4 {
            } else if w == 5 {
            } else if w == 6 {
            } else {
            }
        } else if v == 5 {
            if w == 4 {
            } else if w == 5 {
            } else if w == 6 {
            } else {
            }
        } else if v == 6 {
            if w == 4 {
            } else if w == 5 {
            } else if w == 6 {
            } else {
            }
        } else if v == 7 {
            if w == 4 {
            } else if w == 5 {
            } else if w == 6 {
            } else {
            }
        } else if v == 8 {
            if w == 8 {
            } else if w == 9 {
            } else if w == 10 {
            } else {
            }
        } else if v == 9 {
            if w == 8 {
            } else if w == 9 {
            } else if w == 10 {
            } else {
            }
        } else if v == 10 {
            if w == 8 {
            } else if w == 9 {
            } else if w == 10 {
            } else {
            }
        } else if v == 11 {
            if w == 8 {
            } else if w == 9 {
            } else if w == 10 {
            } else {
            }
        } else if v == 12 {
            if w == 12 {
            } else if w == 13 {
            } else if w == 14 {
            } else {
            }
        } else if v == 13 {
            if w == 12 {
            } else if w == 13 {
            } else if w == 14 {
            } else {
            }
        } else if v == 14 {
            if w == 12 {
            } else if w == 13 {
            } else if w == 14 {
            } else {
            }
        } else if v == 15 {
            if w == 12 {
            } else if w == 13 {
            } else if w == 14 {
            } else {
            }
        } else if v == 16 {
            if w == 16 {
            } else if w == 17 {
            } else if w == 18 {
            } else {
            }
        } else if v == 17 {
            if w == 16 {
            } else if w == 17 {
            } else if w == 18 {
            } else {
            }
        } else if v == 18 {
            if w == 16 {
            } else if w == 17 {
            } else if w == 18 {
            } else {
            }
        } else if v == 19 {
            if w == 16 {
            } else if w == 17 {
            } else if w == 18 {
            } else {
            }
        } else if v == 20 {
            if w == 20 {
            } else if w == 21 {
            } else if w == 22 {
            } else {
            }
        } else if v == 21 {
            if w == 20 {
            } else if w == 21 {
            } else if w == 22 {
            } else {
            }
        } else if v == 22 {
            if w == 20 {
            } else if w == 21 {
            } else if w == 22 {
            } else {
            }
        } else {
            if w == 20 {
            } else if w == 21 {
            } else if w == 22 {
            } else {
            }
        }
    }
}

/// The vertex of side `t / 2` that triangle `t` leaves out (its three
/// vertices being three of the side's four).
pub open spec fn left_out(t: int) -> int {
    16 * (t / 2) + 6 - tri_vertex(3 * t) - tri_vertex(3 * t + 1) - tri_vertex(3 * t + 2)
}

/// The two triangles of side `side` leave out two different vertices of the
/// side, at opposite corners of its square; so they share the other diagonal
/// and together cover the whole square.
pub open spec fn splits_along_diagonal(side: int) -> bool {
    let a = left_out(2 * side);
    let b = left_out(2 * side + 1);
    &&& vertex_side(a) == side && vertex_side(b) == side && a != b
    &&& (side / 2 == 0 || corner(a).0 == -corner(b).0)
    &&& (side / 2 == 1 || corner(a).1 == -corner(b).1)
    &&& (side / 2 == 2 || corner(a).2 == -corner(b).2)
}

/// Every triangle of a box mesh has three different vertices, and the two
/// triangles of each side cover its square, cut along a diagonal.
pub proof fn lemma_triangles_cover_sides()
    ensures
        forall|t: int|
            0 <= t < 12 ==> #[trigger] tri_vertex(3 * t) != tri_vertex(3 * t + 1) && tri_vertex(
                3 * t + 1,
            ) != tri_vertex(3 * t + 2) && tri_vertex(3 * t) != tri_vertex(3 * t + 2),
        forall|side: int| 0 <= side < 6 ==> #[trigger] splits_along_diagonal(side),
{
    assert(tri_vertex(0) == 0);
    assert(tri_vertex(1) == 2);
    assert(tri_vertex(2) == 1);
    assert(tri_vertex(3) == 1);
    assert(tri_vertex(4) == 2);
    assert(tri_vertex(5) == 3);
    assert(tri_vertex(6) == 4);
    assert(tri_vertex(7) == 5);
    assert(tri_vertex(8) == 6);
    assert(tri_vertex(9) == 6);
    assert(tri_vertex(10) == 5);
    assert(tri_vertex(11) == 7);
    assert(tri_vertex(12) == 8);
    assert(tri_vertex(13) == 10);
    assert(tri_vertex(14) == 9);
    assert(tri_vertex(15) == 9);
    assert(tri_vertex(16) == 10);
    assert(tri_vertex(17) == 11);
    assert(tri_vertex(18) == 12);
    assert(tri_vertex(19) == 13);
    assert(tri_vertex(20) == 14);
    assert(tri_vertex(21) == 14);
    assert(tri_vertex(22) == 13);
    assert(tri_vertex(23) == 15);
    assert(tri_vertex(24) == 16);
    assert(tri_vertex(25) == 18);
    assert(tri_vertex(26) == 17);
    assert(tri_vertex(27) == 17);
    assert(tri_vertex(28) == 18);
    assert(tri_vertex(29) == 19);
    assert(tri_vertex(30) == 20);
    assert(tri_vertex(31) == 21);
    assert(tri_vertex(32) == 22);
    assert(tri_vertex(33) == 22);
    assert(tri_vertex(34) == 21);
    assert(tri_vertex(35) == 23);
    assert(corner(0) == (1int, 1int, 1int));
    assert(corner(1) == (1int, 1int, -1int));
    assert(corner(2) == (1int, -1int, 1int));
    assert(corner(3) == (1int, -1int, -1int));
    assert(corner(4) == (-1int, 1int, 1int));
    assert(corner(5) == (-1int, 1int, -1int));
    assert(corner(6) == (-1int, -1int, 1int));
    assert(corner(7) == (-1int, -1int, -1int));
    assert(corner(8) == (1int, 1int, 1int));
    assert(corner(9) == (-1int, 1int, 1int));
    assert(corner(10) == (1int, 1int, -1int));
    assert(corner(11) == (-1int, 1int, -1int));
    assert(corner(12) == (1int, -1int, 1int));
    assert(corner(13) == (-1int, -1int, 1int));
    assert(corner(14) == (1int, -1int, -1int));
    assert(corner(15) == (-1int, -1int, -1int));
    assert(corner(16) == (1int, 1int, 1int));
    assert(corner(17) == (1int, -1int, 1int));
    assert(corner(18) == (-1int, 1int, 1int));
    assert(corner(19) == (-1int, -1int, 1int));
    assert(corner(20) == (1int, 1int, -1int));
    assert(corner(21) == (1int, -1int, -1int));
    assert(corner(22) == (-1int, 1int, -1int));
    assert(corner(23) == (-1int, -1int, -1int));
    assert forall|t: int| 0 <= t < 12 implies #[trigger] tri_vertex(3 * t) != tri_vertex(3 * t + 1)
        && tri_vertex(3 * t + 1) != tri_vertex(3 * t + 2) && tri_vertex(3 * t) != tri_vertex(
        3 * t + 2,
    ) by {
        if t == 0 {
        } else if t == 1 {
        } else if t == 2 {
        } else if t == 3 {
        } else if t == 4 {
        } else if t == 5 {
        } else if t == 6 {
        } else if t == 7 {
        } else if t == 8 {
        } else if t == 9 {
        } else if t == 10 {
        } else {
        }
    }
    assert forall|side: int| 0 <= side < 6 implies #[trigger] splits_along_diagonal(side) by {
        if side == 0 {
            assert(splits_along_diagonal(0));
        } else if side == 1 {
            assert(splits_along_diagonal(1));
        } else if side == 2 {
            assert(splits_along_diagonal(2));
        } else if side == 3 {
            assert(splits_along_diagonal(3));
        } else if side == 4 {
            assert(splits_along_diagonal(4));
        } else {
            assert(splits_along_diagonal(5));
        }
    }
}

} // verus!
