use vstd::prelude::*;

verus! {

/// Number of sides of a cube, and of the faces of each of its tiles.
pub const NUMBER_OF_SIDES: u32 = 6;

/// Colours in the texture: one per side of the puzzle, then the grey of the
/// plastic that shows where a tile face is hidden.
pub const NUMBER_OF_COLORS: u32 = 7;

/// The colour index of a hidden tile face.
pub const HIDDEN: u32 = 6;

/// For each of the six faces of a tile (right, left, top, bottom, front,
/// back), the index of the texture colour that it is painted with.
pub type ColorMap = [u32; 6];

/// A Rubik's cube with `dimension` tiles along each edge.
pub struct Rubik {
    pub dimension: u32,
}

/// One tile of the cube: where it sits, counted from 1 along each axis, and
/// the colours of its six faces.
pub struct Tile {
    pub position: [u32; 3],
    pub color_map: ColorMap,
}

/// The colour of a tile face on the low side (`coord == 1`) of an axis.
pub open spec fn low_side(coord: int, side: u32) -> u32 {
    if coord == 1 {
        side
    } else {
        HIDDEN
    }
}

/// The colour of a tile face on the high side (`coord == dimension`) of an
/// axis; a tile that also lies on the low side keeps that one only.
pub open spec fn high_side(dimension: int, coord: int, side: u32) -> u32 {
    if coord != 1 && coord == dimension {
        side
    } else {
        HIDDEN
    }
}

/// `colors` is the colour map of the tile at `(x, y, z)` in a cube with
/// `dimension` tiles along each edge.
pub open spec fn shows(dimension: int, x: int, y: int, z: int, colors: ColorMap) -> bool {
    &&& colors[0] == low_side(x, 0)
    &&& colors[1] == high_side(dimension, x, 1)
    &&& colors[2] == low_side(y, 2)
    &&& colors[3] == high_side(dimension, y, 3)
    &&& colors[4] == low_side(z, 4)
    &&& colors[5] == high_side(dimension, z, 5)
}

/// `(x, y, z)` is a tile position in a cube with `dimension` tiles per edge.
pub open spec fn is_cell(dimension: int, x: int, y: int, z: int) -> bool {
    &&& 1 <= x <= dimension
    &&& 1 <= y <= dimension
    &&& 1 <= z <= dimension
}

/// `(x, y, z)` is a tile that can be seen from outside: it lies on at least
/// one side of the cube.
pub open spec fn is_outer_cell(dimension: int, x: int, y: int, z: int) -> bool {
    &&& is_cell(dimension, x, y, z)
    &&& (x == 1 || x == dimension || y == 1 || y == dimension || z == 1 || z == dimension)
}

/// The tile at `(x, y, z)` lies on side `side` of the cube (0 right, 1 left,
/// 2 top, 3 bottom, 4 front, 5 back).
pub open spec fn on_side(dimension: int, x: int, y: int, z: int, side: int) -> bool {
    ||| side == 0 && x == 1
    ||| side == 1 && x == dimension
    ||| side == 2 && y == 1
    ||| side == 3 && y == dimension
    ||| side == 4 && z == 1
    ||| side == 5 && z == dimension
}

impl Rubik {
    /// A cube with `dimension` tiles along each edge.
    pub fn new(dimension: u32) -> (rubik: Self)
        ensures
            rubik.dimension == dimension,
    {
        Rubik { dimension }
    }

    /// The colours of the six faces of the tile at `position`: a face that
    /// lies on a side of the cube shows that side's colour, any other face
    /// is grey.
    pub fn get_color_map(&self, position: [u32; 3]) -> (color_map: ColorMap)
        ensures
            shows(
                self.dimension as int,
                position[0] as int,
                position[1] as int,
                position[2] as int,
                color_map,
            ),
    {
        let x = position[0];
        let y = position[1];
        let z = position[2];
        let right = if x == 1 { 0 } else { HIDDEN };
        let left = if x != 1 && x == self.dimension { 1 } else { HIDDEN };
        let top = if y == 1 { 2 } else { HIDDEN };
        let bottom = if y != 1 && y == self.dimension { 3 } else { HIDDEN };
        let front = if z == 1 { 4 } else { HIDDEN };
        let back = if z != 1 && z == self.dimension { 5 } else { HIDDEN };
        [right, left, top, bottom, front, back]
    }
}

/// On a cube with two or more tiles per edge, every face of a tile shows the
/// colour of its side exactly when the tile lies on that side of the cube,
/// and grey otherwise; so a tile shows some colour exactly when it can be seen
/// from outside.
pub proof fn lemma_colors_mark_outer_sides(dimension: int, x: int, y: int, z: int, colors: ColorMap)
    requires
        dimension >= 2,
        is_cell(dimension, x, y, z),
        shows(dimension, x, y, z, colors),
    ensures
        forall|side: int|
            0 <= side < 6 ==> #[trigger] colors[side] as int == if on_side(
                dimension,
                x,
                y,
                z,
                side,
            ) {
                side
            } else {
                HIDDEN as int
            },
        (exists|side: int| 0 <= side < 6 && #[trigger] colors[side] != HIDDEN) <==> is_outer_cell(
            dimension,
            x,
            y,
            z,
        ),
{
    assert forall|side: int| 0 <= side < 6 implies #[trigger] colors[side] as int == if on_side(
        dimension,
        x,
        y,
        z,
        side,
    ) {
        side
    } else {
        HIDDEN as int
    } by {
        if side == 0 {
        } else if side == 1 {
        } else if side == 2 {
        } else if side == 3 {
        } else if side == 4 {
        } else {
        }
    }
    if is_outer_cell(dimension, x, y, z) {
        if x == 1 {
            assert(colors[0] != HIDDEN);
        } else if x == dimension {
            assert(colors[1] != HIDDEN);
        } else if y == 1 {
            assert(colors[2] != HIDDEN);
        } else if y == dimension {
            assert(colors[3] != HIDDEN);
        } else if z == 1 {
            assert(colors[4] != HIDDEN);
        } else {
            assert(colors[5] != HIDDEN);
        }
    }
}


/// Every colour of a tile's colour map is one of the texture's colours, so
/// that the texture coordinates of its faces stay inside the texture.
pub proof fn lemma_color_ids_in_texture(dimension: int, x: int, y: int, z: int, colors: ColorMap)
    requires
        shows(dimension, x, y, z, colors),
    ensures
        forall|side: int| 0 <= side < 6 ==> #[trigger] colors[side] < NUMBER_OF_COLORS,
{
    assert forall|side: int| 0 <= side < 6 implies #[trigger] colors[side] < NUMBER_OF_COLORS by {
        if side == 0 {
        } else if side == 1 {
        } else if side == 2 {
        } else if side == 3 {
        } else if side == 4 {
        } else {
        }
    }
}

/// The position of a tile as three integers.
pub open spec fn tile_x(tile: Tile) -> int {
    tile.position[0] as int
}

pub open spec fn tile_y(tile: Tile) -> int {
    tile.position[1] as int
}

pub open spec fn tile_z(tile: Tile) -> int {
    tile.position[2] as int
}

/// A tile that can be seen from outside, painted as `get_color_map` paints it.
pub open spec fn tile_ok(dimension: int, tile: Tile) -> bool {
    &&& is_outer_cell(dimension, tile_x(tile), tile_y(tile), tile_z(tile))
    &&& shows(dimension, tile_x(tile), tile_y(tile), tile_z(tile), tile.color_map)
}

/// The outer tiles come in three layers: those on the left or right side;
/// those on the top or bottom side but not on the left or right; those on
/// the front or back side only. Within layer `l` a tile is given by a
/// side coordinate `a` (1 or `dimension`), then `b`, then `c`.
pub open spec fn lo_b(dimension: int, layer: int) -> int {
    if layer == 2 {
        2
    } else {
        1
    }
}

pub open spec fn hi_b(dimension: int, layer: int) -> int {
    if layer == 2 {
        dimension - 1
    } else {
        dimension
    }
}

pub open spec fn lo_c(dimension: int, layer: int) -> int {
    if layer == 0 {
        1
    } else {
        2
    }
}

pub open spec fn hi_c(dimension: int, layer: int) -> int {
    if layer == 0 {
        dimension
    } else {
        dimension - 1
    }
}

/// `(a, b, c)` names a tile of layer `layer`.
pub open spec fn in_layer(dimension: int, layer: int, a: int, b: int, c: int) -> bool {
    &&& 0 <= layer < 3
    &&& (a == 1 || a == dimension)
    &&& lo_b(dimension, layer) <= b <= hi_b(dimension, layer)
    &&& lo_c(dimension, layer) <= c <= hi_c(dimension, layer)
}

/// The position `(x, y, z)` of the tile `(a, b, c)` of layer `layer`.
pub open spec fn layer_cell(layer: int, a: int, b: int, c: int) -> (int, int, int) {
    if layer == 0 {
        (a, b, c)
    } else if layer == 1 {
        (c, a, b)
    } else {
        (b, c, a)
    }
}

/// The layer and the coordinates `(a, b, c)` of an outer tile.
pub open spec fn tile_key(dimension: int, x: int, y: int, z: int) -> (int, int, int, int) {
    if x == 1 || x == dimension {
        (0, x, y, z)
    } else if y == 1 || y == dimension {
        (1, y, z, x)
    } else {
        (2, z, x, y)
    }
}

pub open spec fn key_of(dimension: int, tile: Tile) -> (int, int, int, int) {
    tile_key(dimension, tile_x(tile), tile_y(tile), tile_z(tile))
}

/// Lexicographic order on layer, then `a`, then `b`, then `c`.
pub open spec fn key_lt(k: (int, int, int, int), l: (int, int, int, int)) -> bool {
    ||| k.0 < l.0
    ||| k.0 == l.0 && k.1 < l.1
    ||| k.0 == l.0 && k.1 == l.1 && k.2 < l.2
    ||| k.0 == l.0 && k.1 == l.1 && k.2 == l.2 && k.3 < l.3
}

/// The tiles `tiles[lo..hi]` come in strictly increasing order of their keys.
pub open spec fn increasing(dimension: int, tiles: Seq<Tile>, lo: int, hi: int) -> bool {
    forall|i: int, j: int|
        lo <= i < j < hi ==> key_lt(
            #[trigger] key_of(dimension, tiles[i]),
            #[trigger] key_of(dimension, tiles[j]),
        )
}

/// Some tile of `tiles[lo..hi]` has the key `(layer, a, b, c)`.
pub open spec fn covered(
    dimension: int,
    tiles: Seq<Tile>,
    lo: int,
    hi: int,
    layer: int,
    a: int,
    b: int,
    c: int,
) -> bool {
    exists|i: int| lo <= i < hi && #[trigger] key_of(dimension, tiles[i]) == (layer, a, b, c)
}

/// The tiles of layer `layer` are outer tiles, and the key of each is its
/// layer and coordinates.
proof fn lemma_layer_cell_key(dimension: int, layer: int, a: int, b: int, c: int)
    requires
        dimension >= 2,
        in_layer(dimension, layer, a, b, c),
    ensures
        is_outer_cell(
            dimension,
            layer_cell(layer, a, b, c).0,
            layer_cell(layer, a, b, c).1,
            layer_cell(layer, a, b, c).2,
        ),
        tile_key(
            dimension,
            layer_cell(layer, a, b, c).0,
            layer_cell(layer, a, b, c).1,
            layer_cell(layer, a, b, c).2,
        ) == (layer, a, b, c),
{
}

/// Every outer tile belongs to the layer that its key names, at the
/// coordinates that its key names.
proof fn lemma_outer_cell_in_layer(dimension: int, x: int, y: int, z: int)
    requires
        dimension >= 2,
        is_outer_cell(dimension, x, y, z),
    ensures
        in_layer(
            dimension,
            tile_key(dimension, x, y, z).0,
            tile_key(dimension, x, y, z).1,
            tile_key(dimension, x, y, z).2,
            tile_key(dimension, x, y, z).3,
        ),
        layer_cell(
            tile_key(dimension, x, y, z).0,
            tile_key(dimension, x, y, z).1,
            tile_key(dimension, x, y, z).2,
            tile_key(dimension, x, y, z).3,
        ) == (x, y, z),
{
}

proof fn lemma_covered_grows(
    dimension: int,
    before: Seq<Tile>,
    after: Seq<Tile>,
    lo: int,
    hi: int,
    hi2: int,
    layer: int,
    a: int,
    b: int,
    c: int,
)
    requires
        0 <= lo,
        hi <= hi2 <= after.len(),
        hi <= before.len(),
        forall|i: int| 0 <= i < hi ==> after[i] == before[i],
        covered(dimension, before, lo, hi, layer, a, b, c),
    ensures
        covered(dimension, after, lo, hi2, layer, a, b, c),
{
    let w = choose|i: int| lo <= i < hi && #[trigger] key_of(dimension, before[i]) == (layer, a, b, c);
    assert(after[w] == before[w]);
    assert(key_of(dimension, after[w]) == (layer, a, b, c));
}


/// Some tile of `tiles` sits at `(x, y, z)`.
pub open spec fn has_tile_at(tiles: Seq<Tile>, x: int, y: int, z: int) -> bool {
    exists|i: int|
        0 <= i < tiles.len() && tile_x(#[trigger] tiles[i]) == x && tile_y(tiles[i]) == y
            && tile_z(tiles[i]) == z
}

/// The number of outer tiles of a cube with `dimension >= 2` tiles per edge.
pub open spec fn outer_tile_count(dimension: int) -> int {
    6 * dimension * (dimension - 2) + 8
}

/// The outer tiles of a cube are all its tiles but those of the inner cube
/// with two tiles less per edge.
pub proof fn lemma_outer_tile_count(dimension: int)
    requires
        dimension >= 2,
    ensures
        outer_tile_count(dimension) == dimension * dimension * dimension - (dimension - 2) * (
        dimension - 2) * (dimension - 2),
{
    assert(6 * dimension * (dimension - 2) + 8 == dimension * dimension * dimension - (dimension
        - 2) * (dimension - 2) * (dimension - 2)) by (nonlinear_arith);
}

impl Rubik {
    /// Appends the tiles `c = lo_c..=hi_c` of row `b` of side `a` of layer
    /// `layer`.
    fn push_row(&self, tiles: &mut Vec<Tile>, layer: u32, a: u32, b: u32)
        requires
            2 <= self.dimension <= 0x8000,
            layer < 3,
            a == 1 || a == self.dimension,
            lo_b(self.dimension as int, layer as int) <= b <= hi_b(
                self.dimension as int,
                layer as int,
            ),
        ensures
            final(tiles)@.len() == old(tiles)@.len() + (hi_c(self.dimension as int, layer as int)
                - lo_c(self.dimension as int, layer as int) + 1),
            forall|i: int| 0 <= i < old(tiles)@.len() ==> final(tiles)@[i] == old(tiles)@[i],
            forall|i: int|
                old(tiles)@.len() <= i < final(tiles)@.len() ==> tile_ok(
                    self.dimension as int,
                    #[trigger] final(tiles)@[i],
                ) && key_of(self.dimension as int, final(tiles)@[i]) == (
                    layer as int,
                    a as int,
                    b as int,
                    lo_c(self.dimension as int, layer as int) + (i - old(tiles)@.len()),
                ),
    {
        let ghost start = tiles@;
        let ghost dim = self.dimension as int;
        let d = self.dimension;
        let mut c: u32 = if layer == 0 {
            1
        } else {
            2
        };
        let hi: u32 = if layer == 0 {
            d
        } else {
            d - 1
        };
        while c <= hi
            invariant
                dim == d,
                d == self.dimension,
                2 <= d <= 0x8000,
                layer < 3,
                a == 1 || a == d,
                lo_b(dim, layer as int) <= b <= hi_b(dim, layer as int),
                hi == hi_c(dim, layer as int),
                lo_c(dim, layer as int) <= c <= hi + 1,
                tiles@.len() == start.len() + (c - lo_c(dim, layer as int)),
                forall|i: int| 0 <= i < start.len() ==> tiles@[i] == start[i],
                forall|i: int|
                    start.len() <= i < tiles@.len() ==> tile_ok(dim, #[trigger] tiles@[i])
                        && key_of(dim, tiles@[i]) == (
                        layer as int,
                        a as int,
                        b as int,
                        lo_c(dim, layer as int) + (i - start.len()),
                    ),
            decreases hi + 1 - c,
        {
            let position: [u32; 3] = if layer == 0 {
                [a, b, c]
            } else if layer == 1 {
                [c, a, b]
            } else {
                [b, c, a]
            };
            let color_map = self.get_color_map(position);
            proof {
                lemma_layer_cell_key(dim, layer as int, a as int, b as int, c as int);
            }
            let ghost len = tiles@.len();
            tiles.push(Tile { position, color_map });
            proof {
                let t = tiles@[len as int];
                assert(t == Tile { position, color_map });
                let cell = layer_cell(layer as int, a as int, b as int, c as int);
                assert(tile_x(t) == cell.0 && tile_y(t) == cell.1 && tile_z(t) == cell.2);
                assert(tile_ok(dim, t));
            }
            c = c + 1;
        }
    }

    /// Appends the tiles of side `a` of layer `layer`, row by row.
    fn push_side(&self, tiles: &mut Vec<Tile>, layer: u32, a: u32)
        requires
            2 <= self.dimension <= 0x8000,
            layer < 3,
            a == 1 || a == self.dimension,
        ensures
            final(tiles)@.len() == old(tiles)@.len() + (hi_b(self.dimension as int, layer as int)
                - lo_b(self.dimension as int, layer as int) + 1) * (hi_c(
                self.dimension as int,
                layer as int,
            ) - lo_c(self.dimension as int, layer as int) + 1),
            forall|i: int| 0 <= i < old(tiles)@.len() ==> final(tiles)@[i] == old(tiles)@[i],
            forall|i: int|
                old(tiles)@.len() <= i < final(tiles)@.len() ==> tile_ok(
                    self.dimension as int,
                    #[trigger] final(tiles)@[i],
                ) && key_of(self.dimension as int, final(tiles)@[i]).0 == layer && key_of(
                    self.dimension as int,
                    final(tiles)@[i],
                ).1 == a && in_layer(
                    self.dimension as int,
                    layer as int,
                    a as int,
                    key_of(self.dimension as int, final(tiles)@[i]).2,
                    key_of(self.dimension as int, final(tiles)@[i]).3,
                ),
            increasing(self.dimension as int, final(tiles)@, old(tiles)@.len() as int, final(tiles)@.len() as int),
            forall|b: int, c: int|
                in_layer(self.dimension as int, layer as int, a as int, b, c) ==> #[trigger] covered(
                    self.dimension as int,
                    final(tiles)@,
                    old(tiles)@.len() as int,
                    final(tiles)@.len() as int,
                    layer as int,
                    a as int,
                    b,
                    c,
                ),
    {
        let ghost start = tiles@;
        let ghost dim = self.dimension as int;
        let ghost width = hi_c(dim, layer as int) - lo_c(dim, layer as int) + 1;
        let d = self.dimension;
        let mut b: u32 = if layer == 2 {
            2
        } else {
            1
        };
        let hi: u32 = if layer == 2 {
            d - 1
        } else {
            d
        };
        while b <= hi
            invariant
                dim == d,
                d == self.dimension,
                2 <= d <= 0x8000,
                layer < 3,
                a == 1 || a == d,
                width == hi_c(dim, layer as int) - lo_c(dim, layer as int) + 1,
                width >= 0,
                hi == hi_b(dim, layer as int),
                lo_b(dim, layer as int) <= b <= hi + 1,
                tiles@.len() == start.len() + (b - lo_b(dim, layer as int)) * width,
                forall|i: int| 0 <= i < start.len() ==> tiles@[i] == start[i],
                forall|i: int|
                    start.len() <= i < tiles@.len() ==> tile_ok(dim, #[trigger] tiles@[i])
                        && key_of(dim, tiles@[i]).0 == layer && key_of(dim, tiles@[i]).1 == a
                        && in_layer(
                        dim,
                        layer as int,
                        a as int,
                        key_of(dim, tiles@[i]).2,
                        key_of(dim, tiles@[i]).3,
                    ) && key_of(dim, tiles@[i]).2 < b,
                increasing(dim, tiles@, start.len() as int, tiles@.len() as int),
                forall|b2: int, c2: int|
                    in_layer(dim, layer as int, a as int, b2, c2) && b2 < b ==> #[trigger] covered(
                        dim,
                        tiles@,
                        start.len() as int,
                        tiles@.len() as int,
                        layer as int,
                        a as int,
                        b2,
                        c2,
                    ),
            decreases hi + 1 - b,
        {
            let ghost before = tiles@;
            self.push_row(tiles, layer, a, b);
            proof {
                let bl = (b - lo_b(dim, layer as int));
                assert(bl * width + width == (bl + 1) * width) by (nonlinear_arith);
                assert forall|i: int, j: int|
                    start.len() <= i < j < tiles@.len() implies key_lt(
                    #[trigger] key_of(dim, tiles@[i]),
                    #[trigger] key_of(dim, tiles@[j]),
                ) by {
                    if j < before.len() {
                        assert(tiles@[i] == before[i]);
                        assert(tiles@[j] == before[j]);
                        assert(key_lt(key_of(dim, before[i]), key_of(dim, before[j])));
                    } else if i < before.len() {
                        assert(tiles@[i] == before[i]);
                    }
                }
                assert forall|b2: int, c2: int|
                    in_layer(dim, layer as int, a as int, b2, c2) && b2 < b + 1 implies #[trigger] covered(
                    dim,
                    tiles@,
                    start.len() as int,
                    tiles@.len() as int,
                    layer as int,
                    a as int,
                    b2,
                    c2,
                ) by {
                    if b2 < b {
                        assert(covered(
                            dim,
                            before,
                            start.len() as int,
                            before.len() as int,
                            layer as int,
                            a as int,
                            b2,
                            c2,
                        ));
                        lemma_covered_grows(
                            dim,
                            before,
                            tiles@,
                            start.len() as int,
                            before.len() as int,
                            tiles@.len() as int,
                            layer as int,
                            a as int,
                            b2,
                            c2,
                        );
                    } else {
                        let w = before.len() + (c2 - lo_c(dim, layer as int));
                        assert(key_of(dim, tiles@[w]) == (layer as int, a as int, b2, c2));
                    }
                }
            }
            b = b + 1;
        }
    }

    /// Appends the tiles of layer `layer`: its side at 1, then its side at
    /// `dimension`.
    fn push_layer(&self, tiles: &mut Vec<Tile>, layer: u32)
        requires
            2 <= self.dimension <= 0x8000,
            layer < 3,
        ensures
            final(tiles)@.len() == old(tiles)@.len() + 2 * ((hi_b(self.dimension as int, layer as int)
                - lo_b(self.dimension as int, layer as int) + 1) * (hi_c(
                self.dimension as int,
                layer as int,
            ) - lo_c(self.dimension as int, layer as int) + 1)),
            forall|i: int| 0 <= i < old(tiles)@.len() ==> final(tiles)@[i] == old(tiles)@[i],
            forall|i: int|
                old(tiles)@.len() <= i < final(tiles)@.len() ==> tile_ok(
                    self.dimension as int,
                    #[trigger] final(tiles)@[i],
                ) && key_of(self.dimension as int, final(tiles)@[i]).0 == layer,
            increasing(self.dimension as int, final(tiles)@, old(tiles)@.len() as int, final(tiles)@.len() as int),
            forall|a: int, b: int, c: int|
                in_layer(self.dimension as int, layer as int, a, b, c) ==> #[trigger] covered(
                    self.dimension as int,
                    final(tiles)@,
                    old(tiles)@.len() as int,
                    final(tiles)@.len() as int,
                    layer as int,
                    a,
                    b,
                    c,
                ),
    {
        let ghost start = tiles@;
        let ghost dim = self.dimension as int;
        self.push_side(tiles, layer, 1);
        let ghost mid = tiles@;
        self.push_side(tiles, layer, self.dimension);
        proof {
            assert forall|i: int, j: int|
                start.len() <= i < j < tiles@.len() implies key_lt(
                #[trigger] key_of(dim, tiles@[i]),
                #[trigger] key_of(dim, tiles@[j]),
            ) by {
                if j < mid.len() {
                    assert(tiles@[i] == mid[i]);
                    assert(tiles@[j] == mid[j]);
                    assert(key_lt(key_of(dim, mid[i]), key_of(dim, mid[j])));
                } else if i < mid.len() {
                    assert(tiles@[i] == mid[i]);
                }
            }
            assert forall|i: int|
                start.len() <= i < tiles@.len() implies tile_ok(dim, #[trigger] tiles@[i])
                    && key_of(dim, tiles@[i]).0 == layer by {
                if i < mid.len() {
                    assert(tiles@[i] == mid[i]);
                }
            }
            assert forall|a: int, b: int, c: int|
                in_layer(dim, layer as int, a, b, c) implies #[trigger] covered(
                dim,
                tiles@,
                start.len() as int,
                tiles@.len() as int,
                layer as int,
                a,
                b,
                c,
            ) by {
                if a == 1 {
                    assert(covered(
                        dim,
                        mid,
                        start.len() as int,
                        mid.len() as int,
                        layer as int,
                        a,
                        b,
                        c,
                    ));
                    lemma_covered_grows(
                        dim,
                        mid,
                        tiles@,
                        start.len() as int,
                        mid.len() as int,
                        tiles@.len() as int,
                        layer as int,
                        a,
                        b,
                        c,
                    );
                } else {
                    assert(covered(
                        dim,
                        tiles@,
                        mid.len() as int,
                        tiles@.len() as int,
                        layer as int,
                        a,
                        b,
                        c,
                    ));
                    let w = choose|w: int|
                        mid.len() <= w < tiles@.len() && #[trigger] key_of(dim, tiles@[w]) == (
                            layer as int,
                            a,
                            b,
                            c,
                        );
                    assert(key_of(dim, tiles@[w]) == (layer as int, a, b, c));
                }
            }
        }
    }

    /// The outer tiles of the cube, which are the ones that are drawn: the
    /// tiles on the left or right side, then those on the top or bottom side
    /// (and on neither of the first two), then those on the front or back side
    /// only; within each, ordered by the side, then row by row. A cube with a
    /// single tile is that tile, painted on all six faces.
    pub fn tiles(&self) -> (tiles: Vec<Tile>)
        requires
            self.dimension >= 1,
            self.dimension >= 2 ==> outer_tile_count(self.dimension as int) <= u32::MAX,
        ensures
            self.dimension == 1 ==> {
                &&& tiles@.len() == 1
                &&& tiles@[0].position@ == seq![1u32, 1, 1]
                &&& tiles@[0].color_map@ == seq![0u32, 1, 2, 3, 4, 5]
            },
            self.dimension >= 2 ==> {
                &&& tiles@.len() == outer_tile_count(self.dimension as int)
                &&& forall|i: int|
                    0 <= i < tiles@.len() ==> tile_ok(self.dimension as int, #[trigger] tiles@[i])
                &&& increasing(self.dimension as int, tiles@, 0, tiles@.len() as int)
                &&& forall|i: int, j: int|
                    0 <= i < j < tiles@.len() ==> #[trigger] tiles@[i].position != #[trigger] tiles@[j].position
                &&& forall|x: int, y: int, z: int|
                    is_outer_cell(self.dimension as int, x, y, z) ==> #[trigger] has_tile_at(
                        tiles@,
                        x,
                        y,
                        z,
                    )
            },
    {
        let d = self.dimension;
        if d == 1 {
            let t = Tile { position: [1, 1, 1], color_map: [0, 1, 2, 3, 4, 5] };
            let v = vec![t];
            assert(v@[0].position@ == seq![1u32, 1, 1]);
            assert(v@[0].color_map@ == seq![0u32, 1, 2, 3, 4, 5]);
            return v;
        }
        let ghost dim = d as int;
        proof {
            if d > 0x8000 {
                assert(6 * dim * (dim - 2) + 8 > 0xffff_ffff) by (nonlinear_arith)
                    requires
                        dim > 0x8000,
                ;
            }
        }
        let mut tiles: Vec<Tile> = Vec::new();
        self.push_layer(&mut tiles, 0);
        let ghost t0 = tiles@;
        self.push_layer(&mut tiles, 1);
        let ghost t1 = tiles@;
        self.push_layer(&mut tiles, 2);
        proof {
            assert(2 * (dim * dim) + 2 * (dim * (dim - 2)) + 2 * ((dim - 2) * (dim - 2))
                == 6 * dim * (dim - 2) + 8) by (nonlinear_arith);
            assert forall|i: int|
                0 <= i < tiles@.len() implies tile_ok(dim, #[trigger] tiles@[i]) && key_of(
                dim,
                tiles@[i],
            ).0 == (if i < t0.len() {
                0int
            } else if i < t1.len() {
                1
            } else {
                2
            }) by {
                if i < t1.len() {
                    assert(tiles@[i] == t1[i]);
                    if i < t0.len() {
                        assert(t1[i] == t0[i]);
                    }
                }
            }
            assert forall|i: int, j: int|
                0 <= i < j < tiles@.len() implies key_lt(
                #[trigger] key_of(dim, tiles@[i]),
                #[trigger] key_of(dim, tiles@[j]),
            ) by {
                if j < t1.len() {
                    assert(tiles@[i] == t1[i]);
                    assert(tiles@[j] == t1[j]);
                    if j < t0.len() {
                        assert(t1[i] == t0[i]);
                        assert(t1[j] == t0[j]);
                        assert(key_lt(key_of(dim, t0[i]), key_of(dim, t0[j])));
                    } else if i >= t0.len() {
                        assert(key_lt(key_of(dim, t1[i]), key_of(dim, t1[j])));
                    }
                } else if i >= t1.len() {
                } else {
                }
            }
            assert forall|i: int, j: int|
                0 <= i < j < tiles@.len() implies #[trigger] tiles@[i].position != #[trigger] tiles@[j].position by {
                assert(key_lt(key_of(dim, tiles@[i]), key_of(dim, tiles@[j])));
            }
            assert forall|x: int, y: int, z: int|
                is_outer_cell(dim, x, y, z) implies #[trigger] has_tile_at(tiles@, x, y, z) by {
                lemma_outer_cell_in_layer(dim, x, y, z);
                let k = tile_key(dim, x, y, z);
                let lo: int = if k.0 == 0 {
                    0
                } else if k.0 == 1 {
                    t0.len() as int
                } else {
                    t1.len() as int
                };
                if k.0 == 0 {
                    assert(covered(dim, t0, 0, t0.len() as int, k.0, k.1, k.2, k.3));
                    lemma_covered_grows(dim, t0, tiles@, 0, t0.len() as int, tiles@.len() as int, k.0, k.1, k.2, k.3);
                } else if k.0 == 1 {
                    assert(covered(dim, t1, t0.len() as int, t1.len() as int, k.0, k.1, k.2, k.3));
                    lemma_covered_grows(dim, t1, tiles@, t0.len() as int, t1.len() as int, tiles@.len() as int, k.0, k.1, k.2, k.3);
                }
                assert(covered(dim, tiles@, lo, tiles@.len() as int, k.0, k.1, k.2, k.3));
                let w = choose|w: int|
                    lo <= w < tiles@.len() && #[trigger] key_of(dim, tiles@[w]) == k;
                let t = tiles@[w];
                lemma_outer_cell_in_layer(dim, tile_x(t), tile_y(t), tile_z(t));
                assert(tile_x(t) == x && tile_y(t) == y && tile_z(t) == z);
            }
        }
        tiles
    }
}

} // verus!
