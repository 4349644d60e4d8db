use twisty::rubiks::{Rubik, Tile, HIDDEN, NUMBER_OF_COLORS};

fn is_outer(d: u32, p: [u32; 3]) -> bool {
    p.iter().all(|&c| 1 <= c && c <= d) && p.iter().any(|&c| c == 1 || c == d)
}

#[test]
fn rubik_new_keeps_dimension() {
    assert_eq!(Rubik::new(3).dimension, 3);
    assert_eq!(Rubik::new(1).dimension, 1);
}

#[test]
fn color_map_of_corners_and_centre() {
    let r = Rubik::new(3);
    assert_eq!(r.get_color_map([1, 1, 1]), [0, 6, 2, 6, 4, 6]);
    assert_eq!(r.get_color_map([3, 3, 3]), [6, 1, 6, 3, 6, 5]);
    assert_eq!(r.get_color_map([2, 2, 2]), [6; 6]);
    assert_eq!(r.get_color_map([1, 2, 3]), [0, 6, 6, 6, 6, 5]);
    assert_eq!(r.get_color_map([2, 3, 2]), [6, 6, 6, 3, 6, 6]);
}

#[test]
fn color_map_on_single_tile_cube_keeps_low_sides() {
    // On a 1x1x1 cube every coordinate is both 1 and the dimension; the low
    // side wins, which is why such a cube is painted separately.
    assert_eq!(Rubik::new(1).get_color_map([1, 1, 1]), [0, 6, 2, 6, 4, 6]);
}

#[test]
fn color_map_marks_exactly_the_outer_sides() {
    for d in 2..6u32 {
        let r = Rubik::new(d);
        for x in 1..=d {
            for y in 1..=d {
                for z in 1..=d {
                    let m = r.get_color_map([x, y, z]);
                    let on = [x == 1, x == d, y == 1, y == d, z == 1, z == d];
                    for s in 0..6 {
                        assert_eq!(m[s], if on[s] { s as u32 } else { HIDDEN });
                        assert!(m[s] < NUMBER_OF_COLORS);
                    }
                    assert_eq!(m.iter().any(|&c| c != HIDDEN), is_outer(d, [x, y, z]));
                }
            }
        }
    }
}

#[test]
fn single_tile_cube() {
    let tiles = Rubik::new(1).tiles();
    assert_eq!(tiles.len(), 1);
    assert_eq!(tiles[0].position, [1, 1, 1]);
    assert_eq!(tiles[0].color_map, [0, 1, 2, 3, 4, 5]);
}

fn positions(tiles: &[Tile]) -> Vec<[u32; 3]> {
    tiles.iter().map(|t| t.position).collect()
}

#[test]
fn tile_counts() {
    assert_eq!(Rubik::new(2).tiles().len(), 8);
    assert_eq!(Rubik::new(3).tiles().len(), 26);
    assert_eq!(Rubik::new(4).tiles().len(), 56);
    assert_eq!(Rubik::new(5).tiles().len(), 98);
    for d in 2..12u32 {
        let n = Rubik::new(d).tiles().len() as u32;
        assert_eq!(n, 6 * d * (d - 2) + 8);
        assert_eq!(n, d * d * d - (d - 2) * (d - 2) * (d - 2));
    }
}

#[test]
fn tiles_of_the_two_cube_in_order() {
    let p = positions(&Rubik::new(2).tiles());
    assert_eq!(
        p,
        vec![
            [1, 1, 1], [1, 1, 2], [1, 2, 1], [1, 2, 2],
            [2, 1, 1], [2, 1, 2], [2, 2, 1], [2, 2, 2],
        ]
    );
}

#[test]
fn tiles_of_the_three_cube_start_and_layers() {
    let p = positions(&Rubik::new(3).tiles());
    assert_eq!(&p[0..4], &[[1, 1, 1], [1, 1, 2], [1, 1, 3], [1, 2, 1]]);
    // after the 18 tiles of the left and right sides: top then bottom rows
    assert_eq!(&p[18..21], &[[2, 1, 1], [2, 1, 2], [2, 1, 3]]);
    assert_eq!(&p[21..24], &[[2, 3, 1], [2, 3, 2], [2, 3, 3]]);
    // then the front and back centres
    assert_eq!(&p[24..26], &[[2, 2, 1], [2, 2, 3]]);
}

#[test]
fn tiles_are_the_outer_cells_once_each() {
    for d in 2..8u32 {
        let tiles = Rubik::new(d).tiles();
        let p = positions(&tiles);
        for (i, t) in tiles.iter().enumerate() {
            assert!(is_outer(d, t.position));
            assert_eq!(t.color_map, Rubik::new(d).get_color_map(t.position));
            for q in &p[i + 1..] {
                assert_ne!(&t.position, q);
            }
        }
        for x in 1..=d {
            for y in 1..=d {
                for z in 1..=d {
                    assert_eq!(p.contains(&[x, y, z]), is_outer(d, [x, y, z]));
                }
            }
        }
    }
}
