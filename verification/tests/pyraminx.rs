use twisty::pyraminx::{sequential_triangle_indices, Pyraminx};

#[test]
fn pyraminx_new_keeps_dimension() {
    assert_eq!(Pyraminx::new(3).dimension, 3);
}

#[test]
fn sequential_indices() {
    assert_eq!(sequential_triangle_indices(4), (0..12).collect::<Vec<u32>>());
    assert_eq!(sequential_triangle_indices(8), (0..24).collect::<Vec<u32>>());
    assert!(sequential_triangle_indices(0).is_empty());
}

fn closed_oriented(sides: &[[u8; 3]]) -> bool {
    let mut edges = Vec::new();
    for s in sides {
        for k in 0..3 {
            edges.push((s[k], s[(k + 1) % 3]));
        }
    }
    edges.iter().enumerate().all(|(i, e)| {
        edges.iter().skip(i + 1).all(|f| f != e) && edges.contains(&(e.1, e.0))
    })
}

#[test]
fn tetrahedron_is_closed_and_oriented() {
    let sides = Pyraminx::new(3).tetrahedron_sides();
    assert_eq!(sides, vec![[0, 2, 1], [3, 1, 2], [3, 2, 0], [3, 0, 1]]);
    assert!(closed_oriented(&sides));
}

#[test]
fn bipyramid_is_closed_and_oriented() {
    let sides = Pyraminx::new(3).bipyramid_sides();
    assert_eq!(sides.len(), 8);
    assert_eq!(sides[0], [3, 4, 5]);
    assert_eq!(sides[7], [1, 4, 3]);
    assert!(closed_oriented(&sides));
}
