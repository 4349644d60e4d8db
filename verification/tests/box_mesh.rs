use twisty::box_mesh::{corner_signs, side_texels, triangle_indices, vertex_normals};

#[test]
fn corner_signs_first_side_and_rotations() {
    let c = corner_signs();
    assert_eq!(c.len(), 24);
    assert_eq!(&c[0..4], &[[1, 1, 1], [1, 1, -1], [1, -1, 1], [1, -1, -1]]);
    assert_eq!(&c[4..8], &[[-1, 1, 1], [-1, 1, -1], [-1, -1, 1], [-1, -1, -1]]);
    assert_eq!(&c[8..12], &[[1, 1, 1], [-1, 1, 1], [1, 1, -1], [-1, 1, -1]]);
    assert_eq!(&c[16..20], &[[1, 1, 1], [1, -1, 1], [-1, 1, 1], [-1, -1, 1]]);
}

#[test]
fn normals_per_side() {
    let n = vertex_normals();
    assert_eq!(n.len(), 24);
    let expect = [[1, 0, 0], [-1, 0, 0], [0, 1, 0], [0, -1, 0], [0, 0, 1], [0, 0, -1]];
    for v in 0..24 {
        assert_eq!(n[v], expect[v / 4]);
    }
}

#[test]
fn triangle_index_list() {
    assert_eq!(
        triangle_indices(),
        vec![
            0, 2, 1, 1, 2, 3, 4, 5, 6, 6, 5, 7, 8, 10, 9, 9, 10, 11, 12, 13, 14, 14, 13, 15, 16,
            18, 17, 17, 18, 19, 20, 21, 22, 22, 21, 23,
        ]
    );
}

#[test]
fn vertices_lie_on_their_side() {
    let c = corner_signs();
    let n = vertex_normals();
    for v in 0..24 {
        let d: i32 = (0..3).map(|k| c[v][k] as i32 * n[v][k] as i32).sum();
        assert_eq!(d, 1);
    }
}

#[test]
fn triangles_face_outward() {
    let c = corner_signs();
    let n = vertex_normals();
    let idx = triangle_indices();
    for t in 0..12 {
        let (a, b, cc) = (idx[3 * t] as usize, idx[3 * t + 1] as usize, idx[3 * t + 2] as usize);
        assert!(a / 4 == t / 2 && b / 4 == t / 2 && cc / 4 == t / 2);
        let p = |v: usize| [c[v][0] as i32, c[v][1] as i32, c[v][2] as i32];
        let (pa, pb, pc) = (p(a), p(b), p(cc));
        let u = [pb[0] - pa[0], pb[1] - pa[1], pb[2] - pa[2]];
        let w = [pc[0] - pa[0], pc[1] - pa[1], pc[2] - pa[2]];
        let x = [u[1] * w[2] - u[2] * w[1], u[2] * w[0] - u[0] * w[2], u[0] * w[1] - u[1] * w[0]];
        let d: i32 = (0..3).map(|k| x[k] * n[a][k] as i32).sum();
        assert!(d > 0, "triangle {} faces inward", t);
    }
}

#[test]
fn texels_repeat_side_colours() {
    let t = side_texels([0, 6, 2, 6, 4, 6]);
    assert_eq!(
        t,
        vec![0, 0, 0, 0, 6, 6, 6, 6, 2, 2, 2, 2, 6, 6, 6, 6, 4, 4, 4, 4, 6, 6, 6, 6]
    );
}
