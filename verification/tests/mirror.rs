use twisty::mirror::Mirror;

#[test]
fn twenty_six_pieces_without_centre() {
    let p = Mirror::new().piece_positions();
    assert_eq!(p.len(), 26);
    assert_eq!(p[0], [0, 0, 0]);
    assert_eq!(p[12], [1, 1, 0]);
    assert_eq!(p[13], [1, 1, 2]);
    assert_eq!(p[25], [2, 2, 2]);
    assert!(!p.contains(&[1, 1, 1]));
    for x in 0..3 {
        for y in 0..3 {
            for z in 0..3 {
                let n = p.iter().filter(|q| **q == [x, y, z]).count();
                assert_eq!(n, if [x, y, z] == [1, 1, 1] { 0 } else { 1 });
            }
        }
    }
}
