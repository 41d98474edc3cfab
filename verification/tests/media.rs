use jigsaw_puzzle::media::PuzzleInfo;

fn info(images: Vec<(u32, u32, u32, u32, u32, u32)>) -> PuzzleInfo {
    PuzzleInfo { puzzle_width: 100, puzzle_height: 80, atlas_width: 64, atlas_height: 64, images }
}

#[test]
fn bounds_are_extreme_destinations() {
    let p = info(vec![(0, 0, 10, 40, 5, 6), (0, 0, 30, 5, 9, 2), (0, 0, 20, 60, 1, 8)]);
    assert_eq!(p.get_bounds(), (10, 5, 30, 60));
    assert_eq!(p.get_max_piece_area(), (9, 8));
}

#[test]
fn bounds_of_no_piece() {
    let p = info(vec![]);
    assert_eq!(p.get_bounds(), (u32::MAX, u32::MAX, 0, 0));
    assert_eq!(p.get_max_piece_area(), (0, 0));
}

#[test]
fn bounds_of_one_piece() {
    let p = info(vec![(1, 2, 3, 4, 5, 6)]);
    assert_eq!(p.get_bounds(), (3, 4, 3, 4));
    assert_eq!(p.get_max_piece_area(), (5, 6));
}
