use jigsaw_puzzle::atlas::{order_entries, ImageInfo, Info, PieceEntry, Puzzle};

fn image(id: &str, dest_x: u32, dest_y: u32, width: u32, height: u32) -> ImageInfo {
    ImageInfo { id: id.to_string(), dest_x, dest_y, width, height }
}

fn entry(id: &str, key: u32) -> PieceEntry {
    PieceEntry { id: id.to_string(), key, dest_x: key * 10, dest_y: key * 20 }
}

#[test]
fn from_images_sizes_puzzle_and_flips_y() {
    let info = Info::from_images(vec![image("1", 0, 0, 10, 20), image("2", 10, 0, 5, 30)]);
    assert_eq!(info.puzzle_width, 15);
    assert_eq!(info.puzzle_height, 30);
    assert_eq!(info.images.len(), 2);
    assert_eq!(info.images[0].id, "1");
    assert_eq!(info.images[0].dest_x, 0);
    assert_eq!(info.images[0].dest_y, 10);
    assert_eq!(info.images[1].id, "2");
    assert_eq!(info.images[1].dest_x, 10);
    assert_eq!(info.images[1].dest_y, 0);
}

#[test]
fn from_images_keeps_pieces_inside_puzzle() {
    let info = Info::from_images(vec![
        image("a", 3, 4, 7, 2),
        image("b", 0, 9, 4, 4),
        image("c", 12, 1, 1, 1),
    ]);
    assert_eq!(info.puzzle_width, 13);
    assert_eq!(info.puzzle_height, 13);
    for im in info.images.iter() {
        assert!(im.dest_x + im.width <= info.puzzle_width);
        assert!(im.dest_y + im.height <= info.puzzle_height);
    }
    assert_eq!(info.images[0].dest_y, 13 - (4 + 2));
    assert_eq!(info.images[1].dest_y, 0);
    assert_eq!(info.images[2].dest_y, 13 - 2);
}

#[test]
fn from_images_of_nothing_is_empty() {
    let info = Info::from_images(vec![]);
    assert_eq!(info.puzzle_width, 0);
    assert_eq!(info.puzzle_height, 0);
    assert!(info.images.is_empty());
}

#[test]
fn image_info_reports_its_size() {
    let im = image("7", 1, 2, 30, 40);
    assert_eq!(im._width(), 30);
    assert_eq!(im.height(), 40);
}

#[test]
fn order_entries_sorts_by_key() {
    let out = order_entries(vec![entry("3", 3), entry("1", 1), entry("2", 2)], None);
    let ids: Vec<&str> = out.iter().map(|e| e.id.as_str()).collect();
    assert_eq!(ids, vec!["1", "2", "3"]);
    assert_eq!(out[0].dest_x, 10);
    assert_eq!(out[2].dest_y, 60);
}

#[test]
fn order_entries_sorts_numerically_not_by_text() {
    let out = order_entries(vec![entry("10", 10), entry("9", 9), entry("100", 100), entry("0", 0)], None);
    let keys: Vec<u32> = out.iter().map(|e| e.key).collect();
    assert_eq!(keys, vec![0, 9, 10, 100]);
}

#[test]
fn order_entries_keeps_the_limit() {
    let out = order_entries(vec![entry("5", 5), entry("4", 4), entry("6", 6)], Some(2));
    let keys: Vec<u32> = out.iter().map(|e| e.key).collect();
    assert_eq!(keys, vec![4, 5]);
    let all = order_entries(vec![entry("5", 5), entry("4", 4)], Some(10));
    assert_eq!(all.len(), 2);
    let none = order_entries(vec![entry("5", 5), entry("4", 4)], Some(0));
    assert!(none.is_empty());
    let empty = order_entries(vec![], None);
    assert!(empty.is_empty());
}

fn atlas_info() -> Info {
    Info {
        images: vec![image("0", 100, 200, 5, 4), image("1", 110, 210, 6, 3), image("2", 120, 220, 10, 7)],
        puzzle_width: 20,
        puzzle_height: 50,
    }
}

#[test]
fn atlas_packs_rows() {
    let puzzle = Puzzle::from_info(&atlas_info(), 2);
    assert_eq!(puzzle.puzzle_width, 20);
    assert_eq!(puzzle.puzzle_height, 50);
    assert_eq!(puzzle.atlas_width, 17);
    assert_eq!(puzzle.atlas_height, 17);
    assert_eq!(
        puzzle.images,
        vec![(2, 2, 100, 200, 5, 4), (9, 2, 110, 210, 6, 3), (2, 8, 120, 220, 10, 7)]
    );
}

#[test]
fn atlas_pieces_are_inside_and_apart() {
    let pad = 3;
    let info = Info {
        images: vec![
            image("0", 0, 0, 8, 9),
            image("1", 0, 0, 12, 4),
            image("2", 0, 0, 3, 15),
            image("3", 0, 0, 20, 2),
            image("4", 0, 0, 7, 7),
            image("5", 0, 0, 40, 1),
        ],
        puzzle_width: 30,
        puzzle_height: 30,
    };
    let puzzle = Puzzle::from_info(&info, pad);
    for (i, a) in puzzle.images.iter().enumerate() {
        assert!(a.0 >= pad && a.1 >= pad);
        assert!(a.0 + a.4 + pad <= puzzle.atlas_width);
        assert!(a.1 + a.5 + pad <= puzzle.atlas_height);
        for b in puzzle.images.iter().skip(i + 1) {
            assert!(a.0 + a.4 + pad <= b.0 || a.1 + a.5 + pad <= b.1);
        }
    }
}

#[test]
fn atlas_of_no_piece_is_empty() {
    let info = Info { images: vec![], puzzle_width: 10, puzzle_height: 10 };
    let puzzle = Puzzle::from_info(&info, 4);
    assert_eq!(puzzle.atlas_width, 0);
    assert_eq!(puzzle.atlas_height, 0);
    assert!(puzzle.images.is_empty());
}

#[test]
fn atlas_piece_wider_than_puzzle_starts_new_row() {
    let info = Info { images: vec![image("0", 0, 0, 50, 5)], puzzle_width: 10, puzzle_height: 10 };
    let puzzle = Puzzle::from_info(&info, 1);
    // the first piece already reaches the puzzle width, so it opens a row below an empty one
    assert_eq!(puzzle.images, vec![(1, 2, 0, 0, 50, 5)]);
    assert_eq!(puzzle.atlas_width, 52);
    assert_eq!(puzzle.atlas_height, 8);
}
