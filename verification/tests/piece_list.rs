use jigsaw_puzzle::piece_list::{id_number, read_piece_entries};

#[test]
fn id_number_reads_as_std_parse_does() {
    let cases = [
        "0", "7", "42", "+42", "007", "4294967295", "4294967296", "99999999999", "", "+", "-1",
        "-0", " 1", "1 ", "1a", "a1", "++1", "+0", "١", "12x34",
    ];
    for case in cases.iter() {
        assert_eq!(id_number(case), case.parse::<u32>().ok(), "id {:?}", case);
    }
    assert_eq!(id_number("123"), Some(123));
    assert_eq!(id_number("4294967295"), Some(u32::MAX));
    assert_eq!(id_number("4294967296"), None);
}

#[test]
fn piece_list_ordered_by_id_number() {
    let json = br#"{"10": [1, 2, 30, 40], "2": [3, 4, 50, 60], "1": [5, 6, 70, 80]}"#;
    let entries = read_piece_entries(json, None).unwrap();
    let ids: Vec<&str> = entries.iter().map(|e| e.id.as_str()).collect();
    assert_eq!(ids, vec!["1", "2", "10"]);
    let keys: Vec<u32> = entries.iter().map(|e| e.key).collect();
    assert_eq!(keys, vec![1, 2, 10]);
    assert_eq!((entries[0].dest_x, entries[0].dest_y), (5, 6));
    assert_eq!((entries[1].dest_x, entries[1].dest_y), (3, 4));
    assert_eq!((entries[2].dest_x, entries[2].dest_y), (1, 2));
}

#[test]
fn piece_list_keeps_the_first_pieces_up_to_the_limit() {
    let json = br#"{"3": [0, 0, 1, 1], "1": [1, 1, 1, 1], "2": [2, 2, 1, 1]}"#;
    let entries = read_piece_entries(json, Some(2)).unwrap();
    let ids: Vec<&str> = entries.iter().map(|e| e.id.as_str()).collect();
    assert_eq!(ids, vec!["1", "2"]);
    assert_eq!(read_piece_entries(json, Some(10)).unwrap().len(), 3);
    assert!(read_piece_entries(json, Some(0)).unwrap().is_empty());
}

#[test]
fn piece_list_refused() {
    assert!(read_piece_entries(b"not json", None).is_none());
    assert!(read_piece_entries(b"[1, 2, 3]", None).is_none());
    assert!(read_piece_entries(br#"{"1": [1, 2, 3]}"#, None).is_none());
    assert!(read_piece_entries(br#"{"1": [1, 2, 3, -4]}"#, None).is_none());
    // two pieces to order and an id that is no number
    assert!(read_piece_entries(br#"{"1": [0, 0, 1, 1], "x": [0, 0, 1, 1]}"#, None).is_none());
}

#[test]
fn piece_list_with_one_piece_compares_no_ids() {
    let entries = read_piece_entries(br#"{"first": [8, 9, 1, 1]}"#, None).unwrap();
    assert_eq!(entries.len(), 1);
    assert_eq!(entries[0].id, "first");
    assert_eq!(entries[0].key, 0);
    assert_eq!((entries[0].dest_x, entries[0].dest_y), (8, 9));
    assert!(read_piece_entries(b"{}", None).unwrap().is_empty());
}
