use jigsaw_puzzle::pieces::{evaluate_piece, Evaluate, EvaluateOutcome, PieceState, PiecesOrder};

#[test]
fn select_moves_piece_to_top() {
    let mut order = PiecesOrder(vec![10, 11, 12, 13]);
    let out = evaluate_piece(&mut order, 11, Some(1), Evaluate::Select, PieceState::Free, false);
    assert_eq!(out, EvaluateOutcome { state: PieceState::Free, lock_tween: false });
    assert_eq!(order.0, vec![10, 12, 13, 11]);
}

#[test]
fn select_takes_out_the_entry_at_the_piece_index() {
    // the stacking position is taken from the piece's index, whatever entity stands there
    let mut order = PiecesOrder(vec![13, 12, 11, 10]);
    evaluate_piece(&mut order, 10, Some(0), Evaluate::Select, PieceState::Move, true);
    assert_eq!(order.0, vec![12, 11, 10, 10]);
}

#[test]
fn select_without_index_changes_nothing() {
    let mut order = PiecesOrder(vec![1, 2]);
    let out = evaluate_piece(&mut order, 5, None, Evaluate::Select, PieceState::Move, false);
    assert_eq!(out, EvaluateOutcome { state: PieceState::Move, lock_tween: false });
    assert_eq!(order.0, vec![1, 2]);
}

#[test]
fn release_locks_near_piece() {
    let mut order = PiecesOrder(vec![1, 2]);
    let near = evaluate_piece(&mut order, 2, Some(1), Evaluate::Release, PieceState::Free, true);
    assert_eq!(near, EvaluateOutcome { state: PieceState::Locked, lock_tween: true });
    let far = evaluate_piece(&mut order, 2, Some(1), Evaluate::Release, PieceState::Move, false);
    assert_eq!(far, EvaluateOutcome { state: PieceState::Free, lock_tween: false });
    let unknown = evaluate_piece(&mut order, 2, None, Evaluate::Release, PieceState::Move, true);
    assert_eq!(unknown, EvaluateOutcome { state: PieceState::Move, lock_tween: false });
    assert_eq!(order.0, vec![1, 2]);
}

#[test]
fn finished_animations_settle_state() {
    let mut order = PiecesOrder(vec![]);
    let free = evaluate_piece(&mut order, 1, None, Evaluate::FreeAnimFinished, PieceState::Move, false);
    assert_eq!(free, EvaluateOutcome { state: PieceState::Free, lock_tween: false });
    let locked = evaluate_piece(&mut order, 1, Some(0), Evaluate::LockAnimFinished, PieceState::Move, false);
    assert_eq!(locked, EvaluateOutcome { state: PieceState::Locked, lock_tween: false });
}
