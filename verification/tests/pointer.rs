use jigsaw_puzzle::pointer::InputState;
use jigsaw_puzzle::queue::Input;

#[test]
fn pointer_hovers_while_up() {
    let mut state = InputState::new();
    assert!(!state.is_pointer_down);
    assert_eq!(state.pointer_move(5, 6), Some(Input::PointerHover(5, 6)));
    assert_eq!(state, InputState::new());
    assert_eq!(state.pointer_up(5, 6), None);
}

#[test]
fn pointer_drag_reports_delta_and_diff() {
    let mut state = InputState::new();
    assert_eq!(state.pointer_down(10, 20), Input::PointerDown(10, 20));
    assert!(state.is_pointer_down);
    assert_eq!(state.pointer_move(13, 18), Some(Input::PointerDrag(13, 18, 3, -2, 3, -2)));
    assert_eq!(state.pointer_move(20, 30), Some(Input::PointerDrag(20, 30, 7, 12, 10, 10)));
    // back at the start: nothing is reported, but the last position moves
    assert_eq!(state.pointer_move(10, 20), None);
    assert_eq!(state.last_pointer_move_x, 10);
    assert_eq!(state.pointer_move(11, 20), Some(Input::PointerDrag(11, 20, 1, 0, 1, 0)));
    assert_eq!(state.pointer_up(15, 25), Some(Input::PointerUp(15, 25, 4, 5, 5, 5)));
    assert!(!state.is_pointer_down);
    assert_eq!(state.pointer_move(1, 1), Some(Input::PointerHover(1, 1)));
}

#[test]
fn pointer_up_where_it_went_down_is_not_reported() {
    let mut state = InputState::new();
    state.pointer_down(4, 4);
    assert_eq!(state.pointer_move(8, 8), Some(Input::PointerDrag(8, 8, 4, 4, 4, 4)));
    assert_eq!(state.pointer_up(4, 4), None);
    assert!(!state.is_pointer_down);
}
