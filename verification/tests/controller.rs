use jigsaw_puzzle::controller::{
    CameraController, Controller, ControllerActions, DragController, ZoomStep,
};
use jigsaw_puzzle::pieces::{Evaluate, PieceState};
use jigsaw_puzzle::queue::{Input, Key, WheelDeltaMode, WheelSign};
use jigsaw_puzzle::reset::{side_from_index, Reset, Side};

fn space() -> Key {
    Key { space: true }
}

#[test]
fn drag_controller_holds_its_piece() {
    assert_eq!(DragController::Selected(4).get_selected(), Some(4));
    assert_eq!(DragController::Move(9, 1, -1).get_selected(), Some(9));
}

#[test]
fn pointer_down_selects_picked_piece() {
    let mut c = Controller::default();
    assert!(c.picks_on(&Input::PointerDown(1, 1)));
    assert!(!c.picks_on(&Input::PointerHover(1, 1)));
    c.apply_input(Input::PointerDown(1, 1), Some(7));
    assert_eq!(c.drag, Some(DragController::Selected(7)));
    assert_eq!(c.first_selected, Some(7));

    let mut empty = Controller::default();
    empty.apply_input(Input::PointerDown(1, 1), None);
    assert_eq!(empty, Controller::default());
}

#[test]
fn pointer_down_while_panning_selects_nothing() {
    let mut c = Controller::default();
    c.apply_input(Input::KeyDown(space()), None);
    assert_eq!(c.camera.pan, Some((0, 0)));
    assert!(!c.picks_on(&Input::PointerDown(1, 1)));
    c.apply_input(Input::PointerDown(1, 1), Some(3));
    assert_eq!(c.drag, None);
    assert_eq!(c.first_selected, None);
}

#[test]
fn drags_accumulate_deltas() {
    let mut c = Controller::default();
    c.apply_input(Input::PointerDown(0, 0), Some(5));
    c.apply_input(Input::PointerDrag(3, 4, 3, 4, 3, 4), None);
    assert_eq!(c.drag, Some(DragController::Move(5, 3, 4)));
    c.apply_input(Input::PointerDrag(1, 9, -2, 5, 1, 9), None);
    assert_eq!(c.drag, Some(DragController::Move(5, 1, 9)));
    // with no piece held, a drag moves nothing
    let mut idle = Controller::default();
    idle.apply_input(Input::PointerDrag(1, 1, 1, 1, 1, 1), None);
    assert_eq!(idle, Controller::default());
}

#[test]
fn pan_accumulates_deltas() {
    let mut c = Controller::default();
    c.apply_input(Input::KeyDown(space()), None);
    c.apply_input(Input::PointerDrag(0, 0, 4, -6, 4, -6), None);
    c.apply_input(Input::PointerDrag(0, 0, 1, 1, 5, -5), None);
    assert_eq!(c.camera.pan, Some((5, -5)));
    c.apply_input(Input::KeyUp(space()), None);
    assert_eq!(c.camera.pan, None);
}

#[test]
fn space_does_not_pan_while_dragging() {
    let mut c = Controller::default();
    c.apply_input(Input::PointerDown(0, 0), Some(1));
    c.apply_input(Input::KeyDown(space()), None);
    assert_eq!(c.camera.pan, None);
    let mut other = Controller::default();
    other.apply_input(Input::KeyDown(Key { space: false }), None);
    assert_eq!(other.camera.pan, None);
}

#[test]
fn pointer_up_lets_go() {
    let mut c = Controller::default();
    c.apply_input(Input::PointerDown(0, 0), Some(8));
    c.apply_input(Input::PointerDrag(2, 2, 2, 2, 2, 2), None);
    c.apply_input(Input::PointerUp(3, 3, 1, 1, 3, 3), None);
    assert_eq!(c.drag, None);
    assert_eq!(c.let_go, Some(8));
    assert_eq!(c.first_selected, None);
    assert_eq!(c.camera.pan, None);
}

#[test]
fn wheel_sets_zoom_in_pixel_mode_only() {
    let mut c = Controller::default();
    c.apply_input(Input::Wheel(WheelDeltaMode::Pixel, WheelSign::Zero), None);
    assert_eq!(c.camera.zoom, None);
    c.apply_input(Input::Wheel(WheelDeltaMode::Line, WheelSign::Positive), None);
    assert_eq!(c.camera.zoom, None);
    c.apply_input(Input::Wheel(WheelDeltaMode::Page, WheelSign::Negative), None);
    assert_eq!(c.camera.zoom, None);
    c.apply_input(Input::Wheel(WheelDeltaMode::Pixel, WheelSign::Positive), None);
    assert_eq!(c.camera.zoom, Some(WheelSign::Positive));
    c.apply_input(Input::Wheel(WheelDeltaMode::Pixel, WheelSign::NotANumber), None);
    assert_eq!(c.camera.zoom, Some(WheelSign::NotANumber));
}

#[test]
fn reset_button_asks_for_reset() {
    let mut c = Controller::default();
    c.apply_input(Input::ResetButton, None);
    assert!(c.reset);
    let mut reset = Reset::default();
    assert!(!reset.0);
    c.clear(&mut reset);
    assert!(reset.0);
    assert!(!c.reset);
    assert!(reset.consume());
    assert!(!reset.0);
    assert!(!reset.consume());
}

#[test]
fn hover_and_click_change_nothing() {
    let mut c = Controller::default();
    c.apply_input(Input::PointerHover(1, 2), None);
    c.apply_input(Input::PointerClick(1, 2), None);
    assert_eq!(c, Controller::default());
}

#[test]
fn process_selects_free_piece() {
    let mut c = Controller::default();
    c.apply_input(Input::PointerDown(0, 0), Some(2));
    let actions = c.process(Some(PieceState::Free));
    assert_eq!(
        actions,
        ControllerActions { evaluate: Some((2, Evaluate::Select)), move_piece: None, pan: None, zoom: None }
    );
    assert_eq!(c.drag, Some(DragController::Selected(2)));
}

#[test]
fn process_drops_piece_that_is_not_free() {
    let mut c = Controller::default();
    c.apply_input(Input::PointerDown(0, 0), Some(2));
    c.apply_input(Input::PointerDrag(1, 1, 1, 1, 1, 1), None);
    let actions = c.process(Some(PieceState::Locked));
    assert_eq!(actions.evaluate, None);
    assert_eq!(actions.move_piece, None);
    assert_eq!(c.drag, None);
}

#[test]
fn process_moves_dragged_piece_and_releases() {
    let mut c = Controller::default();
    c.drag = Some(DragController::Move(6, 4, -3));
    let actions = c.process(None);
    assert_eq!(actions.move_piece, Some((6, 4, -3)));
    let mut r = Controller::default();
    r.let_go = Some(6);
    assert_eq!(r.process(None).evaluate, Some((6, Evaluate::Release)));
}

#[test]
fn process_pans_and_zooms() {
    let mut c = Controller::default();
    c.camera = CameraController { pan: Some((3, -4)), zoom: Some(WheelSign::Positive) };
    let a = c.process(None);
    assert_eq!(a.pan, Some((3, -4)));
    assert_eq!(a.zoom, Some(ZoomStep::Out));
    c.camera.zoom = Some(WheelSign::Negative);
    assert_eq!(c.process(None).zoom, Some(ZoomStep::In));
    c.camera.zoom = Some(WheelSign::NotANumber);
    assert_eq!(c.process(None).zoom, None);
}

#[test]
fn clear_keeps_selection_and_pan() {
    let mut c = Controller::default();
    c.drag = Some(DragController::Move(3, 5, 5));
    c.camera = CameraController { pan: Some((9, 9)), zoom: Some(WheelSign::Negative) };
    c.first_selected = Some(3);
    c.let_go = Some(1);
    let mut reset = Reset(false);
    c.clear(&mut reset);
    assert_eq!(c.drag, Some(DragController::Selected(3)));
    assert_eq!(c.camera, CameraController { pan: Some((0, 0)), zoom: None });
    assert_eq!(c.first_selected, None);
    assert_eq!(c.let_go, None);
    assert!(!reset.0);
    let once = c;
    c.clear(&mut reset);
    assert_eq!(c, once);
}

#[test]
fn sides_by_number() {
    assert_eq!(side_from_index(0), Side::Left);
    assert_eq!(side_from_index(1), Side::Top);
    assert_eq!(side_from_index(2), Side::Bottom);
    assert_eq!(side_from_index(3), Side::Right);
}

fn run_queue(c: &mut Controller, inputs: &[Input], pick: Option<u64>) {
    for input in inputs {
        let picked = if c.picks_on(input) { pick } else { None };
        c.apply_input(*input, picked);
    }
}

#[test]
fn queue_applied_in_pieces_or_at_once() {
    let all = vec![
        Input::PointerDown(5, 5),
        Input::PointerDrag(6, 7, 1, 2, 1, 2),
        Input::Wheel(WheelDeltaMode::Pixel, WheelSign::Negative),
        Input::PointerDrag(8, 7, 2, 0, 3, 2),
        Input::KeyDown(space()),
        Input::PointerUp(8, 7, 0, 0, 3, 2),
        Input::ResetButton,
    ];
    let mut at_once = Controller::default();
    run_queue(&mut at_once, &all, Some(3));
    for split in 0..=all.len() {
        let mut in_pieces = Controller::default();
        run_queue(&mut in_pieces, &all[..split], Some(3));
        run_queue(&mut in_pieces, &all[split..], Some(3));
        assert_eq!(in_pieces, at_once);
    }
    assert_eq!(at_once.let_go, Some(3));
    assert!(at_once.reset);
    assert_eq!(at_once.drag, None);
}
