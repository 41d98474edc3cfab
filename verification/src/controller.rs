//! The controller: the input events of a tick are mapped to what the player is
//! doing (dragging a piece, panning or zooming the camera, asking for a
//! reset), that intent is turned into actions on the pieces and the camera,
//! and the controller is cleared for the next tick.
use vstd::prelude::*;
use crate::queue::{Input, WheelDeltaMode, WheelSign};
use crate::pieces::{Evaluate, PieceState};
use crate::reset::Reset;

verus! {

/// A piece being dragged: just selected, or moved by the accumulated pointer
/// delta of this tick.
#[derive(Clone, Copy, Debug, PartialEq, Eq, Structural)]
pub enum DragController {
    Selected(u64),
    Move(u64, i32, i32),
}

/// The piece that a drag holds.
pub open spec fn held_entity(d: DragController) -> u64 {
    match d {
        DragController::Selected(e) => e,
        DragController::Move(e, _, _) => e,
    }
}

impl DragController {
    /// The piece that this drag holds.
    pub fn get_selected(&self) -> (r: Option<u64>)
        ensures
            r == Some(held_entity(*self)),
    {
        match self {
            DragController::Selected(entity) => Some(*entity),
            DragController::Move(entity, _, _) => Some(*entity),
        }
    }
}

/// The camera part of the controller: the accumulated pan of this tick while
/// panning, and the direction of the last wheel turn.
#[derive(Clone, Copy, Debug, PartialEq, Eq)]
pub struct CameraController {
    pub pan: Option<(i64, i64)>,
    pub zoom: Option<WheelSign>,
}

/// What the player is doing in this tick.
#[derive(Clone, Copy, Debug, PartialEq, Eq)]
pub struct Controller {
    pub drag: Option<DragController>,
    pub camera: CameraController,
    pub first_selected: Option<u64>,
    pub let_go: Option<u64>,
    pub reset: bool,
}

/// One step of the camera's zoom.
#[derive(Clone, Copy, Debug, PartialEq, Eq, Structural)]
pub enum ZoomStep {
    /// Zoom out by one step, not below the smallest zoom.
    Out,
    /// Zoom in by one step, not above the largest zoom.
    In,
}

/// What processing the controller asks of the pieces and the camera.
#[derive(Clone, Copy, Debug, PartialEq, Eq)]
pub struct ControllerActions {
    /// Evaluate this piece for this reason.
    pub evaluate: Option<(u64, Evaluate)>,
    /// Move this piece by this pointer delta (scaled by the camera's zoom).
    pub move_piece: Option<(u64, i32, i32)>,
    /// Move the camera against this pointer delta (scaled by the camera's zoom).
    pub pan: Option<(i64, i64)>,
    /// Change the camera's zoom by one step.
    pub zoom: Option<ZoomStep>,
}

/// The controller at the start: nothing is held, panned, zoomed or asked for.
pub open spec fn idle_controller() -> Controller {
    Controller {
        drag: None,
        camera: CameraController { pan: None, zoom: None },
        first_selected: None,
        let_go: None,
        reset: false,
    }
}

/// The accumulated deltas of a drag event stay in range.
pub open spec fn input_fits(c: Controller, input: Input) -> bool {
    match input {
        Input::PointerDrag(_, _, dx, dy, _, _) => {
            &&& (c.drag matches Some(DragController::Move(_, ox, oy)) ==> i32::MIN <= ox + dx
                <= i32::MAX && i32::MIN <= oy + dy <= i32::MAX)
            &&& (c.camera.pan matches Some(p) ==> i64::MIN <= p.0 + dx <= i64::MAX && i64::MIN
                <= p.1 + dy <= i64::MAX)
        },
        _ => true,
    }
}

/// The controller after one input event, where `picked` is the piece under
/// the pointer when it goes down.
pub open spec fn after_input(c: Controller, input: Input, picked: Option<u64>) -> Controller {
    match input {
        Input::PointerDown(_, _) => {
            if c.camera.pan is None && picked is Some {
                Controller {
                    drag: Some(DragController::Selected(picked->0)),
                    first_selected: picked,
                    ..c
                }
            } else {
                c
            }
        },
        Input::PointerDrag(_, _, dx, dy, _, _) => {
            let drag = match c.drag {
                Some(DragController::Move(e, ox, oy)) => Some(
                    DragController::Move(e, (ox + dx) as i32, (oy + dy) as i32),
                ),
                Some(DragController::Selected(e)) => Some(DragController::Move(e, dx, dy)),
                None => None,
            };
            let pan = match c.camera.pan {
                Some(p) => Some(((p.0 + dx) as i64, (p.1 + dy) as i64)),
                None => None,
            };
            Controller { drag, camera: CameraController { pan, ..c.camera }, ..c }
        },
        Input::PointerUp(_, _, _, _, _, _) => {
            let let_go = match c.drag {
                Some(d) => Some(held_entity(d)),
                None => c.let_go,
            };
            Controller {
                drag: None,
                camera: CameraController { pan: None, ..c.camera },
                first_selected: None,
                let_go,
                ..c
            }
        },
        Input::KeyDown(key) => {
            if key.space && c.drag is None && c.camera.pan is None {
                Controller { camera: CameraController { pan: Some((0, 0)), ..c.camera }, ..c }
            } else {
                c
            }
        },
        Input::KeyUp(key) => {
            if key.space {
                Controller { camera: CameraController { pan: None, ..c.camera }, ..c }
            } else {
                c
            }
        },
        Input::Wheel(mode, sign) => {
            if mode == WheelDeltaMode::Pixel && sign != WheelSign::Zero {
                Controller { camera: CameraController { zoom: Some(sign), ..c.camera }, ..c }
            } else {
                c
            }
        },
        Input::ResetButton => Controller { reset: true, ..c },
        _ => c,
    }
}

/// The controller after the input events `inputs` of a tick, applied front
/// to back, where `picks[i]` is the piece under the pointer for `inputs[i]`.
pub open spec fn after_inputs(c: Controller, inputs: Seq<Input>, picks: Seq<Option<u64>>) -> Controller
    decreases inputs.len(),
{
    if inputs.len() == 0 {
        c
    } else {
        after_inputs(after_input(c, inputs[0], picks[0]), inputs.drop_first(), picks.drop_first())
    }
}

/// The controller after processing, where `first_state` is the state of the
/// first-selected piece (if it has one): a piece that is not free cannot be
/// dragged.
pub open spec fn after_process(c: Controller, first_state: Option<PieceState>) -> Controller {
    if c.first_selected is Some && first_state is Some && first_state != Some(PieceState::Free) {
        Controller { drag: None, ..c }
    } else {
        c
    }
}

/// What processing the controller asks for.
pub open spec fn process_actions(c: Controller, first_state: Option<PieceState>) -> ControllerActions {
    let evaluate = match c.first_selected {
        Some(e) => if first_state == Some(PieceState::Free) {
            Some((e, Evaluate::Select))
        } else {
            None
        },
        None => match c.let_go {
            Some(e) => Some((e, Evaluate::Release)),
            None => None,
        },
    };
    let move_piece = match after_process(c, first_state).drag {
        Some(DragController::Move(e, x, y)) => Some((e, x, y)),
        _ => None,
    };
    let zoom = match c.camera.zoom {
        Some(WheelSign::Positive) => Some(ZoomStep::Out),
        Some(WheelSign::Negative) => Some(ZoomStep::In),
        _ => None,
    };
    ControllerActions { evaluate, move_piece, pan: c.camera.pan, zoom }
}

/// The controller cleared for the next tick: a drag keeps its piece selected,
/// a pan keeps going from a zero delta, and everything else is forgotten.
pub open spec fn cleared(c: Controller) -> Controller {
    Controller {
        drag: match c.drag {
            Some(d) => Some(DragController::Selected(held_entity(d))),
            None => None,
        },
        camera: CameraController {
            pan: match c.camera.pan {
                Some(_) => Some((0, 0)),
                None => None,
            },
            zoom: None,
        },
        first_selected: None,
        let_go: None,
        reset: false,
    }
}

impl Default for Controller {
    fn default() -> (c: Self)
        ensures
            c == idle_controller(),
    {
        Controller {
            drag: None,
            camera: CameraController { pan: None, zoom: None },
            first_selected: None,
            let_go: None,
            reset: false,
        }
    }
}

impl Controller {
    /// Whether this input needs the piece under the pointer: a pointer going
    /// down while the camera is not being panned.
    pub fn picks_on(&self, input: &Input) -> (r: bool)
        ensures
            r == (input is PointerDown && self.camera.pan is None),
    {
        match input {
            Input::PointerDown(_, _) => self.camera.pan.is_none(),
            _ => false,
        }
    }

    /// Maps one input event onto the controller; `picked` is the piece under
    /// the pointer when the input needs one (see `picks_on`).
    pub fn apply_input(&mut self, input: Input, picked: Option<u64>)
        requires
            input_fits(*old(self), input),
        ensures
            *final(self) == after_input(*old(self), input, picked),
    {
        match input {
            Input::PointerDown(_, _) => {
                if self.camera.pan.is_none() {
                    if let Some(entity) = picked {
                        self.drag = Some(DragController::Selected(entity));
                        self.first_selected = Some(entity);
                    }
                }
            },
            Input::PointerDrag(_, _, delta_x, delta_y, _, _) => {
                match self.drag {
                    Some(DragController::Move(entity, old_delta_x, old_delta_y)) => {
                        self.drag = Some(
                            DragController::Move(
                                entity,
                                old_delta_x + delta_x,
                                old_delta_y + delta_y,
                            ),
                        );
                    },
                    Some(DragController::Selected(entity)) => {
                        self.drag = Some(DragController::Move(entity, delta_x, delta_y));
                    },
                    None => {},
                }
                if let Some((old_delta_x, old_delta_y)) = self.camera.pan {
                    self.camera.pan = Some(
                        (old_delta_x + delta_x as i64, old_delta_y + delta_y as i64),
                    );
                }
            },
            Input::PointerUp(_, _, _, _, _, _) => {
                if let Some(drag) = self.drag {
                    self.let_go = drag.get_selected();
                }
                self.drag = None;
                self.camera.pan = None;
                self.first_selected = None;
            },
            Input::KeyDown(key) => {
                if key.space && self.drag.is_none() {
                    if self.camera.pan.is_none() {
                        self.camera.pan = Some((0, 0));
                    }
                }
            },
            Input::KeyUp(key) => {
                if key.space {
                    self.camera.pan = None;
                }
            },
            Input::Wheel(mode, sign) => {
                match mode {
                    WheelDeltaMode::Pixel => {
                        match sign {
                            WheelSign::Zero => {},
                            _ => {
                                self.camera.zoom = Some(sign);
                            },
                        }
                    },
                    WheelDeltaMode::Line => {},
                    WheelDeltaMode::Page => {},
                }
            },
            Input::ResetButton => {
                self.reset = true;
            },
            _ => {},
        }
    }

    /// Turns what the player is doing into actions; `first_state` is the
    /// state of the first-selected piece, if there is one and it has a state.
    pub fn process(&mut self, first_state: Option<PieceState>) -> (actions: ControllerActions)
        ensures
            *final(self) == after_process(*old(self), first_state),
            actions == process_actions(*old(self), first_state),
    {
        let mut evaluate: Option<(u64, Evaluate)> = None;
        if let Some(entity) = self.first_selected {
            if let Some(state) = first_state {
                match state {
                    PieceState::Free => {
                        evaluate = Some((entity, Evaluate::Select));
                    },
                    _ => {
                        self.drag = None;
                    },
                }
            }
        } else if let Some(entity) = self.let_go {
            evaluate = Some((entity, Evaluate::Release));
        }
        let move_piece = match self.drag {
            Some(DragController::Move(entity, x, y)) => Some((entity, x, y)),
            _ => None,
        };
        let zoom = match self.camera.zoom {
            Some(WheelSign::Positive) => Some(ZoomStep::Out),
            Some(WheelSign::Negative) => Some(ZoomStep::In),
            _ => None,
        };
        ControllerActions { evaluate, move_piece, pan: self.camera.pan, zoom }
    }

    /// Clears the controller after a tick, passing an asked-for reset on.
    pub fn clear(&mut self, reset: &mut Reset)
        ensures
            *final(self) == cleared(*old(self)),
            final(reset).0 == (old(reset).0 || old(self).reset),
    {
        if let Some(drag) = self.drag {
            self.drag = match drag.get_selected() {
                Some(entity) => Some(DragController::Selected(entity)),
                None => None,
            };
        }
        if self.camera.zoom.is_some() {
            self.camera.zoom = None;
        }
        if self.camera.pan.is_some() {
            self.camera.pan = Some((0, 0));
        }
        if self.reset {
            reset.0 = true;
        }
        self.first_selected = None;
        self.let_go = None;
        self.reset = false;
    }
}

/// Clearing a cleared controller changes nothing, and it leaves no drag in
/// motion, no pending selection, release, zoom or reset.
pub proof fn lemma_clear_settles(c: Controller)
    ensures
        cleared(cleared(c)) == cleared(c),
        !(cleared(c).drag matches Some(DragController::Move(_, _, _))),
        cleared(c).first_selected is None,
        cleared(c).let_go is None,
        cleared(c).camera.zoom is None,
        !cleared(c).reset,
{
}

/// Releasing the pointer ends any drag and any pan, and a held piece is let go.
pub proof fn lemma_release_lets_go(c: Controller, input: Input, picked: Option<u64>)
    requires
        input is PointerUp,
    ensures
        after_input(c, input, picked).drag is None,
        after_input(c, input, picked).camera.pan is None,
        c.drag matches Some(d) ==> after_input(c, input, picked).let_go == Some(held_entity(d)),
{
}

/// A pixel-mode wheel turn whose sign is not zero records exactly that sign
/// as the zoom request, whatever else the controller holds; any other wheel
/// event changes nothing. Processing then zooms in for a negative turn, out
/// for a positive one, and not at all for a turn that is not a number.
pub proof fn lemma_wheel_requests_zoom(
    c: Controller,
    mode: WheelDeltaMode,
    sign: WheelSign,
    picked: Option<u64>,
    first_state: Option<PieceState>,
)
    ensures
        ({
            let d = after_input(c, Input::Wheel(mode, sign), picked);
            &&& mode == WheelDeltaMode::Pixel && sign != WheelSign::Zero ==> d == Controller {
                camera: CameraController { zoom: Some(sign), ..c.camera },
                ..c
            }
            &&& !(mode == WheelDeltaMode::Pixel && sign != WheelSign::Zero) ==> d == c
            &&& mode == WheelDeltaMode::Pixel && sign == WheelSign::Negative ==> process_actions(
                d,
                first_state,
            ).zoom == Some(ZoomStep::In)
            &&& mode == WheelDeltaMode::Pixel && sign == WheelSign::Positive ==> process_actions(
                d,
                first_state,
            ).zoom == Some(ZoomStep::Out)
            &&& mode == WheelDeltaMode::Pixel && sign == WheelSign::NotANumber ==> process_actions(
                d,
                first_state,
            ).zoom is None
        }),
{
}

/// A first-selected piece whose state is known and is not `Free` (it is
/// moving or locked) cannot be dragged: processing drops the drag, moves no
/// piece and evaluates nothing. A free one is evaluated as selected.
pub proof fn lemma_only_free_pieces_drag(c: Controller, entity: u64, state: PieceState)
    requires
        c.first_selected == Some(entity),
    ensures
        state != PieceState::Free ==> {
            &&& after_process(c, Some(state)).drag is None
            &&& process_actions(c, Some(state)).move_piece is None
            &&& process_actions(c, Some(state)).evaluate is None
        },
        state == PieceState::Free ==> {
            &&& after_process(c, Some(state)) == c
            &&& process_actions(c, Some(state)).evaluate == Some((entity, Evaluate::Select))
        },
{
}

/// Clearing keeps whether a pan is going on (restarting it from a zero
/// delta) and which piece is held, and forgets the rest.
pub proof fn lemma_clear_keeps_pan_and_hold(c: Controller)
    ensures
        cleared(c).camera.pan is None <==> c.camera.pan is None,
        c.camera.pan is Some ==> cleared(c).camera.pan == Some((0i64, 0i64)),
        cleared(c).drag is None <==> c.drag is None,
        c.drag matches Some(d) ==> cleared(c).drag == Some(DragController::Selected(held_entity(d))),
        cleared(c).camera.zoom is None,
        cleared(c).first_selected is None,
        cleared(c).let_go is None,
        !cleared(c).reset,
{
}

/// Applying the events of a queue in two parts, first `q1` and then `q2`,
/// leaves the controller as applying all of `q1` followed by `q2` at once.
pub proof fn lemma_inputs_in_pieces(
    c: Controller,
    q1: Seq<Input>,
    q2: Seq<Input>,
    p1: Seq<Option<u64>>,
    p2: Seq<Option<u64>>,
)
    requires
        p1.len() == q1.len(),
    ensures
        after_inputs(c, q1 + q2, p1 + p2) == after_inputs(after_inputs(c, q1, p1), q2, p2),
    decreases q1.len(),
{
    if q1.len() == 0 {
        assert(q1 + q2 =~= q2);
        assert(p1 + p2 =~= p2);
    } else {
        assert((q1 + q2).drop_first() =~= q1.drop_first() + q2);
        assert((p1 + p2).drop_first() =~= p1.drop_first() + p2);
        assert((q1 + q2)[0] == q1[0]);
        assert((p1 + p2)[0] == p1[0]);
        lemma_inputs_in_pieces(after_input(c, q1[0], p1[0]), q1.drop_first(), q2, p1.drop_first(), p2);
    }
}

/// Two drags of a selected piece move it by the sum of their deltas.
pub proof fn lemma_drags_accumulate(
    c: Controller,
    entity: u64,
    first: Input,
    second: Input,
    picked: Option<u64>,
)
    requires
        c.drag == Some(DragController::Selected(entity)),
        first is PointerDrag,
        second is PointerDrag,
        input_fits(after_input(c, first, picked), second),
    ensures
        ({
            let (dx1, dy1) = match first {
                Input::PointerDrag(_, _, dx, dy, _, _) => (dx as int, dy as int),
                _ => (0, 0),
            };
            let (dx2, dy2) = match second {
                Input::PointerDrag(_, _, dx, dy, _, _) => (dx as int, dy as int),
                _ => (0, 0),
            };
            after_input(after_input(c, first, picked), second, picked).drag matches Some(
                DragController::Move(e, x, y),
            ) && e == entity && x == dx1 + dx2 && y == dy1 + dy2
        }),
{
}

} // verus!
