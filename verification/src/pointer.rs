//! Tracking the pointer between its events: where it went down and where it
//! last moved, so that each move can be reported with its delta (the change
//! since the last move) and its diff (the change since the pointer went down).
use vstd::prelude::*;
use crate::queue::Input;

verus! {

pub open spec fn fits_i32(v: int) -> bool {
    i32::MIN <= v <= i32::MAX
}

/// The pointer as last seen: whether it is down, where it went down, and
/// where it last moved.
#[derive(Clone, Copy, Debug, PartialEq, Eq, Structural)]
pub struct InputState {
    pub is_pointer_down: bool,
    pub first_pointer_move_x: i32,
    pub first_pointer_move_y: i32,
    pub last_pointer_move_x: i32,
    pub last_pointer_move_y: i32,
}

/// The moves of the pointer to (x, y) can be measured in `i32` from both the
/// point where it went down and the point where it last moved.
pub open spec fn move_fits(s: InputState, x: i32, y: i32) -> bool {
    s.is_pointer_down ==> {
        &&& fits_i32(x - s.first_pointer_move_x)
        &&& fits_i32(y - s.first_pointer_move_y)
        &&& fits_i32(x - s.last_pointer_move_x)
        &&& fits_i32(y - s.last_pointer_move_y)
    }
}

impl InputState {
    /// The pointer is up and has not moved yet.
    pub fn new() -> (s: Self)
        ensures
            !s.is_pointer_down,
            s.first_pointer_move_x == 0,
            s.first_pointer_move_y == 0,
            s.last_pointer_move_x == 0,
            s.last_pointer_move_y == 0,
    {
        InputState {
            is_pointer_down: false,
            first_pointer_move_x: 0,
            first_pointer_move_y: 0,
            last_pointer_move_x: 0,
            last_pointer_move_y: 0,
        }
    }

    /// The pointer went down at (x, y): both the start and the last move are
    /// there now.
    pub fn pointer_down(&mut self, x: i32, y: i32) -> (input: Input)
        ensures
            *final(self) == (InputState {
                is_pointer_down: true,
                first_pointer_move_x: x,
                first_pointer_move_y: y,
                last_pointer_move_x: x,
                last_pointer_move_y: y,
            }),
            input == Input::PointerDown(x, y),
    {
        self.is_pointer_down = true;
        self.first_pointer_move_x = x;
        self.first_pointer_move_y = y;
        self.last_pointer_move_x = x;
        self.last_pointer_move_y = y;
        Input::PointerDown(x, y)
    }

    /// The pointer moved to (x, y). While it is down this is a drag, reported
    /// only when the pointer is away from where it went down; otherwise it is
    /// a hover.
    pub fn pointer_move(&mut self, x: i32, y: i32) -> (input: Option<Input>)
        requires
            move_fits(*old(self), x, y),
        ensures
            ({
                let s = *old(self);
                if s.is_pointer_down {
                    &&& *final(self) == (InputState {
                        last_pointer_move_x: x,
                        last_pointer_move_y: y,
                        ..s
                    })
                    &&& input == if x != s.first_pointer_move_x || y != s.first_pointer_move_y {
                        Some(
                            Input::PointerDrag(
                                x,
                                y,
                                (x - s.last_pointer_move_x) as i32,
                                (y - s.last_pointer_move_y) as i32,
                                (x - s.first_pointer_move_x) as i32,
                                (y - s.first_pointer_move_y) as i32,
                            ),
                        )
                    } else {
                        None
                    }
                } else {
                    &&& *final(self) == s
                    &&& input == Some(Input::PointerHover(x, y))
                }
            }),
    {
        if self.is_pointer_down {
            let diff_x = x - self.first_pointer_move_x;
            let diff_y = y - self.first_pointer_move_y;
            let delta_x = x - self.last_pointer_move_x;
            let delta_y = y - self.last_pointer_move_y;
            self.last_pointer_move_x = x;
            self.last_pointer_move_y = y;
            if diff_x != 0 || diff_y != 0 {
                Some(Input::PointerDrag(x, y, delta_x, delta_y, diff_x, diff_y))
            } else {
                None
            }
        } else {
            Some(Input::PointerHover(x, y))
        }
    }

    /// The pointer went up at (x, y). It is reported only when it was down and
    /// is away from where it went down; either way the pointer is up afterwards.
    pub fn pointer_up(&mut self, x: i32, y: i32) -> (input: Option<Input>)
        requires
            move_fits(*old(self), x, y),
        ensures
            ({
                let s = *old(self);
                if s.is_pointer_down {
                    &&& *final(self) == (InputState {
                        is_pointer_down: false,
                        last_pointer_move_x: x,
                        last_pointer_move_y: y,
                        ..s
                    })
                    &&& input == if x != s.first_pointer_move_x || y != s.first_pointer_move_y {
                        Some(
                            Input::PointerUp(
                                x,
                                y,
                                (x - s.last_pointer_move_x) as i32,
                                (y - s.last_pointer_move_y) as i32,
                                (x - s.first_pointer_move_x) as i32,
                                (y - s.first_pointer_move_y) as i32,
                            ),
                        )
                    } else {
                        None
                    }
                } else {
                    &&& *final(self) == s
                    &&& input == None::<Input>
                }
            }),
    {
        let mut input = None;
        if self.is_pointer_down {
            let diff_x = x - self.first_pointer_move_x;
            let diff_y = y - self.first_pointer_move_y;
            let delta_x = x - self.last_pointer_move_x;
            let delta_y = y - self.last_pointer_move_y;
            self.last_pointer_move_x = x;
            self.last_pointer_move_y = y;
            if diff_x != 0 || diff_y != 0 {
                input = Some(Input::PointerUp(x, y, delta_x, delta_y, diff_x, diff_y));
            }
        }
        self.is_pointer_down = false;
        input
    }
}

} // verus!
