use vstd::prelude::*;

use crate::player::{clamp_i64, Body};
use crate::tile::Camera;

verus! {

/// A key whose held state the game follows.
#[derive(Clone, Copy, Debug, PartialEq, Eq, Structural)]
pub enum Key {
    MoveRight,
    MoveLeft,
    Jump,
    Sprint,
    /// Moves the scene one pixel right on screen each tick.
    ScrollRight,
    /// Moves the scene one pixel left on screen each tick.
    ScrollLeft,
    /// Moves the scene one pixel up on screen each tick.
    ScrollUp,
    /// Moves the scene one pixel down on screen each tick.
    ScrollDown,
}

/// Which keys are held down.
#[derive(Clone, Copy, Debug, PartialEq, Eq, Structural)]
pub struct InputState {
    pub move_right: bool,
    pub move_left: bool,
    pub jump: bool,
    pub sprint: bool,
    pub scroll_right: bool,
    pub scroll_left: bool,
    pub scroll_up: bool,
    pub scroll_down: bool,
}

impl InputState {
    /// The state with `key` held (`held == true`) or released, the other
    /// keys as they were.
    pub open spec fn with_key(self, key: Key, held: bool) -> InputState {
        match key {
            Key::MoveRight => InputState { move_right: held, ..self },
            Key::MoveLeft => InputState { move_left: held, ..self },
            Key::Jump => InputState { jump: held, ..self },
            Key::Sprint => InputState { sprint: held, ..self },
            Key::ScrollRight => InputState { scroll_right: held, ..self },
            Key::ScrollLeft => InputState { scroll_left: held, ..self },
            Key::ScrollUp => InputState { scroll_up: held, ..self },
            Key::ScrollDown => InputState { scroll_down: held, ..self },
        }
    }

    /// No key held.
    pub fn new() -> (s: InputState)
        ensures
            !s.move_right && !s.move_left && !s.jump && !s.sprint,
            !s.scroll_right && !s.scroll_left && !s.scroll_up && !s.scroll_down,
    {
        InputState {
            move_right: false,
            move_left: false,
            jump: false,
            sprint: false,
            scroll_right: false,
            scroll_left: false,
            scroll_up: false,
            scroll_down: false,
        }
    }

    /// Records that `key` was pressed (`held == true`) or released.
    pub fn set(&mut self, key: Key, held: bool)
        ensures
            *final(self) == old(self).with_key(key, held),
    {
        match key {
            Key::MoveRight => self.move_right = held,
            Key::MoveLeft => self.move_left = held,
            Key::Jump => self.jump = held,
            Key::Sprint => self.sprint = held,
            Key::ScrollRight => self.scroll_right = held,
            Key::ScrollLeft => self.scroll_left = held,
            Key::ScrollUp => self.scroll_up = held,
            Key::ScrollDown => self.scroll_down = held,
        }
    }
}

/// The body after one tick under the held keys: a move right, a move left
/// and a jump for each of those keys held, in that order; then the sprint
/// key sets sprinting; then one physics tick.
pub open spec fn stepped(b: Body, input: InputState) -> Body {
    let b1 = if input.move_right {
        b.moved_right()
    } else {
        b
    };
    let b2 = if input.move_left {
        b1.moved_left()
    } else {
        b1
    };
    let b3 = if input.jump {
        b2.jumped()
    } else {
        b2
    };
    Body { sprinting: input.sprint, ..b3 }.ticked()
}

/// The camera after one tick under the held keys: each scroll key moves the
/// scene one pixel in its direction on screen.
pub open spec fn scrolled(c: Camera, input: InputState) -> Camera {
    let dx: int = (if input.scroll_left {
        1int
    } else {
        0int
    }) - (if input.scroll_right {
        1int
    } else {
        0int
    });
    let dy: int = (if input.scroll_up {
        1int
    } else {
        0int
    }) - (if input.scroll_down {
        1int
    } else {
        0int
    });
    Camera { x: clamp_i64(c.x + dx) as i64, y: clamp_i64(c.y + dy) as i64 }
}

impl Body {
    /// Applies one tick of input to the body.
    pub fn step(&mut self, input: &InputState)
        requires
            old(self).wf(),
        ensures
            final(self).wf(),
            *final(self) == stepped(*old(self), *input),
    {
        if input.move_right {
            self.move_right();
        }
        if input.move_left {
            self.move_left();
        }
        if input.jump {
            self.jump();
        }
        self.sprinting = input.sprint;
        self.tick();
    }
}

impl Camera {
    /// Applies one tick of the scroll keys to the camera.
    pub fn scroll(&mut self, input: &InputState)
        ensures
            *final(self) == scrolled(*old(self), *input),
    {
        let dx: i64 = (if input.scroll_left {
            1i64
        } else {
            0i64
        }) - (if input.scroll_right {
            1i64
        } else {
            0i64
        });
        let dy: i64 = (if input.scroll_up {
            1i64
        } else {
            0i64
        }) - (if input.scroll_down {
            1i64
        } else {
            0i64
        });
        self.pan(dx, dy);
    }
}

} // verus!
