use vstd::prelude::*;

use crate::buffer::PixelBuffer;
use crate::sprite::Sprite;

verus! {

/// Upward speed given by a jump.
pub const JUMP_VELOCITY: i64 = 10;

/// Upward speed given by a jump while sprinting.
pub const SPRINT_JUMP_VELOCITY: i64 = 12;

/// Horizontal distance of one move.
pub const WALK_STEP: i64 = 1;

/// Horizontal distance of one move while sprinting.
pub const SPRINT_STEP: i64 = 2;

/// The smallest horizontal position; moves to the left stop there.
pub const MIN_X: i64 = 0;

/// The vertical phase of a body.
#[derive(Clone, Copy, Debug, PartialEq, Eq, Structural)]
pub enum Motion {
    /// Standing on the ground line, with no vertical speed.
    Grounded,
    /// Moving up; the speed shrinks by one each tick.
    Rising,
    /// Moving down; the speed grows by one each tick.
    Falling,
}

/// The value `v` held to the range of `i64`.
pub open spec fn clamp_i64(v: int) -> int {
    if v < i64::MIN {
        i64::MIN as int
    } else if v > i64::MAX {
        i64::MAX as int
    } else {
        v
    }
}

/// Position, vertical speed and phase of the player. Vertical positions grow
/// downwards; `ground_y` is the ground line the body stands on.
#[derive(Clone, Copy, Debug, PartialEq, Eq, Structural)]
pub struct Body {
    pub x: i64,
    pub y: i64,
    pub velocity: i64,
    pub motion: Motion,
    pub sprinting: bool,
    pub ground_y: i64,
}

impl Body {
    /// The phase and the speed agree: a grounded body stands still on the
    /// ground line, a rising one still has upward speed, and no body is left
    /// of `MIN_X`.
    pub open spec fn wf(&self) -> bool {
        &&& self.x >= MIN_X
        &&& self.velocity >= 0
        &&& (self.motion == Motion::Grounded ==> self.velocity == 0 && self.y == self.ground_y)
        &&& (self.motion == Motion::Rising ==> self.velocity >= 1)
    }

    /// Distance of one horizontal move.
    pub open spec fn step_len(&self) -> int {
        if self.sprinting {
            SPRINT_STEP as int
        } else {
            WALK_STEP as int
        }
    }

    /// The body after one move to the right.
    pub open spec fn moved_right(self) -> Body {
        Body { x: clamp_i64(self.x + self.step_len()) as i64, ..self }
    }

    /// The body after one move to the left, stopping at `MIN_X`.
    pub open spec fn moved_left(self) -> Body {
        Body {
            x: if self.x - self.step_len() < MIN_X {
                MIN_X
            } else {
                (self.x - self.step_len()) as i64
            },
            ..self
        }
    }

    /// The body after a jump command: a grounded body starts rising with the
    /// jump speed; a body in the air is not affected.
    pub open spec fn jumped(self) -> Body {
        if self.motion == Motion::Grounded {
            Body {
                velocity: if self.sprinting {
                    SPRINT_JUMP_VELOCITY
                } else {
                    JUMP_VELOCITY
                },
                motion: Motion::Rising,
                ..self
            }
        } else {
            self
        }
    }

    /// The body after one tick. Rising: it moves up by its speed and the
    /// speed drops by one, turning to falling when it reaches zero. Falling
    /// above the ground line: the speed grows by one and it moves down by the
    /// new speed. Falling at or below the ground line: it lands, snapped to
    /// the ground line with no speed. Grounded: nothing changes.
    pub open spec fn ticked(self) -> Body {
        match self.motion {
            Motion::Rising => Body {
                y: clamp_i64(self.y - self.velocity) as i64,
                velocity: (self.velocity - 1) as i64,
                motion: if self.velocity - 1 == 0 {
                    Motion::Falling
                } else {
                    Motion::Rising
                },
                ..self
            },
            Motion::Falling => if self.y < self.ground_y {
                Body {
                    y: clamp_i64(self.y + clamp_i64(self.velocity + 1)) as i64,
                    velocity: clamp_i64(self.velocity + 1) as i64,
                    ..self
                }
            } else {
                Body { y: self.ground_y, velocity: 0, motion: Motion::Grounded, ..self }
            },
            Motion::Grounded => self,
        }
    }

    /// The body after `n` ticks.
    pub open spec fn after_ticks(self, n: nat) -> Body
        decreases n,
    {
        if n == 0 {
            self
        } else {
            self.ticked().after_ticks((n - 1) as nat)
        }
    }

    /// A body standing at `x` (held at `MIN_X` or right of it) on the ground
    /// line `ground_y`.
    pub fn new(x: i64, ground_y: i64) -> (b: Body)
        ensures
            b.wf(),
            b.x == if x < MIN_X {
                MIN_X
            } else {
                x
            },
            b.y == ground_y,
            b.ground_y == ground_y,
            b.velocity == 0,
            b.motion == Motion::Grounded,
            !b.sprinting,
    {
        Body {
            x: if x < MIN_X {
                MIN_X
            } else {
                x
            },
            y: ground_y,
            velocity: 0,
            motion: Motion::Grounded,
            sprinting: false,
            ground_y,
        }
    }

    /// Distance of one horizontal move.
    fn step_distance(&self) -> (s: i64)
        ensures
            s == self.step_len(),
    {
        if self.sprinting {
            SPRINT_STEP
        } else {
            WALK_STEP
        }
    }

    /// Moves right by one step (two while sprinting).
    pub fn move_right(&mut self)
        requires
            old(self).wf(),
        ensures
            final(self).wf(),
            *final(self) == old(self).moved_right(),
    {
        let s = self.step_distance();
        if self.x <= i64::MAX - s {
            self.x = self.x + s;
        } else {
            self.x = i64::MAX;
        }
    }

    /// Moves left by one step (two while sprinting); the position never goes
    /// below `MIN_X`, so a body at `MIN_X` stays there.
    pub fn move_left(&mut self)
        requires
            old(self).wf(),
        ensures
            final(self).wf(),
            *final(self) == old(self).moved_left(),
            old(self).x == MIN_X ==> final(self).x == MIN_X,
    {
        let s = self.step_distance();
        if self.x - s < MIN_X {
            self.x = MIN_X;
        } else {
            self.x = self.x - s;
        }
    }

    /// Starts a jump if the body is grounded.
    pub fn jump(&mut self)
        requires
            old(self).wf(),
        ensures
            final(self).wf(),
            *final(self) == old(self).jumped(),
    {
        if self.motion == Motion::Grounded {
            self.velocity = if self.sprinting {
                SPRINT_JUMP_VELOCITY
            } else {
                JUMP_VELOCITY
            };
            self.motion = Motion::Rising;
        }
    }

    /// Advances the vertical motion by one tick.
    pub fn tick(&mut self)
        requires
            old(self).wf(),
        ensures
            final(self).wf(),
            *final(self) == old(self).ticked(),
    {
        match self.motion {
            Motion::Rising => {
                self.y = if self.y >= i64::MIN + self.velocity {
                    self.y - self.velocity
                } else {
                    i64::MIN
                };
                self.velocity = self.velocity - 1;
                if self.velocity == 0 {
                    self.motion = Motion::Falling;
                }
            },
            Motion::Falling => {
                if self.y < self.ground_y {
                    if self.velocity < i64::MAX {
                        self.velocity = self.velocity + 1;
                    }
                    self.y = if self.y <= i64::MAX - self.velocity {
                        self.y + self.velocity
                    } else {
                        i64::MAX
                    };
                } else {
                    self.y = self.ground_y;
                    self.velocity = 0;
                    self.motion = Motion::Grounded;
                }
            },
            Motion::Grounded => {},
        }
    }
}

/// Every tick keeps a body well formed.
pub proof fn lemma_ticks_wf(b: Body, n: nat)
    requires
        b.wf(),
    ensures
        b.after_ticks(n).wf(),
        b.after_ticks(n).ground_y == b.ground_y,
    decreases n,
{
    if n > 0 {
        lemma_ticks_wf(b.ticked(), (n - 1) as nat);
    }
}

/// A well-formed body is grounded again after some number of ticks.
proof fn lemma_lands(b: Body) -> (n: nat)
    requires
        b.wf(),
    ensures
        b.after_ticks(n).motion == Motion::Grounded,
    decreases
            (if b.motion == Motion::Rising {
                2int
            } else if b.motion == Motion::Falling {
                1int
            } else {
                0int
            }),
            (if b.motion == Motion::Rising {
                b.velocity as int
            } else if b.motion == Motion::Falling && b.y < b.ground_y {
                b.ground_y - b.y
            } else {
                0int
            }),
{
    if b.motion == Motion::Grounded {
        0
    } else {
        let m = lemma_lands(b.ticked());
        assert(b.after_ticks(m + 1) == b.ticked().after_ticks(m));
        m + 1
    }
}

/// A jump from the ground comes back to the ground: some number of ticks
/// after the jump the body is grounded again, and whenever it is grounded
/// after the jump it stands exactly on the ground line it jumped from, with
/// no speed left.
pub proof fn lemma_jump_returns_to_ground(b: Body)
    requires
        b.wf(),
        b.motion == Motion::Grounded,
    ensures
        exists|n: nat| #[trigger] b.jumped().after_ticks(n).motion == Motion::Grounded,
        forall|n: nat|
            #[trigger] b.jumped().after_ticks(n).motion == Motion::Grounded ==> b.jumped().after_ticks(
                n,
            ).y == b.y && b.jumped().after_ticks(n).velocity == 0,
{
    let n = lemma_lands(b.jumped());
    assert(b.jumped().after_ticks(n).motion == Motion::Grounded);
    assert forall|n: nat| #[trigger]
        b.jumped().after_ticks(n).motion == Motion::Grounded implies b.jumped().after_ticks(n).y
        == b.y && b.jumped().after_ticks(n).velocity == 0 by {
        lemma_ticks_wf(b.jumped(), n);
    }
}

/// The player: a body that moves and falls, drawn with its sprite.
pub struct Player {
    pub body: Body,
    pub sprite: Sprite,
}

impl Player {
    pub open spec fn wf(&self) -> bool {
        self.body.wf() && self.sprite.wf()
    }

    /// Draws the sprite with its top-left cell at the body's position.
    pub fn draw(&self, buf: &mut PixelBuffer)
        requires
            self.wf(),
            old(buf).wf(),
        ensures
            final(buf).wf(),
            final(buf).spec_width() == old(buf).spec_width(),
            final(buf).spec_height() == old(buf).spec_height(),
            final(buf)@ == self.sprite.drawn(
                old(buf)@,
                old(buf).spec_width(),
                self.body.x as int,
                self.body.y as int,
            ),
    {
        self.sprite.draw(buf, self.body.x, self.body.y);
    }
}

} // verus!
