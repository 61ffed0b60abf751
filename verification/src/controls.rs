//! What a key of the first-person controller does to the velocity of the
//! camera: each of the six movement keys pushes along one axis while it is
//! held, and takes the push back when it is released.
use vstd::prelude::*;

verus! {

/// The six movement keys.
#[derive(Clone, Copy, Debug, PartialEq, Eq, Structural)]
pub enum MoveKey {
    Forward,
    Left,
    Backward,
    Right,
    Rise,
    Sink,
}

/// A change of the velocity, in steps along the three axes of the camera:
/// forward, upward and leftward.
#[derive(Clone, Copy, Debug, PartialEq, Eq, Structural)]
pub struct Push {
    pub forward: i8,
    pub upward: i8,
    pub leftward: i8,
}

/// The step of a key: one when it goes down, minus one when it comes up.
pub open spec fn key_step(pressed: bool) -> int {
    if pressed {
        1
    } else {
        -1
    }
}

/// The change of the velocity that a key event asks for.  A repeated event
/// of a key that is held changes nothing.
pub open spec fn push_of(key: MoveKey, pressed: bool, repeat: bool) -> Push {
    let step = if repeat {
        0
    } else {
        key_step(pressed)
    };
    match key {
        MoveKey::Forward => Push { forward: step as i8, upward: 0, leftward: 0 },
        MoveKey::Backward => Push { forward: (-step) as i8, upward: 0, leftward: 0 },
        MoveKey::Rise => Push { forward: 0, upward: step as i8, leftward: 0 },
        MoveKey::Sink => Push { forward: 0, upward: (-step) as i8, leftward: 0 },
        MoveKey::Left => Push { forward: 0, upward: 0, leftward: step as i8 },
        MoveKey::Right => Push { forward: 0, upward: 0, leftward: (-step) as i8 },
    }
}

/// The change of the velocity that a key event asks for.
pub fn key_push(key: MoveKey, pressed: bool, repeat: bool) -> (push: Push)
    ensures
        push == push_of(key, pressed, repeat),
{
    let step: i8 = if repeat {
        0
    } else if pressed {
        1
    } else {
        -1
    };
    match key {
        MoveKey::Forward => Push { forward: step, upward: 0, leftward: 0 },
        MoveKey::Backward => Push { forward: -step, upward: 0, leftward: 0 },
        MoveKey::Rise => Push { forward: 0, upward: step, leftward: 0 },
        MoveKey::Sink => Push { forward: 0, upward: -step, leftward: 0 },
        MoveKey::Left => Push { forward: 0, upward: 0, leftward: step },
        MoveKey::Right => Push { forward: 0, upward: 0, leftward: -step },
    }
}

/// Releasing a key takes back what pressing it gave.
pub proof fn lemma_release_undoes_press(key: MoveKey)
    ensures
        push_of(key, true, false).forward + push_of(key, false, false).forward == 0,
        push_of(key, true, false).upward + push_of(key, false, false).upward == 0,
        push_of(key, true, false).leftward + push_of(key, false, false).leftward == 0,
{
}

} // verus!
