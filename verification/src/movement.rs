//! Movement commands and the basis vector each one travels along.

use vstd::prelude::*;

verus! {

/// A direction in which the camera can be told to move.
#[derive(Clone, Copy, Debug, PartialEq, Eq, Structural)]
pub enum CameraMovement {
    Forward,
    Backward,
    Left,
    Right,
}

/// One of the two basis vectors of the camera that a movement can follow.
#[derive(Clone, Copy, Debug, PartialEq, Eq, Structural)]
pub enum Axis {
    /// The unit vector in which the camera looks.
    Front,
    /// The unit vector to the camera's right.
    Right,
}

impl CameraMovement {
    /// The basis vector this movement follows: `Forward` and `Backward` run
    /// along the front vector, `Left` and `Right` along the right vector.
    pub open spec fn spec_axis(self) -> Axis {
        match self {
            CameraMovement::Forward | CameraMovement::Backward => Axis::Front,
            CameraMovement::Left | CameraMovement::Right => Axis::Right,
        }
    }

    /// The sense of this movement along its axis: `1` for `Forward` and
    /// `Right`, `-1` for `Backward` and `Left`.
    pub open spec fn spec_sign(self) -> int {
        match self {
            CameraMovement::Forward | CameraMovement::Right => 1,
            CameraMovement::Backward | CameraMovement::Left => -1,
        }
    }

    /// The basis vector along which the position is translated.
    pub fn axis(self) -> (axis: Axis)
        ensures
            axis == self.spec_axis(),
    {
        match self {
            CameraMovement::Forward | CameraMovement::Backward => Axis::Front,
            CameraMovement::Left | CameraMovement::Right => Axis::Right,
        }
    }

    /// The factor, `1` or `-1`, by which the step along the axis is taken.
    pub fn sign(self) -> (sign: i8)
        ensures
            sign == self.spec_sign(),
    {
        match self {
            CameraMovement::Forward | CameraMovement::Right => 1,
            CameraMovement::Backward | CameraMovement::Left => -1,
        }
    }
}

/// The movements that the held keys ask for, in the order in which the
/// camera takes them: forward, backward, left, right. Opposite keys held
/// together both count.
pub open spec fn held(forward: bool, backward: bool, left: bool, right: bool) -> Seq<
    CameraMovement,
> {
    let f = if forward { seq![CameraMovement::Forward] } else { Seq::empty() };
    let b = if backward { seq![CameraMovement::Backward] } else { Seq::empty() };
    let l = if left { seq![CameraMovement::Left] } else { Seq::empty() };
    let r = if right { seq![CameraMovement::Right] } else { Seq::empty() };
    f + b + l + r
}

/// Lists the movements to process in a frame, one for each movement key
/// that is held down.
pub fn held_movements(forward: bool, backward: bool, left: bool, right: bool) -> (moves: Vec<
    CameraMovement,
>)
    ensures
        moves@ == held(forward, backward, left, right),
{
    let mut moves: Vec<CameraMovement> = Vec::new();
    if forward {
        moves.push(CameraMovement::Forward);
    }
    if backward {
        moves.push(CameraMovement::Backward);
    }
    if left {
        moves.push(CameraMovement::Left);
    }
    if right {
        moves.push(CameraMovement::Right);
    }
    moves
}

/// Two different movements along the same axis have opposite signs, so with
/// equal speed and time each one steps back over the other's displacement.
pub proof fn lemma_same_axis_opposite_signs(a: CameraMovement, b: CameraMovement)
    requires
        a.spec_axis() == b.spec_axis(),
        a != b,
    ensures
        a.spec_sign() + b.spec_sign() == 0,
{
}

} // verus!
