use fly_camera::movement::held_movements;
use fly_camera::{Axis, CameraMovement};

/// Moves `position` as the camera does: by `speed * delta` along the axis of
/// the movement, with or against it according to the sign.
fn step(
    position: [f32; 3],
    front: [f32; 3],
    right: [f32; 3],
    speed: f32,
    delta: f32,
    movement: CameraMovement,
) -> [f32; 3] {
    let velocity: f32 = speed * delta;
    let along: [f32; 3] = match movement.axis() {
        Axis::Front => front,
        Axis::Right => right,
    };
    let mut next: [f32; 3] = position;
    let mut i: usize = 0;
    while i < 3 {
        if movement.sign() > 0 {
            next[i] += along[i] * velocity;
        } else {
            next[i] -= along[i] * velocity;
        }
        i += 1;
    }
    next
}

#[test]
fn forward_and_backward_follow_the_front_vector() {
    assert_eq!(CameraMovement::Forward.axis(), Axis::Front);
    assert_eq!(CameraMovement::Backward.axis(), Axis::Front);
}

#[test]
fn left_and_right_follow_the_right_vector() {
    assert_eq!(CameraMovement::Left.axis(), Axis::Right);
    assert_eq!(CameraMovement::Right.axis(), Axis::Right);
}

#[test]
fn forward_and_right_are_positive() {
    assert_eq!(CameraMovement::Forward.sign(), 1);
    assert_eq!(CameraMovement::Right.sign(), 1);
}

#[test]
fn backward_and_left_are_negative() {
    assert_eq!(CameraMovement::Backward.sign(), -1);
    assert_eq!(CameraMovement::Left.sign(), -1);
}

#[test]
fn movements_on_one_axis_have_opposite_signs() {
    let all: [CameraMovement; 4] = [
        CameraMovement::Forward,
        CameraMovement::Backward,
        CameraMovement::Left,
        CameraMovement::Right,
    ];
    for a in all {
        for b in all {
            if a.axis() == b.axis() && a != b {
                assert_eq!(a.sign() + b.sign(), 0);
            }
            if a == b {
                assert_eq!(a.sign(), b.sign());
            }
        }
    }
}

#[test]
fn one_second_forward_moves_by_speed_times_front() {
    let front: [f32; 3] = [0.0, 0.0, -1.0];
    let right: [f32; 3] = [1.0, 0.0, 0.0];
    let start: [f32; 3] = [0.0, 0.0, 3.0];
    let moved: [f32; 3] = step(start, front, right, 2.5, 1.0, CameraMovement::Forward);
    assert_eq!(moved, [0.0, 0.0, 0.5]);
}

#[test]
fn backward_undoes_forward() {
    let front: [f32; 3] = [0.0, 0.0, -1.0];
    let right: [f32; 3] = [1.0, 0.0, 0.0];
    let start: [f32; 3] = [0.0, 0.0, 3.0];
    let there: [f32; 3] = step(start, front, right, 2.5, 1.0, CameraMovement::Forward);
    let back: [f32; 3] = step(there, front, right, 2.5, 1.0, CameraMovement::Backward);
    assert_eq!(back, start);
}

#[test]
fn left_undoes_right() {
    let front: [f32; 3] = [0.0, 0.0, -1.0];
    let right: [f32; 3] = [1.0, 0.0, 0.0];
    let start: [f32; 3] = [0.0, 0.0, 3.0];
    let there: [f32; 3] = step(start, front, right, 2.5, 0.5, CameraMovement::Right);
    assert_eq!(there, [1.25, 0.0, 3.0]);
    let back: [f32; 3] = step(there, front, right, 2.5, 0.5, CameraMovement::Left);
    assert_eq!(back, start);
}

#[test]
fn no_key_held_gives_no_movement() {
    assert_eq!(held_movements(false, false, false, false), Vec::<CameraMovement>::new());
}

#[test]
fn single_keys_give_their_movement() {
    assert_eq!(held_movements(true, false, false, false), vec![CameraMovement::Forward]);
    assert_eq!(held_movements(false, true, false, false), vec![CameraMovement::Backward]);
    assert_eq!(held_movements(false, false, true, false), vec![CameraMovement::Left]);
    assert_eq!(held_movements(false, false, false, true), vec![CameraMovement::Right]);
}

#[test]
fn held_keys_come_in_fixed_order() {
    assert_eq!(
        held_movements(true, true, true, true),
        vec![
            CameraMovement::Forward,
            CameraMovement::Backward,
            CameraMovement::Left,
            CameraMovement::Right,
        ]
    );
    assert_eq!(
        held_movements(true, false, false, true),
        vec![CameraMovement::Forward, CameraMovement::Right]
    );
    assert_eq!(
        held_movements(false, true, true, false),
        vec![CameraMovement::Backward, CameraMovement::Left]
    );
}

#[test]
fn every_combination_of_keys_lists_exactly_the_held_ones() {
    let mut mask: u8 = 0;
    while mask < 16 {
        let f: bool = mask & 1 != 0;
        let b: bool = mask & 2 != 0;
        let l: bool = mask & 4 != 0;
        let r: bool = mask & 8 != 0;
        let mut expected: Vec<CameraMovement> = Vec::new();
        if f {
            expected.push(CameraMovement::Forward);
        }
        if b {
            expected.push(CameraMovement::Backward);
        }
        if l {
            expected.push(CameraMovement::Left);
        }
        if r {
            expected.push(CameraMovement::Right);
        }
        assert_eq!(held_movements(f, b, l, r), expected);
        mask += 1;
    }
}
