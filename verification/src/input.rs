//! Continuous raw-key controls for the graph camera.
//!
//! Camera motion is driven by the raw keyboard state, not semantic events,
//! so held keys move smoothly. Plain arrows orbit; Shift+arrows translate the
//! orbit target (truck horizontally, pedestal vertically); `+`/`-` dolly the
//! camera; Alpha+`+`/`-` changes the focal length without moving it. OK and
//! tab behavior are owned by the application state machine.
//!
//! This module decides which motions one keyboard sample asks for; the
//! caller applies each one to the camera with its fixed step size.
use vstd::prelude::*;
use crate::keys::{
    key_down, spec_key_down, KeyState, KEY_ALPHA, KEY_BACK, KEY_DOWN, KEY_LEFT, KEY_MINUS,
    KEY_PLUS, KEY_RIGHT, KEY_SHIFT, KEY_UP,
};

verus! {

/// Result of applying one raw keyboard sample to the camera.
#[derive(Clone, Copy, Debug, PartialEq, Eq, Structural)]
pub enum Action {
    /// Nothing moved.
    Unchanged,
    /// The camera moved; the graph must be recomposed.
    Redraw,
    /// Back was held: leave the application.
    Exit,
}

/// One camera motion of one step in the given direction (`1` or `-1`).
#[derive(Clone, Copy, Debug, PartialEq, Eq, Structural)]
pub enum CameraMove {
    /// Orbit by a yaw step and a pitch step.
    Orbit { yaw: i8, pitch: i8 },
    /// Move target and camera sideways relative to the current yaw.
    Truck(i8),
    /// Move target and camera along world Z.
    Pedestal(i8),
    /// Move the camera toward (`-1`) or away from (`1`) the target.
    Dolly(i8),
    /// Lengthen (`1`) or shorten (`-1`) the focal length.
    FocalLength(i8),
}

/// `motion` when `key` is down in `state`, else nothing.
pub open spec fn when_down(state: u64, key: u8, motion: CameraMove) -> Seq<CameraMove> {
    if spec_key_down(state, key) {
        seq![motion]
    } else {
        Seq::empty()
    }
}

/// Motions asked for by one keyboard sample, in the order they apply:
/// the four arrows (orbit, or translate with Shift), then `+` and `-`
/// (dolly, or focal length with Alpha).
pub open spec fn spec_camera_moves(state: u64) -> Seq<CameraMove> {
    let arrows = if spec_key_down(state, KEY_SHIFT) {
        when_down(state, KEY_LEFT, CameraMove::Truck(-1i8)) + when_down(
            state,
            KEY_RIGHT,
            CameraMove::Truck(1i8),
        ) + when_down(state, KEY_UP, CameraMove::Pedestal(1i8)) + when_down(
            state,
            KEY_DOWN,
            CameraMove::Pedestal(-1i8),
        )
    } else {
        when_down(state, KEY_LEFT, CameraMove::Orbit { yaw: -1i8, pitch: 0i8 }) + when_down(
            state,
            KEY_RIGHT,
            CameraMove::Orbit { yaw: 1i8, pitch: 0i8 },
        ) + when_down(state, KEY_UP, CameraMove::Orbit { yaw: 0i8, pitch: 1i8 }) + when_down(
            state,
            KEY_DOWN,
            CameraMove::Orbit { yaw: 0i8, pitch: -1i8 },
        )
    };
    let zoom = if spec_key_down(state, KEY_ALPHA) {
        when_down(state, KEY_PLUS, CameraMove::FocalLength(1i8)) + when_down(
            state,
            KEY_MINUS,
            CameraMove::FocalLength(-1i8),
        )
    } else {
        when_down(state, KEY_PLUS, CameraMove::Dolly(-1i8)) + when_down(
            state,
            KEY_MINUS,
            CameraMove::Dolly(1i8),
        )
    };
    arrows + zoom
}

fn push_when_down(moves: &mut Vec<CameraMove>, state: KeyState, key: u8, motion: CameraMove)
    ensures
        final(moves)@ == old(moves)@ + when_down(state, key, motion),
{
    if key_down(state, key) {
        moves.push(motion);
    }
    proof {
        assert(moves@ =~= old(moves)@ + when_down(state, key, motion));
    }
}

/// Applies the graph-content key mapping to one keyboard sample: Back
/// exits; otherwise the motions to apply, with `Redraw` when there is one.
pub fn update(state: KeyState) -> (result: (Action, Vec<CameraMove>))
    ensures
        spec_key_down(state, KEY_BACK) ==> result.0 == Action::Exit && result.1@.len() == 0,
        !spec_key_down(state, KEY_BACK) ==> {
            &&& result.1@ == spec_camera_moves(state)
            &&& result.0 == if spec_camera_moves(state).len() > 0 {
                Action::Redraw
            } else {
                Action::Unchanged
            }
        },
{
    let mut moves: Vec<CameraMove> = Vec::new();
    if key_down(state, KEY_BACK) {
        return (Action::Exit, moves);
    }
    if key_down(state, KEY_SHIFT) {
        push_when_down(&mut moves, state, KEY_LEFT, CameraMove::Truck(-1));
        push_when_down(&mut moves, state, KEY_RIGHT, CameraMove::Truck(1));
        push_when_down(&mut moves, state, KEY_UP, CameraMove::Pedestal(1));
        push_when_down(&mut moves, state, KEY_DOWN, CameraMove::Pedestal(-1));
    } else {
        push_when_down(&mut moves, state, KEY_LEFT, CameraMove::Orbit { yaw: -1, pitch: 0 });
        push_when_down(&mut moves, state, KEY_RIGHT, CameraMove::Orbit { yaw: 1, pitch: 0 });
        push_when_down(&mut moves, state, KEY_UP, CameraMove::Orbit { yaw: 0, pitch: 1 });
        push_when_down(&mut moves, state, KEY_DOWN, CameraMove::Orbit { yaw: 0, pitch: -1 });
    }
    if key_down(state, KEY_ALPHA) {
        push_when_down(&mut moves, state, KEY_PLUS, CameraMove::FocalLength(1));
        push_when_down(&mut moves, state, KEY_MINUS, CameraMove::FocalLength(-1));
    } else {
        push_when_down(&mut moves, state, KEY_PLUS, CameraMove::Dolly(-1));
        push_when_down(&mut moves, state, KEY_MINUS, CameraMove::Dolly(1));
    }
    proof {
        assert(moves@ =~= spec_camera_moves(state));
    }
    let action = if moves.len() > 0 {
        Action::Redraw
    } else {
        Action::Unchanged
    };
    (action, moves)
}

/// Shift turns arrows into translations and never orbits; without Shift
/// arrows only orbit. Alpha turns `+`/`-` into focal-length changes that
/// never dolly; without Alpha they only dolly.
pub proof fn modifiers_select_the_motion(state: u64)
    ensures
        spec_key_down(state, KEY_SHIFT) ==> forall|k: int|
            0 <= k < spec_camera_moves(state).len() ==> !(#[trigger] spec_camera_moves(state)[k] is Orbit),
        !spec_key_down(state, KEY_SHIFT) ==> forall|k: int|
            0 <= k < spec_camera_moves(state).len() ==> !(#[trigger] spec_camera_moves(state)[k] is Truck)
                && !(spec_camera_moves(state)[k] is Pedestal),
        spec_key_down(state, KEY_ALPHA) ==> forall|k: int|
            0 <= k < spec_camera_moves(state).len() ==> !(#[trigger] spec_camera_moves(state)[k] is Dolly),
        !spec_key_down(state, KEY_ALPHA) ==> forall|k: int|
            0 <= k < spec_camera_moves(state).len() ==> !(#[trigger] spec_camera_moves(state)[k] is FocalLength),
{
}

} // verus!
