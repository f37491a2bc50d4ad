use vstd::prelude::*;
use crate::input::{button_code, EventHandle, InputState, MouseButton};

verus! {

/// The inputs that steer the camera: the button held to orbit, and the keys that
/// move the orbit centre forward, backward, left and right.
#[derive(Clone, Copy, PartialEq, Eq, Structural, Debug)]
pub struct InputBindings {
    pub orbit_button: MouseButton,
    pub forward_key: u32,
    pub backward_key: u32,
    pub left_key: u32,
    pub right_key: u32,
}

/// A sign applied to a pan step.
#[derive(Clone, Copy, PartialEq, Eq, Structural, Debug)]
pub enum Direction {
    Positive,
    Negative,
}

/// One step of a camera update, in the order it is applied.
#[derive(Clone, Copy, PartialEq, Eq, Structural, Debug)]
pub enum CameraAction {
    /// Turn by the cursor movement, pitch clamped.
    Orbit,
    /// Move toward or away from the orbit centre by the scroll, distance clamped.
    Zoom,
    /// Move the orbit centre along the view direction by the pan step.
    PanForward(Direction),
    /// Move the orbit centre sideways by the pan step.
    PanRight(Direction),
    /// Recompute the camera position from yaw, pitch and distance.
    UpdateFromOrbit,
    /// Write the view-projection matrix and camera position to the GPU.
    WriteGpuBuffers,
}

pub open spec fn when(cond: bool, a: CameraAction) -> Seq<CameraAction> {
    if cond {
        seq![a]
    } else {
        Seq::empty()
    }
}

/// The camera update for one frame: none when the camera does not exist; otherwise
/// orbit while the orbit button is held, always zoom, pan for each held movement key
/// (forward, backward, left, right in that order), then recompute and upload.
pub open spec fn spec_camera_actions(s: InputState, b: InputBindings, camera_exists: bool) -> Seq<CameraAction> {
    if !camera_exists {
        Seq::empty()
    } else {
        when(s.buttons.contains(button_code(b.orbit_button)), CameraAction::Orbit)
            + seq![CameraAction::Zoom]
            + when(s.keys.contains(b.forward_key), CameraAction::PanForward(Direction::Positive))
            + when(s.keys.contains(b.backward_key), CameraAction::PanForward(Direction::Negative))
            + when(s.keys.contains(b.left_key), CameraAction::PanRight(Direction::Negative))
            + when(s.keys.contains(b.right_key), CameraAction::PanRight(Direction::Positive))
            + seq![CameraAction::UpdateFromOrbit, CameraAction::WriteGpuBuffers]
    }
}

fn push_when(r: &mut Vec<CameraAction>, cond: bool, a: CameraAction)
    ensures
        final(r)@ == old(r)@ + when(cond, a),
{
    if cond {
        r.push(a);
    }
    assert(r@ =~= old(r)@ + when(cond, a));
}

/// The steps that update camera `camera_index` of a scene with `camera_count`
/// cameras from this frame's input.
pub fn camera_actions(eh: &EventHandle, bindings: &InputBindings, camera_index: usize, camera_count: usize) -> (r: Vec<CameraAction>)
    ensures
        r@ == spec_camera_actions(eh@, *bindings, camera_index < camera_count),
{
    let mut r: Vec<CameraAction> = Vec::new();
    if camera_index >= camera_count {
        assert(r@ =~= spec_camera_actions(eh@, *bindings, false));
        return r;
    }
    push_when(&mut r, eh.is_mouse_pressed(bindings.orbit_button), CameraAction::Orbit);
    assert(r@ =~= when(eh@.buttons.contains(button_code(bindings.orbit_button)), CameraAction::Orbit));
    r.push(CameraAction::Zoom);
    push_when(&mut r, eh.is_key_pressed(bindings.forward_key), CameraAction::PanForward(Direction::Positive));
    push_when(&mut r, eh.is_key_pressed(bindings.backward_key), CameraAction::PanForward(Direction::Negative));
    push_when(&mut r, eh.is_key_pressed(bindings.left_key), CameraAction::PanRight(Direction::Negative));
    push_when(&mut r, eh.is_key_pressed(bindings.right_key), CameraAction::PanRight(Direction::Positive));
    let ghost before_end = r@;
    r.push(CameraAction::UpdateFromOrbit);
    r.push(CameraAction::WriteGpuBuffers);
    assert(r@ =~= before_end + seq![CameraAction::UpdateFromOrbit, CameraAction::WriteGpuBuffers]);
    r
}

/// Every update of an existing camera zooms once and ends by recomputing and
/// uploading the camera; it orbits exactly when the orbit button is held, and pans
/// in each direction exactly when that direction's key is held: forward key
/// forward, backward key backward, left key left, right key right.
pub proof fn lemma_camera_update_shape(s: InputState, b: InputBindings)
    ensures
        ({
            let a = spec_camera_actions(s, b, true);
            &&& a.len() >= 3
            &&& a[a.len() - 2] == CameraAction::UpdateFromOrbit
            &&& a[a.len() - 1] == CameraAction::WriteGpuBuffers
            &&& a.contains(CameraAction::Zoom)
            &&& a.contains(CameraAction::Orbit) == s.buttons.contains(button_code(b.orbit_button))
            &&& a.contains(CameraAction::PanForward(Direction::Positive)) == s.keys.contains(b.forward_key)
            &&& a.contains(CameraAction::PanForward(Direction::Negative)) == s.keys.contains(b.backward_key)
            &&& a.contains(CameraAction::PanRight(Direction::Negative)) == s.keys.contains(b.left_key)
            &&& a.contains(CameraAction::PanRight(Direction::Positive)) == s.keys.contains(b.right_key)
        }),
        spec_camera_actions(s, b, false).len() == 0,
{
    let a = spec_camera_actions(s, b, true);
    let o = when(s.buttons.contains(button_code(b.orbit_button)), CameraAction::Orbit);
    let f = when(s.keys.contains(b.forward_key), CameraAction::PanForward(Direction::Positive));
    let k = when(s.keys.contains(b.backward_key), CameraAction::PanForward(Direction::Negative));
    let l = when(s.keys.contains(b.left_key), CameraAction::PanRight(Direction::Negative));
    let r = when(s.keys.contains(b.right_key), CameraAction::PanRight(Direction::Positive));
    let z = seq![CameraAction::Zoom];
    let e = seq![CameraAction::UpdateFromOrbit, CameraAction::WriteGpuBuffers];
    assert(a == o + z + f + k + l + r + e);
    assert(a[o.len() as int] == CameraAction::Zoom);
    if s.buttons.contains(button_code(b.orbit_button)) {
        assert(a[0] == CameraAction::Orbit);
    } else {
        assert forall|i: int| 0 <= i < a.len() implies a[i] != CameraAction::Orbit by {}
    }
    if s.keys.contains(b.forward_key) {
        assert(a[(o.len() + 1) as int] == CameraAction::PanForward(Direction::Positive));
    } else {
        assert forall|i: int| 0 <= i < a.len() implies a[i] != CameraAction::PanForward(Direction::Positive) by {}
    }
    if s.keys.contains(b.backward_key) {
        assert(a[(o.len() + 1 + f.len()) as int] == CameraAction::PanForward(Direction::Negative));
    } else {
        assert forall|i: int| 0 <= i < a.len() implies a[i] != CameraAction::PanForward(Direction::Negative) by {}
    }
    if s.keys.contains(b.left_key) {
        assert(a[(o.len() + 1 + f.len() + k.len()) as int] == CameraAction::PanRight(Direction::Negative));
    } else {
        assert forall|i: int| 0 <= i < a.len() implies a[i] != CameraAction::PanRight(Direction::Negative) by {}
    }
    if s.keys.contains(b.right_key) {
        assert(a[(o.len() + 1 + f.len() + k.len() + l.len()) as int] == CameraAction::PanRight(Direction::Positive));
    } else {
        assert forall|i: int| 0 <= i < a.len() implies a[i] != CameraAction::PanRight(Direction::Positive) by {}
    }
}

} // verus!
