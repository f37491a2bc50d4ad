use ice_spar::camera_control::{camera_actions, CameraAction, Direction, InputBindings};
use ice_spar::input::{ElementState, EventHandle, InputEvent, MouseButton};
use ice_spar::render::{pipeline_ready, render_commands, RenderCommand};

const W: u32 = 1;
const S: u32 = 2;
const A: u32 = 3;
const D: u32 = 4;

fn bindings() -> InputBindings {
    InputBindings { orbit_button: MouseButton::Right, forward_key: W, backward_key: S, left_key: A, right_key: D }
}

#[test]
fn idle_camera_only_zooms_and_uploads() {
    let eh = EventHandle::new();
    assert_eq!(
        camera_actions(&eh, &bindings(), 0, 1),
        vec![CameraAction::Zoom, CameraAction::UpdateFromOrbit, CameraAction::WriteGpuBuffers]
    );
}

#[test]
fn missing_camera_does_nothing() {
    let eh = EventHandle::new();
    assert!(camera_actions(&eh, &bindings(), 1, 1).is_empty());
    assert!(camera_actions(&eh, &bindings(), 0, 0).is_empty());
}

#[test]
fn held_inputs_in_order() {
    let mut eh = EventHandle::new();
    for k in [D, A, S, W] {
        eh.process_event(&InputEvent::Keyboard { key: k, state: ElementState::Pressed });
    }
    eh.process_event(&InputEvent::MouseInput { button: MouseButton::Right, state: ElementState::Pressed });
    assert_eq!(
        camera_actions(&eh, &bindings(), 0, 2),
        vec![
            CameraAction::Orbit,
            CameraAction::Zoom,
            CameraAction::PanForward(Direction::Positive),
            CameraAction::PanForward(Direction::Negative),
            CameraAction::PanRight(Direction::Negative),
            CameraAction::PanRight(Direction::Positive),
            CameraAction::UpdateFromOrbit,
            CameraAction::WriteGpuBuffers,
        ]
    );
}

#[test]
fn left_button_does_not_orbit() {
    let mut eh = EventHandle::new();
    eh.process_event(&InputEvent::MouseInput { button: MouseButton::Left, state: ElementState::Pressed });
    eh.process_event(&InputEvent::Keyboard { key: A, state: ElementState::Pressed });
    assert_eq!(
        camera_actions(&eh, &bindings(), 0, 1),
        vec![
            CameraAction::Zoom,
            CameraAction::PanRight(Direction::Negative),
            CameraAction::UpdateFromOrbit,
            CameraAction::WriteGpuBuffers,
        ]
    );
}

#[test]
fn render_pass_commands() {
    let c = render_commands(2, &vec![6, 3]);
    assert_eq!(
        c,
        vec![
            RenderCommand::SetPipeline,
            RenderCommand::SetBindGroup { index: 0, group: 0 },
            RenderCommand::SetBindGroup { index: 1, group: 1 },
            RenderCommand::SetVertexBuffer { slot: 0, mesh: 0 },
            RenderCommand::SetIndexBuffer { mesh: 0 },
            RenderCommand::DrawIndexed { mesh: 0, index_count: 6, instance_count: 1 },
            RenderCommand::SetVertexBuffer { slot: 0, mesh: 1 },
            RenderCommand::SetIndexBuffer { mesh: 1 },
            RenderCommand::DrawIndexed { mesh: 1, index_count: 3, instance_count: 1 },
        ]
    );
    assert_eq!(render_commands(0, &Vec::new()), vec![RenderCommand::SetPipeline]);
}

#[test]
fn pipeline_needs_camera_and_material() {
    assert!(pipeline_ready(1, 1));
    assert!(!pipeline_ready(0, 3));
    assert!(!pipeline_ready(2, 0));
}
