//! The engine session's loop decisions, window event mapping, and resource
//! classification.

use vk_suballoc::engine::{start_engine, EngineAction};
use vk_suballoc::resource::{BufferType, ImageType, MSAALevel};
use vk_suballoc::window::{map_mouse_button, MouseButton, Position, Size, WindowEvent};
use vk_suballoc::MemoryType;

#[test]
fn session_counts_rendered_frames_and_stops_on_close() {
    let mut e = start_engine();
    assert_eq!(e.frames(), 0);
    assert!(e.is_running());

    assert_eq!(e.handle_event(&WindowEvent::KeyPressed(42)), EngineAction::Render);
    assert_eq!(e.handle_render_result(true), EngineAction::Render);
    assert_eq!(e.frames(), 1);

    assert_eq!(
        e.handle_event(&WindowEvent::MouseMoved(Position { x: 3, y: 4 })),
        EngineAction::Render
    );
    assert_eq!(e.handle_render_result(true), EngineAction::Render);
    assert_eq!(e.frames(), 2);

    assert_eq!(e.handle_event(&WindowEvent::ShouldClose), EngineAction::Stop);
    assert!(!e.is_running());
    assert_eq!(e.frames(), 2);
}

#[test]
fn session_stops_on_failed_render() {
    let mut e = start_engine();
    assert_eq!(
        e.handle_event(&WindowEvent::Resized(Size { width: 800, height: 600 })),
        EngineAction::Render
    );
    assert_eq!(e.handle_render_result(false), EngineAction::Stop);
    assert!(!e.is_running());
    assert_eq!(e.frames(), 0);
}

#[test]
fn mouse_buttons_map_by_code() {
    assert_eq!(map_mouse_button(1), MouseButton::Left);
    assert_eq!(map_mouse_button(2), MouseButton::Middle);
    assert_eq!(map_mouse_button(3), MouseButton::Right);
    assert_eq!(map_mouse_button(8), MouseButton::Other(8));
    // codes beyond one byte keep their low byte
    assert_eq!(map_mouse_button(300), MouseButton::Other(44));
}

#[test]
fn buffer_types_pick_their_memory_kind() {
    assert_eq!(BufferType::ComputeStorage.mem_type(), MemoryType::Device);
    assert_eq!(BufferType::Staging.mem_type(), MemoryType::Host);
}

#[test]
fn sample_counts_follow_the_msaa_level() {
    assert_eq!(MSAALevel::Off.samples(), 1);
    assert_eq!(MSAALevel::Two.samples(), 2);
    assert_eq!(MSAALevel::Four.samples(), 4);
    assert_eq!(MSAALevel::Eight.samples(), 8);
    assert_eq!(ImageType::DepthImage(MSAALevel::Four).samples(), 4);
    assert_eq!(ImageType::RenderImage(MSAALevel::Eight).samples(), 8);
    assert_eq!(ImageType::SwapchainImage.samples(), 1);
    assert_eq!(ImageType::FourChannelTexture.samples(), 1);
    assert_eq!(ImageType::OneChannelTexture.samples(), 1);
    assert_eq!(ImageType::NkGuiImage.samples(), 1);
}

#[test]
fn close_requests_need_the_right_atom_and_format() {
    let protocols: u64 = 71;
    let delete: u64 = 72;
    assert!(vk_suballoc::window::is_close_request(protocols, 32, delete, protocols, delete));
    // wrong property, wrong format, or another atom: not a close request
    assert!(!vk_suballoc::window::is_close_request(70, 32, delete, protocols, delete));
    assert!(!vk_suballoc::window::is_close_request(protocols, 8, delete, protocols, delete));
    assert!(!vk_suballoc::window::is_close_request(protocols, 32, 73, protocols, delete));
}

#[test]
fn only_non_staging_buffers_take_uploads() {
    assert!(BufferType::ComputeStorage.valid_upload_target());
    assert!(!BufferType::Staging.valid_upload_target());
}
