//! Platform-independent window events: the values the platform layer
//! extracts from raw windowing-system events and hands to the engine loop.

use vstd::prelude::*;

verus! {

/// A position in pixels, `(0, 0)` at the top left.
#[derive(Clone, Copy, Debug, PartialEq, Eq, Structural)]
pub struct Position {
    pub x: u32,
    pub y: u32,
}

/// A size in pixels.
#[derive(Clone, Copy, Debug, PartialEq, Eq, Structural)]
pub struct Size {
    pub width: u32,
    pub height: u32,
}

/// A mouse button; buttons beyond the usual three keep their raw code.
#[derive(Clone, Copy, Debug, PartialEq, Eq, Structural)]
pub enum MouseButton {
    Left,
    Middle,
    Right,
    Other(u8),
}

/// A unique number assigned to each key on the keyboard.
pub type Keycode = u32;

/// An event received from the window.
#[derive(Clone, Copy, Debug, PartialEq, Eq, Structural)]
pub enum WindowEvent {
    KeyPressed(Keycode),
    KeyReleased(Keycode),
    MouseEntered,
    MouseLeft,
    MouseMoved(Position),
    MouseButtonPressed(MouseButton),
    MouseButtonReleased(MouseButton),
    Resized(Size),
    ShouldClose,
}

/// The button a windowing-system button code names: codes one to three are
/// the left, middle and right buttons; any other code is kept raw, reduced
/// to its low byte.
pub open spec fn spec_map_mouse_button(button: u32) -> MouseButton {
    if button == 1 {
        MouseButton::Left
    } else if button == 2 {
        MouseButton::Middle
    } else if button == 3 {
        MouseButton::Right
    } else {
        MouseButton::Other((button % 256) as u8)
    }
}

/// Whether a windowing-system client message is the window manager's close
/// request: it carries the delete-window atom as its first datum, in 32-bit
/// format, under the window-manager protocols property. The atoms come from
/// the platform layer, which interned them when the window was opened.
pub fn is_close_request(
    message_type: u64,
    format: u8,
    first_datum: u64,
    wm_protocols: u64,
    wm_delete_window: u64,
) -> (r: bool)
    ensures
        r == (message_type == wm_protocols && format == 32 && first_datum == wm_delete_window),
{
    message_type == wm_protocols && format == 32 && first_datum == wm_delete_window
}

/// Map a raw windowing-system button code to a [`MouseButton`].
pub fn map_mouse_button(button: u32) -> (b: MouseButton)
    ensures
        b == spec_map_mouse_button(button),
{
    match button {
        1 => MouseButton::Left,
        2 => MouseButton::Middle,
        3 => MouseButton::Right,
        other => MouseButton::Other((other % 256) as u8),
    }
}

} // verus!
