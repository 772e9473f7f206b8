use crate::ecs::commands::Commands;
use vstd::prelude::*;

verus! {

/// The keys the keyboard system knows apart.
#[derive(Clone, Copy, Debug, PartialEq, Eq, Structural)]
pub enum Key {
    Escape,
    W,
    A,
    S,
    D,
    Other,
}

/// An input event, as far as the keyboard system tells events apart.
#[derive(Clone, Copy, Debug, PartialEq, Eq, Structural)]
pub enum InputEvent {
    /// The window was asked to close.
    Quit,
    /// A key went down; `None` where the key has no code.
    KeyDown { keycode: Option<Key> },
    /// Anything else.
    Other,
}

/// What the keyboard system asks of the camera. Speeds are whole numbers:
/// steps along the camera's own z axis, degrees around its own y axis.
#[derive(Clone, Copy, Debug, PartialEq, Eq, Structural)]
pub enum CameraMove {
    Stay,
    MoveLocalZ { speed: i32 },
    RotateLocalY { speed: i32 },
}

/// Whether `event` asks for the loop to end: closing the window does, and
/// so does the escape key.
pub open spec fn closes(event: InputEvent) -> bool {
    event == InputEvent::Quit || event == (InputEvent::KeyDown { keycode: Some(Key::Escape) })
}

/// What `event` asks of the camera: W and S move it forth and back by one
/// step, D and A turn it right and left by five degrees.
pub open spec fn camera_move(event: InputEvent) -> CameraMove {
    match event {
        InputEvent::KeyDown { keycode: Some(Key::W) } => CameraMove::MoveLocalZ { speed: 1 },
        InputEvent::KeyDown { keycode: Some(Key::S) } => CameraMove::MoveLocalZ { speed: -1i32 },
        InputEvent::KeyDown { keycode: Some(Key::D) } => CameraMove::RotateLocalY { speed: 5 },
        InputEvent::KeyDown { keycode: Some(Key::A) } => CameraMove::RotateLocalY { speed: -5i32 },
        _ => CameraMove::Stay,
    }
}

/// The keyboard system: asks for the loop to end on an event that closes,
/// and says what the event asks of the camera. It never takes a request to
/// end back.
pub fn kbd(commands: &mut Commands, event: InputEvent) -> (motion: CameraMove)
    ensures
        final(commands).should_close == (old(commands).should_close || closes(event)),
        motion == camera_move(event),
{
    match event {
        InputEvent::Quit | InputEvent::KeyDown { keycode: Some(Key::Escape) } => {
            commands.should_close = true;
            CameraMove::Stay
        },
        InputEvent::KeyDown { keycode: Some(Key::W) } => CameraMove::MoveLocalZ { speed: 1 },
        InputEvent::KeyDown { keycode: Some(Key::S) } => CameraMove::MoveLocalZ { speed: -1 },
        InputEvent::KeyDown { keycode: Some(Key::D) } => CameraMove::RotateLocalY { speed: 5 },
        InputEvent::KeyDown { keycode: Some(Key::A) } => CameraMove::RotateLocalY { speed: -5 },
        _ => CameraMove::Stay,
    }
}

} // verus!
