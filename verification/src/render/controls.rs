//! How the demo's input events steer the simulated camera and display.
//!
//! Held keys are tracked in a [`StateMap`]; the display toggles react only to
//! the press of their key, not to it being held.
use vstd::prelude::*;
use crate::events::button::{C as Button, Key, Side};

verus! {

/// What a window is for.
#[derive(Debug, Copy, Clone, PartialEq, Eq, Structural)]
pub enum WindowPurpose {
    Primary,
}

/// An input event for the simulation. Angles are carried as the bits of an
/// `f32` in radians.
#[derive(Debug, Copy, Clone, PartialEq, Eq, Structural)]
pub enum WorldEvent {
    SetMoveForward(bool),
    SetMoveBackward(bool),
    SetMoveLeft(bool),
    SetMoveRight(bool),
    SetMoveUp(bool),
    SetMoveDown(bool),
    SetRollLeft(bool),
    SetRollRight(bool),
    Yaw(u32),
    Pitch(u32),
    ShiftBackground(bool),
    ToggleWireFrame(bool),
}

/// Which movement, roll and toggle keys are held down.
#[derive(Debug, Copy, Clone, PartialEq, Eq, Structural)]
pub struct StateMap {
    pub x_pos: bool,
    pub x_neg: bool,
    pub y_pos: bool,
    pub y_neg: bool,
    pub z_pos: bool,
    pub z_neg: bool,
    pub roll_left: bool,
    pub roll_right: bool,
    pub wireframe: bool,
    pub shift_background: bool,
}

/// The display settings that the toggles switch.
#[derive(Debug, Copy, Clone, PartialEq, Eq, Structural)]
pub struct DisplayFlags {
    pub is_wireframe: bool,
    /// Which of the four clear colours is shown.
    pub clear_color_mode: usize,
}

/// A rotation that an event asks for, to be accumulated by the caller.
#[derive(Debug, Copy, Clone, PartialEq, Eq, Structural)]
pub enum RotationInput {
    NoRotation,
    /// The bits of an `f32` yaw angle to add.
    Yaw(u32),
    /// The bits of an `f32` pitch angle to add.
    Pitch(u32),
}

/// The number of clear colours the background cycles through.
pub const CLEAR_COLOR_MODES: usize = 4;

/// The clear colour that follows `mode`.
#[verifier::opaque]
pub open spec fn spec_next_clear_color_mode(mode: usize) -> usize {
    ((mode + 1) % (CLEAR_COLOR_MODES as int)) as usize
}

/// The next clear colour, computed.
pub fn next_clear_color_mode(mode: usize) -> (r: usize)
    requires
        mode < usize::MAX,
    ensures
        r == spec_next_clear_color_mode(mode),
{
    reveal(spec_next_clear_color_mode);
    (mode + 1) % CLEAR_COLOR_MODES
}

/// The keys held after `e`, the display flags after it, and the rotation it
/// asks for.
pub open spec fn spec_handle(keys: StateMap, flags: DisplayFlags, e: WorldEvent) -> (
    StateMap,
    DisplayFlags,
    RotationInput,
) {
    match e {
        WorldEvent::SetMoveForward(s) => (StateMap { z_neg: s, ..keys }, flags, RotationInput::NoRotation),
        WorldEvent::SetMoveBackward(s) => (StateMap { z_pos: s, ..keys }, flags, RotationInput::NoRotation),
        WorldEvent::SetMoveLeft(s) => (StateMap { x_neg: s, ..keys }, flags, RotationInput::NoRotation),
        WorldEvent::SetMoveRight(s) => (StateMap { x_pos: s, ..keys }, flags, RotationInput::NoRotation),
        WorldEvent::SetMoveUp(s) => (StateMap { y_pos: s, ..keys }, flags, RotationInput::NoRotation),
        WorldEvent::SetMoveDown(s) => (StateMap { y_neg: s, ..keys }, flags, RotationInput::NoRotation),
        WorldEvent::SetRollLeft(s) => (StateMap { roll_left: s, ..keys }, flags, RotationInput::NoRotation),
        WorldEvent::SetRollRight(s) => (StateMap { roll_right: s, ..keys }, flags, RotationInput::NoRotation),
        WorldEvent::Yaw(bits) => (keys, flags, RotationInput::Yaw(bits)),
        WorldEvent::Pitch(bits) => (keys, flags, RotationInput::Pitch(bits)),
        WorldEvent::ToggleWireFrame(s) => {
            let pressed = s && !keys.wireframe;
            (
                StateMap { wireframe: s, ..keys },
                DisplayFlags {
                    is_wireframe: if pressed {
                        !flags.is_wireframe
                    } else {
                        flags.is_wireframe
                    },
                    ..flags
                },
                RotationInput::NoRotation,
            )
        },
        WorldEvent::ShiftBackground(s) => {
            let pressed = s && !keys.shift_background;
            (
                StateMap { shift_background: s, ..keys },
                DisplayFlags {
                    clear_color_mode: if pressed {
                        spec_next_clear_color_mode(flags.clear_color_mode)
                    } else {
                        flags.clear_color_mode
                    },
                    ..flags
                },
                RotationInput::NoRotation,
            )
        },
    }
}

/// The direction, -1, 0 or 1, that a pair of opposing keys asks for.
pub open spec fn spec_axis(pos: bool, neg: bool) -> int {
    (if pos {
        1int
    } else {
        0int
    }) - (if neg {
        1int
    } else {
        0int
    })
}

/// The direction a held movement key moves the camera in, in camera space:
/// w forward (-z), s back, a left, d right, q up and e down.
pub open spec fn spec_key_direction(c: char) -> Option<(i8, i8, i8)> {
    if c == 'w' {
        Some((0i8, 0i8, -1i8))
    } else if c == 'a' {
        Some((-1i8, 0i8, 0i8))
    } else if c == 's' {
        Some((0i8, 0i8, 1i8))
    } else if c == 'd' {
        Some((1i8, 0i8, 0i8))
    } else if c == 'q' {
        Some((0i8, 1i8, 0i8))
    } else if c == 'e' {
        Some((0i8, -1i8, 0i8))
    } else {
        None
    }
}

/// The direction a held movement key asks for, if it is one.
pub fn key_direction(c: char) -> (r: Option<(i8, i8, i8)>)
    ensures
        r == spec_key_direction(c),
{
    match c {
        'w' => Some((0, 0, -1)),
        'a' => Some((-1, 0, 0)),
        's' => Some((0, 0, 1)),
        'd' => Some((1, 0, 0)),
        'q' => Some((0, 1, 0)),
        'e' => Some((0, -1, 0)),
        _ => None,
    }
}

/// The input event the render demo makes of a key going down (`pressed`) or
/// up: w, a, s and d move forward, left, back and right, space and the left
/// control key up and down, q and e roll right and left, n shifts the
/// background and tab toggles the wireframe; other keys make none.
pub open spec fn spec_world_event(key: Button, pressed: bool) -> Option<WorldEvent> {
    match key {
        Button::A(c) => if c == 'w' {
            Some(WorldEvent::SetMoveForward(pressed))
        } else if c == 'a' {
            Some(WorldEvent::SetMoveLeft(pressed))
        } else if c == 's' {
            Some(WorldEvent::SetMoveBackward(pressed))
        } else if c == 'd' {
            Some(WorldEvent::SetMoveRight(pressed))
        } else if c == 'q' {
            Some(WorldEvent::SetRollRight(pressed))
        } else if c == 'e' {
            Some(WorldEvent::SetRollLeft(pressed))
        } else if c == ' ' {
            Some(WorldEvent::SetMoveUp(pressed))
        } else if c == 'n' {
            Some(WorldEvent::ShiftBackground(pressed))
        } else {
            None
        },
        Button::S(Key::Ctrl(Side::L)) => Some(WorldEvent::SetMoveDown(pressed)),
        Button::S(Key::Tab) => Some(WorldEvent::ToggleWireFrame(pressed)),
        _ => None,
    }
}

/// The input event a key makes, if any.
pub fn world_event(key: Button, pressed: bool) -> (r: Option<WorldEvent>)
    ensures
        r == spec_world_event(key, pressed),
{
    match key {
        Button::A('w') => Some(WorldEvent::SetMoveForward(pressed)),
        Button::A('a') => Some(WorldEvent::SetMoveLeft(pressed)),
        Button::A('s') => Some(WorldEvent::SetMoveBackward(pressed)),
        Button::A('d') => Some(WorldEvent::SetMoveRight(pressed)),
        Button::A('q') => Some(WorldEvent::SetRollRight(pressed)),
        Button::A('e') => Some(WorldEvent::SetRollLeft(pressed)),
        Button::A(' ') => Some(WorldEvent::SetMoveUp(pressed)),
        Button::A('n') => Some(WorldEvent::ShiftBackground(pressed)),
        Button::S(Key::Ctrl(Side::L)) => Some(WorldEvent::SetMoveDown(pressed)),
        Button::S(Key::Tab) => Some(WorldEvent::ToggleWireFrame(pressed)),
        _ => None,
    }
}

/// Whether a key ends the render demo: escape does.
pub fn is_exit_key(key: Button) -> (r: bool)
    ensures
        r == (key == Button::S(Key::Esc)),
{
    match key {
        Button::S(Key::Esc) => true,
        _ => false,
    }
}

impl StateMap {
    /// No key held.
    pub fn new() -> (r: StateMap)
        ensures
            !r.x_pos && !r.x_neg && !r.y_pos && !r.y_neg && !r.z_pos && !r.z_neg,
            !r.roll_left && !r.roll_right && !r.wireframe && !r.shift_background,
    {
        StateMap {
            z_pos: false,
            z_neg: false,
            y_pos: false,
            y_neg: false,
            x_pos: false,
            x_neg: false,
            roll_right: false,
            roll_left: false,
            shift_background: false,
            wireframe: false,
        }
    }

    /// Records `e`: a movement or roll key sets its flag, a toggle flips its
    /// display setting when its key goes down, and a yaw or pitch is handed
    /// back to be added up.
    pub fn handle(&mut self, flags: &mut DisplayFlags, e: WorldEvent) -> (rot: RotationInput)
        requires
            old(flags).clear_color_mode < usize::MAX,
        ensures
            *final(self) == spec_handle(*old(self), *old(flags), e).0,
            *final(flags) == spec_handle(*old(self), *old(flags), e).1,
            rot == spec_handle(*old(self), *old(flags), e).2,
    {
        let (next_keys, next_flags, rot) = transition(*self, *flags, e);
        *self = next_keys;
        *flags = next_flags;
        rot
    }

    /// The direction asked for along each axis, x, y and z, each -1, 0 or 1.
    pub fn displacement_steps(&self) -> (r: (i8, i8, i8))
        ensures
            r.0 == spec_axis(self.x_pos, self.x_neg),
            r.1 == spec_axis(self.y_pos, self.y_neg),
            r.2 == spec_axis(self.z_pos, self.z_neg),
    {
        (axis_step(self.x_pos, self.x_neg), axis_step(self.y_pos, self.y_neg), axis_step(self.z_pos, self.z_neg))
    }

    /// The direction of roll asked for, -1 (left), 0 or 1 (right).
    pub fn roll_step(&self) -> (r: i8)
        ensures
            r == spec_axis(self.roll_right, self.roll_left),
    {
        axis_step(self.roll_right, self.roll_left)
    }
}

fn transition(keys: StateMap, flags: DisplayFlags, e: WorldEvent) -> (r: (StateMap, DisplayFlags, RotationInput))
    requires
        flags.clear_color_mode < usize::MAX,
    ensures
        r == spec_handle(keys, flags, e),
{
    let no_rotation = RotationInput::NoRotation;
    match e {
        WorldEvent::SetMoveForward(s) => (StateMap { z_neg: s, ..keys }, flags, no_rotation),
        WorldEvent::SetMoveBackward(s) => (StateMap { z_pos: s, ..keys }, flags, no_rotation),
        WorldEvent::SetMoveLeft(s) => (StateMap { x_neg: s, ..keys }, flags, no_rotation),
        WorldEvent::SetMoveRight(s) => (StateMap { x_pos: s, ..keys }, flags, no_rotation),
        WorldEvent::SetMoveUp(s) => (StateMap { y_pos: s, ..keys }, flags, no_rotation),
        WorldEvent::SetMoveDown(s) => (StateMap { y_neg: s, ..keys }, flags, no_rotation),
        WorldEvent::SetRollLeft(s) => (StateMap { roll_left: s, ..keys }, flags, no_rotation),
        WorldEvent::SetRollRight(s) => (StateMap { roll_right: s, ..keys }, flags, no_rotation),
        WorldEvent::Yaw(bits) => (keys, flags, RotationInput::Yaw(bits)),
        WorldEvent::Pitch(bits) => (keys, flags, RotationInput::Pitch(bits)),
        WorldEvent::ToggleWireFrame(s) => {
            // Only the key going down switches the setting.
            let pressed = s && !keys.wireframe;
            let is_wireframe = if pressed {
                !flags.is_wireframe
            } else {
                flags.is_wireframe
            };
            (StateMap { wireframe: s, ..keys }, DisplayFlags { is_wireframe, ..flags }, no_rotation)
        },
        WorldEvent::ShiftBackground(s) => {
            let pressed = s && !keys.shift_background;
            let clear_color_mode = if pressed {
                next_clear_color_mode(flags.clear_color_mode)
            } else {
                flags.clear_color_mode
            };
            (StateMap { shift_background: s, ..keys }, DisplayFlags { clear_color_mode, ..flags }, no_rotation)
        },
    }
}

fn axis_step(pos: bool, neg: bool) -> (r: i8)
    ensures
        r == spec_axis(pos, neg),
{
    let mut step: i8 = 0;
    if pos {
        step = step + 1;
    }
    if neg {
        step = step - 1;
    }
    step
}

impl Default for DisplayFlags {
    /// Solid fill, and the black background, the last of the four.
    fn default() -> (r: DisplayFlags)
        ensures
            !r.is_wireframe,
            r.clear_color_mode == 3,
    {
        DisplayFlags { is_wireframe: false, clear_color_mode: 3 }
    }
}

/// A movement key on the ground plane (w, a, s or d) moves the camera the way
/// its direction says: pressed while no movement key is held, it makes the
/// held keys ask for exactly that direction along each axis, and released
/// again it leaves no movement asked for. So a steps along -x, d along +x,
/// w along -z and s along +z.
pub proof fn law_movement_key_moves_its_way(c: char, keys: StateMap, flags: DisplayFlags)
    requires
        spec_key_direction(c) matches Some(d) && d.1 == 0,
        !keys.x_pos && !keys.x_neg && !keys.y_pos && !keys.y_neg && !keys.z_pos && !keys.z_neg,
    ensures
        ({
            let d = spec_key_direction(c).unwrap();
            &&& spec_world_event(Button::A(c), true) is Some
            &&& spec_world_event(Button::A(c), false) is Some
            &&& ({
                let down = spec_handle(keys, flags, spec_world_event(Button::A(c), true).unwrap());
                let up = spec_handle(
                    down.0,
                    down.1,
                    spec_world_event(Button::A(c), false).unwrap(),
                );
                &&& spec_axis(down.0.x_pos, down.0.x_neg) == d.0
                &&& spec_axis(down.0.y_pos, down.0.y_neg) == d.1
                &&& spec_axis(down.0.z_pos, down.0.z_neg) == d.2
                &&& down.1 == flags
                &&& down.2 == RotationInput::NoRotation
                &&& spec_axis(up.0.x_pos, up.0.x_neg) == 0
                &&& spec_axis(up.0.y_pos, up.0.y_neg) == 0
                &&& spec_axis(up.0.z_pos, up.0.z_neg) == 0
            })
        }),
{
}

/// The other keys, pressed while nothing is held: q rolls right and e rolls
/// left; space moves up and the left control key down; n moves the background
/// on to the next clear colour and tab switches the wireframe setting. None
/// of them moves the camera along another axis or asks for a rotation.
pub proof fn law_other_keys_act_their_way(flags: DisplayFlags)
    ensures
        ({
            let rest = StateMap {
                x_pos: false,
                x_neg: false,
                y_pos: false,
                y_neg: false,
                z_pos: false,
                z_neg: false,
                roll_left: false,
                roll_right: false,
                wireframe: false,
                shift_background: false,
            };
            let q = spec_handle(rest, flags, spec_world_event(Button::A('q'), true).unwrap());
            let e = spec_handle(rest, flags, spec_world_event(Button::A('e'), true).unwrap());
            let up = spec_handle(rest, flags, spec_world_event(Button::A(' '), true).unwrap());
            let down = spec_handle(
                rest,
                flags,
                spec_world_event(Button::S(Key::Ctrl(Side::L)), true).unwrap(),
            );
            let n = spec_handle(rest, flags, spec_world_event(Button::A('n'), true).unwrap());
            let tab = spec_handle(rest, flags, spec_world_event(Button::S(Key::Tab), true).unwrap());
            &&& spec_world_event(Button::A('q'), true) is Some
            &&& spec_world_event(Button::A('e'), true) is Some
            &&& spec_world_event(Button::A(' '), true) is Some
            &&& spec_world_event(Button::S(Key::Ctrl(Side::L)), true) is Some
            &&& spec_world_event(Button::A('n'), true) is Some
            &&& spec_world_event(Button::S(Key::Tab), true) is Some
            &&& spec_axis(q.0.roll_right, q.0.roll_left) == 1 && q.1 == flags
            &&& spec_axis(e.0.roll_right, e.0.roll_left) == -1 && e.1 == flags
            &&& spec_axis(up.0.y_pos, up.0.y_neg) == 1 && up.1 == flags
            &&& spec_axis(down.0.y_pos, down.0.y_neg) == -1 && down.1 == flags
            &&& n.1.clear_color_mode == spec_next_clear_color_mode(flags.clear_color_mode)
            &&& n.1.is_wireframe == flags.is_wireframe
            &&& tab.1.is_wireframe == !flags.is_wireframe
            &&& tab.1.clear_color_mode == flags.clear_color_mode
            &&& forall|s: StateMap|
                s == q.0 || s == e.0 || s == up.0 || s == down.0 || s == n.0 || s == tab.0
                    ==> spec_axis(s.x_pos, s.x_neg) == 0 && spec_axis(s.z_pos, s.z_neg) == 0
            &&& q.2 == RotationInput::NoRotation && e.2 == RotationInput::NoRotation
            &&& up.2 == RotationInput::NoRotation && down.2 == RotationInput::NoRotation
        }),
{
}

/// Holding the wireframe key down, however many times it is reported,
/// switches the setting once: only when the key was up before.
pub proof fn law_held_wireframe_switches_once(keys: StateMap, flags: DisplayFlags)
    ensures
        ({
            let first = spec_handle(keys, flags, WorldEvent::ToggleWireFrame(true));
            let second = spec_handle(first.0, first.1, WorldEvent::ToggleWireFrame(true));
            &&& first.1.is_wireframe == (flags.is_wireframe != !keys.wireframe)
            &&& first.1.clear_color_mode == flags.clear_color_mode
            &&& second.0 == first.0
            &&& second.1 == first.1
        }),
{
    let first = spec_handle(keys, flags, WorldEvent::ToggleWireFrame(true));
    assert(first.0.wireframe);
    let second = spec_handle(first.0, first.1, WorldEvent::ToggleWireFrame(true));
    assert(second.1 == first.1);
}

/// Holding the background key down, however many times it is reported,
/// moves to the next colour once: only when the key was up before.
pub proof fn law_held_background_shifts_once(keys: StateMap, flags: DisplayFlags)
    ensures
        ({
            let first = spec_handle(keys, flags, WorldEvent::ShiftBackground(true));
            let second = spec_handle(first.0, first.1, WorldEvent::ShiftBackground(true));
            &&& first.1.clear_color_mode == (if keys.shift_background {
                flags.clear_color_mode
            } else {
                spec_next_clear_color_mode(flags.clear_color_mode)
            })
            &&& first.1.is_wireframe == flags.is_wireframe
            &&& second.0 == first.0
            &&& second.1 == first.1
        }),
{
    let first = spec_handle(keys, flags, WorldEvent::ShiftBackground(true));
    assert(first.0.shift_background);
    let second = spec_handle(first.0, first.1, WorldEvent::ShiftBackground(true));
    assert(second.1 == first.1);
}

/// Pressing and releasing the background key four times brings back the
/// colour it started on, passing through a different one on the way.
pub proof fn law_background_cycle(keys: StateMap, flags: DisplayFlags)
    requires
        !keys.shift_background,
        flags.clear_color_mode < CLEAR_COLOR_MODES,
    ensures
        ({
            let s1 = spec_handle(keys, flags, WorldEvent::ShiftBackground(true));
            let s2 = spec_handle(s1.0, s1.1, WorldEvent::ShiftBackground(false));
            let s3 = spec_handle(s2.0, s2.1, WorldEvent::ShiftBackground(true));
            let s4 = spec_handle(s3.0, s3.1, WorldEvent::ShiftBackground(false));
            let s5 = spec_handle(s4.0, s4.1, WorldEvent::ShiftBackground(true));
            let s6 = spec_handle(s5.0, s5.1, WorldEvent::ShiftBackground(false));
            let s7 = spec_handle(s6.0, s6.1, WorldEvent::ShiftBackground(true));
            let s8 = spec_handle(s7.0, s7.1, WorldEvent::ShiftBackground(false));
            &&& s1.1.clear_color_mode != flags.clear_color_mode
            &&& s8.1 == flags
            &&& s8.0 == keys
        }),
{
    reveal(spec_next_clear_color_mode);
    let m = flags.clear_color_mode;
    let s1 = spec_handle(keys, flags, WorldEvent::ShiftBackground(true));
    assert(s1.1.clear_color_mode == (m + 1) % 4);
    let s2 = spec_handle(s1.0, s1.1, WorldEvent::ShiftBackground(false));
    assert(s2.1 == s1.1 && !s2.0.shift_background);
    let s3 = spec_handle(s2.0, s2.1, WorldEvent::ShiftBackground(true));
    assert(s3.1.clear_color_mode == (m + 2) % 4);
    let s4 = spec_handle(s3.0, s3.1, WorldEvent::ShiftBackground(false));
    assert(s4.1 == s3.1 && !s4.0.shift_background);
    let s5 = spec_handle(s4.0, s4.1, WorldEvent::ShiftBackground(true));
    assert(s5.1.clear_color_mode == (m + 3) % 4);
    let s6 = spec_handle(s5.0, s5.1, WorldEvent::ShiftBackground(false));
    assert(s6.1 == s5.1 && !s6.0.shift_background);
    let s7 = spec_handle(s6.0, s6.1, WorldEvent::ShiftBackground(true));
    assert(s7.1.clear_color_mode == m);
    let s8 = spec_handle(s7.0, s7.1, WorldEvent::ShiftBackground(false));
    assert(s8.0 == keys);
}

} // verus!
