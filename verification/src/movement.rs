use vstd::prelude::*;

verus! {

/// How the mantis is driven.
#[derive(Clone, Copy, Debug, PartialEq, Eq, Structural)]
pub enum MovementMode {
    Mouse,
    Keyboard,
    Auto,
    Legacy,
}

/// The mode that follows `mode` in the cycle walked by the mode key:
/// mouse, keyboard, auto, and back to mouse. The legacy mode is outside the cycle.
pub open spec fn cycled(mode: MovementMode) -> MovementMode {
    match mode {
        MovementMode::Mouse => MovementMode::Keyboard,
        MovementMode::Keyboard => MovementMode::Auto,
        MovementMode::Auto => MovementMode::Mouse,
        MovementMode::Legacy => MovementMode::Legacy,
    }
}

/// The mode after one frame, given whether the mode key was just pressed.
pub fn switch_movement_mode(mode: MovementMode, mode_key_just_pressed: bool) -> (next: MovementMode)
    ensures
        next == (if mode_key_just_pressed { cycled(mode) } else { mode }),
        !mode_key_just_pressed ==> next == mode,
        mode_key_just_pressed && mode == MovementMode::Mouse ==> next == MovementMode::Keyboard,
        mode_key_just_pressed && mode == MovementMode::Keyboard ==> next == MovementMode::Auto,
        mode_key_just_pressed && mode == MovementMode::Auto ==> next == MovementMode::Mouse,
        mode == MovementMode::Legacy ==> next == MovementMode::Legacy,
{
    if mode_key_just_pressed {
        match mode {
            MovementMode::Mouse => MovementMode::Keyboard,
            MovementMode::Keyboard => MovementMode::Auto,
            MovementMode::Auto => MovementMode::Mouse,
            MovementMode::Legacy => MovementMode::Legacy,
        }
    } else {
        mode
    }
}

/// Whether the automatic (figure-eight) movement drives the mantis in `mode`.
pub fn auto_movement_enabled(mode: MovementMode) -> (enabled: bool)
    ensures
        enabled == (mode == MovementMode::Auto),
{
    match mode {
        MovementMode::Auto => true,
        _ => false,
    }
}

/// The movement keys held in a frame.
#[derive(Clone, Copy, Debug, PartialEq, Eq, Structural)]
pub struct HeldKeys {
    /// W: towards +z.
    pub forward: bool,
    /// S: towards -z.
    pub back: bool,
    /// A: towards -x.
    pub left: bool,
    /// D: towards +x.
    pub right: bool,
}

/// A unit heading on the ground plane: each component is -1, 0 or 1.
#[derive(Clone, Copy, Debug, PartialEq, Eq, Structural)]
pub struct Heading {
    pub x: i8,
    pub z: i8,
}

/// The heading that the held keys ask for. Forward wins over back and
/// left wins over right when both keys of a pair are held.
pub open spec fn heading_of(keys: HeldKeys) -> Heading {
    Heading {
        x: if keys.left { -1i8 } else if keys.right { 1i8 } else { 0i8 },
        z: if keys.forward { 1i8 } else if keys.back { -1i8 } else { 0i8 },
    }
}

/// What keyboard control does in `mode` with `keys` held: a heading in keyboard
/// mode, nothing in every other mode.
pub open spec fn keyboard_heading(mode: MovementMode, keys: HeldKeys) -> Option<Heading> {
    if mode == MovementMode::Keyboard {
        Some(heading_of(keys))
    } else {
        None
    }
}

/// The direction in which keyboard control moves the mantis this frame,
/// or `None` where the mode is not keyboard control (then nothing moves).
/// The caller scales the heading by the mantis's speed and the frame time.
pub fn keyboard_controls(mode: MovementMode, keys: HeldKeys) -> (heading: Option<Heading>)
    ensures
        heading == keyboard_heading(mode, keys),
        mode != MovementMode::Keyboard ==> heading is None,
        mode == MovementMode::Keyboard ==> (heading matches Some(h) && {
            &&& keys.forward ==> h.z == 1
            &&& !keys.forward && keys.back ==> h.z == -1
            &&& !keys.forward && !keys.back ==> h.z == 0
            &&& keys.left ==> h.x == -1
            &&& !keys.left && keys.right ==> h.x == 1
            &&& !keys.left && !keys.right ==> h.x == 0
        }),
{
    match mode {
        MovementMode::Keyboard => {},
        _ => {
            return None;
        },
    }
    let mut z: i8 = 0;
    if keys.forward {
        z = 1;
    } else if keys.back {
        z = -1;
    }
    let mut x: i8 = 0;
    if keys.left {
        x = -1;
    } else if keys.right {
        x = 1;
    }
    Some(Heading { x, z })
}

/// Three presses of the mode key bring every mode back to itself.
pub proof fn lemma_three_presses_return(mode: MovementMode)
    ensures
        cycled(cycled(cycled(mode))) == mode,
{
}

/// A press moves every mode of the cycle to another mode of the cycle;
/// the legacy mode is left as it is and is never entered from the cycle.
pub proof fn lemma_press_stays_in_cycle(mode: MovementMode)
    ensures
        mode != MovementMode::Legacy ==> cycled(mode) != mode && cycled(mode) != MovementMode::Legacy,
        mode == MovementMode::Legacy ==> cycled(mode) == MovementMode::Legacy,
{
}

/// The mode key walks mouse, keyboard, auto and back to mouse, and leaves the
/// legacy mode alone.
pub proof fn lemma_cycle_order()
    ensures
        cycled(MovementMode::Mouse) == MovementMode::Keyboard,
        cycled(MovementMode::Keyboard) == MovementMode::Auto,
        cycled(MovementMode::Auto) == MovementMode::Mouse,
        cycled(MovementMode::Legacy) == MovementMode::Legacy,
{
}

/// In keyboard mode the two axes are independent: the z component follows W
/// and S alone, the x component A and D alone.
pub proof fn lemma_axes_independent(keys: HeldKeys, other: HeldKeys)
    ensures
        keys.forward == other.forward && keys.back == other.back ==> heading_of(keys).z == heading_of(other).z,
        keys.left == other.left && keys.right == other.right ==> heading_of(keys).x == heading_of(other).x,
        keyboard_heading(MovementMode::Keyboard, keys) == Some(heading_of(keys)),
{
}

/// Keyboard control and automatic movement never drive the mantis in the same mode.
pub proof fn lemma_one_driver(mode: MovementMode, keys: HeldKeys)
    ensures
        mode == MovementMode::Auto ==> keyboard_heading(mode, keys) is None,
        keyboard_heading(mode, keys) is Some ==> mode != MovementMode::Auto,
{
}

/// Each component of a keyboard heading is -1, 0 or 1, and a held
/// forward (left) key decides the z (x) component whatever the opposite key.
pub proof fn lemma_heading_unit(keys: HeldKeys)
    ensures
        -1 <= heading_of(keys).x <= 1,
        -1 <= heading_of(keys).z <= 1,
        keys.forward ==> heading_of(keys).z == 1,
        keys.left ==> heading_of(keys).x == -1,
        !keys.forward && !keys.back ==> heading_of(keys).z == 0,
        !keys.left && !keys.right ==> heading_of(keys).x == 0,
        !keys.forward && keys.back ==> heading_of(keys).z == -1,
        !keys.left && keys.right ==> heading_of(keys).x == 1,
{
}

} // verus!
