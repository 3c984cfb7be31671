//! From the state of keys, gamepad buttons and sticks, and mouse buttons to
//! the actions of a frame: each action is on when any of its sources is,
//! either while held or, for triggers, in the frame it is pressed.
use vstd::prelude::*;

use crate::error::Error;
use crate::geometry::{Pixels, Point};
use crate::inputmanager::{
    trigger_step, BinaryInput, CachedBinaryInput, InputRecorder, InputSnapshot, RecordOption, TriggerInput,
};

verus! {

/// The keys the game listens to.
#[derive(Debug, Clone, Copy, PartialEq, Eq, Structural)]
pub enum KeyboardKey {
    Escape,
    Space,
    Enter,
    W,
    A,
    S,
    D,
    Up,
    Down,
    Left,
    Right,
}

/// The gamepad buttons the game listens to.
#[derive(Debug, Clone, Copy, PartialEq, Eq, Structural)]
pub enum JoystickButton {
    Up,
    Down,
    Left,
    Right,
    North,
    South,
    East,
    West,
}

/// The gamepad stick axes the game listens to.
#[derive(Debug, Clone, Copy, PartialEq, Eq, Structural)]
pub enum JoystickAxis {
    Vertical,
    Horizontal,
}

/// The mouse buttons the game listens to.
#[derive(Debug, Clone, Copy, PartialEq, Eq, Structural)]
pub enum MouseButton {
    Left,
}

/// Where a stick axis stands: past the low threshold, past the high one,
/// or between them.
#[derive(Debug, Clone, Copy, PartialEq, Eq, Structural)]
pub enum AxisZone {
    Low,
    Middle,
    High,
}

pub open spec fn key_index(k: KeyboardKey) -> int {
    match k {
        KeyboardKey::Escape => 0,
        KeyboardKey::Space => 1,
        KeyboardKey::Enter => 2,
        KeyboardKey::W => 3,
        KeyboardKey::A => 4,
        KeyboardKey::S => 5,
        KeyboardKey::D => 6,
        KeyboardKey::Up => 7,
        KeyboardKey::Down => 8,
        KeyboardKey::Left => 9,
        KeyboardKey::Right => 10,
    }
}

fn key_slot(k: KeyboardKey) -> (r: usize)
    ensures
        r == key_index(k),
{
    match k {
        KeyboardKey::Escape => 0,
        KeyboardKey::Space => 1,
        KeyboardKey::Enter => 2,
        KeyboardKey::W => 3,
        KeyboardKey::A => 4,
        KeyboardKey::S => 5,
        KeyboardKey::D => 6,
        KeyboardKey::Up => 7,
        KeyboardKey::Down => 8,
        KeyboardKey::Left => 9,
        KeyboardKey::Right => 10,
    }
}

pub open spec fn button_index(b: JoystickButton) -> int {
    match b {
        JoystickButton::Up => 0,
        JoystickButton::Down => 1,
        JoystickButton::Left => 2,
        JoystickButton::Right => 3,
        JoystickButton::North => 4,
        JoystickButton::South => 5,
        JoystickButton::East => 6,
        JoystickButton::West => 7,
    }
}

fn button_slot(b: JoystickButton) -> (r: usize)
    ensures
        r == button_index(b),
{
    match b {
        JoystickButton::Up => 0,
        JoystickButton::Down => 1,
        JoystickButton::Left => 2,
        JoystickButton::Right => 3,
        JoystickButton::North => 4,
        JoystickButton::South => 5,
        JoystickButton::East => 6,
        JoystickButton::West => 7,
    }
}

/// What the devices hold down, and where the mouse is.
pub struct InputState {
    pub keys_down: Vec<bool>,
    pub joystick_buttons_down: Vec<bool>,
    /// Each axis's zone, once the axis has moved.
    pub joy_axes: Vec<Option<AxisZone>>,
    pub mouse_left_down: bool,
    pub mouse_position: Point<Pixels>,
    pub adjust_mouse_position: bool,
    pub window_width: i32,
    pub window_height: i32,
}

impl InputState {
    /// Whether there is a slot for each key, button and axis.
    pub open spec fn wf(&self) -> bool {
        &&& self.keys_down@.len() == 11
        &&& self.joystick_buttons_down@.len() == 8
        &&& self.joy_axes@.len() == 2
    }

    pub open spec fn key_down(&self, k: KeyboardKey) -> bool {
        self.keys_down@[key_index(k)]
    }

    pub open spec fn button_down(&self, b: JoystickButton) -> bool {
        self.joystick_buttons_down@[button_index(b)]
    }

    pub open spec fn axis(&self, a: JoystickAxis) -> Option<AxisZone> {
        self.joy_axes@[if a is Vertical { 0int } else { 1int }]
    }

    pub open spec fn mouse_down(&self, m: MouseButton) -> bool {
        self.mouse_left_down
    }

    pub open spec fn mouse(&self) -> Point<Pixels> {
        self.mouse_position
    }

    /// Whether mouse positions are scaled from the window to the screen.
    pub open spec fn adjusts(&self) -> bool {
        self.adjust_mouse_position
    }

    pub open spec fn window(&self) -> (i32, i32) {
        (self.window_width, self.window_height)
    }

    /// Nothing held, no axis moved, the mouse at the corner.
    pub fn new(window_width: i32, window_height: i32, adjust_mouse_position: bool) -> (r: InputState)
        ensures
            r.wf(),
            forall|k: KeyboardKey| !r.key_down(k),
            forall|b: JoystickButton| !r.button_down(b),
            forall|a: JoystickAxis| r.axis(a) is None,
            forall|m: MouseButton| !r.mouse_down(m),
            r.mouse().x.0 == 0 && r.mouse().y.0 == 0,
            r.adjusts() == adjust_mouse_position,
            r.window() == (window_width, window_height),
    {
        InputState {
            keys_down: vec![false, false, false, false, false, false, false, false, false, false, false],
            joystick_buttons_down: vec![false, false, false, false, false, false, false, false],
            joy_axes: vec![None, None],
            mouse_left_down: false,
            mouse_position: Point::<Pixels>::zero(),
            adjust_mouse_position,
            window_width,
            window_height,
        }
    }

    /// Whether the state is `old` with key `k` now held as `down`.
    pub open spec fn key_set(old: InputState, new: InputState, k: KeyboardKey, down: bool) -> bool {
        &&& forall|j: KeyboardKey| #[trigger] new.key_down(j) == if j == k { down } else { old.key_down(j) }
        &&& forall|b: JoystickButton| #[trigger] new.button_down(b) == old.button_down(b)
        &&& forall|a: JoystickAxis| #[trigger] new.axis(a) == old.axis(a)
        &&& forall|m: MouseButton| #[trigger] new.mouse_down(m) == old.mouse_down(m)
        &&& new.mouse() == old.mouse()
        &&& new.adjusts() == old.adjusts()
        &&& new.window() == old.window()
    }

    pub fn set_key(&mut self, key: KeyboardKey, down: bool)
        requires
            old(self).wf(),
        ensures
            final(self).wf(),
            Self::key_set(*old(self), *final(self), key, down),
    {
        let i = key_slot(key);
        self.keys_down.set(i, down);
        proof {
            assert forall|j: KeyboardKey| #[trigger] self.key_down(j) == if j == key { down } else { old(self).key_down(j) } by {
                if j != key {
                    assert(key_index(j) != key_index(key));
                }
            }
        }
    }

    pub fn set_key_down(&mut self, key: KeyboardKey)
        requires
            old(self).wf(),
        ensures
            final(self).wf(),
            Self::key_set(*old(self), *final(self), key, true),
    {
        self.set_key(key, true);
    }

    pub fn set_key_up(&mut self, key: KeyboardKey)
        requires
            old(self).wf(),
        ensures
            final(self).wf(),
            Self::key_set(*old(self), *final(self), key, false),
    {
        self.set_key(key, false);
    }

    pub fn is_key_down(&self, key: KeyboardKey) -> (r: bool)
        requires
            self.wf(),
        ensures
            r == self.key_down(key),
    {
        self.keys_down[key_slot(key)]
    }
}

impl InputState {
    /// Whether the state is `old` with only the given button, axis or mouse
    /// button changed as stated.
    pub open spec fn same_keys(old: InputState, new: InputState) -> bool {
        forall|k: KeyboardKey| #[trigger] new.key_down(k) == old.key_down(k)
    }

    pub fn set_joystick_button(&mut self, button: JoystickButton, down: bool)
        requires
            old(self).wf(),
        ensures
            final(self).wf(),
            Self::same_keys(*old(self), *final(self)),
            forall|b: JoystickButton| #[trigger] final(self).button_down(b) == if b == button { down } else { old(self).button_down(b) },
            forall|a: JoystickAxis| #[trigger] final(self).axis(a) == old(self).axis(a),
            forall|m: MouseButton| #[trigger] final(self).mouse_down(m) == old(self).mouse_down(m),
            final(self).mouse() == old(self).mouse(),
    {
        let i = button_slot(button);
        self.joystick_buttons_down.set(i, down);
        proof {
            assert forall|b: JoystickButton| #[trigger] self.button_down(b) == if b == button { down } else { old(self).button_down(b) } by {
                if b != button {
                    assert(button_index(b) != button_index(button));
                }
            }
        }
    }

    pub fn set_joystick_button_down(&mut self, button: JoystickButton)
        requires
            old(self).wf(),
        ensures
            final(self).wf(),
            Self::same_keys(*old(self), *final(self)),
            forall|b: JoystickButton| #[trigger] final(self).button_down(b) == if b == button { true } else { old(self).button_down(b) },
            forall|a: JoystickAxis| #[trigger] final(self).axis(a) == old(self).axis(a),
            forall|m: MouseButton| #[trigger] final(self).mouse_down(m) == old(self).mouse_down(m),
            final(self).mouse() == old(self).mouse(),
    {
        self.set_joystick_button(button, true);
    }

    pub fn set_joystick_button_up(&mut self, button: JoystickButton)
        requires
            old(self).wf(),
        ensures
            final(self).wf(),
            Self::same_keys(*old(self), *final(self)),
            forall|b: JoystickButton| #[trigger] final(self).button_down(b) == if b == button { false } else { old(self).button_down(b) },
            forall|a: JoystickAxis| #[trigger] final(self).axis(a) == old(self).axis(a),
            forall|m: MouseButton| #[trigger] final(self).mouse_down(m) == old(self).mouse_down(m),
            final(self).mouse() == old(self).mouse(),
    {
        self.set_joystick_button(button, false);
    }

    pub fn is_joystick_button_down(&self, button: JoystickButton) -> (r: bool)
        requires
            self.wf(),
        ensures
            r == self.button_down(button),
    {
        self.joystick_buttons_down[button_slot(button)]
    }

    /// Records where a stick axis now stands.
    pub fn set_joy_axis(&mut self, axis: JoystickAxis, zone: AxisZone)
        requires
            old(self).wf(),
        ensures
            final(self).wf(),
            Self::same_keys(*old(self), *final(self)),
            forall|b: JoystickButton| #[trigger] final(self).button_down(b) == old(self).button_down(b),
            forall|a: JoystickAxis| #[trigger] final(self).axis(a) == if a == axis { Some(zone) } else { old(self).axis(a) },
            forall|m: MouseButton| #[trigger] final(self).mouse_down(m) == old(self).mouse_down(m),
            final(self).mouse() == old(self).mouse(),
    {
        let i: usize = match axis {
            JoystickAxis::Vertical => 0,
            JoystickAxis::Horizontal => 1,
        };
        self.joy_axes.set(i, Some(zone));
    }

    pub fn set_mouse_button(&mut self, button: MouseButton, down: bool)
        requires
            old(self).wf(),
        ensures
            final(self).wf(),
            Self::same_keys(*old(self), *final(self)),
            forall|b: JoystickButton| #[trigger] final(self).button_down(b) == old(self).button_down(b),
            forall|a: JoystickAxis| #[trigger] final(self).axis(a) == old(self).axis(a),
            forall|m: MouseButton| #[trigger] final(self).mouse_down(m) == down,
            final(self).mouse() == old(self).mouse(),
    {
        self.mouse_left_down = down;
    }

    pub fn set_mouse_button_down(&mut self, button: MouseButton)
        requires
            old(self).wf(),
        ensures
            final(self).wf(),
            forall|m: MouseButton| #[trigger] final(self).mouse_down(m),
            Self::same_keys(*old(self), *final(self)),
    {
        self.set_mouse_button(button, true);
    }

    pub fn set_mouse_button_up(&mut self, button: MouseButton)
        requires
            old(self).wf(),
        ensures
            final(self).wf(),
            forall|m: MouseButton| !#[trigger] final(self).mouse_down(m),
            Self::same_keys(*old(self), *final(self)),
    {
        self.set_mouse_button(button, false);
    }

    pub fn is_mouse_button_down(&self, button: MouseButton) -> (r: bool)
        ensures
            r == self.mouse_down(button),
    {
        self.mouse_left_down
    }

    pub fn set_window_size(&mut self, width: i32, height: i32)
        ensures
            final(self).window() == (width, height),
            *final(self) == (InputState { window_width: width, window_height: height, ..*old(self) }),
    {
        self.window_width = width;
        self.window_height = height;
    }

    /// Records where the mouse is on the screen.
    pub fn set_mouse_position(&mut self, position: Point<Pixels>)
        ensures
            *final(self) == (InputState { mouse_position: position, ..*old(self) }),
    {
        self.mouse_position = position;
    }
}

/// Where an input reads from.
#[derive(Debug, Clone, Copy, PartialEq, Eq, Structural)]
pub enum InputSource {
    Key(KeyboardKey),
    Button(JoystickButton),
    /// A stick axis past its low threshold (if `low`) or its high one (if `high`).
    Axis { axis: JoystickAxis, low: bool, high: bool },
    Mouse(MouseButton),
}

/// Whether a source is on in a state.
pub open spec fn source_on(state: InputState, src: InputSource) -> bool {
    match src {
        InputSource::Key(k) => state.key_down(k),
        InputSource::Button(b) => state.button_down(b),
        InputSource::Axis { axis, low, high } => match state.axis(axis) {
            Some(AxisZone::Low) => low,
            Some(AxisZone::High) => high,
            _ => false,
        },
        InputSource::Mouse(m) => state.mouse_down(m),
    }
}

/// Reads a source.
pub fn read_source(state: &InputState, src: InputSource) -> (r: bool)
    requires
        state.wf(),
    ensures
        r == source_on(*state, src),
{
    match src {
        InputSource::Key(k) => state.is_key_down(k),
        InputSource::Button(b) => state.is_joystick_button_down(b),
        InputSource::Axis { axis, low, high } => {
            let i: usize = match axis {
                JoystickAxis::Vertical => 0,
                JoystickAxis::Horizontal => 1,
            };
            match state.joy_axes[i] {
                Some(AxisZone::Low) => low,
                Some(AxisZone::High) => high,
                _ => false,
            }
        },
        InputSource::Mouse(m) => state.is_mouse_button_down(m),
    }
}

/// One source of an action: on while held, or a trigger, on in the frame
/// it is pressed.
#[derive(Debug, Clone, Copy)]
pub enum Hook {
    Held(InputSource, CachedBinaryInput),
    Trigger(InputSource, TriggerInput),
}

/// Whether a hook is on.
pub open spec fn hook_on(h: Hook) -> bool {
    match h {
        Hook::Held(_, c) => c.on,
        Hook::Trigger(_, t) => t.on,
    }
}

/// A hook after following its source for a frame.
pub open spec fn hook_step(h: Hook, state: InputState) -> Hook {
    match h {
        Hook::Held(s, _) => Hook::Held(s, CachedBinaryInput { on: source_on(state, s) }),
        Hook::Trigger(s, t) => Hook::Trigger(s, trigger_step(t, source_on(state, s))),
    }
}

/// The source of a hook and whether it is a trigger.
pub open spec fn hook_kind(h: Hook) -> (InputSource, bool) {
    match h {
        Hook::Held(s, _) => (s, false),
        Hook::Trigger(s, _) => (s, true),
    }
}

/// An action: on when any of its hooks is.
pub struct AnyOfInput(pub Vec<Hook>);

/// The sources of each action, and which are triggers.
pub open spec fn sources_of(input: BinaryInput) -> Seq<(InputSource, bool)> {
    let key = |k: KeyboardKey| (InputSource::Key(k), false);
    let key_t = |k: KeyboardKey| (InputSource::Key(k), true);
    let btn = |b: JoystickButton| (InputSource::Button(b), false);
    let btn_t = |b: JoystickButton| (InputSource::Button(b), true);
    match input {
        BinaryInput::OkTrigger => seq![key_t(KeyboardKey::Enter), btn_t(JoystickButton::South)],
        BinaryInput::OkDown => seq![key(KeyboardKey::Enter), btn(JoystickButton::South)],
        BinaryInput::Cancel => seq![key_t(KeyboardKey::Escape), btn_t(JoystickButton::West)],
        BinaryInput::PlayerLeft => seq![key(KeyboardKey::Left), key(KeyboardKey::A), btn(JoystickButton::Left),
            (InputSource::Axis { axis: JoystickAxis::Horizontal, low: true, high: false }, false)],
        BinaryInput::PlayerRight => seq![key(KeyboardKey::Right), key(KeyboardKey::D), btn(JoystickButton::Right),
            (InputSource::Axis { axis: JoystickAxis::Horizontal, low: false, high: true }, false)],
        BinaryInput::PlayerCrouch => seq![key(KeyboardKey::Down), key(KeyboardKey::S), btn(JoystickButton::Down),
            (InputSource::Axis { axis: JoystickAxis::Vertical, low: false, high: true }, false)],
        BinaryInput::PlayerJumpTrigger => seq![key_t(KeyboardKey::Space), key_t(KeyboardKey::W), key_t(KeyboardKey::Up),
            btn_t(JoystickButton::South)],
        BinaryInput::PlayerJumpDown => seq![key(KeyboardKey::Space), key(KeyboardKey::W), key(KeyboardKey::Up),
            btn(JoystickButton::South)],
        BinaryInput::MenuDown => seq![key_t(KeyboardKey::Down), key_t(KeyboardKey::S), btn_t(JoystickButton::Down),
            (InputSource::Axis { axis: JoystickAxis::Vertical, low: false, high: true }, true)],
        BinaryInput::MenuUp => seq![key_t(KeyboardKey::W), key_t(KeyboardKey::Up), btn_t(JoystickButton::Up),
            (InputSource::Axis { axis: JoystickAxis::Vertical, low: true, high: false }, true)],
        BinaryInput::MenuLeft => seq![key_t(KeyboardKey::Left), key_t(KeyboardKey::A), btn_t(JoystickButton::Left),
            (InputSource::Axis { axis: JoystickAxis::Horizontal, low: true, high: false }, true)],
        BinaryInput::MenuRight => seq![key_t(KeyboardKey::D), key_t(KeyboardKey::Right), btn_t(JoystickButton::Right),
            (InputSource::Axis { axis: JoystickAxis::Horizontal, low: false, high: true }, true)],
        BinaryInput::MouseButtonLeft => seq![(InputSource::Mouse(MouseButton::Left), false)],
    }
}

fn hook(src: InputSource, trigger: bool) -> (r: Hook)
    ensures
        hook_kind(r) == (src, trigger),
        !hook_on(r),
        r matches Hook::Trigger(_, t) ==> !t.already_pressed,
{
    if trigger {
        Hook::Trigger(src, TriggerInput::new())
    } else {
        Hook::Held(src, CachedBinaryInput::new())
    }
}

/// The hooks of an action, all released.
pub fn create_input(input: BinaryInput) -> (r: AnyOfInput)
    ensures
        r.0@.len() == sources_of(input).len(),
        forall|i: int| 0 <= i < r.0@.len() ==> hook_kind(#[trigger] r.0@[i]) == sources_of(input)[i] && !hook_on(r.0@[i])
            && (r.0@[i] matches Hook::Trigger(_, t) ==> !t.already_pressed),
{
    let srcs: Vec<(InputSource, bool)> = match input {
        BinaryInput::OkTrigger => vec![(InputSource::Key(KeyboardKey::Enter), true), (InputSource::Button(JoystickButton::South), true)],
        BinaryInput::OkDown => vec![(InputSource::Key(KeyboardKey::Enter), false), (InputSource::Button(JoystickButton::South), false)],
        BinaryInput::Cancel => vec![(InputSource::Key(KeyboardKey::Escape), true), (InputSource::Button(JoystickButton::West), true)],
        BinaryInput::PlayerLeft => vec![(InputSource::Key(KeyboardKey::Left), false), (InputSource::Key(KeyboardKey::A), false),
            (InputSource::Button(JoystickButton::Left), false),
            (InputSource::Axis { axis: JoystickAxis::Horizontal, low: true, high: false }, false)],
        BinaryInput::PlayerRight => vec![(InputSource::Key(KeyboardKey::Right), false), (InputSource::Key(KeyboardKey::D), false),
            (InputSource::Button(JoystickButton::Right), false),
            (InputSource::Axis { axis: JoystickAxis::Horizontal, low: false, high: true }, false)],
        BinaryInput::PlayerCrouch => vec![(InputSource::Key(KeyboardKey::Down), false), (InputSource::Key(KeyboardKey::S), false),
            (InputSource::Button(JoystickButton::Down), false),
            (InputSource::Axis { axis: JoystickAxis::Vertical, low: false, high: true }, false)],
        BinaryInput::PlayerJumpTrigger => vec![(InputSource::Key(KeyboardKey::Space), true), (InputSource::Key(KeyboardKey::W), true),
            (InputSource::Key(KeyboardKey::Up), true), (InputSource::Button(JoystickButton::South), true)],
        BinaryInput::PlayerJumpDown => vec![(InputSource::Key(KeyboardKey::Space), false), (InputSource::Key(KeyboardKey::W), false),
            (InputSource::Key(KeyboardKey::Up), false), (InputSource::Button(JoystickButton::South), false)],
        BinaryInput::MenuDown => vec![(InputSource::Key(KeyboardKey::Down), true), (InputSource::Key(KeyboardKey::S), true),
            (InputSource::Button(JoystickButton::Down), true),
            (InputSource::Axis { axis: JoystickAxis::Vertical, low: false, high: true }, true)],
        BinaryInput::MenuUp => vec![(InputSource::Key(KeyboardKey::W), true), (InputSource::Key(KeyboardKey::Up), true),
            (InputSource::Button(JoystickButton::Up), true),
            (InputSource::Axis { axis: JoystickAxis::Vertical, low: true, high: false }, true)],
        BinaryInput::MenuLeft => vec![(InputSource::Key(KeyboardKey::Left), true), (InputSource::Key(KeyboardKey::A), true),
            (InputSource::Button(JoystickButton::Left), true),
            (InputSource::Axis { axis: JoystickAxis::Horizontal, low: true, high: false }, true)],
        BinaryInput::MenuRight => vec![(InputSource::Key(KeyboardKey::D), true), (InputSource::Key(KeyboardKey::Right), true),
            (InputSource::Button(JoystickButton::Right), true),
            (InputSource::Axis { axis: JoystickAxis::Horizontal, low: false, high: true }, true)],
        BinaryInput::MouseButtonLeft => vec![(InputSource::Mouse(MouseButton::Left), false)],
    };
    assert(srcs@ =~= sources_of(input));
    let mut hooks: Vec<Hook> = Vec::new();
    let mut i: usize = 0;
    while i < srcs.len()
        invariant
            i <= srcs@.len(),
            srcs@ == sources_of(input),
            hooks@.len() == i,
            forall|j: int| 0 <= j < i ==> hook_kind(#[trigger] hooks@[j]) == sources_of(input)[j] && !hook_on(hooks@[j])
                && (hooks@[j] matches Hook::Trigger(_, t) ==> !t.already_pressed),
        decreases srcs.len() - i,
    {
        let (src, trigger) = srcs[i];
        hooks.push(hook(src, trigger));
        i = i + 1;
    }
    AnyOfInput(hooks)
}

/// Whether any hook is on.
pub open spec fn any_on(hs: Seq<Hook>) -> bool {
    exists|i: int| 0 <= i < hs.len() && hook_on(#[trigger] hs[i])
}

/// The hooks after following their sources for a frame.
pub open spec fn hooks_stepped(hs: Seq<Hook>, state: InputState) -> Seq<Hook> {
    Seq::new(hs.len(), |i: int| hook_step(hs[i], state))
}

/// Whether a hook had its source pressed in the frame before.
pub open spec fn was_pressed(h: Hook) -> bool {
    match h {
        Hook::Held(_, c) => c.on,
        Hook::Trigger(_, t) => t.already_pressed,
    }
}

/// After a frame, an action made of held inputs is on exactly while one of
/// its sources is pressed, and one made of triggers (a click, such as a
/// jump's) exactly when one of its sources went down in that frame.
pub proof fn held_and_clicked_inputs(hs: Seq<Hook>, state: InputState)
    ensures
        (forall|i: int| 0 <= i < hs.len() ==> (#[trigger] hs[i]) is Held) ==> (any_on(hooks_stepped(hs, state))
            <==> exists|i: int| 0 <= i < hs.len() && source_on(state, (#[trigger] hook_kind(hs[i])).0)),
        (forall|i: int| 0 <= i < hs.len() ==> (#[trigger] hs[i]) is Trigger) ==> (any_on(hooks_stepped(hs, state))
            <==> exists|i: int| 0 <= i < hs.len() && source_on(state, (#[trigger] hook_kind(hs[i])).0) && !was_pressed(hs[i])),
{
    let st = hooks_stepped(hs, state);
    if forall|i: int| 0 <= i < hs.len() ==> (#[trigger] hs[i]) is Held {
        if any_on(st) {
            let i = choose|i: int| 0 <= i < st.len() && hook_on(#[trigger] st[i]);
            assert(source_on(state, hook_kind(hs[i]).0));
        }
        if exists|i: int| 0 <= i < hs.len() && source_on(state, (#[trigger] hook_kind(hs[i])).0) {
            let i = choose|i: int| 0 <= i < hs.len() && source_on(state, (#[trigger] hook_kind(hs[i])).0);
            assert(hook_on(st[i]));
        }
    }
    if forall|i: int| 0 <= i < hs.len() ==> (#[trigger] hs[i]) is Trigger {
        if any_on(st) {
            let i = choose|i: int| 0 <= i < st.len() && hook_on(#[trigger] st[i]);
            assert(hs[i] is Trigger);
            assert(source_on(state, hook_kind(hs[i]).0) && !was_pressed(hs[i]));
        }
        if exists|i: int| 0 <= i < hs.len() && source_on(state, (#[trigger] hook_kind(hs[i])).0) && !was_pressed(hs[i]) {
            let i = choose|i: int| 0 <= i < hs.len() && source_on(state, (#[trigger] hook_kind(hs[i])).0) && !was_pressed(hs[i]);
            assert(hs[i] is Trigger);
            assert(hook_on(st[i]));
        }
    }
}

/// A hook after following its source through the states of several
/// frames, one a frame.
pub open spec fn hook_run(h: Hook, states: Seq<InputState>) -> Hook
    decreases states.len(),
{
    if states.len() == 0 {
        h
    } else {
        hook_step(hook_run(h, states.drop_last()), states.last())
    }
}

/// Over a history of frames, a held input is on exactly while its key or
/// button is down in the latest frame; a click (a trigger, such as the
/// jump's) is on in a frame exactly when its key went down in that frame,
/// so holding the key keeps it off after the first frame.
pub proof fn held_and_clicked_history(h: Hook, states: Seq<InputState>)
    requires
        states.len() >= 1,
    ensures
        h is Held ==> hook_on(hook_run(h, states)) == source_on(states.last(), hook_kind(h).0),
        h is Trigger && states.len() >= 2 ==> hook_on(hook_run(h, states)) == (source_on(states.last(), hook_kind(h).0)
            && !source_on(states[states.len() - 2], hook_kind(h).0)),
        h is Trigger && states.len() == 1 ==> hook_on(hook_run(h, states)) == (source_on(states.last(), hook_kind(h).0)
            && !was_pressed(h)),
        hook_kind(hook_run(h, states)) == hook_kind(h),
    decreases states.len(),
{
    let init = states.drop_last();
    if states.len() >= 2 {
        held_and_clicked_history(h, init);
        assert(init.last() == states[states.len() - 2]);
        let prev = hook_run(h, init.drop_last());
        assert(hook_run(h, init) == hook_step(prev, init.last()));
    } else {
        assert(init.len() == 0);
        assert(hook_run(h, init) == h);
    }
}

impl AnyOfInput {
    /// Every hook follows its source for a frame.
    pub fn update(&mut self, state: &InputState)
        requires
            state.wf(),
        ensures
            final(self).0@.len() == old(self).0@.len(),
            forall|i: int| 0 <= i < old(self).0@.len() ==> #[trigger] final(self).0@[i] == hook_step(old(self).0@[i], *state),
    {
        let mut i: usize = 0;
        while i < self.0.len()
            invariant
                state.wf(),
                i <= self.0@.len(),
                self.0@.len() == old(self).0@.len(),
                forall|j: int| 0 <= j < i ==> #[trigger] self.0@[j] == hook_step(old(self).0@[j], *state),
                forall|j: int| i <= j < self.0@.len() ==> #[trigger] self.0@[j] == old(self).0@[j],
            decreases self.0.len() - i,
        {
            let h = self.0[i];
            let next = match h {
                Hook::Held(s, c) => {
                    let mut c2 = c;
                    c2.update(read_source(state, s));
                    Hook::Held(s, c2)
                },
                Hook::Trigger(s, t) => {
                    let mut t2 = t;
                    t2.update(read_source(state, s));
                    Hook::Trigger(s, t2)
                },
            };
            self.0.set(i, next);
            i = i + 1;
        }
    }

    /// Whether any hook is on.
    pub fn is_on(&self) -> (r: bool)
        ensures
            r == any_on(self.0@),
    {
        let mut i: usize = 0;
        while i < self.0.len()
            invariant
                i <= self.0@.len(),
                forall|j: int| 0 <= j < i ==> !hook_on(#[trigger] self.0@[j]),
            decreases self.0.len() - i,
        {
            let on = match self.0[i] {
                Hook::Held(_, c) => c.is_on(),
                Hook::Trigger(_, t) => t.is_on(),
            };
            if on {
                assert(hook_on(self.0@[i as int]));
                return true;
            }
            i = i + 1;
        }
        false
    }
}

/// The actions in the order the manager keeps their hooks.
pub open spec fn action_order() -> Seq<BinaryInput> {
    seq![
        BinaryInput::OkTrigger,
        BinaryInput::OkDown,
        BinaryInput::Cancel,
        BinaryInput::PlayerLeft,
        BinaryInput::PlayerRight,
        BinaryInput::PlayerCrouch,
        BinaryInput::PlayerJumpTrigger,
        BinaryInput::PlayerJumpDown,
        BinaryInput::MenuDown,
        BinaryInput::MenuUp,
        BinaryInput::MenuLeft,
        BinaryInput::MenuRight,
        BinaryInput::MouseButtonLeft,
    ]
}

/// The snapshot that the hooks of the actions, in action order, give.
pub open spec fn snapshot_of(hooks: Seq<AnyOfInput>, mouse: Point<Pixels>) -> InputSnapshot {
    InputSnapshot {
        ok_clicked: any_on(hooks[0].0@),
        ok_down: any_on(hooks[1].0@),
        cancel_clicked: any_on(hooks[2].0@),
        player_left_down: any_on(hooks[3].0@),
        player_right_down: any_on(hooks[4].0@),
        player_crouch_down: any_on(hooks[5].0@),
        player_jump_clicked: any_on(hooks[6].0@),
        player_jump_down: any_on(hooks[7].0@),
        menu_down_clicked: any_on(hooks[8].0@),
        menu_up_clicked: any_on(hooks[9].0@),
        menu_left_clicked: any_on(hooks[10].0@),
        menu_right_clicked: any_on(hooks[11].0@),
        mouse_button_left_down: any_on(hooks[12].0@),
        mouse_position: mouse,
    }
}

/// Where the inputs of each frame come from: the devices, or a record.
pub struct InputManager {
    pub state: InputState,
    pub previous_snapshot: Option<InputSnapshot>,
    /// The hooks of each action, in action order.
    pub binary_hooks: Vec<AnyOfInput>,
    pub record_option: RecordOption,
    pub recorder: InputRecorder,
}

impl InputManager {
    pub open spec fn wf(&self) -> bool {
        &&& self.state.wf()
        &&& self.binary_hooks@.len() == 13
    }

    /// A manager with every action released. To play a record back,
    /// `record` is the saved record's text; it is read as `InputRecorder::load`
    /// reads it.
    pub fn with_options(window_width: i32, window_height: i32, adjust_mouse_position: bool, record_option: RecordOption, record: &str) -> (r: Result<InputManager, Error>)
        ensures
            !(record_option is Playback) ==> r is Ok,
            record_option is Playback ==> (r is Ok <==> crate::inputmanager::record_fold(crate::text::split_seq(record@, '\n')).1 is None),
            r matches Ok(m) ==> {
                &&& m.wf()
                &&& m.state.wf()
                &&& forall|k: KeyboardKey| !#[trigger] m.state.key_down(k)
                &&& forall|b: JoystickButton| !#[trigger] m.state.button_down(b)
                &&& forall|a: JoystickAxis| #[trigger] m.state.axis(a) is None
                &&& m.state.adjusts() == adjust_mouse_position
                &&& m.state.window() == (window_width, window_height)
                &&& m.previous_snapshot is None
                &&& m.record_option == record_option
                &&& forall|k: int, i: int| 0 <= k < 13 && 0 <= i < sources_of(action_order()[k]).len()
                    ==> hook_kind(#[trigger] m.binary_hooks@[k].0@[i]) == sources_of(action_order()[k])[i] && !hook_on(m.binary_hooks@[k].0@[i])
                &&& forall|k: int| 0 <= k < 13 ==> #[trigger] m.binary_hooks@[k].0@.len() == sources_of(action_order()[k]).len()
                &&& record_option is Playback ==> crate::inputmanager::entries_view(m.recorder.queue@)
                    == crate::inputmanager::record_fold(crate::text::split_seq(record@, '\n')).0
                    && m.recorder.previous == 0
                &&& !(record_option is Playback) ==> m.recorder.queue@.len() == 0 && m.recorder.previous == 0
            },
    {
        let mut recorder = InputRecorder::new();
        if let RecordOption::Playback(_) = &record_option {
            recorder.load(record)?;
        }
        let inputs = crate::inputmanager::all_binary_inputs();
        let mut binary_hooks: Vec<AnyOfInput> = Vec::new();
        let mut i: usize = 0;
        while i < inputs.len()
            invariant
                inputs@ == action_order(),
                i <= inputs@.len(),
                binary_hooks@.len() == i,
                forall|k: int| 0 <= k < i ==> #[trigger] binary_hooks@[k].0@.len() == sources_of(action_order()[k]).len(),
                forall|k: int, j: int| 0 <= k < i && 0 <= j < sources_of(action_order()[k]).len()
                    ==> hook_kind(#[trigger] binary_hooks@[k].0@[j]) == sources_of(action_order()[k])[j] && !hook_on(binary_hooks@[k].0@[j]),
            decreases inputs.len() - i,
        {
            binary_hooks.push(create_input(inputs[i]));
            i = i + 1;
        }
        Ok(InputManager {
            state: InputState::new(window_width, window_height, adjust_mouse_position),
            previous_snapshot: None,
            binary_hooks,
            record_option,
            recorder,
        })
    }

    /// The inputs of `frame`: from the record when playing one back;
    /// otherwise every action's hooks follow the devices' state, the
    /// snapshot is read from them, and, when recording, it is recorded.
    pub fn update(&mut self, frame: u64) -> (r: InputSnapshot)
        requires
            old(self).wf(),
        ensures
            final(self).wf(),
            old(self).record_option is Playback ==> ({
                let q = old(self).recorder.queue@;
                &&& r == crate::inputmanager::snapshot_of_bits(final(self).recorder.previous)
                &&& q.len() > 0 && q[0].frame == frame ==> final(self).recorder.queue@ == q.drop_first()
                    && final(self).recorder.previous == q[0].snapshot
                &&& !(q.len() > 0 && q[0].frame == frame) ==> final(self).recorder == old(self).recorder
            }),
            !(old(self).record_option is Playback) ==> {
                &&& forall|k: int, i: int| 0 <= k < 13 && 0 <= i < old(self).binary_hooks@[k].0@.len()
                    ==> #[trigger] final(self).binary_hooks@[k].0@[i] == hook_step(old(self).binary_hooks@[k].0@[i], old(self).state)
                &&& forall|k: int| 0 <= k < 13 ==> #[trigger] final(self).binary_hooks@[k].0@.len() == old(self).binary_hooks@[k].0@.len()
                &&& r == snapshot_of(final(self).binary_hooks@, old(self).state.mouse_position)
                &&& old(self).record_option is Record ==> {
                    let w = crate::inputmanager::snapshot_bits(r);
                    &&& w == old(self).recorder.previous ==> final(self).recorder == old(self).recorder
                    &&& w != old(self).recorder.previous ==> final(self).recorder.previous == w
                        && crate::inputmanager::entries_view(final(self).recorder.queue@)
                        == crate::inputmanager::entries_view(old(self).recorder.queue@).push((frame, w))
                }
                &&& old(self).record_option is Off ==> final(self).recorder == old(self).recorder
            },
    {
        if let RecordOption::Playback(_) = &self.record_option {
            return self.recorder.playback(frame);
        }
        let mut k: usize = 0;
        let mut hooks: Vec<AnyOfInput> = Vec::new();
        std::mem::swap(&mut hooks, &mut self.binary_hooks);
        let ghost old_hooks = hooks@;
        while k < hooks.len()
            invariant
                self.state.wf(),
                self.state == old(self).state,
                hooks@.len() == 13,
                old_hooks == old(self).binary_hooks@,
                k <= 13,
                forall|j: int, i: int| 0 <= j < k && 0 <= i < old_hooks[j].0@.len() ==> #[trigger] hooks@[j].0@[i] == hook_step(old_hooks[j].0@[i], self.state),
                forall|j: int| 0 <= j < k ==> #[trigger] hooks@[j].0@.len() == old_hooks[j].0@.len(),
                forall|j: int| k <= j < 13 ==> #[trigger] hooks@[j] == old_hooks[j],
            decreases hooks.len() - k,
        {
            let mut any = AnyOfInput(Vec::new());
            std::mem::swap(&mut any, &mut hooks[k]);
            any.update(&self.state);
            hooks.set(k, any);
            k = k + 1;
        }
        let snapshot = InputSnapshot {
            ok_clicked: hooks[0].is_on(),
            ok_down: hooks[1].is_on(),
            cancel_clicked: hooks[2].is_on(),
            player_left_down: hooks[3].is_on(),
            player_right_down: hooks[4].is_on(),
            player_crouch_down: hooks[5].is_on(),
            player_jump_clicked: hooks[6].is_on(),
            player_jump_down: hooks[7].is_on(),
            menu_down_clicked: hooks[8].is_on(),
            menu_up_clicked: hooks[9].is_on(),
            menu_left_clicked: hooks[10].is_on(),
            menu_right_clicked: hooks[11].is_on(),
            mouse_button_left_down: hooks[12].is_on(),
            mouse_position: self.state.mouse_position,
        };
        self.binary_hooks = hooks;
        self.previous_snapshot = Some(snapshot);
        if let RecordOption::Record(_) = &self.record_option {
            self.recorder.record(frame, &snapshot);
        }
        snapshot
    }
}

} // verus!
