//! Keyboard and mouse button state, tracked per frame, and the cursor grab
//! mode requested by the game.

use std::collections::HashMap;
use vstd::prelude::*;

verus! {

broadcast use vstd::std_specs::hash::group_hash_axioms;

/// Whether a key or button is held.
#[derive(Clone, Copy, PartialEq, Eq, Structural, Debug)]
pub enum KeyState {
    Pressed,
    Released,
}

impl KeyState {
    /// Whether this is the pressed state.
    pub fn is_pressed(&self) -> (r: bool)
        ensures
            r == (*self == KeyState::Pressed),
    {
        match self {
            KeyState::Pressed => true,
            KeyState::Released => false,
        }
    }
}

/// A mouse button.
#[derive(Clone, Copy, PartialEq, Eq, Structural, Debug)]
pub enum MouseButton {
    Left,
    Right,
    Middle,
    Back,
    Forward,
    Other(u16),
}

/// The number a mouse button is tracked under.
pub open spec fn button_code_spec(b: MouseButton) -> u32 {
    match b {
        MouseButton::Left => 0,
        MouseButton::Right => 1,
        MouseButton::Middle => 2,
        MouseButton::Back => 3,
        MouseButton::Forward => 4,
        MouseButton::Other(n) => (5 + n) as u32,
    }
}

/// The number a mouse button is tracked under; distinct buttons get
/// distinct numbers.
pub fn button_code(b: MouseButton) -> (r: u32)
    ensures
        r == button_code_spec(b),
{
    match b {
        MouseButton::Left => 0,
        MouseButton::Right => 1,
        MouseButton::Middle => 2,
        MouseButton::Back => 3,
        MouseButton::Forward => 4,
        MouseButton::Other(n) => 5 + n as u32,
    }
}

/// How the cursor is held by the window.
#[derive(Clone, Copy, PartialEq, Eq, Structural, Debug)]
pub enum CursorGrabMode {
    /// The cursor moves freely.
    Free,
    /// The cursor is kept inside the window.
    Confined,
    /// The cursor is locked in place.
    Locked,
}

/// An input event the manager keeps state for.
#[derive(Clone, Copy, PartialEq, Eq, Structural, Debug)]
pub enum InputEvent {
    /// A keyboard key, by its physical key code, changed state.
    Key { code: u32, state: KeyState },
    /// A mouse button changed state.
    Button { button: MouseButton, state: KeyState },
    /// Any other window event.
    Other,
}

/// Key and mouse button states, which of them changed during the current
/// frame, and the cursor grab mode.
pub struct InputManager {
    key_states: HashMap<u32, KeyState>,
    key_just_updated: Vec<u32>,
    button_states: HashMap<u32, KeyState>,
    button_just_updated: Vec<u32>,
    confined: bool,
    lock_on_next_frame: bool,
    unlock_on_next_frame: bool,
    current_mouse_mode: CursorGrabMode,
}

/// The state a map records for `k`; unknown keys are released.
pub open spec fn state_in(m: Map<u32, KeyState>, k: u32) -> KeyState {
    if m.contains_key(k) {
        m[k]
    } else {
        KeyState::Released
    }
}

/// The list of changed entries after `k` changes to `state`: a release is
/// always recorded; a press only when `k` was not held before.
pub open spec fn updates_after(updates: Seq<u32>, m: Map<u32, KeyState>, k: u32, state: KeyState) -> Seq<u32> {
    if state == KeyState::Released || state_in(m, k) == KeyState::Released {
        updates.push(k)
    } else {
        updates
    }
}

impl InputManager {
    /// The recorded key states.
    pub closed spec fn keys(self) -> Map<u32, KeyState> {
        self.key_states@
    }

    /// The keys that changed during the current frame, in order.
    pub closed spec fn key_updates(self) -> Seq<u32> {
        self.key_just_updated@
    }

    /// The recorded button states, by button number.
    pub closed spec fn buttons(self) -> Map<u32, KeyState> {
        self.button_states@
    }

    /// The buttons that changed during the current frame, in order.
    pub closed spec fn button_updates(self) -> Seq<u32> {
        self.button_just_updated@
    }

    /// Whether the cursor is confined to the window.
    pub closed spec fn confined_spec(self) -> bool {
        self.confined
    }

    /// Whether the cursor is to be grabbed at the next event.
    pub closed spec fn lock_pending(self) -> bool {
        self.lock_on_next_frame
    }

    /// Whether the cursor is to be released at the next event.
    pub closed spec fn unlock_pending(self) -> bool {
        self.unlock_on_next_frame
    }

    /// The cursor grab mode.
    pub closed spec fn mouse_mode(self) -> CursorGrabMode {
        self.current_mouse_mode
    }

    /// The state of key `code`.
    pub open spec fn key_state_spec(self, code: u32) -> KeyState {
        state_in(self.keys(), code)
    }

    /// The state of button `b`.
    pub open spec fn button_state_spec(self, b: MouseButton) -> KeyState {
        state_in(self.buttons(), button_code_spec(b))
    }

    /// No key or button known, nothing changed, the cursor free, and both a
    /// grab and a release pending.
    pub fn new() -> (r: InputManager)
        ensures
            r.keys() == Map::<u32, KeyState>::empty(),
            r.key_updates() == Seq::<u32>::empty(),
            r.buttons() == Map::<u32, KeyState>::empty(),
            r.button_updates() == Seq::<u32>::empty(),
            !r.confined_spec(),
            r.lock_pending(),
            r.unlock_pending(),
            r.mouse_mode() == CursorGrabMode::Free,
    {
        InputManager {
            key_states: HashMap::new(),
            key_just_updated: Vec::new(),
            button_states: HashMap::new(),
            button_just_updated: Vec::new(),
            confined: false,
            lock_on_next_frame: true,
            unlock_on_next_frame: true,
            current_mouse_mode: CursorGrabMode::Free,
        }
    }

    fn lookup(m: &HashMap<u32, KeyState>, k: u32) -> (r: KeyState)
        ensures
            r == state_in(m@, k),
    {
        match m.get(&k) {
            Some(s) => *s,
            None => KeyState::Released,
        }
    }

    /// The state of key `code`; keys never seen are released.
    pub fn get_key_state(&self, code: u32) -> (r: KeyState)
        ensures
            r == self.key_state_spec(code),
    {
        Self::lookup(&self.key_states, code)
    }

    /// The state of button `b`; buttons never seen are released.
    pub fn get_button_state(&self, b: MouseButton) -> (r: KeyState)
        ensures
            r == self.button_state_spec(b),
    {
        Self::lookup(&self.button_states, button_code(b))
    }
}

/// Whether `x` occurs in `v`.
fn contains_u32(v: &Vec<u32>, x: u32) -> (r: bool)
    ensures
        r == v@.contains(x),
{
    let mut i: usize = 0;
    while i < v.len()
        invariant
            0 <= i <= v@.len(),
            forall|j: int| 0 <= j < i ==> v@[j] != x,
        decreases v@.len() - i,
    {
        if v[i] == x {
            assert(v@[i as int] == x);
            return true;
        }
        i += 1;
    }
    false
}

/// The list of changed buttons after button `k` changes to `state`: a
/// release is always recorded; a press only when `k` is known to be
/// released, so the first press of a button never seen is no change.
/// Keys differ: their documentation makes a key's first press "just
/// pressed", while buttons have only the recording code to go by.
pub open spec fn button_updates_after(updates: Seq<u32>, m: Map<u32, KeyState>, k: u32, state: KeyState) -> Seq<u32> {
    if state == KeyState::Released || (m.contains_key(k) && m[k] == KeyState::Released) {
        updates.push(k)
    } else {
        updates
    }
}

impl InputManager {
    /// Key `code` was just pressed: it is held and changed this frame.
    pub open spec fn key_down_spec(self, code: u32) -> bool {
        self.key_state_spec(code) == KeyState::Pressed && self.key_updates().contains(code)
    }

    /// Key `code` was just released: it is up and changed this frame.
    pub open spec fn key_up_spec(self, code: u32) -> bool {
        self.key_state_spec(code) == KeyState::Released && self.key_updates().contains(code)
    }

    /// Records that key `code` changed to `state`.
    pub fn process_key(&mut self, code: u32, state: KeyState)
        ensures
            final(self).keys() == old(self).keys().insert(code, state),
            final(self).key_updates() == updates_after(old(self).key_updates(), old(self).keys(), code, state),
            final(self).buttons() == old(self).buttons(),
            final(self).button_updates() == old(self).button_updates(),
            final(self).confined_spec() == old(self).confined_spec(),
            final(self).lock_pending() == old(self).lock_pending(),
            final(self).unlock_pending() == old(self).unlock_pending(),
            final(self).mouse_mode() == old(self).mouse_mode(),
    {
        let before = Self::lookup(&self.key_states, code);
        if !state.is_pressed() || !before.is_pressed() {
            self.key_just_updated.push(code);
        }
        self.key_states.insert(code, state);
    }

    /// Records that button `button` changed to `state`; a press is a change
    /// only when the button is known to be released (see
    /// [`button_updates_after`]).
    pub fn process_button(&mut self, button: MouseButton, state: KeyState)
        ensures
            final(self).buttons() == old(self).buttons().insert(button_code_spec(button), state),
            final(self).button_updates() == button_updates_after(
                old(self).button_updates(),
                old(self).buttons(),
                button_code_spec(button),
                state,
            ),
            final(self).keys() == old(self).keys(),
            final(self).key_updates() == old(self).key_updates(),
            final(self).confined_spec() == old(self).confined_spec(),
            final(self).lock_pending() == old(self).lock_pending(),
            final(self).unlock_pending() == old(self).unlock_pending(),
            final(self).mouse_mode() == old(self).mouse_mode(),
    {
        let code = button_code(button);
        let known_released = match self.button_states.get(&code) {
            Some(s) => !s.is_pressed(),
            None => false,
        };
        if !state.is_pressed() || known_released {
            self.button_just_updated.push(code);
        }
        self.button_states.insert(code, state);
    }

    /// Handles a window event. A pending grab, or else a pending release, of
    /// the cursor is taken first and returned for the window to apply
    /// (`Some(true)` to grab, `Some(false)` to release); key and button
    /// events then update their state.
    pub fn process_event(&mut self, event: InputEvent) -> (r: Option<bool>)
        ensures
            r == if old(self).lock_pending() {
                Some(true)
            } else if old(self).unlock_pending() {
                Some(false)
            } else {
                None::<bool>
            },
            final(self).lock_pending() == false,
            final(self).unlock_pending() == (old(self).unlock_pending() && old(self).lock_pending()),
            final(self).confined_spec() == old(self).confined_spec(),
            final(self).mouse_mode() == old(self).mouse_mode(),
            match event {
                InputEvent::Key { code, state } => {
                    &&& final(self).keys() == old(self).keys().insert(code, state)
                    &&& final(self).key_updates() == updates_after(old(self).key_updates(), old(self).keys(), code, state)
                    &&& final(self).buttons() == old(self).buttons()
                    &&& final(self).button_updates() == old(self).button_updates()
                },
                InputEvent::Button { button, state } => {
                    &&& final(self).buttons() == old(self).buttons().insert(button_code_spec(button), state)
                    &&& final(self).button_updates() == button_updates_after(
                        old(self).button_updates(),
                        old(self).buttons(),
                        button_code_spec(button),
                        state,
                    )
                    &&& final(self).keys() == old(self).keys()
                    &&& final(self).key_updates() == old(self).key_updates()
                },
                InputEvent::Other => {
                    &&& final(self).keys() == old(self).keys()
                    &&& final(self).key_updates() == old(self).key_updates()
                    &&& final(self).buttons() == old(self).buttons()
                    &&& final(self).button_updates() == old(self).button_updates()
                },
            },
    {
        let mut mode_change: Option<bool> = None;
        if self.lock_on_next_frame {
            mode_change = Some(true);
            self.lock_on_next_frame = false;
        } else if self.unlock_on_next_frame {
            mode_change = Some(false);
            self.unlock_on_next_frame = false;
        }
        match event {
            InputEvent::Key { code, state } => self.process_key(code, state),
            InputEvent::Button { button, state } => self.process_button(button, state),
            InputEvent::Other => {},
        }
        mode_change
    }

    /// Records the cursor grab the window applied: grabbing confines the
    /// cursor, locked in place when the window could not confine it;
    /// releasing frees it.
    pub fn apply_mouse_mode(&mut self, locked: bool, confine_granted: bool)
        ensures
            final(self).mouse_mode() == if !locked {
                CursorGrabMode::Free
            } else if confine_granted {
                CursorGrabMode::Confined
            } else {
                CursorGrabMode::Locked
            },
            final(self).confined_spec() == locked,
            final(self).keys() == old(self).keys(),
            final(self).key_updates() == old(self).key_updates(),
            final(self).buttons() == old(self).buttons(),
            final(self).button_updates() == old(self).button_updates(),
            final(self).lock_pending() == old(self).lock_pending(),
            final(self).unlock_pending() == old(self).unlock_pending(),
    {
        if locked {
            self.current_mouse_mode = CursorGrabMode::Confined;
            self.confined = true;
            if !confine_granted {
                self.current_mouse_mode = CursorGrabMode::Locked;
            }
        } else {
            self.current_mouse_mode = CursorGrabMode::Free;
            self.confined = false;
        }
    }

    /// Requests that the cursor be grabbed (`locked`) or released at the
    /// next event.
    pub fn set_mouse_mode(&mut self, locked: bool)
        ensures
            final(self).lock_pending() == (old(self).lock_pending() || locked),
            final(self).unlock_pending() == (old(self).unlock_pending() || !locked),
            final(self).keys() == old(self).keys(),
            final(self).key_updates() == old(self).key_updates(),
            final(self).buttons() == old(self).buttons(),
            final(self).button_updates() == old(self).button_updates(),
            final(self).confined_spec() == old(self).confined_spec(),
            final(self).mouse_mode() == old(self).mouse_mode(),
    {
        if locked {
            self.lock_on_next_frame = true;
        } else {
            self.unlock_on_next_frame = true;
        }
    }

    /// The cursor grab mode.
    pub fn get_mouse_mode(&self) -> (r: CursorGrabMode)
        ensures
            r == self.mouse_mode(),
    {
        self.current_mouse_mode
    }

    /// Whether the cursor is confined to the window.
    pub fn is_confined(&self) -> (r: bool)
        ensures
            r == self.confined_spec(),
    {
        self.confined
    }

    /// Starts a new frame: no key or button has changed in it yet.
    pub fn next_frame(&mut self)
        ensures
            final(self).key_updates() == Seq::<u32>::empty(),
            final(self).button_updates() == Seq::<u32>::empty(),
            final(self).keys() == old(self).keys(),
            final(self).buttons() == old(self).buttons(),
            final(self).confined_spec() == old(self).confined_spec(),
            final(self).lock_pending() == old(self).lock_pending(),
            final(self).unlock_pending() == old(self).unlock_pending(),
            final(self).mouse_mode() == old(self).mouse_mode(),
    {
        self.key_just_updated.clear();
        self.button_just_updated.clear();
    }

    /// Only true if the key was just pressed.
    pub fn is_key_down(&self, code: u32) -> (r: bool)
        ensures
            r == self.key_down_spec(code),
    {
        self.get_key_state(code) == KeyState::Pressed && contains_u32(&self.key_just_updated, code)
    }

    /// True if the key was just pressed or is being held.
    pub fn is_key_pressed(&self, code: u32) -> (r: bool)
        ensures
            r == (self.key_state_spec(code) == KeyState::Pressed),
    {
        self.get_key_state(code) == KeyState::Pressed
    }

    /// True if the key was just released or is unpressed.
    pub fn is_key_released(&self, code: u32) -> (r: bool)
        ensures
            r == (self.key_state_spec(code) == KeyState::Released),
    {
        self.get_key_state(code) == KeyState::Released
    }

    /// Only true if the key was just released.
    pub fn is_key_up(&self, code: u32) -> (r: bool)
        ensures
            r == self.key_up_spec(code),
    {
        self.get_key_state(code) == KeyState::Released && contains_u32(&self.key_just_updated, code)
    }

    /// Whether button `b` is held and changed this frame.
    pub fn is_button_down(&self, b: MouseButton) -> (r: bool)
        ensures
            r == (self.button_state_spec(b) == KeyState::Pressed && self.button_updates().contains(
                button_code_spec(b),
            )),
    {
        self.get_button_state(b) == KeyState::Pressed && contains_u32(&self.button_just_updated, button_code(b))
    }

    /// Whether button `b` is held.
    pub fn is_button_pressed(&self, b: MouseButton) -> (r: bool)
        ensures
            r == (self.button_state_spec(b) == KeyState::Pressed),
    {
        self.get_button_state(b) == KeyState::Pressed
    }

    /// Whether button `b` is up and changed this frame.
    pub fn is_button_released(&self, b: MouseButton) -> (r: bool)
        ensures
            r == (self.button_state_spec(b) == KeyState::Released && self.button_updates().contains(
                button_code_spec(b),
            )),
    {
        self.get_button_state(b) == KeyState::Released && contains_u32(&self.button_just_updated, button_code(b))
    }
}

/// A key pressed while it was up counts as just pressed (down) until the
/// frame ends.
pub proof fn law_press_registers_down(m: InputManager, code: u32)
    requires
        m.key_state_spec(code) == KeyState::Released,
    ensures
        state_in(m.keys().insert(code, KeyState::Pressed), code) == KeyState::Pressed,
        updates_after(m.key_updates(), m.keys(), code, KeyState::Pressed).contains(code),
{
    assert(updates_after(m.key_updates(), m.keys(), code, KeyState::Pressed).last() == code);
}

/// A key released always counts as just released (up) until the frame ends.
pub proof fn law_release_registers_up(m: InputManager, code: u32)
    ensures
        state_in(m.keys().insert(code, KeyState::Released), code) == KeyState::Released,
        updates_after(m.key_updates(), m.keys(), code, KeyState::Released).contains(code),
{
    assert(updates_after(m.key_updates(), m.keys(), code, KeyState::Released).last() == code);
}

/// A repeated press of a held key records no new change.
pub proof fn law_held_key_not_repeated(m: InputManager, code: u32)
    requires
        m.key_state_spec(code) == KeyState::Pressed,
    ensures
        updates_after(m.key_updates(), m.keys(), code, KeyState::Pressed) == m.key_updates(),
{
}

/// At the start of a frame no key or button was just pressed or released.
pub proof fn law_fresh_frame_has_no_edges(m: InputManager, code: u32, b: MouseButton)
    requires
        m.key_updates() == Seq::<u32>::empty(),
        m.button_updates() == Seq::<u32>::empty(),
    ensures
        !m.key_down_spec(code),
        !m.key_up_spec(code),
        !m.button_updates().contains(button_code_spec(b)),
{
}

/// A key that is down is pressed; a key that is up is released.
pub proof fn law_edges_imply_levels(m: InputManager, code: u32)
    ensures
        m.key_down_spec(code) ==> m.key_state_spec(code) == KeyState::Pressed,
        m.key_up_spec(code) ==> m.key_state_spec(code) == KeyState::Released,
{
}

/// Distinct mouse buttons are tracked under distinct numbers.
pub proof fn law_button_code_injective(a: MouseButton, b: MouseButton)
    requires
        button_code_spec(a) == button_code_spec(b),
    ensures
        a == b,
{
}

} // verus!
