//! The terminal: it tracks the modifier keys and turns key presses into
//! actions. What an action writes is done by the caller.

use vstd::prelude::*;

pub mod keyboard;

use crate::kernel::tty::keyboard::{key_ascii, Key, KeyEvent};

verus! {

/// What a key press asks the terminal to do.
#[derive(Debug, Clone, Copy, PartialEq, Eq, Structural)]
pub enum KeyAction {
    Type(char),
    Backspace,
    Enter,
    Tab,
    ArrowUp,
    ArrowDown,
    ArrowLeft,
    ArrowRight,
    Ignore,
}

/// The state of the modifier keys.
pub struct Modifiers {
    pub control: bool,
    pub shift: bool,
    pub alt: bool,
    pub caps_lock: bool,
}

/// Whether a key types upper case: shift or caps lock, not both.
pub open spec fn uppercase(m: Modifiers) -> bool {
    m.shift != m.caps_lock
}

/// The modifiers after an event.
pub open spec fn next_modifiers(m: Modifiers, e: KeyEvent) -> Modifiers {
    match e {
        KeyEvent::Pressed(Key::LeftShift) | KeyEvent::Pressed(Key::RightShift) => Modifiers { shift: true, ..m },
        KeyEvent::Released(Key::LeftShift) | KeyEvent::Released(Key::RightShift) => Modifiers { shift: false, ..m },
        KeyEvent::Pressed(Key::LeftCtrl) | KeyEvent::Pressed(Key::RightCtrl) => Modifiers { control: true, ..m },
        KeyEvent::Released(Key::LeftCtrl) | KeyEvent::Released(Key::RightCtrl) => Modifiers { control: false, ..m },
        KeyEvent::Pressed(Key::LeftAlt) | KeyEvent::Pressed(Key::RightAlt) => Modifiers { alt: true, ..m },
        KeyEvent::Released(Key::LeftAlt) | KeyEvent::Released(Key::RightAlt) => Modifiers { alt: false, ..m },
        KeyEvent::Pressed(Key::CapsLock) => Modifiers { caps_lock: !m.caps_lock, ..m },
        _ => m,
    }
}

/// Whether the event is handled by the modifiers alone.
pub open spec fn is_modifier_event(e: KeyEvent) -> bool {
    match e {
        KeyEvent::Pressed(k) => k == Key::LeftShift || k == Key::RightShift || k == Key::LeftCtrl || k
            == Key::RightCtrl || k == Key::LeftAlt || k == Key::RightAlt || k == Key::CapsLock,
        KeyEvent::Released(_) => true,
    }
}

/// The action of a key press under the modifiers.
pub open spec fn key_action(m: Modifiers, k: Key) -> KeyAction {
    match k {
        Key::Backspace => KeyAction::Backspace,
        Key::Enter => KeyAction::Enter,
        Key::Tab => KeyAction::Tab,
        Key::Up => KeyAction::ArrowUp,
        Key::Down => KeyAction::ArrowDown,
        Key::Left => KeyAction::ArrowLeft,
        Key::Right => KeyAction::ArrowRight,
        _ => match key_ascii(k, uppercase(m)) {
            Some(c) => KeyAction::Type(c as char),
            None => KeyAction::Ignore,
        },
    }
}

/// The character an action writes.
pub open spec fn action_output(a: KeyAction) -> Option<char> {
    match a {
        KeyAction::Type(c) => Some(c),
        _ => None,
    }
}

/// The character an event writes under the modifiers.
pub open spec fn event_output(m: Modifiers, e: KeyEvent) -> Option<char> {
    if is_modifier_event(e) {
        None
    } else {
        match e {
            KeyEvent::Pressed(k) => action_output(key_action(m, k)),
            KeyEvent::Released(_) => None,
        }
    }
}

/// A terminal with a command handler of type `H`.
pub struct Tty<H> {
    pub command_handler: Option<H>,
    control_key_pressed: bool,
    shift_key_pressed: bool,
    alt_key_pressed: bool,
    caps_lock_active: bool,
}

impl<H> Tty<H> {
    /// The state of the modifier keys.
    pub closed spec fn modifiers(&self) -> Modifiers {
        Modifiers {
            control: self.control_key_pressed,
            shift: self.shift_key_pressed,
            alt: self.alt_key_pressed,
            caps_lock: self.caps_lock_active,
        }
    }

    /// The command handler.
    pub closed spec fn handler(&self) -> Option<H> {
        self.command_handler
    }

    /// A terminal with no modifier pressed and caps lock off.
    pub fn new(command_handler: Option<H>) -> (t: Self)
        ensures
            t.handler() == command_handler,
            t.modifiers() == (Modifiers { control: false, shift: false, alt: false, caps_lock: false }),
    {
        Self {
            command_handler,
            control_key_pressed: false,
            shift_key_pressed: false,
            alt_key_pressed: false,
            caps_lock_active: false,
        }
    }

    /// Takes one key event: modifier keys update the state, other key
    /// presses are turned into an action and performed. Gives back the
    /// character to write, if the event types one.
    pub fn handle_input(&mut self, event: KeyEvent) -> (typed: Option<char>)
        ensures
            final(self).modifiers() == next_modifiers(old(self).modifiers(), event),
            final(self).handler() == old(self).handler(),
            typed == event_output(old(self).modifiers(), event),
    {
        match event {
            KeyEvent::Pressed(Key::LeftShift) => {
                self.shift_key_pressed = true;
                None
            },
            KeyEvent::Released(Key::LeftShift) => {
                self.shift_key_pressed = false;
                None
            },
            KeyEvent::Pressed(Key::RightShift) => {
                self.shift_key_pressed = true;
                None
            },
            KeyEvent::Released(Key::RightShift) => {
                self.shift_key_pressed = false;
                None
            },
            KeyEvent::Pressed(Key::LeftCtrl) => {
                self.control_key_pressed = true;
                None
            },
            KeyEvent::Released(Key::LeftCtrl) => {
                self.control_key_pressed = false;
                None
            },
            KeyEvent::Pressed(Key::RightCtrl) => {
                self.control_key_pressed = true;
                None
            },
            KeyEvent::Released(Key::RightCtrl) => {
                self.control_key_pressed = false;
                None
            },
            KeyEvent::Pressed(Key::LeftAlt) => {
                self.alt_key_pressed = true;
                None
            },
            KeyEvent::Released(Key::LeftAlt) => {
                self.alt_key_pressed = false;
                None
            },
            KeyEvent::Pressed(Key::RightAlt) => {
                self.alt_key_pressed = true;
                None
            },
            KeyEvent::Released(Key::RightAlt) => {
                self.alt_key_pressed = false;
                None
            },
            KeyEvent::Pressed(Key::CapsLock) => {
                self.caps_lock_active = !self.caps_lock_active;
                None
            },
            KeyEvent::Pressed(u) => {
                let action = self.interpret_key(u);
                self.perform_action(action)
            },
            KeyEvent::Released(_) => None,
        }
    }

    /// Performs an action: typing a character writes it; the other
    /// actions do nothing yet. Gives back the character to write.
    pub fn perform_action(&self, action: KeyAction) -> (typed: Option<char>)
        ensures
            typed == action_output(action),
    {
        match action {
            KeyAction::Type(c) => Some(c),
            _ => None,
        }
    }

    /// Replaces the command handler.
    pub fn set_command_handler(&mut self, handler: Option<H>)
        ensures
            final(self).handler() == handler,
            final(self).modifiers() == old(self).modifiers(),
    {
        self.command_handler = handler;
    }

    fn interpret_key(&self, key: Key) -> (a: KeyAction)
        ensures
            a == key_action(self.modifiers(), key),
    {
        match key {
            Key::Backspace => KeyAction::Backspace,
            Key::Enter => KeyAction::Enter,
            Key::Tab => KeyAction::Tab,
            Key::Up => KeyAction::ArrowUp,
            Key::Down => KeyAction::ArrowDown,
            Key::Left => KeyAction::ArrowLeft,
            Key::Right => KeyAction::ArrowRight,
            c => match c.to_ascii(self.is_uppercase()) {
                Some(c) => KeyAction::Type(c as char),
                None => KeyAction::Ignore,
            },
        }
    }

    fn is_uppercase(&self) -> (b: bool)
        ensures
            b == uppercase(self.modifiers()),
    {
        self.shift_key_pressed ^ self.caps_lock_active
    }
}

/// Pressing caps lock twice leaves the modifiers as they were.
pub proof fn law_caps_lock_twice(m: Modifiers)
    ensures
        next_modifiers(next_modifiers(m, KeyEvent::Pressed(Key::CapsLock)), KeyEvent::Pressed(Key::CapsLock)) == m,
{
}

/// Caps lock turns the case of what a printable key types, whatever the
/// shift key does.
pub proof fn law_caps_lock_flips_case(m: Modifiers, lower: u8, upper: u8)
    ensures
        ({
            let k = Key::Printable { lower, upper };
            let m2 = next_modifiers(m, KeyEvent::Pressed(Key::CapsLock));
            &&& event_output(m, KeyEvent::Pressed(k)) == Some((if m.shift != m.caps_lock { upper } else { lower }) as char)
            &&& event_output(m2, KeyEvent::Pressed(k)) == Some((if m.shift != m.caps_lock { lower } else { upper }) as char)
        }),
{
}

/// Releasing a key never types anything.
pub proof fn law_release_types_nothing(m: Modifiers, k: Key)
    ensures
        event_output(m, KeyEvent::Released(k)) is None,
{
}

/// Either shift key sets shift while it is down and clears it when it comes
/// up, leaving the other modifiers alone; so after a shift key is released,
/// with caps lock off, a printable key types its lower-case code, and while
/// it is held, its upper-case code.
pub proof fn law_shift_keys(m: Modifiers, k: Key, lower: u8, upper: u8)
    requires
        k == Key::LeftShift || k == Key::RightShift,
    ensures
        ({
            let up = next_modifiers(m, KeyEvent::Released(k));
            let down = next_modifiers(m, KeyEvent::Pressed(k));
            let key = KeyEvent::Pressed(Key::Printable { lower, upper });
            &&& up == Modifiers { shift: false, ..m }
            &&& down == Modifiers { shift: true, ..m }
            &&& !m.caps_lock ==> event_output(up, key) == Some(lower as char)
            &&& !m.caps_lock ==> event_output(down, key) == Some(upper as char)
        }),
{
}

/// Either control key sets control while it is down and clears it when it
/// comes up, and either alt key does the same with alt; nothing else
/// changes, and neither types anything.
pub proof fn law_control_and_alt_keys(m: Modifiers, k: Key)
    ensures
        (k == Key::LeftCtrl || k == Key::RightCtrl) ==> ({
            &&& next_modifiers(m, KeyEvent::Pressed(k)) == (Modifiers { control: true, ..m })
            &&& next_modifiers(m, KeyEvent::Released(k)) == (Modifiers { control: false, ..m })
            &&& event_output(m, KeyEvent::Pressed(k)) is None
        }),
        (k == Key::LeftAlt || k == Key::RightAlt) ==> ({
            &&& next_modifiers(m, KeyEvent::Pressed(k)) == (Modifiers { alt: true, ..m })
            &&& next_modifiers(m, KeyEvent::Released(k)) == (Modifiers { alt: false, ..m })
            &&& event_output(m, KeyEvent::Pressed(k)) is None
        }),
        k == Key::CapsLock ==> (next_modifiers(m, KeyEvent::Pressed(k)) == (Modifiers {
            caps_lock: !m.caps_lock,
            ..m
        }) && next_modifiers(m, KeyEvent::Released(k)) == m),
{
}

} // verus!
