//! The typed events that flow between the engine, the router and the host
//! shell, together with the wildcard-aware matching rule used for
//! subscriptions: a pattern matches an event of the same category when either
//! side is the category's `Any` variant or both carry the same variant.

use vstd::prelude::*;

verus! {

/// A logical keyboard key: the sixteen keys of the hex keypad layout, the
/// function keys the router reacts to, and everything else.
#[derive(Debug, Eq, PartialEq, Copy, Clone, Structural)]
pub enum Key {
    Kp1,
    Kp2,
    Kp3,
    Kp4,
    Q,
    W,
    E,
    R,
    A,
    S,
    D,
    F,
    Z,
    X,
    C,
    V,
    F1,
    F2,
    F3,
    F4,
    F5,
    F6,
    F7,
    F8,
    F9,
    F10,
    F11,
    Escape,
    Other,
}

/// A pointer-device button.
#[derive(Debug, Eq, PartialEq, Copy, Clone, Structural)]
pub enum MouseButton {
    Left,
    Middle,
    Right,
    Other,
}

/// The hex digit a key maps to under the keypad layout, if any.
pub open spec fn key_hex(k: Key) -> Option<u8> {
    match k {
        Key::Kp1 => Some(0x1u8),
        Key::Kp2 => Some(0x2u8),
        Key::Kp3 => Some(0x3u8),
        Key::Kp4 => Some(0xCu8),
        Key::Q => Some(0x4u8),
        Key::W => Some(0x5u8),
        Key::E => Some(0x6u8),
        Key::R => Some(0xDu8),
        Key::A => Some(0x7u8),
        Key::S => Some(0x8u8),
        Key::D => Some(0x9u8),
        Key::F => Some(0xEu8),
        Key::Z => Some(0xAu8),
        Key::X => Some(0x0u8),
        Key::C => Some(0xBu8),
        Key::V => Some(0xFu8),
        _ => None,
    }
}

/// The key a hex digit maps to under the keypad layout, if any.
pub open spec fn hex_key(h: u8) -> Option<Key> {
    match h {
        0x0u8 => Some(Key::X),
        0x1u8 => Some(Key::Kp1),
        0x2u8 => Some(Key::Kp2),
        0x3u8 => Some(Key::Kp3),
        0x4u8 => Some(Key::Q),
        0x5u8 => Some(Key::W),
        0x6u8 => Some(Key::E),
        0x7u8 => Some(Key::A),
        0x8u8 => Some(Key::S),
        0x9u8 => Some(Key::D),
        0xAu8 => Some(Key::Z),
        0xBu8 => Some(Key::C),
        0xCu8 => Some(Key::Kp4),
        0xDu8 => Some(Key::R),
        0xEu8 => Some(Key::F),
        0xFu8 => Some(Key::V),
        _ => None,
    }
}

/// Maps a key to the hex digit it stands for on the keypad.
pub trait ScancodeToHex {
    /// The hex digit of the key, if it is part of the keypad layout.
    fn try_into_hex(&self) -> Option<u8>;
}

impl ScancodeToHex for Key {
    fn try_into_hex(&self) -> (r: Option<u8>)
        ensures
            r == key_hex(*self),
    {
        match self {
            Key::Kp1 => Some(0x1),
            Key::Kp2 => Some(0x2),
            Key::Kp3 => Some(0x3),
            Key::Kp4 => Some(0xC),
            Key::Q => Some(0x4),
            Key::W => Some(0x5),
            Key::E => Some(0x6),
            Key::R => Some(0xD),
            Key::A => Some(0x7),
            Key::S => Some(0x8),
            Key::D => Some(0x9),
            Key::F => Some(0xE),
            Key::Z => Some(0xA),
            Key::X => Some(0x0),
            Key::C => Some(0xB),
            Key::V => Some(0xF),
            _ => None,
        }
    }
}

/// Maps a hex digit back to the keypad key that produces it.
pub trait HexToScancode {
    /// The keypad key for this hex digit, if the digit is below sixteen.
    fn try_into_scancode(&self) -> Option<Key>;
}

impl HexToScancode for u8 {
    fn try_into_scancode(&self) -> (r: Option<Key>)
        ensures
            r == hex_key(*self),
    {
        match *self {
            0x0 => Some(Key::X),
            0x1 => Some(Key::Kp1),
            0x2 => Some(Key::Kp2),
            0x3 => Some(Key::Kp3),
            0x4 => Some(Key::Q),
            0x5 => Some(Key::W),
            0x6 => Some(Key::E),
            0x7 => Some(Key::A),
            0x8 => Some(Key::S),
            0x9 => Some(Key::D),
            0xA => Some(Key::Z),
            0xB => Some(Key::C),
            0xC => Some(Key::Kp4),
            0xD => Some(Key::R),
            0xE => Some(Key::F),
            0xF => Some(Key::V),
            _ => None,
        }
    }
}

/// Typed events with a category-level wildcard variant, compared with the
/// wildcard-aware matching rule of [`event_matches`].
pub trait Event: Sized {
    /// Whether this value is the category's wildcard variant.
    spec fn spec_is_any(&self) -> bool;

    /// Whether the two values carry the same variant; for nested categories
    /// the carried payloads are matched with the wildcard rule in turn.
    spec fn spec_same_kind(&self, other: &Self) -> bool;

    /// Whether this value is the wildcard variant.
    fn is_any(&self) -> (r: bool)
        ensures
            r == self.spec_is_any(),
    ;

    /// Whether the two values carry the same variant.
    fn compare_value(&self, other: &Self) -> (r: bool)
        ensures
            r == self.spec_same_kind(other),
    ;

    /// The subscription matching rule: either side is the wildcard, or both
    /// carry the same variant.
    fn equals(&self, other: &Self) -> (r: bool)
        ensures
            r == (self.spec_is_any() || other.spec_is_any() || self.spec_same_kind(other)),
    ;
}

/// The wildcard-aware matching rule: a pattern matches an event when either
/// is the category wildcard or both carry the same variant.
pub open spec fn event_matches<T: Event>(a: T, b: T) -> bool {
    a.spec_is_any() || b.spec_is_any() || a.spec_same_kind(&b)
}

/// An event produced by or aimed at the execution engine.
#[derive(Debug, Eq, PartialEq, Copy, Clone, Structural)]
pub enum InterpreterEvent {
    /// Force one logical pixel to the given colour, bypassing collision rules.
    SetPixel(usize, usize, bool),
    /// Ask the engine to re-emit the whole framebuffer.
    RedrawAll,
    /// Write a snapshot to the quicksave slot.
    QuickSave,
    /// Restore the newest quicksave.
    QuickLoad,
    /// Write a snapshot to a caller-chosen place.
    Save,
    /// Restore a snapshot from a caller-chosen place.
    Load,
    /// The subscription wildcard; never a real payload.
    Any,
}

impl Event for InterpreterEvent {
    open spec fn spec_is_any(&self) -> bool {
        match self {
            InterpreterEvent::Any => true,
            _ => false,
        }
    }

    open spec fn spec_same_kind(&self, other: &Self) -> bool {
        match (self, other) {
            (InterpreterEvent::SetPixel(..), InterpreterEvent::SetPixel(..)) => true,
            (InterpreterEvent::RedrawAll, InterpreterEvent::RedrawAll) => true,
            (InterpreterEvent::QuickSave, InterpreterEvent::QuickSave) => true,
            (InterpreterEvent::QuickLoad, InterpreterEvent::QuickLoad) => true,
            (InterpreterEvent::Save, InterpreterEvent::Save) => true,
            (InterpreterEvent::Load, InterpreterEvent::Load) => true,
            (InterpreterEvent::Any, InterpreterEvent::Any) => true,
            _ => false,
        }
    }

    fn is_any(&self) -> (r: bool) {
        match self {
            InterpreterEvent::Any => true,
            _ => false,
        }
    }

    fn compare_value(&self, other: &Self) -> (r: bool) {
        match (self, other) {
            (InterpreterEvent::SetPixel(..), InterpreterEvent::SetPixel(..)) => true,
            (InterpreterEvent::RedrawAll, InterpreterEvent::RedrawAll) => true,
            (InterpreterEvent::QuickSave, InterpreterEvent::QuickSave) => true,
            (InterpreterEvent::QuickLoad, InterpreterEvent::QuickLoad) => true,
            (InterpreterEvent::Save, InterpreterEvent::Save) => true,
            (InterpreterEvent::Load, InterpreterEvent::Load) => true,
            (InterpreterEvent::Any, InterpreterEvent::Any) => true,
            _ => false,
        }
    }

    fn equals(&self, other: &Self) -> (r: bool) {
        self.is_any() || other.is_any() || self.compare_value(other)
    }
}

/// An event aimed at the rendering surface.
#[derive(Debug, Eq, PartialEq, Copy, Clone, Structural)]
pub enum ScreenEvent {
    /// Blank the surface.
    Clear,
    /// Present the current frame.
    Update,
    /// Switch between windowed and fullscreen drawing.
    ToggleFullscreen,
    /// Repaint every pixel from the engine's framebuffer.
    RedrawAll,
    /// One physical pixel changed to the given colour.
    DrawPixel(usize, usize, bool),
    /// Move the viewport down by the given number of pixels.
    ScrollDown(isize),
    /// Move the viewport sideways by the given number of pixels.
    ScrollSide(isize),
    /// The subscription wildcard; never a real payload.
    Any,
}

impl Event for ScreenEvent {
    open spec fn spec_is_any(&self) -> bool {
        match self {
            ScreenEvent::Any => true,
            _ => false,
        }
    }

    open spec fn spec_same_kind(&self, other: &Self) -> bool {
        match (self, other) {
            (ScreenEvent::Clear, ScreenEvent::Clear) => true,
            (ScreenEvent::Update, ScreenEvent::Update) => true,
            (ScreenEvent::ToggleFullscreen, ScreenEvent::ToggleFullscreen) => true,
            (ScreenEvent::RedrawAll, ScreenEvent::RedrawAll) => true,
            (ScreenEvent::DrawPixel(..), ScreenEvent::DrawPixel(..)) => true,
            (ScreenEvent::ScrollDown(..), ScreenEvent::ScrollDown(..)) => true,
            (ScreenEvent::ScrollSide(..), ScreenEvent::ScrollSide(..)) => true,
            (ScreenEvent::Any, ScreenEvent::Any) => true,
            _ => false,
        }
    }

    fn is_any(&self) -> (r: bool) {
        match self {
            ScreenEvent::Any => true,
            _ => false,
        }
    }

    fn compare_value(&self, other: &Self) -> (r: bool) {
        match (self, other) {
            (ScreenEvent::Clear, ScreenEvent::Clear) => true,
            (ScreenEvent::Update, ScreenEvent::Update) => true,
            (ScreenEvent::ToggleFullscreen, ScreenEvent::ToggleFullscreen) => true,
            (ScreenEvent::RedrawAll, ScreenEvent::RedrawAll) => true,
            (ScreenEvent::DrawPixel(..), ScreenEvent::DrawPixel(..)) => true,
            (ScreenEvent::ScrollDown(..), ScreenEvent::ScrollDown(..)) => true,
            (ScreenEvent::ScrollSide(..), ScreenEvent::ScrollSide(..)) => true,
            (ScreenEvent::Any, ScreenEvent::Any) => true,
            _ => false,
        }
    }

    fn equals(&self, other: &Self) -> (r: bool) {
        self.is_any() || other.is_any() || self.compare_value(other)
    }
}

/// An event aimed at the audio device.
#[derive(Debug, Eq, PartialEq, Copy, Clone, Structural)]
pub enum AudioEvent {
    /// Start (`true`) or silence (`false`) the buzzer.
    Buzz(bool),
    /// The subscription wildcard; never a real payload.
    Any,
}

impl Event for AudioEvent {
    open spec fn spec_is_any(&self) -> bool {
        match self {
            AudioEvent::Any => true,
            _ => false,
        }
    }

    open spec fn spec_same_kind(&self, other: &Self) -> bool {
        match (self, other) {
            (AudioEvent::Buzz(..), AudioEvent::Buzz(..)) => true,
            (AudioEvent::Any, AudioEvent::Any) => true,
            _ => false,
        }
    }

    fn is_any(&self) -> (r: bool) {
        match self {
            AudioEvent::Any => true,
            _ => false,
        }
    }

    fn compare_value(&self, other: &Self) -> (r: bool) {
        match (self, other) {
            (AudioEvent::Buzz(..), AudioEvent::Buzz(..)) => true,
            (AudioEvent::Any, AudioEvent::Any) => true,
            _ => false,
        }
    }

    fn equals(&self, other: &Self) -> (r: bool) {
        self.is_any() || other.is_any() || self.compare_value(other)
    }
}

/// An event about the application window.
#[derive(Debug, Eq, PartialEq, Copy, Clone, Structural)]
pub enum AppEvent {
    /// The window was resized to the given width and height.
    WindowSizeChange(i32, i32),
    /// The window gained (`true`) or lost (`false`) input focus.
    SetFocus(bool),
    /// The subscription wildcard; never a real payload.
    Any,
}

impl Event for AppEvent {
    open spec fn spec_is_any(&self) -> bool {
        match self {
            AppEvent::Any => true,
            _ => false,
        }
    }

    open spec fn spec_same_kind(&self, other: &Self) -> bool {
        match (self, other) {
            (AppEvent::WindowSizeChange(..), AppEvent::WindowSizeChange(..)) => true,
            (AppEvent::SetFocus(..), AppEvent::SetFocus(..)) => true,
            (AppEvent::Any, AppEvent::Any) => true,
            _ => false,
        }
    }

    fn is_any(&self) -> (r: bool) {
        match self {
            AppEvent::Any => true,
            _ => false,
        }
    }

    fn compare_value(&self, other: &Self) -> (r: bool) {
        match (self, other) {
            (AppEvent::WindowSizeChange(..), AppEvent::WindowSizeChange(..)) => true,
            (AppEvent::SetFocus(..), AppEvent::SetFocus(..)) => true,
            (AppEvent::Any, AppEvent::Any) => true,
            _ => false,
        }
    }

    fn equals(&self, other: &Self) -> (r: bool) {
        self.is_any() || other.is_any() || self.compare_value(other)
    }
}

/// A raw input event from keyboard or pointer device.
#[derive(Debug, Eq, PartialEq, Copy, Clone, Structural)]
pub enum InputEvent {
    /// A key is being held this frame.
    KeyPress(Key),
    /// A key went down.
    KeyDown(Key),
    /// A key went up.
    KeyUp(Key),
    /// All held keys were released, for instance on focus loss.
    ClearKeys,
    /// A mouse button went down.
    MouseButtonDown(MouseButton),
    /// A mouse button is being held this frame.
    MouseButtonPress(MouseButton),
    /// A mouse button went up.
    MouseButtonUp(MouseButton),
    /// All held mouse buttons were released.
    ClearMouseButtons,
    /// The pointer moved to the given logical coordinates.
    UpdateMouseCoordinates(i32, i32),
    /// The subscription wildcard; never a real payload.
    Any,
}

impl Event for InputEvent {
    open spec fn spec_is_any(&self) -> bool {
        match self {
            InputEvent::Any => true,
            _ => false,
        }
    }

    open spec fn spec_same_kind(&self, other: &Self) -> bool {
        match (self, other) {
            (InputEvent::KeyPress(..), InputEvent::KeyPress(..)) => true,
            (InputEvent::KeyDown(..), InputEvent::KeyDown(..)) => true,
            (InputEvent::KeyUp(..), InputEvent::KeyUp(..)) => true,
            (InputEvent::ClearKeys, InputEvent::ClearKeys) => true,
            (InputEvent::MouseButtonDown(..), InputEvent::MouseButtonDown(..)) => true,
            (InputEvent::MouseButtonPress(..), InputEvent::MouseButtonPress(..)) => true,
            (InputEvent::MouseButtonUp(..), InputEvent::MouseButtonUp(..)) => true,
            (InputEvent::ClearMouseButtons, InputEvent::ClearMouseButtons) => true,
            (InputEvent::UpdateMouseCoordinates(..), InputEvent::UpdateMouseCoordinates(..)) => true,
            (InputEvent::Any, InputEvent::Any) => true,
            _ => false,
        }
    }

    fn is_any(&self) -> (r: bool) {
        match self {
            InputEvent::Any => true,
            _ => false,
        }
    }

    fn compare_value(&self, other: &Self) -> (r: bool) {
        match (self, other) {
            (InputEvent::KeyPress(..), InputEvent::KeyPress(..)) => true,
            (InputEvent::KeyDown(..), InputEvent::KeyDown(..)) => true,
            (InputEvent::KeyUp(..), InputEvent::KeyUp(..)) => true,
            (InputEvent::ClearKeys, InputEvent::ClearKeys) => true,
            (InputEvent::MouseButtonDown(..), InputEvent::MouseButtonDown(..)) => true,
            (InputEvent::MouseButtonPress(..), InputEvent::MouseButtonPress(..)) => true,
            (InputEvent::MouseButtonUp(..), InputEvent::MouseButtonUp(..)) => true,
            (InputEvent::ClearMouseButtons, InputEvent::ClearMouseButtons) => true,
            (InputEvent::UpdateMouseCoordinates(..), InputEvent::UpdateMouseCoordinates(..)) => true,
            (InputEvent::Any, InputEvent::Any) => true,
            _ => false,
        }
    }

    fn equals(&self, other: &Self) -> (r: bool) {
        self.is_any() || other.is_any() || self.compare_value(other)
    }
}

/// The one event type every queue carries: a category tag with a
/// category-specific payload.
#[derive(Debug, Eq, PartialEq, Copy, Clone, Structural)]
pub enum IncomingEvent {
    /// Ask the run loop to exit cleanly.
    RequestTermination,
    /// Pause (`true`) or resume (`false`) emulation.
    Pause(bool),
    /// Set the speed exponent against the fixed multiplicative step.
    SetSpeed(i8),
    /// A raw input event.
    Input(InputEvent),
    /// An event aimed at the engine.
    Interpreter(InterpreterEvent),
    /// An event aimed at the rendering surface.
    Screen(ScreenEvent),
    /// An event aimed at the audio device.
    Audio(AudioEvent),
    /// An event about the application window.
    App(AppEvent),
    /// Turn direct pixel editing through the pointer on or off.
    SetCheatMode(bool),
    /// Restart the loaded program from the beginning.
    Restart,
    /// Ask for a new program to be loaded.
    NewGame,
    /// The subscription wildcard; never a real payload.
    Any,
}

impl Event for IncomingEvent {
    open spec fn spec_is_any(&self) -> bool {
        match self {
            IncomingEvent::Any => true,
            _ => false,
        }
    }

    open spec fn spec_same_kind(&self, other: &Self) -> bool {
        match (self, other) {
            (IncomingEvent::App(s), IncomingEvent::App(o)) => event_matches(*s, *o),
            (IncomingEvent::Input(s), IncomingEvent::Input(o)) => event_matches(*s, *o),
            (IncomingEvent::Interpreter(s), IncomingEvent::Interpreter(o)) => event_matches(*s, *o),
            (IncomingEvent::Screen(s), IncomingEvent::Screen(o)) => event_matches(*s, *o),
            (IncomingEvent::Audio(s), IncomingEvent::Audio(o)) => event_matches(*s, *o),
            (IncomingEvent::RequestTermination, IncomingEvent::RequestTermination) => true,
            (IncomingEvent::Pause(..), IncomingEvent::Pause(..)) => true,
            (IncomingEvent::SetSpeed(..), IncomingEvent::SetSpeed(..)) => true,
            (IncomingEvent::SetCheatMode(..), IncomingEvent::SetCheatMode(..)) => true,
            (IncomingEvent::Restart, IncomingEvent::Restart) => true,
            (IncomingEvent::NewGame, IncomingEvent::NewGame) => true,
            (IncomingEvent::Any, IncomingEvent::Any) => true,
            _ => false,
        }
    }

    fn is_any(&self) -> (r: bool) {
        match self {
            IncomingEvent::Any => true,
            _ => false,
        }
    }

    fn compare_value(&self, other: &Self) -> (r: bool) {
        match (self, other) {
            (IncomingEvent::App(s), IncomingEvent::App(o)) => s.equals(o),
            (IncomingEvent::Input(s), IncomingEvent::Input(o)) => s.equals(o),
            (IncomingEvent::Interpreter(s), IncomingEvent::Interpreter(o)) => s.equals(o),
            (IncomingEvent::Screen(s), IncomingEvent::Screen(o)) => s.equals(o),
            (IncomingEvent::Audio(s), IncomingEvent::Audio(o)) => s.equals(o),
            (IncomingEvent::RequestTermination, IncomingEvent::RequestTermination) => true,
            (IncomingEvent::Pause(..), IncomingEvent::Pause(..)) => true,
            (IncomingEvent::SetSpeed(..), IncomingEvent::SetSpeed(..)) => true,
            (IncomingEvent::SetCheatMode(..), IncomingEvent::SetCheatMode(..)) => true,
            (IncomingEvent::Restart, IncomingEvent::Restart) => true,
            (IncomingEvent::NewGame, IncomingEvent::NewGame) => true,
            (IncomingEvent::Any, IncomingEvent::Any) => true,
            _ => false,
        }
    }

    fn equals(&self, other: &Self) -> (r: bool) {
        self.is_any() || other.is_any() || self.compare_value(other)
    }
}

} // verus!
