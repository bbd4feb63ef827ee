//! What the compositor does about key presses and pointer buttons before
//! they reach a client.

use vstd::prelude::*;

verus! {

/// The key symbol of the Escape key.
pub const KEY_ESCAPE: u32 = 0xff1b;

/// The key symbol of the Return key.
pub const KEY_RETURN: u32 = 0xff0d;

/// The key symbol of the letter q.
pub const KEY_Q: u32 = 0x71;

/// The code of the left pointer button.
pub const BUTTON_LEFT: u32 = 0x110;

/// What a key binding starts.
#[derive(Clone, Copy, Debug, PartialEq, Eq, Hash, Structural)]
pub enum KeyBinding {
    /// Stop the event loop.
    Quit,
    /// Start a terminal.
    SpawnTerminal,
    /// Ask the focused window to close.
    CloseFocused,
}

/// What becomes of a key event.
#[derive(Clone, Copy, Debug, PartialEq, Eq, Hash, Structural)]
pub enum KeyFilter {
    /// The event goes on to the focused client.
    Forward,
    /// The compositor keeps the event and carries out the binding.
    Intercept(KeyBinding),
}

/// What becomes of a pointer button event.
#[derive(Clone, Copy, Debug, PartialEq, Eq, Hash, Structural)]
pub enum ButtonDecision {
    /// The window under the pointer is raised and starts to follow the
    /// pointer; the client does not see the button.
    StartMove,
    /// The window that followed the pointer is let go; the client does not
    /// see the button.
    EndMove,
    /// The window under the pointer is raised and focused, and the button
    /// goes on to the client.
    FocusAndForward,
    /// The button goes on to the client.
    Forward,
}

/// The binding of a key symbol: bindings need Alt held down, and there are
/// three of them.
pub open spec fn binding_of(alt: bool, keysym: u32) -> Option<KeyBinding> {
    if !alt {
        None
    } else if keysym == KEY_ESCAPE {
        Some(KeyBinding::Quit)
    } else if keysym == KEY_RETURN {
        Some(KeyBinding::SpawnTerminal)
    } else if keysym == KEY_Q {
        Some(KeyBinding::CloseFocused)
    } else {
        None
    }
}

/// What becomes of a key event: only a press can start a binding, and a
/// press that starts one is kept from the client.
pub open spec fn key_filter_of(pressed: bool, alt: bool, keysym: u32) -> KeyFilter {
    match binding_of(alt, keysym) {
        Some(binding) => if pressed {
            KeyFilter::Intercept(binding)
        } else {
            KeyFilter::Forward
        },
        None => KeyFilter::Forward,
    }
}

/// What becomes of a pointer button event. Alt with a left press on a
/// window starts a move; a left release ends the move in progress; any
/// other press on a window focuses it.
pub open spec fn button_decision_of(
    pressed: bool,
    button: u32,
    alt: bool,
    over_window: bool,
    moving: bool,
) -> ButtonDecision {
    if pressed && button == BUTTON_LEFT && alt && over_window {
        ButtonDecision::StartMove
    } else if !pressed && button == BUTTON_LEFT && moving {
        ButtonDecision::EndMove
    } else if pressed && over_window {
        ButtonDecision::FocusAndForward
    } else {
        ButtonDecision::Forward
    }
}

/// The binding that a key symbol starts while `alt` tells whether Alt is
/// held down, if it starts one.
pub fn handle_keybinding(alt: bool, keysym: u32) -> (r: Option<KeyBinding>)
    ensures
        r == binding_of(alt, keysym),
{
    if !alt {
        None
    } else if keysym == KEY_ESCAPE {
        Some(KeyBinding::Quit)
    } else if keysym == KEY_RETURN {
        Some(KeyBinding::SpawnTerminal)
    } else if keysym == KEY_Q {
        Some(KeyBinding::CloseFocused)
    } else {
        None
    }
}

/// Decides what becomes of a key event.
pub fn handle_keyboard_event(pressed: bool, alt: bool, keysym: u32) -> (r: KeyFilter)
    ensures
        r == key_filter_of(pressed, alt, keysym),
{
    if pressed {
        match handle_keybinding(alt, keysym) {
            Some(binding) => KeyFilter::Intercept(binding),
            None => KeyFilter::Forward,
        }
    } else {
        KeyFilter::Forward
    }
}

/// Decides what becomes of a pointer button event, given whether Alt is
/// held down, whether a window is under the pointer, and whether a window
/// is being moved.
pub fn handle_pointer_button(
    pressed: bool,
    button: u32,
    alt: bool,
    over_window: bool,
    moving: bool,
) -> (r: ButtonDecision)
    ensures
        r == button_decision_of(pressed, button, alt, over_window, moving),
{
    if pressed && button == BUTTON_LEFT && alt && over_window {
        ButtonDecision::StartMove
    } else if !pressed && button == BUTTON_LEFT && moving {
        ButtonDecision::EndMove
    } else if pressed && over_window {
        ButtonDecision::FocusAndForward
    } else {
        ButtonDecision::Forward
    }
}

} // verus!
