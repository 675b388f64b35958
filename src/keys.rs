//! What the wait after drawing does with each key.

use vstd::prelude::*;

verus! {

/// A key read from the terminal.
#[derive(Debug, Clone, Copy, PartialEq, Eq, Structural)]
pub enum KeyInput {
    /// A plain character.
    Char(char),
    /// A character typed with Ctrl held.
    Ctrl(char),
    /// Any other key.
    Other,
}

/// What a key means while the chart is shown.
#[derive(Debug, Clone, Copy, PartialEq, Eq, Structural)]
pub enum KeyAction {
    /// `q`: leave.
    Quit,
    /// Ctrl-C: leave.
    Interrupt,
    /// Anything else: keep waiting.
    Ignore,
}

pub open spec fn key_action(k: KeyInput) -> KeyAction {
    match k {
        KeyInput::Char(c) => if c == 'q' { KeyAction::Quit } else { KeyAction::Ignore },
        KeyInput::Ctrl(c) => if c == 'c' { KeyAction::Interrupt } else { KeyAction::Ignore },
        KeyInput::Other => KeyAction::Ignore,
    }
}

/// Classifies a key: `q` quits, Ctrl-C interrupts, everything else is ignored.
pub fn classify_key(k: KeyInput) -> (r: KeyAction)
    ensures
        r == key_action(k),
{
    match k {
        KeyInput::Char(c) => if c == 'q' { KeyAction::Quit } else { KeyAction::Ignore },
        KeyInput::Ctrl(c) => if c == 'c' { KeyAction::Interrupt } else { KeyAction::Ignore },
        KeyInput::Other => KeyAction::Ignore,
    }
}

impl KeyAction {
    /// Whether this action ends the wait.
    pub fn ends_wait(&self) -> (r: bool)
        ensures
            r <==> *self != KeyAction::Ignore,
    {
        match self {
            KeyAction::Ignore => false,
            _ => true,
        }
    }
}

} // verus!
