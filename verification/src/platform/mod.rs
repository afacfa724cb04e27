//! Cross-platform keyboard event types and the per-platform modifier rules.
pub mod linux;
pub mod macos;

use vstd::prelude::*;

verus! {

/// Keyboard event type.
#[derive(Debug, Clone, Copy, PartialEq, Eq, Structural)]
pub enum KeyEventType {
    Down,
    Up,
    Repeat,
}

/// A single keyboard event.
#[derive(Debug, Clone, Copy, PartialEq, Eq, Structural)]
pub struct KeyEvent {
    /// Linux: `input_event.code`; macOS: CGKeyCode.
    pub key_code: u16,
    pub event_type: KeyEventType,
    /// Event timestamp in µs (monotonic, platform-specific epoch).
    pub timestamp_us: u64,
}

/// The operating system whose key codes an event carries.
#[derive(Debug, Clone, Copy, PartialEq, Eq, Structural)]
pub enum Platform {
    Linux,
    Macos,
    /// Any other system: no key counts as a modifier there.
    Other,
}

/// Whether `key_code` is a modifier key on `platform`.
pub open spec fn spec_is_modifier(platform: Platform, key_code: u16) -> bool {
    match platform {
        Platform::Linux => linux::is_linux_modifier_code(key_code),
        Platform::Macos => macos::is_macos_modifier_code(key_code),
        Platform::Other => false,
    }
}

/// Returns true if the key code is a modifier key on the given platform.
pub fn is_modifier(platform: Platform, key_code: u16) -> (r: bool)
    ensures
        r == spec_is_modifier(platform, key_code),
{
    match platform {
        Platform::Linux => linux::is_modifier(key_code),
        Platform::Macos => macos::is_modifier(key_code),
        Platform::Other => false,
    }
}

/// On Linux exactly the left and right Control (29, 97), Shift (42, 54),
/// Alt (56, 100) and Meta (125, 126) keys are modifiers: letters, digits and
/// every other key are obfuscated.
pub proof fn lemma_linux_modifiers_exactly(key_code: u16)
    ensures
        spec_is_modifier(Platform::Linux, key_code) <==> set![29u16, 97u16, 42u16, 54u16, 56u16, 100u16, 125u16, 126u16].contains(key_code),
        16 <= key_code <= 25 || 30 <= key_code <= 38 || 44 <= key_code <= 50 || 2 <= key_code <= 11
            ==> !spec_is_modifier(Platform::Linux, key_code),
{
}

/// On macOS exactly the ten key codes 54 through 63 (Command, Shift, Caps
/// Lock, Option, Control, Function) are modifiers.
pub proof fn lemma_macos_modifiers_exactly(key_code: u16)
    ensures
        spec_is_modifier(Platform::Macos, key_code) <==> set![54u16, 55u16, 56u16, 57u16, 58u16, 59u16, 60u16, 61u16, 62u16, 63u16].contains(key_code),
        key_code < 54 || key_code > 63 ==> !spec_is_modifier(Platform::Macos, key_code),
{
}

/// On a platform without modifier rules no key is a modifier.
pub proof fn lemma_other_platform_no_modifiers(key_code: u16)
    ensures
        !spec_is_modifier(Platform::Other, key_code),
{
}

} // verus!
