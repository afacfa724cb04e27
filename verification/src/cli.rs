//! The sub-commands of the command line and what they ask of the engine.
use vstd::prelude::*;

verus! {

/// The sub-commands of the `shufflekeys` binary.
#[derive(Debug, Clone, Copy, PartialEq, Eq, Structural)]
pub enum Commands {
    /// Enable obfuscation (default).
    On,
    /// Disable obfuscation (passthrough mode).
    Off,
    /// Show current daemon status and config.
    Status,
    /// Generate a new persona seed (re-rolls all timing offsets).
    NewPersona,
    /// Write the default config file.
    InitConfig,
}

/// Obfuscation is on unless the command is `off`.
pub fn obfuscation_enabled(command: Option<Commands>) -> (r: bool)
    ensures
        r == (command != Some(Commands::Off)),
{
    !matches!(command, Some(Commands::Off))
}

/// Only `new-persona` asks for a fresh persona seed at start.
pub fn wants_new_persona(command: Option<Commands>) -> (r: bool)
    ensures
        r == (command == Some(Commands::NewPersona)),
{
    matches!(command, Some(Commands::NewPersona))
}

} // verus!
