//! Commands sent from the UI boundary to a running serial session.

use vstd::prelude::*;

verus! {

/// Package of data coming from the UI to the serial session.
#[derive(Clone)]
pub struct Message {
    /// Command type.
    pub command: MessageCommand,
    /// Data that goes along with the command.
    pub package: MessageData,
}

/// The commands the UI can send to a serial session.
#[derive(Clone, Copy, Debug, PartialEq, Eq, Structural)]
pub enum MessageCommand {
    /// Transmit data on the serial interface.
    Tx,
    /// Update the display settings.
    Settings,
    /// Clear the output buffer.
    Clear,
    /// Update the log settings.
    Logging,
}

/// The data formats a message can carry.
#[derive(Clone)]
pub enum MessageData {
    /// A single byte.
    Char(u8),
    /// A text string.
    Text(String),
    /// A vector of bytes.
    Chars(Vec<u8>),
    /// Display settings.
    DisplaySettings(DisplaySettings),
    /// Log file settings.
    LogSettings(LogSettings),
}

/// How the incoming bytes should be shown, and how much history to keep.
#[derive(Clone, Copy)]
pub struct DisplaySettings {
    /// Capacity of the output buffer: the scrollback length in the UI.
    pub max_bytes: usize,
    /// How the incoming bytes are interpreted and displayed.
    pub display_mode: DisplayMode,
}

/// How the incoming bytes from the serial interface are interpreted and
/// displayed.
#[derive(Clone, Copy, Debug, PartialEq, Eq, Structural)]
pub enum DisplayMode {
    /// Display as plain text.
    Ascii,
    /// Display as ANSI-rendered markup.
    Ansi,
    /// Display each byte as a decimal number.
    Decimal,
    /// Display each byte in hex.
    Hex,
}

impl Default for DisplayMode {
    /// Plain text is the initial display mode.
    fn default() -> (r: Self)
        ensures
            r == DisplayMode::Ascii,
    {
        DisplayMode::Ascii
    }
}

/// Whether and where the incoming serial data is logged.
#[derive(Clone)]
pub struct LogSettings {
    /// Should new data be written to a file.
    pub enabled: bool,
    /// File path of the log file.
    pub path: String,
}

} // verus!
