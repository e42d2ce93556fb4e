//! Configuration snapshot for one serial connection, created once per open
//! request.  The framing parameters pass through to the transport unchanged;
//! the conversions to the transport's own types live outside the library.

use vstd::prelude::*;

verus! {

/// Settings to configure the serial port.
#[derive(Clone)]
pub struct PortSettings {
    /// UUID of the serial port.
    pub id: String,
    /// Port name.
    pub name: String,
    /// Port connection speed.
    pub baud_rate: u32,
    /// Number of bits per character.
    pub data_bits: DataBits,
    /// Flow control mode.
    pub flow_control: FlowControl,
    /// Parity checking mode.
    pub parity: Parity,
    /// Number of stop bits.
    pub stop_bits: StopBits,
}

/// Flow control modes.
#[derive(Clone, Copy, Debug, PartialEq, Eq, Structural)]
pub enum FlowControl {
    /// No flow control.
    Off,
    /// Flow control using XON/XOFF bytes.
    Software,
    /// Flow control using RTS/CTS signals.
    Hardware,
}

/// Number of bits per character.
#[derive(Clone, Copy, Debug, PartialEq, Eq, Structural)]
pub enum DataBits {
    /// 5 bits per character.
    Five,
    /// 6 bits per character.
    Six,
    /// 7 bits per character.
    Seven,
    /// 8 bits per character.
    Eight,
}

/// Parity checking modes.
///
/// When parity checking is enabled (Odd or Even) an extra bit is transmitted
/// with each character, arranged so that the number of 1 bits including the
/// parity bit is odd or even.
#[derive(Clone, Copy, Debug, PartialEq, Eq, Structural)]
pub enum Parity {
    /// No parity bit.
    Off,
    /// Parity bit sets an odd number of 1 bits.
    Odd,
    /// Parity bit sets an even number of 1 bits.
    Even,
}

/// Number of stop bits transmitted after every character.
#[derive(Clone, Copy, Debug, PartialEq, Eq, Structural)]
pub enum StopBits {
    /// One stop bit.
    One,
    /// Two stop bits.
    Two,
}

} // verus!
