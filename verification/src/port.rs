//! The per-session port state: its settings, the scratch read buffer, the
//! scrollback history, the display mode and the log settings — and the
//! rendering of bytes into the payloads sent to the UI.

use vstd::prelude::*;
use vstd::slice::slice_subrange;
use crate::ansi_spec::ansi_render;
use crate::ansi_to_html::ansi_to_html;
use crate::buffer::{OutputBuffer, DEFAULT_MAX_BYTES};
use crate::message::DisplayMode;
use crate::port_settings::PortSettings;
use crate::text::{decimal_render, hex_render, lossy_of, lossy_utf8, render_decimal, render_hex};

verus! {

/// Size of the scratch buffer one transport read fills.
pub const SCRATCH_LEN: usize = 2000;

/// Reply format used to send data to the UI.
pub struct SerialReply {
    /// UUID of the serial port this data came from.
    pub id: String,
    /// Type of reply.
    pub command: String,
    /// Data for the reply.
    pub data: String,
}

/// What each display mode writes for a byte sequence.
pub open spec fn render_spec(mode: DisplayMode, bytes: Seq<u8>) -> Seq<char> {
    match mode {
        DisplayMode::Ascii => lossy_of(bytes),
        DisplayMode::Ansi => ansi_render(lossy_of(bytes)),
        DisplayMode::Decimal => decimal_render(bytes),
        DisplayMode::Hex => hex_render(bytes),
    }
}

/// State of one serial session.
pub struct Port {
    /// Settings of the serial port.
    pub settings: PortSettings,
    /// How incoming bytes are rendered.
    pub display_mode: DisplayMode,
    /// Scratch buffer a transport read fills before processing.
    pub buffer: Vec<u8>,
    /// History of data from the serial port, for scrollback in the UI.
    pub output: OutputBuffer,
    /// Whether incoming data is appended to a log file.
    pub log_enabled: bool,
    /// Path of the log file.
    pub log_path: String,
}

impl Port {
    /// The scrollback never exceeds its capacity and the scratch buffer
    /// keeps its fixed size.
    pub open spec fn wf(&self) -> bool {
        self.output.wf() && self.buffer@.len() == SCRATCH_LEN as int
    }

    pub fn new(settings: PortSettings) -> (r: Port)
        ensures
            r.settings == settings,
            r.display_mode == DisplayMode::Ascii,
            r.buffer@ == Seq::new(SCRATCH_LEN as nat, |i: int| 0u8),
            r.output.bytes() == Seq::<u8>::empty(),
            r.output.cap() == DEFAULT_MAX_BYTES as nat,
            r.log_enabled == false,
            r.log_path@ == Seq::<char>::empty(),
            r.wf(),
    {
        let mut buffer: Vec<u8> = Vec::new();
        let mut i: usize = 0;
        while i < SCRATCH_LEN
            invariant
                i <= SCRATCH_LEN,
                buffer@.len() == i,
                forall|j: int| 0 <= j < i ==> buffer@[j] == 0u8,
            decreases SCRATCH_LEN - i,
        {
            buffer.push(0);
            i += 1;
        }
        proof {
            assert(buffer@ =~= Seq::new(SCRATCH_LEN as nat, |j: int| 0u8));
        }
        Port {
            settings,
            display_mode: DisplayMode::Ascii,
            buffer,
            output: OutputBuffer::new(DEFAULT_MAX_BYTES),
            log_enabled: false,
            log_path: String::new(),
        }
    }

    /// Renders a byte slice for display or logging, per the active display
    /// mode.
    pub fn parse_data(&self, bytes: &[u8]) -> (r: String)
        ensures
            r@ == render_spec(self.display_mode, bytes@),
    {
        match self.display_mode {
            DisplayMode::Ascii => lossy_utf8(bytes),
            DisplayMode::Ansi => ansi_to_html(bytes),
            DisplayMode::Decimal => render_decimal(bytes),
            DisplayMode::Hex => render_hex(bytes),
        }
    }

    /// Packages the first `count` bytes of the scratch buffer for the UI.
    pub fn package_buffer(&self, count: usize) -> (r: Option<SerialReply>)
        requires
            count as int <= self.buffer@.len(),
        ensures
            r is Some,
            r->0.id@ == self.settings.id@,
            r->0.command@ == "rx_bytes"@,
            r->0.data@ == render_spec(self.display_mode, self.buffer@.take(count as int)),
    {
        let bytes = slice_subrange(self.buffer.as_slice(), 0, count);
        proof {
            assert(bytes@ =~= self.buffer@.take(count as int));
        }
        let data = self.parse_data(bytes);
        Some(
            SerialReply {
                id: self.settings.id.clone(),
                command: String::from_str("rx_bytes"),
                data,
            },
        )
    }

    /// Packages the whole scrollback history for the UI; used when the
    /// display settings change and in ANSI mode, where the full history is
    /// re-rendered so that styles replay from a clean state.
    pub fn package_output(&self) -> (r: Option<SerialReply>)
        ensures
            r is Some,
            r->0.id@ == self.settings.id@,
            r->0.command@ == "rx_buffer"@,
            r->0.data@ == render_spec(self.display_mode, self.output.bytes()),
    {
        let snap = self.output.snapshot();
        let data = self.parse_data(snap.as_slice());
        Some(
            SerialReply {
                id: self.settings.id.clone(),
                command: String::from_str("rx_buffer"),
                data,
            },
        )
    }
}

} // verus!
