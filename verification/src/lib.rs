//! Verified core of a serial-terminal session engine.
//!
//! The library holds the logic of a live serial-device session: the bounded
//! scrollback buffer with its truncation and resize policy, the display-mode
//! renderers (raw text, decimal, hex, ANSI-to-markup), the ANSI SGR state
//! machine, the per-iteration decisions of the session event loop, the
//! device-presence poll, and the connection registry.  I/O, the transport,
//! the UI sink and the supervising tasks live outside the library and call
//! into it with plain values.

pub mod ansi_spec;
pub mod ansi_to_html;
pub mod buffer;
pub mod message;
pub mod port;
pub mod port_list;
pub mod port_settings;
pub mod session;
pub mod state;
pub mod text;
