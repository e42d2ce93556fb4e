//! The decisions of the session event loop.  Each loop iteration first
//! drains pending UI commands, then polls the transport; the loop itself,
//! the transport calls and the sleeps live outside the library, which is
//! handed the command or the bytes read and returns the new session state
//! together with what the caller owes: bytes to write to the transport,
//! payloads to emit to the presentation sink, text to append to the log.
//! A zero-byte read ends the loop; that decision needs no state and stays
//! with the caller.

use vstd::prelude::*;
use vstd::slice::{slice_subrange, slice_to_vec};
use vstd::utf8::encode_utf8;
use crate::buffer::{keep_last, resized};
use crate::message::{DisplayMode, Message, MessageCommand, MessageData};
use crate::port::{render_spec, Port, SerialReply};

verus! {

/// What the caller must do after a command is applied: write bytes to the
/// transport, and emit a payload to the presentation sink.
pub struct CommandEffect {
    /// Bytes to write to the transport; a write failure is fatal to the
    /// session.
    pub transmit: Option<Vec<u8>>,
    /// Payload to emit to the presentation sink.
    pub reply: Option<SerialReply>,
}

/// How one command transforms the session state, and the effect owed.
pub open spec fn command_applied(p0: Port, p1: Port, message: Message, e: CommandEffect) -> bool {
    &&& p1.settings == p0.settings
    &&& p1.buffer == p0.buffer
    &&& match message.command {
        MessageCommand::Tx => {
            &&& p1 == p0
            &&& e.reply is None
            &&& match message.package {
                MessageData::Char(b) => e.transmit matches Some(v) && v@ == seq![b],
                MessageData::Text(s) => e.transmit matches Some(v) && v@ == encode_utf8(s@),
                MessageData::Chars(bs) => e.transmit matches Some(v) && v@ == bs@,
                _ => e.transmit is None,
            }
        },
        MessageCommand::Settings => match message.package {
            MessageData::DisplaySettings(ds) => {
                &&& p1.display_mode == ds.display_mode
                &&& p1.output.cap() == ds.max_bytes as nat
                &&& p1.output.bytes() == resized(
                    p0.output.bytes(),
                    p0.output.cap(),
                    ds.max_bytes as nat,
                )
                &&& p1.log_enabled == p0.log_enabled
                &&& p1.log_path == p0.log_path
                &&& e.transmit is None
                &&& e.reply matches Some(r) && r.id@ == p0.settings.id@ && r.command@
                    == "rx_buffer"@ && r.data@ == render_spec(ds.display_mode, p1.output.bytes())
            },
            _ => p1 == p0 && e.transmit is None && e.reply is None,
        },
        MessageCommand::Clear => {
            &&& p1.display_mode == p0.display_mode
            &&& p1.output.cap() == p0.output.cap()
            &&& p1.output.bytes() == Seq::<u8>::empty()
            &&& p1.log_enabled == p0.log_enabled
            &&& p1.log_path == p0.log_path
            &&& e.transmit is None
            &&& e.reply matches Some(r) && r.id@ == p0.settings.id@ && r.command@ == "rx_buffer"@
                && r.data@ == render_spec(p0.display_mode, Seq::<u8>::empty())
        },
        MessageCommand::Logging => match message.package {
            MessageData::LogSettings(ls) => {
                &&& p1.display_mode == p0.display_mode
                &&& p1.output == p0.output
                &&& p1.log_enabled == ls.enabled
                &&& p1.log_path == ls.path
                &&& e.transmit is None
                &&& e.reply is None
            },
            _ => p1 == p0 && e.transmit is None && e.reply is None,
        },
    }
}

/// Applies one UI command to the session: queues bytes for transmission,
/// resizes the scrollback and switches the display mode (re-emitting the
/// whole history), clears the history, or updates the log settings.
pub fn apply_command(port: &mut Port, message: Message) -> (e: CommandEffect)
    requires
        old(port).wf(),
    ensures
        final(port).wf(),
        command_applied(*old(port), *final(port), message, e),
{
    match message.command {
        MessageCommand::Tx => {
            let transmit: Option<Vec<u8>> = match message.package {
                MessageData::Char(b) => {
                    let mut v: Vec<u8> = Vec::new();
                    v.push(b);
                    proof {
                        assert(v@ =~= seq![b]);
                    }
                    Some(v)
                },
                MessageData::Text(s) => Some(s.as_str().as_bytes_vec()),
                MessageData::Chars(bs) => Some(bs),
                _ => None,
            };
            CommandEffect { transmit, reply: None }
        },
        MessageCommand::Settings => match message.package {
            MessageData::DisplaySettings(ds) => {
                port.output.resize(ds.max_bytes);
                port.display_mode = ds.display_mode;
                let reply = port.package_output();
                CommandEffect { transmit: None, reply }
            },
            _ => CommandEffect { transmit: None, reply: None },
        },
        MessageCommand::Clear => {
            port.output.clear();
            let reply = port.package_output();
            CommandEffect { transmit: None, reply }
        },
        MessageCommand::Logging => match message.package {
            MessageData::LogSettings(ls) => {
                port.log_enabled = ls.enabled;
                port.log_path = ls.path;
                CommandEffect { transmit: None, reply: None }
            },
            _ => CommandEffect { transmit: None, reply: None },
        },
    }
}

/// What the caller must do after a successful transport read: emit the
/// rendered payload, and append the rendered chunk to the log when logging
/// is on (a log failure is reported, not fatal).
pub struct ReadEffect {
    /// Payload to emit to the presentation sink.
    pub reply: SerialReply,
    /// Rendered text to append to the log file, when logging is enabled.
    pub log_data: Option<String>,
}

/// Applies one transport read of `count` bytes, waiting in the scratch
/// buffer, to the session: the bytes join the scrollback (evicting the
/// oldest on overflow); ANSI mode re-renders the whole history, every other
/// mode renders just the new chunk; the chunk's rendering is returned for
/// the log when logging is on.
pub fn process_read(port: &mut Port, count: usize) -> (e: ReadEffect)
    requires
        old(port).wf(),
        count as int <= old(port).buffer@.len(),
    ensures
        final(port).wf(),
        final(port).settings == old(port).settings,
        final(port).display_mode == old(port).display_mode,
        final(port).buffer == old(port).buffer,
        final(port).log_enabled == old(port).log_enabled,
        final(port).log_path == old(port).log_path,
        final(port).output.cap() == old(port).output.cap(),
        final(port).output.bytes() == keep_last(
            old(port).output.bytes() + old(port).buffer@.take(count as int),
            old(port).output.cap(),
        ),
        e.reply.id@ == old(port).settings.id@,
        old(port).display_mode is Ansi ==> e.reply.command@ == "rx_buffer"@ && e.reply.data@
            == render_spec(DisplayMode::Ansi, final(port).output.bytes()),
        !(old(port).display_mode is Ansi) ==> e.reply.command@ == "rx_bytes"@ && e.reply.data@
            == render_spec(old(port).display_mode, old(port).buffer@.take(count as int)),
        old(port).log_enabled ==> (e.log_data matches Some(d) && d@ == render_spec(
            old(port).display_mode,
            old(port).buffer@.take(count as int),
        )),
        !old(port).log_enabled ==> e.log_data is None,
{
    let chunk: Vec<u8> = slice_to_vec(slice_subrange(port.buffer.as_slice(), 0, count));
    proof {
        assert(chunk@ =~= port.buffer@.take(count as int));
    }
    port.output.append(chunk.as_slice());
    let reply = match port.display_mode {
        DisplayMode::Ansi => port.package_output().unwrap(),
        _ => port.package_buffer(count).unwrap(),
    };
    let log_data = if port.log_enabled {
        Some(port.parse_data(chunk.as_slice()))
    } else {
        None
    };
    ReadEffect { reply, log_data }
}

} // verus!
