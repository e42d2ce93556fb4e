use uniterm::message::{
    DisplayMode, DisplaySettings, LogSettings, Message, MessageCommand, MessageData,
};
use uniterm::port::Port;
use uniterm::port_settings::{DataBits, FlowControl, Parity, PortSettings, StopBits};
use uniterm::session::{apply_command, process_read};

fn test_settings() -> PortSettings {
    PortSettings {
        id: "uuid-42".to_string(),
        name: "COM7".to_string(),
        baud_rate: 9600,
        data_bits: DataBits::Eight,
        flow_control: FlowControl::Off,
        parity: Parity::Off,
        stop_bits: StopBits::One,
    }
}

#[test]
fn new_port_defaults() {
    let port = Port::new(test_settings());
    assert_eq!(port.display_mode, DisplayMode::Ascii);
    assert_eq!(port.buffer.len(), 2000);
    assert!(port.buffer.iter().all(|b| *b == 0));
    assert_eq!(port.output.length(), 0);
    assert_eq!(port.output.capacity(), 20000);
    assert!(!port.log_enabled);
    assert_eq!(port.log_path, "");
}

#[test]
fn package_buffer_renders_chunk() {
    let mut port = Port::new(test_settings());
    port.buffer[0] = b'h';
    port.buffer[1] = b'i';
    let reply = port.package_buffer(2).unwrap();
    assert_eq!(reply.id, "uuid-42");
    assert_eq!(reply.command, "rx_bytes");
    assert_eq!(reply.data, "hi");
}

#[test]
fn package_output_renders_history() {
    let mut port = Port::new(test_settings());
    port.output.append(b"abc");
    let reply = port.package_output().unwrap();
    assert_eq!(reply.id, "uuid-42");
    assert_eq!(reply.command, "rx_buffer");
    assert_eq!(reply.data, "abc");
}

#[test]
fn tx_char_transmits_one_byte() {
    let mut port = Port::new(test_settings());
    let e = apply_command(
        &mut port,
        Message { command: MessageCommand::Tx, package: MessageData::Char(65) },
    );
    assert_eq!(e.transmit, Some(vec![65]));
    assert!(e.reply.is_none());
}

#[test]
fn tx_text_transmits_utf8_bytes() {
    let mut port = Port::new(test_settings());
    let e = apply_command(
        &mut port,
        Message {
            command: MessageCommand::Tx,
            package: MessageData::Text("at\r".to_string()),
        },
    );
    assert_eq!(e.transmit, Some(b"at\r".to_vec()));
}

#[test]
fn tx_chars_transmits_all_bytes() {
    let mut port = Port::new(test_settings());
    let e = apply_command(
        &mut port,
        Message {
            command: MessageCommand::Tx,
            package: MessageData::Chars(vec![1, 2, 3]),
        },
    );
    assert_eq!(e.transmit, Some(vec![1, 2, 3]));
}

#[test]
fn tx_with_unexpected_package_sends_nothing() {
    let mut port = Port::new(test_settings());
    let e = apply_command(
        &mut port,
        Message {
            command: MessageCommand::Tx,
            package: MessageData::LogSettings(LogSettings { enabled: true, path: String::new() }),
        },
    );
    assert!(e.transmit.is_none());
    assert!(e.reply.is_none());
}

#[test]
fn settings_command_resizes_and_reemits() {
    let mut port = Port::new(test_settings());
    port.output.append(b"xyz");
    let e = apply_command(
        &mut port,
        Message {
            command: MessageCommand::Settings,
            package: MessageData::DisplaySettings(DisplaySettings {
                max_bytes: 30000,
                display_mode: DisplayMode::Decimal,
            }),
        },
    );
    assert_eq!(port.display_mode, DisplayMode::Decimal);
    assert_eq!(port.output.capacity(), 30000);
    // growing a non-empty buffer marks the boundary with one separator byte
    assert_eq!(port.output.snapshot(), vec![10, b'x', b'y', b'z']);
    let reply = e.reply.unwrap();
    assert_eq!(reply.command, "rx_buffer");
    assert_eq!(reply.data, "10 120 121 122");
}

#[test]
fn settings_command_shrinks_immediately() {
    let mut port = Port::new(test_settings());
    port.output.append(b"abcdef");
    let e = apply_command(
        &mut port,
        Message {
            command: MessageCommand::Settings,
            package: MessageData::DisplaySettings(DisplaySettings {
                max_bytes: 2,
                display_mode: DisplayMode::Ascii,
            }),
        },
    );
    assert_eq!(port.output.capacity(), 2);
    assert_eq!(port.output.snapshot(), b"ef".to_vec());
    assert_eq!(e.reply.unwrap().data, "ef");
}

#[test]
fn clear_command_empties_history() {
    let mut port = Port::new(test_settings());
    port.output.append(b"history");
    let e = apply_command(
        &mut port,
        Message { command: MessageCommand::Clear, package: MessageData::Char(0) },
    );
    assert_eq!(port.output.length(), 0);
    let reply = e.reply.unwrap();
    assert_eq!(reply.command, "rx_buffer");
    assert_eq!(reply.data, "");
}

#[test]
fn logging_command_updates_settings() {
    let mut port = Port::new(test_settings());
    let e = apply_command(
        &mut port,
        Message {
            command: MessageCommand::Logging,
            package: MessageData::LogSettings(LogSettings {
                enabled: true,
                path: "/tmp/serial.log".to_string(),
            }),
        },
    );
    assert!(port.log_enabled);
    assert_eq!(port.log_path, "/tmp/serial.log");
    assert!(e.transmit.is_none());
    assert!(e.reply.is_none());
}

#[test]
fn read_appends_and_emits_chunk() {
    let mut port = Port::new(test_settings());
    port.buffer[0] = b'o';
    port.buffer[1] = b'k';
    let e = process_read(&mut port, 2);
    assert_eq!(port.output.snapshot(), b"ok".to_vec());
    assert_eq!(e.reply.command, "rx_bytes");
    assert_eq!(e.reply.data, "ok");
    assert_eq!(e.reply.id, "uuid-42");
    assert!(e.log_data.is_none());
}

#[test]
fn read_in_ansi_mode_reemits_whole_history() {
    let mut port = Port::new(test_settings());
    port.display_mode = DisplayMode::Ansi;
    port.output.append(b"A");
    port.buffer[0] = b'B';
    let e = process_read(&mut port, 1);
    assert_eq!(e.reply.command, "rx_buffer");
    assert_eq!(e.reply.data, "<div style=\"\">AB</div>");
}

#[test]
fn read_with_logging_returns_rendered_chunk() {
    let mut port = Port::new(test_settings());
    port.log_enabled = true;
    port.display_mode = DisplayMode::Hex;
    port.buffer[0] = 0xab;
    let e = process_read(&mut port, 1);
    assert_eq!(e.log_data, Some("0xab".to_string()));
    assert_eq!(e.reply.data, "0xab");
}

#[test]
fn read_larger_than_capacity_keeps_last_bytes() {
    let mut port = Port::new(test_settings());
    let e = apply_command(
        &mut port,
        Message {
            command: MessageCommand::Settings,
            package: MessageData::DisplaySettings(DisplaySettings {
                max_bytes: 3,
                display_mode: DisplayMode::Ascii,
            }),
        },
    );
    assert!(e.reply.is_some());
    for (i, b) in b"12345".iter().enumerate() {
        port.buffer[i] = *b;
    }
    let e = process_read(&mut port, 5);
    assert_eq!(port.output.snapshot(), b"345".to_vec());
    assert_eq!(e.reply.data, "12345");
}
