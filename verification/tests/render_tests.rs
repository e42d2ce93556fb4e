use uniterm::ansi_to_html::ansi_to_html;
use uniterm::message::DisplayMode;
use uniterm::port::Port;
use uniterm::port_settings::{DataBits, FlowControl, Parity, PortSettings, StopBits};
use uniterm::text::{render_decimal, render_hex};

fn test_settings() -> PortSettings {
    PortSettings {
        id: "id-1".to_string(),
        name: "COM3".to_string(),
        baud_rate: 115200,
        data_bits: DataBits::Eight,
        flow_control: FlowControl::Off,
        parity: Parity::Off,
        stop_bits: StopBits::One,
    }
}

#[test]
fn decimal_and_hex_of_ten() {
    let mut port = Port::new(test_settings());
    port.display_mode = DisplayMode::Decimal;
    assert_eq!(port.parse_data(&[10]), "10");
    assert_eq!(port.parse_data(&[10]), "10");
    port.display_mode = DisplayMode::Hex;
    assert_eq!(port.parse_data(&[10]), "0x0a");
    assert_eq!(port.parse_data(&[10]), "0x0a");
}

#[test]
fn decimal_rendering_joins_with_spaces() {
    assert_eq!(render_decimal(&[0, 255, 7]), "0 255 7");
    assert_eq!(render_decimal(&[]), "");
    assert_eq!(render_decimal(&[100]), "100");
}

#[test]
fn hex_rendering_zero_padded() {
    assert_eq!(render_hex(&[0, 255]), "0x00 0xff");
    assert_eq!(render_hex(&[26]), "0x1a");
}

#[test]
fn ascii_mode_decodes_lossily() {
    let mut port = Port::new(test_settings());
    port.display_mode = DisplayMode::Ascii;
    assert_eq!(port.parse_data(b"hi"), "hi");
    assert_eq!(port.parse_data(&[0xff]), "\u{fffd}");
}

#[test]
fn bold_then_reset_wraps_text_once() {
    let bytes = [
        0x1b, b'[', b'1', b'm', b'B', b'O', b'L', b'D', 0x1b, b'[', b'0', b'm',
    ];
    assert_eq!(
        ansi_to_html(&bytes),
        "<div style=\"font-weight:bold;\">BOLD</div>"
    );
}

#[test]
fn red_foreground_from_palette() {
    let bytes = [0x1b, b'[', b'3', b'1', b'm', b'x'];
    assert_eq!(
        ansi_to_html(&bytes),
        "<div style=\"color:rgb(222, 56, 43);\">x</div>"
    );
}

#[test]
fn crlf_becomes_one_break_fragment() {
    assert_eq!(
        ansi_to_html(b"A\r\nB"),
        "<div style=\"\">A</div><div style=\"flex-basis:100%;height:0;\"></div><div style=\"\">B</div>"
    );
}

#[test]
fn crlf_alone_is_only_a_break() {
    assert_eq!(
        ansi_to_html(b"\r\n"),
        "<div style=\"flex-basis:100%;height:0;\"></div>"
    );
}

#[test]
fn erase_display_discards_rendered_output() {
    assert_eq!(
        ansi_to_html(b"AB\x1b[2Jcd"),
        "<div style=\"\">cd</div>"
    );
}

#[test]
fn unknown_sequences_are_noops() {
    assert_eq!(ansi_to_html(b"\x1b[2;7Hxy"), "<div style=\"\">xy</div>");
}

#[test]
fn truncated_escape_at_end_is_dropped() {
    assert_eq!(ansi_to_html(b"ok\x1b["), "<div style=\"\">ok</div>");
    assert_eq!(ansi_to_html(b"ok\x1b"), "<div style=\"\">ok</div>");
}

#[test]
fn multiple_sgr_parameters_combine() {
    assert_eq!(
        ansi_to_html(b"\x1b[1;31mZ"),
        "<div style=\"font-weight:bold; color:rgb(222, 56, 43);\">Z</div>"
    );
}

#[test]
fn attribute_switched_off_again() {
    assert_eq!(
        ansi_to_html(b"\x1b[4mu\x1b[24mv"),
        "<div style=\"text-decoration:underline;\">u</div><div style=\"\">v</div>"
    );
}

#[test]
fn background_color_applies() {
    assert_eq!(
        ansi_to_html(b"\x1b[41mq"),
        "<div style=\"background-color:rgb(222, 56, 43);\">q</div>"
    );
}

#[test]
fn empty_input_renders_nothing() {
    assert_eq!(ansi_to_html(b""), "");
}

#[test]
fn escape_not_opening_a_sequence_is_dropped() {
    assert_eq!(ansi_to_html(b"\x1bZx"), "<div style=\"\">Zx</div>");
}

#[test]
fn oversized_parameter_is_ignored() {
    assert_eq!(ansi_to_html(b"\x1b[999mw"), "<div style=\"\">w</div>");
}

#[test]
fn empty_parameter_counts_as_reset() {
    // ";1" parses as parameters 0 and 1: reset, then bold
    assert_eq!(
        ansi_to_html(b"\x1b[31m\x1b[;1mw"),
        "<div style=\"font-weight:bold;\">w</div>"
    );
}

#[test]
fn empty_parameter_list_changes_nothing() {
    assert_eq!(
        ansi_to_html(b"\x1b[31m\x1b[mw"),
        "<div style=\"color:rgb(222, 56, 43);\">w</div>"
    );
}

#[test]
fn multibyte_text_splits_on_crlf() {
    let input = "é\r\nü".as_bytes();
    assert_eq!(
        ansi_to_html(input),
        "<div style=\"\">é</div><div style=\"flex-basis:100%;height:0;\"></div><div style=\"\">ü</div>"
    );
}
