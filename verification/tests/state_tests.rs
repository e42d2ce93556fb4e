use uniterm::port_settings::{DataBits, FlowControl, Parity, PortSettings, StopBits};
use uniterm::state::AppData;

fn settings(id: &str) -> PortSettings {
    PortSettings {
        id: id.to_string(),
        name: "COM1".to_string(),
        baud_rate: 115200,
        data_bits: DataBits::Eight,
        flow_control: FlowControl::Off,
        parity: Parity::Off,
        stop_bits: StopBits::One,
    }
}

#[test]
fn close_unknown_connection_is_ok() {
    let mut data = AppData::new();
    assert_eq!(data.close_connection("nope"), Ok(None));
}

#[test]
fn close_is_idempotent_for_unknown_ids() {
    let mut data = AppData::new();
    assert_eq!(data.close_connection("a"), Ok(None));
    assert_eq!(data.close_connection("a"), Ok(None));
}

#[test]
fn open_then_close_returns_supervisor_token() {
    let mut data = AppData::new();
    assert_eq!(data.open_connection(settings("a"), 11, 22), Ok(None));
    assert_eq!(data.close_connection("a"), Ok(Some(11)));
}

#[test]
fn close_without_running_supervisor_fails() {
    let mut data = AppData::new();
    data.open_connection(settings("a"), 11, 22).unwrap();
    data.close_connection("a").unwrap();
    assert_eq!(
        data.close_connection("a"),
        Err("No active connection to close".to_string())
    );
}

#[test]
fn reopen_returns_previous_supervisor_token() {
    let mut data = AppData::new();
    assert_eq!(data.open_connection(settings("a"), 1, 2), Ok(None));
    assert_eq!(data.open_connection(settings("a"), 3, 4), Ok(Some(1)));
    assert_eq!(data.close_connection("a"), Ok(Some(3)));
}

#[test]
fn sender_for_unknown_id_is_ok_with_nothing() {
    let data = AppData::new();
    assert_eq!(data.sender_for("ghost"), Ok(None));
}

#[test]
fn sender_for_running_connection() {
    let mut data = AppData::new();
    data.open_connection(settings("a"), 7, 8).unwrap();
    assert_eq!(data.sender_for("a"), Ok(Some(8)));
}

#[test]
fn sender_for_closed_connection_fails() {
    let mut data = AppData::new();
    data.open_connection(settings("a"), 7, 8).unwrap();
    data.close_connection("a").unwrap();
    assert_eq!(
        data.sender_for("a"),
        Err("Serial port not currently connected.".to_string())
    );
}

#[test]
fn connections_are_independent() {
    let mut data = AppData::new();
    data.open_connection(settings("a"), 1, 2).unwrap();
    data.open_connection(settings("b"), 3, 4).unwrap();
    assert_eq!(data.close_connection("a"), Ok(Some(1)));
    assert_eq!(data.sender_for("b"), Ok(Some(4)));
}
