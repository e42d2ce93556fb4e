use uniterm::port_list::{check_port_present, PortType, SerialPortType};

fn port(name: &str) -> SerialPortType {
    SerialPortType {
        name: name.to_string(),
        port_type: PortType::default(),
        product: String::new(),
        serial_number: String::new(),
        manufacturer: String::new(),
    }
}

#[test]
fn present_device_keeps_the_watch_running() {
    let ports = vec![port("COM1"), port("COM3")];
    assert_eq!(check_port_present("COM3", &ports), Ok(()));
}

#[test]
fn absent_device_resolves_with_connection_lost() {
    let ports = vec![port("COM1"), port("COM4")];
    assert_eq!(
        check_port_present("COM3", &ports),
        Err("Connection Lost".to_string())
    );
}

#[test]
fn empty_list_means_absent() {
    let ports: Vec<SerialPortType> = Vec::new();
    assert_eq!(
        check_port_present("COM3", &ports),
        Err("Connection Lost".to_string())
    );
}

#[test]
fn names_match_by_characters_not_prefix() {
    let ports = vec![port("COM33")];
    assert_eq!(
        check_port_present("COM3", &ports),
        Err("Connection Lost".to_string())
    );
}

#[test]
fn multibyte_names_compare_correctly() {
    let ports = vec![port("ttyμ0")];
    assert_eq!(check_port_present("ttyμ0", &ports), Ok(()));
    assert_eq!(
        check_port_present("ttyμ1", &ports),
        Err("Connection Lost".to_string())
    );
}

#[test]
fn default_port_type_is_unknown() {
    assert_eq!(PortType::default(), PortType::Unknown);
}
