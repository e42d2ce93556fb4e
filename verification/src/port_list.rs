//! Descriptors for enumerated serial devices, and the presence decision the
//! liveness watchdog makes on every poll of the device list.  Enumerating the
//! devices is the OS's work and happens outside the library; the decision on
//! the returned list is made here.

use vstd::prelude::*;
use crate::text::str_eq;

verus! {

/// Connection location of a serial port.
#[derive(Clone, Copy, Debug, PartialEq, Eq, Structural)]
pub enum PortType {
    UsbPort,
    PciPort,
    BluetoothPort,
    Unknown,
}

impl Default for PortType {
    /// A port whose location was not reported.
    fn default() -> (r: Self)
        ensures
            r == PortType::Unknown,
    {
        PortType::Unknown
    }
}

/// One enumerated serial device, as shown to the UI.
#[derive(Clone)]
pub struct SerialPortType {
    /// Port name.
    pub name: String,
    /// Connection location.
    pub port_type: PortType,
    /// Product name.
    pub product: String,
    /// Serial number of the device.
    pub serial_number: String,
    /// Manufacturer of the device.
    pub manufacturer: String,
}

/// Does a device called `name` appear in `ports`?
pub open spec fn spec_port_present(name: Seq<char>, ports: Seq<SerialPortType>) -> bool {
    exists|i: int| 0 <= i < ports.len() && ports[i].name@ == name
}

/// One poll cycle of the presence watchdog: `Ok` when the named device is
/// still enumerated (keep watching), and the connection-lost error the moment
/// it is absent.  The watchdog never resolves successfully: its loop only
/// returns when this decision is an error.
pub fn check_port_present(name: &str, ports: &Vec<SerialPortType>) -> (r: Result<(), String>)
    ensures
        r is Ok <==> spec_port_present(name@, ports@),
        r is Err ==> r->Err_0@ == "Connection Lost"@,
{
    let mut i: usize = 0;
    while i < ports.len()
        invariant
            i <= ports@.len(),
            forall|j: int| 0 <= j < i ==> ports@[j].name@ != name@,
        decreases ports@.len() - i,
    {
        if str_eq(ports[i].name.as_str(), name) {
            return Ok(());
        }
        i += 1;
    }
    Err(String::from_str("Connection Lost"))
}

} // verus!
