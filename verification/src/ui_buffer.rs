//! What a form for a device's settings holds while it is edited.

use vstd::prelude::*;
use vstd::string::StringExecFns;

verus! {

/// The transport of a device, as a form offers it.
#[derive(Clone, Copy, Debug, PartialEq, Eq, Structural)]
pub enum ModbusDeviceType {
    Tcp,
    Serial,
}

impl ModbusDeviceType {
    pub open spec fn label(self) -> Seq<char> {
        match self {
            ModbusDeviceType::Tcp => "Modbus TCP"@,
            ModbusDeviceType::Serial => "Modbus Serial"@,
        }
    }

    /// The name of the transport as it is shown.
    pub fn to_text(&self) -> (text: String)
        ensures
            text@ == self.label(),
    {
        match self {
            ModbusDeviceType::Tcp => String::from_str("Modbus TCP"),
            ModbusDeviceType::Serial => String::from_str("Modbus Serial"),
        }
    }
}

#[derive(Clone, Debug, PartialEq, Eq)]
pub struct ModbusDeviceBuffer {
    pub id: usize,
    pub code: String,
    pub name: String,
    pub device_type: ModbusDeviceType,
}

impl Default for ModbusDeviceBuffer {
    /// The form as it opens: device 1, code `MB`, name `PLC_1`, over TCP.
    fn default() -> (buffer: ModbusDeviceBuffer)
        ensures
            buffer.id == 1,
            buffer.code@ == "MB"@,
            buffer.name@ == "PLC_1"@,
            buffer.device_type == ModbusDeviceType::Tcp,
    {
        ModbusDeviceBuffer {
            id: 1,
            code: String::from_str("MB"),
            name: String::from_str("PLC_1"),
            device_type: ModbusDeviceType::Tcp,
        }
    }
}

} // verus!
