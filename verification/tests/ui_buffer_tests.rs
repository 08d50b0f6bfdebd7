use colossal::ModbusDeviceBuffer;
use colossal::ModbusDeviceType;

#[test]
fn the_form_opens_with_defaults() {
    let buffer = ModbusDeviceBuffer::default();
    assert_eq!(buffer.id, 1);
    assert_eq!(buffer.code, "MB");
    assert_eq!(buffer.name, "PLC_1");
    assert_eq!(buffer.device_type, ModbusDeviceType::Tcp);
}

#[test]
fn transports_are_shown() {
    assert_eq!(ModbusDeviceType::Tcp.to_text(), "Modbus TCP");
    assert_eq!(ModbusDeviceType::Serial.to_text(), "Modbus Serial");
}
