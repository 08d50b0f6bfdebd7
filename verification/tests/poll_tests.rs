use colossal::device::connection_result;
use colossal::device::init_mb_tcp_device;
use colossal::device::ConnectError;
use colossal::device::ConnectOutcome;
use colossal::device::ModbusChannel;
use colossal::device::ModbusChannelType;
use colossal::device::ModbusDevice;
use colossal::device::ModbusDeviceConfig;
use colossal::device::ModbusTcpConfig;
use colossal::device::ModbusValue;
use colossal::device::PollCause;
use colossal::device::PollError;
use colossal::device::ReadOutcome;
use colossal::device::ReadRequest;
use colossal::device::INITIAL_REAL;

fn channel(id: usize, kind: ModbusChannelType, address: u16, enabled: bool) -> ModbusChannel {
    let value = match kind {
        ModbusChannelType::Int => ModbusValue::Int(0),
        ModbusChannelType::Real => ModbusValue::Real(0),
        ModbusChannelType::Coil => ModbusValue::Bool(false),
    };
    ModbusChannel {
        id,
        enabled,
        name: format!("MB{}", id),
        description: String::new(),
        address,
        channel_type: kind,
        value,
    }
}

fn device(channels: Vec<ModbusChannel>) -> ModbusDevice {
    ModbusDevice {
        id: 0,
        code: "MB".to_owned(),
        name: "plc".to_owned(),
        config: ModbusDeviceConfig::Tcp(ModbusTcpConfig { ip: "127.0.0.1".to_owned(), port: 502 }),
        channels,
    }
}

fn mixed() -> ModbusDevice {
    device(vec![
        channel(1, ModbusChannelType::Int, 10, true),
        channel(2, ModbusChannelType::Real, 20, true),
        channel(3, ModbusChannelType::Int, 30, false),
        channel(4, ModbusChannelType::Coil, 40, true),
        channel(5, ModbusChannelType::Int, 50, true),
    ])
}

#[test]
fn init_device_builds_real_channels() {
    let device = init_mb_tcp_device("127.0.0.1".to_owned(), 5502, "Device_1".to_owned(), 10);
    assert_eq!(device.id, 0);
    assert_eq!(device.code, "MB");
    assert_eq!(device.name, "Device_1");
    assert_eq!(
        device.config,
        ModbusDeviceConfig::Tcp(ModbusTcpConfig { ip: "127.0.0.1".to_owned(), port: 5502 })
    );
    assert_eq!(device.channels.len(), 10);
    for (k, channel) in device.channels.iter().enumerate() {
        let i = k + 1;
        assert_eq!(channel.id, i);
        assert!(channel.enabled);
        assert_eq!(channel.name, format!("MB{}", i));
        assert_eq!(channel.description, "Modbus channel. No description.");
        assert_eq!(channel.address, (i * 2) as u16);
        assert_eq!(channel.channel_type, ModbusChannelType::Real);
        assert_eq!(channel.value, ModbusValue::Real(3.0f32.to_bits()));
    }
    assert!(device.is_wf());
}

#[test]
fn init_device_without_channels() {
    let device = init_mb_tcp_device("h".to_owned(), 1, "n".to_owned(), 0);
    assert!(device.channels.is_empty());
}

#[test]
fn init_device_at_the_address_limit() {
    let device = init_mb_tcp_device("h".to_owned(), 1, "n".to_owned(), 32767);
    assert_eq!(device.channels.len(), 32767);
    assert_eq!(device.channels[32766].address, 65534);
    assert_eq!(device.channels[32766].name, "MB32767");
}

#[test]
fn initial_real_is_three() {
    assert_eq!(f32::from_bits(INITIAL_REAL), 3.0);
}

#[test]
fn registers_by_type() {
    assert_eq!(ModbusChannelType::Int.registers(), 1);
    assert_eq!(ModbusChannelType::Real.registers(), 2);
    assert_eq!(ModbusChannelType::Coil.registers(), 0);
}

#[test]
fn next_read_skips_disabled_and_coil_channels() {
    let device = mixed();
    assert_eq!(device.next_read(0), Some(ReadRequest { channel: 0, address: 10, count: 1 }));
    assert_eq!(device.next_read(1), Some(ReadRequest { channel: 1, address: 20, count: 2 }));
    assert_eq!(device.next_read(2), Some(ReadRequest { channel: 4, address: 50, count: 1 }));
    assert_eq!(device.next_read(4), Some(ReadRequest { channel: 4, address: 50, count: 1 }));
    assert_eq!(device.next_read(5), None);
    assert_eq!(device.next_read(99), None);
}

#[test]
fn apply_read_decodes_by_type() {
    let mut device = mixed();
    assert_eq!(device.apply_read(0, &ReadOutcome::Words(vec![77])), Ok(()));
    assert_eq!(device.channels[0].value, ModbusValue::Int(77));
    assert_eq!(device.apply_read(1, &ReadOutcome::Words(vec![0x4040, 0x0000])), Ok(()));
    assert_eq!(device.channels[1].value, ModbusValue::Real(3.0f32.to_bits()));
}

#[test]
fn apply_read_takes_only_the_registers_it_needs() {
    let mut device = mixed();
    assert_eq!(device.apply_read(0, &ReadOutcome::Words(vec![5, 6, 7])), Ok(()));
    assert_eq!(device.channels[0].value, ModbusValue::Int(5));
}

#[test]
fn apply_read_ignores_channels_that_are_not_polled() {
    let mut device = mixed();
    let before = device.clone();
    assert_eq!(device.apply_read(2, &ReadOutcome::Words(vec![9])), Ok(()));
    assert_eq!(device.apply_read(3, &ReadOutcome::Failed("x".to_owned())), Ok(()));
    assert_eq!(device.apply_read(5, &ReadOutcome::Words(vec![9])), Ok(()));
    assert_eq!(device.apply_read(usize::MAX, &ReadOutcome::Failed("x".to_owned())), Ok(()));
    assert_eq!(device, before);
}

#[test]
fn apply_read_reports_failures_and_changes_nothing() {
    let mut device = mixed();
    let before = device.clone();
    assert_eq!(
        device.apply_read(1, &ReadOutcome::Words(vec![1])),
        Err(PollError { channel: 1, cause: PollCause::ShortResponse })
    );
    assert_eq!(
        device.apply_read(0, &ReadOutcome::Words(vec![])),
        Err(PollError { channel: 0, cause: PollCause::ShortResponse })
    );
    assert_eq!(
        device.apply_read(4, &ReadOutcome::Failed("timeout".to_owned())),
        Err(PollError { channel: 4, cause: PollCause::ReadFailed("timeout".to_owned()) })
    );
    assert_eq!(device, before);
}

#[test]
fn poll_updates_every_polled_channel() {
    let mut device = mixed();
    let outcomes = vec![
        ReadOutcome::Words(vec![11]),
        ReadOutcome::Words(vec![0x3fc0, 0x0000]),
        ReadOutcome::Words(vec![55]),
    ];
    assert_eq!(device.poll(&outcomes), Ok(()));
    assert_eq!(device.channels[0].value, ModbusValue::Int(11));
    assert_eq!(device.channels[1].value, ModbusValue::Real(1.5f32.to_bits()));
    assert_eq!(device.channels[2].value, ModbusValue::Int(0));
    assert_eq!(device.channels[3].value, ModbusValue::Bool(false));
    assert_eq!(device.channels[4].value, ModbusValue::Int(55));
    assert!(device.is_wf());
}

#[test]
fn poll_failure_keeps_earlier_updates_and_leaves_the_rest() {
    let mut device = mixed();
    device.channels[4].value = ModbusValue::Int(500);
    device.channels[1].value = ModbusValue::Real(7);
    let outcomes = vec![
        ReadOutcome::Words(vec![11]),
        ReadOutcome::Failed("illegal data address".to_owned()),
        ReadOutcome::Words(vec![55]),
    ];
    assert_eq!(
        device.poll(&outcomes),
        Err(PollError {
            channel: 1,
            cause: PollCause::ReadFailed("illegal data address".to_owned())
        })
    );
    assert_eq!(device.channels[0].value, ModbusValue::Int(11));
    assert_eq!(device.channels[1].value, ModbusValue::Real(7));
    assert_eq!(device.channels[4].value, ModbusValue::Int(500));
}

#[test]
fn poll_failure_on_integer_channels_is_partial() {
    let mut device = device(vec![
        channel(1, ModbusChannelType::Int, 1, true),
        channel(2, ModbusChannelType::Int, 2, true),
        channel(3, ModbusChannelType::Int, 3, true),
    ]);
    device.channels[2].value = ModbusValue::Int(33);
    let outcomes = vec![ReadOutcome::Words(vec![100]), ReadOutcome::Failed("gone".to_owned())];
    assert_eq!(
        device.poll(&outcomes),
        Err(PollError { channel: 1, cause: PollCause::ReadFailed("gone".to_owned()) })
    );
    assert_eq!(device.channels[0].value, ModbusValue::Int(100));
    assert_eq!(device.channels[1].value, ModbusValue::Int(0));
    assert_eq!(device.channels[2].value, ModbusValue::Int(33));
}

#[test]
fn poll_without_an_outcome_fails_with_no_response() {
    let mut device = mixed();
    let outcomes = vec![ReadOutcome::Words(vec![11])];
    assert_eq!(
        device.poll(&outcomes),
        Err(PollError { channel: 1, cause: PollCause::NoResponse })
    );
    assert_eq!(device.channels[0].value, ModbusValue::Int(11));
}

#[test]
fn poll_short_response_fails() {
    let mut device = mixed();
    let outcomes = vec![ReadOutcome::Words(vec![11]), ReadOutcome::Words(vec![0x3fc0])];
    assert_eq!(
        device.poll(&outcomes),
        Err(PollError { channel: 1, cause: PollCause::ShortResponse })
    );
}

#[test]
fn poll_of_nothing_succeeds() {
    let mut empty = device(vec![]);
    assert_eq!(empty.poll(&vec![]), Ok(()));
    let mut idle = device(vec![
        channel(1, ModbusChannelType::Int, 1, false),
        channel(2, ModbusChannelType::Coil, 2, true),
    ]);
    let before = idle.clone();
    assert_eq!(idle.poll(&vec![ReadOutcome::Failed("unused".to_owned())]), Ok(()));
    assert_eq!(idle, before);
}

#[test]
fn connect_gives_the_endpoint_of_a_tcp_device() {
    let device = mixed();
    assert_eq!(device.connect_to_device(), Ok("127.0.0.1:502".to_owned()));
}

#[test]
fn connect_refuses_a_serial_device() {
    let mut device = mixed();
    device.config = ModbusDeviceConfig::Serial;
    assert_eq!(device.connect_to_device(), Err(ConnectError::UnsupportedTransport));
}

#[test]
fn connection_outcomes_map_to_errors() {
    assert_eq!(connection_result("a:1".to_owned(), ConnectOutcome::Established), Ok(()));
    assert_eq!(
        connection_result("a:1".to_owned(), ConnectOutcome::AddressRejected),
        Err(ConnectError::AddressParseError("a:1".to_owned()))
    );
    assert_eq!(
        connection_result("a:1".to_owned(), ConnectOutcome::Refused("refused".to_owned())),
        Err(ConnectError::TransportError("refused".to_owned()))
    );
}

#[test]
fn error_texts() {
    assert_eq!(ConnectError::UnsupportedTransport.message(), "unsupported transport");
    assert_eq!(
        ConnectError::AddressParseError("x:1".to_owned()).message(),
        "address parse error: x:1"
    );
    assert_eq!(ConnectError::TransportError("refused".to_owned()).message(), "transport error: refused");
    assert_eq!(PollCause::ShortResponse.message(), "short response");
    assert_eq!(PollCause::NoResponse.message(), "no response");
    assert_eq!(PollCause::ReadFailed("t".to_owned()).message(), "t");
}

#[test]
fn snapshot_is_a_copy() {
    let mut device = mixed();
    let copy = device.snapshot();
    assert_eq!(copy, device);
    device.channels[0].value = ModbusValue::Int(9);
    assert_eq!(copy.channels[0].value, ModbusValue::Int(0));
}

#[test]
fn values_are_shown() {
    assert_eq!(ModbusValue::Int(42).to_text(), "42");
    assert_eq!(ModbusValue::Real(3.0f32.to_bits()).to_text(), "3.00");
    assert_eq!(ModbusValue::Real(1.005f32.to_bits()).to_text(), format!("{:.2}", 1.005f32));
    assert_eq!(ModbusValue::Real((-2.345f32).to_bits()).to_text(), format!("{:.2}", -2.345f32));
    assert_eq!(ModbusValue::Bool(true).to_text(), "true");
    assert_eq!(ModbusValue::Bool(false).to_text(), "false");
    assert_eq!(ModbusChannelType::Int.to_text(), "INT");
    assert_eq!(ModbusChannelType::Real.to_text(), "REAL");
    assert_eq!(ModbusChannelType::Coil.to_text(), "COIL");
    assert_eq!(mixed().config.to_text(), "Modbus TCP");
    assert_eq!(ModbusDeviceConfig::Serial.to_text(), "Modbus Serial");
    assert_eq!(mixed().channels[1].to_text(), "MB2");
}

#[test]
fn validity_is_checked() {
    let mut device = mixed();
    assert!(device.is_wf());
    device.channels[1].value = ModbusValue::Int(1);
    assert!(!device.is_wf());
    assert!(!device.channels[1].is_wf());
    assert!(device.channels[0].is_wf());
}
