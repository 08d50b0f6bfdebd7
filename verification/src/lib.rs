//! Polling of Modbus field devices: register decoding, the poll cycle, calculation
//! channels over live tags, and the supervisor that drives them.
//!
//! Numbers that are not whole are held as bit patterns: a 32-bit real tag as its
//! IEEE-754 binary32 pattern (`u32`), a calculation result as its binary64 pattern
//! (`u64`). Callers convert with `from_bits` and `to_bits`. Inside the crate a pattern
//! becomes a float only where it is handed to the expression evaluator's or the
//! standard library's formatter.

pub mod calculation;
pub mod codec;
pub mod device;
pub mod ieee;
pub mod messaging;
pub mod supervisor;
pub mod text;
pub mod ui_buffer;

pub use calculation::init_channel_list;
pub use calculation::CalcError;
pub use calculation::CalculationChannel;
pub use device::init_mb_tcp_device;
pub use device::ModbusChannel;
pub use device::ModbusChannelType;
pub use device::ModbusDevice;
pub use device::ModbusDeviceConfig;
pub use device::ModbusTcpConfig;
pub use device::ModbusValue;
pub use messaging::ThreadStatus;
pub use supervisor::Supervisor;
pub use ui_buffer::ModbusDeviceBuffer;
pub use ui_buffer::ModbusDeviceType;
