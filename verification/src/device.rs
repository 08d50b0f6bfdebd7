//! Devices, their channels, and one poll cycle over them.
//!
//! Reading registers is the caller's work. The device says which registers to read
//! next ([`ModbusDevice::next_read`]) and takes what came back
//! ([`ModbusDevice::apply_read`]); [`ModbusDevice::poll`] runs a whole cycle over
//! outcomes that are already at hand.

use vstd::prelude::*;
use vstd::string::StringExecFns;
use crate::codec::decode_integer;
use crate::codec::decode_real;
use crate::codec::real_pattern;
use crate::ieee::fixed;
use crate::ieee::fixed_text;
use crate::ieee::widen_real;
use crate::ieee::widened;
use crate::text::decimal;
use crate::text::decimal_string;
use crate::text::push_decimal;

verus! {

/// The current value of a tag.
#[derive(Clone, Copy, Debug, PartialEq, Eq, Structural)]
pub enum ModbusValue {
    /// One register, unsigned.
    Int(u16),
    /// The IEEE-754 binary32 bit pattern of a real number.
    Real(u32),
    Bool(bool),
}

/// The declared type of a channel. It fixes how many registers are read and how they
/// are decoded.
#[derive(Clone, Copy, Debug, PartialEq, Eq, Structural)]
pub enum ModbusChannelType {
    Int,
    Real,
    Coil,
}

#[derive(Clone, Debug, PartialEq, Eq)]
pub struct ModbusChannel {
    pub id: usize,
    pub enabled: bool,
    pub name: String,
    pub description: String,
    pub address: u16,
    pub channel_type: ModbusChannelType,
    pub value: ModbusValue,
}

#[derive(Clone, Debug, PartialEq, Eq)]
pub struct ModbusTcpConfig {
    pub ip: String,
    pub port: usize,
}

#[derive(Clone, Debug, PartialEq, Eq)]
pub enum ModbusDeviceConfig {
    Tcp(ModbusTcpConfig),
    Serial,
}

#[derive(Clone, Debug, PartialEq, Eq)]
pub struct ModbusDevice {
    pub id: usize,
    pub code: String,
    pub name: String,
    pub config: ModbusDeviceConfig,
    pub channels: Vec<ModbusChannel>,
}

/// A request to read holding registers for the channel at position `channel`.
#[derive(Clone, Copy, Debug, PartialEq, Eq, Structural)]
pub struct ReadRequest {
    pub channel: usize,
    pub address: u16,
    pub count: u16,
}

/// What a read of holding registers came back with.
#[derive(Clone, Debug, PartialEq, Eq)]
pub enum ReadOutcome {
    Words(Vec<u16>),
    Failed(String),
}

/// Why a channel could not be updated.
#[derive(Clone, Debug, PartialEq, Eq)]
pub enum PollCause {
    /// The read itself failed; the text is what the transport or the device reported.
    ReadFailed(String),
    /// The response held fewer registers than the channel's type needs.
    ShortResponse,
    /// No outcome was supplied for the channel's request.
    NoResponse,
}

/// A poll cycle stopped at the channel at position `channel`.
#[derive(Clone, Debug, PartialEq, Eq)]
pub struct PollError {
    pub channel: usize,
    pub cause: PollCause,
}

impl ModbusChannelType {
    /// How many consecutive registers a channel of this type reads. A coil channel
    /// reads none: polling leaves it as it is.
    pub open spec fn register_count(self) -> u16 {
        match self {
            ModbusChannelType::Int => 1,
            ModbusChannelType::Real => 2,
            ModbusChannelType::Coil => 0,
        }
    }

    /// Whether a value is of the variant that this type declares.
    pub open spec fn admits(self, value: ModbusValue) -> bool {
        match self {
            ModbusChannelType::Int => value is Int,
            ModbusChannelType::Real => value is Real,
            ModbusChannelType::Coil => value is Bool,
        }
    }

    /// The value that a response decodes to. Only the first `register_count` words
    /// are looked at.
    pub open spec fn decoded(self, words: Seq<u16>, before: ModbusValue) -> ModbusValue {
        match self {
            ModbusChannelType::Int => ModbusValue::Int(words[0]),
            ModbusChannelType::Real => ModbusValue::Real(real_pattern(words[0], words[1]) as u32),
            ModbusChannelType::Coil => before,
        }
    }

    pub fn registers(&self) -> (count: u16)
        ensures
            count == self.register_count(),
    {
        match self {
            ModbusChannelType::Int => 1,
            ModbusChannelType::Real => 2,
            ModbusChannelType::Coil => 0,
        }
    }
}

impl ReadOutcome {
    /// Whether the outcome carries at least `count` registers.
    pub open spec fn supplies(self, count: u16) -> bool {
        self matches ReadOutcome::Words(words) && words@.len() >= count
    }

    pub open spec fn words(self) -> Seq<u16> {
        match self {
            ReadOutcome::Words(words) => words@,
            ReadOutcome::Failed(_) => Seq::empty(),
        }
    }

    /// Why an outcome that does not supply enough registers is refused.
    pub open spec fn refusal(self) -> PollCause {
        match self {
            ReadOutcome::Words(_) => PollCause::ShortResponse,
            ReadOutcome::Failed(message) => PollCause::ReadFailed(message),
        }
    }
}

impl ModbusChannel {
    /// The value's variant matches the declared type.
    pub open spec fn wf(self) -> bool {
        self.channel_type.admits(self.value)
    }

    /// Whether a poll cycle reads this channel: it is enabled and its type reads
    /// registers at all.
    pub open spec fn polled(self) -> bool {
        self.enabled && self.channel_type.register_count() > 0
    }

    /// The channel with the value that `words` decode to, and nothing else changed.
    pub open spec fn updated(self, words: Seq<u16>) -> ModbusChannel {
        ModbusChannel { value: self.channel_type.decoded(words, self.value), ..self }
    }

    pub fn is_polled(&self) -> (polled: bool)
        ensures
            polled == self.polled(),
    {
        self.enabled && self.channel_type.registers() > 0
    }
}

/// The channels of a device all hold values of their declared types.
pub open spec fn channels_wf(channels: Seq<ModbusChannel>) -> bool {
    forall|i: int| 0 <= i < channels.len() ==> (#[trigger] channels[i]).wf()
}

/// How many of the channels before position `upto` a poll cycle reads.
pub open spec fn reads_before(channels: Seq<ModbusChannel>, upto: int) -> nat
    decreases upto,
{
    if upto <= 0 {
        0
    } else {
        reads_before(channels, upto - 1) + if channels[upto - 1].polled() {
            1nat
        } else {
            0nat
        }
    }
}

/// The outcome that a poll cycle hands to the channel at position `i`: outcomes are
/// consumed in order, one by each channel that is read.
pub open spec fn outcome_for(
    channels: Seq<ModbusChannel>,
    outcomes: Seq<ReadOutcome>,
    i: int,
) -> Option<ReadOutcome> {
    let k = reads_before(channels, i);
    if k < outcomes.len() {
        Some(outcomes[k as int])
    } else {
        None
    }
}

/// Whether the read of the channel at position `i` fails in a poll cycle.
pub open spec fn read_fails(
    channels: Seq<ModbusChannel>,
    outcomes: Seq<ReadOutcome>,
    i: int,
) -> bool {
    channels[i].polled() && !(outcome_for(channels, outcomes, i) matches Some(outcome)
        && outcome.supplies(channels[i].channel_type.register_count()))
}

/// Why the read of the channel at position `i` fails.
pub open spec fn failure_cause(
    channels: Seq<ModbusChannel>,
    outcomes: Seq<ReadOutcome>,
    i: int,
) -> PollCause {
    match outcome_for(channels, outcomes, i) {
        Some(outcome) => outcome.refusal(),
        None => PollCause::NoResponse,
    }
}

/// The channel at position `i` after a poll cycle that got as far as position `stop`
/// (exclusive): read and updated before `stop`, untouched from there on.
pub open spec fn polled_channel(
    channels: Seq<ModbusChannel>,
    outcomes: Seq<ReadOutcome>,
    stop: int,
    i: int,
) -> ModbusChannel {
    if i < stop && channels[i].polled() {
        channels[i].updated(outcome_for(channels, outcomes, i).unwrap().words())
    } else {
        channels[i]
    }
}

/// Where a poll cycle stops: at the channel named by the error, or past the last
/// channel.
pub open spec fn poll_stop(channels: Seq<ModbusChannel>, result: Result<(), PollError>) -> int {
    match result {
        Ok(_) => channels.len() as int,
        Err(error) => error.channel as int,
    }
}

/// Channels that are not read consume no outcome.
proof fn lemma_reads_before_skips(channels: Seq<ModbusChannel>, from: int, to: int)
    requires
        0 <= from <= to,
        forall|i: int| from <= i < to ==> !(#[trigger] channels[i]).polled(),
    ensures
        reads_before(channels, to) == reads_before(channels, from),
    decreases to - from,
{
    if from < to {
        lemma_reads_before_skips(channels, from, to - 1);
    }
}

impl ModbusDevice {
    pub open spec fn wf(self) -> bool {
        channels_wf(self.channels@)
    }

    /// The next channel at or after position `from` that a poll cycle reads, with the
    /// registers to read for it. `None` when the cycle is complete.
    pub fn next_read(&self, from: usize) -> (next: Option<ReadRequest>)
        ensures
            match next {
                Some(request) => {
                    &&& from <= request.channel < self.channels@.len()
                    &&& self.channels@[request.channel as int].polled()
                    &&& request.address == self.channels@[request.channel as int].address
                    &&& request.count
                        == self.channels@[request.channel as int].channel_type.register_count()
                    &&& forall|i: int|
                        from <= i < request.channel ==> !(#[trigger] self.channels@[i]).polled()
                },
                None => forall|i: int|
                    from <= i < self.channels@.len() ==> !(#[trigger] self.channels@[i]).polled(),
            },
    {
        let mut i = from;
        while i < self.channels.len()
            invariant
                from <= i,
                forall|j: int| from <= j < i && j < self.channels@.len() ==> !(#[trigger] self.channels@[j]).polled(),
            decreases self.channels@.len() - i,
        {
            let channel = &self.channels[i];
            if channel.is_polled() {
                return Some(
                    ReadRequest {
                        channel: i,
                        address: channel.address,
                        count: channel.channel_type.registers(),
                    },
                );
            }
            i += 1;
        }
        None
    }

    /// Takes the outcome of the read for the channel at position `index`. Enough
    /// registers: the channel gets the decoded value. Anything else: nothing changes
    /// and the error names the channel. A channel that is not polled ignores the
    /// outcome, and so does a position that holds no channel.
    pub fn apply_read(&mut self, index: usize, outcome: &ReadOutcome) -> (result: Result<
        (),
        PollError,
    >)
        ensures
            final(self).id == old(self).id,
            final(self).code == old(self).code,
            final(self).name == old(self).name,
            final(self).config == old(self).config,
            old(self).wf() ==> final(self).wf(),
            ({
                let channel = old(self).channels@[index as int];
                let count = channel.channel_type.register_count();
                if index >= old(self).channels@.len() || !channel.polled() {
                    result is Ok && final(self).channels@ == old(self).channels@
                } else if outcome.supplies(count) {
                    result is Ok && final(self).channels@ == old(self).channels@.update(
                        index as int,
                        channel.updated(outcome.words()),
                    )
                } else {
                    result == Err::<(), PollError>(
                        PollError { channel: index, cause: outcome.refusal() },
                    ) && final(self).channels@ == old(self).channels@
                }
            }),
    {
        if index >= self.channels.len() || !self.channels[index].is_polled() {
            return Ok(());
        }
        let kind = self.channels[index].channel_type;
        let count = kind.registers();
        match outcome {
            ReadOutcome::Failed(message) => Err(
                PollError { channel: index, cause: PollCause::ReadFailed(message.clone()) },
            ),
            ReadOutcome::Words(words) => {
                if words.len() < count as usize {
                    return Err(PollError { channel: index, cause: PollCause::ShortResponse });
                }
                let value = match kind {
                    ModbusChannelType::Int => ModbusValue::Int(decode_integer(words[0])),
                    ModbusChannelType::Real => ModbusValue::Real(decode_real(words[0], words[1])),
                    ModbusChannelType::Coil => self.channels[index].value,
                };
                self.channels[index].value = value;
                Ok(())
            },
        }
    }
}

impl ModbusDevice {
    /// One poll cycle over outcomes that are already at hand. Channels are visited in
    /// order; each channel that is read takes the next outcome. The first read that
    /// fails ends the cycle: channels before it keep their new values, that channel
    /// and all after it are untouched.
    pub fn poll(&mut self, outcomes: &Vec<ReadOutcome>) -> (result: Result<(), PollError>)
        ensures
            final(self).id == old(self).id,
            final(self).code == old(self).code,
            final(self).name == old(self).name,
            final(self).config == old(self).config,
            old(self).wf() ==> final(self).wf(),
            match result {
                Ok(_) => forall|i: int|
                    0 <= i < old(self).channels@.len() ==> !read_fails(
                        old(self).channels@,
                        outcomes@,
                        i,
                    ),
                Err(error) => {
                    &&& error.channel < old(self).channels@.len()
                    &&& read_fails(old(self).channels@, outcomes@, error.channel as int)
                    &&& error.cause == failure_cause(
                        old(self).channels@,
                        outcomes@,
                        error.channel as int,
                    )
                    &&& forall|i: int|
                        0 <= i < error.channel ==> !read_fails(old(self).channels@, outcomes@, i)
                },
            },
            polled_to(
                old(self).channels@,
                outcomes@,
                poll_stop(old(self).channels@, result),
                final(self).channels@,
            ),
    {
        let ghost before = self.channels@;
        let mut from: usize = 0;
        let mut used: usize = 0;
        loop
            invariant
                self.id == old(self).id,
                self.code == old(self).code,
                self.name == old(self).name,
                self.config == old(self).config,
                before == old(self).channels@,
                old(self).wf() ==> self.wf(),
                self.channels@.len() == before.len(),
                from <= before.len(),
                used == reads_before(before, from as int),
                used <= from,
                forall|i: int| 0 <= i < from ==> !read_fails(before, outcomes@, i),
                forall|i: int|
                    0 <= i < before.len() ==> #[trigger] self.channels@[i] == polled_channel(
                        before,
                        outcomes@,
                        from as int,
                        i,
                    ),
            decreases before.len() - from,
        {
            let request = match self.next_read(from) {
                Some(request) => request,
                None => {
                    proof {
                        assert forall|i: int| 0 <= i < before.len() implies !read_fails(
                            before,
                            outcomes@,
                            i,
                        ) by {
                            if i >= from {
                                assert(self.channels@[i] == polled_channel(
                                    before,
                                    outcomes@,
                                    from as int,
                                    i,
                                ));
                            }
                        }
                    }
                    return Ok(());
                },
            };
            let index = request.channel;
            assert(index < self.channels.len());
            proof {
                assert forall|i: int| from <= i < index implies !(#[trigger] before[i]).polled() by {
                    assert(self.channels@[i] == polled_channel(before, outcomes@, from as int, i));
                }
                lemma_reads_before_skips(before, from as int, index as int);
            }
            if used >= outcomes.len() {
                return Err(PollError { channel: index, cause: PollCause::NoResponse });
            }
            match self.apply_read(index, &outcomes[used]) {
                Err(error) => {
                    return Err(error);
                },
                Ok(_) => {},
            }
            from = index + 1;
            used = used + 1;
        }
    }
}

/// Whether `after` are the channels `before` after a poll cycle that got as far as
/// position `stop`.
pub open spec fn polled_to(
    before: Seq<ModbusChannel>,
    outcomes: Seq<ReadOutcome>,
    stop: int,
    after: Seq<ModbusChannel>,
) -> bool {
    &&& after.len() == before.len()
    &&& forall|i: int|
        0 <= i < before.len() ==> #[trigger] after[i] == polled_channel(before, outcomes, stop, i)
}

/// Updates are partial. A poll cycle that fails at position `failing` leaves that
/// channel and every later one as it was. Every channel before it that was read
/// holds what its outcome decodes to, an integer channel the first register of it;
/// every channel before it that was not read is as it was.
pub proof fn lemma_partial_update(
    before: Seq<ModbusChannel>,
    outcomes: Seq<ReadOutcome>,
    failing: int,
    after: Seq<ModbusChannel>,
)
    requires
        0 <= failing < before.len(),
        polled_to(before, outcomes, failing, after),
    ensures
        forall|i: int| failing <= i < before.len() ==> #[trigger] after[i] == before[i],
        forall|i: int|
            0 <= i < failing && !before[i].polled() ==> #[trigger] after[i] == before[i],
        forall|i: int|
            0 <= i < failing && before[i].polled() ==> #[trigger] after[i] == before[i].updated(
                outcome_for(before, outcomes, i).unwrap().words(),
            ),
        forall|i: int|
            0 <= i < failing && before[i].polled() && before[i].channel_type
                == ModbusChannelType::Int ==> (#[trigger] after[i]).value == ModbusValue::Int(
                outcome_for(before, outcomes, i).unwrap().words()[0],
            ),
{
}

/// The binary32 pattern of 3.0, the value that a fresh channel starts with.
pub const INITIAL_REAL: u32 = 0x4040_0000;

/// Whether `channel` is the fresh channel of the given index: an enabled real
/// channel called `MB`*index* that reads two registers at twice its index.
pub open spec fn fresh_channel(channel: ModbusChannel, index: nat) -> bool {
    &&& channel.id == index
    &&& channel.enabled
    &&& channel.name@ == "MB"@ + decimal(index)
    &&& channel.description@ == "Modbus channel. No description."@
    &&& channel.address == 2 * index
    &&& channel.channel_type == ModbusChannelType::Real
    &&& channel.value == ModbusValue::Real(INITIAL_REAL)
}

/// A TCP device with `num_channels` fresh channels, numbered from 1. Channel `i`
/// reads the two registers at address `2 * i`, so the addresses have to fit in 16
/// bits.
pub fn init_mb_tcp_device(ip: String, port: usize, name: String, num_channels: usize) -> (device:
    ModbusDevice)
    requires
        2 * num_channels <= u16::MAX,
    ensures
        device.wf(),
        device.id == 0,
        device.code@ == "MB"@,
        device.name == name,
        device.config == (ModbusDeviceConfig::Tcp(ModbusTcpConfig { ip, port })),
        device.channels@.len() == num_channels,
        forall|k: int|
            0 <= k < num_channels ==> fresh_channel(#[trigger] device.channels@[k], (k + 1) as nat),
{
    let mut channels: Vec<ModbusChannel> = Vec::new();
    while channels.len() < num_channels
        invariant
            2 * num_channels <= u16::MAX,
            channels@.len() <= num_channels,
            channels_wf(channels@),
            forall|k: int|
                0 <= k < channels@.len() ==> fresh_channel(#[trigger] channels@[k], (k + 1) as nat),
        decreases num_channels - channels@.len(),
    {
        let i = channels.len() + 1;
        let mut channel_name = String::from_str("MB");
        push_decimal(&mut channel_name, i as u64);
        channels.push(
            ModbusChannel {
                id: i,
                enabled: true,
                name: channel_name,
                description: String::from_str("Modbus channel. No description."),
                address: (i * 2) as u16,
                channel_type: ModbusChannelType::Real,
                value: ModbusValue::Real(INITIAL_REAL),
            },
        );
    }
    ModbusDevice {
        id: 0,
        code: String::from_str("MB"),
        name,
        config: ModbusDeviceConfig::Tcp(ModbusTcpConfig { ip, port }),
        channels,
    }
}

/// A device as a value: what a snapshot of it holds.
pub struct DeviceState {
    pub id: usize,
    pub code: Seq<char>,
    pub name: Seq<char>,
    pub config: ModbusDeviceConfig,
    pub channels: Seq<ModbusChannel>,
}

impl View for ModbusDevice {
    type V = DeviceState;

    open spec fn view(&self) -> DeviceState {
        DeviceState {
            id: self.id,
            code: self.code@,
            name: self.name@,
            config: self.config,
            channels: self.channels@,
        }
    }
}

/// The devices of a list as values.
pub open spec fn states(devices: Seq<ModbusDevice>) -> Seq<DeviceState> {
    devices.map_values(|device: ModbusDevice| device@)
}

/// Why no connection to a device could be made.
#[derive(Clone, Debug, PartialEq, Eq)]
pub enum ConnectError {
    /// The endpoint, given here, is no socket address.
    AddressParseError(String),
    /// The session could not be opened; the text is what the transport reported.
    TransportError(String),
    /// The device is configured for a transport that is not offered.
    UnsupportedTransport,
}

/// How an attempt to open a session on an endpoint ended.
#[derive(Clone, Debug, PartialEq, Eq)]
pub enum ConnectOutcome {
    Established,
    /// The endpoint could not be read as a socket address.
    AddressRejected,
    /// The address was well formed and the session was refused or timed out.
    Refused(String),
}

impl ModbusTcpConfig {
    /// The endpoint in the form that socket addresses are written in: host, colon,
    /// port.
    pub open spec fn endpoint_text(self) -> Seq<char> {
        self.ip@ + ":"@ + decimal(self.port as nat)
    }

    pub fn endpoint(&self) -> (text: String)
        ensures
            text@ == self.endpoint_text(),
    {
        let mut text = self.ip.clone();
        text.append(":");
        push_decimal(&mut text, self.port as u64);
        text
    }

    pub fn duplicate(&self) -> (copy: ModbusTcpConfig)
        ensures
            copy == *self,
    {
        ModbusTcpConfig { ip: self.ip.clone(), port: self.port }
    }
}

impl ModbusDeviceConfig {
    pub fn duplicate(&self) -> (copy: ModbusDeviceConfig)
        ensures
            copy == *self,
    {
        match self {
            ModbusDeviceConfig::Tcp(tcp) => ModbusDeviceConfig::Tcp(tcp.duplicate()),
            ModbusDeviceConfig::Serial => ModbusDeviceConfig::Serial,
        }
    }
}

impl ConnectError {
    pub open spec fn message_text(self) -> Seq<char> {
        match self {
            ConnectError::AddressParseError(endpoint) => "address parse error: "@ + endpoint@,
            ConnectError::TransportError(detail) => "transport error: "@ + detail@,
            ConnectError::UnsupportedTransport => "unsupported transport"@,
        }
    }

    pub fn message(&self) -> (text: String)
        ensures
            text@ == self.message_text(),
    {
        match self {
            ConnectError::AddressParseError(endpoint) => {
                let mut text = String::from_str("address parse error: ");
                text.append(endpoint.as_str());
                text
            },
            ConnectError::TransportError(detail) => {
                let mut text = String::from_str("transport error: ");
                text.append(detail.as_str());
                text
            },
            ConnectError::UnsupportedTransport => String::from_str("unsupported transport"),
        }
    }
}

impl PollCause {
    pub open spec fn message_text(self) -> Seq<char> {
        match self {
            PollCause::ReadFailed(detail) => detail@,
            PollCause::ShortResponse => "short response"@,
            PollCause::NoResponse => "no response"@,
        }
    }

    pub fn message(&self) -> (text: String)
        ensures
            text@ == self.message_text(),
    {
        match self {
            PollCause::ReadFailed(detail) => detail.clone(),
            PollCause::ShortResponse => String::from_str("short response"),
            PollCause::NoResponse => String::from_str("no response"),
        }
    }
}

impl ModbusChannel {
    pub fn duplicate(&self) -> (copy: ModbusChannel)
        ensures
            copy == *self,
    {
        ModbusChannel {
            id: self.id,
            enabled: self.enabled,
            name: self.name.clone(),
            description: self.description.clone(),
            address: self.address,
            channel_type: self.channel_type,
            value: self.value,
        }
    }

    /// Whether the value's variant matches the declared type.
    pub fn is_wf(&self) -> (ok: bool)
        ensures
            ok == self.wf(),
    {
        match self.channel_type {
            ModbusChannelType::Int => match self.value {
                ModbusValue::Int(_) => true,
                _ => false,
            },
            ModbusChannelType::Real => match self.value {
                ModbusValue::Real(_) => true,
                _ => false,
            },
            ModbusChannelType::Coil => match self.value {
                ModbusValue::Bool(_) => true,
                _ => false,
            },
        }
    }
}

/// The position of the first channel at or after `from` that a poll cycle reads, or
/// the number of channels if there is none.
pub open spec fn first_polled(channels: Seq<ModbusChannel>, from: int) -> int
    decreases channels.len() - from,
{
    if from < 0 || from >= channels.len() {
        channels.len() as int
    } else if channels[from].polled() {
        from
    } else {
        first_polled(channels, from + 1)
    }
}

/// Where a poll goes on from this channel of this device: the next channel that is
/// read, in this device or a later one, as a pair of positions. `None` when nothing
/// is left to read.
pub open spec fn cursor_from(devices: Seq<DeviceState>, device: int, channel: int) -> Option<
    (int, int),
>
    decreases devices.len() - device,
{
    if device < 0 || device >= devices.len() {
        None
    } else {
        let at = first_polled(devices[device].channels, channel);
        if at < devices[device].channels.len() {
            Some((device, at))
        } else {
            cursor_from(devices, device + 1, 0)
        }
    }
}

/// Which channel is read next depends on which channels are polled, not on what
/// they hold.
pub(crate) proof fn lemma_first_polled_by_flags(
    a: Seq<ModbusChannel>,
    b: Seq<ModbusChannel>,
    from: int,
)
    requires
        a.len() == b.len(),
        forall|i: int| 0 <= i < a.len() ==> a[i].polled() == b[i].polled(),
    ensures
        first_polled(a, from) == first_polled(b, from),
    decreases a.len() - from,
{
    if 0 <= from < a.len() && !a[from].polled() {
        lemma_first_polled_by_flags(a, b, from + 1);
    }
}

/// `first_polled` is a position at or after `from`, and that of a polled channel if
/// it is one of a channel at all.
pub(crate) proof fn lemma_first_polled_bounds(channels: Seq<ModbusChannel>, from: int)
    requires
        0 <= from,
    ensures
        first_polled(channels, from) <= channels.len(),
        from <= channels.len() ==> from <= first_polled(channels, from),
        first_polled(channels, from) < channels.len() ==> channels[first_polled(
            channels,
            from,
        )].polled(),
    decreases channels.len() - from,
{
    if from < channels.len() && !channels[from].polled() {
        lemma_first_polled_bounds(channels, from + 1);
    }
}

/// `first_polled` is the position that no polled channel comes before.
pub(crate) proof fn lemma_first_polled(channels: Seq<ModbusChannel>, from: int, at: int)
    requires
        0 <= from <= at <= channels.len(),
        forall|i: int| from <= i < at ==> !(#[trigger] channels[i]).polled(),
        at < channels.len() ==> channels[at].polled(),
    ensures
        first_polled(channels, from) == at,
    decreases at - from,
{
    if from < at {
        lemma_first_polled(channels, from + 1, at);
    }
}

impl ModbusDevice {
    /// A copy of the device as it is now.
    pub fn snapshot(&self) -> (copy: ModbusDevice)
        ensures
            copy@ == self@,
    {
        let mut channels: Vec<ModbusChannel> = Vec::new();
        let mut i: usize = 0;
        while i < self.channels.len()
            invariant
                i <= self.channels@.len(),
                channels@ == self.channels@.take(i as int),
            decreases self.channels@.len() - i,
        {
            channels.push(self.channels[i].duplicate());
            i += 1;
        }
        assert(self.channels@.take(i as int) =~= self.channels@);
        ModbusDevice {
            id: self.id,
            code: self.code.clone(),
            name: self.name.clone(),
            config: self.config.duplicate(),
            channels,
        }
    }

    /// Where to connect to. A TCP device gives its endpoint; a serial device cannot
    /// be connected to.
    pub fn connect_to_device(&self) -> (target: Result<String, ConnectError>)
        ensures
            match self.config {
                ModbusDeviceConfig::Tcp(tcp) => target matches Ok(endpoint) && endpoint@
                    == tcp.endpoint_text(),
                ModbusDeviceConfig::Serial => target == Err::<String, ConnectError>(
                    ConnectError::UnsupportedTransport,
                ),
            },
    {
        match &self.config {
            ModbusDeviceConfig::Tcp(tcp) => Ok(tcp.endpoint()),
            ModbusDeviceConfig::Serial => Err(ConnectError::UnsupportedTransport),
        }
    }

    /// Whether every channel holds a value of its declared type.
    pub fn is_wf(&self) -> (ok: bool)
        ensures
            ok == self.wf(),
    {
        let mut i: usize = 0;
        while i < self.channels.len()
            invariant
                i <= self.channels@.len(),
                forall|j: int| 0 <= j < i ==> (#[trigger] self.channels@[j]).wf(),
            decreases self.channels@.len() - i,
        {
            if !self.channels[i].is_wf() {
                return false;
            }
            i += 1;
        }
        true
    }
}

/// What became of an attempt to connect to `endpoint`.
pub fn connection_result(endpoint: String, outcome: ConnectOutcome) -> (result: Result<
    (),
    ConnectError,
>)
    ensures
        match outcome {
            ConnectOutcome::Established => result is Ok,
            ConnectOutcome::AddressRejected => result == Err::<(), ConnectError>(
                ConnectError::AddressParseError(endpoint),
            ),
            ConnectOutcome::Refused(detail) => result == Err::<(), ConnectError>(
                ConnectError::TransportError(detail),
            ),
        },
{
    match outcome {
        ConnectOutcome::Established => Ok(()),
        ConnectOutcome::AddressRejected => Err(ConnectError::AddressParseError(endpoint)),
        ConnectOutcome::Refused(detail) => Err(ConnectError::TransportError(detail)),
    }
}

impl ModbusValue {
    /// The value as it is shown: an integer as its decimal numeral, a real with two
    /// digits after the decimal point, a boolean as `true` or `false`.
    pub open spec fn shown(self) -> Seq<char> {
        match self {
            ModbusValue::Int(n) => decimal(n as nat),
            ModbusValue::Real(bits) => fixed_text(widened(bits)),
            ModbusValue::Bool(b) => if b {
                "true"@
            } else {
                "false"@
            },
        }
    }

    pub fn to_text(&self) -> (text: String)
        ensures
            text@ == self.shown(),
    {
        match self {
            ModbusValue::Int(n) => decimal_string(*n as u64),
            ModbusValue::Real(bits) => fixed(widen_real(*bits)),
            ModbusValue::Bool(b) => if *b {
                String::from_str("true")
            } else {
                String::from_str("false")
            },
        }
    }
}

impl ModbusChannelType {
    pub open spec fn shown(self) -> Seq<char> {
        match self {
            ModbusChannelType::Int => "INT"@,
            ModbusChannelType::Real => "REAL"@,
            ModbusChannelType::Coil => "COIL"@,
        }
    }

    /// The name of the type as it is shown.
    pub fn to_text(&self) -> (text: String)
        ensures
            text@ == self.shown(),
    {
        match self {
            ModbusChannelType::Int => String::from_str("INT"),
            ModbusChannelType::Real => String::from_str("REAL"),
            ModbusChannelType::Coil => String::from_str("COIL"),
        }
    }
}

impl ModbusDeviceConfig {
    pub open spec fn shown(self) -> Seq<char> {
        match self {
            ModbusDeviceConfig::Tcp(_) => "Modbus TCP"@,
            ModbusDeviceConfig::Serial => "Modbus Serial"@,
        }
    }

    /// The name of the transport as it is shown.
    pub fn to_text(&self) -> (text: String)
        ensures
            text@ == self.shown(),
    {
        match self {
            ModbusDeviceConfig::Tcp(_) => String::from_str("Modbus TCP"),
            ModbusDeviceConfig::Serial => String::from_str("Modbus Serial"),
        }
    }
}

impl ModbusChannel {
    /// A channel is shown by its name.
    pub fn to_text(&self) -> (text: String)
        ensures
            text@ == self.name@,
    {
        self.name.clone()
    }
}

} // verus!
