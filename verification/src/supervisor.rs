//! The polling supervisor: connect, poll, calculate, pause, and reconnect on failure.
//!
//! The supervisor decides; its caller acts. Every step takes what the last request
//! came back with and returns the next request: connect to an endpoint, sleep, look
//! for a configuration update, or read registers. Statuses and snapshots for the
//! consumer are put into two bounded queues. There is no last state: whatever
//! happens, the supervisor has a next request.
//!
//! A failed connection is followed by a fixed pause before the next attempt, without
//! growth and without a limit on the number of attempts. A failed poll goes straight
//! to a new connection attempt.

use vstd::prelude::*;
use vstd::string::StringExecFns;
use crate::calculation::CalculationChannel;
use crate::calculation::substituted;
use crate::device::ConnectError;
use crate::device::ConnectOutcome;
use crate::device::DeviceState;
use crate::device::ModbusDevice;
use crate::device::ModbusDeviceConfig;
use crate::device::PollCause;
use crate::device::ReadOutcome;
use crate::device::connection_result;
use crate::device::cursor_from;
use crate::device::first_polled;
use crate::device::lemma_first_polled_bounds;
use crate::device::lemma_first_polled_by_flags;
use crate::device::states;
use crate::ieee::double_finite;
use crate::messaging::Outbox;
use crate::messaging::Queue;
use crate::messaging::StatusText;
use crate::messaging::ThreadStatus;

verus! {

/// The pause after a failed connection attempt, in milliseconds.
pub const BACKOFF_MILLIS: u64 = 5000;

/// The pause between two poll cycles, in milliseconds.
pub const POLL_MILLIS: u64 = 1000;

/// How long a connection attempt may take before it counts as refused, in
/// milliseconds.
pub const CONNECT_TIMEOUT_MILLIS: u64 = 3000;

/// How long a read of registers may take before it counts as failed, in
/// milliseconds.
pub const READ_TIMEOUT_MILLIS: u64 = 1000;

/// How many statuses, and how many snapshots, may wait for the consumer.
pub const QUEUE_CAPACITY: usize = 16;

/// What the supervisor is waiting for.
#[derive(Clone, Copy, Debug, PartialEq, Eq, Structural)]
pub enum Phase {
    /// For the outcome of the connection attempt to the device at this position.
    Connecting { device: usize },
    /// For the pause after a failed connection attempt to pass.
    Backoff,
    /// For a look into the queue of configuration updates.
    AwaitingConfig,
    /// For the registers of this channel of this device.
    Reading { device: usize, channel: usize },
    /// For the pause between two poll cycles to pass.
    Pausing,
}

/// The state of the link to the devices.
#[derive(Clone, Copy, Debug, PartialEq, Eq, Structural)]
pub enum LinkState {
    Disconnected,
    Connecting,
    Connected,
}

impl Phase {
    pub open spec fn link(self) -> LinkState {
        match self {
            Phase::Connecting { .. } => LinkState::Connecting,
            Phase::Backoff => LinkState::Disconnected,
            Phase::AwaitingConfig => LinkState::Connected,
            Phase::Reading { .. } => LinkState::Connected,
            Phase::Pausing => LinkState::Connected,
        }
    }
}

/// New connection parameters for the device at position `device`.
#[derive(Clone, Debug, PartialEq, Eq)]
pub struct ConfigUpdate {
    pub device: usize,
    pub config: ModbusDeviceConfig,
}

/// What the last request came back with.
#[derive(Clone, Debug, PartialEq, Eq)]
pub enum Event {
    Connection(ConnectOutcome),
    /// The pause has passed.
    Elapsed,
    /// The head of the queue of configuration updates, if there was one.
    Config(Option<ConfigUpdate>),
    Registers(ReadOutcome),
}

/// What the caller is to do next.
#[derive(Clone, Debug, PartialEq, Eq)]
pub enum Request {
    Connect { device: usize, endpoint: String },
    Sleep { millis: u64 },
    /// Take at most one configuration update, without waiting for one.
    TakeConfig,
    Read { device: usize, address: u16, count: u16 },
}

/// A request over plain text.
pub enum RequestText {
    Connect { device: usize, endpoint: Seq<char> },
    Sleep { millis: u64 },
    TakeConfig,
    Read { device: usize, address: u16, count: u16 },
}

impl View for Request {
    type V = RequestText;

    open spec fn view(&self) -> RequestText {
        match self {
            Request::Connect { device, endpoint } => RequestText::Connect {
                device: *device,
                endpoint: endpoint@,
            },
            Request::Sleep { millis } => RequestText::Sleep { millis: *millis },
            Request::TakeConfig => RequestText::TakeConfig,
            Request::Read { device, address, count } => RequestText::Read {
                device: *device,
                address: *address,
                count: *count,
            },
        }
    }
}

/// Why a configuration cannot be supervised.
#[derive(Clone, Copy, Debug, PartialEq, Eq, Structural)]
pub enum ConfigError {
    /// A channel of the device at this position holds a value that is not of its
    /// declared type.
    ValueMismatch { device: usize },
    /// The calculation channel at this position has an id that is not greater than
    /// the one before it.
    CalculationOrder { position: usize },
}

/// The calculation channels are listed by ascending id, no id twice.
pub open spec fn ids_ascending(calculations: Seq<CalculationChannel>) -> bool {
    forall|i: int|
        0 < i < calculations.len() ==> calculations[i - 1].id < (#[trigger] calculations[i]).id
}

pub open spec fn devices_wf(devices: Seq<DeviceState>) -> bool {
    forall|d: int|
        0 <= d < devices.len() ==> crate::device::channels_wf((#[trigger] devices[d]).channels)
}

/// The queue after the same item was offered `times` times.
pub open spec fn offer_times<T>(queue: Queue<T>, item: T, times: int) -> Queue<T>
    decreases times,
{
    if times <= 0 {
        queue
    } else {
        offer_times(queue, item, times - 1).offer(item)
    }
}

/// The queue after the devices at positions `from` to `to` (exclusive) were offered
/// in order.
pub open spec fn offer_snapshots(
    queue: Queue<DeviceState>,
    devices: Seq<DeviceState>,
    from: int,
    to: int,
) -> Queue<DeviceState>
    decreases to - from,
{
    if to <= from {
        queue
    } else {
        offer_snapshots(queue, devices, from, to - 1).offer(devices[to - 1])
    }
}

/// The status that reports a failed calculation.
pub open spec fn calculation_error_text(channel: CalculationChannel) -> Seq<char> {
    "calculation error: "@ + channel.name@ + ": "@ + channel.error.unwrap()@
}

/// The status that reports a failed poll.
pub open spec fn poll_error_text(channel: Seq<char>, cause: PollCause) -> Seq<char> {
    "poll error: "@ + channel + ": "@ + cause.message_text()
}

/// The queue after one error status was offered for each of the first `upto`
/// calculation channels that is enabled and holds an error, in order.
pub open spec fn offer_calculation_errors(
    queue: Queue<StatusText>,
    calculations: Seq<CalculationChannel>,
    upto: int,
) -> Queue<StatusText>
    decreases upto,
{
    if upto <= 0 {
        queue
    } else {
        let before = offer_calculation_errors(queue, calculations, upto - 1);
        let channel = calculations[upto - 1];
        if channel.enabled && channel.error is Some {
            before.offer(StatusText::Error(calculation_error_text(channel)))
        } else {
            before
        }
    }
}

/// What one evaluation round does to one calculation channel. A disabled channel is
/// left alone. An enabled one either has a new finite result and no error, or its
/// old result and an error; a reference that cannot be replaced always gives the
/// latter.
pub open spec fn evaluated(
    before: CalculationChannel,
    devices: Seq<DeviceState>,
    after: CalculationChannel,
) -> bool {
    if !before.enabled {
        after == before
    } else {
        &&& after.same_channel(before)
        &&& match substituted(before.calculation@, devices) {
            Err(fault) => after.failed_from(before, fault.message()),
            Ok(_) => (after.error is None && double_finite(after.value)) || (after.error is Some
                && after.value == before.value),
        }
    }
}

/// A supervisor as a value.
pub struct SupervisorState {
    pub devices: Seq<DeviceState>,
    pub calculations: Seq<CalculationChannel>,
    pub phase: Phase,
    pub statuses: Queue<StatusText>,
    pub snapshots: Queue<DeviceState>,
}

impl SupervisorState {
    pub open spec fn wf(self) -> bool {
        &&& devices_wf(self.devices)
        &&& ids_ascending(self.calculations)
        &&& self.statuses.bounded()
        &&& self.snapshots.bounded()
        &&& match self.phase {
            Phase::Connecting { device } => device < self.devices.len()
                && self.devices[device as int].config is Tcp,
            Phase::Reading { device, channel } => {
                &&& device < self.devices.len()
                &&& channel < self.devices[device as int].channels.len()
                &&& self.devices[device as int].channels[channel as int].polled()
            },
            _ => true,
        }
    }

    /// With one more status offered to the consumer.
    pub open spec fn reporting(self, status: StatusText) -> SupervisorState {
        SupervisorState { statuses: self.statuses.offer(status), ..self }
    }

    pub open spec fn in_phase(self, phase: Phase) -> SupervisorState {
        SupervisorState { phase, ..self }
    }

    /// Connecting goes on with the device at position `device`. Past the last
    /// device the link is up. A device that cannot be connected to ends the attempt.
    pub open spec fn connecting_from(self, device: int) -> SupervisorState {
        if device < 0 || device >= self.devices.len() {
            self.reporting(StatusText::Healthy("connected"@)).in_phase(Phase::AwaitingConfig)
        } else if self.devices[device].config is Serial {
            self.reporting(
                StatusText::Error(ConnectError::UnsupportedTransport.message_text()),
            ).in_phase(Phase::Backoff)
        } else {
            self.in_phase(Phase::Connecting { device: device as usize })
        }
    }

    /// The attempt to connect to `device` came back.
    pub open spec fn connected(self, device: int, outcome: ConnectOutcome) -> SupervisorState {
        match outcome {
            ConnectOutcome::Established => self.connecting_from(device + 1),
            ConnectOutcome::AddressRejected => self.reporting(
                StatusText::Error(
                    "address parse error: "@ + self.devices[device].config->Tcp_0.endpoint_text(),
                ),
            ).in_phase(Phase::Backoff),
            ConnectOutcome::Refused(detail) => self.reporting(
                StatusText::Error("transport error: "@ + detail@),
            ).in_phase(Phase::Backoff),
        }
    }

    /// With what a look into the configuration queue found applied. An update for a
    /// device that is not there is reported and dropped.
    pub open spec fn configured(self, update: Option<ConfigUpdate>) -> SupervisorState {
        match update {
            None => self,
            Some(update) => if update.device < self.devices.len() {
                SupervisorState {
                    devices: self.devices.update(
                        update.device as int,
                        DeviceState { config: update.config, ..self.devices[update.device as int] },
                    ),
                    ..self
                }.reporting(StatusText::Healthy("config update"@))
            } else {
                self.reporting(StatusText::Error("config update: no such device"@))
            },
        }
    }

    /// With new registers taken into one channel.
    pub open spec fn with_channel(self, device: int, channel: int, words: Seq<u16>) -> SupervisorState {
        let before = self.devices[device];
        SupervisorState {
            devices: self.devices.update(
                device,
                DeviceState {
                    channels: before.channels.update(
                        channel,
                        before.channels[channel].updated(words),
                    ),
                    ..before
                },
            ),
            ..self
        }
    }

    /// Reading goes on at this channel of this device. Every device that is left
    /// behind complete is reported healthy and its snapshot offered. When no device
    /// is left the cycle pauses.
    pub open spec fn reading_from(self, device: int, channel: int) -> SupervisorState {
        let cursor = cursor_from(self.devices, device, channel);
        let stop = match cursor {
            Some((d, _)) => d,
            None => self.devices.len() as int,
        };
        SupervisorState {
            phase: match cursor {
                Some((d, c)) => Phase::Reading { device: d as usize, channel: c as usize },
                None => Phase::Pausing,
            },
            statuses: offer_times(self.statuses, StatusText::Healthy("Healthy"@), stop - device),
            snapshots: offer_snapshots(self.snapshots, self.devices, device, stop),
            ..self
        }
    }

    /// Whether `next` is this state after one round of calculations: every enabled
    /// channel evaluated, in order, and every failure reported.
    pub open spec fn calculated(self, next: SupervisorState) -> bool {
        &&& next.devices == self.devices
        &&& next.phase == self.phase
        &&& next.snapshots == self.snapshots
        &&& next.calculations.len() == self.calculations.len()
        &&& forall|i: int|
            0 <= i < self.calculations.len() ==> evaluated(
                self.calculations[i],
                self.devices,
                #[trigger] next.calculations[i],
            )
        &&& next.statuses == offer_calculation_errors(
            self.statuses,
            next.calculations,
            next.calculations.len() as int,
        )
    }

    /// Whether `next` is this state after polling went on at this channel of this
    /// device: either it waits for the next registers, or the cycle is complete and
    /// the calculations have run.
    pub open spec fn polled_from(self, device: int, channel: int, next: SupervisorState) -> bool {
        let reading = self.reading_from(device, channel);
        if reading.phase is Pausing {
            reading.calculated(next)
        } else {
            next == reading
        }
    }

    /// The registers for this channel of this device came back.
    pub open spec fn registered(
        self,
        device: int,
        channel: int,
        outcome: ReadOutcome,
        next: SupervisorState,
    ) -> bool {
        let target = self.devices[device].channels[channel];
        if outcome.supplies(target.channel_type.register_count()) {
            self.with_channel(device, channel, outcome.words()).polled_from(
                device,
                channel + 1,
                next,
            )
        } else {
            next == self.reporting(
                StatusText::Error(poll_error_text(target.name@, outcome.refusal())),
            ).connecting_from(0)
        }
    }

    /// Whether `next` is this state after `event`. An event that does not answer
    /// what the supervisor waits for changes nothing.
    pub open spec fn steps_to(self, event: Event, next: SupervisorState) -> bool {
        match (self.phase, event) {
            (Phase::Connecting { device }, Event::Connection(outcome)) => next == self.connected(
                device as int,
                outcome,
            ),
            (Phase::Backoff, Event::Elapsed) => next == self.connecting_from(0),
            (Phase::AwaitingConfig, Event::Config(update)) => self.configured(update).polled_from(
                0,
                0,
                next,
            ),
            (Phase::Reading { device, channel }, Event::Registers(outcome)) => self.registered(
                device as int,
                channel as int,
                outcome,
                next,
            ),
            (Phase::Pausing, Event::Elapsed) => next == self.in_phase(Phase::AwaitingConfig),
            _ => next == self,
        }
    }

    /// What the supervisor asks of its caller in this state.
    pub open spec fn request(self) -> RequestText {
        match self.phase {
            Phase::Connecting { device } => RequestText::Connect {
                device,
                endpoint: self.devices[device as int].config->Tcp_0.endpoint_text(),
            },
            Phase::Backoff => RequestText::Sleep { millis: BACKOFF_MILLIS },
            Phase::AwaitingConfig => RequestText::TakeConfig,
            Phase::Reading { device, channel } => RequestText::Read {
                device,
                address: self.devices[device as int].channels[channel as int].address,
                count: self.devices[device as int].channels[channel
                    as int].channel_type.register_count(),
            },
            Phase::Pausing => RequestText::Sleep { millis: POLL_MILLIS },
        }
    }
}

/// The supervisor of a list of devices and of the calculation channels over them.
pub struct Supervisor {
    devices: Vec<ModbusDevice>,
    calculations: Vec<CalculationChannel>,
    phase: Phase,
    statuses: Outbox<ThreadStatus>,
    snapshots: Outbox<ModbusDevice>,
}

impl View for Supervisor {
    type V = SupervisorState;

    closed spec fn view(&self) -> SupervisorState {
        SupervisorState {
            devices: states(self.devices@),
            calculations: self.calculations@,
            phase: self.phase,
            statuses: self.statuses@,
            snapshots: self.snapshots@,
        }
    }
}

/// Which errors are reported for the first `upto` calculation channels depends on
/// those channels alone.
proof fn lemma_calculation_errors_prefix(
    queue: Queue<StatusText>,
    a: Seq<CalculationChannel>,
    b: Seq<CalculationChannel>,
    upto: int,
)
    requires
        upto <= a.len(),
        upto <= b.len(),
        forall|i: int| 0 <= i < upto ==> a[i] == b[i],
    ensures
        offer_calculation_errors(queue, a, upto) == offer_calculation_errors(queue, b, upto),
    decreases upto,
{
    if upto > 0 {
        lemma_calculation_errors_prefix(queue, a, b, upto - 1);
    }
}

impl Supervisor {
    fn report(&mut self, status: ThreadStatus)
        ensures
            final(self)@ == old(self)@.reporting(status@),
            final(self).devices == old(self).devices,
    {
        self.statuses.push(status);
    }

    /// Goes on connecting with the device at position `device`.
    fn connect_from(&mut self, device: usize)
        requires
            devices_wf(old(self)@.devices),
            ids_ascending(old(self)@.calculations),
            old(self)@.statuses.bounded(),
            old(self)@.snapshots.bounded(),
        ensures
            final(self)@ == old(self)@.connecting_from(device as int),
            final(self)@.wf(),
    {
        if device >= self.devices.len() {
            self.report(ThreadStatus::Healthy(String::from_str("connected")));
            self.phase = Phase::AwaitingConfig;
            return;
        }
        match self.devices[device].connect_to_device() {
            Ok(_) => {
                self.phase = Phase::Connecting { device };
            },
            Err(error) => {
                self.report(ThreadStatus::Error(error.message()));
                self.phase = Phase::Backoff;
            },
        }
    }
}

impl Supervisor {
    /// Goes on reading at this channel of this device.
    fn read_from(&mut self, device: usize, channel: usize)
        requires
            device <= old(self)@.devices.len(),
            devices_wf(old(self)@.devices),
            ids_ascending(old(self)@.calculations),
            old(self)@.statuses.bounded(),
            old(self)@.snapshots.bounded(),
        ensures
            final(self)@ == old(self)@.reading_from(device as int, channel as int),
            final(self)@.wf(),
    {
        let ghost before = self@;
        let mut d: usize = device;
        let mut c: usize = channel;
        while d < self.devices.len()
            invariant
                device <= d <= self.devices@.len(),
                before == old(self)@,
                devices_wf(before.devices),
                ids_ascending(before.calculations),
                self@.devices == before.devices,
                self@.calculations == before.calculations,
                self@.phase == before.phase,
                cursor_from(before.devices, device as int, channel as int) == cursor_from(
                    before.devices,
                    d as int,
                    c as int,
                ),
                self@.statuses == offer_times(
                    before.statuses,
                    StatusText::Healthy("Healthy"@),
                    d - device,
                ),
                self@.snapshots == offer_snapshots(
                    before.snapshots,
                    before.devices,
                    device as int,
                    d as int,
                ),
                self@.statuses.bounded(),
                self@.snapshots.bounded(),
            decreases self.devices@.len() - d,
        {
            let ghost channels = self.devices@[d as int].channels@;
            match self.devices[d].next_read(c) {
                Some(request) => {
                    proof {
                        crate::device::lemma_first_polled(
                            channels,
                            c as int,
                            request.channel as int,
                        );
                    }
                    self.phase = Phase::Reading { device: d, channel: request.channel };
                    return;
                },
                None => {
                    proof {
                        if c <= channels.len() {
                            crate::device::lemma_first_polled(
                                channels,
                                c as int,
                                channels.len() as int,
                            );
                        }
                    }
                },
            }
            let copy = self.devices[d].snapshot();
            self.statuses.push(ThreadStatus::Healthy(String::from_str("Healthy")));
            self.snapshots.push(copy);
            d = d + 1;
            c = 0;
        }
        self.phase = Phase::Pausing;
    }

    /// Evaluates every enabled calculation channel, in order, and reports each
    /// failure.
    fn calculate(&mut self)
        requires
            old(self)@.wf(),
        ensures
            old(self)@.calculated(final(self)@),
            final(self)@.wf(),
    {
        let ghost before = self@;
        let mut i: usize = 0;
        while i < self.calculations.len()
            invariant
                before == old(self)@,
                before.wf(),
                i <= self.calculations@.len(),
                self@.devices == before.devices,
                self@.phase == before.phase,
                self@.snapshots == before.snapshots,
                self@.calculations.len() == before.calculations.len(),
                forall|k: int|
                    0 <= k < i ==> evaluated(
                        before.calculations[k],
                        before.devices,
                        #[trigger] self@.calculations[k],
                    ),
                forall|k: int|
                    i <= k < before.calculations.len() ==> #[trigger] self@.calculations[k]
                        == before.calculations[k],
                forall|k: int|
                    0 <= k < before.calculations.len() ==> (#[trigger] self@.calculations[k]).id
                        == before.calculations[k].id,
                self@.statuses == offer_calculation_errors(
                    before.statuses,
                    self@.calculations,
                    i as int,
                ),
                self@.statuses.bounded(),
            decreases self.calculations@.len() - i,
        {
            let ghost earlier = self@.calculations;
            if self.calculations[i].enabled {
                let result = self.calculations[i].evaluate(&self.devices);
                proof {
                    lemma_calculation_errors_prefix(
                        before.statuses,
                        earlier,
                        self@.calculations,
                        i as int,
                    );
                }
                match result {
                    Ok(_) => {},
                    Err(error) => {
                        let mut text = String::from_str("calculation error: ");
                        text.append(self.calculations[i].name.as_str());
                        text.append(": ");
                        let message = error.message();
                        text.append(message.as_str());
                        self.statuses.push(ThreadStatus::Error(text));
                    },
                }
            }
            i = i + 1;
        }
    }

    /// Goes on polling at this channel of this device, and runs the calculations
    /// when the cycle is complete.
    fn poll_from(&mut self, device: usize, channel: usize)
        requires
            device <= old(self)@.devices.len(),
            devices_wf(old(self)@.devices),
            ids_ascending(old(self)@.calculations),
            old(self)@.statuses.bounded(),
            old(self)@.snapshots.bounded(),
        ensures
            old(self)@.polled_from(device as int, channel as int, final(self)@),
            final(self)@.wf(),
    {
        self.read_from(device, channel);
        match self.phase {
            Phase::Pausing => {
                self.calculate();
            },
            _ => {},
        }
    }
}

/// The state that a supervisor starts from before its first connection attempt.
pub open spec fn initial_state(
    devices: Seq<DeviceState>,
    calculations: Seq<CalculationChannel>,
    capacity: usize,
) -> SupervisorState {
    SupervisorState {
        devices,
        calculations,
        phase: Phase::Backoff,
        statuses: Queue { waiting: Seq::empty(), limit: capacity as nat, dropped: 0 },
        snapshots: Queue { waiting: Seq::empty(), limit: capacity as nat, dropped: 0 },
    }
}

/// The first fault of a configuration, if it has one: the first device with a
/// channel whose value is not of its declared type, else the first calculation
/// channel whose id is not greater than the one before it.
pub open spec fn config_fault(
    devices: Seq<DeviceState>,
    calculations: Seq<CalculationChannel>,
    fault: ConfigError,
) -> bool {
    match fault {
        ConfigError::ValueMismatch { device } => {
            &&& device < devices.len()
            &&& !crate::device::channels_wf(devices[device as int].channels)
            &&& forall|d: int|
                0 <= d < device ==> crate::device::channels_wf((#[trigger] devices[d]).channels)
        },
        ConfigError::CalculationOrder { position } => {
            &&& devices_wf(devices)
            &&& 0 < position < calculations.len()
            &&& calculations[position - 1].id >= calculations[position as int].id
            &&& forall|i: int|
                0 < i < position ==> calculations[i - 1].id < (#[trigger] calculations[i]).id
        },
    }
}

impl Supervisor {
    /// A supervisor for these devices and calculation channels, with queues towards
    /// the consumer that hold `capacity` items each. It starts with the first
    /// connection attempt. A configuration that breaks the data model is refused.
    pub fn new(
        devices: Vec<ModbusDevice>,
        calculations: Vec<CalculationChannel>,
        capacity: usize,
    ) -> (result: Result<Supervisor, ConfigError>)
        ensures
            match result {
                Ok(supervisor) => {
                    &&& devices_wf(states(devices@))
                    &&& ids_ascending(calculations@)
                    &&& supervisor@ == initial_state(
                        states(devices@),
                        calculations@,
                        capacity,
                    ).connecting_from(0)
                    &&& supervisor@.wf()
                },
                Err(fault) => config_fault(states(devices@), calculations@, fault),
            },
    {
        let mut d: usize = 0;
        while d < devices.len()
            invariant
                d <= devices@.len(),
                forall|k: int|
                    0 <= k < d ==> crate::device::channels_wf(
                        (#[trigger] states(devices@)[k]).channels,
                    ),
            decreases devices@.len() - d,
        {
            if !devices[d].is_wf() {
                return Err(ConfigError::ValueMismatch { device: d });
            }
            d = d + 1;
        }
        let mut i: usize = 1;
        while i < calculations.len()
            invariant
                1 <= i,
                devices_wf(states(devices@)),
                forall|k: int|
                    0 < k < i && k < calculations@.len() ==> calculations@[k - 1].id < (
                    #[trigger] calculations@[k]).id,
            decreases calculations@.len() - i,
        {
            if calculations[i - 1].id >= calculations[i].id {
                return Err(ConfigError::CalculationOrder { position: i });
            }
            i = i + 1;
        }
        let mut supervisor = Supervisor {
            devices,
            calculations,
            phase: Phase::Backoff,
            statuses: Outbox::new(capacity),
            snapshots: Outbox::new(capacity),
        };
        supervisor.connect_from(0);
        Ok(supervisor)
    }

    /// Applies what a look into the configuration queue found.
    fn configure(&mut self, update: Option<ConfigUpdate>)
        requires
            old(self)@.wf(),
        ensures
            final(self)@ == old(self)@.configured(update),
            devices_wf(final(self)@.devices),
            ids_ascending(final(self)@.calculations),
            final(self)@.statuses.bounded(),
            final(self)@.snapshots.bounded(),
    {
        match update {
            None => {},
            Some(update) => {
                if update.device < self.devices.len() {
                    let ghost before = self.devices@[update.device as int]@;
                    self.devices[update.device].config = update.config;
                    proof {
                        assert(states(self.devices@) =~= states(old(self).devices@).update(
                            update.device as int,
                            DeviceState { config: update.config, ..before },
                        ));
                    }
                    self.report(ThreadStatus::Healthy(String::from_str("config update")));
                } else {
                    self.report(
                        ThreadStatus::Error(String::from_str("config update: no such device")),
                    );
                }
            },
        }
    }

    /// Takes what the connection attempt to `device` came back with.
    fn connection(&mut self, device: usize, outcome: ConnectOutcome)
        requires
            old(self)@.wf(),
            old(self)@.phase == (Phase::Connecting { device }),
        ensures
            final(self)@ == old(self)@.connected(device as int, outcome),
            final(self)@.wf(),
    {
        assert(device < self.devices.len());
        let endpoint = match self.devices[device].connect_to_device() {
            Ok(endpoint) => endpoint,
            Err(_) => String::new(),
        };
        match connection_result(endpoint, outcome) {
            Ok(_) => {
                self.connect_from(device + 1);
            },
            Err(error) => {
                self.report(ThreadStatus::Error(error.message()));
                self.phase = Phase::Backoff;
            },
        }
    }

    /// Takes the registers that came back for this channel of this device.
    fn registers(&mut self, device: usize, channel: usize, outcome: ReadOutcome)
        requires
            old(self)@.wf(),
            old(self)@.phase == (Phase::Reading { device, channel }),
        ensures
            old(self)@.registered(device as int, channel as int, outcome, final(self)@),
            final(self)@.wf(),
    {
        assert(channel < self.devices[device as int].channels.len());
        let name = self.devices[device].channels[channel].name.clone();
        match self.devices[device].apply_read(channel, &outcome) {
            Ok(_) => {
                proof {
                    let after = self.devices@[device as int];
                    assert(states(self.devices@) =~= states(old(self).devices@).update(
                        device as int,
                        after@,
                    ));
                }
                self.poll_from(device, channel + 1);
            },
            Err(error) => {
                let mut text = String::from_str("poll error: ");
                text.append(name.as_str());
                text.append(": ");
                let cause = error.cause.message();
                text.append(cause.as_str());
                assert(states(self.devices@) =~= states(old(self).devices@));
                self.report(ThreadStatus::Error(text));
                self.connect_from(0);
            },
        }
    }

    /// What the supervisor asks of its caller now.
    pub fn request(&self) -> (request: Request)
        requires
            self@.wf(),
        ensures
            request@ == self@.request(),
    {
        match self.phase {
            Phase::Connecting { device } => {
                let endpoint = match self.devices[device].connect_to_device() {
                    Ok(endpoint) => endpoint,
                    Err(_) => String::new(),
                };
                Request::Connect { device, endpoint }
            },
            Phase::Backoff => Request::Sleep { millis: BACKOFF_MILLIS },
            Phase::AwaitingConfig => Request::TakeConfig,
            Phase::Reading { device, channel } => {
                let target = &self.devices[device].channels[channel];
                Request::Read {
                    device,
                    address: target.address,
                    count: target.channel_type.registers(),
                }
            },
            Phase::Pausing => Request::Sleep { millis: POLL_MILLIS },
        }
    }

    /// Takes what the last request came back with and returns the next request. An
    /// event that does not answer the last request changes nothing, and the request
    /// is made again.
    pub fn step(&mut self, event: Event) -> (request: Request)
        requires
            old(self)@.wf(),
        ensures
            old(self)@.steps_to(event, final(self)@),
            final(self)@.wf(),
            request@ == final(self)@.request(),
    {
        match (self.phase, event) {
            (Phase::Connecting { device }, Event::Connection(outcome)) => {
                self.connection(device, outcome);
            },
            (Phase::Backoff, Event::Elapsed) => {
                self.connect_from(0);
            },
            (Phase::AwaitingConfig, Event::Config(update)) => {
                self.configure(update);
                self.poll_from(0, 0);
            },
            (Phase::Reading { device, channel }, Event::Registers(outcome)) => {
                self.registers(device, channel, outcome);
            },
            (Phase::Pausing, Event::Elapsed) => {
                self.phase = Phase::AwaitingConfig;
            },
            _ => {},
        }
        self.request()
    }
}

impl Supervisor {
    pub fn devices(&self) -> (devices: &Vec<ModbusDevice>)
        ensures
            states(devices@) == self@.devices,
    {
        &self.devices
    }

    pub fn calculations(&self) -> (calculations: &Vec<CalculationChannel>)
        ensures
            calculations@ == self@.calculations,
    {
        &self.calculations
    }

    pub fn phase(&self) -> (phase: Phase)
        ensures
            phase == self@.phase,
    {
        self.phase
    }

    /// The state of the link: disconnected while a failed attempt is slept off,
    /// connecting while an attempt is under way, connected while polling.
    pub fn link(&self) -> (link: LinkState)
        ensures
            link == self@.phase.link(),
    {
        match self.phase {
            Phase::Connecting { .. } => LinkState::Connecting,
            Phase::Backoff => LinkState::Disconnected,
            Phase::AwaitingConfig => LinkState::Connected,
            Phase::Reading { .. } => LinkState::Connected,
            Phase::Pausing => LinkState::Connected,
        }
    }

    /// The status that has waited longest for the consumer.
    pub fn next_status(&self) -> (head: Option<&ThreadStatus>)
        ensures
            match head {
                Some(status) => self@.statuses.waiting.len() > 0 && status@
                    == self@.statuses.waiting[0],
                None => self@.statuses.waiting.len() == 0,
            },
    {
        self.statuses.front()
    }

    /// Takes the status that has waited longest out of its queue.
    pub fn take_status(&mut self) -> (head: Option<ThreadStatus>)
        ensures
            final(self)@ == (SupervisorState {
                statuses: old(self)@.statuses.advance(),
                ..old(self)@
            }),
            old(self)@.wf() ==> final(self)@.wf(),
            match head {
                Some(status) => old(self)@.statuses.waiting.len() > 0 && status@
                    == old(self)@.statuses.waiting[0],
                None => old(self)@.statuses.waiting.len() == 0,
            },
    {
        self.statuses.pop()
    }

    /// The snapshot that has waited longest for the consumer.
    pub fn next_snapshot(&self) -> (head: Option<&ModbusDevice>)
        ensures
            match head {
                Some(device) => self@.snapshots.waiting.len() > 0 && device@
                    == self@.snapshots.waiting[0],
                None => self@.snapshots.waiting.len() == 0,
            },
    {
        self.snapshots.front()
    }

    /// Takes the snapshot that has waited longest out of its queue.
    pub fn take_snapshot(&mut self) -> (head: Option<ModbusDevice>)
        ensures
            final(self)@ == (SupervisorState {
                snapshots: old(self)@.snapshots.advance(),
                ..old(self)@
            }),
            old(self)@.wf() ==> final(self)@.wf(),
            match head {
                Some(device) => old(self)@.snapshots.waiting.len() > 0 && device@
                    == old(self)@.snapshots.waiting[0],
                None => old(self)@.snapshots.waiting.len() == 0,
            },
    {
        self.snapshots.pop()
    }

    /// How many statuses were dropped because their queue was full.
    pub fn dropped_statuses(&self) -> (n: u64)
        ensures
            n == self@.statuses.dropped,
    {
        self.statuses.dropped()
    }

    /// How many snapshots were dropped because their queue was full.
    pub fn dropped_snapshots(&self) -> (n: u64)
        ensures
            n == self@.snapshots.dropped,
    {
        self.snapshots.dropped()
    }
}

proof fn lemma_full_offer_times<T>(queue: Queue<T>, item: T, times: int)
    requires
        queue.is_full(),
    ensures
        offer_times(queue, item, times).is_full(),
        offer_times(queue, item, times).waiting == queue.waiting,
        offer_times(queue, item, times).limit == queue.limit,
    decreases times,
{
    if times > 0 {
        lemma_full_offer_times(queue, item, times - 1);
    }
}

proof fn lemma_full_offer_snapshots(
    queue: Queue<DeviceState>,
    devices: Seq<DeviceState>,
    from: int,
    to: int,
)
    requires
        queue.is_full(),
    ensures
        offer_snapshots(queue, devices, from, to).is_full(),
        offer_snapshots(queue, devices, from, to).waiting == queue.waiting,
        offer_snapshots(queue, devices, from, to).limit == queue.limit,
    decreases to - from,
{
    if to > from {
        lemma_full_offer_snapshots(queue, devices, from, to - 1);
    }
}

proof fn lemma_full_offer_calculation_errors(
    queue: Queue<StatusText>,
    calculations: Seq<CalculationChannel>,
    upto: int,
)
    requires
        queue.is_full(),
    ensures
        offer_calculation_errors(queue, calculations, upto).is_full(),
        offer_calculation_errors(queue, calculations, upto).waiting == queue.waiting,
        offer_calculation_errors(queue, calculations, upto).limit == queue.limit,
    decreases upto,
{
    if upto > 0 {
        lemma_full_offer_calculation_errors(queue, calculations, upto - 1);
    }
}

impl SupervisorState {
    /// Whether both queues towards the consumer are full.
    pub open spec fn consumer_stalled(self) -> bool {
        self.statuses.is_full() && self.snapshots.is_full()
    }

    /// Whether `next` has the same items waiting for the consumer, under the same
    /// limits.
    pub open spec fn same_waiting(self, next: SupervisorState) -> bool {
        &&& next.statuses.waiting == self.statuses.waiting
        &&& next.statuses.limit == self.statuses.limit
        &&& next.snapshots.waiting == self.snapshots.waiting
        &&& next.snapshots.limit == self.snapshots.limit
    }
}

proof fn lemma_stalled_connecting(state: SupervisorState, device: int)
    requires
        state.consumer_stalled(),
    ensures
        state.connecting_from(device).consumer_stalled(),
        state.same_waiting(state.connecting_from(device)),
{
}

proof fn lemma_stalled_polled(state: SupervisorState, device: int, channel: int, next: SupervisorState)
    requires
        state.consumer_stalled(),
        state.polled_from(device, channel, next),
    ensures
        next.consumer_stalled(),
        state.same_waiting(next),
{
    let reading = state.reading_from(device, channel);
    let stop = match cursor_from(state.devices, device, channel) {
        Some((d, _)) => d,
        None => state.devices.len() as int,
    };
    lemma_full_offer_times(state.statuses, StatusText::Healthy("Healthy"@), stop - device);
    lemma_full_offer_snapshots(state.snapshots, state.devices, device, stop);
    if reading.phase is Pausing {
        lemma_full_offer_calculation_errors(
            reading.statuses,
            next.calculations,
            next.calculations.len() as int,
        );
    }
}

/// A consumer that takes nothing does not stop the supervisor. With both queues
/// full, every event still leads to a next state; the queues hold what they held,
/// and what the step had to tell is dropped.
pub proof fn lemma_stalled_consumer_is_harmless(
    state: SupervisorState,
    event: Event,
    next: SupervisorState,
)
    requires
        state.consumer_stalled(),
        state.steps_to(event, next),
    ensures
        next.consumer_stalled(),
        state.same_waiting(next),
{
    match (state.phase, event) {
        (Phase::Connecting { device }, Event::Connection(outcome)) => {
            match outcome {
                ConnectOutcome::Established => {
                },
                _ => {},
            }
        },
        (Phase::Backoff, Event::Elapsed) => {
        },
        (Phase::AwaitingConfig, Event::Config(update)) => {
            lemma_stalled_polled(state.configured(update), 0, 0, next);
        },
        (Phase::Reading { device, channel }, Event::Registers(outcome)) => {
            let target = state.devices[device as int].channels[channel as int];
            if outcome.supplies(target.channel_type.register_count()) {
                lemma_stalled_polled(
                    state.with_channel(device as int, channel as int, outcome.words()),
                    device as int,
                    channel + 1,
                    next,
                );
            } else {
            }
        },
        _ => {},
    }
}

/// Whether a device has exactly one channel that is read, and `outcome` supplies
/// the registers for it.
pub open spec fn single_read(device: DeviceState, outcome: ReadOutcome) -> bool {
    let at = first_polled(device.channels, 0);
    &&& device.channels.len() <= usize::MAX
    &&& at < device.channels.len()
    &&& first_polled(device.channels, at + 1) == device.channels.len()
    &&& outcome.supplies(device.channels[at].channel_type.register_count())
}

/// Failure and recovery, for one device with one channel to read and a consumer with
/// room: a refused connection, the pause, a connection that is made and one poll that
/// succeeds. The consumer is told of the error, of the connection and of the poll, in
/// this order, and gets one snapshot of the device as the poll left it.
pub proof fn lemma_failure_then_recovery(
    start: SupervisorState,
    detail: String,
    outcome: ReadOutcome,
    failed: SupervisorState,
    retrying: SupervisorState,
    linked: SupervisorState,
    reading: SupervisorState,
    done: SupervisorState,
)
    requires
        start.wf(),
        start.phase == (Phase::Connecting { device: 0 }),
        start.devices.len() == 1,
        start.calculations.len() == 0,
        single_read(start.devices[0], outcome),
        start.statuses.waiting.len() + 3 <= start.statuses.limit,
        start.snapshots.waiting.len() < start.snapshots.limit,
        start.steps_to(Event::Connection(ConnectOutcome::Refused(detail)), failed),
        failed.steps_to(Event::Elapsed, retrying),
        retrying.steps_to(Event::Connection(ConnectOutcome::Established), linked),
        linked.steps_to(Event::Config(None), reading),
        reading.steps_to(Event::Registers(outcome), done),
    ensures
        failed.request() == (RequestText::Sleep { millis: BACKOFF_MILLIS }),
        retrying.request() == start.request(),
        linked.request() == RequestText::TakeConfig,
        reading.request() is Read,
        done.request() == (RequestText::Sleep { millis: POLL_MILLIS }),
        done.statuses.waiting == start.statuses.waiting.push(
            StatusText::Error("transport error: "@ + detail@),
        ).push(StatusText::Healthy("connected"@)).push(StatusText::Healthy("Healthy"@)),
        done.snapshots.waiting == start.snapshots.waiting.push(done.devices[0]),
        done.statuses.dropped == start.statuses.dropped,
        done.snapshots.dropped == start.snapshots.dropped,
{
    let channels = start.devices[0].channels;
    let at = first_polled(channels, 0);
    lemma_first_polled_bounds(channels, 0);
    reveal_with_fuel(cursor_from, 3);
    reveal_with_fuel(offer_snapshots, 3);
    let updated = reading.with_channel(0, at, outcome.words());
    let after = updated.devices[0].channels;
    lemma_first_polled_by_flags(channels, after, at + 1);
    let paused = updated.reading_from(0, at + 1);
}

impl Supervisor {
    /// Whether the supervisor is in a state that its own steps can have led to.
    pub fn is_wf(&self) -> (ok: bool)
        ensures
            ok == self@.wf(),
    {
        let mut d: usize = 0;
        while d < self.devices.len()
            invariant
                d <= self.devices@.len(),
                forall|k: int|
                    0 <= k < d ==> crate::device::channels_wf((#[trigger] self@.devices[k]).channels),
            decreases self.devices@.len() - d,
        {
            assert(self@.devices[d as int] == self.devices@[d as int]@);
            if !self.devices[d].is_wf() {
                return false;
            }
            d = d + 1;
        }
        let mut i: usize = 1;
        while i < self.calculations.len()
            invariant
                1 <= i,
                devices_wf(self@.devices),
                forall|k: int|
                    0 < k < i && k < self.calculations@.len() ==> self.calculations@[k - 1].id < (
                    #[trigger] self.calculations@[k]).id,
            decreases self.calculations@.len() - i,
        {
            if self.calculations[i - 1].id >= self.calculations[i].id {
                return false;
            }
            i = i + 1;
        }
        if self.statuses.len() > self.statuses.capacity() || self.snapshots.len()
            > self.snapshots.capacity() {
            return false;
        }
        match self.phase {
            Phase::Connecting { device } => {
                if device >= self.devices.len() {
                    return false;
                }
                match &self.devices[device].config {
                    ModbusDeviceConfig::Tcp(_) => true,
                    ModbusDeviceConfig::Serial => false,
                }
            },
            Phase::Reading { device, channel } => {
                if device >= self.devices.len() {
                    return false;
                }
                channel < self.devices[device].channels.len()
                    && self.devices[device].channels[channel].is_polled()
            },
            _ => true,
        }
    }
}

} // verus!
