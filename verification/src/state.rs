//! The channel runtime contract: connection lifecycle, requests, commands,
//! write results and diagnostics.

use crate::data::{DataBatch, DataType};
use crate::rat::Rat;
use vstd::prelude::*;

verus! {

/// Communication mode supported by a protocol.
#[derive(Debug, Clone, Copy, PartialEq, Eq, Hash, Structural)]
pub enum CommunicationMode {
    /// Polling: actively request data at intervals.
    Polling,
    /// Event-driven: passively receive data updates.
    EventDriven,
    /// Hybrid: both polling and events.
    Hybrid,
}

/// Connection state of a protocol channel.
#[derive(Debug, Clone, Copy, PartialEq, Eq, Hash, Structural)]
pub enum ConnectionState {
    /// Not connected to the target.
    Disconnected,
    /// Attempting to connect.
    Connecting,
    /// Connected and operational.
    Connected,
    /// Attempting to reconnect after failure.
    Reconnecting,
    /// Connection error state.
    Error,
}

impl Default for ConnectionState {
    /// A channel starts out disconnected.
    fn default() -> (s: ConnectionState)
        ensures
            s == ConnectionState::Disconnected,
    {
        ConnectionState::Disconnected
    }
}

/// An event observed by a channel's lifecycle machine.
#[derive(Debug, Clone, Copy, PartialEq, Eq, Structural)]
pub enum ChannelEvent {
    /// A connect was requested.
    ConnectRequested,
    /// The transport reported the connection open.
    Established,
    /// The connect attempt failed.
    ConnectFailed,
    /// A socket-level error occurred while connected.
    IoError,
    /// A disconnect was requested.
    DisconnectRequested,
}

/// The directed edges the lifecycle machine may move along, plus staying in
/// place: `Disconnected -> Connecting -> Connected -> (Reconnecting | Error
/// | Disconnected)`, with `Reconnecting` and `Error` leading back to
/// `Connecting`, and an explicit disconnect reaching `Disconnected` from
/// anywhere.
pub open spec fn valid_transition(from: ConnectionState, to: ConnectionState) -> bool {
    ||| to == from
    ||| (from == ConnectionState::Disconnected && to == ConnectionState::Connecting)
    ||| (from == ConnectionState::Connecting && to == ConnectionState::Connected)
    ||| (from == ConnectionState::Connecting && to == ConnectionState::Error)
    ||| (from == ConnectionState::Connected && to == ConnectionState::Reconnecting)
    ||| (from == ConnectionState::Connected && to == ConnectionState::Error)
    ||| (from == ConnectionState::Reconnecting && to == ConnectionState::Connecting)
    ||| (from == ConnectionState::Error && to == ConnectionState::Connecting)
    ||| to == ConnectionState::Disconnected
}

impl ConnectionState {
    /// Check if currently connected.
    pub fn is_connected(&self) -> (r: bool)
        ensures
            r == (*self == ConnectionState::Connected),
    {
        matches!(self, ConnectionState::Connected)
    }

    /// Check if a connect retry is possible from this state.
    pub fn can_retry(&self) -> (r: bool)
        ensures
            r == (*self == ConnectionState::Disconnected || *self == ConnectionState::Error),
    {
        matches!(self, ConnectionState::Disconnected | ConnectionState::Error)
    }

    /// The state after observing an event.
    pub open spec fn spec_step(self, event: ChannelEvent) -> ConnectionState {
        match event {
            ChannelEvent::ConnectRequested => {
                if self == ConnectionState::Connected {
                    self
                } else {
                    ConnectionState::Connecting
                }
            },
            ChannelEvent::Established => {
                if self == ConnectionState::Connecting {
                    ConnectionState::Connected
                } else {
                    self
                }
            },
            ChannelEvent::ConnectFailed => {
                if self == ConnectionState::Connecting {
                    ConnectionState::Error
                } else {
                    self
                }
            },
            ChannelEvent::IoError => {
                if self == ConnectionState::Connected {
                    ConnectionState::Reconnecting
                } else {
                    self
                }
            },
            ChannelEvent::DisconnectRequested => ConnectionState::Disconnected,
        }
    }

    /// Advance the lifecycle machine by one event.
    pub fn step(self, event: ChannelEvent) -> (next: ConnectionState)
        ensures
            next == self.spec_step(event),
            valid_transition(self, next),
    {
        proof {
            lemma_step_follows_edges(self, event);
        }
        match event {
            ChannelEvent::ConnectRequested => {
                if self.is_connected() {
                    self
                } else {
                    ConnectionState::Connecting
                }
            },
            ChannelEvent::Established => {
                if matches!(self, ConnectionState::Connecting) {
                    ConnectionState::Connected
                } else {
                    self
                }
            },
            ChannelEvent::ConnectFailed => {
                if matches!(self, ConnectionState::Connecting) {
                    ConnectionState::Error
                } else {
                    self
                }
            },
            ChannelEvent::IoError => {
                if self.is_connected() {
                    ConnectionState::Reconnecting
                } else {
                    self
                }
            },
            ChannelEvent::DisconnectRequested => ConnectionState::Disconnected,
        }
    }

    /// A short name for the state.
    pub fn as_str(&self) -> (s: &'static str)
        ensures
            *self == ConnectionState::Disconnected ==> s@ == "Disconnected"@,
            *self == ConnectionState::Connecting ==> s@ == "Connecting"@,
            *self == ConnectionState::Connected ==> s@ == "Connected"@,
            *self == ConnectionState::Reconnecting ==> s@ == "Reconnecting"@,
            *self == ConnectionState::Error ==> s@ == "Error"@,
    {
        match self {
            ConnectionState::Disconnected => "Disconnected",
            ConnectionState::Connecting => "Connecting",
            ConnectionState::Connected => "Connected",
            ConnectionState::Reconnecting => "Reconnecting",
            ConnectionState::Error => "Error",
        }
    }
}

/// The lifecycle machine only moves along the edges of the state diagram:
/// whatever the current state and the event, the next state is reachable by
/// a listed edge. In particular a disconnect from `Connected` reaches
/// `Disconnected`, and a connect from `Error` reaches `Connecting`.
pub proof fn lemma_step_follows_edges(s: ConnectionState, e: ChannelEvent)
    ensures
        valid_transition(s, s.spec_step(e)),
        s == ConnectionState::Connected && e == ChannelEvent::DisconnectRequested
            ==> s.spec_step(e) == ConnectionState::Disconnected,
        s == ConnectionState::Error && e == ChannelEvent::ConnectRequested ==> s.spec_step(e)
            == ConnectionState::Connecting,
{
}

/// Channel communication mode, as the runtime tracks it.
#[derive(Debug, Clone, Copy, PartialEq, Eq, Structural)]
pub enum ChannelMode {
    /// Polling: data is fetched periodically.
    Polling,
    /// Event-driven: data is pushed by the channel.
    EventDriven,
    /// Both polling and events.
    Hybrid,
}

impl Default for ChannelMode {
    /// Channels poll unless told otherwise.
    fn default() -> (m: ChannelMode)
        ensures
            m == ChannelMode::Polling,
    {
        ChannelMode::Polling
    }
}

/// Request for reading data points.
#[derive(Debug, Clone)]
pub struct ReadRequest {
    /// Data type to read; `None` means all types.
    pub data_type: Option<DataType>,
    /// Point identifiers to read; `None` means all points.
    pub point_ids: Option<Vec<u32>>,
}

impl ReadRequest {
    /// Whether a point with this identifier and type is selected.
    pub open spec fn selects(self, id: u32, data_type: DataType) -> bool {
        &&& match self.data_type {
            Some(t) => t == data_type,
            None => true,
        }
        &&& match self.point_ids {
            Some(ids) => ids@.contains(id),
            None => true,
        }
    }

    /// Request all points of a specific type.
    pub fn by_type(data_type: DataType) -> (r: ReadRequest)
        ensures
            r.data_type == Some(data_type),
            r.point_ids is None,
    {
        ReadRequest { data_type: Some(data_type), point_ids: None }
    }

    /// Request specific points.
    pub fn by_ids(ids: Vec<u32>) -> (r: ReadRequest)
        ensures
            r.data_type is None,
            r.point_ids matches Some(v) && v@ == ids@,
    {
        ReadRequest { data_type: None, point_ids: Some(ids) }
    }

    /// Request all telemetry points.
    pub fn telemetry() -> (r: ReadRequest)
        ensures
            r.data_type == Some(DataType::Telemetry),
            r.point_ids is None,
    {
        Self::by_type(DataType::Telemetry)
    }

    /// Request all signal points.
    pub fn signal() -> (r: ReadRequest)
        ensures
            r.data_type == Some(DataType::Signal),
            r.point_ids is None,
    {
        Self::by_type(DataType::Signal)
    }

    /// Request all points.
    pub fn all() -> (r: ReadRequest)
        ensures
            r.data_type is None,
            r.point_ids is None,
    {
        ReadRequest { data_type: None, point_ids: None }
    }
}

/// Response from reading data points.
#[derive(Debug)]
pub struct ReadResponse {
    /// The batch of all points read.
    pub data: DataBatch,
    /// Number of points that failed to read.
    pub failed_count: usize,
}

impl ReadResponse {
    /// A fully successful response.
    pub fn success(data: DataBatch) -> (r: ReadResponse)
        ensures
            r.data == data,
            r.failed_count == 0,
    {
        ReadResponse { data, failed_count: 0 }
    }

    /// A response with partial failures.
    pub fn partial(data: DataBatch, failed: usize) -> (r: ReadResponse)
        ensures
            r.data == data,
            r.failed_count == failed,
    {
        ReadResponse { data, failed_count: failed }
    }
}

/// A control command to write: a boolean output.
#[derive(Debug, Clone, Copy)]
pub struct ControlCommand {
    /// Point identifier.
    pub id: u32,
    /// Command value: true is ON or CLOSE, false is OFF or OPEN.
    pub value: bool,
    /// Pulse duration in milliseconds; `None` means latching.
    pub pulse_duration_ms: Option<u32>,
}

impl ControlCommand {
    /// A latching control command.
    pub fn latching(id: u32, value: bool) -> (c: ControlCommand)
        ensures
            c.id == id,
            c.value == value,
            c.pulse_duration_ms is None,
    {
        ControlCommand { id, value, pulse_duration_ms: None }
    }

    /// A pulse control command: write ON, wait, write OFF.
    pub fn pulse(id: u32, value: bool, duration_ms: u32) -> (c: ControlCommand)
        ensures
            c.id == id,
            c.value == value,
            c.pulse_duration_ms == Some(duration_ms),
    {
        ControlCommand { id, value, pulse_duration_ms: Some(duration_ms) }
    }
}

/// An adjustment command to write: an analog setpoint.
#[derive(Debug, Clone, Copy)]
pub struct AdjustmentCommand {
    /// Point identifier.
    pub id: u32,
    /// Setpoint value.
    pub value: Rat,
}

impl AdjustmentCommand {
    /// Create an adjustment command.
    pub fn new(id: u32, value: Rat) -> (c: AdjustmentCommand)
        ensures
            c.id == id,
            c.value == value,
    {
        AdjustmentCommand { id, value }
    }
}

/// Result of a batched write operation.
#[derive(Debug, Clone)]
pub struct WriteResult {
    /// Number of successful writes.
    pub success_count: usize,
    /// Identifiers of failed writes with error messages.
    pub failures: Vec<(u32, String)>,
}

impl WriteResult {
    /// A fully successful result.
    pub fn success(count: usize) -> (r: WriteResult)
        ensures
            r.success_count == count,
            r.failures@.len() == 0,
    {
        WriteResult { success_count: count, failures: Vec::new() }
    }

    /// Check whether every write succeeded.
    pub fn is_success(&self) -> (r: bool)
        ensures
            r == (self.failures@.len() == 0),
    {
        self.failures.is_empty()
    }
}

/// Polling configuration.
#[derive(Debug, Clone)]
pub struct PollingConfig {
    /// Polling interval in milliseconds.
    pub interval_ms: u64,
    /// Data types to poll; `None` means all.
    pub data_types: Option<Vec<DataType>>,
    /// Whether to continue on individual point errors.
    pub continue_on_error: bool,
}

impl Default for PollingConfig {
    /// One-second polling over all types, tolerant of point errors.
    fn default() -> (c: PollingConfig)
        ensures
            c.interval_ms == 1000,
            c.data_types is None,
            c.continue_on_error,
    {
        PollingConfig { interval_ms: 1000, data_types: None, continue_on_error: true }
    }
}

/// Protocol diagnostics envelope.
#[derive(Debug, Clone)]
pub struct Diagnostics {
    /// Protocol name.
    pub protocol: String,
    /// Connection state.
    pub connection_state: ConnectionState,
    /// Number of successful reads.
    pub read_count: u64,
    /// Number of successful writes.
    pub write_count: u64,
    /// Number of errors.
    pub error_count: u64,
    /// Last error message.
    pub last_error: Option<String>,
    /// Protocol-specific key-value details.
    pub extra: Vec<(String, String)>,
}

impl Diagnostics {
    /// Fresh diagnostics for a protocol: disconnected, all counters zero.
    pub fn new(protocol: &str) -> (d: Diagnostics)
        ensures
            d.protocol@ == protocol@,
            d.connection_state == ConnectionState::Disconnected,
            d.read_count == 0,
            d.write_count == 0,
            d.error_count == 0,
            d.last_error is None,
            d.extra@.len() == 0,
    {
        Diagnostics {
            protocol: protocol.to_owned(),
            connection_state: ConnectionState::Disconnected,
            read_count: 0,
            write_count: 0,
            error_count: 0,
            last_error: None,
            extra: Vec::new(),
        }
    }
}

/// A data event carried to subscribers of an event-driven channel.
#[derive(Debug)]
pub enum DataEvent {
    /// Data update received, with the channel that produced it.
    DataUpdate(u32, DataBatch),
    /// Connection state changed.
    ConnectionChanged(ConnectionState),
    /// Error occurred.
    ErrorReport(String),
    /// Heartbeat or keep-alive.
    Heartbeat,
}

} // verus!
