//! GPIO channel: digital inputs and outputs addressed by chip and pin.
//!
//! The channel owns the pin table, lifecycle state and simulated output
//! latches; the caller owns the hardware lines and the polling loop.

use crate::data::{DataBatch, DataPoint, DataType, Value};
use crate::error::GatewayError;
use crate::point::GpioDirection;
use crate::state::{AdjustmentCommand, CommunicationMode, ConnectionState, ControlCommand};
use crate::state::{ChannelEvent, Diagnostics, ReadRequest, ReadResponse, WriteResult};
use std::collections::HashMap;
use vstd::prelude::*;

verus! {

broadcast use vstd::std_specs::hash::group_hash_axioms;

/// GPIO pin configuration.
#[derive(Debug, Clone)]
pub struct GpioPinConfig {
    /// GPIO chip name, such as `gpiochip0`.
    pub chip: String,
    /// Pin number.
    pub pin: u32,
    /// Pin direction.
    pub direction: GpioDirection,
    /// Point identifier this pin maps to.
    pub point_id: u32,
    /// Invert the pin logic.
    pub active_low: bool,
    /// Debounce time for inputs in microseconds.
    pub debounce_us: Option<u64>,
}

impl GpioPinConfig {
    /// A digital input with a one-millisecond debounce.
    pub fn digital_input(chip: String, pin: u32, point_id: u32) -> (c: GpioPinConfig)
        ensures
            c.chip@ == chip@,
            c.pin == pin,
            c.direction == GpioDirection::Input,
            c.point_id == point_id,
            !c.active_low,
            c.debounce_us == Some(1000u64),
    {
        GpioPinConfig {
            chip,
            pin,
            direction: GpioDirection::Input,
            point_id,
            active_low: false,
            debounce_us: Some(1000),
        }
    }

    /// A digital output.
    pub fn digital_output(chip: String, pin: u32, point_id: u32) -> (c: GpioPinConfig)
        ensures
            c.chip@ == chip@,
            c.pin == pin,
            c.direction == GpioDirection::Output,
            c.point_id == point_id,
            !c.active_low,
            c.debounce_us is None,
    {
        GpioPinConfig {
            chip,
            pin,
            direction: GpioDirection::Output,
            point_id,
            active_low: false,
            debounce_us: None,
        }
    }

    /// Set active-low mode.
    pub fn with_active_low(self, active_low: bool) -> (c: GpioPinConfig)
        ensures
            c == (GpioPinConfig { active_low, ..self }),
    {
        GpioPinConfig { active_low, ..self }
    }

    /// Set the debounce time.
    pub fn with_debounce(self, debounce_us: u64) -> (c: GpioPinConfig)
        ensures
            c == (GpioPinConfig { debounce_us: Some(debounce_us), ..self }),
    {
        GpioPinConfig { debounce_us: Some(debounce_us), ..self }
    }

    /// Copy a pin configuration, field by field.
    pub fn clone_pin(&self) -> (c: GpioPinConfig)
        ensures
            c.chip@ == self.chip@,
            c.pin == self.pin,
            c.direction == self.direction,
            c.point_id == self.point_id,
            c.active_low == self.active_low,
            c.debounce_us == self.debounce_us,
    {
        GpioPinConfig {
            chip: self.chip.clone(),
            pin: self.pin,
            direction: self.direction,
            point_id: self.point_id,
            active_low: self.active_low,
            debounce_us: self.debounce_us,
        }
    }
}

/// Whether two pin configurations carry the same fields.
pub open spec fn pin_matches(a: GpioPinConfig, b: GpioPinConfig) -> bool {
    &&& a.chip@ == b.chip@
    &&& a.pin == b.pin
    &&& a.direction == b.direction
    &&& a.point_id == b.point_id
    &&& a.active_low == b.active_low
    &&& a.debounce_us == b.debounce_us
}

/// GPIO channel configuration.
#[derive(Debug)]
pub struct GpioChannelConfig {
    /// Pin configurations.
    pub pins: Vec<GpioPinConfig>,
    /// Polling interval for inputs, in milliseconds.
    pub poll_interval_ms: u64,
}

impl GpioChannelConfig {
    /// An empty configuration polling every hundred milliseconds.
    pub fn new() -> (c: GpioChannelConfig)
        ensures
            c.pins@.len() == 0,
            c.poll_interval_ms == 100,
    {
        GpioChannelConfig { pins: Vec::new(), poll_interval_ms: 100 }
    }

    /// Add a pin configuration.
    pub fn add_pin(self, pin: GpioPinConfig) -> (c: GpioChannelConfig)
        ensures
            c.pins@ == self.pins@.push(pin),
            c.poll_interval_ms == self.poll_interval_ms,
    {
        let GpioChannelConfig { mut pins, poll_interval_ms } = self;
        pins.push(pin);
        GpioChannelConfig { pins, poll_interval_ms }
    }

    /// Set the poll interval.
    pub fn with_poll_interval(self, interval_ms: u64) -> (c: GpioChannelConfig)
        ensures
            c == (GpioChannelConfig { poll_interval_ms: interval_ms, ..self }),
    {
        GpioChannelConfig { poll_interval_ms: interval_ms, ..self }
    }

    /// The input pins: exactly the configured pins with input direction,
    /// in insertion order.
    pub fn input_pins(&self) -> (r: Vec<GpioPinConfig>)
        ensures
            forall|i: int|
                0 <= i < r@.len() ==> (#[trigger] r@[i]).direction == GpioDirection::Input,
            r@.len() == self.pins@.filter(
                |p: GpioPinConfig| p.direction == GpioDirection::Input,
            ).len(),
            forall|i: int|
                0 <= i < r@.len() ==> pin_matches(
                    #[trigger] r@[i],
                    self.pins@.filter(|p: GpioPinConfig| p.direction == GpioDirection::Input)[i],
                ),
    {
        let mut out: Vec<GpioPinConfig> = Vec::new();
        let mut i: usize = 0;
        while i < self.pins.len()
            invariant
                i <= self.pins@.len(),
                forall|k: int|
                    0 <= k < out@.len() ==> (#[trigger] out@[k]).direction == GpioDirection::Input,
                out@.len() == self.pins@.take(i as int).filter(
                    |p: GpioPinConfig| p.direction == GpioDirection::Input,
                ).len(),
                forall|k: int|
                    0 <= k < out@.len() ==> pin_matches(
                        #[trigger] out@[k],
                        self.pins@.take(i as int).filter(
                            |p: GpioPinConfig| p.direction == GpioDirection::Input,
                        )[k],
                    ),
            decreases self.pins@.len() - i,
        {
            let p = &self.pins[i];
            if matches!(p.direction, GpioDirection::Input) {
                out.push(p.clone_pin());
            }
            proof {
                reveal_with_fuel(Seq::filter, 2);
                assert(self.pins@.take(i + 1).drop_last() =~= self.pins@.take(i as int));
                assert(self.pins@.take(i + 1).last() == self.pins@[i as int]);
            }
            i += 1;
        }
        proof {
            assert(self.pins@.take(self.pins@.len() as int) =~= self.pins@);
        }
        out
    }

    /// The output pins: exactly the configured pins with output
    /// direction, in insertion order.
    pub fn output_pins(&self) -> (r: Vec<GpioPinConfig>)
        ensures
            forall|i: int|
                0 <= i < r@.len() ==> (#[trigger] r@[i]).direction == GpioDirection::Output,
            r@.len() == self.pins@.filter(
                |p: GpioPinConfig| p.direction == GpioDirection::Output,
            ).len(),
            forall|i: int|
                0 <= i < r@.len() ==> pin_matches(
                    #[trigger] r@[i],
                    self.pins@.filter(|p: GpioPinConfig| p.direction == GpioDirection::Output)[i],
                ),
    {
        let mut out: Vec<GpioPinConfig> = Vec::new();
        let mut i: usize = 0;
        while i < self.pins.len()
            invariant
                i <= self.pins@.len(),
                forall|k: int|
                    0 <= k < out@.len() ==> (#[trigger] out@[k]).direction == GpioDirection::Output,
                out@.len() == self.pins@.take(i as int).filter(
                    |p: GpioPinConfig| p.direction == GpioDirection::Output,
                ).len(),
                forall|k: int|
                    0 <= k < out@.len() ==> pin_matches(
                        #[trigger] out@[k],
                        self.pins@.take(i as int).filter(
                            |p: GpioPinConfig| p.direction == GpioDirection::Output,
                        )[k],
                    ),
            decreases self.pins@.len() - i,
        {
            let p = &self.pins[i];
            if matches!(p.direction, GpioDirection::Output) {
                out.push(p.clone_pin());
            }
            proof {
                reveal_with_fuel(Seq::filter, 2);
                assert(self.pins@.take(i + 1).drop_last() =~= self.pins@.take(i as int));
                assert(self.pins@.take(i + 1).last() == self.pins@[i as int]);
            }
            i += 1;
        }
        proof {
            assert(self.pins@.take(self.pins@.len() as int) =~= self.pins@);
        }
        out
    }
}

/// Whether a read request selects a point identifier.
pub open spec fn req_selects_id(req: ReadRequest, id: u32) -> bool {
    match req.point_ids {
        Some(ids) => ids@.contains(id),
        None => true,
    }
}

/// The signal points a read produces, in pin order: every selected input
/// pin reports its idle level, the active-low flag inverted over a low
/// line.
pub open spec fn spec_gpio_signals(pins: Seq<GpioPinConfig>, req: ReadRequest) -> Seq<(u32, bool)>
    decreases pins.len(),
{
    if pins.len() == 0 {
        Seq::empty()
    } else {
        spec_gpio_signals(pins.drop_last(), req) + (if pins.last().direction
            == GpioDirection::Input && req_selects_id(req, pins.last().point_id) {
            seq![(pins.last().point_id, pins.last().active_low)]
        } else {
            Seq::<(u32, bool)>::empty()
        })
    }
}

/// The control points a read produces, in pin order: every selected
/// output pin with a latched value reports it.
pub open spec fn spec_gpio_controls(
    pins: Seq<GpioPinConfig>,
    outputs: Map<u32, bool>,
    req: ReadRequest,
) -> Seq<(u32, bool)>
    decreases pins.len(),
{
    if pins.len() == 0 {
        Seq::empty()
    } else {
        spec_gpio_controls(pins.drop_last(), outputs, req) + (if pins.last().direction
            == GpioDirection::Output && req_selects_id(req, pins.last().point_id)
            && outputs.contains_key(pins.last().point_id) {
            seq![(pins.last().point_id, outputs[pins.last().point_id])]
        } else {
            Seq::<(u32, bool)>::empty()
        })
    }
}

/// Whether some output pin of the table carries the point identifier.
pub open spec fn has_output_pin(pins: Seq<GpioPinConfig>, point_id: u32) -> bool {
    exists|i: int|
        0 <= i < pins.len() && (#[trigger] pins[i]).point_id == point_id && pins[i].direction
            == GpioDirection::Output
}

/// Index of the first output pin carrying the identifier, scanning from
/// `i`; the table length when there is none.
pub open spec fn first_output_from(pins: Seq<GpioPinConfig>, point_id: u32, i: int) -> int
    decreases pins.len() - i,
{
    if i < 0 || i >= pins.len() {
        pins.len() as int
    } else if pins[i].point_id == point_id && pins[i].direction == GpioDirection::Output {
        i
    } else {
        first_output_from(pins, point_id, i + 1)
    }
}

/// The first-output scan finds a pin exactly when one exists, and then
/// the first matching one.
proof fn lemma_first_output(pins: Seq<GpioPinConfig>, point_id: u32, i: int)
    requires
        0 <= i <= pins.len(),
    ensures
        i <= first_output_from(pins, point_id, i) <= pins.len(),
        first_output_from(pins, point_id, i) < pins.len() <==> exists|j: int|
            i <= j < pins.len() && (#[trigger] pins[j]).point_id == point_id && pins[j].direction
                == GpioDirection::Output,
        first_output_from(pins, point_id, i) < pins.len() ==> pins[first_output_from(
            pins,
            point_id,
            i,
        )].point_id == point_id && pins[first_output_from(pins, point_id, i)].direction
            == GpioDirection::Output,
    decreases pins.len() - i,
{
    if i < pins.len() {
        if pins[i].point_id == point_id && pins[i].direction == GpioDirection::Output {
        } else {
            lemma_first_output(pins, point_id, i + 1);
        }
    }
}

/// The output latches after one command list, in order: a command with an
/// output pin latches its value, inverted by the first matching pin's
/// active-low flag; later commands override earlier ones.
pub open spec fn spec_latch(
    commands: Seq<ControlCommand>,
    pins: Seq<GpioPinConfig>,
    m: Map<u32, bool>,
) -> Map<u32, bool>
    decreases commands.len(),
{
    if commands.len() == 0 {
        m
    } else {
        let m1 = spec_latch(commands.drop_last(), pins, m);
        let c = commands.last();
        if has_output_pin(pins, c.id) {
            m1.insert(
                c.id,
                c.value != pins[first_output_from(pins, c.id, 0)].active_low,
            )
        } else {
            m1
        }
    }
}

/// GPIO channel: the pin table, lifecycle state and output latches.
#[derive(Debug)]
pub struct GpioChannel {
    /// Channel configuration.
    config: GpioChannelConfig,
    /// Channel identifier.
    channel_id: u32,
    /// Lifecycle state.
    state: ConnectionState,
    /// Latched output values by point identifier.
    output_states: HashMap<u32, bool>,
    /// Number of read calls.
    read_count: u64,
    /// Number of successful pin writes.
    write_count: u64,
    /// Number of errors.
    error_count: u64,
    /// Last error message.
    last_error: Option<String>,
}

impl GpioChannel {
    /// Current lifecycle state.
    pub closed spec fn spec_state(self) -> ConnectionState {
        self.state
    }

    /// The latched output values.
    pub closed spec fn spec_outputs(self) -> Map<u32, bool> {
        self.output_states@
    }

    /// The pin table.
    pub closed spec fn spec_pins(self) -> Seq<GpioPinConfig> {
        self.config.pins@
    }

    /// Number of read calls so far.
    pub closed spec fn spec_read_count(self) -> u64 {
        self.read_count
    }

    /// Create a new GPIO channel.
    pub fn new(config: GpioChannelConfig, channel_id: u32) -> (c: GpioChannel)
        ensures
            c.spec_state() == ConnectionState::Disconnected,
            c.spec_outputs() == Map::<u32, bool>::empty(),
    {
        GpioChannel {
            config,
            channel_id,
            state: ConnectionState::Disconnected,
            output_states: HashMap::new(),
            read_count: 0,
            write_count: 0,
            error_count: 0,
            last_error: None,
        }
    }

    /// Protocol name.
    pub fn name(&self) -> (s: &'static str)
        ensures
            s@ == "GPIO"@,
    {
        "GPIO"
    }

    /// The channel polls only.
    pub fn supported_modes(&self) -> (m: Vec<CommunicationMode>)
        ensures
            m@ == seq![CommunicationMode::Polling],
    {
        let mut v: Vec<CommunicationMode> = Vec::new();
        v.push(CommunicationMode::Polling);
        proof {
            assert(v@ =~= seq![CommunicationMode::Polling]);
        }
        v
    }

    /// Current connection state.
    pub fn connection_state(&self) -> (s: ConnectionState)
        ensures
            s == self.spec_state(),
    {
        self.state
    }

    /// Mark the hardware available: the caller has validated the chips.
    pub fn connect(&mut self)
        ensures
            final(self).spec_state() == ConnectionState::Connected,
            final(self).spec_outputs() == old(self).spec_outputs(),
            crate::state::valid_transition(
                old(self).spec_state(),
                old(self).spec_state().spec_step(ChannelEvent::ConnectRequested),
            ),
            crate::state::valid_transition(
                old(self).spec_state().spec_step(ChannelEvent::ConnectRequested),
                ConnectionState::Connected,
            ),
    {
        let s1 = self.state.step(ChannelEvent::ConnectRequested);
        let s2 = s1.step(ChannelEvent::Established);
        self.state = s2;
    }

    /// Mark the channel disconnected: the caller has stopped polling.
    pub fn disconnect(&mut self)
        ensures
            final(self).spec_state() == ConnectionState::Disconnected,
            final(self).spec_outputs() == old(self).spec_outputs(),
            crate::state::valid_transition(old(self).spec_state(), ConnectionState::Disconnected),
    {
        self.state = self.state.step(ChannelEvent::DisconnectRequested);
    }

    /// Read the pins matching a request.
    ///
    /// Fails with `NotConnected` exactly when the channel is not
    /// connected. In pin order, every selected input pin reports its idle
    /// level — the active-low flag inverted over a low line, since line
    /// sampling is the caller's part — as a signal point, and every
    /// selected output pin with a latched value reports it as a control
    /// point.
    pub fn read(&mut self, request: &ReadRequest) -> (r: Result<ReadResponse, GatewayError>)
        ensures
            old(self).spec_state() != ConnectionState::Connected <==> (r matches Err(e) && e
                is NotConnected),
            final(self).spec_state() == old(self).spec_state(),
            final(self).spec_outputs() == old(self).spec_outputs(),
            final(self).spec_pins() == old(self).spec_pins(),
            r matches Ok(resp) ==> {
                let sigs = spec_gpio_signals(old(self).spec_pins(), *request);
                let ctrls = spec_gpio_controls(
                    old(self).spec_pins(),
                    old(self).spec_outputs(),
                    *request,
                );
                &&& resp.failed_count == 0
                &&& resp.data.wf()
                &&& resp.data.telemetry@.len() == 0
                &&& resp.data.adjustment@.len() == 0
                &&& resp.data.signal@.len() == sigs.len()
                &&& (forall|i: int|
                    0 <= i < sigs.len() ==> (#[trigger] resp.data.signal@[i]).id == sigs[i].0
                        && resp.data.signal@[i].value == Value::Bool(sigs[i].1)
                        && resp.data.signal@[i].data_type == DataType::Signal)
                &&& resp.data.control@.len() == ctrls.len()
                &&& (forall|i: int|
                    0 <= i < ctrls.len() ==> (#[trigger] resp.data.control@[i]).id == ctrls[i].0
                        && resp.data.control@[i].value == Value::Bool(ctrls[i].1)
                        && resp.data.control@[i].data_type == DataType::Control)
            },
    {
        if !matches!(self.state, ConnectionState::Connected) {
            return Err(GatewayError::NotConnected);
        }
        let ghost pins0 = self.config.pins@;
        let ghost outs0 = self.output_states@;
        let mut batch = DataBatch::new();
        let mut i: usize = 0;
        while i < self.config.pins.len()
            invariant
                i <= self.config.pins@.len(),
                batch.wf(),
                self.state == old(self).state,
                self.output_states@ == outs0,
                self.config.pins@ == pins0,
                self.config == old(self).config,
                self.channel_id == old(self).channel_id,
                batch.telemetry@.len() == 0,
                batch.adjustment@.len() == 0,
                batch.signal@.len() == spec_gpio_signals(pins0.take(i as int), *request).len(),
                forall|k: int|
                    0 <= k < batch.signal@.len() ==> {
                        let part = spec_gpio_signals(pins0.take(i as int), *request);
                        (#[trigger] batch.signal@[k]).id == part[k].0 && batch.signal@[k].value
                            == Value::Bool(part[k].1) && batch.signal@[k].data_type
                            == DataType::Signal
                    },
                batch.control@.len() == spec_gpio_controls(
                    pins0.take(i as int),
                    outs0,
                    *request,
                ).len(),
                forall|k: int|
                    0 <= k < batch.control@.len() ==> {
                        let part = spec_gpio_controls(pins0.take(i as int), outs0, *request);
                        (#[trigger] batch.control@[k]).id == part[k].0 && batch.control@[k].value
                            == Value::Bool(part[k].1) && batch.control@[k].data_type
                            == DataType::Control
                    },
            decreases self.config.pins@.len() - i,
        {
            let pin = &self.config.pins[i];
            proof {
                assert(pins0.take(i + 1).drop_last() =~= pins0.take(i as int));
                assert(pins0.take(i + 1).last() == pins0[i as int]);
            }
            let selected = match &request.point_ids {
                Some(ids) => contains_id(ids, pin.point_id),
                None => true,
            };
            if selected {
                match pin.direction {
                    GpioDirection::Input => {
                        // idle line level, inverted by active-low
                        let level = pin.active_low;
                        batch.add(DataPoint::signal(pin.point_id, level));
                    },
                    GpioDirection::Output => {
                        match self.output_states.get(&pin.point_id) {
                            Some(v) => {
                                batch.add(DataPoint::control(pin.point_id, *v));
                            },
                            None => {},
                        }
                    },
                }
            }
            i += 1;
        }
        proof {
            assert(pins0.take(pins0.len() as int) =~= pins0);
        }
        if self.read_count < u64::MAX {
            self.read_count = self.read_count + 1;
        }
        Ok(ReadResponse::success(batch))
    }

    /// Write control commands to output pins.
    ///
    /// Fails with `NotConnected` exactly when the channel is not
    /// connected. Each command with an output pin under its identifier
    /// latches that pin, inverted by active-low; every other command is
    /// reported in the failure list, and failures do not abort the batch.
    pub fn write_control(&mut self, commands: &Vec<ControlCommand>) -> (r: Result<
        WriteResult,
        GatewayError,
    >)
        ensures
            old(self).spec_state() != ConnectionState::Connected <==> (r matches Err(e) && e
                is NotConnected),
            final(self).spec_state() == old(self).spec_state(),
            final(self).spec_pins() == old(self).spec_pins(),
            r is Ok ==> final(self).spec_outputs() == spec_latch(
                commands@,
                old(self).spec_pins(),
                old(self).spec_outputs(),
            ),
            r matches Ok(w) ==> w.success_count + w.failures@.len() == commands@.len(),
            r matches Ok(w) ==> (forall|k: int|
                0 <= k < commands@.len() && has_output_pin(
                    old(self).spec_pins(),
                    (#[trigger] commands@[k]).id,
                ) ==> final(self).spec_outputs().contains_key(commands@[k].id)),
            r matches Ok(w) ==> (forall|k: int|
                0 <= k < w.failures@.len() ==> !has_output_pin(
                    old(self).spec_pins(),
                    (#[trigger] w.failures@[k]).0,
                )),
    {
        if !matches!(self.state, ConnectionState::Connected) {
            return Err(GatewayError::NotConnected);
        }
        let mut success: usize = 0;
        let mut failures: Vec<(u32, String)> = Vec::new();
        let mut i: usize = 0;
        while i < commands.len()
            invariant
                i <= commands@.len(),
                success + failures@.len() == i,
                success <= i,
                self.state == old(self).state,
                self.config == old(self).config,
                self.channel_id == old(self).channel_id,
                self.output_states@ == spec_latch(
                    commands@.take(i as int),
                    self.config.pins@,
                    old(self).output_states@,
                ),
                forall|k: int|
                    0 <= k < i && has_output_pin(
                        self.config.pins@,
                        (#[trigger] commands@[k]).id,
                    ) ==> self.output_states@.contains_key(commands@[k].id),
                forall|k: int|
                    0 <= k < failures@.len() ==> !has_output_pin(
                        self.config.pins@,
                        (#[trigger] failures@[k]).0,
                    ),
            decreases commands@.len() - i,
        {
            let cmd = &commands[i];
            proof {
                assert(commands@.take(i + 1).drop_last() =~= commands@.take(i as int));
                assert(commands@.take(i + 1).last() == commands@[i as int]);
            }
            match self.find_output_pin(cmd.id) {
                Some(idx) => {
                    let pin = &self.config.pins[idx];
                    let adjusted = if pin.active_low {
                        !cmd.value
                    } else {
                        cmd.value
                    };
                    self.output_states.insert(cmd.id, adjusted);
                    if self.write_count < u64::MAX {
                        self.write_count = self.write_count + 1;
                    }
                    success = success + 1;
                },
                None => {
                    failures.push((cmd.id, String::from_str("output pin not found")));
                },
            }
            i += 1;
        }
        proof {
            assert(commands@.take(commands@.len() as int) =~= commands@);
        }
        Ok(WriteResult { success_count: success, failures })
    }

    /// Find the first output pin carrying a point identifier.
    fn find_output_pin(&self, point_id: u32) -> (r: Option<usize>)
        ensures
            r matches Some(idx) ==> idx as int == first_output_from(
                self.config.pins@,
                point_id,
                0,
            ) && idx < self.config.pins@.len() && self.config.pins@[idx as int].point_id
                == point_id && self.config.pins@[idx as int].direction == GpioDirection::Output,
            r is Some <==> has_output_pin(self.config.pins@, point_id),
    {
        let mut i: usize = 0;
        while i < self.config.pins.len()
            invariant
                i <= self.config.pins@.len(),
                first_output_from(self.config.pins@, point_id, 0) == first_output_from(
                    self.config.pins@,
                    point_id,
                    i as int,
                ),
                forall|k: int|
                    0 <= k < i ==> !((#[trigger] self.config.pins@[k]).point_id == point_id
                        && self.config.pins@[k].direction == GpioDirection::Output),
            decreases self.config.pins@.len() - i,
        {
            let pin = &self.config.pins[i];
            if pin.point_id == point_id && matches!(pin.direction, GpioDirection::Output) {
                return Some(i);
            }
            i += 1;
        }
        proof {
            lemma_first_output(self.config.pins@, point_id, 0);
        }
        None
    }

    /// The latched value of an output, if any was written.
    pub fn read_output_state(&self, point_id: u32) -> (r: Option<bool>)
        ensures
            r == (if self.spec_outputs().contains_key(point_id) {
                Some(self.spec_outputs()[point_id])
            } else {
                None::<bool>
            }),
    {
        match self.output_states.get(&point_id) {
            Some(v) => Some(*v),
            None => None,
        }
    }

    /// GPIO carries no analog outputs.
    pub fn write_adjustment(&mut self, _adjustments: &Vec<AdjustmentCommand>) -> (r: Result<
        WriteResult,
        GatewayError,
    >)
        ensures
            r matches Err(e) && e is Unsupported,
            *final(self) == *old(self),
    {
        Err(GatewayError::Unsupported(String::from_str("GPIO does not support analog adjustment")))
    }

    /// Diagnostics snapshot.
    pub fn diagnostics(&self) -> (d: Diagnostics)
        ensures
            d.protocol@ == "GPIO"@,
            d.connection_state == self.spec_state(),
            d.read_count == self.spec_read_count(),
    {
        let mut d = Diagnostics::new("GPIO");
        d.connection_state = self.state;
        d.read_count = self.read_count;
        d.write_count = self.write_count;
        d.error_count = self.error_count;
        d.last_error = match &self.last_error {
            Some(m) => Some(m.clone()),
            None => None,
        };
        d
    }
}

/// Whether a list of identifiers contains one.
fn contains_id(ids: &Vec<u32>, id: u32) -> (r: bool)
    ensures
        r == ids@.contains(id),
{
    let mut i: usize = 0;
    while i < ids.len()
        invariant
            i <= ids@.len(),
            forall|k: int| 0 <= k < i ==> ids@[k] != id,
        decreases ids@.len() - i,
    {
        if ids[i] == id {
            return true;
        }
        i += 1;
    }
    proof {
        assert(!ids@.contains(id));
    }
    false
}

} // verus!
