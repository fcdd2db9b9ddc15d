//! The threshold control loop: read a sensor, compare the reading against a
//! limit, switch an actuator on or off, sleep, and start over.
//!
//! The loop decides; its caller acts. The caller performs the action that the
//! loop names (a read, a write, a sleep) and reports how it went; the loop
//! answers with the next action. The loop is the only writer of its
//! actuator: every write it asks for goes to that one device.

use crate::device::{
    lemma_identities_are_positions, lemma_position_of_class, position_of_class, ActuatorKind,
    CapabilityClass, DeviceRegistry, DeviceView, HardwareFault, SensorKind,
};
use crate::value::{exceeds_spec, Limit, Mismatch, ScaledValue};
use vstd::prelude::*;

verus! {

/// What ends the loop for good.
#[derive(Clone, Copy, Debug, PartialEq, Eq, Structural)]
pub enum Fatal {
    /// The registry holds no sensor of the kind asked for.
    SensorAbsent,
    /// The registry holds no actuator of the kind asked for.
    ActuatorAbsent,
    /// A reading came in another unit or scale than the limit, or without
    /// the channel to compare.
    Misconfigured(Mismatch),
    /// Reading the sensor failed more often in a row than the loop tolerates.
    ReadFailed(HardwareFault),
    /// Writing the actuator failed.
    WriteFailed(HardwareFault),
}

/// What the loop runs on: which devices, which channel against which limit,
/// how long to sleep between rounds, and how many failed reads in a row to
/// pass over before giving up.
#[derive(Clone, Copy, Debug, PartialEq, Eq, Structural)]
pub struct ControlConfig {
    pub sensor: usize,
    pub actuator: usize,
    pub channel: usize,
    pub limit: Limit,
    pub period_ms: u32,
    pub read_retries: u8,
}

/// Where the loop stands.
#[derive(Clone, Copy, Debug, PartialEq, Eq, Structural)]
pub enum Phase {
    /// The sensor is being read.
    Reading,
    /// The actuator is being switched on (`true`) or off (`false`).
    Writing(bool),
    /// The loop sleeps until the next round.
    Sleeping,
    /// The loop has ended.
    Halted(Fatal),
}

/// What the caller reports.
#[derive(Clone, Copy, Debug, PartialEq, Eq)]
pub enum LoopEvent {
    /// The read of the sensor ended, with a reading or a fault.
    ReadDone(Result<ScaledValue, HardwareFault>),
    /// The write to the actuator ended, well or with a fault.
    WriteDone(Result<(), HardwareFault>),
    /// The sleep is over.
    SleepDone,
}

/// What the caller does next.
#[derive(Clone, Copy, Debug, PartialEq, Eq, Structural)]
pub enum LoopAction {
    /// Read the device and report `ReadDone`.
    Read { device: usize },
    /// Switch the device on or off and report `WriteDone`.
    Write { device: usize, on: bool },
    /// Sleep on the fine clock and report `SleepDone`.
    Sleep { millis: u32 },
    /// Stop: the loop has ended for the reason given.
    Halt(Fatal),
}

/// The action that belongs to a phase.
pub open spec fn action_of(config: ControlConfig, phase: Phase) -> LoopAction {
    match phase {
        Phase::Reading => LoopAction::Read { device: config.sensor },
        Phase::Writing(on) => LoopAction::Write { device: config.actuator, on },
        Phase::Sleeping => LoopAction::Sleep { millis: config.period_ms },
        Phase::Halted(fatal) => LoopAction::Halt(fatal),
    }
}

/// The phase after `event` arrives in `phase` with `failures` failed reads in
/// a row behind it. An event that the phase does not wait for changes
/// nothing.
pub open spec fn next_phase(
    config: ControlConfig,
    phase: Phase,
    failures: nat,
    event: LoopEvent,
) -> Phase {
    match (phase, event) {
        (Phase::Reading, LoopEvent::ReadDone(Ok(reading))) => {
            match exceeds_spec(reading@, config.channel as int, config.limit) {
                Ok(on) => Phase::Writing(on),
                Err(mismatch) => Phase::Halted(Fatal::Misconfigured(mismatch)),
            }
        },
        (Phase::Reading, LoopEvent::ReadDone(Err(fault))) => {
            if failures < config.read_retries {
                Phase::Sleeping
            } else {
                Phase::Halted(Fatal::ReadFailed(fault))
            }
        },
        (Phase::Writing(_), LoopEvent::WriteDone(Ok(_))) => Phase::Sleeping,
        (Phase::Writing(_), LoopEvent::WriteDone(Err(fault))) => Phase::Halted(
            Fatal::WriteFailed(fault),
        ),
        (Phase::Sleeping, LoopEvent::SleepDone) => Phase::Reading,
        _ => phase,
    }
}

/// The number of failed reads in a row after `event` arrives in `phase`.
pub open spec fn next_failures(
    config: ControlConfig,
    phase: Phase,
    failures: nat,
    event: LoopEvent,
) -> nat {
    match (phase, event) {
        (Phase::Reading, LoopEvent::ReadDone(Ok(_))) => 0,
        (Phase::Reading, LoopEvent::ReadDone(Err(_))) => {
            if failures < config.read_retries {
                failures + 1
            } else {
                failures
            }
        },
        _ => failures,
    }
}

/// What `ControlLoop::start` answers for a table of devices.
pub open spec fn located(
    all: Seq<DeviceView>,
    sensor: SensorKind,
    actuator: ActuatorKind,
) -> Result<(int, int), Fatal> {
    match position_of_class(all, CapabilityClass::Sensor(sensor), 0) {
        None => Err(Fatal::SensorAbsent),
        Some(s) => match position_of_class(all, CapabilityClass::Actuator(actuator), 0) {
            None => Err(Fatal::ActuatorAbsent),
            Some(a) => Ok((s, a)),
        },
    }
}

/// A control loop in progress.
#[derive(Clone, Copy, Debug, PartialEq, Eq)]
pub struct ControlLoop {
    config: ControlConfig,
    phase: Phase,
    failures: u8,
}

impl ControlLoop {
    /// What the loop runs on.
    pub closed spec fn config(&self) -> ControlConfig {
        self.config
    }

    /// Where the loop stands.
    pub closed spec fn phase(&self) -> Phase {
        self.phase
    }

    /// The failed reads in a row behind the loop.
    pub closed spec fn failures(&self) -> nat {
        self.failures as nat
    }

    /// No more failed reads lie behind the loop than it tolerates.
    #[verifier::type_invariant]
    spec fn well_formed(&self) -> bool {
        self.failures <= self.config.read_retries
    }

    /// A loop on `config`, about to read its sensor.
    pub fn new(config: ControlConfig) -> (r: ControlLoop)
        ensures
            r.config() == config,
            r.phase() == Phase::Reading,
            r.failures() == 0,
    {
        ControlLoop { config, phase: Phase::Reading, failures: 0 }
    }

    /// Finds the devices of the loop in `registry`: the first sensor of kind
    /// `sensor` and the first actuator of kind `actuator`. A registry
    /// without one of them cannot run the loop: the error says which is
    /// absent, the sensor first.
    pub fn start(
        registry: &DeviceRegistry,
        sensor: SensorKind,
        actuator: ActuatorKind,
        channel: usize,
        limit: Limit,
        period_ms: u32,
        read_retries: u8,
    ) -> (r: Result<ControlLoop, Fatal>)
        ensures
            r is Ok <==> located(registry@, sensor, actuator) is Ok,
            r is Err ==> r->Err_0 == located(registry@, sensor, actuator)->Err_0,
            r is Ok ==> r->Ok_0.phase() == Phase::Reading && r->Ok_0.failures() == 0,
            r is Ok ==> r->Ok_0.config().sensor == located(registry@, sensor, actuator)->Ok_0.0
                && r->Ok_0.config().actuator == located(registry@, sensor, actuator)->Ok_0.1,
            r is Ok ==> r->Ok_0.config().channel == channel && r->Ok_0.config().limit == limit
                && r->Ok_0.config().period_ms == period_ms && r->Ok_0.config().read_retries
                == read_retries,
    {
        proof {
            lemma_position_of_class(registry@, CapabilityClass::Sensor(sensor), 0);
            lemma_position_of_class(registry@, CapabilityClass::Actuator(actuator), 0);
        }
        let found_sensor = match registry.first_of_class(CapabilityClass::Sensor(sensor)) {
            Some(device) => {
                proof {
                    lemma_identities_are_positions(
                        *registry,
                        position_of_class(registry@, CapabilityClass::Sensor(sensor), 0)->0,
                    );
                }
                device.id()
            },
            None => {
                return Err(Fatal::SensorAbsent);
            },
        };
        let found_actuator = match registry.first_of_class(CapabilityClass::Actuator(actuator)) {
            Some(device) => {
                proof {
                    lemma_identities_are_positions(
                        *registry,
                        position_of_class(registry@, CapabilityClass::Actuator(actuator), 0)->0,
                    );
                }
                device.id()
            },
            None => {
                return Err(Fatal::ActuatorAbsent);
            },
        };
        Ok(
            ControlLoop::new(
                ControlConfig {
                    sensor: found_sensor,
                    actuator: found_actuator,
                    channel,
                    limit,
                    period_ms,
                    read_retries,
                },
            ),
        )
    }

    /// What the loop runs on.
    pub fn settings(&self) -> (r: ControlConfig)
        ensures
            r == self.config(),
    {
        self.config
    }

    /// Where the loop stands.
    pub fn current_phase(&self) -> (r: Phase)
        ensures
            r == self.phase(),
    {
        self.phase
    }

    /// Whether the loop has ended.
    pub fn is_halted(&self) -> (r: bool)
        ensures
            r == (self.phase() is Halted),
    {
        match self.phase {
            Phase::Halted(_) => true,
            _ => false,
        }
    }

    /// The action that the loop waits for: the first thing to do after
    /// `start`, and at any time the thing to do again after an event out of
    /// turn.
    pub fn pending(&self) -> (r: LoopAction)
        ensures
            r == action_of(self.config(), self.phase()),
    {
        match self.phase {
            Phase::Reading => LoopAction::Read { device: self.config.sensor },
            Phase::Writing(on) => LoopAction::Write { device: self.config.actuator, on },
            Phase::Sleeping => LoopAction::Sleep { millis: self.config.period_ms },
            Phase::Halted(fatal) => LoopAction::Halt(fatal),
        }
    }

    /// Takes one report and names the next action.
    ///
    /// A reading in the limit's unit and scale switches the actuator on when
    /// its channel lies above the limit, and off when it does not. A reading
    /// in another unit or scale ends the loop: it is not compared. A failed
    /// read is passed over, up to the number the loop tolerates in a row:
    /// the round is skipped and the loop sleeps; one failure more ends the
    /// loop. A failed write ends the loop. After a write the loop sleeps,
    /// after the sleep it reads again.
    pub fn step(&mut self, event: LoopEvent) -> (r: LoopAction)
        ensures
            final(self).config() == old(self).config(),
            final(self).phase() == next_phase(
                old(self).config(),
                old(self).phase(),
                old(self).failures(),
                event,
            ),
            final(self).failures() == next_failures(
                old(self).config(),
                old(self).phase(),
                old(self).failures(),
                event,
            ),
            r == action_of(final(self).config(), final(self).phase()),
    {
        proof {
            use_type_invariant(&*self);
        }
        match (self.phase, event) {
            (Phase::Reading, LoopEvent::ReadDone(Ok(reading))) => {
                self.failures = 0;
                match reading.exceeds(self.config.channel, &self.config.limit) {
                    Ok(on) => {
                        self.phase = Phase::Writing(on);
                    },
                    Err(mismatch) => {
                        self.phase = Phase::Halted(Fatal::Misconfigured(mismatch));
                    },
                }
            },
            (Phase::Reading, LoopEvent::ReadDone(Err(fault))) => {
                if self.failures < self.config.read_retries {
                    self.failures = self.failures + 1;
                    self.phase = Phase::Sleeping;
                } else {
                    self.phase = Phase::Halted(Fatal::ReadFailed(fault));
                }
            },
            (Phase::Writing(_), LoopEvent::WriteDone(Ok(_))) => {
                self.phase = Phase::Sleeping;
            },
            (Phase::Writing(_), LoopEvent::WriteDone(Err(fault))) => {
                self.phase = Phase::Halted(Fatal::WriteFailed(fault));
            },
            (Phase::Sleeping, LoopEvent::SleepDone) => {
                self.phase = Phase::Reading;
            },
            _ => {},
        }
        self.pending()
    }
}

/// A reading that agrees with the limit in unit and scale and has the
/// channel decides the write: on exactly when the channel lies above the
/// limit's value, and to the loop's actuator.
pub proof fn lemma_reading_decides(
    config: ControlConfig,
    failures: nat,
    reading: ScaledValue,
)
    requires
        reading@.unit == config.limit.unit,
        reading@.scale == config.limit.scale,
        config.channel < reading@.channels.len(),
    ensures
        action_of(
            config,
            next_phase(config, Phase::Reading, failures, LoopEvent::ReadDone(Ok(reading))),
        ) == (LoopAction::Write {
            device: config.actuator,
            on: reading@.channels[config.channel as int] > config.limit.value,
        }),
{
}

/// A reading in another unit or at another scale than the limit is never
/// compared: it ends the loop, and no write follows.
pub proof fn lemma_mismatch_halts(config: ControlConfig, failures: nat, reading: ScaledValue)
    requires
        reading@.unit != config.limit.unit || reading@.scale != config.limit.scale,
    ensures
        next_phase(config, Phase::Reading, failures, LoopEvent::ReadDone(Ok(reading))) is Halted,
        !(action_of(
            config,
            next_phase(config, Phase::Reading, failures, LoopEvent::ReadDone(Ok(reading))),
        ) is Write),
{
}

/// The loop writes to one device only, its actuator, and reads from one
/// device only, its sensor; and a loop that has ended stays ended.
pub proof fn lemma_single_writer(
    config: ControlConfig,
    phase: Phase,
    failures: nat,
    event: LoopEvent,
)
    ensures
        action_of(config, next_phase(config, phase, failures, event)) matches LoopAction::Write {
            device,
            ..
        } ==> device == config.actuator,
        action_of(config, next_phase(config, phase, failures, event)) matches LoopAction::Read {
            device,
        } ==> device == config.sensor,
        phase is Halted ==> next_phase(config, phase, failures, event) == phase,
{
}

} // verus!
