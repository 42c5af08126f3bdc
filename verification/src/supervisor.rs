//! Startup of the two monitors: what is validated, in which order a
//! direction's resources are acquired, and how failures are classified.
//!
//! The supervisor decides; its owner performs each step against the
//! operating system and reports how it went.

use crate::config::{first_invalid, Config, ConfigError};
use crate::counter::Globals;
use crate::direction::Direction;
use crate::monitor::QuotaMonitor;
use crate::time::Timestamp;
use vstd::prelude::*;
use vstd::string::StringExecFns;

verus! {

/// The three classes of failure.
#[derive(Clone, Copy, Debug, PartialEq, Eq, Structural)]
pub enum ErrorKind {
    /// A startup parameter is unusable; found before any resource is touched.
    Configuration,
    /// A resource of one direction could not be acquired.
    ResourceAcquisition,
    /// A kernel-facing operation failed after monitoring had begun.
    Runtime,
}

/// What can go wrong, and for which direction.
#[derive(Clone, Copy, Debug, PartialEq, Eq, Structural)]
pub enum MonitorError {
    Configuration(ConfigError),
    LoadFailed(Direction),
    AttachFailed(Direction),
    CounterNotFound(Direction),
    MapFailed(Direction),
    Runtime(Direction),
}

impl MonitorError {
    pub open spec fn kind_spec(self) -> ErrorKind {
        match self {
            MonitorError::Configuration(_) => ErrorKind::Configuration,
            MonitorError::Runtime(_) => ErrorKind::Runtime,
            _ => ErrorKind::ResourceAcquisition,
        }
    }

    /// What failed, without the direction.
    pub open spec fn cause(self) -> Seq<char> {
        match self {
            MonitorError::Configuration(e) => e.text(),
            MonitorError::LoadFailed(_) => "failed to load the counter program"@,
            MonitorError::AttachFailed(_) => "failed to attach to the cgroup"@,
            MonitorError::CounterNotFound(_) => "counter record not found"@,
            MonitorError::MapFailed(_) => "MAP_FAILED"@,
            MonitorError::Runtime(_) => "monitoring failed"@,
        }
    }

    /// The direction that the failure belongs to, if it belongs to one.
    pub open spec fn direction_spec(self) -> Option<Direction> {
        match self {
            MonitorError::Configuration(_) => None,
            MonitorError::LoadFailed(d) => Some(d),
            MonitorError::AttachFailed(d) => Some(d),
            MonitorError::CounterNotFound(d) => Some(d),
            MonitorError::MapFailed(d) => Some(d),
            MonitorError::Runtime(d) => Some(d),
        }
    }

    /// The description shown to the operator: the direction, where there is
    /// one, then the cause.
    pub open spec fn text(self) -> Seq<char> {
        match self.direction_spec() {
            Some(d) => d.label() + ": "@ + self.cause(),
            None => self.cause(),
        }
    }

    pub fn kind(self) -> (k: ErrorKind)
        ensures
            k == self.kind_spec(),
    {
        match self {
            MonitorError::Configuration(_) => ErrorKind::Configuration,
            MonitorError::Runtime(_) => ErrorKind::Runtime,
            _ => ErrorKind::ResourceAcquisition,
        }
    }

    pub fn direction(self) -> (d: Option<Direction>)
        ensures
            d == self.direction_spec(),
    {
        match self {
            MonitorError::Configuration(_) => None,
            MonitorError::LoadFailed(d) => Some(d),
            MonitorError::AttachFailed(d) => Some(d),
            MonitorError::CounterNotFound(d) => Some(d),
            MonitorError::MapFailed(d) => Some(d),
            MonitorError::Runtime(d) => Some(d),
        }
    }

    /// Whether the failure ends the whole process. Configuration and
    /// acquisition failures do: there is no single-direction mode. A runtime
    /// failure ends the worker it happened in.
    pub fn stops_process(self) -> (stops: bool)
        ensures
            stops == (self.kind_spec() != ErrorKind::Runtime),
    {
        match self.kind() {
            ErrorKind::Runtime => false,
            _ => true,
        }
    }

    pub fn message(self) -> (s: String)
        ensures
            s@ == self.text(),
    {
        let cause: &'static str = match self {
            MonitorError::Configuration(e) => e.message(),
            MonitorError::LoadFailed(_) => "failed to load the counter program",
            MonitorError::AttachFailed(_) => "failed to attach to the cgroup",
            MonitorError::CounterNotFound(_) => "counter record not found",
            MonitorError::MapFailed(_) => "MAP_FAILED",
            MonitorError::Runtime(_) => "monitoring failed",
        };
        let mut s = String::new();
        match self.direction() {
            Some(d) => {
                s.append(d.name());
                s.append(": ");
                s.append(cause);
                assert(s@ =~= d.label() + ": "@ + self.cause());
            },
            None => {
                s.append(cause);
                assert(s@ =~= self.cause());
            },
        }
        s
    }
}

/// The steps by which one direction is brought up, in their order.
#[derive(Clone, Copy, Debug, PartialEq, Eq, Structural)]
pub enum Step {
    /// Load the counter program of the direction.
    LoadProgram,
    /// Attach the program to the configured cgroup.
    AttachCgroup,
    /// Take the handle of the program's counter record.
    TakeCounterHandle,
    /// Map the counter record.
    MapRecord,
    /// Write the quota into the mapped record. The program is attached by
    /// then, so it may consult the record before the quota is there.
    WriteQuota,
    /// Run the monitor until shutdown.
    Monitor,
}

impl Step {
    /// The place of the step in the order, from 0.
    pub open spec fn position(self) -> nat {
        match self {
            Step::LoadProgram => 0,
            Step::AttachCgroup => 1,
            Step::TakeCounterHandle => 2,
            Step::MapRecord => 3,
            Step::WriteQuota => 4,
            Step::Monitor => 5,
        }
    }

    /// The error that a failure of the step amounts to.
    pub open spec fn failure(self, direction: Direction) -> MonitorError {
        match self {
            Step::LoadProgram => MonitorError::LoadFailed(direction),
            Step::AttachCgroup => MonitorError::AttachFailed(direction),
            Step::TakeCounterHandle => MonitorError::CounterNotFound(direction),
            Step::MapRecord => MonitorError::MapFailed(direction),
            Step::WriteQuota => MonitorError::Runtime(direction),
            Step::Monitor => MonitorError::Runtime(direction),
        }
    }

    /// The step that follows, none after the last.
    pub open spec fn successor(self) -> Option<Step> {
        match self {
            Step::LoadProgram => Some(Step::AttachCgroup),
            Step::AttachCgroup => Some(Step::TakeCounterHandle),
            Step::TakeCounterHandle => Some(Step::MapRecord),
            Step::MapRecord => Some(Step::WriteQuota),
            Step::WriteQuota => Some(Step::Monitor),
            Step::Monitor => None,
        }
    }
}

/// Holds a configuration that has passed validation.
#[derive(Debug)]
pub struct Supervisor {
    config: Config,
}

impl Supervisor {
    #[verifier::type_invariant]
    closed spec fn validated(&self) -> bool {
        self.config.valid()
    }

    /// The configuration that the supervisor was made with.
    pub closed spec fn config_spec(&self) -> Config {
        self.config
    }

    /// Validates the configuration. An invalid one is turned down here,
    /// before a single step towards any resource has been named.
    pub fn new(config: Config) -> (r: Result<Supervisor, MonitorError>)
        ensures
            r is Ok <==> config.valid(),
            r matches Ok(s) ==> s.config_spec() == config,
            r matches Err(e) ==> first_invalid(
                config.quota,
                config.quota_period,
                config.sample_interval,
            ) matches Some(c) && e == MonitorError::Configuration(c),
    {
        match config.validate() {
            Ok(()) => Ok(Supervisor { config }),
            Err(e) => Err(MonitorError::Configuration(e)),
        }
    }

    pub fn config(&self) -> (c: &Config)
        ensures
            *c == self.config_spec(),
            c.valid(),
    {
        proof {
            use_type_invariant(self);
        }
        &self.config
    }

    /// The step that every direction begins with.
    pub fn first_step(&self) -> (s: Step)
        ensures
            s == Step::LoadProgram,
            s.position() == 0,
    {
        Step::LoadProgram
    }

    /// What follows `step` for `direction`, given whether the step
    /// succeeded. A failure is never retried and never skipped: it ends the
    /// direction with the step's error. After the last step nothing follows.
    pub fn advance(&self, step: Step, direction: Direction, succeeded: bool) -> (r: Result<
        Option<Step>,
        MonitorError,
    >)
        ensures
            succeeded ==> r == Ok::<Option<Step>, MonitorError>(step.successor()),
            !succeeded ==> r == Err::<Option<Step>, MonitorError>(step.failure(direction)),
    {
        if !succeeded {
            return Err(
                match step {
                    Step::LoadProgram => MonitorError::LoadFailed(direction),
                    Step::AttachCgroup => MonitorError::AttachFailed(direction),
                    Step::TakeCounterHandle => MonitorError::CounterNotFound(direction),
                    Step::MapRecord => MonitorError::MapFailed(direction),
                    Step::WriteQuota => MonitorError::Runtime(direction),
                    Step::Monitor => MonitorError::Runtime(direction),
                },
            );
        }
        Ok(
            match step {
                Step::LoadProgram => Some(Step::AttachCgroup),
                Step::AttachCgroup => Some(Step::TakeCounterHandle),
                Step::TakeCounterHandle => Some(Step::MapRecord),
                Step::MapRecord => Some(Step::WriteQuota),
                Step::WriteQuota => Some(Step::Monitor),
                Step::Monitor => None,
            },
        )
    }

    /// Performs [`Step::WriteQuota`] on the image of a mapped record: the
    /// configured quota becomes the record's limit.
    pub fn write_quota(&self, record: &mut Globals)
        ensures
            final(record).hard_quota == self.config_spec().quota,
            final(record).hard_quota > 0,
            final(record).byte_count == old(record).byte_count,
    {
        proof {
            use_type_invariant(self);
        }
        record.set_hard_quota(self.config.quota);
    }

    /// The monitor of `direction`, its first quota period beginning at `now`.
    pub fn monitor(&self, direction: Direction, now: Timestamp) -> (m: QuotaMonitor)
        ensures
            m.direction == direction,
            m.sample_interval == self.config_spec().sample_interval,
            m.sample_interval > 0,
            m.period.length == self.config_spec().quota_period,
            m.period.length > 0,
            m.period.last_reset == now,
            !m.period.exceeded,
    {
        proof {
            use_type_invariant(self);
        }
        QuotaMonitor::new(direction, self.config.quota_period, self.config.sample_interval, now)
    }
}

/// Every step but the last is followed by the one in the next position. The
/// quota is written after the program has been attached and before the
/// monitor takes its first sample.
pub proof fn lemma_step_order(step: Step)
    ensures
        step.successor() matches Some(next) ==> next.position() == step.position() + 1,
        step.successor() is None <==> step == Step::Monitor,
        Step::AttachCgroup.position() < Step::WriteQuota.position() < Step::Monitor.position(),
{
}

} // verus!
