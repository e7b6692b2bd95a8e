//! The worker of a Keithley DMM6500: it owns the connection, sets the instrument
//! up and keeps reading. Startup is not reported before identity, configuration
//! and a first measurement are good.

use vstd::prelude::*;
use crate::binary64::Real;
use super::keithley_dmm6500;
use super::keithley_dmm6500::{
    parse_measurement, startup_error, worker_error, Config, StartupPhase, State,
};
use super::scpi;

verus! {

/// Where the worker is.
#[derive(Debug, Clone, Copy, PartialEq, Eq, Structural)]
pub enum DmmPhase {
    /// The connection is to be opened.
    Connecting,
    /// The identity is to be asked for.
    Identifying,
    /// The setup command with this index is to be sent.
    SettingUp { next: usize },
    /// Measurements are to be read.
    Measuring,
    /// The worker has failed.
    Ended,
}

/// What the worker does next.
#[derive(Debug)]
pub enum DmmAction {
    /// Open the connection.
    Connect,
    /// Send a command and read its response.
    Query(String),
    /// Send a command that has no response.
    Command(String),
    /// End.
    Stop,
}

/// What came of an action: the response to a query, or an empty text. `number` is
/// the trimmed response read as a number, or why it is none.
#[derive(Debug)]
pub struct DmmReply {
    pub result: Result<String, String>,
    pub number: Result<Real, String>,
}

/// What the worker reports.
#[derive(Debug)]
pub enum DmmOutcome {
    /// Nothing: go on.
    Continue,
    /// The instrument is set up and has measured: startup is done.
    Ready,
    /// The worker has failed with this error. `startup` is what is reported to
    /// those who wait for the startup.
    Failed { startup: Option<String>, error: String },
}

/// The phase behind a phase without a fault, with a number of setup commands.
pub open spec fn following(phase: DmmPhase, commands: nat) -> DmmPhase {
    match phase {
        DmmPhase::Connecting => DmmPhase::Identifying,
        DmmPhase::Identifying => if commands == 0 {
            DmmPhase::Measuring
        } else {
            DmmPhase::SettingUp { next: 0 }
        },
        DmmPhase::SettingUp { next } => if next + 1 >= commands {
            DmmPhase::Measuring
        } else {
            DmmPhase::SettingUp { next: (next + 1) as usize }
        },
        DmmPhase::Measuring => DmmPhase::Measuring,
        DmmPhase::Ended => DmmPhase::Ended,
    }
}

/// The fault of an identity.
pub open spec fn identity_fault(config: Config, identity: Seq<char>) -> Option<Seq<char>> {
    if scpi::identity_matches(
        identity,
        config.connection.expected_vendor@,
        config.connection.expected_model@,
    ) {
        None
    } else {
        Some(
            "identity `"@ + identity + "` did not match "@ + config.connection.expected_vendor@
                + " "@ + config.connection.expected_model@,
        )
    }
}

/// The fault of a reply in a phase.
pub open spec fn reply_fault(phase: DmmPhase, config: Config, reply: DmmReply) -> Option<Seq<char>> {
    match reply.result {
        Err(e) => Some(e@),
        Ok(response) => match phase {
            DmmPhase::Identifying => identity_fault(config, response@),
            DmmPhase::Measuring => keithley_dmm6500::measurement_fault(response@, reply.number),
            _ => None,
        },
    }
}

/// What a failed startup is reported with.
pub open spec fn startup_text(phase: DmmPhase, error: Seq<char>) -> Seq<char> {
    let start = match phase {
        DmmPhase::Connecting => "DMM6500 connection failed: "@,
        DmmPhase::Measuring => "DMM6500 initial read failed: "@,
        _ => "DMM6500 setup failed: "@,
    };
    start + error
}

/// The worker. `identity` is kept until startup is done.
#[derive(Debug)]
pub struct DmmWorker {
    pub phase: DmmPhase,
    pub commands: Vec<String>,
    pub identity: Option<String>,
    pub ready: bool,
}

impl DmmWorker {
    /// The index of a setup command is in range, and behind the identification the
    /// identity is known.
    pub open spec fn wf(self) -> bool {
        &&& self.phase matches DmmPhase::SettingUp { next } ==> next < self.commands@.len()
        &&& (self.phase is SettingUp || self.phase is Measuring) ==> self.identity is Some
        &&& self.ready ==> self.phase is Measuring || self.phase is Ended
    }

    /// A worker that has these setup commands to send.
    pub fn new(commands: Vec<String>) -> (r: Self)
        ensures
            r.wf(),
            r.phase == DmmPhase::Connecting,
            r.commands == commands,
            r.identity is None,
            !r.ready,
    {
        DmmWorker { phase: DmmPhase::Connecting, commands, identity: None, ready: false }
    }

    /// What to do next. A request to stop is looked at between measurements, once
    /// startup is done.
    pub fn next(&self, stop: bool) -> (action: DmmAction)
        requires
            self.wf(),
        ensures
            match self.phase {
                DmmPhase::Connecting => action is Connect,
                DmmPhase::Identifying => action is Query && action->Query_0@ == "*IDN?"@,
                DmmPhase::SettingUp { next } => action is Command && action->Command_0@
                    == self.commands@[next as int]@,
                DmmPhase::Measuring => if self.ready && stop {
                    action is Stop
                } else {
                    action is Query && action->Query_0@ == ":READ?"@
                },
                DmmPhase::Ended => action is Stop,
            },
    {
        match self.phase {
            DmmPhase::Connecting => DmmAction::Connect,
            DmmPhase::Identifying => DmmAction::Query("*IDN?".to_owned()),
            DmmPhase::SettingUp { next } => DmmAction::Command(
                self.commands[next].as_str().to_owned(),
            ),
            DmmPhase::Measuring => if self.ready && stop {
                DmmAction::Stop
            } else {
                DmmAction::Query(":READ?".to_owned())
            },
            DmmPhase::Ended => DmmAction::Stop,
        }
    }

    /// Takes what came of the last action. The first accepted measurement
    /// publishes the identity and completes the startup; each accepted measurement
    /// is published. The first fault ends the worker and is latched.
    pub fn record(&mut self, config: &Config, state: &mut State, reply: DmmReply, now_ns: u64) -> (r:
        DmmOutcome)
        requires
            old(self).wf(),
        ensures
            final(self).wf(),
            final(self).commands == old(self).commands,
            match reply_fault(old(self).phase, *config, reply) {
                Some(e) => {
                    &&& final(self).phase == DmmPhase::Ended
                    &&& final(self).ready == old(self).ready
                    &&& r is Failed && r->error@ == e
                    &&& old(self).ready ==> r->startup is None
                    &&& !old(self).ready ==> (r->startup matches Some(s) && s@ == startup_text(
                        old(self).phase,
                        e,
                    ))
                    &&& final(state).value == old(state).value
                    &&& final(state).sample_sequence == old(state).sample_sequence
                    &&& final(state).sampled_at_ns == old(state).sampled_at_ns
                    &&& final(state).status.identity == old(state).status.identity
                    &&& old(state).status.error is Some ==> final(state).status.error == old(
                        state,
                    ).status.error
                    &&& old(state).status.error is None ==> (
                    final(state).status.error matches Some(s) && s@ == "DMM6500: "@ + e)
                },
                None => {
                    &&& final(self).phase == following(old(self).phase, old(self).commands@.len())
                    &&& final(self).ready == (old(self).ready || old(self).phase is Measuring)
                    &&& old(self).phase is Measuring && !old(self).ready <==> r is Ready
                    &&& !(r is Failed)
                    &&& old(self).phase is Identifying ==> final(self).identity == Some(
                        reply.result->Ok_0,
                    )
                    &&& !(old(self).phase is Identifying) ==> final(self).identity == old(
                        self,
                    ).identity
                    &&& final(state).status.error == old(state).status.error
                    &&& final(state).status.identity == if r is Ready {
                        old(self).identity
                    } else {
                        old(state).status.identity
                    }
                    &&& old(self).phase is Measuring ==> {
                        &&& reply.number == Ok::<Real, String>(final(state).value)
                        &&& final(state).sampled_at_ns == now_ns
                        &&& final(state).sample_sequence == if old(state).sample_sequence
                            == u64::MAX {
                            0
                        } else {
                            (old(state).sample_sequence + 1) as u64
                        }
                    }
                    &&& !(old(self).phase is Measuring) ==> {
                        &&& final(state).value == old(state).value
                        &&& final(state).sampled_at_ns == old(state).sampled_at_ns
                        &&& final(state).sample_sequence == old(state).sample_sequence
                    }
                },
            },
    {
        let phase = self.phase;
        let outcome = match reply.result {
            Err(e) => Err(e),
            Ok(response) => match phase {
                DmmPhase::Identifying => match config.connection.validate_identity(
                    response.as_str(),
                ) {
                    Ok(()) => {
                        self.identity = Some(response);
                        Ok(None)
                    },
                    Err(e) => Err(e),
                },
                DmmPhase::Measuring => match parse_measurement(response.as_str(), reply.number) {
                    Ok(x) => Ok(Some(x)),
                    Err(e) => Err(e),
                },
                _ => Ok(None),
            },
        };
        match outcome {
            Err(error) => {
                let startup = if self.ready {
                    None
                } else {
                    let stage = match phase {
                        DmmPhase::Connecting => StartupPhase::Connection,
                        DmmPhase::Measuring => StartupPhase::InitialRead,
                        _ => StartupPhase::Setup,
                    };
                    Some(startup_error(stage, error.as_str()))
                };
                state.status.latch_error(worker_error(error.as_str()));
                self.phase = DmmPhase::Ended;
                DmmOutcome::Failed { startup, error }
            },
            Ok(measurement) => {
                let mut r = DmmOutcome::Continue;
                if let Some(x) = measurement {
                    state.publish_sample(x, now_ns);
                    if !self.ready {
                        if let Some(identity) = &self.identity {
                            state.status.set_identity(identity.clone());
                        }
                        self.ready = true;
                        r = DmmOutcome::Ready;
                    }
                }
                self.phase =
                match phase {
                    DmmPhase::Connecting => DmmPhase::Identifying,
                    DmmPhase::Identifying => if self.commands.len() == 0 {
                        DmmPhase::Measuring
                    } else {
                        DmmPhase::SettingUp { next: 0 }
                    },
                    DmmPhase::SettingUp { next } => if next >= self.commands.len() - 1 {
                        DmmPhase::Measuring
                    } else {
                        DmmPhase::SettingUp { next: next + 1 }
                    },
                    DmmPhase::Measuring => DmmPhase::Measuring,
                    DmmPhase::Ended => DmmPhase::Ended,
                };
                r
            },
        }
    }
}

/// The phase after a number of steps without a fault.
pub open spec fn phase_after(steps: nat, commands: nat) -> DmmPhase
    decreases steps,
{
    if steps == 0 {
        DmmPhase::Connecting
    } else {
        following(phase_after((steps - 1) as nat, commands), commands)
    }
}

/// Measuring begins once the connection is open, the identity is verified and all
/// setup commands are sent, one step for each, and not before. Each setup command
/// is sent once, in order.
pub proof fn law_startup_takes_every_step(steps: nat, commands: nat)
    requires
        commands <= usize::MAX,
    ensures
        phase_after(steps, commands) is Measuring <==> steps >= commands + 2,
        2 <= steps < commands + 2 ==> phase_after(steps, commands) == (DmmPhase::SettingUp {
            next: (steps - 2) as usize,
        }),
        steps == 1 ==> phase_after(steps, commands) is Identifying,
    decreases steps,
{
    if steps > 0 {
        law_startup_takes_every_step((steps - 1) as nat, commands);
    }
}

} // verus!
