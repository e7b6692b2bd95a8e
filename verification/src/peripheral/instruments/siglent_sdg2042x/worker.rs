//! The course of the blocking worker of the generator: connecting, setting up,
//! sending commanded states, and making the outputs safe before it ends.

use vstd::prelude::*;
use crate::peripheral::instruments::responder::WorkerStatus;
use crate::text;
use super::config::Config;
use super::driver;
use super::driver::{
    apply_request, combine_worker_results, startup_error, worker_error, ChannelNumbers, Exchange,
    Reply, SafeRun, SetupRun, SiglentSdg2042XDriver, WorkerJob, SAFE_STEPS, SETUP_STEPS,
};
use super::peripheral::InstrumentState;

verus! {

/// Where the worker stands.
#[derive(Debug, Clone, Copy, PartialEq, Eq, Structural)]
pub enum SiglentPhase {
    /// The connection is to be opened.
    Connecting,
    /// The exchanges of the setup are to be performed.
    SettingUp,
    /// A job is to be taken.
    Running,
    /// The commands of this state are to be prepared.
    Preparing { request: InstrumentState },
    /// The command with this index is to be sent for this state.
    Applying { request: InstrumentState, next: usize },
    /// The exchanges that make the outputs safe are to be performed.
    Safing,
    /// The worker has ended.
    Ended,
}

/// What the worker does next.
#[derive(Debug)]
pub enum SiglentAction {
    /// Open the connection.
    Connect,
    /// Send a command, and read its response where it is a query.
    Perform(Exchange),
    /// Take a job.
    TakeJob,
    /// Prepare the commands of this state.
    Prepare(InstrumentState),
    /// End.
    Stop,
}

/// What the worker reports.
#[derive(Debug)]
pub enum SiglentOutcome {
    /// Nothing: go on.
    Continue,
    /// The instrument is set up and its outputs are safe: startup is done.
    Ready,
    /// Startup failed with this error. `startup` is what is reported to those who
    /// wait for it.
    Failed { startup: String, error: String },
    /// The worker has ended, once the outputs were made safe.
    Ended(Result<(), String>),
}

/// The fault of a reply in the setup.
pub open spec fn setup_fault(config: Config, run: SetupRun, reply: Reply) -> Option<Seq<char>> {
    if run.step == 10 {
        let errors = safe_errors_after(run.safe, reply);
        if errors.len() > 0 {
            Some(text::joined(errors, "; "@))
        } else {
            None
        }
    } else if 1 <= run.step < 10 {
        None
    } else {
        driver::setup_cause(config, run.step as int, reply)
    }
}

/// The errors of the safe sequence, once the reply to its next exchange is in.
pub open spec fn safe_errors_after(run: SafeRun, reply: Reply) -> Seq<Seq<char>> {
    match driver::safe_cause(run.step as int, reply) {
        Some(cause) => text::texts(run.errors@).push(driver::safe_context(run.step as int) + cause),
        None => text::texts(run.errors@),
    }
}

/// How the worker ends: the error of its run, and those of the safe sequence.
pub open spec fn ending(run_error: Option<Seq<char>>, errors: Seq<Seq<char>>) -> Option<Seq<char>> {
    let joined = text::joined(errors, "; "@);
    match run_error {
        Some(e) => if errors.len() > 0 {
            Some(e + "; additionally failed to apply safe state during shutdown: "@ + joined)
        } else {
            Some(e)
        },
        None => if errors.len() > 0 {
            Some("failed to apply safe state during shutdown: "@ + joined)
        } else {
            None
        },
    }
}

/// Whether an error of the worker was latched: the first one stays.
pub open spec fn latched(before: WorkerStatus, after: WorkerStatus, e: Seq<char>) -> bool {
    &&& after.identity == before.identity
    &&& match before.error {
        Some(_) => after.error == before.error,
        None => after.error matches Some(s) && s@ == "SDG2042X: "@ + e,
    }
}

/// Whether two drivers have the same settings and the same queue.
pub open spec fn same_queue(a: SiglentSdg2042XDriver, b: SiglentSdg2042XDriver) -> bool {
    &&& a.config == b.config
    &&& a.channel_name == b.channel_name
    &&& a.safe_state_pending == b.safe_state_pending
    &&& a.next == b.next
}

/// The worker. `ready` is set once startup is done, and `run_error` is why the
/// outputs are made safe where no stop was asked for.
#[derive(Debug)]
pub struct SiglentWorker {
    pub phase: SiglentPhase,
    pub ready: bool,
    pub setup: SetupRun,
    pub commands: Vec<String>,
    pub run_error: Option<String>,
    pub safe: SafeRun,
}

impl SiglentWorker {
    /// The indices are in range, no error is kept before the outputs are made safe,
    /// and once startup is done the worker ends only behind the last exchange that
    /// makes them safe.
    pub open spec fn wf(self) -> bool {
        &&& self.setup.wf()
        &&& self.phase is SettingUp ==> self.setup.step < SETUP_STEPS && !self.ready
        &&& self.phase is Connecting ==> self.setup.step == 0 && !self.ready
        &&& self.phase is SettingUp && self.setup.step > 0 ==> self.setup.identity is Some
        &&& self.phase matches SiglentPhase::Applying { request, next } ==> next < self.commands@.len()
        &&& self.phase is Running || self.phase is Preparing || self.phase is Applying ==> self.ready
        &&& !(self.phase is Safing || self.phase is Ended) ==> self.run_error is None
            && self.safe.step == 0 && self.safe.errors@.len() == 0
        &&& self.phase is Safing ==> self.ready && self.safe.step < SAFE_STEPS
        &&& self.phase is Ended && self.ready ==> self.safe.step == SAFE_STEPS
    }

    /// The error of the run, as a text.
    pub open spec fn run_error_text(self) -> Option<Seq<char>> {
        match self.run_error {
            Some(e) => Some(e@),
            None => None,
        }
    }

    /// A worker that has nothing done yet.
    pub fn new() -> (r: Self)
        ensures
            r.wf(),
            r.phase == SiglentPhase::Connecting,
            !r.ready,
            r.setup.step == 0,
            r.setup.safe.errors@.len() == 0,
            r.run_error is None,
            r.safe.step == 0,
            r.safe.errors@.len() == 0,
    {
        SiglentWorker {
            phase: SiglentPhase::Connecting,
            ready: false,
            setup: SetupRun::new(),
            commands: Vec::new(),
            run_error: None,
            safe: SafeRun { step: 0, errors: Vec::new() },
        }
    }

    /// What to do next.
    pub fn next(&self, config: &Config) -> (action: SiglentAction)
        requires
            self.wf(),
        ensures
            match self.phase {
                SiglentPhase::Connecting => action is Connect,
                SiglentPhase::SettingUp => action is Perform && action->Perform_0.message()
                    == driver::setup_message(*config, self.setup.step as int),
                SiglentPhase::Running => action is TakeJob,
                SiglentPhase::Preparing { request } => action == SiglentAction::Prepare(request),
                SiglentPhase::Applying { request, next } => action is Perform
                    && !action->Perform_0.query && action->Perform_0.text@
                    == self.commands@[next as int]@,
                SiglentPhase::Safing => action is Perform && action->Perform_0.message()
                    == driver::safe_message(self.safe.step as int),
                SiglentPhase::Ended => action is Stop,
            },
    {
        match self.phase {
            SiglentPhase::Connecting => SiglentAction::Connect,
            SiglentPhase::SettingUp => match self.setup.next(config) {
                Some(exchange) => SiglentAction::Perform(exchange),
                None => SiglentAction::Stop,
            },
            SiglentPhase::Running => SiglentAction::TakeJob,
            SiglentPhase::Preparing { request } => SiglentAction::Prepare(request),
            SiglentPhase::Applying { request: _, next } => SiglentAction::Perform(
                Exchange { query: false, text: self.commands[next].as_str().to_owned() },
            ),
            SiglentPhase::Safing => match self.safe.next() {
                Some(exchange) => SiglentAction::Perform(exchange),
                None => SiglentAction::Stop,
            },
            SiglentPhase::Ended => SiglentAction::Stop,
        }
    }

    /// Takes a job from the queue: the pending state, or none. A request to stop
    /// makes the outputs safe. Gives whether the worker is to wait for a change.
    pub fn take_job(&mut self, driver: &mut SiglentSdg2042XDriver, stop: bool) -> (wait: bool)
        requires
            old(self).wf(),
            old(self).phase == SiglentPhase::Running,
        ensures
            final(self).wf(),
            final(self).ready == old(self).ready,
            final(self).setup == old(self).setup,
            final(self).safe == old(self).safe,
            final(self).run_error == old(self).run_error,
            wait == (!stop && old(driver).pending() is None),
            final(self).phase == if stop {
                SiglentPhase::Safing
            } else {
                match old(driver).pending() {
                    Some(request) => SiglentPhase::Preparing { request },
                    None => SiglentPhase::Running,
                }
            },
            final(driver).applied == old(driver).applied,
            final(driver).same_identity(*old(driver)),
            stop ==> final(driver).pending() == old(driver).pending(),
            !stop ==> !final(driver).safe_state_pending && final(driver).next == if old(
                driver,
            ).safe_state_pending {
                old(driver).next
            } else {
                None
            },
    {
        match driver.next_job(stop) {
            WorkerJob::Stop => {
                self.phase = SiglentPhase::Safing;
                false
            },
            WorkerJob::Wait => true,
            WorkerJob::Apply(request) => {
                self.phase = SiglentPhase::Preparing { request };
                false
            },
        }
    }

    /// Prepares the commands of the state that was taken. The numbers are those of
    /// its channels as they stand in commands.
    pub fn prepare(&mut self, config: &Config, numbers1: &ChannelNumbers, numbers2: &ChannelNumbers)
        requires
            old(self).wf(),
            old(self).phase is Preparing,
        ensures
            final(self).wf(),
            final(self).ready == old(self).ready,
            final(self).setup == old(self).setup,
            final(self).safe == old(self).safe,
            final(self).run_error == old(self).run_error,
            ({
                let request = old(self).phase->Preparing_request;
                &&& final(self).phase == SiglentPhase::Applying { request, next: 0 }
                &&& text::texts(final(self).commands@) == driver::channel_commands(
                    1,
                    config.channels[0],
                    request.ch1,
                    *numbers1,
                ) + driver::channel_commands(2, config.channels[1], request.ch2, *numbers2)
            }),
    {
        if let SiglentPhase::Preparing { request } = self.phase {
            self.commands = apply_request(config, request, numbers1, numbers2);
            assert(text::texts(self.commands@).len() == 4);
            self.phase = SiglentPhase::Applying { request, next: 0 };
        }
    }

    /// Takes what came of opening the connection or of an exchange.
    pub fn record(&mut self, driver: &mut SiglentSdg2042XDriver, reply: Reply) -> (r: SiglentOutcome)
        requires
            old(self).wf(),
        ensures
            final(self).wf(),
            final(self).commands == old(self).commands,
            same_queue(*final(driver), *old(driver)),
            match old(self).phase {
                SiglentPhase::Connecting => {
                    &&& final(driver).applied == old(driver).applied
                    &&& !final(self).ready
                    &&& match reply.result {
                        Ok(_) => {
                            &&& r is Continue
                            &&& final(self).phase == SiglentPhase::SettingUp
                            &&& final(self).setup == old(self).setup
                            &&& final(driver).status == old(driver).status
                        },
                        Err(e) => {
                            &&& r is Failed && r->error == e && r->startup@
                                == "SDG2042X connection failed: "@ + e@
                            &&& final(self).phase == SiglentPhase::Ended
                            &&& latched(old(driver).status, final(driver).status, e@)
                        },
                    }
                },
                SiglentPhase::SettingUp => {
                    &&& final(driver).applied == old(driver).applied
                    &&& match setup_fault(old(driver).config, old(self).setup, reply) {
                        Some(e) => {
                            &&& r is Failed && r->error@ == e && r->startup@
                                == "SDG2042X setup failed: "@ + e
                            &&& final(self).phase == SiglentPhase::Ended
                            &&& !final(self).ready
                            &&& latched(old(driver).status, final(driver).status, e)
                        },
                        None => {
                            let done = old(self).setup.step + 1 == SETUP_STEPS;
                            &&& r is Ready <==> done
                            &&& r is Continue <==> !done
                            &&& final(self).ready == done
                            &&& final(self).phase == if done {
                                SiglentPhase::Running
                            } else {
                                SiglentPhase::SettingUp
                            }
                            &&& final(self).setup.step == old(self).setup.step + 1
                            &&& text::texts(final(self).setup.safe.errors@) == if 1 <= old(
                                self,
                            ).setup.step <= 10 {
                                safe_errors_after(old(self).setup.safe, reply)
                            } else {
                                text::texts(old(self).setup.safe.errors@)
                            }
                            &&& final(self).setup.identity == if old(self).setup.step == 0 {
                                Some(reply.result->Ok_0)
                            } else {
                                old(self).setup.identity
                            }
                            &&& final(driver).status.error == old(driver).status.error
                            &&& final(driver).status.identity == if done {
                                old(self).setup.identity
                            } else {
                                old(driver).status.identity
                            }
                        },
                    }
                },
                SiglentPhase::Applying { request, next } => {
                    &&& r is Continue
                    &&& final(driver).status == old(driver).status
                    &&& final(self).ready
                    &&& final(self).safe == old(self).safe
                    &&& match reply.result {
                        Ok(_) => {
                            let done = next + 1 == old(self).commands@.len();
                            &&& final(self).run_error == old(self).run_error
                            &&& final(driver).applied == if done {
                                request
                            } else {
                                old(driver).applied
                            }
                            &&& final(self).phase == if done {
                                SiglentPhase::Running
                            } else {
                                SiglentPhase::Applying { request, next: (next + 1) as usize }
                            }
                        },
                        Err(e) => {
                            &&& final(driver).applied == old(driver).applied
                            &&& final(self).phase == SiglentPhase::Safing
                            &&& final(self).run_error_text() == Some(
                                "failed to apply commanded state: "@ + e@,
                            )
                        },
                    }
                },
                SiglentPhase::Safing => {
                    let errors = safe_errors_after(old(self).safe, reply);
                    &&& final(driver).applied == old(driver).applied
                    &&& final(self).ready
                    &&& final(self).safe.step == old(self).safe.step + 1
                    &&& text::texts(final(self).safe.errors@) == errors
                    &&& if final(self).safe.step < SAFE_STEPS {
                        &&& r is Continue
                        &&& final(self).phase == SiglentPhase::Safing
                        &&& final(self).run_error == old(self).run_error
                        &&& final(driver).status == old(driver).status
                    } else {
                        &&& final(self).phase == SiglentPhase::Ended
                        &&& r is Ended
                        &&& match ending(old(self).run_error_text(), errors) {
                            Some(e) => (r->Ended_0 matches Err(s) && s@ == e) && latched(
                                old(driver).status,
                                final(driver).status,
                                e,
                            ),
                            None => r->Ended_0 is Ok && final(driver).status == old(driver).status,
                        }
                    }
                },
                _ => {
                    &&& r is Continue
                    &&& final(self).phase == old(self).phase
                    &&& *final(driver) == *old(driver)
                },
            },
    {
        match self.phase {
            SiglentPhase::Connecting => match reply.result {
                Ok(_) => {
                    self.phase = SiglentPhase::SettingUp;
                    SiglentOutcome::Continue
                },
                Err(error) => self.startup_failed(driver, false, error),
            },
            SiglentPhase::SettingUp => match self.setup.record(&driver.config, reply) {
                Err(error) => self.startup_failed(driver, true, error),
                Ok(()) => {
                    if self.setup.step < SETUP_STEPS {
                        return SiglentOutcome::Continue;
                    }
                    if let Some(identity) = &self.setup.identity {
                        driver.status.set_identity(identity.clone());
                    }
                    self.ready = true;
                    self.phase = SiglentPhase::Running;
                    SiglentOutcome::Ready
                },
            },
            SiglentPhase::Applying { request, next } => {
                match reply.result {
                    Ok(_) => if next == self.commands.len() - 1 {
                        let _ = driver.completed(request, Ok(()));
                        self.phase = SiglentPhase::Running;
                    } else {
                        self.phase = SiglentPhase::Applying { request, next: next + 1 };
                    },
                    Err(e) => {
                        if let Err(error) = driver.completed(request, Err(e)) {
                            self.run_error = Some(error);
                        }
                        self.phase = SiglentPhase::Safing;
                    },
                }
                SiglentOutcome::Continue
            },
            SiglentPhase::Safing => {
                self.safe.record(reply);
                if self.safe.step < SAFE_STEPS {
                    return SiglentOutcome::Continue;
                }
                self.phase = SiglentPhase::Ended;
                let run_result = match self.run_error.take() {
                    Some(error) => Err(error),
                    None => Ok(()),
                };
                let result = combine_worker_results(run_result, self.safe.finish());
                if let Err(error) = &result {
                    driver.status.latch_error(worker_error(error.as_str()));
                }
                SiglentOutcome::Ended(result)
            },
            _ => SiglentOutcome::Continue,
        }
    }

    fn startup_failed(&mut self, driver: &mut SiglentSdg2042XDriver, connected: bool, error: String) -> (r:
        SiglentOutcome)
        requires
            old(self).setup.wf(),
            !old(self).ready,
        ensures
            final(self).wf(),
            final(self).phase == SiglentPhase::Ended,
            !final(self).ready,
            final(self).commands == old(self).commands,
            same_queue(*final(driver), *old(driver)),
            final(driver).applied == old(driver).applied,
            latched(old(driver).status, final(driver).status, error@),
            r is Failed,
            r->error == error,
            r->startup@ == if connected {
                "SDG2042X setup failed: "@
            } else {
                "SDG2042X connection failed: "@
            } + error@,
    {
        self.phase = SiglentPhase::Ended;
        driver.status.latch_error(worker_error(error.as_str()));
        SiglentOutcome::Failed { startup: startup_error(connected, error.as_str()), error }
    }
}

/// Every exit behind a completed startup makes the outputs safe: such a worker has
/// ended only once each exchange of the safe sequence was performed.
pub proof fn law_every_exit_makes_safe(w: SiglentWorker)
    requires
        w.wf(),
        w.ready,
        w.phase == SiglentPhase::Ended,
    ensures
        w.safe.step == SAFE_STEPS,
{
}

/// The first error of a run stays, and a later one does not replace it.
pub proof fn law_first_error_stays(
    before: WorkerStatus,
    after: WorkerStatus,
    last: WorkerStatus,
    first: Seq<char>,
    second: Seq<char>,
)
    requires
        before.error is None,
        latched(before, after, first),
        latched(after, last, second),
    ensures
        last.error matches Some(s) && s@ == "SDG2042X: "@ + first,
        last.identity == before.identity,
{
}

/// A setup fails at its own exchanges by their own replies, and behind the safe
/// sequence by any error of it, the earlier ones and that of the last reply.
pub proof fn law_setup_fails_behind_the_safe_sequence(config: Config, run: SetupRun, reply: Reply)
    ensures
        1 <= run.step < 10 ==> setup_fault(config, run, reply) is None,
        run.step == 10 ==> (setup_fault(config, run, reply) is None <==> text::texts(
            run.safe.errors@,
        ).len() == 0 && driver::safe_cause(run.safe.step as int, reply) is None),
        !(1 <= run.step <= 10) ==> (setup_fault(config, run, reply) is None
            <==> driver::setup_cause(config, run.step as int, reply) is None),
{
}

/// A run ends well exactly where it had no error and the safe state was applied. Else
/// what it ends with starts with the error of the run, where there was one.
pub proof fn law_ending_tells_every_error(run_error: Option<Seq<char>>, errors: Seq<Seq<char>>)
    ensures
        ending(run_error, errors) is None <==> run_error is None && errors.len() == 0,
        run_error matches Some(e) ==> text::starts_with(ending(run_error, errors)->0, e),
        errors.len() > 0 ==> text::ends_with(
            ending(run_error, errors)->0,
            text::joined(errors, "; "@),
        ),
{
    let joined = text::joined(errors, "; "@);
    let s = ending(run_error, errors)->0;
    if let Some(e) = run_error {
        assert(s.take(e.len() as int) =~= e);
    }
    if errors.len() > 0 {
        assert(s.skip(s.len() - joined.len()) =~= joined);
    }
}

} // verus!
