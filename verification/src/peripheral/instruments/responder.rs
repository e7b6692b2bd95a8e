//! Controller-facing lifecycle responder shared by instrument integrations.
//!
//! The responder answers the standard binding, configuring, and operating packet
//! exchange. It never waits for the instrument: all blocking external I/O is the
//! instrument worker's.

use vstd::prelude::*;
use crate::peripheral::id::PeripheralId;
use crate::text;
use crate::text::{join, same_text};

verus! {

/// Longest wait for one packet.
pub const CHANNEL_POLL_INTERVAL_NS: u64 = 2_000_000;

/// Shortest time after which a silent controller counts as lost.
pub const MIN_LOSS_OF_CONTACT_NS: u64 = 1_000_000;

/// Validated identity and first failure shared with the protocol responder.
#[derive(Debug)]
pub struct WorkerStatus {
    /// Published only after the worker has completed physical setup.
    pub identity: Option<String>,
    /// The first error, which made later state and responses untrustworthy.
    pub error: Option<String>,
}

impl Default for WorkerStatus {
    fn default() -> (r: Self)
        ensures
            r.identity is None,
            r.error is None,
    {
        WorkerStatus { identity: None, error: None }
    }
}

/// A copy of an optional text.
fn copy_text(s: &Option<String>) -> (r: Option<String>)
    ensures
        r == *s,
{
    match s {
        Some(s) => Some(s.clone()),
        None => None,
    }
}

impl WorkerStatus {
    /// The validated identity, once there is one.
    pub fn identity(&self) -> (r: Option<String>)
        ensures
            r == self.identity,
    {
        copy_text(&self.identity)
    }

    /// Publishes the validated identity.
    pub fn set_identity(&mut self, identity: String)
        ensures
            final(self).identity == Some(identity),
            final(self).error == old(self).error,
    {
        self.identity = Some(identity);
    }

    /// The first failure, once there is one.
    pub fn error(&self) -> (r: Option<String>)
        ensures
            r == self.error,
    {
        copy_text(&self.error)
    }

    /// Keeps an error where none was kept before.
    pub fn latch_error(&mut self, error: String)
        ensures
            final(self).error == if old(self).error is Some {
                old(self).error
            } else {
                Some(error)
            },
            final(self).identity == old(self).identity,
    {
        if self.error.is_none() {
            self.error = Some(error);
        }
    }
}

/// Lifecycle state of the responder. Times are nanoseconds of a monotonic clock.
#[derive(Debug, Clone, Copy, PartialEq, Eq, Structural)]
pub enum ResponderState {
    Binding,
    Configuring { deadline_ns: u128 },
    Operating { response_id: u64, last_contact_ns: u64, loss_of_contact_timeout_ns: u64 },
}

/// A response to the controller.
#[derive(Debug, Clone, Copy, PartialEq, Eq, Structural)]
pub enum ResponderReply {
    /// The instrument's identity.
    Binding { configuring_timeout_ms: u32 },
    /// The acknowledgement of a configuration.
    Configuring { dt_ns: u32, loss_of_contact_limit: u16 },
    /// The latest completed state, under this id.
    Operating { id: u64 },
}

/// What the responder does next.
#[derive(Debug, Clone, Copy, PartialEq, Eq, Structural)]
pub enum ResponderAction {
    /// Request the safe behavior and end.
    Stop,
    /// Request the safe behavior and go on.
    MakeSafe,
    /// Sleep for a millisecond.
    Sleep,
    /// Wait at most this long for one packet.
    Receive { timeout_ns: u64 },
    /// Hand the packet to the instrument.
    Process,
    /// Go on without waiting.
    Again,
    /// Send a response.
    Send(ResponderReply),
}

/// The numbers of a request, as far as it holds them.
#[derive(Debug, Clone, Copy, PartialEq, Eq, Structural)]
pub struct RequestFields {
    pub configuring_timeout_ms: u32,
    pub dt_ns: u32,
    pub loss_of_contact_limit: u16,
}

/// Exact packet sizes.
#[derive(Debug, Clone, Copy, PartialEq, Eq, Structural)]
pub struct RequestSizes {
    pub binding: usize,
    pub configuring: usize,
    pub operating: usize,
}

/// The time from `start` to `now`, or zero where the clock stood still.
pub open spec fn elapsed(start: u64, now: u64) -> int {
    if now >= start {
        now - start
    } else {
        0
    }
}

/// The smaller of a wait and the longest wait.
pub open spec fn bounded_wait(ns: int) -> u64 {
    if ns < 0 {
        0
    } else if ns < CHANNEL_POLL_INTERVAL_NS {
        ns as u64
    } else {
        CHANNEL_POLL_INTERVAL_NS
    }
}

/// The start of a cycle: the next state and what to do. A latched error of the
/// instrument suppresses all responses.
pub open spec fn begun(s: ResponderState, stop: bool, error: bool, now: u64) -> (
    ResponderState,
    ResponderAction,
) {
    if stop {
        (s, ResponderAction::Stop)
    } else if error {
        (s, ResponderAction::Sleep)
    } else {
        match s {
            ResponderState::Binding => (
                s,
                ResponderAction::Receive { timeout_ns: CHANNEL_POLL_INTERVAL_NS },
            ),
            ResponderState::Configuring { deadline_ns } => if now >= deadline_ns {
                (ResponderState::Binding, ResponderAction::MakeSafe)
            } else {
                (s, ResponderAction::Receive { timeout_ns: bounded_wait(deadline_ns - now) })
            },
            ResponderState::Operating {
                response_id,
                last_contact_ns,
                loss_of_contact_timeout_ns,
            } => (
                s,
                ResponderAction::Receive {
                    timeout_ns: bounded_wait(
                        loss_of_contact_timeout_ns - elapsed(last_contact_ns, now),
                    ),
                },
            ),
        }
    }
}

/// What a wait for a packet leads to. A packet of another size than the state
/// expects is ignored.
pub open spec fn on_packet(
    s: ResponderState,
    sizes: RequestSizes,
    packet: Option<nat>,
    fields: RequestFields,
    now: u64,
) -> (ResponderState, ResponderAction) {
    match s {
        ResponderState::Binding => if packet == Some(sizes.binding as nat) {
            (
                s,
                ResponderAction::Send(
                    ResponderReply::Binding {
                        configuring_timeout_ms: fields.configuring_timeout_ms,
                    },
                ),
            )
        } else {
            (s, ResponderAction::Again)
        },
        ResponderState::Configuring { deadline_ns } => if packet == Some(
            sizes.configuring as nat,
        ) {
            (
                s,
                ResponderAction::Send(
                    ResponderReply::Configuring {
                        dt_ns: fields.dt_ns,
                        loss_of_contact_limit: fields.loss_of_contact_limit,
                    },
                ),
            )
        } else {
            (s, ResponderAction::Again)
        },
        ResponderState::Operating { response_id, last_contact_ns, loss_of_contact_timeout_ns } => match packet {
            Some(n) => if n == sizes.operating {
                (s, ResponderAction::Process)
            } else {
                (s, ResponderAction::Again)
            },
            None => if elapsed(last_contact_ns, now) >= loss_of_contact_timeout_ns {
                (ResponderState::Binding, ResponderAction::MakeSafe)
            } else {
                (s, ResponderAction::Again)
            },
        },
    }
}

/// The loss-of-contact timeout of a configuration.
pub open spec fn contact_timeout(dt_ns: u32, limit: u16) -> int {
    if dt_ns * limit < MIN_LOSS_OF_CONTACT_NS {
        MIN_LOSS_OF_CONTACT_NS as int
    } else {
        dt_ns * limit
    }
}

/// The state once a response was sent. Response ids are scoped to one operating
/// session and start at 1.
pub open spec fn replied(s: ResponderState, reply: ResponderReply, now: u64) -> ResponderState {
    match reply {
        ResponderReply::Binding { configuring_timeout_ms } => ResponderState::Configuring {
            deadline_ns: (now + configuring_timeout_ms * 1_000_000) as u128,
        },
        ResponderReply::Configuring { dt_ns, loss_of_contact_limit } => ResponderState::Operating {
            response_id: 1,
            last_contact_ns: now,
            loss_of_contact_timeout_ns: contact_timeout(dt_ns, loss_of_contact_limit) as u64,
        },
        ResponderReply::Operating { id } => match s {
            ResponderState::Operating {
                response_id,
                last_contact_ns,
                loss_of_contact_timeout_ns,
            } => ResponderState::Operating {
                response_id: if response_id == u64::MAX {
                    0
                } else {
                    (response_id + 1) as u64
                },
                last_contact_ns,
                loss_of_contact_timeout_ns,
            },
            _ => s,
        },
    }
}

fn wait_of(ns: u64) -> (r: u64)
    ensures
        r == bounded_wait(ns as int),
{
    if ns < CHANNEL_POLL_INTERVAL_NS {
        ns
    } else {
        CHANNEL_POLL_INTERVAL_NS
    }
}

fn since(start: u64, now: u64) -> (r: u64)
    ensures
        r == elapsed(start, now),
{
    if now >= start {
        now - start
    } else {
        0
    }
}

/// Binding, configuration, and operating state machine of an instrument.
#[derive(Debug, Clone, Copy)]
pub struct Responder {
    pub state: ResponderState,
    pub sizes: RequestSizes,
}

impl Responder {
    /// A responder that waits for a controller.
    pub fn new(sizes: RequestSizes) -> (r: Self)
        ensures
            r.state == ResponderState::Binding,
            r.sizes == sizes,
    {
        Responder { state: ResponderState::Binding, sizes }
    }

    /// Starts a cycle.
    pub fn begin(&mut self, stop: bool, error: bool, now_ns: u64) -> (action: ResponderAction)
        ensures
            (final(self).state, action) == begun(old(self).state, stop, error, now_ns),
            final(self).sizes == old(self).sizes,
    {
        if stop {
            return ResponderAction::Stop;
        }
        if error {
            return ResponderAction::Sleep;
        }
        match self.state {
            ResponderState::Binding => ResponderAction::Receive {
                timeout_ns: CHANNEL_POLL_INTERVAL_NS,
            },
            ResponderState::Configuring { deadline_ns } => {
                if now_ns as u128 >= deadline_ns {
                    self.state = ResponderState::Binding;
                    return ResponderAction::MakeSafe;
                }
                let left: u128 = deadline_ns - now_ns as u128;
                let timeout_ns: u64 = if left < CHANNEL_POLL_INTERVAL_NS as u128 {
                    left as u64
                } else {
                    CHANNEL_POLL_INTERVAL_NS
                };
                ResponderAction::Receive { timeout_ns }
            },
            ResponderState::Operating { last_contact_ns, loss_of_contact_timeout_ns, .. } => {
                let silent: u64 = since(last_contact_ns, now_ns);
                let left: u64 = if silent < loss_of_contact_timeout_ns {
                    loss_of_contact_timeout_ns - silent
                } else {
                    0
                };
                ResponderAction::Receive { timeout_ns: wait_of(left) }
            },
        }
    }

    /// Takes the size of a received packet, or none where the wait ran out.
    pub fn receive(&mut self, packet: Option<usize>, fields: RequestFields, now_ns: u64) -> (action:
        ResponderAction)
        ensures
            (final(self).state, action) == on_packet(
                old(self).state,
                old(self).sizes,
                match packet {
                    Some(n) => Some(n as nat),
                    None => None,
                },
                fields,
                now_ns,
            ),
            final(self).sizes == old(self).sizes,
    {
        match self.state {
            ResponderState::Binding => match packet {
                Some(n) => if n == self.sizes.binding {
                    ResponderAction::Send(
                        ResponderReply::Binding {
                            configuring_timeout_ms: fields.configuring_timeout_ms,
                        },
                    )
                } else {
                    ResponderAction::Again
                },
                None => ResponderAction::Again,
            },
            ResponderState::Configuring { .. } => match packet {
                Some(n) => if n == self.sizes.configuring {
                    ResponderAction::Send(
                        ResponderReply::Configuring {
                            dt_ns: fields.dt_ns,
                            loss_of_contact_limit: fields.loss_of_contact_limit,
                        },
                    )
                } else {
                    ResponderAction::Again
                },
                None => ResponderAction::Again,
            },
            ResponderState::Operating { last_contact_ns, loss_of_contact_timeout_ns, .. } => match packet {
                Some(n) => if n == self.sizes.operating {
                    ResponderAction::Process
                } else {
                    ResponderAction::Again
                },
                None => if since(last_contact_ns, now_ns) >= loss_of_contact_timeout_ns {
                    self.state = ResponderState::Binding;
                    ResponderAction::MakeSafe
                } else {
                    ResponderAction::Again
                },
            },
        }
    }

    /// The instrument took an operating request: contact is fresh, and the
    /// response is due. Out of operation there is none.
    pub fn processed(&mut self, now_ns: u64) -> (action: ResponderAction)
        ensures
            final(self).sizes == old(self).sizes,
            match old(self).state {
                ResponderState::Operating {
                    response_id,
                    last_contact_ns,
                    loss_of_contact_timeout_ns,
                } => {
                    &&& final(self).state == (ResponderState::Operating {
                        response_id,
                        last_contact_ns: now_ns,
                        loss_of_contact_timeout_ns,
                    })
                    &&& action == ResponderAction::Send(
                        ResponderReply::Operating { id: response_id },
                    )
                },
                _ => final(self).state == old(self).state && action == ResponderAction::Again,
            },
    {
        match self.state {
            ResponderState::Operating { response_id, loss_of_contact_timeout_ns, .. } => {
                self.state =
                ResponderState::Operating {
                    response_id,
                    last_contact_ns: now_ns,
                    loss_of_contact_timeout_ns,
                };
                ResponderAction::Send(ResponderReply::Operating { id: response_id })
            },
            _ => ResponderAction::Again,
        }
    }

    /// Takes whether a response was sent. Where it was not, the responder is
    /// shutting down or the controller is gone.
    pub fn sent(&mut self, reply: ResponderReply, ok: bool, now_ns: u64) -> (action: ResponderAction)
        ensures
            final(self).sizes == old(self).sizes,
            action == if ok {
                ResponderAction::Again
            } else {
                ResponderAction::Stop
            },
            final(self).state == if ok {
                replied(old(self).state, reply, now_ns)
            } else {
                old(self).state
            },
    {
        if !ok {
            return ResponderAction::Stop;
        }
        match reply {
            ResponderReply::Binding { configuring_timeout_ms } => {
                let deadline_ns: u128 = now_ns as u128 + configuring_timeout_ms as u128 * 1_000_000;
                self.state = ResponderState::Configuring { deadline_ns };
            },
            ResponderReply::Configuring { dt_ns, loss_of_contact_limit } => {
                assert(0 <= dt_ns * loss_of_contact_limit <= 0xffff_ffff * 0xffff)
                    by (nonlinear_arith)
                    requires
                        0 <= dt_ns <= 0xffff_ffff,
                        0 <= loss_of_contact_limit <= 0xffff,
                ;
                let product: u64 = dt_ns as u64 * loss_of_contact_limit as u64;
                let loss_of_contact_timeout_ns: u64 = if product < MIN_LOSS_OF_CONTACT_NS {
                    MIN_LOSS_OF_CONTACT_NS
                } else {
                    product
                };
                self.state =
                ResponderState::Operating {
                    response_id: 1,
                    last_contact_ns: now_ns,
                    loss_of_contact_timeout_ns,
                };
            },
            ResponderReply::Operating { .. } => {
                if let ResponderState::Operating {
                    response_id,
                    last_contact_ns,
                    loss_of_contact_timeout_ns,
                } = self.state {
                    self.state =
                    ResponderState::Operating {
                        response_id: response_id.wrapping_add(1),
                        last_contact_ns,
                        loss_of_contact_timeout_ns,
                    };
                }
            },
        }
        ResponderAction::Again
    }
}

/// The safe behavior is requested on every way out of contact: whenever a cycle
/// or a packet leads back to binding from another state, and whenever the
/// responder ends.
pub proof fn law_leaving_contact_makes_safe(
    s: ResponderState,
    sizes: RequestSizes,
    packet: Option<nat>,
    fields: RequestFields,
    stop: bool,
    error: bool,
    now: u64,
)
    ensures
        stop ==> begun(s, stop, error, now).1 == ResponderAction::Stop,
        s !is Binding && begun(s, stop, error, now).0 is Binding ==> begun(s, stop, error, now).1
            == ResponderAction::MakeSafe,
        s !is Binding && on_packet(s, sizes, packet, fields, now).0 is Binding ==> on_packet(
            s,
            sizes,
            packet,
            fields,
            now,
        ).1 == ResponderAction::MakeSafe,
{
}

/// While the instrument has a latched error, nothing is answered.
pub proof fn law_error_suppresses_responses(s: ResponderState, now: u64)
    ensures
        begun(s, false, true, now) == (s, ResponderAction::Sleep),
{
}

/// Response ids start at 1 in every session and count up by one.
pub proof fn law_response_ids_count_up(dt_ns: u32, limit: u16, now: u64, s: ResponderState)
    requires
        s is Operating,
    ensures
        replied(s, (ResponderReply::Configuring { dt_ns, loss_of_contact_limit: limit }), now)->response_id
            == 1,
        replied(s, (ResponderReply::Operating { id: s->response_id }), now)->response_id == if s->response_id
            == u64::MAX {
            0
        } else {
            (s->response_id + 1) as u64
        },
{
}

/// No wait is longer than the poll interval, nor runs past the deadline of a
/// configuration.
pub proof fn law_waits_are_bounded(s: ResponderState, now: u64)
    requires
        begun(s, false, false, now).1 is Receive,
    ensures
        begun(s, false, false, now).1->timeout_ns <= CHANNEL_POLL_INTERVAL_NS,
        s is Configuring ==> now + begun(s, false, false, now).1->timeout_ns <= s->deadline_ns,
{
}

/// How a thread ended.
#[derive(Debug)]
pub enum ThreadEnd {
    Finished,
    Failed(String),
    Panicked,
}

/// What a thread's end adds to the errors.
pub open spec fn thread_error(name: Seq<char>, end: Option<ThreadEnd>) -> Seq<Seq<char>> {
    match end {
        Some(ThreadEnd::Failed(e)) => seq![name + ": "@ + e@],
        Some(ThreadEnd::Panicked) => seq![name + " panicked"@],
        _ => Seq::empty(),
    }
}

/// Appends what a thread's end adds to the errors.
pub fn join_one(name: &str, end: Option<ThreadEnd>, errors: &mut Vec<String>)
    ensures
        text::texts(final(errors)@) == text::texts(old(errors)@) + thread_error(name@, end),
{
    broadcast use text::lemma_texts_push;

    match end {
        Some(ThreadEnd::Failed(e)) => {
            let mut s = name.to_owned();
            s.push_str(": ");
            s.push_str(e.as_str());
            errors.push(s);
        },
        Some(ThreadEnd::Panicked) => {
            let mut s = name.to_owned();
            s.push_str(" panicked");
            errors.push(s);
        },
        _ => {},
    }
    assert(text::texts(errors@) =~= text::texts(old(errors)@) + thread_error(name@, end));
}

/// The outcome of joining both threads of an instrument: all errors in one message.
pub fn join_errors(protocol: Option<ThreadEnd>, worker: Option<ThreadEnd>) -> (r: Result<
    (),
    String,
>)
    ensures
        ({
            let errors = thread_error("protocol responder"@, protocol) + thread_error(
                "instrument worker"@,
                worker,
            );
            match r {
                Ok(()) => errors.len() == 0,
                Err(e) => errors.len() > 0 && e@ == text::joined(errors, "; "@),
            }
        }),
{
    let mut errors: Vec<String> = Vec::new();
    assert(text::texts(errors@) =~= Seq::<Seq<char>>::empty());
    let ghost all = thread_error("protocol responder"@, protocol) + thread_error(
        "instrument worker"@,
        worker,
    );
    join_one("protocol responder", protocol, &mut errors);
    join_one("instrument worker", worker, &mut errors);
    assert(text::texts(errors@) =~= all);
    assert(text::texts(errors@).len() == errors@.len());
    if errors.len() == 0 {
        Ok(())
    } else {
        Err(join(errors.as_slice(), "; "))
    }
}

/// How the start of a worker ended.
#[derive(Debug)]
pub enum Startup {
    /// The worker connected, validated the model, and set its baseline.
    Ready,
    /// The worker failed.
    Failed(String),
    /// The worker did not report in time.
    NotReported(String),
}

/// Whether the software peripheral may be advertised.
pub fn startup_outcome(instrument_name: &str, startup: Startup) -> (r: Result<(), String>)
    ensures
        match startup {
            Startup::Ready => r is Ok,
            Startup::Failed(e) => r == Err::<(), String>(e),
            Startup::NotReported(e) => r is Err && r->Err_0@ == instrument_name@
                + " startup did not complete: "@ + e@,
        },
{
    match startup {
        Startup::Ready => Ok(()),
        Startup::Failed(e) => Err(e),
        Startup::NotReported(e) => {
            let mut s = instrument_name.to_owned();
            s.push_str(" startup did not complete: ");
            s.push_str(e.as_str());
            Err(s)
        },
    }
}

/// A peripheral that is registered with a controller.
#[derive(Debug)]
pub struct Registered {
    pub name: String,
    pub id: PeripheralId,
}

/// Whether a name is taken.
pub open spec fn name_taken(name: Seq<char>, there: Seq<Registered>) -> bool {
    exists|i: int| 0 <= i < there.len() && (#[trigger] there[i]).name@ == name
}

/// Whether an identity is taken.
pub open spec fn id_taken(id: PeripheralId, there: Seq<Registered>) -> bool {
    exists|i: int| 0 <= i < there.len() && (#[trigger] there[i]).id == id
}

/// Checks that neither the name nor the identity of a new peripheral is taken.
pub fn check_attach(name: &str, id: PeripheralId, there: &[Registered]) -> (r: Result<(), String>)
    ensures
        match r {
            Ok(()) => !name_taken(name@, there@) && !id_taken(id, there@),
            Err(e) => if name_taken(name@, there@) {
                e@ == "Peripheral name `"@ + name@ + "` is duplicated"@
            } else {
                id_taken(id, there@) && e@ == "Peripheral ID `"@ + id.shown() + "` is duplicated"@
            },
        },
{
    let mut same_name = false;
    let mut same_id = false;
    let mut i: usize = 0;
    while i < there.len()
        invariant
            i <= there@.len(),
            same_name <==> exists|k: int| 0 <= k < i && (#[trigger] there@[k]).name@ == name@,
            same_id <==> exists|k: int| 0 <= k < i && (#[trigger] there@[k]).id == id,
        decreases there@.len() - i,
    {
        if same_text(there[i].name.as_str(), name) {
            same_name = true;
        }
        if there[i].id == id {
            same_id = true;
        }
        i = i + 1;
    }
    if same_name {
        let mut e = "Peripheral name `".to_owned();
        e.push_str(name);
        e.push_str("` is duplicated");
        return Err(e);
    }
    if same_id {
        let mut e = "Peripheral ID `".to_owned();
        e.push_str(id.show().as_str());
        e.push_str("` is duplicated");
        return Err(e);
    }
    Ok(())
}

/// The error of a registration that failed after the instrument had started.
pub fn attach_failure(error: String, instrument_name: &str, cleanup: Result<(), String>) -> (e:
    String)
    ensures
        e@ == match cleanup {
            Ok(()) => error@,
            Err(c) => error@ + "; additionally failed to stop "@ + instrument_name@ + ": "@ + c@,
        },
{
    match cleanup {
        Ok(()) => error,
        Err(c) => {
            let mut e = error;
            e.push_str("; additionally failed to stop ");
            e.push_str(instrument_name);
            e.push_str(": ");
            e.push_str(c.as_str());
            e
        },
    }
}

/// The name of the responder's thread.
pub fn protocol_thread_name(id: PeripheralId) -> (s: String)
    ensures
        s@ == "instrument-proxy-"@ + id.in_names(),
{
    id.name_behind("instrument-proxy-")
}

/// How one attempt to send went.
#[derive(Debug, Clone, Copy, PartialEq, Eq, Structural)]
pub enum SendAttempt {
    Sent,
    TimedOut,
    Disconnected,
}

/// Whether a response is through after an attempt: sent, given up, or to be
/// tried again, which a stop ends.
pub fn send_payload(attempt: SendAttempt, stop: bool) -> (r: Option<bool>)
    ensures
        r == match attempt {
            SendAttempt::Sent => Some(true),
            SendAttempt::Disconnected => Some(false),
            SendAttempt::TimedOut => if stop {
                Some(false)
            } else {
                None
            },
        },
{
    match attempt {
        SendAttempt::Sent => Some(true),
        SendAttempt::Disconnected => Some(false),
        SendAttempt::TimedOut => if stop {
            Some(false)
        } else {
            None
        },
    }
}

/// A bound responder waits to be configured for as many milliseconds as the binding
/// request gave it. From then on it makes the instrument safe and waits to be bound.
pub proof fn law_configuring_ends_at_its_deadline(
    s: ResponderState,
    timeout_ms: u32,
    now: u64,
    later: u64,
)
    ensures
        ({
            let reply = ResponderReply::Binding { configuring_timeout_ms: timeout_ms };
            let bound = replied(s, reply, now);
            &&& bound is Configuring
            &&& begun(bound, false, false, later).0 is Binding <==> later >= now + timeout_ms
                * 1_000_000
            &&& begun(bound, false, false, later).0 is Binding <==> begun(
                bound,
                false,
                false,
                later,
            ).1 == ResponderAction::MakeSafe
        }),
{
}

/// A configured responder that hears nothing makes the instrument safe once the last
/// contact is as long ago as the given number of periods, or a millisecond where that
/// is longer. Before that it keeps its state.
pub proof fn law_silence_makes_safe(
    s: ResponderState,
    sizes: RequestSizes,
    fields: RequestFields,
    dt_ns: u32,
    limit: u16,
    now: u64,
    later: u64,
)
    requires
        now <= later,
    ensures
        ({
            let reply = ResponderReply::Configuring { dt_ns, loss_of_contact_limit: limit };
            let operating = replied(s, reply, now);
            let lost = later - now >= dt_ns * limit && later - now >= 1_000_000;
            &&& operating is Operating
            &&& lost ==> on_packet(operating, sizes, None, fields, later) == (
                ResponderState::Binding,
                ResponderAction::MakeSafe,
            )
            &&& !lost ==> on_packet(operating, sizes, None, fields, later) == (
                operating,
                ResponderAction::Again,
            )
        }),
{
    assert(0 <= dt_ns * limit <= 0xffff_ffff * 0xffff) by (nonlinear_arith)
        requires
            0 <= dt_ns <= 0xffff_ffff,
            0 <= limit <= 0xffff,
    ;
}

/// A request is answered exactly where it has the size that the state asks for.
pub proof fn law_requests_of_other_sizes_are_ignored(
    s: ResponderState,
    sizes: RequestSizes,
    n: nat,
    fields: RequestFields,
    now: u64,
)
    ensures
        ({
            let (next, action) = on_packet(s, sizes, Some(n), fields, now);
            &&& next == s
            &&& action == ResponderAction::Again <==> n != match s {
                ResponderState::Binding => sizes.binding,
                ResponderState::Configuring { .. } => sizes.configuring,
                ResponderState::Operating { .. } => sizes.operating,
            }
            &&& s is Binding && n == sizes.binding ==> action == ResponderAction::Send(
                ResponderReply::Binding { configuring_timeout_ms: fields.configuring_timeout_ms },
            )
            &&& s is Configuring && n == sizes.configuring ==> action == ResponderAction::Send(
                ResponderReply::Configuring {
                    dt_ns: fields.dt_ns,
                    loss_of_contact_limit: fields.loss_of_contact_limit,
                },
            )
            &&& s is Operating && n == sizes.operating ==> action == ResponderAction::Process
        }),
{
}

/// A wait is as long as the poll interval, or ends at the time that the state waits
/// for where that comes first.
pub proof fn law_waits_end_at_the_deadline(s: ResponderState, now: u64)
    requires
        begun(s, false, false, now).1 is Receive,
    ensures
        ({
            let wait = begun(s, false, false, now).1->timeout_ns;
            &&& s is Binding ==> wait == CHANNEL_POLL_INTERVAL_NS
            &&& s is Configuring && wait != CHANNEL_POLL_INTERVAL_NS ==> now + wait
                == s->deadline_ns
            &&& s is Operating && s->last_contact_ns <= now && wait != CHANNEL_POLL_INTERVAL_NS
                && wait > 0 ==> now + wait == s->last_contact_ns + s->loss_of_contact_timeout_ns
            &&& s is Operating && s->last_contact_ns <= now && wait == 0 ==> now
                >= s->last_contact_ns + s->loss_of_contact_timeout_ns
        }),
{
}

} // verus!
