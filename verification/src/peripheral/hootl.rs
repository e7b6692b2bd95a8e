//! Software imitation of a hardware peripheral: the state machine that answers
//! a controller in place of the hardware.

use vstd::prelude::*;
use crate::bytes;
use crate::bytes::read_u64;

verus! {

/// Modeled hardware state, shared between the driver and its peripheral.
#[derive(Debug, Clone, Copy, PartialEq, Eq, Structural)]
pub enum HootlMode {
    Binding,
    Configuring,
    Operating,
    Terminated,
}

/// Where the outputs of an imitated peripheral come from.
#[derive(Debug, Clone, Copy, PartialEq, Eq, Structural)]
pub enum OutputSource {
    /// Placeholder values counted up from the packet's id.
    Synthetic,
    /// Zeros, with default metrics.
    Zeroed,
}

impl HootlMode {
    /// Where the outputs come from: there are none but in operation.
    pub fn output_source(self) -> (r: OutputSource)
        ensures
            r == if self == HootlMode::Operating {
                OutputSource::Synthetic
            } else {
                OutputSource::Zeroed
            },
    {
        match self {
            HootlMode::Operating => OutputSource::Synthetic,
            _ => OutputSource::Zeroed,
        }
    }
}

/// State machine info for the driver. Times are nanoseconds of a monotonic clock.
#[derive(Debug, Clone, Copy, PartialEq, Eq, Structural)]
pub enum DriverState {
    Binding,
    Configuring { start_ns: u64, timeout_ns: u64 },
    Operating { counter: u64, last_contact_ns: u64 },
}

/// Packet sizes and deadlines of an imitated peripheral.
#[derive(Debug, Clone, Copy, PartialEq, Eq, Structural)]
pub struct HootlConfig {
    pub binding_size: usize,
    pub configuring_size: usize,
    pub input_size: usize,
    pub loss_of_contact_timeout_ns: u64,
    /// Scheduled end, in nanoseconds of the wall clock.
    pub end_ns: Option<u64>,
}

impl HootlConfig {
    /// Sets the scheduled end.
    pub fn with_end(self, end_ns: Option<u64>) -> (r: Self)
        ensures
            r == (HootlConfig { end_ns, ..self }),
    {
        HootlConfig { end_ns, ..self }
    }
}

/// The time without contact after which a controller counts as lost.
pub fn loss_of_contact_timeout_ns(dt_ns: u32, limit: u16) -> (r: u64)
    ensures
        r == dt_ns * limit,
{
    assert(0 <= dt_ns * limit <= 0xffff_ffff * 0xffff) by (nonlinear_arith)
        requires
            0 <= dt_ns <= 0xffff_ffff,
            0 <= limit <= 0xffff,
    ;
    dt_ns as u64 * limit as u64
}

/// A response to the controller.
#[derive(Debug, Clone, Copy, PartialEq, Eq, Structural)]
pub enum Reply {
    /// The peripheral's identity.
    Binding { timeout_ns: u64 },
    /// The acknowledgement of a configuration.
    Configuring,
    /// An operating packet whose metrics hold these ids.
    Operating { id: u64, last_input_id: u64 },
}

/// What the driver does next.
#[derive(Debug, Clone, Copy, PartialEq, Eq, Structural)]
pub enum HootlAction {
    /// Close the transport and end.
    Exit,
    /// Poll the transport for one packet.
    Receive,
    /// Go on without waiting.
    Again,
    /// Sleep for a millisecond.
    Sleep,
    /// Send a response.
    Send(Reply),
}

/// The time from `start` to `now`, or zero where the clock stood still.
pub open spec fn elapsed(start: u64, now: u64) -> int {
    if now >= start {
        now - start
    } else {
        0
    }
}

/// The state at the start of a cycle: an overdue configuration is given up.
pub open spec fn polled(s: DriverState, now: u64) -> DriverState {
    match s {
        DriverState::Configuring { start_ns, timeout_ns } => if elapsed(start_ns, now)
            > timeout_ns {
            DriverState::Binding
        } else {
            s
        },
        _ => s,
    }
}

/// The id in the first eight bytes of an operating packet.
pub open spec fn input_id(packet: Seq<u8>) -> u64 {
    if packet.len() >= 8 {
        bytes::le_value(packet.subrange(0, 8)) as u64
    } else {
        0
    }
}

/// What a poll of the transport leads to. A packet of another size than the
/// state expects is ignored.
pub open spec fn received(
    c: HootlConfig,
    s: DriverState,
    packet: Option<Seq<u8>>,
    configuring_timeout_ms: u32,
    now: u64,
) -> (DriverState, HootlAction) {
    match s {
        DriverState::Binding => match packet {
            None => (s, HootlAction::Sleep),
            Some(p) => if p.len() != c.binding_size {
                (s, HootlAction::Again)
            } else {
                (
                    s,
                    HootlAction::Send(
                        Reply::Binding { timeout_ns: (configuring_timeout_ms * 1_000_000) as u64 },
                    ),
                )
            },
        },
        DriverState::Configuring { start_ns, timeout_ns } => match packet {
            None => (s, HootlAction::Sleep),
            Some(p) => if p.len() != c.configuring_size {
                (s, HootlAction::Again)
            } else {
                (s, HootlAction::Send(Reply::Configuring))
            },
        },
        DriverState::Operating { counter, last_contact_ns } => match packet {
            None => if elapsed(last_contact_ns, now) >= c.loss_of_contact_timeout_ns {
                (DriverState::Binding, HootlAction::Again)
            } else {
                (s, HootlAction::Sleep)
            },
            Some(p) => if p.len() != c.input_size {
                (s, HootlAction::Again)
            } else {
                (
                    DriverState::Operating { counter, last_contact_ns: now },
                    HootlAction::Send(Reply::Operating { id: counter, last_input_id: input_id(p) }),
                )
            },
        },
    }
}

/// The state once a response was sent, or could not be.
pub open spec fn after_send(s: DriverState, reply: Reply, sent: bool, now: u64) -> (
    DriverState,
    HootlAction,
) {
    match reply {
        Reply::Binding { timeout_ns } => if sent {
            (DriverState::Configuring { start_ns: now, timeout_ns }, HootlAction::Again)
        } else {
            (s, HootlAction::Exit)
        },
        Reply::Configuring => if sent {
            (DriverState::Operating { counter: 0, last_contact_ns: now }, HootlAction::Again)
        } else {
            (s, HootlAction::Exit)
        },
        Reply::Operating { id, last_input_id } => if sent {
            match s {
                DriverState::Operating { counter, last_contact_ns } => (
                    DriverState::Operating {
                        counter: if counter == u64::MAX {
                            0
                        } else {
                            (counter + 1) as u64
                        },
                        last_contact_ns,
                    },
                    HootlAction::Again,
                ),
                _ => (s, HootlAction::Again),
            }
        } else {
            (DriverState::Binding, HootlAction::Again)
        },
    }
}

/// The driver of an imitated peripheral. `A` is an address of the transport.
pub struct HootlRunner<A> {
    pub config: HootlConfig,
    pub state: DriverState,
    pub controller_addr: Option<A>,
    pub sender: Option<A>,
    pub terminated: bool,
}

fn since(start: u64, now: u64) -> (r: u64)
    ensures
        r == elapsed(start, now),
{
    if now >= start {
        now - start
    } else {
        0
    }
}

impl<A> HootlRunner<A> {
    /// Modeled hardware state.
    pub open spec fn modeled(self) -> HootlMode {
        if self.terminated {
            HootlMode::Terminated
        } else {
            match self.state {
                DriverState::Binding => HootlMode::Binding,
                DriverState::Configuring { .. } => HootlMode::Configuring,
                DriverState::Operating { .. } => HootlMode::Operating,
            }
        }
    }

    /// No controller is known while the driver waits to be bound.
    pub open spec fn consistent(self) -> bool {
        self.state is Binding ==> self.controller_addr is None
    }

    /// A driver that waits for a controller.
    pub fn new(config: HootlConfig) -> (r: Self)
        ensures
            r.config == config,
            r.state == DriverState::Binding,
            r.controller_addr is None,
            r.sender is None,
            !r.terminated,
            r.modeled() == HootlMode::Binding,
            r.consistent(),
    {
        HootlRunner {
            config,
            state: DriverState::Binding,
            controller_addr: None,
            sender: None,
            terminated: false,
        }
    }

    /// Modeled hardware state.
    pub fn mode(&self) -> (r: HootlMode)
        ensures
            r == self.modeled(),
    {
        if self.terminated {
            HootlMode::Terminated
        } else {
            match self.state {
                DriverState::Binding => HootlMode::Binding,
                DriverState::Configuring { .. } => HootlMode::Configuring,
                DriverState::Operating { .. } => HootlMode::Operating,
            }
        }
    }

    /// Starts a cycle. `now_ns` is the monotonic clock and `wall_ns` the wall clock.
    pub fn poll(&mut self, stop: bool, wall_ns: u64, now_ns: u64) -> (action: HootlAction)
        ensures
            ({
                let ended = stop || (old(self).config.end_ns matches Some(end) && wall_ns > end);
                let next = polled(old(self).state, now_ns);
                &&& final(self).config == old(self).config
                &&& final(self).sender == old(self).sender
                &&& ended ==> action == HootlAction::Exit && final(self).terminated
                    && final(self).state == old(self).state && final(self).controller_addr == old(self).controller_addr
                &&& !ended ==> final(self).terminated == old(self).terminated && final(self).state
                    == next
                &&& !ended && next != old(self).state ==> action == HootlAction::Again
                    && final(self).controller_addr is None
                &&& !ended && next == old(self).state ==> action == HootlAction::Receive
                    && final(self).controller_addr == old(self).controller_addr
            }),
            old(self).consistent() ==> final(self).consistent(),
    {
        let past_end = match self.config.end_ns {
            Some(end) => wall_ns > end,
            None => false,
        };
        if stop || past_end {
            self.terminated = true;
            return HootlAction::Exit;
        }
        if let DriverState::Configuring { start_ns, timeout_ns } = self.state {
            if since(start_ns, now_ns) > timeout_ns {
                self.state = DriverState::Binding;
                self.controller_addr = None;
                return HootlAction::Again;
            }
        }
        HootlAction::Receive
    }

    /// Takes what a poll of the transport gave: nothing, or a packet and where
    /// it came from. `configuring_timeout_ms` is the deadline that a binding
    /// request holds.
    pub fn receive(
        &mut self,
        packet: Option<&[u8]>,
        from: Option<A>,
        configuring_timeout_ms: u32,
        now_ns: u64,
    ) -> (action: HootlAction)
        ensures
            ({
                let view = match packet {
                    Some(p) => Some(p@),
                    None => None,
                };
                let next = received(
                    old(self).config,
                    old(self).state,
                    view,
                    configuring_timeout_ms,
                    now_ns,
                );
                &&& final(self).config == old(self).config
                &&& final(self).terminated == old(self).terminated
                &&& final(self).state == next.0
                &&& action == next.1
                &&& final(self).sender == from
                &&& final(self).controller_addr == if old(self).state is Operating && next.0
                    is Binding {
                    None
                } else {
                    old(self).controller_addr
                }
            }),
            old(self).consistent() ==> final(self).consistent(),
    {
        self.sender = from;
        match self.state {
            DriverState::Binding => match packet {
                None => HootlAction::Sleep,
                Some(p) => if p.len() != self.config.binding_size {
                    HootlAction::Again
                } else {
                    let timeout_ns: u64 = configuring_timeout_ms as u64 * 1_000_000;
                    HootlAction::Send(Reply::Binding { timeout_ns })
                },
            },
            DriverState::Configuring { .. } => match packet {
                None => HootlAction::Sleep,
                Some(p) => if p.len() != self.config.configuring_size {
                    HootlAction::Again
                } else {
                    HootlAction::Send(Reply::Configuring)
                },
            },
            DriverState::Operating { counter, last_contact_ns } => match packet {
                None => if since(last_contact_ns, now_ns) >= self.config.loss_of_contact_timeout_ns {
                    self.state = DriverState::Binding;
                    self.controller_addr = None;
                    HootlAction::Again
                } else {
                    HootlAction::Sleep
                },
                Some(p) => if p.len() != self.config.input_size {
                    HootlAction::Again
                } else {
                    let last_input_id: u64 = if p.len() >= 8 {
                        read_u64(p, 0)
                    } else {
                        0
                    };
                    self.state = DriverState::Operating { counter, last_contact_ns: now_ns };
                    HootlAction::Send(Reply::Operating { id: counter, last_input_id })
                },
            },
        }
    }

    /// Takes whether a response was sent. A binding response went to the sender
    /// of the request, which then is the controller.
    pub fn sent(&mut self, reply: Reply, ok: bool, now_ns: u64) -> (action: HootlAction)
        ensures
            ({
                let next = after_send(old(self).state, reply, ok, now_ns);
                &&& final(self).config == old(self).config
                &&& final(self).state == next.0
                &&& action == next.1
                &&& final(self).terminated == (old(self).terminated || action == HootlAction::Exit)
                &&& reply is Binding && ok ==> final(self).controller_addr == old(self).sender
                &&& reply is Operating && !ok ==> final(self).controller_addr is None
                &&& !(reply is Binding && ok) && !(reply is Operating && !ok) ==> final(self).controller_addr == old(self).controller_addr
                &&& final(self).sender == if reply is Binding && ok {
                    None
                } else {
                    old(self).sender
                }
            }),
            old(self).consistent() ==> final(self).consistent(),
    {
        match reply {
            Reply::Binding { timeout_ns } => {
                if !ok {
                    self.terminated = true;
                    return HootlAction::Exit;
                }
                self.controller_addr = self.sender.take();
                self.state = DriverState::Configuring { start_ns: now_ns, timeout_ns };
            },
            Reply::Configuring => {
                if !ok {
                    self.terminated = true;
                    return HootlAction::Exit;
                }
                self.state = DriverState::Operating { counter: 0, last_contact_ns: now_ns };
            },
            Reply::Operating { .. } => {
                if !ok {
                    self.state = DriverState::Binding;
                    self.controller_addr = None;
                } else if let DriverState::Operating { counter, last_contact_ns } = self.state {
                    self.state =
                    DriverState::Operating { counter: counter.wrapping_add(1), last_contact_ns };
                }
            },
        }
        HootlAction::Again
    }
}

/// The imitation walks the hardware's states in their order: it configures only
/// once bound, operates only once configured, and leaves operation for binding only.
pub proof fn law_states_follow_the_hardware(
    c: HootlConfig,
    s: DriverState,
    packet: Option<Seq<u8>>,
    timeout_ms: u32,
    ok: bool,
    now: u64,
    later: u64,
)
    ensures
        polled(s, now) == s || (s is Configuring && polled(s, now) is Binding),
        ({
            let (next, action) = received(c, s, packet, timeout_ms, now);
            let end = match action {
                HootlAction::Send(reply) => after_send(next, reply, ok, later).0,
                _ => next,
            };
            &&& s is Binding ==> end is Binding || end is Configuring
            &&& s is Configuring ==> end is Configuring || end is Operating
            &&& s is Operating ==> end is Operating || end is Binding
        }),
{
}

/// Operating responses count up: they carry 0 first in every session, and each
/// carries one more than the one before it, from the last number on to 0 again.
pub proof fn law_operating_ids_count_up(
    c: HootlConfig,
    s: DriverState,
    p: Seq<u8>,
    q: Seq<u8>,
    now: u64,
    sent: u64,
    later: u64,
)
    requires
        s is Operating,
        p.len() == c.input_size,
        q.len() == c.input_size,
    ensures
        after_send(s, Reply::Configuring, true, now).0->counter == 0,
        ({
            let first = received(c, s, Some(p), 0, now);
            let between = after_send(first.0, first.1->Send_0, true, sent).0;
            let second = received(c, between, Some(q), 0, later);
            &&& first.1 is Send
            &&& second.1 is Send
            &&& first.1->Send_0->id == s->counter
            &&& first.1->Send_0->last_input_id == input_id(p)
            &&& second.1->Send_0->id == if s->counter == u64::MAX {
                0
            } else {
                (s->counter + 1) as u64
            }
        }),
{
}

/// A silent controller is given up: once the timeout has passed without a
/// packet, the next empty poll leads back to binding.
pub proof fn law_silence_leads_to_binding(c: HootlConfig, counter: u64, contact: u64, now: u64)
    requires
        now - contact >= c.loss_of_contact_timeout_ns,
    ensures
        received(
            c,
            (DriverState::Operating { counter, last_contact_ns: contact }),
            None,
            0,
            now,
        ).0 == DriverState::Binding,
{
}

/// Choice of socket type to be used by the driver.
#[derive(Debug)]
pub enum HootlTransport {
    /// A thread channel with this name.
    ThreadChannel { name: String },
    /// A unix socket with this name.
    UnixSocket { name: String },
    /// UDP transport. Because the port can only be bound once, this can only be
    /// used by one driver at a time.
    Udp,
}

impl HootlTransport {
    /// A thread channel with this name.
    pub fn thread_channel(name: &str) -> (r: Self)
        ensures
            r matches HootlTransport::ThreadChannel { name: n } && n@ == name@,
    {
        HootlTransport::ThreadChannel { name: name.to_owned() }
    }

    /// A unix socket with this name.
    pub fn unix_socket(name: &str) -> (r: Self)
        ensures
            r matches HootlTransport::UnixSocket { name: n } && n@ == name@,
    {
        HootlTransport::UnixSocket { name: name.to_owned() }
    }

    /// UDP transport.
    pub fn udp() -> (r: Self)
        ensures
            r == HootlTransport::Udp,
    {
        HootlTransport::Udp
    }
}

/// Different kinds of addresses that may be used for different transport layers.
#[derive(Debug, Clone, Copy, PartialEq, Eq, Structural)]
pub enum AddressKind {
    Unix,
    Udp,
}

/// Why a packet cannot be sent, before the transport is tried.
pub open spec fn send_refusal(
    transport: HootlTransport,
    open: bool,
    addr: Option<AddressKind>,
) -> Option<Seq<char>> {
    let wanted = match transport {
        HootlTransport::ThreadChannel { .. } => None,
        HootlTransport::UnixSocket { .. } => Some(AddressKind::Unix),
        HootlTransport::Udp => Some(AddressKind::Udp),
    };
    if !open {
        Some(
            match transport {
                HootlTransport::ThreadChannel { .. } => "HOOTL driver thread channel endpoint not initialized"@,
                HootlTransport::UnixSocket { .. } => "HOOTL driver unix socket not initialized"@,
                HootlTransport::Udp => "HOOTL driver uDP socket not initialized"@,
            },
        )
    } else if wanted is None {
        None
    } else if addr is None {
        Some("HOOTL driver missing controller address"@)
    } else if addr != wanted {
        Some("HOOTL driver unexpected controller address type"@)
    } else {
        None
    }
}

/// Checks that a packet can be handed to the transport: the transport is open,
/// and a socket has a controller address of its kind.
pub fn check_send(transport: &HootlTransport, open: bool, addr: Option<AddressKind>) -> (r: Result<
    (),
    String,
>)
    ensures
        match r {
            Ok(()) => send_refusal(*transport, open, addr) is None,
            Err(e) => send_refusal(*transport, open, addr) == Some(e@),
        },
{
    let wanted = match transport {
        HootlTransport::ThreadChannel { .. } => {
            if !open {
                return Err("HOOTL driver thread channel endpoint not initialized".to_owned());
            }
            return Ok(());
        },
        HootlTransport::UnixSocket { .. } => {
            if !open {
                return Err("HOOTL driver unix socket not initialized".to_owned());
            }
            AddressKind::Unix
        },
        HootlTransport::Udp => {
            if !open {
                return Err("HOOTL driver uDP socket not initialized".to_owned());
            }
            AddressKind::Udp
        },
    };
    match addr {
        None => Err("HOOTL driver missing controller address".to_owned()),
        Some(kind) => if kind == wanted {
            Ok(())
        } else {
            Err("HOOTL driver unexpected controller address type".to_owned())
        },
    }
}

/// The modeled state is that of the driver until the driver ends, and from then on it
/// is terminated.
pub proof fn law_mode_is_that_of_the_driver<A>(runner: HootlRunner<A>)
    ensures
        runner.modeled() == HootlMode::Terminated <==> runner.terminated,
        runner.modeled() == HootlMode::Binding <==> !runner.terminated && runner.state is Binding,
        runner.modeled() == HootlMode::Configuring <==> !runner.terminated && runner.state
            is Configuring,
        runner.modeled() == HootlMode::Operating <==> !runner.terminated && runner.state
            is Operating,
{
}

/// An operating driver that hears nothing keeps its state while the last packet is more
/// recent than the timeout, and every packet of the right size is the last one.
pub proof fn law_contact_is_kept_within_the_timeout(
    c: HootlConfig,
    counter: u64,
    contact: u64,
    p: Seq<u8>,
    heard: u64,
    now: u64,
)
    requires
        p.len() == c.input_size,
        heard <= now,
    ensures
        ({
            let s = DriverState::Operating { counter, last_contact_ns: contact };
            let after = received(c, s, Some(p), 0, heard).0;
            &&& after is Operating
            &&& now - heard < c.loss_of_contact_timeout_ns ==> received(c, after, None, 0, now) == (
                after,
                HootlAction::Sleep,
            )
            &&& now - heard >= c.loss_of_contact_timeout_ns ==> received(c, after, None, 0, now).0
                == DriverState::Binding
        }),
{
}

/// A bound driver waits to be configured for as many milliseconds as the binding
/// request gave it, and then waits to be bound again.
pub proof fn law_configuring_ends_at_its_deadline(
    c: HootlConfig,
    p: Seq<u8>,
    timeout_ms: u32,
    now: u64,
    sent: u64,
    later: u64,
)
    requires
        p.len() == c.binding_size,
        sent <= later,
    ensures
        ({
            let asked = received(c, DriverState::Binding, Some(p), timeout_ms, now);
            let bound = after_send(asked.0, asked.1->Send_0, true, sent).0;
            &&& asked.1 is Send
            &&& bound is Configuring
            &&& polled(bound, later) == if later - sent > timeout_ms * 1_000_000 {
                DriverState::Binding
            } else {
                bound
            }
        }),
{
}

/// A packet of another size than the state asks for changes nothing and is not
/// answered.
pub proof fn law_packets_of_other_sizes_are_ignored(
    c: HootlConfig,
    s: DriverState,
    p: Seq<u8>,
    timeout_ms: u32,
    now: u64,
)
    requires
        p.len() != match s {
            DriverState::Binding => c.binding_size,
            DriverState::Configuring { .. } => c.configuring_size,
            DriverState::Operating { .. } => c.input_size,
        },
    ensures
        received(c, s, Some(p), timeout_ms, now) == (s, HootlAction::Again),
{
}

/// A response is refused exactly where there is no endpoint, or where the address of
/// the controller is missing or of another transport. A thread channel has no address.
pub proof fn law_responses_go_to_addresses_of_the_transport(
    transport: HootlTransport,
    open: bool,
    addr: Option<AddressKind>,
)
    ensures
        send_refusal(transport, open, addr) is None <==> open && match transport {
            HootlTransport::ThreadChannel { .. } => true,
            HootlTransport::UnixSocket { .. } => addr == Some(AddressKind::Unix),
            HootlTransport::Udp => addr == Some(AddressKind::Udp),
        },
{
}

} // verus!
