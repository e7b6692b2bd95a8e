//! Mockup of a hardware peripheral that answers a controller until a scheduled
//! end, without watching for a loss of contact.

use vstd::prelude::*;
use crate::bytes::read_u64;
use super::hootl;

verus! {

/// Mode of a mocked peripheral. Times are nanoseconds of a monotonic clock.
#[derive(Debug, Clone, Copy, PartialEq, Eq, Structural)]
pub enum MockMode {
    Binding,
    Configuring { start_ns: u64 },
    Operating,
    Terminated,
}

/// State of a mocked peripheral.
#[derive(Debug, Clone, Copy, PartialEq, Eq, Structural)]
pub struct MockState {
    pub mode: MockMode,
    pub counter: u64,
}

impl Default for MockState {
    fn default() -> (r: Self)
        ensures
            r == (MockState { mode: MockMode::Binding, counter: 0 }),
    {
        MockState { mode: MockMode::Binding, counter: 0 }
    }
}

impl MockState {
    /// The state one packet later.
    pub open spec fn advanced(
        self,
        wall_ns: u64,
        now_ns: u64,
        timeout_ns: u64,
        end_ns: Option<u64>,
    ) -> MockState {
        if end_ns matches Some(end) && wall_ns > end {
            MockState { mode: MockMode::Terminated, ..self }
        } else {
            match self.mode {
                MockMode::Binding => MockState {
                    mode: MockMode::Configuring { start_ns: now_ns },
                    ..self
                },
                MockMode::Configuring { start_ns } => if hootl::elapsed(start_ns, now_ns)
                    > timeout_ns {
                    MockState { mode: MockMode::Binding, ..self }
                } else {
                    MockState { mode: MockMode::Operating, counter: 0 }
                },
                _ => self,
            }
        }
    }

    /// Advances by one packet: binding, then configuring, then operating, and
    /// terminated once the scheduled end is past.
    pub fn advance(&mut self, wall_ns: u64, now_ns: u64, timeout_ns: u64, end_ns: Option<u64>)
        ensures
            *final(self) == old(self).advanced(wall_ns, now_ns, timeout_ns, end_ns),
    {
        if let Some(end) = end_ns {
            if wall_ns > end {
                self.mode = MockMode::Terminated;
                return;
            }
        }
        match self.mode {
            MockMode::Binding => {
                self.mode = MockMode::Configuring { start_ns: now_ns };
            },
            MockMode::Configuring { start_ns } => {
                if now_ns >= start_ns && now_ns - start_ns > timeout_ns {
                    self.mode = MockMode::Binding;
                } else {
                    self.counter = 0;
                    self.mode = MockMode::Operating;
                }
            },
            _ => {},
        }
    }

    /// Advances by one packet and gives the id of its outputs, which there are
    /// in operation only.
    pub fn next_id(
        &mut self,
        wall_ns: u64,
        now_ns: u64,
        timeout_ns: u64,
        end_ns: Option<u64>,
    ) -> (id: Option<u64>)
        ensures
            ({
                let s = old(self).advanced(wall_ns, now_ns, timeout_ns, end_ns);
                &&& final(self).mode == s.mode
                &&& s.mode == MockMode::Operating ==> id == Some(s.counter) && final(self).counter
                    == if s.counter == u64::MAX {
                    0
                } else {
                    (s.counter + 1) as u64
                }
                &&& s.mode != MockMode::Operating ==> id is None && final(self).counter == s.counter
            }),
    {
        self.advance(wall_ns, now_ns, timeout_ns, end_ns);
        match self.mode {
            MockMode::Operating => {
                let id: u64 = self.counter;
                self.counter = self.counter.wrapping_add(1);
                Some(id)
            },
            _ => None,
        }
    }
}

/// State machine info for the mockup driver.
#[derive(Debug, Clone, Copy, PartialEq, Eq, Structural)]
pub enum MockupState {
    Binding,
    Configuring { start_ns: u64, timeout_ns: u64 },
    Operating { counter: u64 },
}

/// Transport of a mockup.
#[derive(Debug)]
pub enum MockupTransport {
    /// A thread channel with this name.
    ThreadChannel { name: String },
    /// A unix socket with this name.
    UnixSocket { name: String },
}

impl MockupTransport {
    /// A thread channel with this name.
    pub fn thread_channel(name: &str) -> (r: Self)
        ensures
            r matches MockupTransport::ThreadChannel { name: n } && n@ == name@,
    {
        MockupTransport::ThreadChannel { name: name.to_owned() }
    }

    /// A unix socket with this name.
    pub fn unix_socket(name: &str) -> (r: Self)
        ensures
            r matches MockupTransport::UnixSocket { name: n } && n@ == name@,
    {
        MockupTransport::UnixSocket { name: name.to_owned() }
    }
}

/// Packet sizes and the scheduled end of a mocked peripheral.
#[derive(Debug, Clone, Copy, PartialEq, Eq, Structural)]
pub struct MockupConfig {
    pub binding_size: usize,
    pub configuring_size: usize,
    pub input_size: usize,
    pub output_size: usize,
    pub metrics_size: usize,
    pub end_ns: Option<u64>,
}

/// A response to the controller.
#[derive(Debug, Clone, Copy, PartialEq, Eq, Structural)]
pub enum MockupReply {
    /// The peripheral's identity.
    Binding { timeout_ns: u64 },
    /// The acknowledgement of a configuration.
    Configuring,
    /// A zeroed operating packet, whose metrics hold these ids where it has
    /// room for metrics.
    Operating { metrics: Option<MockupMetrics> },
}

/// The ids in the metrics of an operating packet.
#[derive(Debug, Clone, Copy, PartialEq, Eq, Structural)]
pub struct MockupMetrics {
    pub id: u64,
    pub last_input_id: u64,
}

/// What the driver does next.
#[derive(Debug, Clone, Copy, PartialEq, Eq, Structural)]
pub enum MockupAction {
    Exit,
    Receive,
    Again,
    Sleep,
    Send(MockupReply),
}

/// What a poll of the transport leads to. A packet of another size than the
/// state expects is ignored.
pub open spec fn mockup_action(
    c: MockupConfig,
    s: MockupState,
    packet: Option<Seq<u8>>,
    configuring_timeout_ms: u32,
) -> MockupAction {
    match packet {
        None => MockupAction::Sleep,
        Some(p) => match s {
            MockupState::Binding => if p.len() != c.binding_size {
                MockupAction::Again
            } else {
                MockupAction::Send(
                    MockupReply::Binding {
                        timeout_ns: (configuring_timeout_ms * 1_000_000) as u64,
                    },
                )
            },
            MockupState::Configuring { .. } => if p.len() != c.configuring_size {
                MockupAction::Again
            } else {
                MockupAction::Send(MockupReply::Configuring)
            },
            MockupState::Operating { counter } => if p.len() != c.input_size {
                MockupAction::Again
            } else {
                MockupAction::Send(
                    MockupReply::Operating {
                        metrics: if c.output_size >= c.metrics_size {
                            Some(
                                MockupMetrics { id: counter, last_input_id: hootl::input_id(p) },
                            )
                        } else {
                            None
                        },
                    },
                )
            },
        },
    }
}

/// The state once a response was sent.
pub open spec fn mockup_after_send(s: MockupState, reply: MockupReply, now: u64) -> MockupState {
    match reply {
        MockupReply::Binding { timeout_ns } => MockupState::Configuring { start_ns: now, timeout_ns },
        MockupReply::Configuring => MockupState::Operating { counter: 0 },
        MockupReply::Operating { .. } => match s {
            MockupState::Operating { counter } => MockupState::Operating {
                counter: if counter == u64::MAX {
                    0
                } else {
                    (counter + 1) as u64
                },
            },
            _ => s,
        },
    }
}

/// The driver of a mocked peripheral. `A` is an address of the transport.
pub struct MockupRunner<A> {
    pub config: MockupConfig,
    pub state: MockupState,
    pub controller_addr: Option<A>,
    pub sender: Option<A>,
}

impl<A> MockupRunner<A> {
    /// A driver that waits for a controller.
    pub fn new(config: MockupConfig) -> (r: Self)
        ensures
            r.config == config,
            r.state == MockupState::Binding,
            r.controller_addr is None,
            r.sender is None,
    {
        MockupRunner {
            config,
            state: MockupState::Binding,
            controller_addr: None,
            sender: None,
        }
    }

    /// Starts a cycle: ends once the scheduled end is past, and gives up an
    /// overdue configuration.
    pub fn poll(&mut self, wall_ns: u64, now_ns: u64) -> (action: MockupAction)
        ensures
            final(self).config == old(self).config,
            final(self).sender == old(self).sender,
            ({
                let ended = old(self).config.end_ns matches Some(end) && wall_ns > end;
                let overdue = match old(self).state {
                    MockupState::Configuring { start_ns, timeout_ns } => hootl::elapsed(
                        start_ns,
                        now_ns,
                    ) > timeout_ns,
                    _ => false,
                };
                &&& action == if ended {
                    MockupAction::Exit
                } else if overdue {
                    MockupAction::Again
                } else {
                    MockupAction::Receive
                }
                &&& !ended && overdue ==> final(self).state == MockupState::Binding && final(
                    self).controller_addr is None
                &&& ended || !overdue ==> final(self).state == old(self).state && final(
                    self).controller_addr == old(self).controller_addr
            }),
    {
        if let Some(end) = self.config.end_ns {
            if wall_ns > end {
                return MockupAction::Exit;
            }
        }
        if let MockupState::Configuring { start_ns, timeout_ns } = self.state {
            if now_ns >= start_ns && now_ns - start_ns > timeout_ns {
                self.state = MockupState::Binding;
                self.controller_addr = None;
                return MockupAction::Again;
            }
        }
        MockupAction::Receive
    }

    /// Takes what a poll of the transport gave: nothing, or a packet and where
    /// it came from. `configuring_timeout_ms` is the deadline that a binding
    /// request holds.
    pub fn receive(
        &mut self,
        packet: Option<&[u8]>,
        from: Option<A>,
        configuring_timeout_ms: u32,
    ) -> (action: MockupAction)
        ensures
            final(self).config == old(self).config,
            final(self).state == old(self).state,
            final(self).controller_addr == old(self).controller_addr,
            final(self).sender == from,
            action == mockup_action(
                old(self).config,
                old(self).state,
                match packet {
                    Some(p) => Some(p@),
                    None => None,
                },
                configuring_timeout_ms,
            ),
    {
        self.sender = from;
        let p = match packet {
            None => {
                return MockupAction::Sleep;
            },
            Some(p) => p,
        };
        match self.state {
            MockupState::Binding => if p.len() != self.config.binding_size {
                MockupAction::Again
            } else {
                let timeout_ns: u64 = configuring_timeout_ms as u64 * 1_000_000;
                MockupAction::Send(MockupReply::Binding { timeout_ns })
            },
            MockupState::Configuring { .. } => if p.len() != self.config.configuring_size {
                MockupAction::Again
            } else {
                MockupAction::Send(MockupReply::Configuring)
            },
            MockupState::Operating { counter } => if p.len() != self.config.input_size {
                MockupAction::Again
            } else {
                let last_input_id: u64 = if p.len() >= 8 {
                    read_u64(p, 0)
                } else {
                    0
                };
                let metrics = if self.config.output_size >= self.config.metrics_size {
                    Some(MockupMetrics { id: counter, last_input_id })
                } else {
                    None
                };
                MockupAction::Send(MockupReply::Operating { metrics })
            },
        }
    }

    /// Takes whether a response was sent. One that could not be sent ends the driver.
    pub fn sent(&mut self, reply: MockupReply, ok: bool, now_ns: u64) -> (action: MockupAction)
        ensures
            final(self).config == old(self).config,
            action == if ok {
                MockupAction::Again
            } else {
                MockupAction::Exit
            },
            final(self).state == if ok {
                mockup_after_send(old(self).state, reply, now_ns)
            } else {
                old(self).state
            },
            final(self).controller_addr == if ok && reply is Binding {
                old(self).sender
            } else {
                old(self).controller_addr
            },
            final(self).sender == if ok && reply is Binding {
                None
            } else {
                old(self).sender
            },
    {
        if !ok {
            return MockupAction::Exit;
        }
        match reply {
            MockupReply::Binding { timeout_ns } => {
                self.controller_addr = self.sender.take();
                self.state = MockupState::Configuring { start_ns: now_ns, timeout_ns };
            },
            MockupReply::Configuring => {
                self.state = MockupState::Operating { counter: 0 };
            },
            MockupReply::Operating { .. } => {
                if let MockupState::Operating { counter } = self.state {
                    self.state = MockupState::Operating { counter: counter.wrapping_add(1) };
                }
            },
        }
        MockupAction::Again
    }
}

/// A mocked peripheral that is terminated stays so, and one in operation leaves
/// it only at its scheduled end.
pub proof fn law_mock_modes_are_final(
    s: MockState,
    wall: u64,
    now: u64,
    timeout: u64,
    end: Option<u64>,
)
    ensures
        s.mode == MockMode::Terminated ==> s.advanced(wall, now, timeout, end).mode
            == MockMode::Terminated,
        s.mode == MockMode::Operating ==> s.advanced(wall, now, timeout, end).mode
            == MockMode::Operating || (end is Some && wall > end->0),
{
}

/// Operating responses of the mockup driver count up: they carry 0 first in every
/// session, and each carries one more than the one before it, from the last number
/// on to 0 again.
pub proof fn law_mockup_ids_count_up(
    c: MockupConfig,
    before: MockupState,
    counter: u64,
    p: Seq<u8>,
    timeout_ms: u32,
    now: u64,
)
    requires
        p.len() == c.input_size,
        c.output_size >= c.metrics_size,
    ensures
        mockup_after_send(before, MockupReply::Configuring, now) == (MockupState::Operating {
            counter: 0,
        }),
        ({
            let s = MockupState::Operating { counter };
            let action = mockup_action(c, s, Some(p), timeout_ms);
            &&& action is Send
            &&& action->Send_0 matches MockupReply::Operating { metrics } && metrics matches Some(m)
                && m.id == counter && m.last_input_id == hootl::input_id(p)
            &&& mockup_after_send(s, action->Send_0, now) == (MockupState::Operating {
                counter: if counter == u64::MAX {
                    0
                } else {
                    (counter + 1) as u64
                },
            })
        }),
{
}

/// A modeled board is bound at once, is configured within the timeout, and waits to be
/// bound again where the timeout is over. Its counter starts at zero.
pub proof fn law_mock_follows_the_hardware(
    s: MockState,
    wall: u64,
    now: u64,
    later: u64,
    timeout: u64,
    end: Option<u64>,
)
    requires
        s.mode == MockMode::Binding,
        now <= later,
        end matches Some(end) ==> wall <= end,
    ensures
        ({
            let bound = s.advanced(wall, now, timeout, end);
            let next = bound.advanced(wall, later, timeout, end);
            &&& bound.mode is Configuring
            &&& bound.counter == s.counter
            &&& later - now <= timeout ==> next.mode == MockMode::Operating && next.counter == 0
            &&& later - now > timeout ==> next.mode == MockMode::Binding && next.counter
                == s.counter
        }),
{
}

/// A modeled board ends exactly where its end has passed.
pub proof fn law_mock_ends_at_its_end(
    s: MockState,
    wall: u64,
    now: u64,
    timeout: u64,
    end: Option<u64>,
)
    requires
        s.mode != MockMode::Terminated,
    ensures
        s.advanced(wall, now, timeout, end).mode == MockMode::Terminated <==> (end matches Some(
            end,
        ) && wall > end),
{
}

/// A packet of another size than the state asks for is not answered, and one of the
/// right size always is.
pub proof fn law_mockup_ignores_other_sizes(
    c: MockupConfig,
    s: MockupState,
    p: Seq<u8>,
    timeout_ms: u32,
)
    ensures
        mockup_action(c, s, Some(p), timeout_ms) == MockupAction::Again <==> p.len() != match s {
            MockupState::Binding => c.binding_size,
            MockupState::Configuring { .. } => c.configuring_size,
            MockupState::Operating { .. } => c.input_size,
        },
        mockup_action(c, s, None, timeout_ms) == MockupAction::Sleep,
        p.len() == c.binding_size ==> (mockup_action(c, MockupState::Binding, Some(p), timeout_ms)
            matches MockupAction::Send(MockupReply::Binding { timeout_ns }) && timeout_ns
            == timeout_ms * 1_000_000),
{
}

} // verus!
