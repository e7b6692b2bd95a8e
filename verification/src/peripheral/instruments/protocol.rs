//! Responder of an instrument whose packets carry the peripheral's identity in
//! front. It shares its states with the plain responder, and ends where a
//! response cannot be made or sent.

use vstd::prelude::*;
use super::responder;
use super::responder::{
    RequestFields, RequestSizes, Responder, ResponderAction, ResponderReply, ResponderState,
};

verus! {

/// Binding, configuration, and operating state machine of an instrument.
#[derive(Debug, Clone, Copy)]
pub struct Protocol {
    pub responder: Responder,
}

/// The start of a cycle. A configuration that did not come in time only leads
/// back to binding: the instrument was not in operation.
pub open spec fn begun(s: ResponderState, stop: bool, error: bool, now: u64) -> (
    ResponderState,
    ResponderAction,
) {
    let (next, action) = responder::begun(s, stop, error, now);
    if action == ResponderAction::MakeSafe {
        (next, ResponderAction::Again)
    } else {
        (next, action)
    }
}

impl Protocol {
    /// A responder that waits for a controller.
    pub fn new(sizes: RequestSizes) -> (r: Self)
        ensures
            r.responder.state == ResponderState::Binding,
            r.responder.sizes == sizes,
    {
        Protocol { responder: Responder::new(sizes) }
    }

    /// Starts a cycle.
    pub fn begin(&mut self, stop: bool, error: bool, now_ns: u64) -> (action: ResponderAction)
        ensures
            (final(self).responder.state, action) == begun(
                old(self).responder.state,
                stop,
                error,
                now_ns,
            ),
            final(self).responder.sizes == old(self).responder.sizes,
    {
        let action = self.responder.begin(stop, error, now_ns);
        match action {
            ResponderAction::MakeSafe => ResponderAction::Again,
            _ => action,
        }
    }

    /// Takes the size of a received payload, or none where the wait ran out.
    pub fn receive(&mut self, packet: Option<usize>, fields: RequestFields, now_ns: u64) -> (action:
        ResponderAction)
        ensures
            (final(self).responder.state, action) == responder::on_packet(
                old(self).responder.state,
                old(self).responder.sizes,
                match packet {
                    Some(n) => Some(n as nat),
                    None => None,
                },
                fields,
                now_ns,
            ),
            final(self).responder.sizes == old(self).responder.sizes,
    {
        self.responder.receive(packet, fields, now_ns)
    }

    /// Takes whether the instrument accepted an operating request. One that it
    /// did not accept is no contact and gets no response.
    pub fn processed(&mut self, accepted: bool, now_ns: u64) -> (action: ResponderAction)
        ensures
            final(self).responder.sizes == old(self).responder.sizes,
            !accepted ==> *final(self) == *old(self) && action == ResponderAction::Again,
            accepted ==> match old(self).responder.state {
                ResponderState::Operating {
                    response_id,
                    last_contact_ns,
                    loss_of_contact_timeout_ns,
                } => {
                    &&& final(self).responder.state == (ResponderState::Operating {
                        response_id,
                        last_contact_ns: now_ns,
                        loss_of_contact_timeout_ns,
                    })
                    &&& action == ResponderAction::Send(
                        ResponderReply::Operating { id: response_id },
                    )
                },
                _ => final(self).responder.state == old(self).responder.state && action
                    == ResponderAction::Again,
            },
    {
        if !accepted {
            return ResponderAction::Again;
        }
        self.responder.processed(now_ns)
    }

    /// Takes what came of making and sending a response. An error ends the
    /// responder.
    pub fn sent(&mut self, reply: ResponderReply, result: Result<(), SendError>, now_ns: u64) -> (r:
        Result<ResponderAction, String>)
        ensures
            final(self).responder.sizes == old(self).responder.sizes,
            match result {
                Ok(()) => {
                    &&& r == Ok::<ResponderAction, String>(ResponderAction::Again)
                    &&& final(self).responder.state == responder::replied(
                        old(self).responder.state,
                        reply,
                        now_ns,
                    )
                },
                Err(SendError::Response(e)) => r == Err::<ResponderAction, String>(e)
                    && final(self).responder.state == old(self).responder.state,
                Err(SendError::Channel(e)) => (r matches Err(message) && message@
                    == "failed to send instrument proxy packet: "@ + e@)
                    && final(self).responder.state == old(self).responder.state,
            },
    {
        match result {
            Ok(()) => Ok(self.responder.sent(reply, true, now_ns)),
            Err(SendError::Response(e)) => Err(e),
            Err(SendError::Channel(e)) => {
                let mut message = "failed to send instrument proxy packet: ".to_owned();
                message.push_str(e.as_str());
                Err(message)
            },
        }
    }
}

/// Why a response did not go out.
#[derive(Debug)]
pub enum SendError {
    /// The instrument could not make it.
    Response(String),
    /// The channel did not take it.
    Channel(String),
}

/// The name of the thread of a responder.
pub fn thread_name(channel_name: &str) -> (s: String)
    ensures
        s@ == "instrument-proxy-"@ + channel_name@,
{
    let mut s = "instrument-proxy-".to_owned();
    s.push_str(channel_name);
    s
}

} // verus!
