//! The decisions of one query exchange.
//!
//! An exchange acquires an endpoint, shakes hands to obtain a challenge
//! token, and asks for the status with that token. The caller owns the
//! endpoint: it carries out each [`Action`] and reports what came of it as an
//! [`Event`]. What to do next is decided here.
//!
//! ```text
//! Idle --Connected--> Handshaking --Received--> Querying --Received--> Done
//! ```
//!
//! An elapsed receive deadline sends the exchange back to `Idle`, from where
//! it starts over with a new endpoint and a new session id, as often as it
//! takes. Any other failure ends it.
//!
//! A caller drives an exchange like this:
//!
//! ```ignore
//! let (mut exchange, mut action) = Exchange::new(StatKind::Basic);
//! loop {
//!     let event = match action {
//!         Action::Connect => connect(),
//!         Action::Send(datagram) => send_and_receive(&datagram),
//!         Action::Deliver(stats) => return Ok(stats),
//!         Action::Abort(e) => return Err(e),
//!     };
//!     (exchange, action) = exchange.advance(event);
//! }
//! ```

use crate::packets::request;
use crate::packets::request::RequestPayload;
use crate::packets::response;
use crate::packets::response::{BasicStat, BasicStatView, FullStat, FullStatView};
use crate::packets::PacketType;
use crate::packets::endian::be32;
use crate::{
    get_session_id, is_session_id, lemma_masked_is_session_id, lemma_session_id_iff_masked,
    mask_session_id, Error, SESSION_MASK,
};
use vstd::prelude::*;

verus! {

/// Which of the two status reports an exchange asks for.
#[derive(Debug, Clone, Copy, PartialEq, Eq, Structural)]
pub enum StatKind {
    Basic,
    Full,
}

/// How far an exchange has come.
#[derive(Debug, Clone, Copy, PartialEq, Eq, Structural)]
pub enum Phase {
    /// No endpoint yet; one has been asked for.
    Idle,
    /// The handshake request is out.
    Handshaking,
    /// The status request is out.
    Querying,
    /// The exchange has delivered a report or given up.
    Done,
}

/// A status report of either kind.
#[derive(Debug, PartialEq, Eq)]
pub enum Stats {
    Basic(BasicStat),
    Full(FullStat),
}

/// A status report of either kind, as the format describes it.
pub enum StatsView {
    Basic(BasicStatView),
    Full(FullStatView),
}

impl View for Stats {
    type V = StatsView;

    open spec fn view(&self) -> StatsView {
        match self {
            Stats::Basic(stat) => StatsView::Basic(stat@),
            Stats::Full(stat) => StatsView::Full(stat@),
        }
    }
}

/// What the transport reports back after an action.
#[derive(Debug)]
pub enum Event {
    /// The endpoint asked for is there, connected to the server.
    Connected,
    /// The datagram that came in reply to the one sent.
    Received(Vec<u8>),
    /// The action failed: with `Timeout` where no reply came in time, with
    /// `Transport` otherwise.
    Failed(Error),
}

/// What the exchange asks of the transport, or how it ends.
#[derive(Debug)]
pub enum Action {
    /// Acquire a new endpoint connected to the server, then report
    /// `Connected`.
    Connect,
    /// Send this datagram and wait for one in reply, then report `Received`.
    Send(Vec<u8>),
    /// The exchange is over: this is the report.
    Deliver(Stats),
    /// The exchange is over: this is why no report came.
    Abort(Error),
}

/// An action with its datagram as a sequence of bytes and its report as the
/// format describes it.
pub enum ActionView {
    Connect,
    Send(Seq<u8>),
    Deliver(StatsView),
    Abort(Error),
}

impl View for Action {
    type V = ActionView;

    open spec fn view(&self) -> ActionView {
        match self {
            Action::Connect => ActionView::Connect,
            Action::Send(bytes) => ActionView::Send(bytes@),
            Action::Deliver(stats) => ActionView::Deliver(stats@),
            Action::Abort(e) => ActionView::Abort(*e),
        }
    }
}

/// The handshake request of a session.
pub open spec fn spec_handshake_request(session_id: u32) -> Seq<u8> {
    (request::PacketBase {
        packet_type: PacketType::Handshake,
        session_id,
        payload: request::Handshake,
    }).wire()
}

/// The status request of a session, with the token that the handshake gave.
pub open spec fn spec_stat_request(kind: StatKind, session_id: u32, challenge_token: u32) -> Seq<
    u8,
> {
    match kind {
        StatKind::Basic => (request::PacketBase {
            packet_type: PacketType::Stat,
            session_id,
            payload: request::BasicStat { challenge_token },
        }).wire(),
        StatKind::Full => (request::PacketBase {
            packet_type: PacketType::Stat,
            session_id,
            payload: request::FullStat { challenge_token },
        }).wire(),
    }
}

/// The token that a datagram holds when read as a handshake response.
pub open spec fn spec_handshake_token(reply: Seq<u8>) -> Result<u32, Error> {
    match response::PacketBase::<response::Handshake>::spec_decode(reply) {
        Err(e) => Err(e),
        Ok(packet) => Ok(packet.payload),
    }
}

/// The report that a datagram holds when read as the response to a status
/// request of the given kind.
pub open spec fn spec_stat_report(kind: StatKind, reply: Seq<u8>) -> Result<StatsView, Error> {
    match kind {
        StatKind::Basic => match response::PacketBase::<BasicStat>::spec_decode(reply) {
            Err(e) => Err(e),
            Ok(packet) => Ok(StatsView::Basic(packet.payload)),
        },
        StatKind::Full => match response::PacketBase::<FullStat>::spec_decode(reply) {
            Err(e) => Err(e),
            Ok(packet) => Ok(StatsView::Full(packet.payload)),
        },
    }
}

/// Builds the handshake request of a session.
pub fn handshake_request(session_id: u32) -> (bytes: Vec<u8>)
    ensures
        bytes@ == spec_handshake_request(session_id),
{
    let packet = request::PacketBase {
        packet_type: PacketType::Handshake,
        session_id,
        payload: request::Handshake,
    };
    packet.encode()
}

/// Builds the status request of a session.
pub fn stat_request(kind: StatKind, session_id: u32, challenge_token: u32) -> (bytes: Vec<u8>)
    ensures
        bytes@ == spec_stat_request(kind, session_id, challenge_token),
{
    match kind {
        StatKind::Basic => {
            let packet = request::PacketBase {
                packet_type: PacketType::Stat,
                session_id,
                payload: request::BasicStat { challenge_token },
            };
            packet.encode()
        },
        StatKind::Full => {
            let packet = request::PacketBase {
                packet_type: PacketType::Stat,
                session_id,
                payload: request::FullStat { challenge_token },
            };
            packet.encode()
        },
    }
}

/// Reads a datagram as a handshake response and gives its token.
pub fn handshake_token(reply: &[u8]) -> (r: Result<u32, Error>)
    ensures
        r == spec_handshake_token(reply@),
{
    let packet = response::PacketBase::<response::Handshake>::decode(reply)?;
    Ok(packet.payload.challenge_token)
}

/// Reads a datagram as the response to a status request of the given kind.
pub fn stat_report(kind: StatKind, reply: &[u8]) -> (r: Result<Stats, Error>)
    ensures
        response::decoded(r, spec_stat_report(kind, reply@)),
{
    match kind {
        StatKind::Basic => {
            let packet = response::PacketBase::<BasicStat>::decode(reply)?;
            Ok(Stats::Basic(packet.payload))
        },
        StatKind::Full => {
            let packet = response::PacketBase::<FullStat>::decode(reply)?;
            Ok(Stats::Full(packet.payload))
        },
    }
}

/// The state of one exchange.
#[derive(Debug, Clone, Copy, PartialEq, Eq, Structural)]
pub struct Exchange {
    /// The report asked for.
    pub kind: StatKind,
    /// How far the exchange has come.
    pub phase: Phase,
    /// The session id of the requests that are out; zero while `Idle`.
    pub session_id: u32,
}

impl Exchange {
    /// Whether the state is one that an exchange can be in: while a request
    /// is out, every byte of the session id is at most `0x0F`.
    pub open spec fn wf(self) -> bool {
        (self.phase == Phase::Handshaking || self.phase == Phase::Querying) ==> is_session_id(
            self.session_id,
        )
    }

    /// The exchange before anything has happened.
    pub open spec fn spec_new(kind: StatKind) -> Exchange {
        Exchange { kind, phase: Phase::Idle, session_id: 0 }
    }

    /// The exchange once it is over.
    pub open spec fn spec_done(self) -> Exchange {
        Exchange { kind: self.kind, phase: Phase::Done, session_id: self.session_id }
    }

    /// The next state and the action to take when `event` is reported in
    /// this state. `fresh` is the number that a new session id is made of.
    ///
    /// - `Idle`, `Connected`: mask `fresh` into the session id and send the
    ///   handshake request.
    /// - `Handshaking`, `Received`: read the token and send the status
    ///   request with it, under the same session id; abort where the
    ///   datagram does not decode.
    /// - `Querying`, `Received`: deliver the report; abort where the
    ///   datagram does not decode.
    /// - `Failed(Timeout)` before the end: start over with a new endpoint.
    /// - `Failed` with another error before the end: abort with it.
    /// - An event that the state does not wait for: abort with `Transport`.
    pub open spec fn spec_step(self, event: Event, fresh: u32) -> (Exchange, ActionView) {
        match self.phase {
            Phase::Done => (self, ActionView::Abort(Error::Transport)),
            _ => match event {
                Event::Failed(Error::Timeout) => (Self::spec_new(self.kind), ActionView::Connect),
                Event::Failed(e) => (self.spec_done(), ActionView::Abort(e)),
                Event::Connected => match self.phase {
                    Phase::Idle => (
                        Exchange {
                            kind: self.kind,
                            phase: Phase::Handshaking,
                            session_id: fresh & SESSION_MASK,
                        },
                        ActionView::Send(spec_handshake_request(fresh & SESSION_MASK)),
                    ),
                    _ => (self.spec_done(), ActionView::Abort(Error::Transport)),
                },
                Event::Received(reply) => match self.phase {
                    Phase::Handshaking => match spec_handshake_token(reply@) {
                        Ok(token) => (
                            Exchange {
                                kind: self.kind,
                                phase: Phase::Querying,
                                session_id: self.session_id,
                            },
                            ActionView::Send(spec_stat_request(self.kind, self.session_id, token)),
                        ),
                        Err(e) => (self.spec_done(), ActionView::Abort(e)),
                    },
                    Phase::Querying => match spec_stat_report(self.kind, reply@) {
                        Ok(stats) => (self.spec_done(), ActionView::Deliver(stats)),
                        Err(e) => (self.spec_done(), ActionView::Abort(e)),
                    },
                    _ => (self.spec_done(), ActionView::Abort(Error::Transport)),
                },
            },
        }
    }

    /// An exchange for a report of the given kind, and its first action: to
    /// acquire an endpoint.
    pub fn new(kind: StatKind) -> (r: (Exchange, Action))
        ensures
            r.0 == Self::spec_new(kind),
            r.0.wf(),
            r.1@ == ActionView::Connect,
    {
        (Exchange { kind, phase: Phase::Idle, session_id: 0 }, Action::Connect)
    }

    /// Takes the exchange over an event, with `fresh` as the number that a
    /// new session id is made of.
    pub fn step(self, event: Event, fresh: u32) -> (r: (Exchange, Action))
        ensures
            (r.0, r.1@) == self.spec_step(event, fresh),
            self.wf() ==> r.0.wf(),
    {
        let done = Exchange { kind: self.kind, phase: Phase::Done, session_id: self.session_id };
        match self.phase {
            Phase::Done => (self, Action::Abort(Error::Transport)),
            _ => match event {
                Event::Failed(Error::Timeout) => (
                    Exchange { kind: self.kind, phase: Phase::Idle, session_id: 0 },
                    Action::Connect,
                ),
                Event::Failed(e) => (done, Action::Abort(e)),
                Event::Connected => match self.phase {
                    Phase::Idle => {
                        let session_id = mask_session_id(fresh);
                        let next = Exchange {
                            kind: self.kind,
                            phase: Phase::Handshaking,
                            session_id,
                        };
                        (next, Action::Send(handshake_request(session_id)))
                    },
                    _ => (done, Action::Abort(Error::Transport)),
                },
                Event::Received(reply) => match self.phase {
                    Phase::Handshaking => match handshake_token(reply.as_slice()) {
                        Ok(token) => {
                            let next = Exchange {
                                kind: self.kind,
                                phase: Phase::Querying,
                                session_id: self.session_id,
                            };
                            (next, Action::Send(stat_request(self.kind, self.session_id, token)))
                        },
                        Err(e) => (done, Action::Abort(e)),
                    },
                    Phase::Querying => match stat_report(self.kind, reply.as_slice()) {
                        Ok(stats) => (done, Action::Deliver(stats)),
                        Err(e) => (done, Action::Abort(e)),
                    },
                    _ => (done, Action::Abort(Error::Transport)),
                },
            },
        }
    }

    /// Takes the exchange over an event. Where the event calls for a new
    /// session id, the id is drawn at random.
    pub fn advance(self, event: Event) -> (r: (Exchange, Action))
        ensures
            exists|fresh: u32| is_session_id(fresh) && (r.0, r.1@) == self.spec_step(event, fresh),
            self.wf() ==> r.0.wf(),
    {
        let fresh = match (self.phase, &event) {
            (Phase::Idle, Event::Connected) => get_session_id(),
            _ => 0,
        };
        proof {
            // zero is a session id too
            assert(0u32 & SESSION_MASK == 0u32) by (bit_vector);
            lemma_session_id_iff_masked(fresh);
        }
        self.step(event, fresh)
    }
}

/// A step keeps the state well-formed, and every request that goes out
/// opens with the marker and carries, after the tag, the session id of the
/// exchange, whose bytes are at most `0x0F`.
pub proof fn lemma_requests_carry_session_id(state: Exchange, event: Event, fresh: u32)
    requires
        state.wf(),
    ensures
        state.spec_step(event, fresh).0.wf(),
        state.spec_step(event, fresh).1 matches ActionView::Send(bytes) ==> {
            let next = state.spec_step(event, fresh).0;
            &&& is_session_id(next.session_id)
            &&& bytes.len() >= 7
            &&& bytes.subrange(0, 2) == request::marker()
            &&& bytes.subrange(3, 7) == be32(next.session_id)
        },
{
    lemma_masked_is_session_id(fresh);
    let (next, action) = state.spec_step(event, fresh);
    let id = next.session_id;
    if let ActionView::Send(bytes) = action {
        if state.phase == Phase::Idle {
            request::lemma_request_layout(
                request::PacketBase {
                    packet_type: PacketType::Handshake,
                    session_id: id,
                    payload: request::Handshake,
                },
            );
        } else {
            let token = spec_handshake_token(event->Received_0@)->Ok_0;
            match state.kind {
                StatKind::Basic => request::lemma_request_layout(
                    request::PacketBase {
                        packet_type: PacketType::Stat,
                        session_id: id,
                        payload: request::BasicStat { challenge_token: token },
                    },
                ),
                StatKind::Full => request::lemma_request_layout(
                    request::PacketBase {
                        packet_type: PacketType::Stat,
                        session_id: id,
                        payload: request::FullStat { challenge_token: token },
                    },
                ),
            }
        }
    }
}

/// How an exchange ends and how it does not: it is over exactly when it
/// delivers or aborts; a report is only delivered in reply to the status
/// request, and is of the kind asked for; an elapsed deadline ends nothing.
pub proof fn lemma_step_outcomes(state: Exchange, event: Event, fresh: u32)
    ensures
        ({
            let (next, action) = state.spec_step(event, fresh);
            &&& next.kind == state.kind
            &&& next.phase == Phase::Done <==> action is Deliver || action is Abort
            &&& action matches ActionView::Deliver(stats) ==> {
                &&& state.phase == Phase::Querying
                &&& event is Received
                &&& state.kind == StatKind::Basic <==> stats is Basic
            }
            &&& state.phase != Phase::Done && event == Event::Failed(Error::Timeout) ==> next
                == Exchange::spec_new(state.kind) && action == ActionView::Connect
            &&& action matches ActionView::Abort(e) ==> e != Error::Timeout
        }),
{
    if let Event::Received(reply) = event {
        response::lemma_decode_errors::<response::Handshake>(reply@);
        response::lemma_decode_errors::<BasicStat>(reply@);
        response::lemma_decode_errors::<FullStat>(reply@);
    }
}

} // verus!
