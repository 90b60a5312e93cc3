//! The session controller: a per-connection state machine driven by events
//! from the two transports and answering with the single action the driving
//! shell must perform next.
//!
//! The machine owns no I/O.  The shell owns the inbound message channel and
//! the outbound byte stream, feeds every observation in as an [`Event`], and
//! performs the returned [`Action`] before the next step.  All decisions —
//! handshake acceptance, authentication, target choice, relay bookkeeping and
//! teardown — are made here and verified against [`spec_step`], the
//! mathematical transition function.
//!
//! States run `Handshaking → Authenticated → Relaying → Closing → Closed`,
//! with a direct fall to `Closed` on handshake or connect failure.

use vstd::prelude::*;

use crate::codec::{decode_header, spec_decode, CREDENTIAL_LEN};
use crate::error::{Endpoint, SessionError};
use crate::gate::credentials_match;
use crate::resolver::{
    copy_target, resolve_target, spec_override_model, spec_resolve, DialTarget, OverrideAddress,
    TargetModel,
};

verus! {

/// The lifecycle of one session.
#[derive(Clone, Copy, Debug, PartialEq, Eq, Structural)]
pub enum SessionState {
    /// Waiting for the first inbound message.
    Handshaking,
    /// Handshake accepted; the outbound connect is in flight.
    Authenticated,
    /// Both transports open; bytes flow in both directions.
    Relaying,
    /// Teardown begun; waiting for the release of the far side to settle.
    Closing,
    /// Both endpoints released; the session is over.
    Closed,
}

/// An observation the shell feeds into the machine.
pub enum Event {
    /// One message arrived on the inbound transport.
    InboundMessage(Vec<u8>),
    /// The inbound transport reported orderly closure.
    InboundClosed,
    /// A read or write on the inbound transport failed.
    InboundFailed,
    /// The outbound connect completed.
    ConnectSucceeded,
    /// The outbound connect failed.
    ConnectFailed,
    /// Bytes arrived from the outbound stream.
    OutboundData(Vec<u8>),
    /// The outbound stream reported orderly closure.
    OutboundClosed,
    /// A read or write on the outbound stream failed.
    OutboundFailed,
}

/// Mathematical model of an [`Event`].
#[verifier::ext_equal]
pub enum EventModel {
    InboundMessage(Seq<u8>),
    InboundClosed,
    InboundFailed,
    ConnectSucceeded,
    ConnectFailed,
    OutboundData(Seq<u8>),
    OutboundClosed,
    OutboundFailed,
}

impl View for Event {
    type V = EventModel;

    open spec fn view(&self) -> EventModel {
        match self {
            Event::InboundMessage(m) => EventModel::InboundMessage(m@),
            Event::InboundClosed => EventModel::InboundClosed,
            Event::InboundFailed => EventModel::InboundFailed,
            Event::ConnectSucceeded => EventModel::ConnectSucceeded,
            Event::ConnectFailed => EventModel::ConnectFailed,
            Event::OutboundData(d) => EventModel::OutboundData(d@),
            Event::OutboundClosed => EventModel::OutboundClosed,
            Event::OutboundFailed => EventModel::OutboundFailed,
        }
    }
}

/// What the shell must do after a step.
pub enum Action {
    /// Nothing; wait for the next event.
    Wait,
    /// Open the outbound connection to the given target.
    Connect(DialTarget),
    /// Write these bytes to the outbound stream.
    WriteOutbound(Vec<u8>),
    /// Frame these bytes into a message on the inbound transport.
    SendInbound(Vec<u8>),
    /// Release the inbound transport.
    CloseInbound,
    /// Release the outbound stream.
    CloseOutbound,
}

/// Mathematical model of an [`Action`].
#[verifier::ext_equal]
pub enum ActionModel {
    Wait,
    Connect(TargetModel),
    WriteOutbound(Seq<u8>),
    SendInbound(Seq<u8>),
    CloseInbound,
    CloseOutbound,
}

impl View for Action {
    type V = ActionModel;

    open spec fn view(&self) -> ActionModel {
        match self {
            Action::Wait => ActionModel::Wait,
            Action::Connect(t) => ActionModel::Connect(t@),
            Action::WriteOutbound(b) => ActionModel::WriteOutbound(b@),
            Action::SendInbound(b) => ActionModel::SendInbound(b@),
            Action::CloseInbound => ActionModel::CloseInbound,
            Action::CloseOutbound => ActionModel::CloseOutbound,
        }
    }
}

/// Mathematical model of a whole session.
#[verifier::ext_equal]
pub struct SessionModel {
    /// The credential configured for the deployment.
    pub credential: Seq<u8>,
    /// The configured override target, if any.
    pub override_target: Option<TargetModel>,
    pub state: SessionState,
    /// Handshake payload remainder not yet written outbound.
    pub pending: Seq<u8>,
    /// The target actually dialed, once the handshake was accepted.
    pub effective_target: Option<TargetModel>,
    /// Bytes accepted from the inbound side and handed to the outbound side.
    pub bytes_in: int,
    /// Bytes read from the outbound side and handed to the inbound side.
    pub bytes_out: int,
    /// How many outbound connections were ever asked for.
    pub connect_attempts: int,
    /// Every byte ever ordered written to the outbound stream, in order.
    pub outbound_log: Seq<u8>,
    /// The failure that ended the session, if one did.
    pub last_error: Option<SessionError>,
}

/// Addition capped at the largest `u64`, the arithmetic of the diagnostic
/// counters.
pub open spec fn sat_add_u64(a: int, b: int) -> int {
    if a + b > u64::MAX {
        u64::MAX as int
    } else {
        a + b
    }
}

/// The handshake step: decode, authenticate, resolve.  A malformed header
/// and a credential mismatch close the session the same way — only the
/// recorded error differs — so a probing client cannot tell them apart.
pub open spec fn spec_handshake_step(s: SessionModel, m: Seq<u8>) -> (SessionModel, ActionModel) {
    match spec_decode(m) {
        None => (
            SessionModel { state: SessionState::Closed, last_error: Some(SessionError::Decode), ..s },
            ActionModel::CloseInbound,
        ),
        Some((h, payload)) => {
            if h.credential != s.credential {
                (
                    SessionModel {
                        state: SessionState::Closed,
                        last_error: Some(SessionError::Auth),
                        ..s
                    },
                    ActionModel::CloseInbound,
                )
            } else {
                let t = spec_resolve(h.address, h.port, s.override_target);
                (
                    SessionModel {
                        state: SessionState::Authenticated,
                        pending: payload,
                        effective_target: Some(t),
                        connect_attempts: sat_add_u64(s.connect_attempts, 1),
                        ..s
                    },
                    ActionModel::Connect(t),
                )
            }
        },
    }
}

/// The transition function of the session machine: from a state and an event
/// to the next state and the one action the shell performs.
pub open spec fn spec_step(s: SessionModel, ev: EventModel) -> (SessionModel, ActionModel) {
    match s.state {
        SessionState::Handshaking => match ev {
            EventModel::InboundMessage(m) => spec_handshake_step(s, m),
            EventModel::InboundClosed => (
                SessionModel { state: SessionState::Closed, ..s },
                ActionModel::Wait,
            ),
            EventModel::InboundFailed => (
                SessionModel {
                    state: SessionState::Closed,
                    last_error: Some(SessionError::RelayIo(Endpoint::Inbound)),
                    ..s
                },
                ActionModel::Wait,
            ),
            _ => (s, ActionModel::Wait),
        },
        SessionState::Authenticated => match ev {
            EventModel::ConnectSucceeded => (
                SessionModel {
                    state: SessionState::Relaying,
                    pending: Seq::empty(),
                    bytes_in: sat_add_u64(s.bytes_in, s.pending.len() as int),
                    outbound_log: s.outbound_log + s.pending,
                    ..s
                },
                ActionModel::WriteOutbound(s.pending),
            ),
            EventModel::ConnectFailed => (
                SessionModel {
                    state: SessionState::Closed,
                    last_error: Some(SessionError::UpstreamConnect),
                    ..s
                },
                ActionModel::CloseInbound,
            ),
            EventModel::InboundMessage(m) => (
                SessionModel { pending: s.pending + m, ..s },
                ActionModel::Wait,
            ),
            EventModel::InboundClosed => (
                SessionModel { state: SessionState::Closing, ..s },
                ActionModel::Wait,
            ),
            EventModel::InboundFailed => (
                SessionModel {
                    state: SessionState::Closing,
                    last_error: Some(SessionError::RelayIo(Endpoint::Inbound)),
                    ..s
                },
                ActionModel::Wait,
            ),
            _ => (s, ActionModel::Wait),
        },
        SessionState::Relaying => match ev {
            EventModel::InboundMessage(m) => (
                SessionModel {
                    bytes_in: sat_add_u64(s.bytes_in, m.len() as int),
                    outbound_log: s.outbound_log + m,
                    ..s
                },
                ActionModel::WriteOutbound(m),
            ),
            EventModel::OutboundData(d) => (
                SessionModel { bytes_out: sat_add_u64(s.bytes_out, d.len() as int), ..s },
                ActionModel::SendInbound(d),
            ),
            EventModel::InboundClosed => (
                SessionModel { state: SessionState::Closing, ..s },
                ActionModel::CloseOutbound,
            ),
            EventModel::InboundFailed => (
                SessionModel {
                    state: SessionState::Closing,
                    last_error: Some(SessionError::RelayIo(Endpoint::Inbound)),
                    ..s
                },
                ActionModel::CloseOutbound,
            ),
            EventModel::OutboundClosed => (
                SessionModel { state: SessionState::Closing, ..s },
                ActionModel::CloseInbound,
            ),
            EventModel::OutboundFailed => (
                SessionModel {
                    state: SessionState::Closing,
                    last_error: Some(SessionError::RelayIo(Endpoint::Outbound)),
                    ..s
                },
                ActionModel::CloseInbound,
            ),
            _ => (s, ActionModel::Wait),
        },
        SessionState::Closing => match ev {
            // A connect that lands while teardown is under way: the fresh
            // stream is released at once so nothing outlives the session.
            EventModel::ConnectSucceeded => (
                SessionModel { state: SessionState::Closed, ..s },
                ActionModel::CloseOutbound,
            ),
            EventModel::ConnectFailed => (
                SessionModel { state: SessionState::Closed, ..s },
                ActionModel::Wait,
            ),
            EventModel::InboundClosed => (
                SessionModel { state: SessionState::Closed, ..s },
                ActionModel::Wait,
            ),
            EventModel::InboundFailed => (
                SessionModel { state: SessionState::Closed, ..s },
                ActionModel::Wait,
            ),
            EventModel::OutboundClosed => (
                SessionModel { state: SessionState::Closed, ..s },
                ActionModel::Wait,
            ),
            EventModel::OutboundFailed => (
                SessionModel { state: SessionState::Closed, ..s },
                ActionModel::Wait,
            ),
            // Late data in either direction is dropped: after teardown has
            // begun nothing more is written to either side.
            EventModel::InboundMessage(_) => (s, ActionModel::Wait),
            EventModel::OutboundData(_) => (s, ActionModel::Wait),
        },
        SessionState::Closed => (s, ActionModel::Wait),
    }
}

/// The state a session is born in.
pub open spec fn spec_init(credential: Seq<u8>, ov: Option<TargetModel>) -> SessionModel {
    SessionModel {
        credential,
        override_target: ov,
        state: SessionState::Handshaking,
        pending: Seq::empty(),
        effective_target: None,
        bytes_in: 0,
        bytes_out: 0,
        connect_attempts: 0,
        outbound_log: Seq::empty(),
        last_error: None,
    }
}

/// One tunnel session: the deployment configuration it was given, its
/// current state and its diagnostic counters.
pub struct Session {
    /// The credential configured for the deployment (read-only).
    pub credential: Vec<u8>,
    /// The configured override target, if any (read-only).
    pub override_target: Option<OverrideAddress>,
    pub state: SessionState,
    /// Handshake payload remainder not yet written outbound.
    pub pending: Vec<u8>,
    /// The target actually dialed, once known.
    pub effective_target: Option<DialTarget>,
    pub bytes_in: u64,
    pub bytes_out: u64,
    pub connect_attempts: u64,
    /// Ghost record of every byte ordered written outbound, in order.
    pub outbound_log: Ghost<Seq<u8>>,
    pub last_error: Option<SessionError>,
}

impl View for Session {
    type V = SessionModel;

    open spec fn view(&self) -> SessionModel {
        SessionModel {
            credential: self.credential@,
            override_target: spec_override_model(self.override_target),
            state: self.state,
            pending: self.pending@,
            effective_target: match self.effective_target {
                Some(t) => Some(t@),
                None => None,
            },
            bytes_in: self.bytes_in as int,
            bytes_out: self.bytes_out as int,
            connect_attempts: self.connect_attempts as int,
            outbound_log: self.outbound_log@,
            last_error: self.last_error,
        }
    }
}

impl Session {
    /// The credential field keeps the fixed width the wire format gives it.
    pub open spec fn wf(self) -> bool {
        self.credential@.len() == CREDENTIAL_LEN
    }

    /// Makes the session for one accepted inbound upgrade.  The configuration
    /// is injected once here and never re-validated or mutated afterwards.
    pub fn new(credential: Vec<u8>, override_target: Option<OverrideAddress>) -> (s: Session)
        requires
            credential@.len() == CREDENTIAL_LEN,
        ensures
            s.wf(),
            s@ == spec_init(credential@, spec_override_model(override_target)),
    {
        let s = Session {
            credential,
            override_target,
            state: SessionState::Handshaking,
            pending: Vec::new(),
            effective_target: None,
            bytes_in: 0,
            bytes_out: 0,
            connect_attempts: 0,
            outbound_log: Ghost(Seq::empty()),
            last_error: None,
        };
        proof {
            assert(s@ =~~= spec_init(s.credential@, spec_override_model(s.override_target)));
        }
        s
    }

    /// Decodes and authenticates the first inbound message, resolves the
    /// effective target and asks for the outbound connect — or closes the
    /// session with no outbound connection ever attempted.
    pub fn handle_handshake(&mut self, m: Vec<u8>) -> (a: Action)
        requires
            old(self).wf(),
            old(self).state == SessionState::Handshaking,
        ensures
            final(self).wf(),
            final(self)@ == spec_handshake_step(old(self)@, m@).0,
            a@ == spec_handshake_step(old(self)@, m@).1,
    {
        let ghost s0 = self@;
        match decode_header(m.as_slice()) {
            Err(_) => {
                self.state = SessionState::Closed;
                self.last_error = Some(SessionError::Decode);
                proof {
                    assert(self@ =~~= spec_handshake_step(s0, m@).0);
                }
                Action::CloseInbound
            },
            Ok((header, payload)) => {
                if !credentials_match(header.credential.as_slice(), self.credential.as_slice()) {
                    self.state = SessionState::Closed;
                    self.last_error = Some(SessionError::Auth);
                    proof {
                        assert(self@ =~~= spec_handshake_step(s0, m@).0);
                    }
                    Action::CloseInbound
                } else {
                    let t = resolve_target(&header, &self.override_target);
                    let kept = copy_target(&t);
                    self.state = SessionState::Authenticated;
                    self.pending = payload;
                    self.effective_target = Some(kept);
                    self.connect_attempts = self.connect_attempts.saturating_add(1);
                    let a = Action::Connect(t);
                    proof {
                        assert(self@ =~~= spec_handshake_step(s0, m@).0);
                        assert(a@ =~~= spec_handshake_step(s0, m@).1);
                    }
                    a
                }
            },
        }
    }

    /// Advances the machine by one event and returns the action the shell
    /// must perform.  The step is exactly [`spec_step`] on the session's
    /// model.
    pub fn on_event(&mut self, ev: Event) -> (a: Action)
        requires
            old(self).wf(),
        ensures
            final(self).wf(),
            final(self)@ == spec_step(old(self)@, ev@).0,
            a@ == spec_step(old(self)@, ev@).1,
    {
        let ghost s0 = self@;
        let ghost evm = ev@;
        match self.state {
            SessionState::Handshaking => match ev {
                Event::InboundMessage(m) => self.handle_handshake(m),
                Event::InboundClosed => {
                    self.state = SessionState::Closed;
                    proof {
                        assert(self@ =~~= spec_step(s0, evm).0);
                    }
                    Action::Wait
                },
                Event::InboundFailed => {
                    self.state = SessionState::Closed;
                    self.last_error = Some(SessionError::RelayIo(Endpoint::Inbound));
                    proof {
                        assert(self@ =~~= spec_step(s0, evm).0);
                    }
                    Action::Wait
                },
                _ => {
                    proof {
                        assert(self@ =~~= spec_step(s0, evm).0);
                    }
                    Action::Wait
                },
            },
            SessionState::Authenticated => match ev {
                Event::ConnectSucceeded => {
                    let mut sent: Vec<u8> = Vec::new();
                    core::mem::swap(&mut sent, &mut self.pending);
                    self.state = SessionState::Relaying;
                    self.bytes_in = self.bytes_in.saturating_add(sent.len() as u64);
                    self.outbound_log = Ghost(self.outbound_log@ + sent@);
                    let a = Action::WriteOutbound(sent);
                    proof {
                        assert(self.pending@ =~= Seq::<u8>::empty());
                        assert(self@ =~~= spec_step(s0, evm).0);
                        assert(a@ =~~= spec_step(s0, evm).1);
                    }
                    a
                },
                Event::ConnectFailed => {
                    self.state = SessionState::Closed;
                    self.last_error = Some(SessionError::UpstreamConnect);
                    proof {
                        assert(self@ =~~= spec_step(s0, evm).0);
                    }
                    Action::CloseInbound
                },
                Event::InboundMessage(mut m) => {
                    self.pending.append(&mut m);
                    proof {
                        assert(self@ =~~= spec_step(s0, evm).0);
                    }
                    Action::Wait
                },
                Event::InboundClosed => {
                    self.state = SessionState::Closing;
                    proof {
                        assert(self@ =~~= spec_step(s0, evm).0);
                    }
                    Action::Wait
                },
                Event::InboundFailed => {
                    self.state = SessionState::Closing;
                    self.last_error = Some(SessionError::RelayIo(Endpoint::Inbound));
                    proof {
                        assert(self@ =~~= spec_step(s0, evm).0);
                    }
                    Action::Wait
                },
                _ => {
                    proof {
                        assert(self@ =~~= spec_step(s0, evm).0);
                    }
                    Action::Wait
                },
            },
            SessionState::Relaying => match ev {
                Event::InboundMessage(m) => {
                    self.bytes_in = self.bytes_in.saturating_add(m.len() as u64);
                    self.outbound_log = Ghost(self.outbound_log@ + m@);
                    let a = Action::WriteOutbound(m);
                    proof {
                        assert(self@ =~~= spec_step(s0, evm).0);
                        assert(a@ =~~= spec_step(s0, evm).1);
                    }
                    a
                },
                Event::OutboundData(d) => {
                    self.bytes_out = self.bytes_out.saturating_add(d.len() as u64);
                    let a = Action::SendInbound(d);
                    proof {
                        assert(self@ =~~= spec_step(s0, evm).0);
                        assert(a@ =~~= spec_step(s0, evm).1);
                    }
                    a
                },
                Event::InboundClosed => {
                    self.state = SessionState::Closing;
                    proof {
                        assert(self@ =~~= spec_step(s0, evm).0);
                    }
                    Action::CloseOutbound
                },
                Event::InboundFailed => {
                    self.state = SessionState::Closing;
                    self.last_error = Some(SessionError::RelayIo(Endpoint::Inbound));
                    proof {
                        assert(self@ =~~= spec_step(s0, evm).0);
                    }
                    Action::CloseOutbound
                },
                Event::OutboundClosed => {
                    self.state = SessionState::Closing;
                    proof {
                        assert(self@ =~~= spec_step(s0, evm).0);
                    }
                    Action::CloseInbound
                },
                Event::OutboundFailed => {
                    self.state = SessionState::Closing;
                    self.last_error = Some(SessionError::RelayIo(Endpoint::Outbound));
                    proof {
                        assert(self@ =~~= spec_step(s0, evm).0);
                    }
                    Action::CloseInbound
                },
                _ => {
                    proof {
                        assert(self@ =~~= spec_step(s0, evm).0);
                    }
                    Action::Wait
                },
            },
            SessionState::Closing => match ev {
                Event::ConnectSucceeded => {
                    self.state = SessionState::Closed;
                    proof {
                        assert(self@ =~~= spec_step(s0, evm).0);
                    }
                    Action::CloseOutbound
                },
                Event::ConnectFailed
                | Event::InboundClosed
                | Event::InboundFailed
                | Event::OutboundClosed
                | Event::OutboundFailed => {
                    self.state = SessionState::Closed;
                    proof {
                        assert(self@ =~~= spec_step(s0, evm).0);
                    }
                    Action::Wait
                },
                Event::InboundMessage(_) | Event::OutboundData(_) => {
                    proof {
                        assert(self@ =~~= spec_step(s0, evm).0);
                    }
                    Action::Wait
                },
            },
            SessionState::Closed => {
                proof {
                    assert(self@ =~~= spec_step(s0, evm).0);
                }
                Action::Wait
            },
        }
    }
}

/// A handshake that does not both decode and authenticate leaves the session
/// `Closed` straight from `Handshaking`, with no outbound connection ever
/// asked for and every byte counter exactly as it was.  In particular any
/// credential other than the configured one keeps the connection-attempt
/// counter at zero.
pub proof fn lemma_rejected_handshake_never_connects(s: SessionModel, m: Seq<u8>)
    requires
        s.state == SessionState::Handshaking,
        spec_decode(m) matches Some(p) ==> p.0.credential != s.credential,
    ensures
        ({
            let (s2, a) = spec_step(s, EventModel::InboundMessage(m));
            &&& s2.state == SessionState::Closed
            &&& s2.connect_attempts == s.connect_attempts
            &&& s2.bytes_in == s.bytes_in
            &&& s2.bytes_out == s.bytes_out
            &&& !(a is Connect)
            &&& !(a is WriteOutbound)
        }),
{
}

/// The handshake payload remainder is written to the upstream exactly once,
/// as the first outbound write, and any inbound bytes that follow land after
/// it: once the connect completes, the log of outbound writes is exactly the
/// remainder, and one further inbound message extends the log behind it.
pub proof fn lemma_handshake_payload_delivered_first(s: SessionModel, d: Seq<u8>)
    requires
        s.state == SessionState::Authenticated,
        s.outbound_log == Seq::<u8>::empty(),
    ensures
        ({
            let (s1, a1) = spec_step(s, EventModel::ConnectSucceeded);
            let (s2, a2) = spec_step(s1, EventModel::InboundMessage(d));
            &&& a1 == ActionModel::WriteOutbound(s.pending)
            &&& s1.state == SessionState::Relaying
            &&& s1.outbound_log == s.pending
            &&& s1.pending == Seq::<u8>::empty()
            &&& a2 == ActionModel::WriteOutbound(d)
            &&& s2.outbound_log == s.pending + d
        }),
{
    assert(Seq::<u8>::empty() + s.pending =~= s.pending);
}

/// How far along its lifecycle a session state is.
pub open spec fn state_rank(st: SessionState) -> int {
    match st {
        SessionState::Handshaking => 0,
        SessionState::Authenticated => 1,
        SessionState::Relaying => 2,
        SessionState::Closing => 3,
        SessionState::Closed => 4,
    }
}

/// The lifecycle never moves backwards, and every step that orders an
/// endpoint released moves it strictly forward — so no run can order the
/// same release twice from the same state.
pub proof fn lemma_lifecycle_monotone(s: SessionModel, ev: EventModel)
    ensures
        state_rank(spec_step(s, ev).0.state) >= state_rank(s.state),
        (spec_step(s, ev).1 is CloseInbound || spec_step(s, ev).1 is CloseOutbound)
            ==> state_rank(spec_step(s, ev).0.state) > state_rank(s.state),
{
}

/// An outbound connection is only ever asked for by a handshake that both
/// decoded and authenticated, and the connection-attempt counter moves in no
/// other step: a session whose handshake was rejected keeps it at zero
/// forever.
pub proof fn lemma_connect_only_on_accepted_handshake(s: SessionModel, ev: EventModel)
    ensures
        spec_step(s, ev).1 is Connect ==> ({
            &&& s.state == SessionState::Handshaking
            &&& ev matches EventModel::InboundMessage(m) && spec_decode(m) matches Some(p)
                && p.0.credential == s.credential
        }),
        spec_step(s, ev).0.connect_attempts != s.connect_attempts ==> spec_step(s, ev).1 is Connect,
{
}

/// Bytes once ordered written to the outbound stream are never dropped or
/// reordered: every step leaves the existing outbound log in place and at
/// most appends to it.
pub proof fn lemma_outbound_log_append_only(s: SessionModel, ev: EventModel)
    ensures
        ({
            let s2 = spec_step(s, ev).0;
            &&& s2.outbound_log.len() >= s.outbound_log.len()
            &&& s2.outbound_log.subrange(0, s.outbound_log.len() as int) == s.outbound_log
        }),
{
    let l = s.outbound_log;
    assert(l.subrange(0, l.len() as int) =~= l);
    assert((l + s.pending).subrange(0, l.len() as int) =~= l);
    match ev {
        EventModel::InboundMessage(m) => {
            assert((l + m).subrange(0, l.len() as int) =~= l);
        },
        _ => {},
    }
}

/// If the outbound side closes first, the inbound transport is ordered
/// closed in that very step.
pub proof fn lemma_outbound_close_closes_inbound(s: SessionModel)
    requires
        s.state == SessionState::Relaying,
    ensures
        spec_step(s, EventModel::OutboundClosed).0.state == SessionState::Closing,
        spec_step(s, EventModel::OutboundClosed).1 == ActionModel::CloseInbound,
{
}

/// Once teardown has begun, no event makes the machine write outbound, send
/// inbound or dial again, and it never leaves the teardown states.
pub proof fn lemma_no_traffic_after_teardown(s: SessionModel, ev: EventModel)
    requires
        s.state == SessionState::Closing || s.state == SessionState::Closed,
    ensures
        !(spec_step(s, ev).1 is WriteOutbound),
        !(spec_step(s, ev).1 is SendInbound),
        !(spec_step(s, ev).1 is Connect),
        spec_step(s, ev).0.state == SessionState::Closing || spec_step(s, ev).0.state
            == SessionState::Closed,
{
}

} // verus!
