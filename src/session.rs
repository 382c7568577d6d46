use vstd::prelude::*;

verus! {

/// Lifecycle of one subscription connection.
#[derive(Debug, PartialEq, Eq, Structural)]
pub enum SessionState {
    Connecting,
    Active,
    Closing,
    Closed,
}

/// How often liveness is checked and how long a connection may stay silent.
#[derive(Debug, Clone, Copy, PartialEq, Eq, Structural)]
pub struct HeartbeatConfig {
    pub tick_interval: u64,
    pub timeout_window: u64,
}

/// A frame read from the transport, or the transport's failure to read one.
#[derive(Debug)]
pub enum Frame {
    Ping(Vec<u8>),
    Pong(Vec<u8>),
    Text(String),
    Binary(Vec<u8>),
    Continuation(Vec<u8>),
    Close,
    Nop,
    ProtocolError,
}

/// Something that happened to a session, with the time it happened at.
#[derive(Debug)]
pub enum SessionEvent {
    /// The subscription channel is set up and registered under `slot`.
    Opened { slot: usize },
    /// A frame arrived from the client.
    Inbound(Frame),
    /// An event rendered for this subscription is ready to be written.
    Outbound(String),
    /// The heartbeat timer fired.
    Tick,
    /// The driver has removed the session's registry entry.
    Deregistered,
}

/// What the connection's driver must do after an event.
#[derive(Debug)]
pub enum SessionAction {
    Nothing,
    /// Answer a ping with a pong carrying the same payload.
    SendPong(Vec<u8>),
    /// Hand a control message to the subscription pipeline.
    Forward(String),
    /// Write a text frame to the transport.
    SendText(String),
    /// Close the transport and deregister the slot, if one was registered, then
    /// report `Deregistered`.
    Close { deregister: Option<usize> },
}

/// The per-connection session: its state, the time of the last sign of life, and
/// the registry slot of its subscription channel.
#[derive(Debug)]
pub struct WsSession {
    pub state: SessionState,
    pub last_heartbeat: u64,
    pub slot: Option<usize>,
    pub config: HeartbeatConfig,
}

/// Whether a session whose last sign of life was at `hb` has been silent too long at `now`.
pub open spec fn timed_out(hb: u64, now: u64, window: u64) -> bool {
    now > hb && now - hb > window
}

pub open spec fn closing(s: WsSession) -> WsSession {
    WsSession { state: SessionState::Closing, ..s }
}

pub open spec fn close_action(s: WsSession) -> SessionAction {
    SessionAction::Close { deregister: s.slot }
}

/// The next session and the action to take when `e` happens at time `now`.
pub open spec fn step_spec(s: WsSession, e: SessionEvent, now: u64) -> (WsSession, SessionAction) {
    match s.state {
        SessionState::Closed => (s, SessionAction::Nothing),
        SessionState::Closing => match e {
            SessionEvent::Deregistered => (
                WsSession { state: SessionState::Closed, ..s },
                SessionAction::Nothing,
            ),
            _ => (s, SessionAction::Nothing),
        },
        _ => match e {
            SessionEvent::Deregistered => (s, SessionAction::Nothing),
            SessionEvent::Opened { slot } => match s.state {
                SessionState::Connecting => (
                    WsSession { state: SessionState::Active, last_heartbeat: now, slot: Some(slot), ..s },
                    SessionAction::Nothing,
                ),
                _ => (s, SessionAction::Nothing),
            },
            SessionEvent::Inbound(f) => match f {
                Frame::Ping(p) => (WsSession { last_heartbeat: now, ..s }, SessionAction::SendPong(p)),
                Frame::Pong(_) => (WsSession { last_heartbeat: now, ..s }, SessionAction::Nothing),
                Frame::Text(t) => match s.slot {
                    Some(_) => (s, SessionAction::Forward(t)),
                    None => (s, SessionAction::Nothing),
                },
                Frame::Nop => (s, SessionAction::Nothing),
                _ => (closing(s), close_action(s)),
            },
            SessionEvent::Outbound(t) => (s, SessionAction::SendText(t)),
            SessionEvent::Tick => if timed_out(s.last_heartbeat, now, s.config.timeout_window) {
                (closing(s), close_action(s))
            } else {
                (s, SessionAction::Nothing)
            },
        },
    }
}

impl WsSession {
    /// A session that has not yet opened its subscription channel.
    pub fn new(config: HeartbeatConfig, now: u64) -> (r: WsSession)
        ensures
            r.state == SessionState::Connecting,
            r.last_heartbeat == now,
            r.slot is None,
            r.config == config,
    {
        WsSession { state: SessionState::Connecting, last_heartbeat: now, slot: None, config }
    }

    /// Applies one event, happening at time `now`, and returns what the driver must do.
    pub fn step(&mut self, e: SessionEvent, now: u64) -> (a: SessionAction)
        ensures
            (*final(self), a) == step_spec(*old(self), e, now),
    {
        if self.state == SessionState::Closed {
            return SessionAction::Nothing;
        }
        if self.state == SessionState::Closing {
            if let SessionEvent::Deregistered = e {
                self.state = SessionState::Closed;
            }
            return SessionAction::Nothing;
        }
        match e {
            SessionEvent::Deregistered => SessionAction::Nothing,
            SessionEvent::Opened { slot } => {
                if self.state == SessionState::Connecting {
                    self.state = SessionState::Active;
                    self.last_heartbeat = now;
                    self.slot = Some(slot);
                }
                SessionAction::Nothing
            },
            SessionEvent::Inbound(f) => match f {
                Frame::Ping(p) => {
                    self.last_heartbeat = now;
                    SessionAction::SendPong(p)
                },
                Frame::Pong(_) => {
                    self.last_heartbeat = now;
                    SessionAction::Nothing
                },
                Frame::Text(t) => match self.slot {
                    Some(_) => SessionAction::Forward(t),
                    None => SessionAction::Nothing,
                },
                Frame::Nop => SessionAction::Nothing,
                _ => {
                    self.state = SessionState::Closing;
                    SessionAction::Close { deregister: self.slot }
                },
            },
            SessionEvent::Outbound(t) => SessionAction::SendText(t),
            SessionEvent::Tick => {
                if now > self.last_heartbeat && now - self.last_heartbeat > self.config.timeout_window {
                    self.state = SessionState::Closing;
                    SessionAction::Close { deregister: self.slot }
                } else {
                    SessionAction::Nothing
                }
            },
        }
    }
}

/// The session after a sequence of timed events.
pub open spec fn run(s: WsSession, evs: Seq<(SessionEvent, u64)>) -> WsSession
    decreases evs.len(),
{
    if evs.len() == 0 {
        s
    } else {
        run(step_spec(s, evs[0].0, evs[0].1).0, evs.subrange(1, evs.len() as int))
    }
}

/// A sequence of pongs and heartbeat ticks in which, starting from a last sign of life
/// at `hb`, every tick comes within `window` of the latest pong before it.
pub open spec fn pongs_in_time(hb: u64, evs: Seq<(SessionEvent, u64)>, window: u64) -> bool
    decreases evs.len(),
{
    if evs.len() == 0 {
        true
    } else {
        let rest = evs.subrange(1, evs.len() as int);
        match evs[0].0 {
            SessionEvent::Inbound(Frame::Pong(_)) => pongs_in_time(evs[0].1, rest, window),
            SessionEvent::Tick => !timed_out(hb, evs[0].1, window) && pongs_in_time(hb, rest, window),
            _ => false,
        }
    }
}

/// A session that answers within every timeout window stays active, however long
/// the sequence of pongs and ticks.
pub proof fn lemma_pongs_keep_session_active(s: WsSession, evs: Seq<(SessionEvent, u64)>)
    requires
        s.state == SessionState::Active,
        pongs_in_time(s.last_heartbeat, evs, s.config.timeout_window),
    ensures
        run(s, evs).state == SessionState::Active,
    decreases evs.len(),
{
    if evs.len() > 0 {
        let next = step_spec(s, evs[0].0, evs[0].1).0;
        lemma_pongs_keep_session_active(next, evs.subrange(1, evs.len() as int));
    }
}

/// A session silent for longer than the timeout window starts closing at the next
/// tick and tells the driver to deregister its slot; once the driver reports the slot
/// deregistered, the session is closed and the registry no longer holds the slot.
pub proof fn lemma_silent_session_closed(s: WsSession, now: u64, later: u64, reg: Map<usize, u64>)
    requires
        s.state == SessionState::Active,
        s.slot is Some,
        timed_out(s.last_heartbeat, now, s.config.timeout_window),
    ensures
        step_spec(s, SessionEvent::Tick, now).0.state == SessionState::Closing,
        step_spec(s, SessionEvent::Tick, now).1 == (SessionAction::Close { deregister: s.slot }),
        run(s, seq![(SessionEvent::Tick, now), (SessionEvent::Deregistered, later)]).state
            == SessionState::Closed,
        !reg.remove(s.slot->0).contains_key(s.slot->0),
{
    let evs = seq![(SessionEvent::Tick, now), (SessionEvent::Deregistered, later)];
    let s1 = step_spec(s, SessionEvent::Tick, now).0;
    let rest = evs.subrange(1, 2);
    assert(rest =~= seq![(SessionEvent::Deregistered, later)]);
    assert(rest.subrange(1, 1) =~= Seq::<(SessionEvent, u64)>::empty());
    assert(run(s1, rest) == run(step_spec(s1, SessionEvent::Deregistered, later).0, rest.subrange(1, 1)));
}

} // verus!
