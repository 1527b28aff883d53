//! The table of sessions that the server keeps: one per token, each with the channel to its
//! agent and a seat for the browser that watches it.
//!
//! Channels are known here by number. Whoever owns the real channels keeps them under these
//! numbers and drops the ones that an operation hands back as released. The contracts speak of
//! numbers without bound, the code has `u64`.

use std::collections::HashMap;
use vstd::hash_map::StringHashMap;
use vstd::prelude::*;

verus! {

broadcast use vstd::std_specs::hash::group_hash_axioms;

/// Seconds between two pings on an idle connection.
pub const PING_INTERVAL_SECS: u64 = 25;

/// Seconds for which a session outlives its agent's connection.
pub const SESSION_RETAIN_SECS: u64 = 30;

/// Seconds for which a browser waits for an agent that is away.
pub const WAIT_AGENT_TIMEOUT_SECS: u64 = 30;

/// Messages that a channel holds before its sender has to wait.
pub const CHANNEL_CAPACITY: usize = 256;

/// A number that may be absent, without bound.
pub open spec fn unbounded(n: Option<u64>) -> Option<int> {
    match n {
        Some(k) => Some(k as int),
        None => None,
    }
}

/// A session as the table lists it under its token.
#[derive(Clone, Copy)]
pub struct Session<N> {
    /// The session's number: that of its seat, and of the signal that wakes the browsers waiting
    /// for it.
    pub id: N,
    /// The channel on which the agent that connected last is reached.
    pub to_agent: N,
    /// Whether that agent is online now.
    pub agent_online: bool,
}

impl View for Session<u64> {
    type V = Session<int>;

    open spec fn view(&self) -> Session<int> {
        Session {
            id: self.id as int,
            to_agent: self.to_agent as int,
            agent_online: self.agent_online,
        }
    }
}

/// The place of the one browser that is shown a session. All agents that have served the session
/// send their output there, and the seat exists as long as the table or such an agent refers to
/// it.
#[derive(Clone, Copy)]
pub struct Seat<N> {
    /// The channel of the browser that came last.
    pub web: Option<N>,
    /// Connected agents that send their output here.
    pub agents: N,
    /// A session of the table has this seat.
    pub listed: bool,
}

impl View for Seat<u64> {
    type V = Seat<int>;

    open spec fn view(&self) -> Seat<int> {
        Seat { web: unbounded(self.web), agents: self.agents as int, listed: self.listed }
    }
}

/// What an agent gets when it connects.
#[derive(Debug, Clone, Copy, PartialEq, Eq)]
pub struct AgentLink<N> {
    /// The session that it serves.
    pub session: N,
    /// The new channel on which it is reached.
    pub to_agent: N,
    /// The session's former channel, where the session existed: it is released, and the browsers
    /// that wait for the session are to be woken.
    pub resumed: Option<N>,
}

impl View for AgentLink<u64> {
    type V = AgentLink<int>;

    open spec fn view(&self) -> AgentLink<int> {
        AgentLink {
            session: self.session as int,
            to_agent: self.to_agent as int,
            resumed: unbounded(self.resumed),
        }
    }
}

/// What an agent's leaving brings about.
#[derive(Debug, Clone, Copy, PartialEq, Eq)]
pub struct AgentGone<N> {
    /// The number of this departure, where it takes the session offline: when the session has
    /// been retained for its time, `expire` is to be called with this number.
    pub departure: Option<N>,
    /// The browser that was shown the token's session and is not any more: its channel is
    /// released.
    pub viewer: Option<N>,
    /// The browser on the agent's own seat, where the seat went with the agent: its channel is
    /// released.
    pub orphan: Option<N>,
}

impl View for AgentGone<u64> {
    type V = AgentGone<int>;

    open spec fn view(&self) -> AgentGone<int> {
        AgentGone {
            departure: unbounded(self.departure),
            viewer: unbounded(self.viewer),
            orphan: unbounded(self.orphan),
        }
    }
}

/// A session that was taken off the table.
#[derive(Debug, Clone, Copy, PartialEq, Eq)]
pub struct Expired<N> {
    pub session: N,
    /// The session's channel to its agent, which is released.
    pub to_agent: N,
    /// The browser on the session's seat, where the seat went with the session: its channel is
    /// released.
    pub viewer: Option<N>,
}

impl View for Expired<u64> {
    type V = Expired<int>;

    open spec fn view(&self) -> Expired<int> {
        Expired {
            session: self.session as int,
            to_agent: self.to_agent as int,
            viewer: unbounded(self.viewer),
        }
    }
}

/// What a browser that arrives is told.
#[derive(Debug, Clone, Copy, PartialEq, Eq)]
pub enum Admission<N> {
    /// There is no session for its token: its connection is closed.
    Refuse,
    /// The agent is online.
    Proceed,
    /// The agent is away: wait for the signal of the session with this number.
    Wait(N),
}

impl View for Admission<u64> {
    type V = Admission<int>;

    open spec fn view(&self) -> Admission<int> {
        match self {
            Admission::Refuse => Admission::Refuse,
            Admission::Proceed => Admission::Proceed,
            Admission::Wait(id) => Admission::Wait(*id as int),
        }
    }
}

/// The two ends that a browser is connected between.
#[derive(Debug, Clone, Copy, PartialEq, Eq)]
pub struct Bridge<N> {
    /// The channel that takes the browser's input to the agent.
    pub to_agent: N,
    /// The new channel that brings the agent's output.
    pub web: N,
    /// The channel of the browser that lost the seat, which is released.
    pub kicked: Option<N>,
}

impl View for Bridge<u64> {
    type V = Bridge<int>;

    open spec fn view(&self) -> Bridge<int> {
        Bridge {
            to_agent: self.to_agent as int,
            web: self.web as int,
            kicked: unbounded(self.kicked),
        }
    }
}

/// How far a browser's connection has come.
#[derive(Debug, Clone, Copy, PartialEq, Eq)]
pub enum WebStage<N> {
    /// Its token was accepted.
    Arriving,
    /// It waits, for a limited time, for the signal of the session with this number.
    Waiting(N),
    /// It may take the seat of its session.
    Admitted,
    /// It has the seat.
    Bridged(Bridge<N>),
    /// Its connection is to be closed.
    Closed,
}

impl View for WebStage<u64> {
    type V = WebStage<int>;

    open spec fn view(&self) -> WebStage<int> {
        match self {
            WebStage::Arriving => WebStage::Arriving,
            WebStage::Waiting(id) => WebStage::Waiting(*id as int),
            WebStage::Admitted => WebStage::Admitted,
            WebStage::Bridged(bridge) => WebStage::Bridged(bridge@),
            WebStage::Closed => WebStage::Closed,
        }
    }
}

/// A set of channels without a released one.
pub open spec fn without(channels: Set<int>, released: Option<int>) -> Set<int> {
    match released {
        Some(c) => channels.remove(c),
        None => channels,
    }
}

/// What the table holds.
#[verifier::ext_equal]
pub struct RelayModel {
    pub sessions: Map<Seq<char>, Session<int>>,
    pub seats: Map<int, Seat<int>>,
    /// The next number to hand out; every number that was handed out is below it.
    pub next_id: int,
}

impl RelayModel {
    /// A table without sessions.
    pub open spec fn empty() -> RelayModel {
        RelayModel {
            sessions: Map::<Seq<char>, Session<int>>::empty(),
            seats: Map::<int, Seat<int>>::empty(),
            next_id: 0,
        }
    }

    pub open spec fn has(self, token: Seq<char>) -> bool {
        self.sessions.contains_key(token)
    }

    /// Whether the agent of a token is online now.
    pub open spec fn online(self, token: Seq<char>) -> bool {
        self.has(token) && self.sessions[token].agent_online
    }

    /// The seat of a token's session.
    pub open spec fn seat_of(self, token: Seq<char>) -> Seat<int> {
        self.seats[self.sessions[token].id]
    }

    /// The browser on a seat.
    pub open spec fn seated(self, id: int) -> Option<int> {
        if self.seats.contains_key(id) {
            self.seats[id].web
        } else {
            None
        }
    }

    /// The browser that is shown a token's session.
    pub open spec fn viewer(self, token: Seq<char>) -> Option<int> {
        if self.has(token) {
            self.seated(self.sessions[token].id)
        } else {
            None
        }
    }

    pub open spec fn is_agent_channel(self, c: int) -> bool {
        exists|t: Seq<char>| #[trigger] self.has(t) && self.sessions[t].to_agent == c
    }

    pub open spec fn is_web_channel(self, c: int) -> bool {
        exists|i: int| #[trigger] self.seats.contains_key(i) && self.seats[i].web == Some(c)
    }

    /// The channels that the table refers to.
    pub open spec fn channels(self) -> Set<int> {
        Set::new(|c: int| self.is_agent_channel(c) || self.is_web_channel(c))
    }

    /// Every session has a seat of its own and a channel of its own, every seated browser has a
    /// channel of its own, no seat is left over, and every number in use was handed out.
    pub open spec fn wf(self) -> bool {
        &&& 0 <= self.next_id
        &&& forall|t: Seq<char>| #[trigger]
            self.has(t) ==> {
                &&& self.seats.contains_key(self.sessions[t].id)
                &&& self.seat_of(t).listed
                &&& 0 <= self.sessions[t].to_agent < self.next_id
            }
        &&& forall|t: Seq<char>, u: Seq<char>| #[trigger]
            self.has(t) && #[trigger] self.has(u) && t != u ==> {
                &&& self.sessions[t].id != self.sessions[u].id
                &&& self.sessions[t].to_agent != self.sessions[u].to_agent
            }
        &&& forall|i: int| #[trigger]
            self.seats.contains_key(i) ==> {
                &&& 0 <= i < self.next_id
                &&& 0 <= self.seats[i].agents <= self.next_id
                &&& self.seats[i].listed || self.seats[i].agents > 0
                &&& self.seats[i].listed ==> exists|t: Seq<char>| #[trigger]
                    self.has(t) && self.sessions[t].id == i
                &&& self.seats[i].web matches Some(w) ==> 0 <= w < self.next_id
                    && !self.is_agent_channel(w)
            }
        &&& forall|i: int, j: int| #[trigger]
            self.seats.contains_key(i) && #[trigger] self.seats.contains_key(j) && i != j
                && self.seats[i].web is Some ==> self.seats[i].web != self.seats[j].web
    }

    /// An agent connects: its token's session resumes on a new channel, or starts with an empty
    /// seat.
    pub open spec fn agent_joined(self, token: Seq<char>) -> RelayModel {
        let fresh = self.next_id;
        if self.has(token) {
            let id = self.sessions[token].id;
            let seat = self.seats[id];
            RelayModel {
                sessions: self.sessions.insert(
                    token,
                    Session { id, to_agent: fresh, agent_online: true },
                ),
                seats: self.seats.insert(id, Seat { agents: seat.agents + 1, ..seat }),
                next_id: self.next_id + 1,
            }
        } else {
            RelayModel {
                sessions: self.sessions.insert(
                    token,
                    Session { id: fresh, to_agent: fresh, agent_online: true },
                ),
                seats: self.seats.insert(fresh, Seat { web: None, agents: 1, listed: true }),
                next_id: self.next_id + 1,
            }
        }
    }

    /// What an agent that connects gets.
    pub open spec fn link(self, token: Seq<char>) -> AgentLink<int> {
        if self.has(token) {
            AgentLink {
                session: self.sessions[token].id,
                to_agent: self.next_id,
                resumed: Some(self.sessions[token].to_agent),
            }
        } else {
            AgentLink { session: self.next_id, to_agent: self.next_id, resumed: None }
        }
    }

    /// Whether the agent with a channel has been succeeded by one that is online.
    pub open spec fn succeeded(self, token: Seq<char>, to_agent: int) -> bool {
        self.online(token) && self.sessions[token].to_agent != to_agent
    }

    /// A token's session is without agent, and its seat is emptied.
    pub open spec fn agent_lost(self, token: Seq<char>) -> RelayModel {
        if self.has(token) {
            let s = self.sessions[token];
            RelayModel {
                sessions: self.sessions.insert(token, Session { agent_online: false, ..s }),
                seats: self.seats.insert(s.id, Seat { web: None, ..self.seats[s.id] }),
                next_id: self.next_id,
            }
        } else {
            self
        }
    }

    /// An agent gives up its share of a seat; the seat goes when nothing refers to it any more.
    pub open spec fn seat_released(self, id: int) -> RelayModel {
        if self.seats.contains_key(id) && self.seats[id].agents > 0 {
            let seat = self.seats[id];
            RelayModel {
                seats: if seat.agents == 1 && !seat.listed {
                    self.seats.remove(id)
                } else {
                    self.seats.insert(id, Seat { agents: seat.agents - 1, ..seat })
                },
                ..self
            }
        } else {
            self
        }
    }

    /// What an agent's leaving does to its token's session: nothing, where another agent that is
    /// online has succeeded it.
    pub open spec fn session_left(self, token: Seq<char>, to_agent: int) -> RelayModel {
        if self.succeeded(token, to_agent) {
            self
        } else {
            self.agent_lost(token)
        }
    }

    /// An agent of a token disconnects that is reached on the channel `to_agent` and serves the
    /// session numbered `id`.
    pub open spec fn agent_left(self, token: Seq<char>, id: int, to_agent: int) -> RelayModel {
        self.session_left(token, to_agent).seat_released(id)
    }

    /// What an agent's leaving brings about. A departure that takes the session offline has the
    /// number of the agent's channel: an agent that comes back brings another one.
    pub open spec fn gone(self, token: Seq<char>, id: int, to_agent: int) -> AgentGone<int> {
        let left = self.session_left(token, to_agent);
        AgentGone {
            departure: if self.online(token) && !self.succeeded(token, to_agent) {
                Some(to_agent)
            } else {
                None
            },
            viewer: if self.succeeded(token, to_agent) {
                None
            } else {
                self.viewer(token)
            },
            orphan: if left.seats.contains_key(id) && left.seats[id].agents == 1
                && !left.seats[id].listed {
                left.seats[id].web
            } else {
                None
            },
        }
    }

    /// Whether a token's session has been without agent since a departure.
    pub open spec fn away_since(self, token: Seq<char>, departure: int) -> bool {
        self.has(token) && !self.online(token) && self.sessions[token].to_agent == departure
    }

    /// The time for which a token's session is retained after a departure is over: the session
    /// goes, unless an agent came back in the meantime.
    pub open spec fn retention_ended(self, token: Seq<char>, departure: int) -> RelayModel {
        if self.away_since(token, departure) {
            let s = self.sessions[token];
            let seat = self.seats[s.id];
            RelayModel {
                sessions: self.sessions.remove(token),
                seats: if seat.agents == 0 {
                    self.seats.remove(s.id)
                } else {
                    self.seats.insert(s.id, Seat { listed: false, ..seat })
                },
                next_id: self.next_id,
            }
        } else {
            self
        }
    }

    /// What the end of a retention time takes off the table.
    pub open spec fn expiry(self, token: Seq<char>, departure: int) -> Option<Expired<int>> {
        if self.away_since(token, departure) {
            Some(
                Expired {
                    session: self.sessions[token].id,
                    to_agent: self.sessions[token].to_agent,
                    viewer: if self.seat_of(token).agents == 0 {
                        self.viewer(token)
                    } else {
                        None
                    },
                },
            )
        } else {
            None
        }
    }

    /// A browser takes the seat of a token's session from whoever has it.
    pub open spec fn web_joined(self, token: Seq<char>) -> RelayModel {
        if self.has(token) {
            let id = self.sessions[token].id;
            RelayModel {
                sessions: self.sessions,
                seats: self.seats.insert(id, Seat { web: Some(self.next_id), ..self.seats[id] }),
                next_id: self.next_id + 1,
            }
        } else {
            self
        }
    }

    /// What a browser that takes the seat of a token's session gets.
    pub open spec fn bridge(self, token: Seq<char>) -> Option<Bridge<int>> {
        if self.has(token) {
            Some(
                Bridge {
                    to_agent: self.sessions[token].to_agent,
                    web: self.next_id,
                    kicked: self.viewer(token),
                },
            )
        } else {
            None
        }
    }

    /// What a browser that arrives for a token is told.
    pub open spec fn admission(self, token: Seq<char>) -> Admission<int> {
        if !self.has(token) {
            Admission::Refuse
        } else if self.online(token) {
            Admission::Proceed
        } else {
            Admission::Wait(self.sessions[token].id)
        }
    }

    /// The stage that follows a stage of a browser's connection. `signalled` says how a wait
    /// ended: with the session's signal, or without it because the time was up.
    pub open spec fn next_stage(
        self,
        token: Seq<char>,
        stage: WebStage<int>,
        signalled: bool,
    ) -> WebStage<int> {
        match stage {
            WebStage::Arriving => match self.admission(token) {
                Admission::Refuse => WebStage::Closed,
                Admission::Proceed => WebStage::Admitted,
                Admission::Wait(id) => WebStage::Waiting(id),
            },
            WebStage::Waiting(_) => if signalled {
                WebStage::Admitted
            } else {
                WebStage::Closed
            },
            WebStage::Admitted => match self.bridge(token) {
                Some(bridge) => WebStage::Bridged(bridge),
                None => WebStage::Closed,
            },
            WebStage::Bridged(_) | WebStage::Closed => stage,
        }
    }
}

pub struct Relay {
    sessions: StringHashMap<Session<u64>>,
    seats: HashMap<u64, Seat<u64>>,
    next_id: u64,
}

impl View for Relay {
    type V = RelayModel;

    closed spec fn view(&self) -> RelayModel {
        RelayModel {
            sessions: self.sessions@.map_values(|s: Session<u64>| s@),
            seats: Map::new(
                |i: int| 0 <= i <= u64::MAX && self.seats@.contains_key(i as u64),
                |i: int| self.seats@[i as u64]@,
            ),
            next_id: self.next_id as int,
        }
    }
}

impl Relay {
    /// A table without sessions.
    pub fn new() -> (relay: Self)
        ensures
            relay@ == RelayModel::empty(),
            relay@.wf(),
    {
        let relay = Relay { sessions: StringHashMap::new(), seats: HashMap::new(), next_id: 0 };
        assert(relay@ =~= RelayModel::empty());
        relay
    }

    /// There is a number left for one more connection.
    pub fn has_room(&self) -> (room: bool)
        ensures
            room == (self@.next_id < u64::MAX),
    {
        self.next_id < u64::MAX
    }

    /// The session that is listed under a token.
    fn session(&self, token: &str) -> (found: Option<Session<u64>>)
        ensures
            match found {
                Some(s) => self@.has(token@) && self@.sessions[token@] == s@,
                None => !self@.has(token@),
            },
    {
        match self.sessions.get(token) {
            Some(s) => Some(Session { id: s.id, to_agent: s.to_agent, agent_online: s.agent_online }),
            None => None,
        }
    }

    /// The seat with a number.
    fn seat(&self, id: u64) -> (found: Option<Seat<u64>>)
        ensures
            match found {
                Some(seat) => self@.seats.contains_key(id as int) && self@.seats[id as int] == seat@,
                None => !self@.seats.contains_key(id as int),
            },
    {
        match self.seats.get(&id) {
            Some(seat) => Some(Seat { web: seat.web, agents: seat.agents, listed: seat.listed }),
            None => None,
        }
    }

    fn put_session(&mut self, token: &str, session: Session<u64>)
        ensures
            final(self)@ == (RelayModel {
                sessions: old(self)@.sessions.insert(token@, session@),
                ..old(self)@
            }),
    {
        self.sessions.insert(token.to_owned(), session);
        assert(self@.sessions =~= old(self)@.sessions.insert(token@, session@));
    }

    fn put_seat(&mut self, id: u64, seat: Seat<u64>)
        ensures
            final(self)@ == (RelayModel {
                seats: old(self)@.seats.insert(id as int, seat@),
                ..old(self)@
            }),
    {
        self.seats.insert(id, seat);
        assert(self@.seats =~= old(self)@.seats.insert(id as int, seat@));
    }

    fn remove_seat(&mut self, id: u64)
        ensures
            final(self)@ == (RelayModel { seats: old(self)@.seats.remove(id as int), ..old(self)@ }),
    {
        self.seats.remove(&id);
        assert(self@.seats =~= old(self)@.seats.remove(id as int));
    }

    /// Registers an agent that connected under `token`.
    pub fn agent_connected(&mut self, token: &str) -> (link: AgentLink<u64>)
        requires
            old(self)@.wf(),
            old(self)@.next_id < u64::MAX,
        ensures
            final(self)@.wf(),
            final(self)@ == old(self)@.agent_joined(token@),
            link@ == old(self)@.link(token@),
    {
        proof {
            crate::relay_facts::agent_joined_facts(self@, token@);
        }
        let fresh: u64 = self.next_id;
        let link = match self.session(token) {
            Some(s) => {
                let seat: Seat<u64> = match self.seat(s.id) {
                    Some(seat) => seat,
                    None => Seat { web: None, agents: 0, listed: true },
                };
                self.put_seat(
                    s.id,
                    Seat { web: seat.web, agents: seat.agents + 1, listed: seat.listed },
                );
                self.put_session(token, Session { id: s.id, to_agent: fresh, agent_online: true });
                AgentLink { session: s.id, to_agent: fresh, resumed: Some(s.to_agent) }
            },
            None => {
                self.put_seat(fresh, Seat { web: None, agents: 1, listed: true });
                self.put_session(token, Session { id: fresh, to_agent: fresh, agent_online: true });
                AgentLink { session: fresh, to_agent: fresh, resumed: None }
            },
        };
        self.next_id = fresh + 1;
        assert(self@ =~= old(self)@.agent_joined(token@));
        link
    }

    /// The browser to which the output of an agent of the session numbered `id` goes. Without one
    /// the output is discarded.
    pub fn output_target(&self, id: u64) -> (web: Option<u64>)
        ensures
            unbounded(web) == self@.seated(id as int),
    {
        match self.seat(id) {
            Some(seat) => seat.web,
            None => None,
        }
    }

    /// Registers that an agent of `token` disconnected. `id` and `to_agent` are the session and the
    /// channel that it was given when it connected.
    pub fn agent_disconnected(&mut self, token: &str, id: u64, to_agent: u64) -> (gone: AgentGone<
        u64,
    >)
        requires
            old(self)@.wf(),
        ensures
            final(self)@.wf(),
            final(self)@ == old(self)@.agent_left(token@, id as int, to_agent as int),
            gone@ == old(self)@.gone(token@, id as int, to_agent as int),
    {
        let ghost left = self@.session_left(token@, to_agent as int);
        proof {
            crate::relay_facts::agent_lost_facts(self@, token@);
            crate::relay_facts::seat_released_facts(left, id as int);
        }
        let mut departure: Option<u64> = None;
        let mut viewer: Option<u64> = None;
        if let Some(s) = self.session(token) {
            if !s.agent_online || s.to_agent == to_agent {
                if s.agent_online {
                    departure = Some(to_agent);
                }
                if let Some(seat) = self.seat(s.id) {
                    viewer = seat.web;
                    self.put_seat(
                        s.id,
                        Seat { web: None, agents: seat.agents, listed: seat.listed },
                    );
                }
                self.put_session(
                    token,
                    Session { id: s.id, to_agent: s.to_agent, agent_online: false },
                );
            }
        }
        assert(self@ =~= left);
        let mut orphan: Option<u64> = None;
        if let Some(seat) = self.seat(id) {
            if seat.agents == 1 && !seat.listed {
                orphan = seat.web;
                self.remove_seat(id);
            } else if seat.agents > 0 {
                self.put_seat(
                    id,
                    Seat { web: seat.web, agents: seat.agents - 1, listed: seat.listed },
                );
            }
        }
        assert(self@ =~= old(self)@.agent_left(token@, id as int, to_agent as int));
        AgentGone { departure, viewer, orphan }
    }

    /// Takes the session of `token` off the table, if it has been without agent since the
    /// departure with this number.
    pub fn expire(&mut self, token: &str, departure: u64) -> (expired: Option<Expired<u64>>)
        requires
            old(self)@.wf(),
        ensures
            final(self)@.wf(),
            final(self)@ == old(self)@.retention_ended(token@, departure as int),
            match expired {
                Some(e) => old(self)@.expiry(token@, departure as int) == Some(e@),
                None => old(self)@.expiry(token@, departure as int) is None,
            },
    {
        proof {
            crate::relay_facts::retention_ended_facts(self@, token@, departure as int);
        }
        let s: Session<u64> = match self.session(token) {
            Some(s) => s,
            None => return None,
        };
        if s.agent_online || s.to_agent != departure {
            return None;
        }
        let mut viewer: Option<u64> = None;
        if let Some(seat) = self.seat(s.id) {
            if seat.agents == 0 {
                viewer = seat.web;
                self.remove_seat(s.id);
            } else {
                self.put_seat(s.id, Seat { web: seat.web, agents: seat.agents, listed: false });
            }
        }
        let ghost before = self@;
        self.sessions.remove(token);
        assert(self@.sessions =~= before.sessions.remove(token@));
        assert(self@ =~= old(self)@.retention_ended(token@, departure as int));
        Some(Expired { session: s.id, to_agent: s.to_agent, viewer })
    }

    /// What to do with a browser that arrives for `token`.
    pub fn web_arrived(&self, token: &str) -> (admission: Admission<u64>)
        ensures
            admission@ == self@.admission(token@),
    {
        match self.session(token) {
            Some(s) => {
                if s.agent_online {
                    Admission::Proceed
                } else {
                    Admission::Wait(s.id)
                }
            },
            None => Admission::Refuse,
        }
    }

    /// Seats a browser in the session of `token`. There is no bridge where the session is gone.
    pub fn web_attached(&mut self, token: &str) -> (bridge: Option<Bridge<u64>>)
        requires
            old(self)@.wf(),
            old(self)@.next_id < u64::MAX,
        ensures
            final(self)@.wf(),
            final(self)@ == old(self)@.web_joined(token@),
            match bridge {
                Some(b) => old(self)@.bridge(token@) == Some(b@),
                None => old(self)@.bridge(token@) is None,
            },
    {
        proof {
            crate::relay_facts::web_joined_facts(self@, token@);
        }
        let s: Session<u64> = match self.session(token) {
            Some(s) => s,
            None => return None,
        };
        let fresh: u64 = self.next_id;
        let mut kicked: Option<u64> = None;
        if let Some(seat) = self.seat(s.id) {
            kicked = seat.web;
            self.put_seat(
                s.id,
                Seat { web: Some(fresh), agents: seat.agents, listed: seat.listed },
            );
        }
        self.next_id = fresh + 1;
        assert(self@ =~= old(self)@.web_joined(token@));
        Some(Bridge { to_agent: s.to_agent, web: fresh, kicked })
    }

    /// Takes a browser's connection one stage further. Only taking the seat changes the table.
    pub fn web_advance(&mut self, token: &str, stage: WebStage<u64>, signalled: bool) -> (next:
        WebStage<u64>)
        requires
            old(self)@.wf(),
            old(self)@.next_id < u64::MAX,
        ensures
            final(self)@.wf(),
            next@ == old(self)@.next_stage(token@, stage@, signalled),
            final(self)@ == if stage is Admitted {
                old(self)@.web_joined(token@)
            } else {
                old(self)@
            },
    {
        match stage {
            WebStage::Arriving => match self.web_arrived(token) {
                Admission::Refuse => WebStage::Closed,
                Admission::Proceed => WebStage::Admitted,
                Admission::Wait(id) => WebStage::Waiting(id),
            },
            WebStage::Waiting(_) => {
                if signalled {
                    WebStage::Admitted
                } else {
                    WebStage::Closed
                }
            },
            WebStage::Admitted => match self.web_attached(token) {
                Some(bridge) => WebStage::Bridged(bridge),
                None => WebStage::Closed,
            },
            WebStage::Bridged(_) => stage,
            WebStage::Closed => stage,
        }
    }
}

} // verus!
