//! What holds of the session table over several operations.

use crate::relay::Admission;
use crate::relay::RelayModel;
use crate::relay::WebStage;
use crate::relay::SESSION_RETAIN_SECS;
use crate::server::Delivery;
use crate::ws::Inbound;
use vstd::prelude::*;

verus! {

/// An operation on the table.
pub enum Step {
    AgentConnected(Seq<char>),
    /// The agent of a token leaves that serves the session with the first number and is reached
    /// on the channel with the second.
    AgentDisconnected(Seq<char>, int, int),
    /// The retention time after the departure with this number is over.
    Expire(Seq<char>, int),
    WebAttached(Seq<char>),
}

/// The table after an operation.
pub open spec fn step(m: RelayModel, op: Step) -> RelayModel {
    match op {
        Step::AgentConnected(t) => m.agent_joined(t),
        Step::AgentDisconnected(t, id, to_agent) => m.agent_left(t, id, to_agent),
        Step::Expire(t, departure) => m.retention_ended(t, departure),
        Step::WebAttached(t) => m.web_joined(t),
    }
}

/// The table after a series of operations.
pub open spec fn run_from(m: RelayModel, ops: Seq<Step>) -> RelayModel
    decreases ops.len(),
{
    if ops.len() == 0 {
        m
    } else {
        step(run_from(m, ops.drop_last()), ops.last())
    }
}

/// The table after a series of operations on an empty one.
pub open spec fn run(ops: Seq<Step>) -> RelayModel {
    run_from(RelayModel::empty(), ops)
}

/// Every series of operations keeps a table well formed, and numbers are only ever added.
pub proof fn every_reachable_table_is_well_formed(m: RelayModel, ops: Seq<Step>)
    requires
        m.wf(),
    ensures
        run_from(m, ops).wf(),
        m.next_id <= run_from(m, ops).next_id <= m.next_id + ops.len(),
        run(ops).wf(),
    decreases ops.len(),
{
    if ops.len() > 0 {
        every_reachable_table_is_well_formed(m, ops.drop_last());
        step_keeps_wf(run_from(m, ops.drop_last()), ops.last());
        step_keeps_wf(run(ops.drop_last()), ops.last());
    }
}

proof fn step_keeps_wf(m: RelayModel, op: Step)
    requires
        m.wf(),
    ensures
        step(m, op).wf(),
        m.next_id <= step(m, op).next_id <= m.next_id + 1,
{
    match op {
        Step::AgentConnected(t) => crate::relay_facts::agent_joined_facts(m, t),
        Step::AgentDisconnected(t, id, to_agent) => {
            crate::relay_facts::agent_lost_facts(m, t);
            crate::relay_facts::seat_released_facts(m.session_left(t, to_agent), id);
        },
        Step::Expire(t, departure) => crate::relay_facts::retention_ended_facts(m, t, departure),
        Step::WebAttached(t) => crate::relay_facts::web_joined_facts(m, t),
    }
}

/// The channel of the agent that connected last under a token, as long as that agent has not left.
pub open spec fn serving(ops: Seq<Step>, token: Seq<char>) -> Option<int>
    decreases ops.len(),
{
    if ops.len() == 0 {
        None
    } else {
        let before = serving(ops.drop_last(), token);
        match ops.last() {
            Step::AgentConnected(t) if t == token => Some(
                run(ops.drop_last()).link(token).to_agent,
            ),
            Step::AgentDisconnected(t, _, to_agent) if t == token && before == Some(
                to_agent,
            ) => None,
            _ => before,
        }
    }
}

/// A session is online exactly while the agent that connected last under its token is connected,
/// whatever other agents of the token come and go, and it is reached on the channel of that agent:
/// a browser that arrives goes ahead exactly then, and its input goes to an agent that is there.
pub proof fn online_session_is_reached_on_a_connected_agent(ops: Seq<Step>, token: Seq<char>)
    ensures
        run(ops).online(token) <==> serving(ops, token) is Some,
        run(ops).online(token) ==> serving(ops, token) == Some(run(ops).sessions[token].to_agent),
        run(ops).admission(token) == Admission::<int>::Proceed <==> serving(ops, token) is Some,
        run(ops).admission(token) == Admission::<int>::Proceed ==> (run(ops).bridge(
            token,
        ) matches Some(bridge) && serving(ops, token) == Some(bridge.to_agent)),
    decreases ops.len(),
{
    if ops.len() > 0 {
        online_session_is_reached_on_a_connected_agent(ops.drop_last(), token);
    }
}

/// From an agent's arrival until it leaves or another agent of its token arrives, its session is
/// online and is reached on its channel, whatever else happens.
pub proof fn agent_keeps_its_channel(m: RelayModel, ops: Seq<Step>, token: Seq<char>)
    requires
        m.online(token),
        forall|i: int| 0 <= i < ops.len() ==> !is_change(#[trigger] ops[i], m, token),
    ensures
        run_from(m, ops).online(token),
        run_from(m, ops).sessions[token].to_agent == m.sessions[token].to_agent,
        run_from(m, ops).sessions[token].id == m.sessions[token].id,
    decreases ops.len(),
{
    if ops.len() > 0 {
        let before = ops.drop_last();
        assert forall|i: int| 0 <= i < before.len() implies !is_change(
            #[trigger] before[i],
            m,
            token,
        ) by {
            assert(before[i] == ops[i]);
        }
        agent_keeps_its_channel(m, before, token);
        assert(ops.last() == ops[ops.len() - 1]);
    }
}

/// An agent of a token arrives, or the one on whose channel its session is reached leaves.
pub open spec fn is_change(op: Step, m: RelayModel, token: Seq<char>) -> bool {
    match op {
        Step::AgentConnected(t) => t == token,
        Step::AgentDisconnected(t, _, to_agent) => t == token && to_agent
            == m.sessions[token].to_agent,
        _ => false,
    }
}

/// The browser that comes last to a session takes its seat: it is shown what the agents send from
/// then on, and nobody else is; the browser before it loses its channel, which no table refers to
/// any more; and the session, its agents and their channel stay as they are.
pub proof fn newest_browser_takes_the_seat(m: RelayModel, token: Seq<char>, data: Seq<u8>)
    requires
        m.wf(),
        m.has(token),
    ensures
        ({
            let n = m.web_joined(token);
            &&& m.bridge(token) matches Some(bridge)
            &&& bridge.kicked == m.viewer(token)
            &&& n.viewer(token) == Some(bridge.web)
            &&& !m.channels().contains(bridge.web)
            &&& crate::server::delivery(
                n,
                m.sessions[token].id,
                Inbound::Binary(data),
            ) == Delivery::To(bridge.web, data)
            &&& forall|id: int| #[trigger]
                n.seated(id) == Some(bridge.web) ==> id == m.sessions[token].id
            &&& m.viewer(token) matches Some(former) ==> former != bridge.web
                && !n.channels().contains(former)
            &&& n.sessions == m.sessions
        }),
{
    step_keeps_wf(m, Step::WebAttached(token));
    channels_are_conserved(m, token, 0, 0, 0);
    let n = m.web_joined(token);
    assert(m.seats.contains_key(m.sessions[token].id));
    assert(n.has(token));
    assert forall|id: int| #[trigger] n.seated(id) == Some(m.next_id) implies id
        == m.sessions[token].id by {
        assert(n.seats.contains_key(id));
    }
    if let Some(former) = m.viewer(token) {
        assert(m.channels().contains(former));
    }
}

/// A browser keeps its seat, and with it the output of the session's agents, until another browser
/// comes to the session or the session has no agent any more, whatever else happens.
pub proof fn seat_is_kept(m: RelayModel, ops: Seq<Step>, token: Seq<char>)
    requires
        m.wf(),
        forall|n: int|
            0 <= n <= ops.len() ==> (#[trigger] run_from(m, ops.take(n))).online(token),
        forall|i: int| 0 <= i < ops.len() ==> (#[trigger] ops[i]) != Step::WebAttached(token),
    ensures
        run_from(m, ops).online(token),
        run_from(m, ops).sessions[token].id == m.sessions[token].id,
        run_from(m, ops).viewer(token) == m.viewer(token),
    decreases ops.len(),
{
    assert(ops.take(ops.len() as int) =~= ops);
    if ops.len() > 0 {
        let before = ops.drop_last();
        assert forall|n: int| 0 <= n <= before.len() implies (#[trigger] run_from(
            m,
            before.take(n),
        )).online(token) by {
            assert(before.take(n) =~= ops.take(n));
        }
        assert forall|i: int| 0 <= i < before.len() implies (#[trigger] before[i])
            != Step::WebAttached(token) by {
            assert(before[i] == ops[i]);
        }
        seat_is_kept(m, before, token);
        assert(run_from(m, ops.take(ops.len() as int)).online(token));
        assert(ops.last() == ops[ops.len() - 1]);
        let n = run_from(m, before);
        every_reachable_table_is_well_formed(m, before);
        assert(n.seats.contains_key(n.sessions[token].id));
        match ops.last() {
            Step::AgentConnected(t) => {
                if t != token {
                    tokens_do_not_interfere(n, t, token, 0, 0, 0);
                }
            },
            Step::AgentDisconnected(t, id, to_agent) => {
                if t != token {
                    tokens_do_not_interfere(n, t, token, id, to_agent, 0);
                }
            },
            Step::Expire(t, departure) => {
                if t != token {
                    tokens_do_not_interfere(n, t, token, 0, 0, departure);
                }
            },
            Step::WebAttached(t) => {
                if t != token {
                    tokens_do_not_interfere(n, t, token, 0, 0, 0);
                }
            },
        }
    }
}

/// A channel that was released is never used again: a browser that lost its seat is never shown
/// anything any more.
pub proof fn released_channel_stays_released(m: RelayModel, ops: Seq<Step>, channel: int)
    requires
        m.wf(),
        channel < m.next_id,
        !m.channels().contains(channel),
    ensures
        !run_from(m, ops).channels().contains(channel),
        forall|id: int| #[trigger] run_from(m, ops).seated(id) != Some(channel),
    decreases ops.len(),
{
    let n = run_from(m, ops);
    if ops.len() > 0 {
        let before = run_from(m, ops.drop_last());
        released_channel_stays_released(m, ops.drop_last(), channel);
        every_reachable_table_is_well_formed(m, ops.drop_last());
        match ops.last() {
            Step::AgentConnected(t) => channels_are_conserved(before, t, 0, 0, 0),
            Step::AgentDisconnected(t, id, to_agent) => channels_are_conserved(
                before,
                t,
                id,
                to_agent,
                0,
            ),
            Step::Expire(t, departure) => channels_are_conserved(before, t, 0, 0, departure),
            Step::WebAttached(t) => channels_are_conserved(before, t, 0, 0, 0),
        }
    }
    assert forall|id: int| #[trigger] n.seated(id) != Some(channel) by {
        if n.seated(id) == Some(channel) {
            assert(n.seats.contains_key(id));
            assert(n.is_web_channel(channel));
            assert(n.channels().contains(channel));
        }
    }
}

/// The channels that the table refers to are the ones that were handed out and not released: each
/// operation adds the channel that it hands out, which was not in use, and takes away the ones
/// that it releases.
pub proof fn channels_are_conserved(
    m: RelayModel,
    token: Seq<char>,
    id: int,
    to_agent: int,
    departure: int,
)
    requires
        m.wf(),
    ensures
        !m.channels().contains(m.next_id),
        m.link(token).to_agent == m.next_id,
        m.agent_joined(token).channels() == crate::relay::without(
            m.channels(),
            m.link(token).resumed,
        ).insert(m.link(token).to_agent),
        m.agent_left(token, id, to_agent).channels() == crate::relay::without(
            crate::relay::without(m.channels(), m.gone(token, id, to_agent).viewer),
            m.gone(token, id, to_agent).orphan,
        ),
        match m.expiry(token, departure) {
            Some(e) => m.retention_ended(token, departure).channels() == crate::relay::without(
                m.channels().remove(e.to_agent),
                e.viewer,
            ),
            None => m.retention_ended(token, departure).channels() == m.channels(),
        },
        match m.bridge(token) {
            Some(bridge) => bridge.web == m.next_id && m.web_joined(token).channels()
                == crate::relay::without(m.channels(), bridge.kicked).insert(bridge.web),
            None => m.web_joined(token).channels() == m.channels(),
        },
{
    crate::relay_facts::agent_joined_facts(m, token);
    crate::relay_facts::agent_lost_facts(m, token);
    crate::relay_facts::seat_released_facts(m.session_left(token, to_agent), id);
    crate::relay_facts::retention_ended_facts(m, token, departure);
    crate::relay_facts::web_joined_facts(m, token);
}

/// A token has the same session in two tables, shown to the same browser, or none in both.
pub open spec fn same_session(m: RelayModel, n: RelayModel, token: Seq<char>) -> bool {
    &&& n.has(token) == m.has(token)
    &&& m.has(token) ==> n.sessions[token] == m.sessions[token]
    &&& n.viewer(token) == m.viewer(token)
}

/// What happens under one token leaves the session of every other token as it was.
pub proof fn tokens_do_not_interfere(
    m: RelayModel,
    token: Seq<char>,
    other: Seq<char>,
    id: int,
    to_agent: int,
    departure: int,
)
    requires
        m.wf(),
        other != token,
    ensures
        same_session(m, m.agent_joined(token), other),
        same_session(m, m.agent_left(token, id, to_agent), other),
        same_session(m, m.retention_ended(token, departure), other),
        same_session(m, m.web_joined(token), other),
{
    if m.has(other) {
        assert(m.seats.contains_key(m.sessions[other].id));
        if m.has(token) {
            assert(m.seats.contains_key(m.sessions[token].id));
        }
    }
}

/// Two sessions are never shown to the same browser, nor reached on the same channel.
pub proof fn sessions_share_nothing(m: RelayModel, token: Seq<char>, other: Seq<char>)
    requires
        m.wf(),
        m.has(token),
        m.has(other),
        other != token,
    ensures
        m.sessions[token].id != m.sessions[other].id,
        m.sessions[token].to_agent != m.sessions[other].to_agent,
        m.viewer(token) is Some ==> m.viewer(token) != m.viewer(other),
        m.viewer(token) != Some(m.sessions[other].to_agent),
{
    assert(m.seats.contains_key(m.sessions[token].id));
    assert(m.seats.contains_key(m.sessions[other].id));
    assert(m.is_agent_channel(m.sessions[other].to_agent));
}

/// An agent that leaves when another one that is online has succeeded it leaves the session alone:
/// the session stays online on the channel of its successor, keeps its browser, and does not
/// expire.
pub proof fn succeeded_agent_leaves_the_session_alone(
    m: RelayModel,
    token: Seq<char>,
    id: int,
    to_agent: int,
    departure: int,
)
    requires
        m.wf(),
        m.succeeded(token, to_agent),
    ensures
        same_session(m, m.agent_left(token, id, to_agent), token),
        m.agent_left(token, id, to_agent).online(token),
        m.gone(token, id, to_agent).departure is None,
        m.gone(token, id, to_agent).viewer is None,
        m.agent_left(token, id, to_agent).retention_ended(token, departure) == m.agent_left(
            token,
            id,
            to_agent,
        ),
{
    assert(m.seats.contains_key(m.sessions[token].id));
}

/// When the agent that connected last leaves, its token's session stays on the table under its
/// number, is shown to nobody, and makes the browsers that arrive wait for an agent, whether or
/// not an agent that it had succeeded is still connected.
pub proof fn session_outlives_its_agent(m: RelayModel, token: Seq<char>, id: int)
    requires
        m.wf(),
        m.online(token),
    ensures
        ({
            let to_agent = m.sessions[token].to_agent;
            let n = m.agent_left(token, id, to_agent);
            &&& n.has(token)
            &&& n.viewer(token) is None
            &&& n.admission(token) == Admission::Wait(m.sessions[token].id)
            &&& n.away_since(token, to_agent)
            &&& m.gone(token, id, to_agent).departure == Some(to_agent)
            &&& m.gone(token, id, to_agent).viewer == m.viewer(token)
        }),
{
    assert(m.seats.contains_key(m.sessions[token].id));
}

/// An agent that connects to a session that exists resumes it: the number under which browsers
/// wait and the browser that is shown it are unchanged, and it is online.
pub proof fn agent_resumes_its_session(m: RelayModel, token: Seq<char>)
    requires
        m.wf(),
        m.has(token),
    ensures
        m.link(token).session == m.sessions[token].id,
        m.agent_joined(token).sessions[token].id == m.sessions[token].id,
        m.agent_joined(token).viewer(token) == m.viewer(token),
        m.agent_joined(token).online(token),
        m.agent_joined(token).admission(token) == Admission::<int>::Proceed,
{
    assert(m.seats.contains_key(m.sessions[token].id));
}

/// The end of a retention time takes away a session that has been without agent since, and no
/// other: one whose agent is online stays, and so does one whose agent left again later.
pub proof fn retention_spares_the_returned(m: RelayModel, token: Seq<char>, departure: int, id: int)
    requires
        m.wf(),
    ensures
        m.online(token) ==> m.retention_ended(token, departure) == m,
        m.away_since(token, departure) ==> m.retention_ended(token, departure).admission(token)
            == Admission::<int>::Refuse,
        departure < m.next_id ==> {
            let back = m.agent_joined(token);
            let again = back.agent_left(token, id, m.link(token).to_agent);
            &&& back.retention_ended(token, departure) == back
            &&& again.retention_ended(token, departure) == again
        },
{
}

/// An agent that connects after its session went starts another one, which has a number of its
/// own and is shown to nobody.
pub proof fn expired_session_is_not_resumed(m: RelayModel, token: Seq<char>, departure: int)
    requires
        m.wf(),
        m.away_since(token, departure),
    ensures
        ({
            let n = m.retention_ended(token, departure).agent_joined(token);
            &&& n.sessions[token].id != m.sessions[token].id
            &&& n.viewer(token) is None
            &&& n.admission(token) == Admission::<int>::Proceed
        }),
{
    assert(m.has(token));
    assert(m.seats.contains_key(m.sessions[token].id));
}

/// A browser that arrives while the agent is online gets the seat of its session in two stages,
/// and one that waited for an agent that is back gets it in one more.
pub proof fn browser_is_bridged_to_its_session(m: RelayModel, token: Seq<char>, signalled: bool)
    requires
        m.wf(),
        m.has(token),
    ensures
        ({
            let id = m.sessions[token].id;
            let seated = m.next_stage(token, WebStage::Admitted, signalled);
            &&& m.online(token) ==> m.next_stage(token, WebStage::Arriving, signalled)
                == WebStage::<int>::Admitted
            &&& !m.online(token) ==> m.next_stage(token, WebStage::Arriving, signalled)
                == WebStage::Waiting(id)
            &&& m.next_stage(token, WebStage::Waiting(id), true) == WebStage::<int>::Admitted
            &&& seated matches WebStage::Bridged(bridge) && bridge.to_agent
                == m.sessions[token].to_agent && m.web_joined(token).viewer(token) == Some(
                bridge.web,
            )
        }),
{
}

/// A browser is turned away when there is no session for its token, whether it just arrived or
/// was about to take the seat, and when its wait was in vain.
pub proof fn unserved_browser_is_closed(m: RelayModel, token: Seq<char>, id: int, signalled: bool)
    ensures
        !m.has(token) ==> {
            &&& m.next_stage(token, WebStage::Arriving, signalled) == WebStage::<int>::Closed
            &&& m.next_stage(token, WebStage::Admitted, signalled) == WebStage::<int>::Closed
            &&& m.web_joined(token) == m
        },
        m.next_stage(token, WebStage::Waiting(id), false) == WebStage::<int>::Closed,
{
}

/// The operation at `i` is the departure, with number `departure`, that takes a token's session
/// offline.
pub open spec fn is_departure(ops: Seq<Step>, i: int, token: Seq<char>, departure: int) -> bool {
    &&& 0 <= i < ops.len()
    &&& ops[i] matches Step::AgentDisconnected(t, id, to_agent) && t == token && run(
        ops.take(i),
    ).gone(token, id, to_agent).departure == Some(departure)
}

/// The operation at `j` ends the retention time of a departure.
pub open spec fn is_expiry(ops: Seq<Step>, j: int, token: Seq<char>, departure: int) -> bool {
    0 <= j < ops.len() && ops[j] == Step::Expire(token, departure)
}

/// No retention time ends but as long after its departure as sessions are retained.
#[verifier::opaque]
pub open spec fn ends_are_due(ops: Seq<Step>, at: Seq<int>) -> bool {
    forall|j: int, token: Seq<char>, departure: int| #[trigger]
        is_expiry(ops, j, token, departure) ==> exists|i: int| #[trigger]
            is_departure(ops, i, token, departure) && i < j && at[i] + SESSION_RETAIN_SECS == at[j]
}

/// Every retention time ends: before an operation that comes later, its end has come.
#[verifier::opaque]
pub open spec fn ends_are_kept(ops: Seq<Step>, at: Seq<int>) -> bool {
    forall|i: int, k: int, token: Seq<char>, departure: int| #[trigger]
        is_departure(ops, i, token, departure) && 0 <= k < ops.len() && at[i] + SESSION_RETAIN_SECS
            < #[trigger] at[k] ==> exists|j: int| #[trigger]
            is_expiry(ops, j, token, departure) && i < j < k && at[i] + SESSION_RETAIN_SECS == at[j]
}

/// Operations with the second at which each takes place, in order, where every departure is
/// followed by the end of its retention time, on time.
pub open spec fn is_timed(ops: Seq<Step>, at: Seq<int>) -> bool {
    &&& ops.len() == at.len()
    &&& forall|i: int, j: int| 0 <= i <= j < at.len() ==> at[i] <= at[j]
    &&& ends_are_due(ops, at)
    &&& ends_are_kept(ops, at)
}

proof fn departure_of(ops: Seq<Step>, at: Seq<int>, j: int, token: Seq<char>, departure: int) -> (i:
    int)
    requires
        ends_are_due(ops, at),
        is_expiry(ops, j, token, departure),
    ensures
        is_departure(ops, i, token, departure),
        i < j,
        at[i] + SESSION_RETAIN_SECS == at[j],
{
    reveal(ends_are_due);
    choose|i: int| #[trigger]
        is_departure(ops, i, token, departure) && i < j && at[i] + SESSION_RETAIN_SECS == at[j]
}

proof fn end_of(
    ops: Seq<Step>,
    at: Seq<int>,
    i: int,
    k: int,
    token: Seq<char>,
    departure: int,
) -> (j: int)
    requires
        ends_are_kept(ops, at),
        is_departure(ops, i, token, departure),
        0 <= k < ops.len(),
        at[i] + SESSION_RETAIN_SECS < at[k],
    ensures
        is_expiry(ops, j, token, departure),
        i < j < k,
        at[i] + SESSION_RETAIN_SECS == at[j],
{
    reveal(ends_are_kept);
    choose|j: int| #[trigger]
        is_expiry(ops, j, token, departure) && i < j < k && at[i] + SESSION_RETAIN_SECS == at[j]
}

proof fn run_unfolds(ops: Seq<Step>, n: int)
    requires
        0 <= n < ops.len(),
    ensures
        run(ops.take(n + 1)) == step(run(ops.take(n)), ops[n]),
{
    assert(ops.take(n + 1).drop_last() =~= ops.take(n));
    assert(ops.take(n + 1).last() == ops[n]);
}

/// After a departure no agent is ever connected on the channel that gives it its number.
proof fn departed_channel_is_dead(ops: Seq<Step>, i: int, n: int, token: Seq<char>, departure: int)
    requires
        is_departure(ops, i, token, departure),
        i < n <= ops.len(),
    ensures
        departure < run(ops.take(n)).next_id,
        forall|t: Seq<char>| #[trigger]
            run(ops.take(n)).has(t) && run(ops.take(n)).sessions[t].to_agent == departure
                ==> !run(ops.take(n)).online(t),
    decreases n,
{
    let m = run(ops.take(n - 1));
    every_reachable_table_is_well_formed(RelayModel::empty(), ops.take(n - 1));
    run_unfolds(ops, n - 1);
    if n == i + 1 {
        assert(m.has(token));
    } else {
        departed_channel_is_dead(ops, i, n - 1, token, departure);
    }
    let after = run(ops.take(n));
    assert forall|t: Seq<char>| #[trigger]
        after.has(t) && after.sessions[t].to_agent == departure implies !after.online(t) by {
        assert(m.has(t) || ops[n - 1] == Step::AgentConnected(t));
    }
}

/// No two departures have the same number.
pub proof fn departures_are_numbered_apart(
    ops: Seq<Step>,
    i: int,
    j: int,
    token: Seq<char>,
    other: Seq<char>,
    departure: int,
)
    requires
        is_departure(ops, i, token, departure),
        is_departure(ops, j, other, departure),
    ensures
        i == j,
{
    if i < j {
        departed_channel_is_dead(ops, i, j, token, departure);
        assert(run(ops.take(j)).has(other));
    } else if j < i {
        departed_channel_is_dead(ops, j, i, other, departure);
        assert(run(ops.take(i)).has(token));
    }
}

/// From the time at which an agent left, its session is online or has been without agent since a
/// departure that is no earlier.
proof fn away_since_no_earlier(
    ops: Seq<Step>,
    at: Seq<int>,
    token: Seq<char>,
    left: int,
    n: int,
) -> (since: int)
    requires
        is_timed(ops, at),
        0 <= left < n <= ops.len(),
        ops[left] matches Step::AgentDisconnected(t, _, _) && t == token,
        run(ops.take(left)).online(token),
        at[n - 1] < at[left] + SESSION_RETAIN_SECS,
    ensures
        run(ops.take(n)).has(token),
        run(ops.take(n)).online(token) || (left <= since < n && is_departure(
            ops,
            since,
            token,
            run(ops.take(n)).sessions[token].to_agent,
        )),
    decreases n,
{
    let m = run(ops.take(n - 1));
    run_unfolds(ops, n - 1);
    if n == left + 1 {
        left
    } else {
        assert(at[n - 2] <= at[n - 1]);
        let since = away_since_no_earlier(ops, at, token, left, n - 1);
        if m.online(token) {
            n - 1
        } else {
            let departure = m.sessions[token].to_agent;
            if ops[n - 1] == Step::Expire(token, departure) {
                assert(is_expiry(ops, n - 1, token, departure));
                let i = departure_of(ops, at, n - 1, token, departure);
                departures_are_numbered_apart(ops, i, since, token, token, departure);
                assert(at[left] <= at[since]);
                assert(false);
            }
            since
        }
    }
}

/// A session is retained for its full time after its agent left: it is still there after every
/// operation that comes sooner, however often its agents have come and gone before or since.
pub proof fn session_is_retained(
    ops: Seq<Step>,
    at: Seq<int>,
    token: Seq<char>,
    left: int,
    now: int,
)
    requires
        is_timed(ops, at),
        0 <= left <= now < ops.len(),
        ops[left] matches Step::AgentDisconnected(t, _, _) && t == token,
        run(ops.take(left)).online(token),
        at[now] < at[left] + SESSION_RETAIN_SECS,
    ensures
        run(ops.take(now + 1)).has(token),
{
    let since = away_since_no_earlier(ops, at, token, left, now + 1);
}

/// Without an arrival after a departure, a session is gone or has been away since that departure.
proof fn away_until_arrival(
    ops: Seq<Step>,
    token: Seq<char>,
    departure: int,
    left: int,
    n: int,
)
    requires
        is_departure(ops, left, token, departure),
        left < n <= ops.len(),
        forall|i: int| left < i < n ==> (#[trigger] ops[i]) != Step::AgentConnected(token),
    ensures
        run(ops.take(n)).has(token) ==> run(ops.take(n)).away_since(token, departure),
    decreases n,
{
    run_unfolds(ops, n - 1);
    if n > left + 1 {
        away_until_arrival(ops, token, departure, left, n - 1);
        assert(ops[n - 1] != Step::AgentConnected(token));
    }
}

/// A session whose last agent left and did not come back is off the table when its time is over:
/// it is not there after any operation that comes later, until an agent of its token connects.
pub proof fn session_goes_after_its_time(
    ops: Seq<Step>,
    at: Seq<int>,
    token: Seq<char>,
    departure: int,
    left: int,
    now: int,
)
    requires
        is_timed(ops, at),
        is_departure(ops, left, token, departure),
        left < now < ops.len(),
        forall|i: int| left < i <= now ==> (#[trigger] ops[i]) != Step::AgentConnected(token),
        at[left] + SESSION_RETAIN_SECS < at[now],
    ensures
        !run(ops.take(now + 1)).has(token),
{
    let ended = end_of(ops, at, left, now, token, departure);
    away_until_arrival(ops, token, departure, left, ended);
    run_unfolds(ops, ended);
    stays_gone(ops, token, ended + 1, now + 1);
}

/// Only an arrival puts a session on the table.
proof fn stays_gone(ops: Seq<Step>, token: Seq<char>, from: int, n: int)
    requires
        0 <= from <= n <= ops.len(),
        !run(ops.take(from)).has(token),
        forall|i: int| from <= i < n ==> (#[trigger] ops[i]) != Step::AgentConnected(token),
    ensures
        !run(ops.take(n)).has(token),
    decreases n,
{
    if n > from {
        stays_gone(ops, token, from, n - 1);
        run_unfolds(ops, n - 1);
        assert(ops[n - 1] != Step::AgentConnected(token));
    }
}

/// A session whose agent is back when its retention time is over stays: while the agent that
/// connected last is connected, no end of a retention time takes its session away.
pub proof fn returned_agent_keeps_its_session(ops: Seq<Step>, token: Seq<char>, departure: int)
    requires
        serving(ops, token) is Some,
    ensures
        run(ops).has(token),
        run(ops.push(Step::Expire(token, departure))) == run(ops),
{
    online_session_is_reached_on_a_connected_agent(ops, token);
    assert(ops.push(Step::Expire(token, departure)).drop_last() =~= ops);
}

/// What the table is asked about is read from its maps as they are.
pub proof fn questions_read_the_table(m: RelayModel, token: Seq<char>, id: int)
    ensures
        RelayModel::empty().sessions.dom() =~= Set::<Seq<char>>::empty(),
        RelayModel::empty().seats.dom() =~= Set::<int>::empty(),
        RelayModel::empty().next_id == 0,
        m.has(token) <==> m.sessions.contains_key(token),
        m.online(token) <==> m.sessions.contains_key(token) && m.sessions[token].agent_online,
        m.seats.contains_key(id) ==> m.seated(id) == m.seats[id].web,
        !m.seats.contains_key(id) ==> m.seated(id) is None,
        m.sessions.contains_key(token) ==> m.viewer(token) == m.seated(m.sessions[token].id),
        !m.sessions.contains_key(token) ==> m.viewer(token) is None,
{
}

/// The numbers that a connecting agent gets are those of its token's session afterwards, whether
/// the session is new or resumed: it is online, reached on a channel that nothing used before. A
/// resumed session is the one that there was, with its seat and browser; a new one has a seat of
/// its own, which no browser has taken. The other sessions and seats stay as they are.
pub proof fn arriving_agent_serves_its_session(m: RelayModel, token: Seq<char>)
    requires
        m.wf(),
    ensures
        ({
            let n = m.agent_joined(token);
            let link = m.link(token);
            &&& n.sessions.contains_key(token)
            &&& link.session == n.sessions[token].id
            &&& link.to_agent == n.sessions[token].to_agent
            &&& n.sessions[token].agent_online
            &&& link.to_agent == m.next_id
            &&& n.next_id == m.next_id + 1
            &&& n.seats.contains_key(link.session)
            &&& n.seats[link.session].listed
            &&& m.sessions.contains_key(token) ==> {
                &&& link.session == m.sessions[token].id
                &&& link.resumed == Some(m.sessions[token].to_agent)
                &&& n.seats[link.session].web == m.seats[link.session].web
                &&& n.seats[link.session].agents == m.seats[link.session].agents + 1
            }
            &&& !m.sessions.contains_key(token) ==> {
                &&& link.session == m.next_id
                &&& !m.seats.contains_key(link.session)
                &&& link.resumed is None
                &&& n.seats[link.session].web is None
                &&& n.seats[link.session].agents == 1
            }
            &&& n.sessions.remove(token) =~= m.sessions.remove(token)
            &&& n.seats.remove(link.session) =~= m.seats.remove(link.session)
        }),
{
    if m.has(token) {
        assert(m.seats.contains_key(m.sessions[token].id));
    }
    if m.seats.contains_key(m.next_id) {
        assert(m.next_id < m.next_id);
    }
}

/// When a browser joins the token under which an agent has connected, the agent's bytes, under the
/// session number that it got, go to that browser, and the browser's input goes to that agent.
pub proof fn arriving_agent_is_shown_to_the_next_browser(
    m: RelayModel,
    token: Seq<char>,
    data: Seq<u8>,
)
    requires
        m.wf(),
    ensures
        ({
            let n = m.agent_joined(token);
            &&& n.bridge(token) matches Some(bridge)
            &&& bridge.to_agent == m.link(token).to_agent
            &&& crate::server::delivery(
                n.web_joined(token),
                m.link(token).session,
                Inbound::Binary(data),
            ) == Delivery::To(bridge.web, data)
        }),
{
    arriving_agent_serves_its_session(m, token);
}

/// What a leaving agent does to the sessions, by what its token's session is: nothing where there
/// is none or where another agent that is online has taken over; otherwise the session goes
/// offline under its number and channel and loses its browser, which is handed back, and a
/// departure is counted, under the agent's channel, where the session was online.
pub proof fn leaving_agent_takes_its_session_offline(
    m: RelayModel,
    token: Seq<char>,
    id: int,
    to_agent: int,
)
    requires
        m.wf(),
    ensures
        ({
            let n = m.agent_left(token, id, to_agent);
            let gone = m.gone(token, id, to_agent);
            let s = m.sessions[token];
            let lost = m.sessions.contains_key(token) && (!s.agent_online || s.to_agent == to_agent);
            &&& n.next_id == m.next_id
            &&& n.sessions.dom() =~= m.sessions.dom()
            &&& n.sessions.remove(token) =~= m.sessions.remove(token)
            &&& !lost ==> {
                &&& n.sessions =~= m.sessions
                &&& gone.departure is None
                &&& gone.viewer is None
            }
            &&& lost ==> {
                &&& n.sessions[token].id == s.id
                &&& n.sessions[token].to_agent == s.to_agent
                &&& !n.sessions[token].agent_online
                &&& n.seats.contains_key(s.id)
                &&& n.seats[s.id].web is None
                &&& gone.viewer == m.seats[s.id].web
                &&& gone.departure is Some <==> s.agent_online
                &&& gone.departure is Some ==> gone.departure == Some(to_agent)
            }
        }),
{
    if m.has(token) {
        assert(m.seats.contains_key(m.sessions[token].id));
    }
}

/// What a leaving agent does to the seats: its own has one agent less and goes, with its browser,
/// when nothing refers to it any more; the browsers on the seats stay, but for the one that its
/// session loses; and every other seat stays as it is.
pub proof fn leaving_agent_gives_up_its_seat(
    m: RelayModel,
    token: Seq<char>,
    id: int,
    to_agent: int,
    i: int,
)
    requires
        m.wf(),
    ensures
        ({
            let n = m.agent_left(token, id, to_agent);
            let gone = m.gone(token, id, to_agent);
            let s = m.sessions[token];
            let lost = m.sessions.contains_key(token) && (!s.agent_online || s.to_agent == to_agent);
            let last = m.seats.contains_key(id) && m.seats[id].agents == 1 && !m.seats[id].listed;
            &&& last ==> !n.seats.contains_key(id) && gone.orphan == m.seats[id].web
            &&& !last ==> gone.orphan is None
            &&& n.seats.contains_key(i) <==> m.seats.contains_key(i) && !(last && i == id)
            &&& n.seats.contains_key(i) ==> {
                &&& n.seats[i].listed == m.seats[i].listed
                &&& i != id || m.seats[i].agents == 0 ==> n.seats[i].agents == m.seats[i].agents
                &&& i == id && m.seats[i].agents > 0 ==> n.seats[i].agents == m.seats[i].agents - 1
                &&& !(lost && i == s.id) ==> n.seats[i].web == m.seats[i].web
            }
        }),
{
    if m.has(token) {
        assert(m.seats.contains_key(m.sessions[token].id));
    }
}

/// What the end of a retention time does: it takes away the token's session where that has been
/// without agent since the departure, with its seat and browser where no agent sends there any
/// more, and changes nothing else.
pub proof fn retention_takes_the_session(m: RelayModel, token: Seq<char>, departure: int)
    requires
        m.wf(),
    ensures
        ({
            let n = m.retention_ended(token, departure);
            let s = m.sessions[token];
            let over = m.sessions.contains_key(token) && !s.agent_online && s.to_agent == departure;
            &&& !over ==> n == m && m.expiry(token, departure) is None
            &&& over ==> {
                &&& m.expiry(token, departure) matches Some(e)
                &&& e.session == s.id
                &&& e.to_agent == s.to_agent
                &&& n.sessions =~= m.sessions.remove(token)
                &&& n.seats.remove(s.id) =~= m.seats.remove(s.id)
                &&& n.next_id == m.next_id
                &&& m.seats[s.id].agents == 0 ==> {
                    &&& !n.seats.contains_key(s.id)
                    &&& e.viewer == m.seats[s.id].web
                }
                &&& m.seats[s.id].agents != 0 ==> {
                    &&& e.viewer is None
                    &&& n.seats.contains_key(s.id)
                    &&& !n.seats[s.id].listed
                    &&& n.seats[s.id].web == m.seats[s.id].web
                    &&& n.seats[s.id].agents == m.seats[s.id].agents
                }
            }
        }),
{
    if m.has(token) {
        assert(m.seats.contains_key(m.sessions[token].id));
    }
}

/// What a browser that joins does: it takes the seat of its token's session, on a channel that
/// nothing used before, is bridged to the session's agent, and the browser before it is handed
/// back. Nothing else changes, and nothing at all where there is no session.
pub proof fn joining_browser_takes_the_seat(m: RelayModel, token: Seq<char>)
    requires
        m.wf(),
    ensures
        ({
            let n = m.web_joined(token);
            let s = m.sessions[token];
            &&& !m.sessions.contains_key(token) ==> n == m && m.bridge(token) is None
            &&& m.sessions.contains_key(token) ==> {
                &&& m.bridge(token) matches Some(bridge)
                &&& bridge.to_agent == s.to_agent
                &&& bridge.web == m.next_id
                &&& bridge.kicked == m.seats[s.id].web
                &&& n.next_id == m.next_id + 1
                &&& n.sessions =~= m.sessions
                &&& n.seats.contains_key(s.id)
                &&& n.seats[s.id].web == Some(bridge.web)
                &&& n.seats[s.id].agents == m.seats[s.id].agents
                &&& n.seats[s.id].listed == m.seats[s.id].listed
                &&& n.seats.remove(s.id) =~= m.seats.remove(s.id)
            }
        }),
{
    if m.has(token) {
        assert(m.seats.contains_key(m.sessions[token].id));
    }
}

/// A browser that arrives is refused exactly where its token has no session, goes ahead exactly
/// where the session's agent is online, and otherwise waits for that session.
pub proof fn arriving_browser_is_told(m: RelayModel, token: Seq<char>)
    ensures
        m.admission(token) is Refuse <==> !m.sessions.contains_key(token),
        m.admission(token) is Proceed <==> m.sessions.contains_key(token)
            && m.sessions[token].agent_online,
        m.admission(token) matches Admission::Wait(id) ==> id == m.sessions[token].id,
{
}

/// The stages of a browser, whatever the table: it is judged on arrival, a wait ends with the seat
/// or with the connection as the signal came or not, a browser that is admitted is bridged where
/// there is a session, and nothing follows the bridge or the end.
pub proof fn stages_in_order(
    m: RelayModel,
    token: Seq<char>,
    stage: WebStage<int>,
    signalled: bool,
)
    ensures
        ({
            let next = m.next_stage(token, stage, signalled);
            let known = m.sessions.contains_key(token);
            &&& stage is Arriving ==> {
                &&& next is Closed <==> !known
                &&& next is Admitted <==> known && m.sessions[token].agent_online
                &&& known && !m.sessions[token].agent_online ==> next == WebStage::Waiting(
                    m.sessions[token].id,
                )
            }
            &&& stage is Waiting && signalled ==> next is Admitted
            &&& stage is Waiting && !signalled ==> next is Closed
            &&& stage is Admitted && !known ==> next is Closed
            &&& stage is Admitted && known ==> (next matches WebStage::Bridged(bridge) && m.bridge(
                token,
            ) == Some(bridge) && bridge.to_agent == m.sessions[token].to_agent)
            &&& stage is Bridged || stage is Closed ==> next == stage
        }),
{
}

/// Sessions are retained for thirty seconds, browsers wait as long, pings come every twenty-five
/// seconds, and a channel holds 256 messages.
pub proof fn times_and_limits()
    ensures
        SESSION_RETAIN_SECS == 30,
        crate::relay::WAIT_AGENT_TIMEOUT_SECS == 30,
        crate::relay::PING_INTERVAL_SECS == 25,
        crate::relay::CHANNEL_CAPACITY == 256,
{
}

} // verus!
