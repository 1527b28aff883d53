//! What callers of the session table get, call by call and over several calls.

use crate::relay::Admission;
use crate::relay::AgentGone;
use crate::relay::AgentLink;
use crate::relay::Bridge;
use crate::relay::Expired;
use crate::relay::Relay;
use crate::relay::WebStage;
use crate::server::on_agent_message;
use crate::server::Delivery;
use crate::ws::Inbound;
use vstd::prelude::*;

verus! {

/// A new table knows no token, shows nothing to anybody, and has room.
pub proof fn new_table_is_empty(
    relay: Relay,
    token: &str,
    admission: Admission<u64>,
    id: u64,
    target: Option<u64>,
    room: bool,
)
    requires
        call_ensures(Relay::new, (), relay),
        call_ensures(Relay::web_arrived, (&relay, token), admission),
        call_ensures(Relay::output_target, (&relay, id), target),
        call_ensures(Relay::has_room, (&relay,), room),
    ensures
        relay@.wf(),
        relay@.next_id == 0,
        admission is Refuse,
        target is None,
        room,
{
}

/// There is room as long as a number is left to hand out.
pub proof fn room_is_left(relay: &Relay, room: bool)
    requires
        call_ensures(Relay::has_room, (relay,), room),
    ensures
        room <==> relay@.next_id < 0xffff_ffff_ffff_ffff,
{
}

/// An agent that connects is told the numbers that the table has for its session afterwards. Its
/// token's browsers go ahead from then on. The former channel is handed back where there was a
/// session, and otherwise the agent's output goes to nobody yet.
pub proof fn connecting(
    relay: &mut Relay,
    token: &str,
    link: AgentLink<u64>,
    after: &Relay,
    admission: Admission<u64>,
    target: Option<u64>,
)
    requires
        old(relay)@.wf(),
        old(relay)@.next_id < u64::MAX,
        call_ensures(Relay::agent_connected, (relay, token), link),
        *after == *final(relay),
        call_ensures(Relay::web_arrived, (after, token), admission),
        call_ensures(Relay::output_target, (after, link.session), target),
    ensures
        final(relay)@.wf(),
        final(relay)@ == old(relay)@.agent_joined(token@),
        link.session == final(relay)@.sessions[token@].id,
        link.to_agent == final(relay)@.sessions[token@].to_agent,
        link.to_agent == old(relay)@.next_id,
        admission is Proceed,
        match link.resumed {
            Some(former) => old(relay)@.sessions.contains_key(token@) && former == old(
                relay,
            )@.sessions[token@].to_agent && link.session == old(relay)@.sessions[token@].id,
            None => !old(relay)@.sessions.contains_key(token@) && link.session == old(
                relay,
            )@.next_id && target is None,
        },
{
    crate::relay_laws::arriving_agent_serves_its_session(old(relay)@, token@);
}

/// Output goes to the browser on the seat with the agent's session number.
pub proof fn targets(relay: &Relay, id: u64, target: Option<u64>)
    requires
        call_ensures(Relay::output_target, (relay, id), target),
    ensures
        match target {
            Some(web) => relay@.seats.contains_key(id as int) && relay@.seats[id as int].web == Some(
                web as int,
            ),
            None => !relay@.seats.contains_key(id as int) || relay@.seats[id as int].web is None,
        },
{
}

/// An agent that leaves changes the table as its departure says, and the numbers that are handed
/// back are the ones that the table drops.
pub proof fn disconnecting(
    relay: &mut Relay,
    token: &str,
    id: u64,
    to_agent: u64,
    gone: AgentGone<u64>,
)
    requires
        old(relay)@.wf(),
        call_ensures(Relay::agent_disconnected, (relay, token, id, to_agent), gone),
    ensures
        final(relay)@.wf(),
        final(relay)@ == old(relay)@.agent_left(token@, id as int, to_agent as int),
        ({
            let expected = old(relay)@.gone(token@, id as int, to_agent as int);
            &&& match gone.departure {
                Some(departure) => expected.departure == Some(departure as int) && departure
                    == to_agent,
                None => expected.departure is None,
            }
            &&& match gone.viewer {
                Some(web) => expected.viewer == Some(web as int),
                None => expected.viewer is None,
            }
            &&& match gone.orphan {
                Some(web) => expected.orphan == Some(web as int),
                None => expected.orphan is None,
            }
        }),
{
    crate::relay_laws::leaving_agent_takes_its_session_offline(
        old(relay)@,
        token@,
        id as int,
        to_agent as int,
    );
}

/// The end of a retention time takes away what it says, and only a session that has been without
/// agent since that departure.
pub proof fn expiring(
    relay: &mut Relay,
    token: &str,
    departure: u64,
    expired: Option<Expired<u64>>,
)
    requires
        old(relay)@.wf(),
        call_ensures(Relay::expire, (relay, token, departure), expired),
    ensures
        final(relay)@.wf(),
        final(relay)@ == old(relay)@.retention_ended(token@, departure as int),
        expired is Some <==> old(relay)@.sessions.contains_key(token@) && !old(
            relay,
        )@.sessions[token@].agent_online && old(relay)@.sessions[token@].to_agent == departure,
        expired is None ==> final(relay)@ == old(relay)@,
        expired matches Some(e) ==> {
            let s = old(relay)@.sessions[token@];
            &&& e.session == s.id
            &&& e.to_agent == s.to_agent
            &&& !final(relay)@.sessions.contains_key(token@)
            &&& match e.viewer {
                Some(web) => old(relay)@.seats[s.id].agents == 0 && old(relay)@.seats[s.id].web
                    == Some(web as int),
                None => old(relay)@.seats[s.id].agents != 0 || old(relay)@.seats[s.id].web is None,
            }
        },
{
    crate::relay_laws::retention_takes_the_session(old(relay)@, token@, departure as int);
}

/// A browser is told what the table says of its token's session.
pub proof fn arriving(relay: &Relay, token: &str, admission: Admission<u64>)
    requires
        call_ensures(Relay::web_arrived, (relay, token), admission),
    ensures
        admission is Refuse <==> !relay@.sessions.contains_key(token@),
        admission is Proceed <==> relay@.sessions.contains_key(token@)
            && relay@.sessions[token@].agent_online,
        admission matches Admission::Wait(id) ==> id == relay@.sessions[token@].id,
{
}

/// A browser that takes a seat gets the session's channel and one of its own, on which the output
/// of the session's agents comes from then on, and the browser before it is handed back.
pub proof fn attaching(
    relay: &mut Relay,
    token: &str,
    bridge: Option<Bridge<u64>>,
    after: &Relay,
    session: u64,
    target: Option<u64>,
)
    requires
        old(relay)@.wf(),
        old(relay)@.next_id < u64::MAX,
        call_ensures(Relay::web_attached, (relay, token), bridge),
        *after == *final(relay),
        call_ensures(Relay::output_target, (after, session), target),
    ensures
        final(relay)@.wf(),
        final(relay)@ == old(relay)@.web_joined(token@),
        bridge is Some <==> old(relay)@.sessions.contains_key(token@),
        bridge is None ==> final(relay)@ == old(relay)@,
        bridge matches Some(b) ==> {
            let s = old(relay)@.sessions[token@];
            &&& b.to_agent == s.to_agent
            &&& b.web == old(relay)@.next_id
            &&& match b.kicked {
                Some(web) => old(relay)@.seats[s.id].web == Some(web as int),
                None => old(relay)@.seats[s.id].web is None,
            }
            &&& session == s.id ==> target == Some(b.web)
        },
{
    crate::relay_laws::joining_browser_takes_the_seat(old(relay)@, token@);
}

/// A browser's connection goes from stage to stage: it is judged on arrival, waits only for the
/// session of its token, is closed where the signal did not come or the session is gone, and is
/// bridged as `web_attached` would. Only taking the seat changes the table.
pub proof fn advancing(
    relay: &mut Relay,
    token: &str,
    stage: WebStage<u64>,
    signalled: bool,
    next: WebStage<u64>,
    other: &mut Relay,
    bridge: Option<Bridge<u64>>,
)
    requires
        old(relay)@.wf(),
        old(relay)@.next_id < u64::MAX,
        call_ensures(Relay::web_advance, (relay, token, stage, signalled), next),
        old(other)@ == old(relay)@,
        call_ensures(Relay::web_attached, (other, token), bridge),
    ensures
        final(relay)@.wf(),
        !(stage is Admitted) ==> final(relay)@ == old(relay)@,
        stage is Admitted ==> final(relay)@ == final(other)@,
        ({
            let known = old(relay)@.sessions.contains_key(token@);
            let s = old(relay)@.sessions[token@];
            &&& stage is Arriving ==> {
                &&& next is Closed <==> !known
                &&& next is Admitted <==> known && s.agent_online
                &&& next is Waiting <==> known && !s.agent_online
                &&& next matches WebStage::Waiting(id) ==> id == s.id
            }
            &&& stage is Waiting && signalled ==> next is Admitted
            &&& stage is Waiting && !signalled ==> next is Closed
            &&& stage is Admitted && !known ==> next is Closed
            &&& stage is Admitted && known ==> {
                &&& next matches WebStage::Bridged(got)
                &&& bridge matches Some(b)
                &&& got.to_agent == b.to_agent
                &&& got.web == b.web
                &&& got.kicked is Some <==> b.kicked is Some
                &&& got.kicked is Some ==> got.kicked->0 == b.kicked->0
            }
            &&& stage is Closed ==> next is Closed
            &&& stage matches WebStage::Bridged(had) ==> {
                &&& next matches WebStage::Bridged(got)
                &&& got.to_agent == had.to_agent
                &&& got.web == had.web
                &&& got.kicked is Some <==> had.kicked is Some
                &&& got.kicked is Some ==> got.kicked->0 == had.kicked->0
            }
        }),
{
    crate::relay_laws::stages_in_order(old(relay)@, token@, stage@, signalled);
}

/// An agent connects and then a browser for its token: the browser's input goes to that agent, and
/// what the agent sends under the session number that it got goes whole to that browser.
pub proof fn agent_and_browser_meet(
    first: &mut Relay,
    token: &str,
    link: AgentLink<u64>,
    second: &mut Relay,
    bridge: Option<Bridge<u64>>,
    after: &Relay,
    data: Vec<u8>,
    action: Delivery<u64, Vec<u8>>,
)
    requires
        old(first)@.wf(),
        old(first)@.next_id < u64::MAX - 1,
        call_ensures(Relay::agent_connected, (first, token), link),
        *second == *final(first),
        call_ensures(Relay::web_attached, (second, token), bridge),
        *after == *final(second),
        call_ensures(on_agent_message, (after, link.session, Inbound::Binary(data)), action),
    ensures
        bridge matches Some(b) && b.to_agent == link.to_agent && b.web != link.to_agent && (
        action matches Delivery::To(web, sent) && web == b.web && sent@ == data@),
{
    crate::relay_laws::arriving_agent_serves_its_session(old(first)@, token@);
    crate::relay_laws::joining_browser_takes_the_seat(old(second)@, token@);
}

/// An agent connects and leaves again, as the last of its token: the session is retained. Browsers
/// wait under its number, nobody is shown it, and its departure has the agent's channel for
/// number.
pub proof fn agent_comes_and_goes(
    first: &mut Relay,
    token: &str,
    link: AgentLink<u64>,
    second: &mut Relay,
    gone: AgentGone<u64>,
    after: &Relay,
    admission: Admission<u64>,
    target: Option<u64>,
)
    requires
        old(first)@.wf(),
        old(first)@.next_id < u64::MAX,
        call_ensures(Relay::agent_connected, (first, token), link),
        *second == *final(first),
        call_ensures(
            Relay::agent_disconnected,
            (second, token, link.session, link.to_agent),
            gone,
        ),
        *after == *final(second),
        call_ensures(Relay::web_arrived, (after, token), admission),
        call_ensures(Relay::output_target, (after, link.session), target),
    ensures
        gone.departure == Some(link.to_agent),
        admission matches Admission::Wait(id) && id == link.session,
        target is None,
{
    crate::relay_laws::arriving_agent_serves_its_session(old(first)@, token@);
    crate::relay_laws::leaving_agent_takes_its_session_offline(
        old(second)@,
        token@,
        link.session as int,
        link.to_agent as int,
    );
}

/// An agent leaves and its token's agent connects again before the time is over: it serves the
/// session that there was, browsers go ahead, and the end of that retention time changes nothing.
pub proof fn agent_comes_back_in_time(
    first: &mut Relay,
    token: &str,
    id: u64,
    to_agent: u64,
    gone: AgentGone<u64>,
    second: &mut Relay,
    link: AgentLink<u64>,
    third: &mut Relay,
    departure: u64,
    expired: Option<Expired<u64>>,
    after: &Relay,
    admission: Admission<u64>,
)
    requires
        old(first)@.wf(),
        old(first)@.next_id < u64::MAX,
        old(first)@.sessions.contains_key(token@),
        call_ensures(Relay::agent_disconnected, (first, token, id, to_agent), gone),
        *second == *final(first),
        call_ensures(Relay::agent_connected, (second, token), link),
        *third == *final(second),
        call_ensures(Relay::expire, (third, token, departure), expired),
        *after == *final(third),
        call_ensures(Relay::web_arrived, (after, token), admission),
    ensures
        link.session == old(first)@.sessions[token@].id,
        link.resumed is Some,
        expired is None,
        admission is Proceed,
{
    crate::relay_laws::leaving_agent_takes_its_session_offline(
        old(first)@,
        token@,
        id as int,
        to_agent as int,
    );
    crate::relay_laws::arriving_agent_serves_its_session(old(second)@, token@);
    crate::relay_laws::retention_takes_the_session(old(third)@, token@, departure as int);
}

/// An agent leaves and none comes back before the time is over: the session is taken away, browsers
/// are refused, and the agent that connects next starts another session.
pub proof fn agent_stays_away(
    first: &mut Relay,
    token: &str,
    id: u64,
    to_agent: u64,
    gone: AgentGone<u64>,
    second: &mut Relay,
    departure: u64,
    expired: Option<Expired<u64>>,
    after: &Relay,
    admission: Admission<u64>,
    third: &mut Relay,
    link: AgentLink<u64>,
)
    requires
        old(first)@.wf(),
        old(first)@.next_id < u64::MAX,
        call_ensures(Relay::agent_disconnected, (first, token, id, to_agent), gone),
        gone.departure == Some(departure),
        *second == *final(first),
        call_ensures(Relay::expire, (second, token, departure), expired),
        *after == *final(second),
        call_ensures(Relay::web_arrived, (after, token), admission),
        *third == *final(second),
        call_ensures(Relay::agent_connected, (third, token), link),
    ensures
        expired matches Some(e) && e.session == old(first)@.sessions[token@].id && e.to_agent
            == departure && e.session != link.session,
        admission is Refuse,
        link.resumed is None,
{
    crate::relay_laws::leaving_agent_takes_its_session_offline(
        old(first)@,
        token@,
        id as int,
        to_agent as int,
    );
    crate::relay_laws::retention_takes_the_session(old(second)@, token@, departure as int);
    crate::relay_laws::arriving_agent_serves_its_session(old(third)@, token@);
    assert(old(first)@.has(token@));
    assert(old(first)@.seats.contains_key(old(first)@.sessions[token@].id));
}

/// The numbers that are handed out are new: whatever else connects in between, a later agent and a
/// later browser have channels of their own.
pub proof fn later_numbers_are_new(
    first: &mut Relay,
    token: &str,
    link: AgentLink<u64>,
    second: &mut Relay,
    other: &str,
    bridge: Option<Bridge<u64>>,
    third: &mut Relay,
    another: &str,
    later: AgentLink<u64>,
)
    requires
        old(first)@.wf(),
        old(first)@.next_id < u64::MAX - 2,
        call_ensures(Relay::agent_connected, (first, token), link),
        *second == *final(first),
        call_ensures(Relay::web_attached, (second, other), bridge),
        *third == *final(second),
        call_ensures(Relay::agent_connected, (third, another), later),
    ensures
        link.to_agent != later.to_agent,
        bridge matches Some(b) ==> b.web != link.to_agent && b.web != later.to_agent,
        token@ != another@ ==> link.session != later.session,
        token@ == another@ ==> link.session == later.session,
{
    crate::relay_laws::arriving_agent_serves_its_session(old(first)@, token@);
    crate::relay_laws::joining_browser_takes_the_seat(old(second)@, other@);
    crate::relay_laws::arriving_agent_serves_its_session(old(third)@, another@);
    let m = final(first)@;
    assert(m.has(token@));
    assert(m.seats.contains_key(m.sessions[token@].id));
    let n = final(second)@;
    assert(n.has(token@));
    assert(n.seats.contains_key(n.sessions[token@].id));
    if n.has(another@) {
        assert(n.seats.contains_key(n.sessions[another@].id));
    }
}

} // verus!
