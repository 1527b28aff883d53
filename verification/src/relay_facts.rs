//! Why the operations of the session table keep it well formed, and what they do to the channels
//! that it refers to.

use crate::relay::RelayModel;
use vstd::prelude::*;

verus! {

pub(crate) proof fn agent_joined_facts(m: RelayModel, token: Seq<char>)
    requires
        m.wf(),
    ensures
        m.agent_joined(token).wf(),
        !m.channels().contains(m.next_id),
        m.agent_joined(token).channels() == crate::relay::without(
            m.channels(),
            if m.has(token) {
                Some(m.sessions[token].to_agent)
            } else {
                None
            },
        ).insert(m.next_id),
{
    let n = m.agent_joined(token);
    let fresh = m.next_id;
    assert(n.has(token));
    assert forall|t: Seq<char>| #[trigger] n.has(t) implies t == token || m.has(t) by {}
    assert forall|c: int| #[trigger] n.is_agent_channel(c) implies c == fresh || m.is_agent_channel(
        c,
    ) by {
        let t = choose|t: Seq<char>| #[trigger] n.has(t) && n.sessions[t].to_agent == c;
        if t != token {
            assert(m.has(t));
        }
    }
    assert forall|i: int| #[trigger] n.seats.contains_key(i) && n.seats[i].listed implies exists|
        t: Seq<char>,
    | #[trigger]
        n.has(t) && n.sessions[t].id == i by {
        if i != n.sessions[token].id {
            assert(m.seats.contains_key(i));
            let t = choose|t: Seq<char>| #[trigger] m.has(t) && m.sessions[t].id == i;
            assert(n.has(t));
        }
    }
    assert forall|t: Seq<char>| t != token implies n.has(t) == #[trigger] m.has(t) by {}
    let expected = crate::relay::without(
        m.channels(),
        if m.has(token) {
            Some(m.sessions[token].to_agent)
        } else {
            None
        },
    ).insert(fresh);
    assert forall|c: int| n.is_web_channel(c) == m.is_web_channel(c) by {
        if m.is_web_channel(c) {
            let i = choose|i: int| #[trigger] m.seats.contains_key(i) && m.seats[i].web == Some(c);
            assert(n.seats.contains_key(i));
        }
        if n.is_web_channel(c) {
            let i = choose|i: int| #[trigger] n.seats.contains_key(i) && n.seats[i].web == Some(c);
            assert(m.seats.contains_key(i));
        }
    }
    assert forall|c: int| expected.contains(c) implies n.channels().contains(c) by {
        if c != fresh && m.is_agent_channel(c) {
            let t = choose|t: Seq<char>| #[trigger] m.has(t) && m.sessions[t].to_agent == c;
            assert(n.has(t));
        }
    }
    assert forall|c: int| n.channels().contains(c) implies expected.contains(c) by {
        if m.has(token) && c == m.sessions[token].to_agent {
            if n.is_agent_channel(c) {
                let t = choose|t: Seq<char>| #[trigger] n.has(t) && n.sessions[t].to_agent == c;
                assert(t == token || m.has(t));
            } else {
                assert(m.is_agent_channel(c));
            }
        }
    }
    assert(n.channels() =~= expected);
}

/// What stays when the same tokens keep their sessions' numbers and channels, and no seat becomes
/// listed.
proof fn same_sessions_facts(m: RelayModel, n: RelayModel)
    requires
        m.wf(),
        forall|t: Seq<char>| #[trigger] n.has(t) == m.has(t),
        forall|t: Seq<char>| #[trigger]
            n.has(t) ==> n.sessions[t].id == m.sessions[t].id && n.sessions[t].to_agent
                == m.sessions[t].to_agent,
        forall|i: int| #[trigger]
            n.seats.contains_key(i) && n.seats[i].listed ==> m.seats.contains_key(i)
                && m.seats[i].listed,
    ensures
        forall|c: int| n.is_agent_channel(c) == m.is_agent_channel(c),
        forall|i: int| #[trigger]
            n.seats.contains_key(i) && n.seats[i].listed ==> exists|t: Seq<char>| #[trigger]
                n.has(t) && n.sessions[t].id == i,
{
    assert forall|c: int| n.is_agent_channel(c) == m.is_agent_channel(c) by {
        if m.is_agent_channel(c) {
            let t = choose|t: Seq<char>| #[trigger] m.has(t) && m.sessions[t].to_agent == c;
            assert(n.has(t));
        }
        if n.is_agent_channel(c) {
            let t = choose|t: Seq<char>| #[trigger] n.has(t) && n.sessions[t].to_agent == c;
            assert(m.has(t));
        }
    }
    assert forall|i: int| #[trigger] n.seats.contains_key(i) && n.seats[i].listed implies exists|
        t: Seq<char>,
    | #[trigger]
        n.has(t) && n.sessions[t].id == i by {
        let t = choose|t: Seq<char>| #[trigger] m.has(t) && m.sessions[t].id == i;
        assert(n.has(t));
    }
}

pub(crate) proof fn agent_lost_facts(m: RelayModel, token: Seq<char>)
    requires
        m.wf(),
    ensures
        m.agent_lost(token).wf(),
        m.agent_lost(token).channels() == crate::relay::without(
            m.channels(),
            if m.has(token) {
                m.viewer(token)
            } else {
                None
            },
        ),
{
    let n = m.agent_lost(token);
    assert forall|t: Seq<char>| #[trigger] n.has(t) == m.has(t) by {}
    same_sessions_facts(m, n);
    if m.has(token) {
        seat_changed_channels(m, n, m.sessions[token].id);
    }
}

/// What becomes of the channels when the browser leaves one seat and nothing else changes.
proof fn seat_changed_channels(m: RelayModel, n: RelayModel, id: int)
    requires
        m.wf(),
        m.seats.contains_key(id),
        forall|c: int| n.is_agent_channel(c) == m.is_agent_channel(c),
        n.seats.contains_key(id) ==> n.seats[id].web is None,
        forall|i: int| i != id ==> #[trigger] n.seats.contains_key(i) == m.seats.contains_key(i),
        forall|i: int|
            i != id && #[trigger] n.seats.contains_key(i) ==> n.seats[i].web == m.seats[i].web,
    ensures
        n.channels() == crate::relay::without(m.channels(), m.seats[id].web),
{
    let expected = crate::relay::without(m.channels(), m.seats[id].web);
    assert forall|c: int| expected.contains(c) implies n.channels().contains(c) by {
        if m.is_web_channel(c) {
            let i = choose|i: int| #[trigger] m.seats.contains_key(i) && m.seats[i].web == Some(c);
            assert(i != id);
            assert(n.seats.contains_key(i));
        }
    }
    assert forall|c: int| n.channels().contains(c) implies expected.contains(c) by {
        if n.is_web_channel(c) {
            let i = choose|i: int| #[trigger] n.seats.contains_key(i) && n.seats[i].web == Some(c);
            assert(i != id);
            assert(m.seats.contains_key(i));
        }
    }
    assert(n.channels() =~= expected);
}

pub(crate) proof fn seat_released_facts(m: RelayModel, id: int)
    requires
        m.wf(),
    ensures
        m.seat_released(id).wf(),
        m.seat_released(id).channels() == crate::relay::without(
            m.channels(),
            if m.seats.contains_key(id) && m.seats[id].agents == 1 && !m.seats[id].listed {
                m.seats[id].web
            } else {
                None
            },
        ),
{
    let n = m.seat_released(id);
    assert forall|t: Seq<char>| #[trigger] n.has(t) == m.has(t) by {}
    same_sessions_facts(m, n);
    if m.seats.contains_key(id) && m.seats[id].agents == 1 && !m.seats[id].listed {
        seat_changed_channels(m, n, id);
    } else {
        assert forall|c: int| n.is_web_channel(c) == m.is_web_channel(c) by {
            if m.is_web_channel(c) {
                let i = choose|i: int| #[trigger]
                    m.seats.contains_key(i) && m.seats[i].web == Some(c);
                assert(n.seats.contains_key(i));
            }
            if n.is_web_channel(c) {
                let i = choose|i: int| #[trigger]
                    n.seats.contains_key(i) && n.seats[i].web == Some(c);
                assert(m.seats.contains_key(i));
            }
        }
        assert(n.channels() =~= m.channels());
    }
}

pub(crate) proof fn retention_ended_facts(m: RelayModel, token: Seq<char>, departure: int)
    requires
        m.wf(),
    ensures
        m.retention_ended(token, departure).wf(),
        m.retention_ended(token, departure).channels() == if m.away_since(token, departure) {
            crate::relay::without(
                m.channels().remove(m.sessions[token].to_agent),
                if m.seat_of(token).agents == 0 {
                    m.viewer(token)
                } else {
                    None
                },
            )
        } else {
            m.channels()
        },
{
    let n = m.retention_ended(token, departure);
    if m.away_since(token, departure) {
        let s = m.sessions[token];
        let seat = m.seats[s.id];
        assert forall|t: Seq<char>| #[trigger] n.has(t) == (m.has(t) && t != token) by {}
        assert forall|c: int| n.is_agent_channel(c) implies m.is_agent_channel(c) && c
            != s.to_agent by {
            let t = choose|t: Seq<char>| #[trigger] n.has(t) && n.sessions[t].to_agent == c;
            assert(m.has(t));
        }
        assert forall|c: int| m.is_agent_channel(c) && c != s.to_agent implies n.is_agent_channel(
            c,
        ) by {
            let t = choose|t: Seq<char>| #[trigger] m.has(t) && m.sessions[t].to_agent == c;
            assert(n.has(t));
        }
        assert forall|i: int| #[trigger]
            n.seats.contains_key(i) && n.seats[i].listed implies exists|t: Seq<char>| #[trigger]
            n.has(t) && n.sessions[t].id == i by {
            assert(m.seats.contains_key(i));
            let t = choose|t: Seq<char>| #[trigger] m.has(t) && m.sessions[t].id == i;
            assert(t != token);
            assert(n.has(t));
        }
        let viewer = if seat.agents == 0 {
            seat.web
        } else {
            None
        };
        let expected = crate::relay::without(m.channels().remove(s.to_agent), viewer);
        assert forall|c: int| expected.contains(c) implies n.channels().contains(c) by {
            if m.is_web_channel(c) {
                let i = choose|i: int| #[trigger]
                    m.seats.contains_key(i) && m.seats[i].web == Some(c);
                assert(n.seats.contains_key(i));
            }
        }
        assert forall|c: int| n.channels().contains(c) implies expected.contains(c) by {
            if n.is_web_channel(c) {
                let i = choose|i: int| #[trigger]
                    n.seats.contains_key(i) && n.seats[i].web == Some(c);
                assert(m.seats.contains_key(i));
                assert(m.is_agent_channel(s.to_agent));
            }
        }
        assert(n.channels() =~= expected);
    }
}

pub(crate) proof fn web_joined_facts(m: RelayModel, token: Seq<char>)
    requires
        m.wf(),
    ensures
        m.web_joined(token).wf(),
        !m.channels().contains(m.next_id),
        m.has(token) ==> m.web_joined(token).channels() == crate::relay::without(
            m.channels(),
            m.viewer(token),
        ).insert(m.next_id),
{
    let n = m.web_joined(token);
    let fresh = m.next_id;
    if m.has(token) {
        let id = m.sessions[token].id;
        assert forall|t: Seq<char>| #[trigger] n.has(t) == m.has(t) by {}
        same_sessions_facts(m, n);
        let expected = crate::relay::without(m.channels(), m.viewer(token)).insert(fresh);
        assert forall|c: int| expected.contains(c) implies n.channels().contains(c) by {
            if c == fresh {
                assert(n.seats.contains_key(id));
            } else if m.is_web_channel(c) {
                let i = choose|i: int| #[trigger]
                    m.seats.contains_key(i) && m.seats[i].web == Some(c);
                assert(i != id);
                assert(n.seats.contains_key(i));
            }
        }
        assert forall|c: int| n.channels().contains(c) implies expected.contains(c) by {
            if n.is_web_channel(c) {
                let i = choose|i: int| #[trigger]
                    n.seats.contains_key(i) && n.seats[i].web == Some(c);
                if i != id {
                    assert(m.seats.contains_key(i));
                }
            } else {
                assert(m.is_agent_channel(c));
            }
        }
        assert(n.channels() =~= expected);
    }
}

} // verus!
