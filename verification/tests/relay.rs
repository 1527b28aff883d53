use gm_tty::relay::{Admission, AgentGone, Bridge, Expired, Relay, WebStage};

#[test]
fn browser_without_agent_is_refused() {
    let mut relay = Relay::new();
    assert!(relay.has_room());
    assert_eq!(relay.web_arrived("t"), Admission::Refuse);
    assert_eq!(relay.web_attached("t"), None);
    assert_eq!(relay.web_advance("t", WebStage::Arriving, false), WebStage::Closed);
    assert_eq!(relay.web_advance("t", WebStage::Admitted, false), WebStage::Closed);
}

#[test]
fn browser_is_bridged_and_the_next_one_kicks_it() {
    let mut relay = Relay::new();
    let link = relay.agent_connected("t");
    assert_eq!(link.resumed, None);
    assert_eq!(relay.output_target(link.session), None);

    assert_eq!(relay.web_arrived("t"), Admission::Proceed);
    let first = relay.web_attached("t").unwrap();
    assert_eq!(first.to_agent, link.to_agent);
    assert_eq!(first.kicked, None);
    assert_eq!(relay.output_target(link.session), Some(first.web));

    let second = relay.web_attached("t").unwrap();
    assert_eq!(second.kicked, Some(first.web));
    assert_ne!(second.web, first.web);
    assert_eq!(relay.output_target(link.session), Some(second.web));
    assert_eq!(relay.web_arrived("t"), Admission::Proceed);
}

#[test]
fn agent_leaves_and_comes_back_in_time() {
    let mut relay = Relay::new();
    let link = relay.agent_connected("t");
    let bridge = relay.web_attached("t").unwrap();
    let gone = relay.agent_disconnected("t", link.session, link.to_agent);
    assert_eq!(gone.viewer, Some(bridge.web));
    let departure = gone.departure.unwrap();
    assert_eq!(relay.output_target(link.session), None);
    assert_eq!(relay.web_arrived("t"), Admission::Wait(link.session));

    let back = relay.agent_connected("t");
    assert_eq!(back.session, link.session);
    assert_eq!(back.resumed, Some(link.to_agent));
    assert_ne!(back.to_agent, link.to_agent);
    assert_eq!(relay.web_arrived("t"), Admission::Proceed);

    assert_eq!(relay.expire("t", departure), None);
    assert_eq!(relay.web_attached("t").unwrap().to_agent, back.to_agent);
}

#[test]
fn session_without_agent_expires() {
    let mut relay = Relay::new();
    let link = relay.agent_connected("t");
    let departure = relay.agent_disconnected("t", link.session, link.to_agent).departure.unwrap();
    assert_eq!(
        relay.expire("t", departure),
        Some(Expired { session: link.session, to_agent: link.to_agent, viewer: None })
    );
    assert_eq!(relay.web_arrived("t"), Admission::Refuse);
    assert_eq!(relay.expire("t", departure), None);

    let again = relay.agent_connected("t");
    assert_eq!(again.resumed, None);
    assert_ne!(again.session, link.session);
}

#[test]
fn browser_that_was_seated_without_agent_goes_with_the_session() {
    let mut relay = Relay::new();
    let link = relay.agent_connected("t");
    let departure = relay.agent_disconnected("t", link.session, link.to_agent).departure.unwrap();
    let bridge = relay.web_attached("t").unwrap();
    assert_eq!(
        relay.expire("t", departure),
        Some(Expired {
            session: link.session,
            to_agent: link.to_agent,
            viewer: Some(bridge.web),
        })
    );
    assert_eq!(relay.output_target(link.session), None);
}

#[test]
fn older_agent_leaves_the_session_alone() {
    let mut relay = Relay::new();
    let first = relay.agent_connected("t");
    let second = relay.agent_connected("t");
    assert_eq!(second.session, first.session);
    assert_eq!(second.resumed, Some(first.to_agent));
    let bridge = relay.web_attached("t").unwrap();
    assert_eq!(bridge.to_agent, second.to_agent);

    assert_eq!(
        relay.agent_disconnected("t", first.session, first.to_agent),
        AgentGone { departure: None, viewer: None, orphan: None }
    );
    assert_eq!(relay.web_arrived("t"), Admission::Proceed);
    assert_eq!(relay.output_target(second.session), Some(bridge.web));
    assert_eq!(relay.expire("t", first.to_agent), None);
    assert_eq!(relay.expire("t", second.to_agent), None);

    let gone = relay.agent_disconnected("t", second.session, second.to_agent);
    assert_eq!(gone.viewer, Some(bridge.web));
    assert_eq!(relay.web_arrived("t"), Admission::Wait(first.session));
    assert_eq!(
        relay.expire("t", gone.departure.unwrap()).unwrap().session,
        first.session
    );
}

#[test]
fn browser_waits_when_the_newer_agent_left() {
    let mut relay = Relay::new();
    let first = relay.agent_connected("t");
    let second = relay.agent_connected("t");
    let gone = relay.agent_disconnected("t", second.session, second.to_agent);
    assert_eq!(gone.departure, Some(second.to_agent));
    assert_eq!(relay.web_arrived("t"), Admission::Wait(first.session));

    let third = relay.agent_connected("t");
    assert_eq!(third.session, first.session);
    assert_eq!(relay.web_arrived("t"), Admission::Proceed);
    assert_eq!(relay.web_attached("t").unwrap().to_agent, third.to_agent);
    assert_eq!(
        relay.agent_disconnected("t", first.session, first.to_agent).departure,
        None
    );
    assert_eq!(relay.web_arrived("t"), Admission::Proceed);
}

#[test]
fn older_agent_keeps_the_seat_of_an_expired_session() {
    let mut relay = Relay::new();
    let first = relay.agent_connected("t");
    let second = relay.agent_connected("t");
    let gone = relay.agent_disconnected("t", second.session, second.to_agent);
    let bridge = relay.web_attached("t").unwrap();
    assert_eq!(
        relay.expire("t", gone.departure.unwrap()),
        Some(Expired { session: first.session, to_agent: second.to_agent, viewer: None })
    );
    assert_eq!(relay.output_target(first.session), Some(bridge.web));
    assert_eq!(relay.web_arrived("t"), Admission::Refuse);

    assert_eq!(
        relay.agent_disconnected("t", first.session, first.to_agent),
        AgentGone { departure: None, viewer: None, orphan: Some(bridge.web) }
    );
    assert_eq!(relay.output_target(first.session), None);
}

#[test]
fn older_agent_empties_the_seat_of_a_session_without_agent() {
    let mut relay = Relay::new();
    let first = relay.agent_connected("t");
    let second = relay.agent_connected("t");
    relay.agent_disconnected("t", second.session, second.to_agent);
    let bridge = relay.web_attached("t").unwrap();
    assert_eq!(
        relay.agent_disconnected("t", first.session, first.to_agent),
        AgentGone { departure: None, viewer: Some(bridge.web), orphan: None }
    );
    assert_eq!(relay.output_target(first.session), None);
    assert_eq!(
        relay.expire("t", second.to_agent),
        Some(Expired { session: first.session, to_agent: second.to_agent, viewer: None })
    );
}

#[test]
fn each_departure_has_its_own_retention_time() {
    let mut relay = Relay::new();
    let link = relay.agent_connected("t");
    let earlier = relay.agent_disconnected("t", link.session, link.to_agent).departure.unwrap();
    let back = relay.agent_connected("t");
    let later = relay.agent_disconnected("t", back.session, back.to_agent).departure.unwrap();
    assert_ne!(earlier, later);
    assert_eq!(relay.expire("t", earlier), None);
    assert_eq!(relay.web_arrived("t"), Admission::Wait(link.session));
    assert_eq!(relay.expire("t", later).unwrap().to_agent, back.to_agent);
    assert_eq!(relay.web_arrived("t"), Admission::Refuse);
}

#[test]
fn tokens_are_independent() {
    let mut relay = Relay::new();
    let a = relay.agent_connected("a");
    let b = relay.agent_connected("b");
    let web_a = relay.web_attached("a").unwrap();
    let web_b = relay.web_attached("b").unwrap();
    assert_ne!(web_a.web, web_b.web);
    assert_ne!(web_a.to_agent, web_b.to_agent);
    let departure = relay.agent_disconnected("a", a.session, a.to_agent).departure.unwrap();
    relay.expire("a", departure);
    assert_eq!(relay.web_arrived("b"), Admission::Proceed);
    assert_eq!(relay.output_target(b.session), Some(web_b.web));
    assert_eq!(relay.web_arrived("a"), Admission::Refuse);
}

#[test]
fn unknown_agent_leaving_changes_nothing() {
    let mut relay = Relay::new();
    let link = relay.agent_connected("t");
    let bridge = relay.web_attached("t").unwrap();
    assert_eq!(
        relay.agent_disconnected("other", 77, 78),
        AgentGone { departure: None, viewer: None, orphan: None }
    );
    assert_eq!(relay.output_target(link.session), Some(bridge.web));
    assert_eq!(relay.web_arrived("t"), Admission::Proceed);
}

#[test]
fn released_channels_are_not_handed_out_again() {
    let mut relay = Relay::new();
    let mut link = relay.agent_connected("t");
    let mut seen = vec![link.to_agent];
    for _ in 0..10 {
        let bridge = relay.web_attached("t").unwrap();
        assert!(!seen.contains(&bridge.web));
        seen.push(bridge.web);
        relay.agent_disconnected("t", link.session, link.to_agent);
        link = relay.agent_connected("t");
        assert!(!seen.contains(&link.to_agent));
        seen.push(link.to_agent);
    }
}

#[test]
fn stages_of_a_browser() {
    let mut relay = Relay::new();
    let link = relay.agent_connected("t");
    assert_eq!(relay.web_advance("t", WebStage::Arriving, false), WebStage::Admitted);
    let stage = relay.web_advance("t", WebStage::Admitted, false);
    let bridge = match stage {
        WebStage::Bridged(bridge) => bridge,
        _ => panic!("not bridged"),
    };
    assert_eq!(bridge, Bridge { to_agent: link.to_agent, web: bridge.web, kicked: None });
    assert_eq!(relay.web_advance("t", stage, true), stage);
    assert_eq!(relay.web_advance("t", WebStage::Closed, true), WebStage::Closed);

    relay.agent_disconnected("t", link.session, link.to_agent);
    let waiting = relay.web_advance("t", WebStage::Arriving, false);
    assert_eq!(waiting, WebStage::Waiting(link.session));
    assert_eq!(relay.web_advance("t", waiting, false), WebStage::Closed);
    relay.agent_connected("t");
    assert_eq!(relay.web_advance("t", waiting, true), WebStage::Admitted);
}

#[test]
fn timing_of_the_relay() {
    assert_eq!(gm_tty::relay::PING_INTERVAL_SECS, 25);
    assert_eq!(gm_tty::relay::SESSION_RETAIN_SECS, 30);
    assert_eq!(gm_tty::relay::WAIT_AGENT_TIMEOUT_SECS, 30);
    assert_eq!(gm_tty::relay::CHANNEL_CAPACITY, 256);
}
