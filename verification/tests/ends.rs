use gm_tty::agent::{
    default_shell, handle_frame, keeps_running, on_server_message, on_shell_output, server_url,
    session_url, PtyAction,
};
use gm_tty::protocol::{Frame, FrameType, ProtocolError};
use gm_tty::reconnect::{Next, Retry, Wait};
use gm_tty::relay::Relay;
use gm_tty::server::{
    authorize, keeps_listening, on_agent_message, on_browser_message, Access, BrowserAction,
    Delivery,
};
use gm_tty::ws::{next_write, Inbound, Outbound, Write};

#[test]
fn typed_bytes_reach_the_shell() {
    let sent = Frame::new_data(b"ls\n").encode();
    let forwarded = match on_browser_message(Inbound::Binary(sent.clone())) {
        BrowserAction::Forward(bytes) => bytes,
        other => panic!("{other:?}"),
    };
    assert_eq!(forwarded, sent);
    match on_server_message(Inbound::Binary(forwarded)) {
        PtyAction::Input(bytes) => assert_eq!(bytes, b"ls\n"),
        other => panic!("{other:?}"),
    }
}

#[test]
fn window_size_reaches_the_terminal() {
    let sent = Frame::new_resize(132, 50).encode();
    let forwarded = match on_browser_message(Inbound::Binary(sent)) {
        BrowserAction::Forward(bytes) => bytes,
        other => panic!("{other:?}"),
    };
    assert!(matches!(
        on_server_message(Inbound::Binary(forwarded)),
        PtyAction::Resize { cols: 132, rows: 50 }
    ));
}

#[test]
fn printed_bytes_reach_the_browser() {
    let mut relay = Relay::new();
    let link = relay.agent_connected("t");
    let message = on_shell_output(b"hello, rest", Some(5)).unwrap();
    assert!(matches!(
        on_agent_message(&relay, link.session, Inbound::Binary(message.clone())),
        Delivery::Skip
    ));
    let bridge = relay.web_attached("t").unwrap();
    match on_agent_message(&relay, link.session, Inbound::Binary(message)) {
        Delivery::To(web, bytes) => {
            assert_eq!(web, bridge.web);
            assert_eq!(Frame::decode(&bytes).unwrap().payload, b"hello");
        }
        other => panic!("{other:?}"),
    }
}

#[test]
fn shell_output_ends() {
    assert_eq!(on_shell_output(b"abc", Some(0)), None);
    assert_eq!(on_shell_output(b"abc", None), None);
    assert_eq!(
        on_shell_output(b"abc", Some(3)),
        Some(vec![1, 0, 0, 0, 3, b'a', b'b', b'c'])
    );
}

#[test]
fn server_treats_agent_messages() {
    let relay = Relay::new();
    assert!(matches!(on_agent_message(&relay, 0, Inbound::Close), Delivery::Stop));
    assert!(matches!(on_agent_message(&relay, 0, Inbound::Ended), Delivery::Stop));
    assert!(matches!(on_agent_message(&relay, 0, Inbound::Ping), Delivery::Skip));
    assert!(matches!(on_agent_message(&relay, 0, Inbound::Pong), Delivery::Skip));
    assert!(matches!(on_agent_message(&relay, 0, Inbound::Text), Delivery::Skip));
    assert!(matches!(
        on_agent_message(&relay, 0, Inbound::Binary(vec![1])),
        Delivery::Skip
    ));
}

#[test]
fn server_treats_browser_messages() {
    match on_browser_message(Inbound::Binary(Frame::heartbeat().encode())) {
        BrowserAction::Reply(bytes) => assert_eq!(bytes, vec![4, 0, 0, 0, 0]),
        other => panic!("{other:?}"),
    }
    assert!(matches!(
        on_browser_message(Inbound::Binary(Frame::close().encode())),
        BrowserAction::Stop
    ));
    assert!(matches!(
        on_browser_message(Inbound::Binary(Frame::heartbeat_ack().encode())),
        BrowserAction::Forward(_)
    ));
    assert!(matches!(
        on_browser_message(Inbound::Binary(vec![9, 0, 0, 0, 0])),
        BrowserAction::Skip
    ));
    assert!(matches!(on_browser_message(Inbound::Close), BrowserAction::Stop));
    assert!(matches!(on_browser_message(Inbound::Ended), BrowserAction::Stop));
    assert!(matches!(on_browser_message(Inbound::Text), BrowserAction::Skip));
    assert!(matches!(on_browser_message(Inbound::Ping), BrowserAction::Skip));
    assert!(matches!(on_browser_message(Inbound::Pong), BrowserAction::Skip));
}

#[test]
fn lost_forward_ends_the_browser_and_lost_reply_does_not() {
    assert!(keeps_listening(&BrowserAction::Forward(vec![]), true));
    assert!(!keeps_listening(&BrowserAction::Forward(vec![]), false));
    assert!(keeps_listening(&BrowserAction::Reply(vec![]), false));
    assert!(keeps_listening(&BrowserAction::Skip, false));
    assert!(!keeps_listening(&BrowserAction::Stop, true));
}

#[test]
fn agent_treats_frames() {
    assert!(matches!(handle_frame(Frame::heartbeat()), PtyAction::Skip));
    assert!(matches!(handle_frame(Frame::heartbeat_ack()), PtyAction::Skip));
    assert!(matches!(handle_frame(Frame::close()), PtyAction::Stop));
    assert!(matches!(
        handle_frame(Frame::new(FrameType::Resize, vec![0, 1, 0])),
        PtyAction::Skip
    ));
    assert!(matches!(
        on_server_message(Inbound::Binary(vec![0xff, 0, 0, 0, 0])),
        PtyAction::Malformed(ProtocolError::UnknownFrameType(0xff))
    ));
    assert!(matches!(on_server_message(Inbound::Close), PtyAction::Stop));
    assert!(matches!(on_server_message(Inbound::Ended), PtyAction::Stop));
    assert!(matches!(on_server_message(Inbound::Ping), PtyAction::Skip));
    assert!(matches!(on_server_message(Inbound::Pong), PtyAction::Skip));
    assert!(matches!(on_server_message(Inbound::Text), PtyAction::Skip));
}

#[test]
fn failed_input_ends_the_session_and_failed_resize_does_not() {
    assert!(keeps_running(&PtyAction::Input(vec![]), true));
    assert!(!keeps_running(&PtyAction::Input(vec![]), false));
    assert!(keeps_running(&PtyAction::Resize { cols: 1, rows: 1 }, false));
    assert!(keeps_running(&PtyAction::Skip, false));
    assert!(keeps_running(&PtyAction::Malformed(ProtocolError::InsufficientData), false));
    assert!(!keeps_running(&PtyAction::Stop, true));
}

#[test]
fn writer_sends_until_something_fails() {
    assert!(matches!(next_write(Outbound::Data(vec![1, 2])), Write::Binary(b) if b == [1, 2]));
    assert!(matches!(next_write(Outbound::PingDue), Write::Ping));
    assert!(matches!(next_write(Outbound::Exhausted), Write::Stop));
    assert!(matches!(next_write(Outbound::SendFailed), Write::Stop));
}

#[test]
fn only_listed_tokens_get_in() {
    let tokens = vec!["one".to_string(), "two".to_string()];
    assert_eq!(authorize(&tokens, &"two".to_string()), Access::Upgrade);
    assert_eq!(authorize(&tokens, &"Two".to_string()), Access::Deny(401));
    assert_eq!(authorize(&tokens, &"".to_string()), Access::Deny(401));
    assert_eq!(authorize(&vec![], &"one".to_string()), Access::Deny(401));
}

#[test]
fn agent_addresses() {
    assert_eq!(server_url(None), "ws://127.0.0.1:7093");
    assert_eq!(server_url(Some("ws://host:1".to_string())), "ws://host:1");
    assert_eq!(session_url("ws://host:1", "abc"), "ws://host:1/ws/agent/abc");
}

#[test]
fn shells() {
    assert_eq!(default_shell(Some("/bin/zsh".to_string()), false), "/bin/zsh");
    assert_eq!(default_shell(None, false), "/bin/sh");
    assert_eq!(default_shell(None, true), "powershell.exe");
}

#[test]
fn failures_double_the_delay_up_to_thirty_seconds() {
    let mut retry = Retry::new();
    for ms in [1000u64, 2000, 4000, 8000, 16000, 30000, 30000] {
        let wait = retry.after_attempt(false);
        assert_eq!(wait, Wait::Backoff(ms));
        assert_eq!(retry.after_wait(wait, false), Next::Connect);
    }
    let wait = retry.after_attempt(true);
    assert_eq!(wait, Wait::Pause(0));
    assert_eq!(retry.after_wait(wait, false), Next::Connect);
    assert_eq!(retry.after_attempt(false), Wait::Backoff(1000));
}

#[test]
fn ended_session_is_followed_at_once() {
    let mut retry = Retry::new();
    for _ in 0..3 {
        let wait = retry.after_attempt(true);
        assert_eq!(wait, Wait::Pause(0));
        assert_eq!(retry.after_wait(wait, false), Next::Connect);
    }
    assert_eq!(retry.after_attempt(false), Wait::Backoff(1000));
}

#[test]
fn shutdown_ends_either_wait() {
    let mut retry = Retry::new();
    let wait = retry.after_attempt(false);
    assert_eq!(retry.after_wait(wait, true), Next::Exit);
    let wait = retry.after_attempt(true);
    assert_eq!(retry.after_wait(wait, true), Next::Exit);
}

#[test]
fn forwarded_bytes_neither_stop_nor_confuse_an_agent() {
    for first in 0..=255u8 {
        let bytes = vec![first, 0, 0, 0, 1, 7];
        if let BrowserAction::Forward(forwarded) = on_browser_message(Inbound::Binary(bytes)) {
            assert!(matches!(
                on_server_message(Inbound::Binary(forwarded)),
                PtyAction::Input(_) | PtyAction::Skip | PtyAction::Resize { .. }
            ));
        }
    }
}
