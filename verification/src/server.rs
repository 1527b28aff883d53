//! The server's side: who may connect, and what is done with what agents and browsers send.

use crate::protocol::Frame;
use crate::protocol::FrameModel;
use crate::protocol::FrameType;
use crate::relay::Relay;
use crate::relay::RelayModel;
use crate::ws::Inbound;
use vstd::prelude::*;

verus! {

/// The HTTP status that refuses a connection whose token is not valid.
pub const UNAUTHORIZED: u16 = 401;

/// What becomes of a request for a WebSocket.
#[derive(Debug, Clone, Copy, PartialEq, Eq, Structural)]
pub enum Access {
    /// The request becomes a connection.
    Upgrade,
    /// It is answered with this HTTP status.
    Deny(u16),
}

/// A token is one of the valid ones, letter for letter.
pub open spec fn is_valid(valid_tokens: Seq<String>, token: Seq<char>) -> bool {
    exists|i: int| 0 <= i < valid_tokens.len() && (#[trigger] valid_tokens[i])@ == token
}

/// Decides a request, from an agent or a browser, by its token.
pub fn authorize(valid_tokens: &Vec<String>, token: &String) -> (access: Access)
    ensures
        access == if is_valid(valid_tokens@, token@) {
            Access::Upgrade
        } else {
            Access::Deny(UNAUTHORIZED)
        },
{
    let mut i: usize = 0;
    while i < valid_tokens.len()
        invariant
            i <= valid_tokens@.len(),
            forall|k: int| 0 <= k < i ==> (#[trigger] valid_tokens@[k])@ != token@,
        decreases valid_tokens@.len() - i,
    {
        if valid_tokens[i] == *token {
            return Access::Upgrade;
        }
        i = i + 1;
    }
    Access::Deny(UNAUTHORIZED)
}

/// What the server does with something that an agent sent.
#[derive(Debug)]
pub enum Delivery<N, B> {
    /// Offer these bytes to the browser with this channel, which may be too busy to take them.
    To(N, B),
    /// Nothing is to be done.
    Skip,
    /// End the agent's connection.
    Stop,
}

impl View for Delivery<u64, Vec<u8>> {
    type V = Delivery<int, Seq<u8>>;

    open spec fn view(&self) -> Delivery<int, Seq<u8>> {
        match self {
            Delivery::To(web, data) => Delivery::To(*web as int, data@),
            Delivery::Skip => Delivery::Skip,
            Delivery::Stop => Delivery::Stop,
        }
    }
}

/// An agent's bytes go unread to the browser on its session's seat, or nowhere when there is none.
pub open spec fn delivery(
    relay: RelayModel,
    session: int,
    received: Inbound<Seq<u8>>,
) -> Delivery<int, Seq<u8>> {
    match received {
        Inbound::Binary(data) => match relay.seated(session) {
            Some(web) => Delivery::To(web, data),
            None => Delivery::Skip,
        },
        Inbound::Close | Inbound::Ended => Delivery::Stop,
        Inbound::Text | Inbound::Ping | Inbound::Pong => Delivery::Skip,
    }
}

/// Decides what to do with something that an agent of a session sent.
pub fn on_agent_message(relay: &Relay, session: u64, received: Inbound<Vec<u8>>) -> (action:
    Delivery<u64, Vec<u8>>)
    ensures
        action@ == delivery(relay@, session as int, received@),
{
    match received {
        Inbound::Binary(data) => match relay.output_target(session) {
            Some(web) => Delivery::To(web, data),
            None => Delivery::Skip,
        },
        Inbound::Close => Delivery::Stop,
        Inbound::Ended => Delivery::Stop,
        Inbound::Text => Delivery::Skip,
        Inbound::Ping => Delivery::Skip,
        Inbound::Pong => Delivery::Skip,
    }
}

/// What the server does with something that a browser sent.
#[derive(Debug)]
pub enum BrowserAction<B> {
    /// Send these bytes to the agent.
    Forward(B),
    /// Send these bytes back to the browser.
    Reply(B),
    /// Nothing is to be done.
    Skip,
    /// End the browser's connection.
    Stop,
}

impl View for BrowserAction<Vec<u8>> {
    type V = BrowserAction<Seq<u8>>;

    open spec fn view(&self) -> BrowserAction<Seq<u8>> {
        match self {
            BrowserAction::Forward(data) => BrowserAction::Forward(data@),
            BrowserAction::Reply(data) => BrowserAction::Reply(data@),
            BrowserAction::Skip => BrowserAction::Skip,
            BrowserAction::Stop => BrowserAction::Stop,
        }
    }
}

/// The answer to a heartbeat.
pub open spec fn heartbeat_answer() -> Seq<u8> {
    FrameModel { frame_type: FrameType::HeartbeatAck, payload: Seq::empty() }.wire()
}

/// The server answers heartbeats, obeys a close frame, drops what is no frame, and hands all else
/// to the agent byte for byte.
pub open spec fn browser_action(received: Inbound<Seq<u8>>) -> BrowserAction<Seq<u8>> {
    match received {
        Inbound::Binary(data) => match crate::protocol::parsed(data) {
            Ok(frame) => match frame.frame_type {
                FrameType::Heartbeat => BrowserAction::Reply(heartbeat_answer()),
                FrameType::Close => BrowserAction::Stop,
                FrameType::Data | FrameType::Resize | FrameType::HeartbeatAck =>
                BrowserAction::Forward(data),
            },
            Err(_) => BrowserAction::Skip,
        },
        Inbound::Close | Inbound::Ended => BrowserAction::Stop,
        Inbound::Text | Inbound::Ping | Inbound::Pong => BrowserAction::Skip,
    }
}

/// Decides what to do with something that a browser sent.
pub fn on_browser_message(received: Inbound<Vec<u8>>) -> (action: BrowserAction<Vec<u8>>)
    ensures
        action@ == browser_action(received@),
{
    match received {
        Inbound::Binary(data) => match Frame::decode(data.as_slice()) {
            Ok(frame) => match frame.frame_type {
                FrameType::Heartbeat => BrowserAction::Reply(Frame::heartbeat_ack().encode()),
                FrameType::Close => BrowserAction::Stop,
                FrameType::Data => BrowserAction::Forward(data),
                FrameType::Resize => BrowserAction::Forward(data),
                FrameType::HeartbeatAck => BrowserAction::Forward(data),
            },
            Err(_) => BrowserAction::Skip,
        },
        Inbound::Close => BrowserAction::Stop,
        Inbound::Ended => BrowserAction::Stop,
        Inbound::Text => BrowserAction::Skip,
        Inbound::Ping => BrowserAction::Skip,
        Inbound::Pong => BrowserAction::Skip,
    }
}

/// Whether the browser is listened to after an action, given whether the channel took what it was
/// handed. An agent that cannot be reached ends the connection; a reply that is lost does not.
pub fn keeps_listening(action: &BrowserAction<Vec<u8>>, taken: bool) -> (listening: bool)
    ensures
        listening == match action@ {
            BrowserAction::Forward(_) => taken,
            BrowserAction::Stop => false,
            BrowserAction::Reply(_) | BrowserAction::Skip => true,
        },
{
    match action {
        BrowserAction::Forward(_) => taken,
        BrowserAction::Stop => false,
        BrowserAction::Reply(_) => true,
        BrowserAction::Skip => true,
    }
}

/// A request becomes a connection exactly where its token is one of the valid ones, at whatever
/// place in the list, and is answered with 401 everywhere else.
pub proof fn only_valid_tokens_connect(valid_tokens: &Vec<String>, token: &String, access: Access)
    requires
        call_ensures(authorize, (valid_tokens, token), access),
    ensures
        forall|i: int|
            0 <= i < valid_tokens@.len() && (#[trigger] valid_tokens@[i])@ == token@
                ==> access is Upgrade,
        access is Upgrade ==> exists|i: int|
            0 <= i < valid_tokens@.len() && (#[trigger] valid_tokens@[i])@ == token@,
        !(access is Upgrade) ==> access == Access::Deny(401),
{
}

/// Whatever the table and the session, an agent's connection is ended exactly by a close or by the
/// end of its stream; its bytes go whole to the browser on its session's seat, where there is one;
/// and of all else nothing comes.
pub proof fn agents_are_heard_until_they_close(
    relay: RelayModel,
    session: int,
    web: int,
    received: Inbound<Seq<u8>>,
)
    ensures
        delivery(relay, session, received) is Stop <==> received is Close || received is Ended,
        received is Text || received is Ping || received is Pong ==> delivery(
            relay,
            session,
            received,
        ) is Skip,
        received matches Inbound::Binary(data) ==> {
            &&& delivery(relay, session, received) == Delivery::To(web, data) <==> (
            relay.seats.contains_key(session) && relay.seats[session].web == Some(web))
            &&& !(relay.seats.contains_key(session) && relay.seats[session].web is Some)
                ==> delivery(relay, session, received) is Skip
        },
{
}

/// What `on_agent_message` does with what an agent sent, by where its session's output goes.
pub proof fn agent_messages(
    relay: &Relay,
    session: u64,
    target: Option<u64>,
    received: Inbound<Vec<u8>>,
    action: Delivery<u64, Vec<u8>>,
)
    requires
        call_ensures(Relay::output_target, (relay, session), target),
        call_ensures(on_agent_message, (relay, session, received), action),
    ensures
        action is Stop <==> received is Close || received is Ended,
        received is Text || received is Ping || received is Pong ==> action is Skip,
        received matches Inbound::Binary(data) ==> match target {
            Some(web) => action matches Delivery::To(to, sent) && to == web && sent@ == data@,
            None => action is Skip,
        },
{
}

/// What `on_browser_message` does with what a browser sent, byte by byte: whole frames are
/// forwarded as they came, but a heartbeat is answered and a close is obeyed; bytes that are no
/// whole frame of a known type are dropped; and the connection is ended by nothing but a close frame, a
/// close or the end of the stream.
pub proof fn browser_messages(received: Inbound<Vec<u8>>, action: BrowserAction<Vec<u8>>)
    requires
        call_ensures(on_browser_message, (received,), action),
    ensures
        received is Close || received is Ended ==> action is Stop,
        received is Text || received is Ping || received is Pong ==> action is Skip,
        received matches Inbound::Binary(data) ==> {
            let n = data@[1] * 0x100_0000 + data@[2] * 0x1_0000 + data@[3] * 0x100 + data@[4];
            let whole = data@.len() >= 5 && 1 <= data@[0] <= 5 && data@.len() >= 5 + n;
            &&& !whole ==> action is Skip
            &&& whole && (data@[0] == 1 || data@[0] == 2 || data@[0] == 4) ==> (
            action matches BrowserAction::Forward(sent) && sent@ == data@)
            &&& whole && data@[0] == 3 ==> (action matches BrowserAction::Reply(sent) && sent@
                == seq![4u8, 0, 0, 0, 0])
            &&& whole && data@[0] == 5 ==> action is Stop
        },
{
    if let Inbound::Binary(data) = received {
        crate::protocol::parsed_in_order(data@);
    }
    let ack = FrameModel { frame_type: FrameType::HeartbeatAck, payload: Seq::empty() };
    crate::protocol::wire_is_in_order(ack);
    assert(heartbeat_answer() =~= seq![4u8, 0, 0, 0, 0]);
}

/// A browser is listened to until it closes or an agent did not take its input.
pub proof fn listening_goes_on(action: &BrowserAction<Vec<u8>>, taken: bool, listening: bool)
    requires
        call_ensures(keeps_listening, (action, taken), listening),
    ensures
        !listening <==> action is Stop || (action is Forward && !taken),
{
}

} // verus!
