//! What holds from one end of a session to the other.

use crate::agent::on_server_message;
use crate::agent::on_shell_output;
use crate::agent::PtyAction;
use crate::protocol::Frame;
use crate::protocol::FrameModel;
use crate::protocol::FrameType;
use crate::protocol::ProtocolError;
use crate::relay::Relay;
use crate::relay::RelayModel;
use crate::server::on_agent_message;
use crate::server::on_browser_message;
use crate::server::BrowserAction;
use crate::server::Delivery;
use crate::ws::next_write;
use crate::ws::Inbound;
use crate::ws::Outbound;
use crate::ws::Write;
use vstd::prelude::*;

verus! {

/// What is typed in a browser reaches the shell unchanged: the server forwards the bytes of a
/// data frame, and the agent writes the frame's payload to the terminal.
pub proof fn browser_input_reaches_the_shell(input: Seq<u8>)
    requires
        input.len() <= u32::MAX,
    ensures
        ({
            let data = FrameModel { frame_type: FrameType::Data, payload: input }.wire();
            &&& crate::server::browser_action(Inbound::Binary(data)) == BrowserAction::Forward(data)
            &&& crate::agent::server_action(Inbound::Binary(data)) == PtyAction::Input(input)
        }),
{
    crate::protocol::frame_round_trip(
        FrameModel { frame_type: FrameType::Data, payload: input },
        Seq::empty(),
    );
}

/// A window size that a browser sends reaches the terminal.
pub proof fn browser_resize_reaches_the_terminal(cols: u16, rows: u16)
    ensures
        ({
            let data = FrameModel::resize(cols, rows).wire();
            &&& crate::server::browser_action(Inbound::Binary(data)) == BrowserAction::Forward(data)
            &&& crate::agent::server_action(Inbound::Binary(data)) == PtyAction::<Seq<u8>>::Resize {
                cols,
                rows,
            }
        }),
{
    crate::protocol::resize_round_trip(cols, rows);
}

/// What the shell prints reaches the browser that is shown the session unchanged: the server hands it
/// the agent's bytes, and they read as a data frame with the output for payload.
pub proof fn shell_output_reaches_the_browser(
    m: RelayModel,
    token: Seq<char>,
    web: int,
    output: Seq<u8>,
)
    requires
        m.viewer(token) == Some(web),
        output.len() <= u32::MAX,
    ensures
        crate::server::delivery(
            m,
            m.sessions[token].id,
            Inbound::Binary(crate::agent::output_bytes(output)),
        ) == Delivery::To(web, crate::agent::output_bytes(output)),
        crate::protocol::parsed(crate::agent::output_bytes(output)) == Ok::<
            FrameModel,
            crate::protocol::ProtocolError,
        >(FrameModel { frame_type: FrameType::Data, payload: output }),
{
    crate::protocol::frame_round_trip(
        FrameModel { frame_type: FrameType::Data, payload: output },
        Seq::empty(),
    );
}

/// Every heartbeat of a browser, whatever its payload, is answered by the server itself with a
/// heartbeat acknowledgement, and is not forwarded.
pub proof fn heartbeat_is_answered(payload: Seq<u8>)
    requires
        payload.len() <= u32::MAX,
    ensures
        crate::server::browser_action(
            Inbound::Binary(FrameModel { frame_type: FrameType::Heartbeat, payload }.wire()),
        ) == BrowserAction::Reply(crate::server::heartbeat_answer()),
        crate::protocol::parsed(crate::server::heartbeat_answer()) == Ok::<
            FrameModel,
            crate::protocol::ProtocolError,
        >(FrameModel { frame_type: FrameType::HeartbeatAck, payload: Seq::empty() }),
{
    crate::protocol::frame_round_trip(
        FrameModel { frame_type: FrameType::Heartbeat, payload },
        Seq::empty(),
    );
    crate::protocol::frame_round_trip(
        FrameModel { frame_type: FrameType::HeartbeatAck, payload: Seq::empty() },
        Seq::empty(),
    );
}

/// A browser cannot upset an agent: what the server forwards is what the browser sent, is a frame,
/// and neither ends the agent's session nor is malformed to it.
pub proof fn forwarded_bytes_are_harmless(received: Inbound<Seq<u8>>, data: Seq<u8>)
    requires
        crate::server::browser_action(received) == BrowserAction::Forward(data),
    ensures
        received == Inbound::Binary(data),
        crate::protocol::parsed(data) is Ok,
        crate::agent::server_action(Inbound::Binary(data)) !is Stop,
        crate::agent::server_action(Inbound::Binary(data)) !is Malformed,
{
}

/// Shell output on its whole way: what was read becomes a message, the agent's socket writes it,
/// the server hands it to the browser that is shown the session, the browser's socket writes it,
/// and what arrives there decodes to a data frame with all of the output and nothing else.
pub proof fn shell_output_arrives_whole(
    buf: &[u8],
    n: usize,
    message: Option<Vec<u8>>,
    sent: Write<Vec<u8>>,
    arrived: Vec<u8>,
    relay: &Relay,
    session: u64,
    web: u64,
    action: Delivery<u64, Vec<u8>>,
    shown: Write<Vec<u8>>,
    received: &[u8],
    result: Result<Frame, ProtocolError>,
)
    requires
        0 < n <= buf@.len(),
        n <= u32::MAX,
        call_ensures(on_shell_output, (buf, Some(n)), message),
        message matches Some(bytes) ==> call_ensures(next_write, (Outbound::Data(bytes),), sent),
        sent matches Write::Binary(bytes) ==> arrived@ == bytes@,
        call_ensures(Relay::output_target, (relay, session), Some(web)),
        call_ensures(on_agent_message, (relay, session, Inbound::Binary(arrived)), action),
        action matches Delivery::To(_, bytes) ==> call_ensures(
            next_write,
            (Outbound::Data(bytes),),
            shown,
        ),
        shown matches Write::Binary(bytes) ==> received@ == bytes@,
        call_ensures(Frame::decode, (received,), result),
    ensures
        message is Some,
        sent is Binary,
        action matches Delivery::To(to, _) && to == web,
        shown is Binary,
        result matches Ok(frame) && frame.frame_type is Data && frame.payload@ == buf@.subrange(
            0,
            n as int,
        ),
{
    crate::agent::output_is_sent_whole(buf, Some(n), message);
    crate::ws::written(Outbound::Data(message->0), sent);
    crate::server::agent_messages(relay, session, Some(web), Inbound::Binary(arrived), action);
    crate::ws::written(Outbound::Data(action->To_1), shown);
    crate::protocol::decoded_in_order(received, result);
    assert(received@ == message->0@);
    let frame = result->Ok_0;
    assert forall|i: int| 0 <= i < n implies frame.payload@[i] == #[trigger] buf@[i] by {
        assert(received@[5 + i] == buf@[i]);
    }
    assert(frame.payload@ =~= buf@.subrange(0, n as int));
}

/// Browser input on its whole way: it is put into a data frame, the server forwards the frame, the
/// agent's connection writes it, and the agent hands all of the input and nothing else to the
/// terminal.
pub proof fn browser_input_arrives_whole(
    input: &[u8],
    frame: Frame,
    message: Vec<u8>,
    action: BrowserAction<Vec<u8>>,
    sent: Write<Vec<u8>>,
    arrived: Vec<u8>,
    done: PtyAction<Vec<u8>>,
)
    requires
        input@.len() <= u32::MAX,
        call_ensures(Frame::new_data, (input,), frame),
        call_ensures(Frame::encode, (&frame,), message),
        call_ensures(on_browser_message, (Inbound::Binary(message),), action),
        action matches BrowserAction::Forward(bytes) ==> call_ensures(
            next_write,
            (Outbound::Data(bytes),),
            sent,
        ),
        sent matches Write::Binary(bytes) ==> arrived@ == bytes@,
        call_ensures(on_server_message, (Inbound::Binary(arrived),), done),
    ensures
        action is Forward,
        sent is Binary,
        done matches PtyAction::Input(bytes) && bytes@ == input@,
{
    crate::protocol::encoded_in_order(&frame, message);
    crate::server::browser_messages(Inbound::Binary(message), action);
    crate::ws::written(Outbound::Data(action->Forward_0), sent);
    crate::agent::server_messages(Inbound::Binary(arrived), done);
    assert(arrived@ == message@);
    assert(message@.subrange(5, 5 + input@.len() as int) =~= input@) by {
        assert forall|i: int| 0 <= i < input@.len() implies message@[5 + i]
            == #[trigger] input@[i] by {
            assert(frame.payload@[i] == input@[i]);
        }
    }
}

/// A window size on its whole way from the browser to the terminal.
pub proof fn window_size_arrives(
    cols: u16,
    rows: u16,
    frame: Frame,
    message: Vec<u8>,
    action: BrowserAction<Vec<u8>>,
    sent: Write<Vec<u8>>,
    arrived: Vec<u8>,
    done: PtyAction<Vec<u8>>,
)
    requires
        call_ensures(Frame::new_resize, (cols, rows), frame),
        call_ensures(Frame::encode, (&frame,), message),
        call_ensures(on_browser_message, (Inbound::Binary(message),), action),
        action matches BrowserAction::Forward(bytes) ==> call_ensures(
            next_write,
            (Outbound::Data(bytes),),
            sent,
        ),
        sent matches Write::Binary(bytes) ==> arrived@ == bytes@,
        call_ensures(on_server_message, (Inbound::Binary(arrived),), done),
    ensures
        action is Forward,
        sent is Binary,
        done matches PtyAction::Resize { cols: c, rows: r } && c == cols && r == rows,
{
    crate::protocol::resize_payload(cols, rows, frame);
    crate::protocol::encoded_in_order(&frame, message);
    crate::server::browser_messages(Inbound::Binary(message), action);
    crate::ws::written(Outbound::Data(action->Forward_0), sent);
    crate::agent::server_messages(Inbound::Binary(arrived), done);
    assert(arrived@ == message@);
    assert(message@[5] == frame.payload@[0]);
    assert(message@[6] == frame.payload@[1]);
    assert(message@[7] == frame.payload@[2]);
    assert(message@[8] == frame.payload@[3]);
}

/// A browser's heartbeat is answered with an acknowledgement that the browser can decode.
pub proof fn heartbeat_comes_back(
    heartbeat: Frame,
    message: Vec<u8>,
    action: BrowserAction<Vec<u8>>,
    sent: Write<Vec<u8>>,
    received: &[u8],
    result: Result<Frame, ProtocolError>,
)
    requires
        call_ensures(Frame::heartbeat, (), heartbeat),
        call_ensures(Frame::encode, (&heartbeat,), message),
        call_ensures(on_browser_message, (Inbound::Binary(message),), action),
        action matches BrowserAction::Reply(bytes) ==> call_ensures(
            next_write,
            (Outbound::Data(bytes),),
            sent,
        ),
        sent matches Write::Binary(bytes) ==> received@ == bytes@,
        call_ensures(Frame::decode, (received,), result),
    ensures
        action is Reply,
        sent is Binary,
        result matches Ok(frame) && frame.frame_type is HeartbeatAck && frame.payload@.len() == 0,
{
    crate::protocol::encoded_in_order(&heartbeat, message);
    crate::server::browser_messages(Inbound::Binary(message), action);
    crate::ws::written(Outbound::Data(action->Reply_0), sent);
    crate::protocol::decoded_in_order(received, result);
}

} // verus!
