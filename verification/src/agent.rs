//! The agent's side: where it connects, which shell it starts, and what it does with what the
//! server sends and the shell prints.

use crate::protocol::Frame;
use crate::protocol::FrameModel;
use crate::protocol::FrameType;
use crate::protocol::ProtocolError;
use crate::ws::Inbound;
use vstd::prelude::*;
use vstd::slice::slice_subrange;

verus! {

/// The size of the terminal until a browser asks for another, in columns and rows.
pub const INITIAL_COLS: u16 = 80;

pub const INITIAL_ROWS: u16 = 24;

/// The most bytes of shell output that are read at once.
pub const READ_CHUNK: usize = 4096;

/// The server that is used when none is named.
pub fn server_url(configured: Option<String>) -> (url: String)
    ensures
        url@ == match configured {
            Some(u) => u@,
            None => "ws://127.0.0.1:7093"@,
        },
{
    match configured {
        Some(url) => url,
        None => "ws://127.0.0.1:7093".to_owned(),
    }
}

/// The address at which a server takes the agent of a token.
pub fn session_url(server_url: &str, token: &str) -> (url: String)
    ensures
        url@ == server_url@ + "/ws/agent/"@ + token@,
{
    let mut url = server_url.to_owned();
    url.append("/ws/agent/");
    url.append(token);
    url
}

/// The shell to start: the one that the environment names, or the platform's own.
pub fn default_shell(configured: Option<String>, windows: bool) -> (shell: String)
    ensures
        shell@ == match configured {
            Some(s) => s@,
            None => if windows {
                "powershell.exe"@
            } else {
                "/bin/sh"@
            },
        },
{
    match configured {
        Some(shell) => shell,
        None => {
            if windows {
                "powershell.exe".to_owned()
            } else {
                "/bin/sh".to_owned()
            }
        },
    }
}

/// What the agent does with something that the server sent.
#[derive(Debug)]
pub enum PtyAction<B> {
    /// Write these bytes to the terminal as input.
    Input(B),
    Resize { cols: u16, rows: u16 },
    /// Nothing is to be done.
    Skip,
    /// The bytes are no frame; the session goes on.
    Malformed(ProtocolError),
    /// End the session.
    Stop,
}

impl View for PtyAction<Vec<u8>> {
    type V = PtyAction<Seq<u8>>;

    open spec fn view(&self) -> PtyAction<Seq<u8>> {
        match self {
            PtyAction::Input(data) => PtyAction::Input(data@),
            PtyAction::Resize { cols, rows } => PtyAction::Resize { cols: *cols, rows: *rows },
            PtyAction::Skip => PtyAction::Skip,
            PtyAction::Malformed(e) => PtyAction::Malformed(*e),
            PtyAction::Stop => PtyAction::Stop,
        }
    }
}

/// What a frame asks of the agent. A resize frame that is too short asks nothing.
pub open spec fn frame_action(frame: FrameModel) -> PtyAction<Seq<u8>> {
    match frame.frame_type {
        FrameType::Data => PtyAction::Input(frame.payload),
        FrameType::Resize => match frame.window() {
            Some((cols, rows)) => PtyAction::Resize { cols, rows },
            None => PtyAction::Skip,
        },
        FrameType::Heartbeat | FrameType::HeartbeatAck => PtyAction::Skip,
        FrameType::Close => PtyAction::Stop,
    }
}

/// What something that the server sent asks of the agent.
pub open spec fn server_action(received: Inbound<Seq<u8>>) -> PtyAction<Seq<u8>> {
    match received {
        Inbound::Binary(data) => match crate::protocol::parsed(data) {
            Ok(frame) => frame_action(frame),
            Err(e) => PtyAction::Malformed(e),
        },
        Inbound::Close | Inbound::Ended => PtyAction::Stop,
        Inbound::Text | Inbound::Ping | Inbound::Pong => PtyAction::Skip,
    }
}

pub fn handle_frame(frame: Frame) -> (action: PtyAction<Vec<u8>>)
    ensures
        action@ == frame_action(frame@),
{
    match frame.frame_type {
        FrameType::Data => PtyAction::Input(frame.payload),
        FrameType::Resize => match frame.parse_resize() {
            Some((cols, rows)) => PtyAction::Resize { cols, rows },
            None => PtyAction::Skip,
        },
        FrameType::Heartbeat => PtyAction::Skip,
        FrameType::HeartbeatAck => PtyAction::Skip,
        FrameType::Close => PtyAction::Stop,
    }
}

pub fn on_server_message(received: Inbound<Vec<u8>>) -> (action: PtyAction<Vec<u8>>)
    ensures
        action@ == server_action(received@),
{
    match received {
        Inbound::Binary(data) => match Frame::decode(data.as_slice()) {
            Ok(frame) => handle_frame(frame),
            Err(e) => PtyAction::Malformed(e),
        },
        Inbound::Close => PtyAction::Stop,
        Inbound::Ended => PtyAction::Stop,
        Inbound::Text => PtyAction::Skip,
        Inbound::Ping => PtyAction::Skip,
        Inbound::Pong => PtyAction::Skip,
    }
}

/// Whether the session goes on after an action, given whether the terminal took what it was
/// handed. Input that cannot be written ends the session; a resize that fails does not.
pub fn keeps_running(action: &PtyAction<Vec<u8>>, done: bool) -> (running: bool)
    ensures
        running == match action@ {
            PtyAction::Input(_) => done,
            PtyAction::Stop => false,
            PtyAction::Resize { .. } | PtyAction::Skip | PtyAction::Malformed(_) => true,
        },
{
    match action {
        PtyAction::Input(_) => done,
        PtyAction::Stop => false,
        PtyAction::Resize { .. } => true,
        PtyAction::Skip => true,
        PtyAction::Malformed(_) => true,
    }
}

/// The bytes that carry shell output to the server.
pub open spec fn output_bytes(output: Seq<u8>) -> Seq<u8> {
    FrameModel { frame_type: FrameType::Data, payload: output }.wire()
}

/// What to send for a read of the shell's output: `read` is the number of bytes at the front of
/// `buf` that were filled, or `None` where the read failed. Nothing read or a failure ends the
/// reading.
pub fn on_shell_output(buf: &[u8], read: Option<usize>) -> (message: Option<Vec<u8>>)
    requires
        read matches Some(n) ==> n <= buf@.len(),
    ensures
        match read {
            Some(n) if n > 0 => message matches Some(bytes) && bytes@ == output_bytes(
                buf@.subrange(0, n as int),
            ),
            _ => message is None,
        },
{
    match read {
        Some(n) => {
            if n == 0 {
                None
            } else {
                Some(Frame::new_data(slice_subrange(buf, 0, n)).encode())
            }
        },
        None => None,
    }
}

/// Where an agent connects: to the server that it is told, at the path of agents, under its token.
pub proof fn agent_address(
    configured: Option<String>,
    server: String,
    base: &str,
    token: &str,
    address: String,
)
    requires
        call_ensures(server_url, (configured,), server),
        call_ensures(session_url, (base, token), address),
    ensures
        configured matches Some(told) ==> server@ == told@,
        configured is None ==> server@ == "ws://127.0.0.1:7093"@,
        address@ == base@ + "/ws/agent/"@ + token@,
{
}

/// The shell that the environment names is the one that is started; without one it is the
/// platform's own.
pub proof fn shell_choice(configured: Option<String>, windows: bool, shell: String)
    requires
        call_ensures(default_shell, (configured, windows), shell),
    ensures
        configured matches Some(named) ==> shell@ == named@,
        configured is None && windows ==> shell@ == "powershell.exe"@,
        configured is None && !windows ==> shell@ == "/bin/sh"@,
{
}

/// What each frame asks of the agent: data is input as it is, a resize with four bytes or more
/// sets the window, a close ends the session, and nothing else does anything.
pub proof fn frames_are_obeyed(frame: Frame, action: PtyAction<Vec<u8>>)
    requires
        call_ensures(handle_frame, (frame,), action),
    ensures
        frame.frame_type is Data <==> action is Input,
        action matches PtyAction::Input(input) ==> input@ == frame.payload@,
        action is Resize <==> frame.frame_type is Resize && frame.payload@.len() >= 4,
        action matches PtyAction::Resize { cols, rows } ==> {
            &&& cols == frame.payload@[0] * 0x100 + frame.payload@[1]
            &&& rows == frame.payload@[2] * 0x100 + frame.payload@[3]
        },
        frame.frame_type is Close <==> action is Stop,
        !(action is Malformed),
{
    crate::protocol::window_bytes(frame@);
}

/// What `on_server_message` does with what the server sent, byte by byte: the session is ended by
/// nothing but a close frame, a close or the end of the stream; the payload of a data frame is
/// input as it is; a resize frame sets the window that it holds; bytes that are no whole frame of
/// a known type are malformed; and all else does nothing.
pub proof fn server_messages(received: Inbound<Vec<u8>>, action: PtyAction<Vec<u8>>)
    requires
        call_ensures(on_server_message, (received,), action),
    ensures
        received is Close || received is Ended ==> action is Stop,
        received is Text || received is Ping || received is Pong ==> action is Skip,
        received matches Inbound::Binary(data) ==> {
            let n = data@[1] * 0x100_0000 + data@[2] * 0x1_0000 + data@[3] * 0x100 + data@[4];
            let known = data@.len() >= 5 && 1 <= data@[0] <= 5;
            let whole = known && data@.len() >= 5 + n;
            &&& !whole && (data@.len() < 5 || known) ==> (action matches PtyAction::Malformed(e)
                && e is InsufficientData)
            &&& data@.len() >= 5 && !known ==> (action matches PtyAction::Malformed(e) && (
            e matches ProtocolError::UnknownFrameType(b) && b == data@[0]))
            &&& whole && data@[0] == 1 ==> (action matches PtyAction::Input(input) && input@
                == data@.subrange(5, 5 + n))
            &&& whole && data@[0] == 2 && n >= 4 ==> (action matches PtyAction::Resize { cols, rows }
                && cols == data@[5] * 0x100 + data@[6] && rows == data@[7] * 0x100 + data@[8])
            &&& whole && data@[0] == 2 && n < 4 ==> action is Skip
            &&& whole && (data@[0] == 3 || data@[0] == 4) ==> action is Skip
            &&& whole && data@[0] == 5 ==> action is Stop
        },
{
    if let Inbound::Binary(data) = received {
        crate::protocol::parsed_in_order(data@);
        if let Ok(frame) = crate::protocol::parsed(data@) {
            let n = data@[1] * 0x100_0000 + data@[2] * 0x1_0000 + data@[3] * 0x100 + data@[4];
            crate::protocol::window_bytes(frame);
            assert(frame.payload =~= data@.subrange(5, 5 + n));
        }
    }
}

/// A session goes on until it is stopped or its input could not be written.
pub proof fn running_goes_on(action: &PtyAction<Vec<u8>>, done: bool, running: bool)
    requires
        call_ensures(keeps_running, (action, done), running),
    ensures
        !running <==> action is Stop || (action is Input && !done),
{
}

/// Whatever the shell printed, all of it and nothing else is sent, as one data frame; nothing is
/// sent where nothing was read.
pub proof fn output_is_sent_whole(buf: &[u8], read: Option<usize>, message: Option<Vec<u8>>)
    requires
        read matches Some(n) ==> n <= buf@.len(),
        call_ensures(on_shell_output, (buf, read), message),
    ensures
        message is Some <==> (read matches Some(n) && n > 0),
        message matches Some(bytes) ==> {
            &&& read matches Some(n)
            &&& bytes@.len() == 5 + n
            &&& bytes@[0] == 1
            &&& bytes@[1] * 0x100_0000 + bytes@[2] * 0x1_0000 + bytes@[3] * 0x100 + bytes@[4]
                == n as int % 0x1_0000_0000
            &&& forall|i: int| 0 <= i < n ==> bytes@[5 + i] == #[trigger] buf@[i]
        },
{
    if let Some(n) = read {
        let output = buf@.subrange(0, n as int);
        crate::protocol::wire_is_in_order(
            FrameModel { frame_type: FrameType::Data, payload: output },
        );
        if n > 0 {
            let bytes = message->0;
            assert forall|i: int| 0 <= i < n implies bytes@[5 + i] == #[trigger] buf@[i] by {
                assert(output[i] == buf@[i]);
            }
        }
    }
}

/// The terminal starts with 80 columns and 24 rows, and output is read in pieces of 4096 bytes.
pub proof fn sizes()
    ensures
        INITIAL_COLS == 80,
        INITIAL_ROWS == 24,
        READ_CHUNK == 4096,
{
}

} // verus!
