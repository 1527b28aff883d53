//! What is read from and written to a WebSocket, with the bytes as `Vec<u8>` in the code and as
//! `Seq<u8>` in the contracts.

use vstd::prelude::*;

verus! {

/// What a WebSocket hands to the task that reads it.
#[derive(Debug)]
pub enum Inbound<B> {
    Binary(B),
    Text,
    Ping,
    Pong,
    /// The peer closes the connection.
    Close,
    /// Nothing more comes: the stream is over or broke.
    Ended,
}

impl View for Inbound<Vec<u8>> {
    type V = Inbound<Seq<u8>>;

    open spec fn view(&self) -> Inbound<Seq<u8>> {
        match self {
            Inbound::Binary(data) => Inbound::Binary(data@),
            Inbound::Text => Inbound::Text,
            Inbound::Ping => Inbound::Ping,
            Inbound::Pong => Inbound::Pong,
            Inbound::Close => Inbound::Close,
            Inbound::Ended => Inbound::Ended,
        }
    }
}

/// What wakes the task that writes a WebSocket.
#[derive(Debug)]
pub enum Outbound<B> {
    /// The channel behind the socket has bytes to send.
    Data(B),
    /// Every sender of that channel is gone.
    Exhausted,
    /// The ping interval is over.
    PingDue,
    /// What was written last could not be sent.
    SendFailed,
}

impl View for Outbound<Vec<u8>> {
    type V = Outbound<Seq<u8>>;

    open spec fn view(&self) -> Outbound<Seq<u8>> {
        match self {
            Outbound::Data(data) => Outbound::Data(data@),
            Outbound::Exhausted => Outbound::Exhausted,
            Outbound::PingDue => Outbound::PingDue,
            Outbound::SendFailed => Outbound::SendFailed,
        }
    }
}

/// What the writing task does.
#[derive(Debug)]
pub enum Write<B> {
    Binary(B),
    /// A ping without content.
    Ping,
    Stop,
}

impl View for Write<Vec<u8>> {
    type V = Write<Seq<u8>>;

    open spec fn view(&self) -> Write<Seq<u8>> {
        match self {
            Write::Binary(data) => Write::Binary(data@),
            Write::Ping => Write::Ping,
            Write::Stop => Write::Stop,
        }
    }
}

/// Bytes are sent as they are, a due ping is sent, and the task ends with its channel or with the
/// first thing that cannot be sent.
pub open spec fn write_for(event: Outbound<Seq<u8>>) -> Write<Seq<u8>> {
    match event {
        Outbound::Data(data) => Write::Binary(data),
        Outbound::PingDue => Write::Ping,
        Outbound::Exhausted | Outbound::SendFailed => Write::Stop,
    }
}

pub fn next_write(event: Outbound<Vec<u8>>) -> (write: Write<Vec<u8>>)
    ensures
        write@ == write_for(event@),
{
    match event {
        Outbound::Data(data) => Write::Binary(data),
        Outbound::PingDue => Write::Ping,
        Outbound::Exhausted => Write::Stop,
        Outbound::SendFailed => Write::Stop,
    }
}

/// Every message is written whole and unchanged, whatever its length, a ping is written when one is
/// due, and writing ends when the channel is exhausted or a message could not be sent, and not
/// before.
pub proof fn messages_are_written_whole(event: Outbound<Seq<u8>>, data: Seq<u8>)
    ensures
        event == Outbound::Data(data) <==> write_for(event) == Write::Binary(data),
        event is PingDue <==> write_for(event) is Ping,
        event is Exhausted || event is SendFailed <==> write_for(event) is Stop,
{
}

/// What `next_write` gives for each event: the bytes of a message as they came, and nothing for
/// them in the other cases.
pub proof fn written(event: Outbound<Vec<u8>>, write: Write<Vec<u8>>)
    requires
        call_ensures(next_write, (event,), write),
    ensures
        event matches Outbound::Data(data) ==> (write matches Write::Binary(sent) && sent@ == data@),
        write matches Write::Binary(sent) ==> (event matches Outbound::Data(data) && sent@ == data@),
        event is PingDue <==> write is Ping,
        event is Exhausted || event is SendFailed <==> write is Stop,
{
}

/// The models of what is read and written hold the same bytes.
pub proof fn models_hold_the_bytes(
    inbound: Inbound<Vec<u8>>,
    outbound: Outbound<Vec<u8>>,
    write: Write<Vec<u8>>,
)
    ensures
        inbound matches Inbound::Binary(b) ==> inbound@ == Inbound::Binary(b@),
        inbound is Text <==> inbound@ is Text,
        inbound is Ping <==> inbound@ is Ping,
        inbound is Pong <==> inbound@ is Pong,
        inbound is Close <==> inbound@ is Close,
        inbound is Ended <==> inbound@ is Ended,
        outbound matches Outbound::Data(b) ==> outbound@ == Outbound::Data(b@),
        outbound is PingDue <==> outbound@ is PingDue,
        outbound is Exhausted <==> outbound@ is Exhausted,
        outbound is SendFailed <==> outbound@ is SendFailed,
        write matches Write::Binary(b) ==> write@ == Write::Binary(b@),
        write is Ping <==> write@ is Ping,
        write is Stop <==> write@ is Stop,
{
}

} // verus!
