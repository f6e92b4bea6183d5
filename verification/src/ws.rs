use vstd::prelude::*;

verus! {

/// Why a WebSocket connection is closed: the close code and an optional description.
#[derive(Debug)]
pub struct CloseReason {
    pub code: u16,
    pub description: Option<String>,
}

/// One piece of a fragmented message.
#[derive(Debug)]
pub enum Item {
    FirstText(Vec<u8>),
    FirstBinary(Vec<u8>),
    Continue(Vec<u8>),
    Last(Vec<u8>),
}

/// A frame received from the peer.
#[derive(Debug)]
pub enum Frame {
    Text(Vec<u8>),
    Binary(Vec<u8>),
    Continuation(Item),
    Ping(Vec<u8>),
    Pong(Vec<u8>),
    Close(Option<CloseReason>),
}

/// A message sent to the peer.
#[derive(Debug)]
pub enum Message {
    Text(String),
    Binary(Vec<u8>),
    Continuation(Item),
    Ping(Vec<u8>),
    Pong(Vec<u8>),
    Close(Option<CloseReason>),
}

/// What the server does about a frame: the message it sends back, if any,
/// and the payload it writes to the diagnostic log, if any.
#[derive(Debug)]
pub struct Reaction {
    pub reply: Option<Message>,
    pub logged: Option<Vec<u8>>,
}

/// Where a connection stands between handshake and teardown.
#[derive(Clone, Copy, Debug, PartialEq, Eq, Structural)]
pub enum ConnectionState {
    /// Frames are answered.
    Open,
    /// The peer's close has been echoed; the transport is tearing down.
    Closing,
    /// The connection is gone.
    Closed,
}

/// The answer to a frame: a ping is answered by a pong with the same
/// payload, a close is echoed with the same reason, and nothing else is
/// answered. The payload of a text or binary frame goes to the log.
pub open spec fn reaction_to(frame: Frame) -> Reaction {
    match frame {
        Frame::Ping(payload) => Reaction { reply: Some(Message::Pong(payload)), logged: None },
        Frame::Close(reason) => Reaction { reply: Some(Message::Close(reason)), logged: None },
        Frame::Binary(payload) => Reaction { reply: None, logged: Some(payload) },
        Frame::Text(payload) => Reaction { reply: None, logged: Some(payload) },
        Frame::Pong(_) => Reaction { reply: None, logged: None },
        Frame::Continuation(_) => Reaction { reply: None, logged: None },
    }
}

/// The state after a frame: a close frame starts the teardown of an open
/// connection, every other frame leaves the state as it is.
pub open spec fn state_after(state: ConnectionState, frame: Frame) -> ConnectionState {
    if state == ConnectionState::Open && frame is Close {
        ConnectionState::Closing
    } else {
        state
    }
}

/// Answers one frame.
pub fn react(frame: Frame) -> (r: Reaction)
    ensures
        r == reaction_to(frame),
{
    match frame {
        Frame::Ping(payload) => Reaction { reply: Some(Message::Pong(payload)), logged: None },
        Frame::Close(reason) => Reaction { reply: Some(Message::Close(reason)), logged: None },
        Frame::Binary(payload) => Reaction { reply: None, logged: Some(payload) },
        Frame::Text(payload) => Reaction { reply: None, logged: Some(payload) },
        Frame::Pong(_) => Reaction { reply: None, logged: None },
        Frame::Continuation(_) => Reaction { reply: None, logged: None },
    }
}

/// The heartbeat of one connection. It holds no application data, only how
/// far the connection is.
#[derive(Debug)]
pub struct Heartbeat {
    state: ConnectionState,
}

impl Heartbeat {
    /// How far the connection is.
    pub closed spec fn view_state(&self) -> ConnectionState {
        self.state
    }

    /// The heartbeat of a connection whose handshake has just completed.
    pub fn new() -> (r: Heartbeat)
        ensures
            r.view_state() == ConnectionState::Open,
    {
        Heartbeat { state: ConnectionState::Open }
    }

    /// How far the connection is.
    pub fn state(&self) -> (r: ConnectionState)
        ensures
            r == self.view_state(),
    {
        self.state
    }

    /// Takes a frame from the peer. While the connection is open the frame
    /// is answered as `reaction_to` says; afterwards nothing is sent and
    /// nothing is logged.
    pub fn on_frame(&mut self, frame: Frame) -> (r: Reaction)
        ensures
            final(self).view_state() == state_after(old(self).view_state(), frame),
            old(self).view_state() == ConnectionState::Open ==> r == reaction_to(frame),
            old(self).view_state() != ConnectionState::Open ==> r == (Reaction {
                reply: None,
                logged: None,
            }),
    {
        match self.state {
            ConnectionState::Open => {
                if let Frame::Close(_) = &frame {
                    self.state = ConnectionState::Closing;
                }
                react(frame)
            },
            _ => Reaction { reply: None, logged: None },
        }
    }

    /// Takes the end of the connection, for whatever reason it came. The
    /// result says whether the shutdown is to be reported: it is `true` the
    /// first time and `false` ever after.
    pub fn on_shutdown(&mut self) -> (notify: bool)
        ensures
            final(self).view_state() == ConnectionState::Closed,
            notify == (old(self).view_state() != ConnectionState::Closed),
    {
        let notify = match self.state {
            ConnectionState::Closed => false,
            _ => true,
        };
        self.state = ConnectionState::Closed;
        notify
    }
}

} // verus!
