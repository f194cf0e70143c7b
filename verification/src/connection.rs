//! One client connection, as a state machine.
//!
//! A connection starts by asking the device for its whole screen. From
//! then on it has two sources: the hub, whose messages go to the client
//! as they are, and the client's socket, whose binary frames go to the
//! device as they are. The caller waits on both and hands in whichever
//! is ready first; what to do with it is decided here. A connection that
//! is closing does nothing any more.

use vstd::prelude::*;
use crate::hub::{Received, ReceivedModel};
use crate::link::ControlCommand;

verus! {

/// Where a connection stands.
#[derive(Clone, Copy, Debug, PartialEq, Eq, Structural)]
pub enum ConnectionState {
    /// Accepted, nothing sent yet.
    Connecting,
    /// Relaying in both directions.
    Active,
    /// Done: the subscription and the socket are to be dropped.
    Closing,
}

/// What the client's socket delivered.
#[derive(Debug, PartialEq, Eq)]
pub enum SocketEvent {
    /// A binary frame with this payload.
    Binary(Vec<u8>),
    /// A close frame.
    Close,
    /// A frame of a kind that the protocol does not use.
    Unsupported,
    /// The socket failed.
    Failed,
    /// The socket has no frame to give.
    Nothing,
}

/// What the caller is to do.
#[derive(Debug, PartialEq, Eq)]
pub enum ConnectionAction {
    /// Nothing.
    Wait,
    /// Queue this command for the serial link.
    Control(ControlCommand),
    /// Send this message to the client.
    Forward(Vec<u8>),
    /// Drop the subscription and the socket.
    Close,
}

/// What a `ConnectionAction` holds, as a mathematical value.
pub enum ActionModel {
    Wait,
    Connect,
    WriteBytes(Seq<u8>),
    Forward(Seq<u8>),
    Close,
}

impl View for ConnectionAction {
    type V = ActionModel;

    open spec fn view(&self) -> ActionModel {
        match self {
            ConnectionAction::Wait => ActionModel::Wait,
            ConnectionAction::Control(ControlCommand::Connect) => ActionModel::Connect,
            ConnectionAction::Control(ControlCommand::WriteBytes(payload)) => ActionModel::WriteBytes(
                payload@,
            ),
            ConnectionAction::Forward(message) => ActionModel::Forward(message@),
            ConnectionAction::Close => ActionModel::Close,
        }
    }
}

/// What a `SocketEvent` holds, as a mathematical value.
pub enum SocketEventModel {
    Binary(Seq<u8>),
    Close,
    Unsupported,
    Failed,
    Nothing,
}

impl View for SocketEvent {
    type V = SocketEventModel;

    open spec fn view(&self) -> SocketEventModel {
        match self {
            SocketEvent::Binary(payload) => SocketEventModel::Binary(payload@),
            SocketEvent::Close => SocketEventModel::Close,
            SocketEvent::Unsupported => SocketEventModel::Unsupported,
            SocketEvent::Failed => SocketEventModel::Failed,
            SocketEvent::Nothing => SocketEventModel::Nothing,
        }
    }
}

/// The start of a connection: it becomes active and asks for a redraw.
/// A connection that has started already stays as it is.
pub open spec fn started(state: ConnectionState) -> (ConnectionState, ActionModel) {
    match state {
        ConnectionState::Connecting => (ConnectionState::Active, ActionModel::Connect),
        _ => (state, ActionModel::Wait),
    }
}

/// What an answer of the hub does to a connection.
///
/// An active connection forwards a message and goes on; it closes when it
/// has fallen behind or the hub is closed; it waits when nothing is
/// there. A connection that is not active does nothing.
pub open spec fn hub_step(state: ConnectionState, got: ReceivedModel) -> (
    ConnectionState,
    ActionModel,
) {
    match state {
        ConnectionState::Active => match got {
            ReceivedModel::Message(message) => (
                ConnectionState::Active,
                ActionModel::Forward(message),
            ),
            ReceivedModel::Lagged(_) => (ConnectionState::Closing, ActionModel::Close),
            ReceivedModel::Closed => (ConnectionState::Closing, ActionModel::Close),
            ReceivedModel::Empty => (ConnectionState::Active, ActionModel::Wait),
        },
        _ => (state, ActionModel::Wait),
    }
}

/// What a frame from the client does to a connection.
///
/// An active connection hands a binary payload to the device and goes on;
/// it closes on a close frame, on a frame that the protocol does not use,
/// and when the socket failed; it waits when the socket had nothing. A
/// connection that is not active does nothing.
pub open spec fn socket_step(state: ConnectionState, event: SocketEventModel) -> (
    ConnectionState,
    ActionModel,
) {
    match state {
        ConnectionState::Active => match event {
            SocketEventModel::Binary(payload) => (
                ConnectionState::Active,
                ActionModel::WriteBytes(payload),
            ),
            SocketEventModel::Close => (ConnectionState::Closing, ActionModel::Close),
            SocketEventModel::Unsupported => (ConnectionState::Closing, ActionModel::Close),
            SocketEventModel::Failed => (ConnectionState::Closing, ActionModel::Close),
            SocketEventModel::Nothing => (ConnectionState::Active, ActionModel::Wait),
        },
        _ => (state, ActionModel::Wait),
    }
}

/// Whether an action reaches the serial link.
pub open spec fn touches_link(action: ActionModel) -> bool {
    action is Connect || action is WriteBytes
}

/// A closing connection stays closing whatever comes, and asks nothing of
/// the caller: above all it never reaches the serial link again.
pub proof fn lemma_closing_is_final(got: ReceivedModel, event: SocketEventModel)
    ensures
        started(ConnectionState::Closing) == (ConnectionState::Closing, ActionModel::Wait),
        hub_step(ConnectionState::Closing, got) == (ConnectionState::Closing, ActionModel::Wait),
        socket_step(ConnectionState::Closing, event) == (
            ConnectionState::Closing,
            ActionModel::Wait,
        ),
{
}

/// Only an active connection writes to the device, and only what the
/// client sent; the one redraw request is made when the connection
/// starts.
pub proof fn lemma_link_is_reached_only_while_active(
    state: ConnectionState,
    got: ReceivedModel,
    event: SocketEventModel,
)
    ensures
        !touches_link(hub_step(state, got).1),
        touches_link(socket_step(state, event).1) ==> state == ConnectionState::Active
            && event is Binary,
        touches_link(started(state).1) ==> state == ConnectionState::Connecting,
{
}

/// A connection closes exactly on these: a lag or the end of the hub, a
/// close frame, a frame that the protocol does not use, a failure of the
/// socket.
pub proof fn lemma_when_a_connection_closes(got: ReceivedModel, event: SocketEventModel)
    ensures
        hub_step(ConnectionState::Active, got).0 == ConnectionState::Closing <==> got is Lagged
            || got is Closed,
        socket_step(ConnectionState::Active, event).0 == ConnectionState::Closing <==> event
            is Close || event is Unsupported || event is Failed,
{
}

/// The handler of one connection.
pub struct ConnectionHandler {
    state: ConnectionState,
}

impl View for ConnectionHandler {
    type V = ConnectionState;

    closed spec fn view(&self) -> ConnectionState {
        self.state
    }
}

impl ConnectionHandler {
    /// The handler of a connection that was just accepted.
    pub fn new() -> (handler: Self)
        ensures
            handler@ == ConnectionState::Connecting,
    {
        ConnectionHandler { state: ConnectionState::Connecting }
    }

    /// Where the connection stands.
    pub fn state(&self) -> (state: ConnectionState)
        ensures
            state == self@,
    {
        self.state
    }

    /// Whether the connection is done.
    pub fn is_closing(&self) -> (closing: bool)
        ensures
            closing == (self@ == ConnectionState::Closing),
    {
        match self.state {
            ConnectionState::Closing => true,
            _ => false,
        }
    }

    /// Starts the connection.
    pub fn start(&mut self) -> (action: ConnectionAction)
        ensures
            final(self)@ == started(old(self)@).0,
            action@ == started(old(self)@).1,
    {
        match self.state {
            ConnectionState::Connecting => {
                self.state = ConnectionState::Active;
                ConnectionAction::Control(ControlCommand::Connect)
            },
            _ => ConnectionAction::Wait,
        }
    }

    /// Takes in what the hub answered.
    pub fn on_hub(&mut self, got: Received) -> (action: ConnectionAction)
        ensures
            final(self)@ == hub_step(old(self)@, got@).0,
            action@ == hub_step(old(self)@, got@).1,
    {
        match self.state {
            ConnectionState::Active => match got {
                Received::Message(message) => ConnectionAction::Forward(message),
                Received::Lagged(_) => {
                    self.state = ConnectionState::Closing;
                    ConnectionAction::Close
                },
                Received::Closed => {
                    self.state = ConnectionState::Closing;
                    ConnectionAction::Close
                },
                Received::Empty => ConnectionAction::Wait,
            },
            _ => ConnectionAction::Wait,
        }
    }

    /// Takes in what the client's socket delivered.
    pub fn on_socket(&mut self, event: SocketEvent) -> (action: ConnectionAction)
        ensures
            final(self)@ == socket_step(old(self)@, event@).0,
            action@ == socket_step(old(self)@, event@).1,
    {
        match self.state {
            ConnectionState::Active => match event {
                SocketEvent::Binary(payload) => ConnectionAction::Control(
                    ControlCommand::WriteBytes(payload),
                ),
                SocketEvent::Close => {
                    self.state = ConnectionState::Closing;
                    ConnectionAction::Close
                },
                SocketEvent::Unsupported => {
                    self.state = ConnectionState::Closing;
                    ConnectionAction::Close
                },
                SocketEvent::Failed => {
                    self.state = ConnectionState::Closing;
                    ConnectionAction::Close
                },
                SocketEvent::Nothing => ConnectionAction::Wait,
            },
            _ => ConnectionAction::Wait,
        }
    }
}

} // verus!
