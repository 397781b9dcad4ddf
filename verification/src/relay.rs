//! What the relay does with one client connection: which frames it hands to
//! the adapter, which it drops, and when the connection ends.
//!
//! The relay's loop performs each action and reports what came of it as the
//! next event. Holding the adapter for the length of one write is the
//! loop's business; every `Write` carries the whole of what is to be
//! written in one piece.

use crate::message::{DmxMessage, UNIVERSE_SIZE};
use vstd::prelude::*;

verus! {

/// The number of leading slots that the older adapters take.
pub const ADAPTER_WINDOW: usize = 128;

/// Where a connection stands.
#[derive(Clone, Copy, Debug, PartialEq, Eq, Structural)]
pub enum ConnectionState {
    /// The client has connected and the handshake is under way.
    Connected,
    /// The relay waits for the client's next message.
    Receiving,
    /// A frame is being written to the adapter.
    Forwarding,
    /// The connection is over.
    Closed,
}

/// What happened on a connection.
#[derive(Debug)]
pub enum RelayEvent {
    /// The handshake is done.
    Opened,
    /// A text message came and could be read as a message.
    Frame(DmxMessage),
    /// A text message came and could not be read.
    Garbled,
    /// A message came that is no text.
    Other,
    /// The write to the adapter returned, well or not.
    Written(bool),
    /// Reading failed or the client has gone.
    Failed,
}

/// What the relay's loop is to do next.
#[derive(Debug)]
pub enum RelayAction {
    /// Wait for the client's next message.
    Receive,
    /// Take the adapter, write these bytes in one call, and let it go.
    Write(Vec<u8>),
    /// Leave the connection's loop.
    Stop,
    /// Nothing: the event does not belong where the connection stands.
    Hold,
}

/// An action, with the bytes to write as a sequence.
pub enum ActionModel {
    Receive,
    Write(Seq<u8>),
    Stop,
    Hold,
}

impl View for RelayAction {
    type V = ActionModel;

    open spec fn view(&self) -> ActionModel {
        match self {
            RelayAction::Receive => ActionModel::Receive,
            RelayAction::Write(bytes) => ActionModel::Write(bytes@),
            RelayAction::Stop => ActionModel::Stop,
            RelayAction::Hold => ActionModel::Hold,
        }
    }
}

/// What a connection is, apart from how it is stored.
pub struct ConnectionModel {
    pub state: ConnectionState,
    /// The number of leading slots that go to the adapter.
    pub window: usize,
}

/// The bytes of a message that go to the adapter: the first `window` slots
/// of a complete frame. A message of any other length has none.
pub open spec fn payload(message: DmxMessage, window: usize) -> Option<Seq<u8>> {
    if message.is_frame() && window <= UNIVERSE_SIZE {
        Some(message.buffer@.take(window as int))
    } else {
        None
    }
}

impl ConnectionModel {
    /// The connection's invariant: the window lies within the universe.
    pub open spec fn wf(self) -> bool {
        self.window <= UNIVERSE_SIZE
    }

    /// Where the connection stands after an event.
    pub open spec fn next_state(self, event: RelayEvent) -> ConnectionState {
        match (self.state, event) {
            (ConnectionState::Closed, _) => ConnectionState::Closed,
            (ConnectionState::Forwarding, RelayEvent::Written(_)) => ConnectionState::Receiving,
            (ConnectionState::Forwarding, _) => ConnectionState::Forwarding,
            (_, RelayEvent::Failed) => ConnectionState::Closed,
            (ConnectionState::Connected, RelayEvent::Opened) => ConnectionState::Receiving,
            (ConnectionState::Receiving, RelayEvent::Frame(message)) => if payload(
                message,
                self.window,
            ).is_some() {
                ConnectionState::Forwarding
            } else {
                ConnectionState::Receiving
            },
            (state, _) => state,
        }
    }

    /// What the loop is to do after an event.
    pub open spec fn action(self, event: RelayEvent) -> ActionModel {
        match (self.state, event) {
            (ConnectionState::Closed, _) => ActionModel::Stop,
            (ConnectionState::Forwarding, RelayEvent::Written(_)) => ActionModel::Receive,
            (ConnectionState::Forwarding, _) => ActionModel::Hold,
            (_, RelayEvent::Failed) => ActionModel::Stop,
            (ConnectionState::Connected, RelayEvent::Opened) => ActionModel::Receive,
            (ConnectionState::Connected, _) => ActionModel::Hold,
            (ConnectionState::Receiving, RelayEvent::Frame(message)) => match payload(
                message,
                self.window,
            ) {
                Some(bytes) => ActionModel::Write(bytes),
                None => ActionModel::Receive,
            },
            (ConnectionState::Receiving, RelayEvent::Garbled) => ActionModel::Receive,
            (ConnectionState::Receiving, RelayEvent::Other) => ActionModel::Receive,
            (ConnectionState::Receiving, _) => ActionModel::Hold,
        }
    }

    /// The connection after an event.
    pub open spec fn after(self, event: RelayEvent) -> ConnectionModel {
        ConnectionModel { state: self.next_state(event), ..self }
    }
}

/// Takes from a message what goes to the adapter, if the message is a
/// complete frame.
pub fn adapter_payload(message: DmxMessage, window: usize) -> (bytes: Option<Vec<u8>>)
    ensures
        match bytes {
            Some(b) => payload(message, window) == Some(b@),
            None => payload(message, window).is_none(),
        },
{
    if message.is_complete() && window <= UNIVERSE_SIZE {
        let mut buffer: Vec<u8> = message.buffer;
        buffer.truncate(window);
        assert(buffer@ =~= message.buffer@.take(window as int));
        Some(buffer)
    } else {
        None
    }
}

/// One client connection of the relay.
#[derive(Debug)]
pub struct Connection {
    state: ConnectionState,
    window: usize,
}

impl View for Connection {
    type V = ConnectionModel;

    closed spec fn view(&self) -> ConnectionModel {
        ConnectionModel { state: self.state, window: self.window }
    }
}

impl Connection {
    /// A connection that has just been accepted. Of every frame the first
    /// `window` slots go to the adapter, the whole frame at most.
    pub fn new(window: usize) -> (connection: Connection)
        ensures
            connection@ == (ConnectionModel {
                state: ConnectionState::Connected,
                window: if window > UNIVERSE_SIZE {
                    UNIVERSE_SIZE
                } else {
                    window
                },
            }),
            connection@.wf(),
    {
        Connection {
            state: ConnectionState::Connected,
            window: if window > UNIVERSE_SIZE {
                UNIVERSE_SIZE
            } else {
                window
            },
        }
    }

    /// Where the connection stands.
    pub fn state(&self) -> (state: ConnectionState)
        ensures
            state == self@.state,
    {
        self.state
    }

    /// The number of leading slots that go to the adapter.
    pub fn window(&self) -> (window: usize)
        ensures
            window == self@.window,
    {
        self.window
    }

    /// Takes in what happened on the connection and says what to do next.
    pub fn on_event(&mut self, event: RelayEvent) -> (action: RelayAction)
        requires
            old(self)@.wf(),
        ensures
            final(self)@ == old(self)@.after(event),
            action@ == old(self)@.action(event),
            final(self)@.wf(),
    {
        match self.state {
            ConnectionState::Closed => RelayAction::Stop,
            ConnectionState::Forwarding => match event {
                RelayEvent::Written(_) => {
                    self.state = ConnectionState::Receiving;
                    RelayAction::Receive
                },
                _ => RelayAction::Hold,
            },
            ConnectionState::Connected => match event {
                RelayEvent::Failed => {
                    self.state = ConnectionState::Closed;
                    RelayAction::Stop
                },
                RelayEvent::Opened => {
                    self.state = ConnectionState::Receiving;
                    RelayAction::Receive
                },
                _ => RelayAction::Hold,
            },
            ConnectionState::Receiving => match event {
                RelayEvent::Failed => {
                    self.state = ConnectionState::Closed;
                    RelayAction::Stop
                },
                RelayEvent::Frame(message) => match adapter_payload(message, self.window) {
                    Some(bytes) => {
                        self.state = ConnectionState::Forwarding;
                        RelayAction::Write(bytes)
                    },
                    None => RelayAction::Receive,
                },
                RelayEvent::Garbled => RelayAction::Receive,
                RelayEvent::Other => RelayAction::Receive,
                _ => RelayAction::Hold,
            },
        }
    }
}

/// A closed connection stays closed and asks its loop to stop, whatever
/// happens.
pub proof fn lemma_closed_is_final(connection: ConnectionModel, event: RelayEvent)
    requires
        connection.state == ConnectionState::Closed,
    ensures
        connection.after(event).state == ConnectionState::Closed,
        connection.action(event) == ActionModel::Stop,
{
}

/// The adapter is written to for complete frames only, and then with the
/// frame's own leading bytes: a write is asked for exactly when a frame of
/// a universe's length arrives while the connection waits for one.
pub proof fn lemma_write_only_for_frames(connection: ConnectionModel, event: RelayEvent)
    requires
        connection.wf(),
    ensures
        connection.action(event) is Write <==> connection.state == ConnectionState::Receiving
            && event is Frame && event->Frame_0.is_frame(),
        connection.action(event) is Write ==> connection.action(event)->Write_0
            == event->Frame_0.buffer@.take(connection.window as int)
            && connection.after(event).state == ConnectionState::Forwarding,
{
}

/// While a frame is being written nothing but the end of that write moves
/// the connection: no second write can start before the first is over.
pub proof fn lemma_one_write_at_a_time(connection: ConnectionModel, event: RelayEvent)
    requires
        connection.state == ConnectionState::Forwarding,
    ensures
        !(connection.action(event) is Write),
        !(event is Written) ==> connection.after(event) == connection,
        event is Written ==> connection.after(event).state == ConnectionState::Receiving,
{
}

} // verus!
