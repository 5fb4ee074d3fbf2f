use crate::slot_table::FrontendControllerSlotConnection;
use std::ops::ControlFlow;
use vstd::prelude::*;

verus! {

/// The kind of a frame that a client sent.
#[derive(Debug, Clone, Copy, PartialEq, Eq, Structural)]
pub enum Frame {
    Text,
    Binary,
    Ping,
    Pong,
    /// A close frame; `code` is the close code when a reason was attached.
    Close(Option<u16>),
}

/// Where a player-slot connection stands.
#[derive(Debug, Clone, Copy, PartialEq, Eq, Structural)]
pub enum ConnectionState {
    Upgrading,
    Handshaking,
    Streaming,
    Closed,
}

/// What happened on a connection.
#[derive(Debug, Clone, Copy, PartialEq, Eq, Structural)]
pub enum ConnectionEvent {
    /// The opening ping was written.
    PingSent,
    /// The opening ping could not be written.
    PingFailed,
    /// The first frame that the client sent after the ping.
    FirstFrame(Frame),
    /// Reading the first frame failed.
    ReceiveFailed,
    /// The client's stream ended before any frame came.
    StreamEnded,
    /// The send loop ended (a write failed or the broadcast channel closed).
    SendLoopEnded,
    /// The receive loop ended (the client closed, or reading failed).
    ReceiveLoopEnded,
}

/// What the connection's driver is to do next.
#[derive(Debug, Clone, Copy, PartialEq, Eq, Structural)]
pub enum ConnectionAction {
    /// Read the client's first frame.
    AwaitFirstFrame,
    /// Split the socket and start the send loop and the receive loop.
    StartStreaming,
    /// Abort the receive loop, then close.
    AbortReceiveLoop,
    /// Abort the send loop, then close.
    AbortSendLoop,
    /// Close the connection.
    Close,
    /// Nothing: the event does not apply in this state.
    Ignore,
}

/// Whether a receive loop goes on after `frame`: only a close frame ends it.
pub open spec fn continues_after(frame: Frame) -> bool {
    !(frame is Close)
}

/// The state and action that follow `event` in `state`.
pub open spec fn transition(state: ConnectionState, event: ConnectionEvent) -> (
    ConnectionState,
    ConnectionAction,
) {
    match (state, event) {
        (ConnectionState::Upgrading, ConnectionEvent::PingSent) => (
            ConnectionState::Handshaking,
            ConnectionAction::AwaitFirstFrame,
        ),
        (ConnectionState::Upgrading, ConnectionEvent::PingFailed) => (
            ConnectionState::Closed,
            ConnectionAction::Close,
        ),
        (ConnectionState::Handshaking, ConnectionEvent::FirstFrame(frame)) => {
            if continues_after(frame) {
                (ConnectionState::Streaming, ConnectionAction::StartStreaming)
            } else {
                (ConnectionState::Closed, ConnectionAction::Close)
            }
        },
        (ConnectionState::Handshaking, ConnectionEvent::ReceiveFailed) => (
            ConnectionState::Closed,
            ConnectionAction::Close,
        ),
        (ConnectionState::Handshaking, ConnectionEvent::StreamEnded) => (
            ConnectionState::Streaming,
            ConnectionAction::StartStreaming,
        ),
        (ConnectionState::Streaming, ConnectionEvent::SendLoopEnded) => (
            ConnectionState::Closed,
            ConnectionAction::AbortReceiveLoop,
        ),
        (ConnectionState::Streaming, ConnectionEvent::ReceiveLoopEnded) => (
            ConnectionState::Closed,
            ConnectionAction::AbortSendLoop,
        ),
        _ => (state, ConnectionAction::Ignore),
    }
}

/// Decides whether the receive loop goes on after a frame from the client.
pub fn process_message(msg: Frame) -> (r: ControlFlow<(), ()>)
    ensures
        r == (if continues_after(msg) {
            ControlFlow::<(), ()>::Continue(())
        } else {
            ControlFlow::<(), ()>::Break(())
        }),
{
    match msg {
        Frame::Close(_) => ControlFlow::Break(()),
        _ => ControlFlow::Continue(()),
    }
}

/// The protocol of one websocket client of the player-slot stream:
/// Upgrading, Handshaking, Streaming, then Closed for good.
pub struct PlayerSlotConnection {
    state: ConnectionState,
}

impl PlayerSlotConnection {
    pub closed spec fn spec_state(&self) -> ConnectionState {
        self.state
    }

    /// A connection whose socket was just upgraded: its first move is to send a ping.
    pub fn new() -> (r: Self)
        ensures
            r.spec_state() == ConnectionState::Upgrading,
    {
        PlayerSlotConnection { state: ConnectionState::Upgrading }
    }

    pub fn state(&self) -> (r: ConnectionState)
        ensures
            r == self.spec_state(),
    {
        self.state
    }

    /// Moves the connection on by one event and says what to do.
    pub fn step(&mut self, event: ConnectionEvent) -> (r: ConnectionAction)
        ensures
            (final(self).spec_state(), r) == transition(old(self).spec_state(), event),
    {
        let (next, action) = match (self.state, event) {
            (ConnectionState::Upgrading, ConnectionEvent::PingSent) => (
                ConnectionState::Handshaking,
                ConnectionAction::AwaitFirstFrame,
            ),
            (ConnectionState::Upgrading, ConnectionEvent::PingFailed) => (
                ConnectionState::Closed,
                ConnectionAction::Close,
            ),
            (ConnectionState::Handshaking, ConnectionEvent::FirstFrame(frame)) => {
                match process_message(frame) {
                    ControlFlow::Continue(()) => (
                        ConnectionState::Streaming,
                        ConnectionAction::StartStreaming,
                    ),
                    ControlFlow::Break(()) => (ConnectionState::Closed, ConnectionAction::Close),
                }
            },
            (ConnectionState::Handshaking, ConnectionEvent::ReceiveFailed) => (
                ConnectionState::Closed,
                ConnectionAction::Close,
            ),
            (ConnectionState::Handshaking, ConnectionEvent::StreamEnded) => (
                ConnectionState::Streaming,
                ConnectionAction::StartStreaming,
            ),
            (ConnectionState::Streaming, ConnectionEvent::SendLoopEnded) => (
                ConnectionState::Closed,
                ConnectionAction::AbortReceiveLoop,
            ),
            (ConnectionState::Streaming, ConnectionEvent::ReceiveLoopEnded) => (
                ConnectionState::Closed,
                ConnectionAction::AbortSendLoop,
            ),
            _ => (self.state, ConnectionAction::Ignore),
        };
        self.state = next;
        action
    }
}

/// Once streaming, whichever loop ends first cancels the other and the
/// connection closes; a closed connection stays closed whatever happens.
pub proof fn lemma_first_loop_end_closes()
    ensures
        transition(ConnectionState::Streaming, ConnectionEvent::SendLoopEnded) == (
            ConnectionState::Closed,
            ConnectionAction::AbortReceiveLoop,
        ),
        transition(ConnectionState::Streaming, ConnectionEvent::ReceiveLoopEnded) == (
            ConnectionState::Closed,
            ConnectionAction::AbortSendLoop,
        ),
        forall|e: ConnectionEvent| #[trigger]
            transition(ConnectionState::Closed, e) == (
                ConnectionState::Closed,
                ConnectionAction::Ignore,
            ),
{
}

/// A failed opening ping ends the connection at once.
pub proof fn lemma_ping_failure_is_fatal()
    ensures
        transition(ConnectionState::Upgrading, ConnectionEvent::PingFailed) == (
            ConnectionState::Closed,
            ConnectionAction::Close,
        ),
{
}

/// What happened in a connection's send loop.
#[derive(Debug, Clone, Copy, PartialEq, Eq, Structural)]
pub enum SendLoopEvent {
    /// A snapshot came from the broadcast channel.
    Snapshot,
    /// The loop fell behind and the channel dropped older snapshots.
    Lagged,
    /// The broadcast channel closed.
    ChannelClosed,
    /// A frame was written to the client.
    Written,
    /// Writing a frame to the client failed.
    WriteFailed,
}

/// What the send loop does next.
#[derive(Debug, Clone, Copy, PartialEq, Eq, Structural)]
pub enum SendLoopAction {
    /// Write the snapshot to the client as a text frame.
    WriteFrame,
    /// Wait for the next snapshot.
    ReceiveNext,
    /// End the loop.
    Stop,
}

pub open spec fn send_loop_spec(e: SendLoopEvent) -> SendLoopAction {
    match e {
        SendLoopEvent::Snapshot => SendLoopAction::WriteFrame,
        SendLoopEvent::Lagged => SendLoopAction::ReceiveNext,
        SendLoopEvent::Written => SendLoopAction::ReceiveNext,
        SendLoopEvent::ChannelClosed => SendLoopAction::Stop,
        SendLoopEvent::WriteFailed => SendLoopAction::Stop,
    }
}

/// The send loop's decision: a snapshot is written; a loop that fell behind
/// skips ahead to the newest snapshots; a closed channel or a failed write ends it.
pub fn send_loop_action(e: SendLoopEvent) -> (r: SendLoopAction)
    ensures
        r == send_loop_spec(e),
{
    match e {
        SendLoopEvent::Snapshot => SendLoopAction::WriteFrame,
        SendLoopEvent::Lagged => SendLoopAction::ReceiveNext,
        SendLoopEvent::Written => SendLoopAction::ReceiveNext,
        SendLoopEvent::ChannelClosed => SendLoopAction::Stop,
        SendLoopEvent::WriteFailed => SendLoopAction::Stop,
    }
}

// ---------------------------------------------------------------------------
// Wire format of the slot stream

/// A character that JSON writes inside a string as it is: printable ASCII
/// other than the quote and the backslash.
pub open spec fn is_plain_json_char(c: char) -> bool {
    ' ' <= c && c <= '~' && c != '"' && c != '\\'
}

pub open spec fn quoted(s: Seq<char>) -> Seq<char> {
    seq!['"'] + s + seq!['"']
}

/// The items, each quoted, separated by commas.
pub open spec fn quoted_list(items: Seq<Seq<char>>) -> Seq<char>
    decreases items.len(),
{
    if items.len() == 0 {
        Seq::empty()
    } else if items.len() == 1 {
        quoted(items[0])
    } else {
        quoted_list(items.drop_last()) + seq![','] + quoted(items.last())
    }
}

/// Compact JSON text of an array of strings.
pub open spec fn json_array_text(items: Seq<Seq<char>>) -> Seq<char> {
    seq!['['] + quoted_list(items) + seq![']']
}

/// The name under which a slot state goes over the wire.
pub open spec fn slot_name(s: FrontendControllerSlotConnection) -> Seq<char> {
    match s {
        FrontendControllerSlotConnection::Connected => seq!['C', 'o', 'n', 'n', 'e', 'c', 't', 'e', 'd'],
        FrontendControllerSlotConnection::Disconnected => seq![
            'D',
            'i',
            's',
            'c',
            'o',
            'n',
            'n',
            'e',
            'c',
            't',
            'e',
            'd',
        ],
        FrontendControllerSlotConnection::Stale => seq!['S', 't', 'a', 'l', 'e'],
    }
}

/// The text frame that carries a snapshot.
pub open spec fn snapshot_text(snapshot: Seq<FrontendControllerSlotConnection>) -> Seq<char> {
    json_array_text(snapshot.map_values(|s: FrontendControllerSlotConnection| slot_name(s)))
}

/// Relies on serde_json: `Value::from` turns a `Vec<String>` into an array of
/// JSON strings, and `Value`'s `Display` writes it compactly: `[`, the items in
/// double quotes separated by `,`, then `]`. A character that is printable
/// ASCII, not `"` and not `\`, is written unescaped.
#[verifier::external_body]
fn json_string_array(items: Vec<String>) -> (r: String)
    requires
        forall|i: int, j: int|
            0 <= i < items@.len() && 0 <= j < items@[i]@.len() ==> is_plain_json_char(
                #[trigger] items@[i]@[j],
            ),
    ensures
        r@ == json_array_text(items@.map_values(|s: String| s@)),
{
    serde_json::Value::from(items).to_string()
}

impl FrontendControllerSlotConnection {
    /// The name of the state: `Connected`, `Disconnected` or `Stale`.
    pub fn name(&self) -> (r: String)
        ensures
            r@ == slot_name(*self),
    {
        let r = match self {
            FrontendControllerSlotConnection::Connected => "Connected".to_owned(),
            FrontendControllerSlotConnection::Disconnected => "Disconnected".to_owned(),
            FrontendControllerSlotConnection::Stale => "Stale".to_owned(),
        };
        proof {
            reveal_strlit("Connected");
            reveal_strlit("Disconnected");
            reveal_strlit("Stale");
        }
        r
    }
}

/// The JSON text that the send loop writes for a snapshot: an array of the
/// slot states' names, such as `["Connected","Disconnected"]`.
pub fn snapshot_frame(snapshot: &Vec<FrontendControllerSlotConnection>) -> (r: String)
    ensures
        r@ == snapshot_text(snapshot@),
{
    let mut names: Vec<String> = Vec::new();
    let mut i: usize = 0;
    while i < snapshot.len()
        invariant
            i <= snapshot@.len(),
            names@.len() == i,
            forall|k: int| 0 <= k < i ==> #[trigger] names@[k]@ == slot_name(snapshot@[k]),
        decreases snapshot@.len() - i,
    {
        names.push(snapshot[i].name());
        i = i + 1;
    }
    assert(names@.map_values(|s: String| s@) =~= snapshot@.map_values(
        |s: FrontendControllerSlotConnection| slot_name(s),
    ));
    assert forall|a: int, b: int|
        0 <= a < names@.len() && 0 <= b < names@[a]@.len() implies is_plain_json_char(
        #[trigger] names@[a]@[b],
    ) by {
        assert(names@[a]@ == slot_name(snapshot@[a]));
    }
    json_string_array(names)
}

} // verus!
