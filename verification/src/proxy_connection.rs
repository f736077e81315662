//! One client of a Minecraft proxy: from the WebSocket handshake over the
//! connection to the game server to the relaying of bytes in both directions.
//!
//! The machine decides; whoever runs it performs each action and hands back what
//! came of it as the next event.
use vstd::prelude::*;

use crate::proxy_info::MinecraftProxyInfo;
use crate::proxy_info::ProxyInfoView;
use crate::text;

verus! {

/// What the connection is waiting for.
pub enum ConnectionPhase {
    /// The WebSocket handshake of the client.
    Handshake,
    /// The TCP connection to the game server.
    Connecting,
    /// The next frame of the client or the next bytes of the server.
    Relaying,
    /// The end of a write to the server.
    WritingTcp,
    /// The end of a pong to the client.
    SendingPong,
    /// The end of a binary frame to the client.
    SendingData,
    /// The end of the closing handshake.
    Closing,
    /// Nothing more.
    Finished,
}

/// What happened.
pub enum ConnectionEvent {
    /// The proxy is being stopped.
    Shutdown,
    HandshakeAccepted,
    HandshakeFailed(String),
    TargetConnected,
    TargetFailed(String),
    BinaryFrame(Vec<u8>),
    PingFrame(Vec<u8>),
    TextFrame,
    CloseFrame,
    /// Any other frame, such as a pong.
    OtherFrame,
    FrameFailed(String),
    /// The WebSocket stream has ended.
    SocketEnded,
    /// Bytes of the server; none at all where the server has closed its side.
    TcpData(Vec<u8>),
    TcpFailed(String),
    /// The last write, pong or frame went through.
    Written,
    /// The last write, pong or frame did not.
    WriteFailed(String),
    /// The closing handshake is over, however it went.
    Closed,
}

/// What to do next.
pub enum ConnectionAction {
    /// Connect to the game server.
    ConnectTarget,
    /// Mark the proxy as connected, report it, then wait for traffic.
    AnnounceConnected(MinecraftProxyInfo),
    /// Wait for the client, the server or the shutdown.
    AwaitTraffic,
    /// Write these bytes to the server.
    WriteTcp(Vec<u8>),
    /// Answer a ping of the client.
    SendPong(Vec<u8>),
    /// Send these bytes to the client in one binary frame.
    SendBinary(Vec<u8>),
    /// Send the closing handshake.
    CloseWebSocket,
    /// The connection is over, with this result.
    Finish(Result<(), String>),
    /// The event answers nothing that was asked for.
    Ignore,
}

/// The contents of a [`ConnectionAction`].
pub enum ActionView {
    ConnectTarget,
    AnnounceConnected(ProxyInfoView),
    AwaitTraffic,
    WriteTcp(Seq<u8>),
    SendPong(Seq<u8>),
    SendBinary(Seq<u8>),
    CloseWebSocket,
    Finish(Result<(), Seq<char>>),
    Ignore,
}

impl View for ConnectionAction {
    type V = ActionView;

    open spec fn view(&self) -> ActionView {
        match self {
            ConnectionAction::ConnectTarget => ActionView::ConnectTarget,
            ConnectionAction::AnnounceConnected(info) => ActionView::AnnounceConnected(info@),
            ConnectionAction::AwaitTraffic => ActionView::AwaitTraffic,
            ConnectionAction::WriteTcp(bytes) => ActionView::WriteTcp(bytes@),
            ConnectionAction::SendPong(bytes) => ActionView::SendPong(bytes@),
            ConnectionAction::SendBinary(bytes) => ActionView::SendBinary(bytes@),
            ConnectionAction::CloseWebSocket => ActionView::CloseWebSocket,
            ConnectionAction::Finish(Ok(_)) => ActionView::Finish(Ok(())),
            ConnectionAction::Finish(Err(message)) => ActionView::Finish(Err(message@)),
            ConnectionAction::Ignore => ActionView::Ignore,
        }
    }
}

/// The end of a connection with an error.
pub open spec fn failed(message: Seq<char>) -> (ConnectionPhase, ActionView) {
    (ConnectionPhase::Finished, ActionView::Finish(Err(message)))
}

/// The end of a connection without one.
pub open spec fn over() -> (ConnectionPhase, ActionView) {
    (ConnectionPhase::Finished, ActionView::Finish(Ok(())))
}

/// While bytes are relayed: binary frames go to the server, bytes of the server
/// go to the client in binary frames, pings are answered, a text frame is an
/// error, and the end of either side closes the WebSocket.
pub open spec fn relay(event: ConnectionEvent) -> (ConnectionPhase, ActionView) {
    match event {
        ConnectionEvent::Shutdown | ConnectionEvent::CloseFrame | ConnectionEvent::SocketEnded => (
            ConnectionPhase::Closing,
            ActionView::CloseWebSocket,
        ),
        ConnectionEvent::BinaryFrame(bytes) => (
            ConnectionPhase::WritingTcp,
            ActionView::WriteTcp(bytes@),
        ),
        ConnectionEvent::PingFrame(bytes) => (
            ConnectionPhase::SendingPong,
            ActionView::SendPong(bytes@),
        ),
        ConnectionEvent::TextFrame => failed(
            "Minecraft proxy accepts only binary WebSocket frames."@,
        ),
        ConnectionEvent::OtherFrame => (ConnectionPhase::Relaying, ActionView::AwaitTraffic),
        ConnectionEvent::FrameFailed(error) => failed(
            "Minecraft proxy WebSocket failed: "@ + error@,
        ),
        ConnectionEvent::TcpData(bytes) => if bytes@.len() == 0 {
            (ConnectionPhase::Closing, ActionView::CloseWebSocket)
        } else {
            (ConnectionPhase::SendingData, ActionView::SendBinary(bytes@))
        },
        ConnectionEvent::TcpFailed(error) => failed(
            "Could not read Minecraft proxy TCP data: "@ + error@,
        ),
        _ => (ConnectionPhase::Relaying, ActionView::Ignore),
    }
}

/// After a write: back to relaying, or the end with `what` before the error.
pub open spec fn after_write(
    phase: ConnectionPhase,
    event: ConnectionEvent,
    what: Seq<char>,
) -> (ConnectionPhase, ActionView) {
    match event {
        ConnectionEvent::Written => (ConnectionPhase::Relaying, ActionView::AwaitTraffic),
        ConnectionEvent::WriteFailed(error) => failed(what + error@),
        _ => (phase, ActionView::Ignore),
    }
}

/// The next phase and the next action of the connection to `info`.
pub open spec fn transition(
    info: ProxyInfoView,
    phase: ConnectionPhase,
    event: ConnectionEvent,
) -> (ConnectionPhase, ActionView) {
    match phase {
        ConnectionPhase::Handshake => match event {
            ConnectionEvent::Shutdown => over(),
            ConnectionEvent::HandshakeAccepted => (
                ConnectionPhase::Connecting,
                ActionView::ConnectTarget,
            ),
            ConnectionEvent::HandshakeFailed(error) => failed(
                "Could not accept Minecraft proxy WebSocket: "@ + error@,
            ),
            _ => (phase, ActionView::Ignore),
        },
        ConnectionPhase::Connecting => match event {
            ConnectionEvent::Shutdown => over(),
            ConnectionEvent::TargetConnected => (
                ConnectionPhase::Relaying,
                ActionView::AnnounceConnected(ProxyInfoView { connected: true, ..info }),
            ),
            ConnectionEvent::TargetFailed(error) => failed(
                "Could not connect to Minecraft server "@ + info.host + ":"@ + text::decimal(
                    info.port as nat,
                ) + ": "@ + error@,
            ),
            _ => (phase, ActionView::Ignore),
        },
        ConnectionPhase::Relaying => relay(event),
        ConnectionPhase::WritingTcp => after_write(
            phase,
            event,
            "Could not write Minecraft proxy TCP data: "@,
        ),
        ConnectionPhase::SendingPong => after_write(
            phase,
            event,
            "Could not write Minecraft proxy WebSocket pong: "@,
        ),
        ConnectionPhase::SendingData => after_write(
            phase,
            event,
            "Could not write Minecraft proxy WebSocket data: "@,
        ),
        ConnectionPhase::Closing => match event {
            ConnectionEvent::Closed => over(),
            _ => (phase, ActionView::Ignore),
        },
        ConnectionPhase::Finished => (phase, ActionView::Ignore),
    }
}

/// One client of a proxy.
pub struct ProxyConnection {
    info: MinecraftProxyInfo,
    phase: ConnectionPhase,
}

impl ProxyConnection {
    /// The proxy that the connection belongs to.
    pub closed spec fn proxy(&self) -> ProxyInfoView {
        self.info@
    }

    /// What the connection is waiting for.
    pub closed spec fn phase(&self) -> ConnectionPhase {
        self.phase
    }

    /// A client whose handshake has not been answered yet.
    pub fn new(info: MinecraftProxyInfo) -> (r: ProxyConnection)
        ensures
            r.proxy() == info@,
            r.phase() == ConnectionPhase::Handshake,
    {
        ProxyConnection { info, phase: ConnectionPhase::Handshake }
    }

    fn fail(&mut self, message: String) -> (r: ConnectionAction)
        ensures
            final(self).proxy() == old(self).proxy(),
            (final(self).phase(), r@) == failed(message@),
    {
        self.phase = ConnectionPhase::Finished;
        ConnectionAction::Finish(Err(message))
    }

    fn finish(&mut self) -> (r: ConnectionAction)
        ensures
            final(self).proxy() == old(self).proxy(),
            (final(self).phase(), r@) == over(),
    {
        self.phase = ConnectionPhase::Finished;
        ConnectionAction::Finish(Ok(()))
    }

    fn relay_step(&mut self, event: ConnectionEvent) -> (r: ConnectionAction)
        requires
            old(self).phase() == ConnectionPhase::Relaying,
        ensures
            final(self).proxy() == old(self).proxy(),
            (final(self).phase(), r@) == relay(event),
    {
        match event {
            ConnectionEvent::Shutdown
            | ConnectionEvent::CloseFrame
            | ConnectionEvent::SocketEnded => {
                self.phase = ConnectionPhase::Closing;
                ConnectionAction::CloseWebSocket
            },
            ConnectionEvent::BinaryFrame(bytes) => {
                self.phase = ConnectionPhase::WritingTcp;
                ConnectionAction::WriteTcp(bytes)
            },
            ConnectionEvent::PingFrame(bytes) => {
                self.phase = ConnectionPhase::SendingPong;
                ConnectionAction::SendPong(bytes)
            },
            ConnectionEvent::TextFrame => self.fail(
                "Minecraft proxy accepts only binary WebSocket frames.".to_owned(),
            ),
            ConnectionEvent::OtherFrame => ConnectionAction::AwaitTraffic,
            ConnectionEvent::FrameFailed(error) => self.fail(
                text::concat2("Minecraft proxy WebSocket failed: ", error.as_str()),
            ),
            ConnectionEvent::TcpData(bytes) => {
                if bytes.len() == 0 {
                    self.phase = ConnectionPhase::Closing;
                    ConnectionAction::CloseWebSocket
                } else {
                    self.phase = ConnectionPhase::SendingData;
                    ConnectionAction::SendBinary(bytes)
                }
            },
            ConnectionEvent::TcpFailed(error) => self.fail(
                text::concat2("Could not read Minecraft proxy TCP data: ", error.as_str()),
            ),
            _ => ConnectionAction::Ignore,
        }
    }

    fn after_write_step(&mut self, event: ConnectionEvent, what: &str) -> (r: ConnectionAction)
        ensures
            final(self).proxy() == old(self).proxy(),
            (final(self).phase(), r@) == after_write(old(self).phase(), event, what@),
    {
        match event {
            ConnectionEvent::Written => {
                self.phase = ConnectionPhase::Relaying;
                ConnectionAction::AwaitTraffic
            },
            ConnectionEvent::WriteFailed(error) => self.fail(text::concat2(what, error.as_str())),
            _ => ConnectionAction::Ignore,
        }
    }

    /// Takes what happened and tells what to do next.
    pub fn step(&mut self, event: ConnectionEvent) -> (r: ConnectionAction)
        ensures
            final(self).proxy() == old(self).proxy(),
            (final(self).phase(), r@) == transition(old(self).proxy(), old(self).phase(), event),
    {
        match self.phase {
            ConnectionPhase::Handshake => match event {
                ConnectionEvent::Shutdown => self.finish(),
                ConnectionEvent::HandshakeAccepted => {
                    self.phase = ConnectionPhase::Connecting;
                    ConnectionAction::ConnectTarget
                },
                ConnectionEvent::HandshakeFailed(error) => self.fail(
                    text::concat2("Could not accept Minecraft proxy WebSocket: ", error.as_str()),
                ),
                _ => ConnectionAction::Ignore,
            },
            ConnectionPhase::Connecting => match event {
                ConnectionEvent::Shutdown => self.finish(),
                ConnectionEvent::TargetConnected => {
                    self.phase = ConnectionPhase::Relaying;
                    ConnectionAction::AnnounceConnected(self.info.with_connected(true))
                },
                ConnectionEvent::TargetFailed(error) => {
                    let port: String = text::decimal_of(self.info.port as u64);
                    let target: String = text::concat3(
                        text::concat2(
                            "Could not connect to Minecraft server ",
                            self.info.host.as_str(),
                        ).as_str(),
                        ":",
                        port.as_str(),
                    );
                    self.fail(text::concat3(target.as_str(), ": ", error.as_str()))
                },
                _ => ConnectionAction::Ignore,
            },
            ConnectionPhase::Relaying => self.relay_step(event),
            ConnectionPhase::WritingTcp => self.after_write_step(
                event,
                "Could not write Minecraft proxy TCP data: ",
            ),
            ConnectionPhase::SendingPong => self.after_write_step(
                event,
                "Could not write Minecraft proxy WebSocket pong: ",
            ),
            ConnectionPhase::SendingData => self.after_write_step(
                event,
                "Could not write Minecraft proxy WebSocket data: ",
            ),
            ConnectionPhase::Closing => match event {
                ConnectionEvent::Closed => self.finish(),
                _ => ConnectionAction::Ignore,
            },
            ConnectionPhase::Finished => ConnectionAction::Ignore,
        }
    }

    /// What to report when the connection is over: the proxy as disconnected,
    /// where it was still marked as connected, and nothing otherwise.
    pub fn disconnect_notice(&self, was_connected: bool) -> (r: Option<MinecraftProxyInfo>)
        ensures
            match r {
                Some(info) => was_connected && info@ == (ProxyInfoView {
                    connected: false,
                    ..self.proxy()
                }),
                None => !was_connected,
            },
    {
        if was_connected {
            Some(self.info.with_connected(false))
        } else {
            None
        }
    }
}

// ---------------------------------------------------------------------------
// Whole connections
// ---------------------------------------------------------------------------
/// The phase after a sequence of events.
pub open spec fn phase_after(
    info: ProxyInfoView,
    phase: ConnectionPhase,
    events: Seq<ConnectionEvent>,
) -> ConnectionPhase
    decreases events.len(),
{
    if events.len() == 0 {
        phase
    } else {
        transition(info, phase_after(info, phase, events.drop_last()), events.last()).0
    }
}

/// The actions that a sequence of events leads to, one for each event.
pub open spec fn actions_of(
    info: ProxyInfoView,
    phase: ConnectionPhase,
    events: Seq<ConnectionEvent>,
) -> Seq<ActionView>
    decreases events.len(),
{
    if events.len() == 0 {
        Seq::empty()
    } else {
        actions_of(info, phase, events.drop_last()).push(
            transition(info, phase_after(info, phase, events.drop_last()), events.last()).1,
        )
    }
}

/// The bytes of the binary frames that the client sent while bytes were relayed.
pub open spec fn client_bytes(
    info: ProxyInfoView,
    phase: ConnectionPhase,
    events: Seq<ConnectionEvent>,
) -> Seq<u8>
    decreases events.len(),
{
    if events.len() == 0 {
        Seq::empty()
    } else {
        let before = client_bytes(info, phase, events.drop_last());
        match (phase_after(info, phase, events.drop_last()), events.last()) {
            (ConnectionPhase::Relaying, ConnectionEvent::BinaryFrame(bytes)) => before + bytes@,
            _ => before,
        }
    }
}

/// The bytes that the server sent while bytes were relayed.
pub open spec fn server_bytes(
    info: ProxyInfoView,
    phase: ConnectionPhase,
    events: Seq<ConnectionEvent>,
) -> Seq<u8>
    decreases events.len(),
{
    if events.len() == 0 {
        Seq::empty()
    } else {
        let before = server_bytes(info, phase, events.drop_last());
        match (phase_after(info, phase, events.drop_last()), events.last()) {
            (ConnectionPhase::Relaying, ConnectionEvent::TcpData(bytes)) => before + bytes@,
            _ => before,
        }
    }
}

/// The bytes that a sequence of actions writes to the server.
pub open spec fn bytes_to_server(actions: Seq<ActionView>) -> Seq<u8>
    decreases actions.len(),
{
    if actions.len() == 0 {
        Seq::empty()
    } else {
        match actions.last() {
            ActionView::WriteTcp(bytes) => bytes_to_server(actions.drop_last()) + bytes,
            _ => bytes_to_server(actions.drop_last()),
        }
    }
}

/// The bytes that a sequence of actions sends to the client in binary frames.
pub open spec fn bytes_to_client(actions: Seq<ActionView>) -> Seq<u8>
    decreases actions.len(),
{
    if actions.len() == 0 {
        Seq::empty()
    } else {
        match actions.last() {
            ActionView::SendBinary(bytes) => bytes_to_client(actions.drop_last()) + bytes,
            _ => bytes_to_client(actions.drop_last()),
        }
    }
}

/// Law: the proxy passes bytes on unchanged, complete and in order. What it writes
/// to the server is what the client sent in binary frames, and what it sends to
/// the client is what the server sent.
pub proof fn law_bytes_are_relayed_unchanged(
    info: ProxyInfoView,
    phase: ConnectionPhase,
    events: Seq<ConnectionEvent>,
)
    ensures
        bytes_to_server(actions_of(info, phase, events)) == client_bytes(info, phase, events),
        bytes_to_client(actions_of(info, phase, events)) == server_bytes(info, phase, events),
    decreases events.len(),
{
    if events.len() > 0 {
        law_bytes_are_relayed_unchanged(info, phase, events.drop_last());
        let actions = actions_of(info, phase, events);
        assert(actions.drop_last() == actions_of(info, phase, events.drop_last()));
        match (phase_after(info, phase, events.drop_last()), events.last()) {
            (ConnectionPhase::Relaying, ConnectionEvent::TcpData(bytes)) => {
                if bytes@.len() == 0 {
                    assert(server_bytes(info, phase, events) =~= server_bytes(
                        info,
                        phase,
                        events.drop_last(),
                    ));
                }
            },
            _ => {},
        }
    }
}

/// Law: a finished connection stays finished and asks for nothing more.
pub proof fn law_finished_is_final(info: ProxyInfoView, event: ConnectionEvent)
    ensures
        transition(info, ConnectionPhase::Finished, event) == (
            ConnectionPhase::Finished,
            ActionView::Ignore,
        ),
{
}

/// Law: a connection finishes exactly when it says so.
pub proof fn law_finish_is_reported(
    info: ProxyInfoView,
    phase: ConnectionPhase,
    event: ConnectionEvent,
)
    requires
        phase != ConnectionPhase::Finished,
    ensures
        transition(info, phase, event).0 == ConnectionPhase::Finished <==> transition(
            info,
            phase,
            event,
        ).1 is Finish,
{
}

/// Law: a stopped proxy ends its connection without an error: at once before bytes
/// are relayed, and after the closing handshake while they are.
pub proof fn law_shutdown_ends_without_error(info: ProxyInfoView)
    ensures
        transition(info, ConnectionPhase::Handshake, ConnectionEvent::Shutdown) == over(),
        transition(info, ConnectionPhase::Connecting, ConnectionEvent::Shutdown) == over(),
        transition(info, ConnectionPhase::Relaying, ConnectionEvent::Shutdown) == (
            ConnectionPhase::Closing,
            ActionView::CloseWebSocket,
        ),
        transition(info, ConnectionPhase::Closing, ConnectionEvent::Closed) == over(),
{
}

/// No handshake was accepted.
pub open spec fn never_accepted(events: Seq<ConnectionEvent>) -> bool {
    forall|i: int| 0 <= i < events.len() ==> !(#[trigger] events[i] is HandshakeAccepted)
}

/// The game server was never reached.
pub open spec fn never_reached(events: Seq<ConnectionEvent>) -> bool {
    forall|i: int| 0 <= i < events.len() ==> !(#[trigger] events[i] is TargetConnected)
}

/// Law: nothing goes to the game server before the handshake was accepted and the
/// server was reached.
pub proof fn law_no_bytes_before_relaying(info: ProxyInfoView, events: Seq<ConnectionEvent>)
    requires
        never_accepted(events) || never_reached(events),
    ensures
        bytes_to_server(actions_of(info, ConnectionPhase::Handshake, events)) == Seq::<u8>::empty(),
{
    lemma_phase_before_relaying(info, events);
}

proof fn lemma_phase_before_relaying(info: ProxyInfoView, events: Seq<ConnectionEvent>)
    requires
        never_accepted(events) || never_reached(events),
    ensures
        ({
            let phase = phase_after(info, ConnectionPhase::Handshake, events);
            phase is Handshake || phase is Connecting || phase is Finished
        }),
        never_accepted(events) ==> !(phase_after(
            info,
            ConnectionPhase::Handshake,
            events,
        ) is Connecting),
        bytes_to_server(actions_of(info, ConnectionPhase::Handshake, events)) == Seq::<u8>::empty(),
    decreases events.len(),
{
    if events.len() > 0 {
        let before = events.drop_last();
        assert forall|i: int| 0 <= i < before.len() implies before[i] == events[i] by {}
        assert(never_accepted(events) ==> never_accepted(before));
        assert(never_reached(events) ==> never_reached(before));
        lemma_phase_before_relaying(info, before);
        let actions = actions_of(info, ConnectionPhase::Handshake, events);
        assert(actions.drop_last() == actions_of(info, ConnectionPhase::Handshake, before));
        assert(events[events.len() - 1] == events.last());
    }
}

/// Law: a client is served in three steps: its handshake, the connection to the game
/// server, and the relaying of bytes. When the server is reached, the proxy is announced as
/// connected and otherwise as it is.
pub proof fn law_connection_goes_step_by_step(info: ProxyInfoView)
    ensures
        transition(info, ConnectionPhase::Handshake, ConnectionEvent::HandshakeAccepted) == (
            ConnectionPhase::Connecting,
            ActionView::ConnectTarget,
        ),
        ({
            let (phase, action) = transition(
                info,
                ConnectionPhase::Connecting,
                ConnectionEvent::TargetConnected,
            );
            &&& phase is Relaying
            &&& action matches ActionView::AnnounceConnected(shown) && {
                &&& shown.connected
                &&& shown.proxy_id == info.proxy_id
                &&& shown.host == info.host
                &&& shown.port == info.port
                &&& shown.ws_url == info.ws_url
            }
        }),
{
}

/// Law: while bytes are relayed, every frame and every piece of data is passed on as it is,
/// a ping is answered with its own bytes, other frames change nothing, and the end of
/// either side closes the connection. After every write that went through, the relaying
/// goes on.
pub proof fn law_traffic_is_passed_on(info: ProxyInfoView, event: ConnectionEvent)
    ensures
        ({
            let (phase, action) = transition(info, ConnectionPhase::Relaying, event);
            &&& event matches ConnectionEvent::BinaryFrame(bytes) ==> phase is WritingTcp && action
                == ActionView::WriteTcp(bytes@)
            &&& event matches ConnectionEvent::PingFrame(bytes) ==> phase is SendingPong && action
                == ActionView::SendPong(bytes@)
            &&& event matches ConnectionEvent::TcpData(bytes) ==> if bytes@.len() > 0 {
                phase is SendingData && action == ActionView::SendBinary(bytes@)
            } else {
                phase is Closing && action is CloseWebSocket
            }
            &&& event is OtherFrame ==> phase is Relaying && action is AwaitTraffic
            &&& event is CloseFrame || event is SocketEnded || event is Shutdown
                ==> phase is Closing && action is CloseWebSocket
        }),
        transition(info, ConnectionPhase::WritingTcp, ConnectionEvent::Written) == (
            ConnectionPhase::Relaying,
            ActionView::AwaitTraffic,
        ),
        transition(info, ConnectionPhase::SendingPong, ConnectionEvent::Written) == (
            ConnectionPhase::Relaying,
            ActionView::AwaitTraffic,
        ),
        transition(info, ConnectionPhase::SendingData, ConnectionEvent::Written) == (
            ConnectionPhase::Relaying,
            ActionView::AwaitTraffic,
        ),
{
}

/// Law: what a connection that fails is told to have failed at, and why.
pub proof fn law_connection_failures_are_told(
    info: ProxyInfoView,
    phase: ConnectionPhase,
    event: ConnectionEvent,
)
    ensures
        transition(info, phase, event).1 matches ActionView::Finish(Err(error)) ==> match event {
            ConnectionEvent::HandshakeFailed(why) => phase is Handshake && error
                == "Could not accept Minecraft proxy WebSocket: "@ + why@,
            ConnectionEvent::TargetFailed(why) => phase is Connecting && error
                == "Could not connect to Minecraft server "@ + info.host + ":"@ + text::decimal(
                info.port as nat,
            ) + ": "@ + why@,
            ConnectionEvent::TextFrame => phase is Relaying && error
                == "Minecraft proxy accepts only binary WebSocket frames."@,
            ConnectionEvent::FrameFailed(why) => phase is Relaying && error
                == "Minecraft proxy WebSocket failed: "@ + why@,
            ConnectionEvent::TcpFailed(why) => phase is Relaying && error
                == "Could not read Minecraft proxy TCP data: "@ + why@,
            ConnectionEvent::WriteFailed(why) => {
                ||| phase is WritingTcp && error == "Could not write Minecraft proxy TCP data: "@
                    + why@
                ||| phase is SendingPong && error
                    == "Could not write Minecraft proxy WebSocket pong: "@ + why@
                ||| phase is SendingData && error
                    == "Could not write Minecraft proxy WebSocket data: "@ + why@
            },
            _ => false,
        },
        (phase is Handshake && event is HandshakeFailed) || (phase is Connecting
            && event is TargetFailed) || (phase is Relaying && (event is TextFrame
            || event is FrameFailed || event is TcpFailed)) || ((phase is WritingTcp
            || phase is SendingPong || phase is SendingData) && event is WriteFailed)
            ==> transition(info, phase, event).1 matches ActionView::Finish(Err(_)),
{
}

/// Law: a connection ends without an error only by a shutdown before bytes are relayed, or
/// by the end of the closing handshake.
pub proof fn law_connections_end_well(
    info: ProxyInfoView,
    phase: ConnectionPhase,
    event: ConnectionEvent,
)
    ensures
        transition(info, phase, event).1 == ActionView::Finish(Ok(())) <==> {
            ||| event is Shutdown && (phase is Handshake || phase is Connecting)
            ||| event is Closed && phase is Closing
        },
        transition(info, phase, event).1 is Ignore ==> transition(info, phase, event).0 == phase,
        transition(info, phase, event).1 is AnnounceConnected ==> phase is Connecting
            && event is TargetConnected,
        transition(info, phase, event).1 is ConnectTarget ==> phase is Handshake
            && event is HandshakeAccepted,
        transition(info, phase, event).1 is CloseWebSocket ==> phase is Relaying,
{
}

} // verus!
