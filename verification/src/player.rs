//! One viewer's connection: the commands it takes from the registry, the
//! messages it reads from its socket, and its heartbeat.

use vstd::prelude::*;
use crate::handler::Handler;
use crate::seconds::Seconds;
use crate::session::{
    PlayerConnect, PlayerDisconnect, PlayerId, PlaylistChanged, Position, Seeked, StateChanged,
};
use crate::state::State;
use crate::wire::{
    command_text, decode_message, encode_command, message_in, PlayerMessage, PlayerMessageView,
};

verus! {

/// Tells a viewer's player to take this state.
#[derive(Clone, Copy, Debug, PartialEq, Eq, Structural)]
pub struct ChangeState {
    pub state: State,
}

/// Tells a viewer's player to go to this item of the playlist.
#[derive(Clone, Copy, Debug, PartialEq, Eq, Structural)]
pub struct ChangePlaylist {
    pub index: usize,
}

/// Tells a viewer's player to go to this position.
#[derive(Debug, PartialEq, Eq)]
pub struct ChangePosition {
    pub position: Seconds,
}

/// Asks a viewer's player to report its position.
#[derive(Clone, Copy, Debug, PartialEq, Eq, Structural)]
pub struct SyncPosition;

/// Any one of the commands that the registry sends to a connection.
#[derive(Debug, PartialEq, Eq)]
pub enum Command {
    SyncPosition(SyncPosition),
    ChangeState(ChangeState),
    ChangePosition(ChangePosition),
    ChangePlaylist(ChangePlaylist),
}

impl Clone for ChangePosition {
    fn clone(&self) -> (r: Self)
        ensures
            r == *self,
    {
        ChangePosition { position: self.position.clone() }
    }
}

impl Clone for Command {
    fn clone(&self) -> (r: Self)
        ensures
            r == *self,
    {
        match self {
            Command::SyncPosition(c) => Command::SyncPosition(*c),
            Command::ChangeState(c) => Command::ChangeState(*c),
            Command::ChangePosition(c) => Command::ChangePosition(c.clone()),
            Command::ChangePlaylist(c) => Command::ChangePlaylist(*c),
        }
    }
}

/// How long a connection waits between two checks of its heartbeat, in
/// milliseconds.
pub const INTERVAL: u64 = 1000;

/// How long a connection may stay silent before it is closed, in
/// milliseconds.
pub const CLIENT_TIMEOUT: u64 = 10000;

/// What came in on the socket.
#[derive(Debug, PartialEq, Eq)]
pub enum Frame {
    /// A liveness probe from the client, with its payload.
    Ping(Vec<u8>),
    /// The client's answer to a probe.
    Pong(Vec<u8>),
    /// A text frame.
    Text(String),
    /// Anything else: a binary or continuation frame, a close, or a
    /// violation of the socket protocol.
    Other,
}

/// A frame together with the time at which it came in, in milliseconds on
/// the connection's clock.
pub struct Received {
    pub frame: Frame,
    pub at: u64,
}

/// A message for the registry.
pub enum ManagerMessage {
    Seeked(Seeked),
    StateChanged(StateChanged),
    Position(Position),
    PlaylistChanged(PlaylistChanged),
}

/// What a connection does about a frame.
pub enum Reaction {
    /// Answer the probe with this payload.
    Pong(Vec<u8>),
    /// Do nothing.
    Nothing,
    /// Pass this message to the registry.
    Send(ManagerMessage),
    /// Close the connection.
    Stop,
}

/// What a connection does when its heartbeat is checked.
#[derive(Clone, Copy, Debug, PartialEq, Eq, Structural)]
pub enum Beat {
    /// Send a liveness probe to the client.
    Ping,
    /// Close the connection: the client has been silent for too long.
    Stop,
}

/// A frame as contracts speak of it.
pub enum FrameView {
    Ping(Seq<u8>),
    Pong(Seq<u8>),
    Text(Seq<char>),
    Other,
}

/// A message for the registry as contracts speak of it: session keys and
/// positions by their characters.
pub enum ManagerMessageView {
    Seeked { player: PlayerId },
    StateChanged { session: Seq<char>, state: State },
    Position { session: Seq<char>, position: Seq<char> },
    PlaylistChanged { session: Seq<char>, index: usize },
}

/// A reaction as contracts speak of it.
pub enum ReactionView {
    Pong(Seq<u8>),
    Nothing,
    Send(ManagerMessageView),
    Stop,
}

/// A connection as contracts speak of it.
pub struct PlayerActorView {
    pub session: Seq<char>,
    pub player: PlayerId,
    pub hb: u64,
}

impl View for Frame {
    type V = FrameView;

    open spec fn view(&self) -> FrameView {
        match self {
            Frame::Ping(payload) => FrameView::Ping(payload@),
            Frame::Pong(payload) => FrameView::Pong(payload@),
            Frame::Text(text) => FrameView::Text(text@),
            Frame::Other => FrameView::Other,
        }
    }
}

impl View for ManagerMessage {
    type V = ManagerMessageView;

    open spec fn view(&self) -> ManagerMessageView {
        match self {
            ManagerMessage::Seeked(m) => ManagerMessageView::Seeked { player: m.player },
            ManagerMessage::StateChanged(m) => ManagerMessageView::StateChanged {
                session: m.session@,
                state: m.state,
            },
            ManagerMessage::Position(m) => ManagerMessageView::Position {
                session: m.session@,
                position: m.position@,
            },
            ManagerMessage::PlaylistChanged(m) => ManagerMessageView::PlaylistChanged {
                session: m.session@,
                index: m.index,
            },
        }
    }
}

impl View for Reaction {
    type V = ReactionView;

    open spec fn view(&self) -> ReactionView {
        match self {
            Reaction::Pong(payload) => ReactionView::Pong(payload@),
            Reaction::Nothing => ReactionView::Nothing,
            Reaction::Send(m) => ReactionView::Send(m@),
            Reaction::Stop => ReactionView::Stop,
        }
    }
}

/// The time for which a connection has been silent at `now`. A clock that
/// has not moved past the last sign of life counts as no silence.
pub open spec fn silence(hb: u64, now: u64) -> int {
    if now >= hb {
        now - hb
    } else {
        0
    }
}

/// What a check of the heartbeat at `now` decides for a connection whose
/// client was last heard at `hb`.
pub open spec fn beat_at(hb: u64, now: u64) -> Beat {
    if silence(hb, now) > CLIENT_TIMEOUT {
        Beat::Stop
    } else {
        Beat::Ping
    }
}

/// The message for the registry that a message of the viewer's player
/// becomes on a connection.
pub open spec fn forwarded(actor: PlayerActorView, message: PlayerMessageView)
    -> ManagerMessageView {
    match message {
        PlayerMessageView::Seeked => ManagerMessageView::Seeked { player: actor.player },
        PlayerMessageView::StateChanged(state) => ManagerMessageView::StateChanged {
            session: actor.session,
            state,
        },
        PlayerMessageView::Position(position) => ManagerMessageView::Position {
            session: actor.session,
            position,
        },
        PlayerMessageView::PlaylistChanged(index) => ManagerMessageView::PlaylistChanged {
            session: actor.session,
            index,
        },
    }
}

/// What a connection does about a frame: a probe is answered with its own
/// payload, an answer to a probe needs nothing, a text frame that holds a
/// message is passed on, and everything else closes the connection.
pub open spec fn reaction_to(actor: PlayerActorView, frame: FrameView) -> ReactionView {
    match frame {
        FrameView::Ping(payload) => ReactionView::Pong(payload),
        FrameView::Pong(_) => ReactionView::Nothing,
        FrameView::Text(text) => match message_in(text) {
            Some(message) => ReactionView::Send(forwarded(actor, message)),
            None => ReactionView::Stop,
        },
        FrameView::Other => ReactionView::Stop,
    }
}

/// The connection after a frame: only a probe or an answer to one counts as
/// a sign of life.
pub open spec fn after_frame(actor: PlayerActorView, frame: FrameView, at: u64)
    -> PlayerActorView {
    match frame {
        FrameView::Ping(_) => PlayerActorView { hb: at, ..actor },
        FrameView::Pong(_) => PlayerActorView { hb: at, ..actor },
        _ => actor,
    }
}

/// One viewer's connection to one session.
pub struct PlayerActor {
    session: String,
    player: PlayerId,
    hb: u64,
}

impl View for PlayerActor {
    type V = PlayerActorView;

    closed spec fn view(&self) -> PlayerActorView {
        PlayerActorView { session: self.session@, player: self.player, hb: self.hb }
    }
}

impl PlayerActor {
    /// A connection for a session, opened at `now`.
    pub fn new(player: PlayerId, session: String, now: u64) -> (r: Self)
        ensures
            r@ == (PlayerActorView { session: session@, player, hb: now }),
    {
        PlayerActor { session, player, hb: now }
    }

    /// Checks the heartbeat: a client that has been silent for longer than
    /// the timeout is given up, any other is probed.
    pub fn hb(&self, now: u64) -> (r: Beat)
        ensures
            r == beat_at(self@.hb, now),
    {
        if now >= self.hb && now - self.hb > CLIENT_TIMEOUT {
            Beat::Stop
        } else {
            Beat::Ping
        }
    }

    /// What the registry is told when the connection has opened.
    pub fn started(&self) -> (r: PlayerConnect)
        ensures
            r.session@ == self@.session,
            r.player == self@.player,
    {
        PlayerConnect { session: self.session.clone(), player: self.player }
    }

    /// What the registry is told when the connection has closed, for
    /// whatever reason.
    pub fn stopped(&self) -> (r: PlayerDisconnect)
        ensures
            r.session@ == self@.session,
            r.player == self@.player,
    {
        PlayerDisconnect { session: self.session.clone(), player: self.player }
    }

    fn forward(&self, message: PlayerMessage) -> (r: ManagerMessage)
        ensures
            r@ == forwarded(self@, message@),
    {
        match message {
            PlayerMessage::Seeked => ManagerMessage::Seeked(Seeked { player: self.player }),
            PlayerMessage::StateChanged(state) => ManagerMessage::StateChanged(
                StateChanged { session: self.session.clone(), state },
            ),
            PlayerMessage::Position(position) => ManagerMessage::Position(
                Position { session: self.session.clone(), position },
            ),
            PlayerMessage::PlaylistChanged(index) => ManagerMessage::PlaylistChanged(
                PlaylistChanged { session: self.session.clone(), index },
            ),
        }
    }
}

impl Handler<Received> for PlayerActor {
    type Result = Reaction;

    /// Takes one frame from the socket and says what to do about it.
    fn handle(&mut self, msg: Received) -> (r: Reaction)
        ensures
            r@ == reaction_to(old(self)@, msg.frame@),
            final(self)@ == after_frame(old(self)@, msg.frame@, msg.at),
    {
        match msg.frame {
            Frame::Ping(payload) => {
                self.hb = msg.at;
                Reaction::Pong(payload)
            },
            Frame::Pong(_) => {
                self.hb = msg.at;
                Reaction::Nothing
            },
            Frame::Text(text) => match decode_message(text.as_str()) {
                Some(message) => Reaction::Send(self.forward(message)),
                None => Reaction::Stop,
            },
            Frame::Other => Reaction::Stop,
        }
    }
}

impl Handler<Command> for PlayerActor {
    type Result = String;

    /// Writes the frame that carries a command to the client. The connection
    /// itself does not change.
    fn handle(&mut self, msg: Command) -> (r: String)
        ensures
            r@ == command_text(msg),
            *final(self) == *old(self),
    {
        encode_command(&msg)
    }
}

impl Handler<SyncPosition> for PlayerActor {
    type Result = String;

    /// Writes the frame that asks the client for its position.
    fn handle(&mut self, msg: SyncPosition) -> (r: String)
        ensures
            r@ == command_text(Command::SyncPosition(msg)),
            *final(self) == *old(self),
    {
        encode_command(&Command::SyncPosition(msg))
    }
}

impl Handler<ChangePosition> for PlayerActor {
    type Result = String;

    /// Writes the frame that sends the client to a position.
    fn handle(&mut self, msg: ChangePosition) -> (r: String)
        ensures
            r@ == command_text(Command::ChangePosition(msg)),
            *final(self) == *old(self),
    {
        encode_command(&Command::ChangePosition(msg))
    }
}

impl Handler<ChangeState> for PlayerActor {
    type Result = String;

    /// Writes the frame that gives the client a state.
    fn handle(&mut self, msg: ChangeState) -> (r: String)
        ensures
            r@ == command_text(Command::ChangeState(msg)),
            *final(self) == *old(self),
    {
        encode_command(&Command::ChangeState(msg))
    }
}

impl Handler<ChangePlaylist> for PlayerActor {
    type Result = String;

    /// Writes the frame that sends the client to an item of the playlist.
    fn handle(&mut self, msg: ChangePlaylist) -> (r: String)
        ensures
            r@ == command_text(Command::ChangePlaylist(msg)),
            *final(self) == *old(self),
    {
        encode_command(&Command::ChangePlaylist(msg))
    }
}

} // verus!
