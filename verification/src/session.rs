//! The registry of watch sessions.
//!
//! The registry is the one place that knows who is connected and what is
//! playing. It handles one message at a time. A handler changes the registry
//! and returns the commands that are to be delivered to viewers; delivering
//! them is the caller's work.

use vstd::prelude::*;
use crate::content::{copy_playlist, Shitpost};
use crate::handler::Handler;
use crate::player::{
    ChangePlaylist, ChangePosition, ChangeState, Command, ManagerMessage, SyncPosition,
};
use crate::seconds::Seconds;
use crate::state::State;

verus! {

/// Names one live connection. Two handles are the same connection exactly
/// when their numbers are equal.
#[derive(Clone, Copy, Debug, PartialEq, Eq, Structural)]
pub struct PlayerId(pub u64);

/// Asks for a new session with the given playlist.
pub struct NewSession {
    pub session: String,
    pub shitposts: Vec<Shitpost>,
}

/// Says that a connection has opened for a session.
pub struct PlayerConnect {
    pub session: String,
    pub player: PlayerId,
}

/// Says that a connection of a session has closed.
pub struct PlayerDisconnect {
    pub session: String,
    pub player: PlayerId,
}

/// Reports that a viewer's player changed state.
pub struct StateChanged {
    pub session: String,
    pub state: State,
}

/// Reports that a viewer's player went to another item of the playlist.
pub struct PlaylistChanged {
    pub session: String,
    pub index: usize,
}

/// Reports where a viewer's player stands.
pub struct Position {
    pub session: String,
    pub position: Seconds,
}

/// Reports that a viewer moved the position by hand.
pub struct Seeked {
    pub player: PlayerId,
}

/// One command on its way to one connection.
#[derive(Debug, PartialEq, Eq)]
pub struct Delivery {
    pub to: PlayerId,
    pub command: Command,
}

/// Asks for a copy of a session as it stands.
pub struct GetSession {
    pub session: String,
}

/// One session: its playlist, what is playing, and who is connected, oldest
/// connection first.
#[derive(Debug, PartialEq, Eq)]
pub struct Session {
    pub shitposts: Vec<Shitpost>,
    pub state: State,
    pub playlist_index: usize,
    pub players: Vec<PlayerId>,
}

/// A session as contracts speak of it.
pub struct SessionView {
    pub shitposts: Seq<Shitpost>,
    pub state: State,
    pub playlist_index: usize,
    pub players: Seq<PlayerId>,
}

impl View for Session {
    type V = SessionView;

    open spec fn view(&self) -> SessionView {
        SessionView {
            shitposts: self.shitposts@,
            state: self.state,
            playlist_index: self.playlist_index,
            players: self.players@,
        }
    }
}

impl Clone for Session {
    fn clone(&self) -> (r: Self)
        ensures
            r@ == self@,
    {
        let mut players: Vec<PlayerId> = Vec::new();
        let mut i: usize = 0;
        while i < self.players.len()
            invariant
                i <= self.players.len(),
                players@ == self.players@.take(i as int),
            decreases self.players.len() - i,
        {
            players.push(self.players[i]);
            assert(self.players@.take(i + 1) =~= self.players@.take(i as int).push(
                self.players@[i as int],
            ));
            i = i + 1;
        }
        assert(self.players@.take(self.players.len() as int) =~= self.players@);
        Session {
            shitposts: copy_playlist(&self.shitposts),
            state: self.state,
            playlist_index: self.playlist_index,
            players,
        }
    }
}

/// The session that creation makes: paused, at the first item, with nobody
/// connected.
pub open spec fn fresh_session(shitposts: Seq<Shitpost>) -> SessionView {
    SessionView { shitposts, state: State::Paused, playlist_index: 0, players: Seq::empty() }
}

/// The sessions after a request to create one: the new session is added only
/// where the key is free.
pub open spec fn after_new_session(
    sessions: Map<Seq<char>, SessionView>,
    key: Seq<char>,
    shitposts: Seq<Shitpost>,
) -> Map<Seq<char>, SessionView> {
    if sessions.dom().contains(key) {
        sessions
    } else {
        sessions.insert(key, fresh_session(shitposts))
    }
}

/// The connection that answers for a session's position: the one that has
/// been connected longest.
pub open spec fn leader(players: Seq<PlayerId>) -> PlayerId
    recommends
        players.len() > 0,
{
    players[0]
}

/// The same command for every connection, oldest connection first.
pub open spec fn broadcast(players: Seq<PlayerId>, command: Command) -> Seq<Delivery> {
    Seq::new(players.len(), |i: int| Delivery { to: players[i], command })
}

/// The sessions after a connection has opened: it joins its session as the
/// newest; without such a session nothing changes.
pub open spec fn after_connect(
    sessions: Map<Seq<char>, SessionView>,
    key: Seq<char>,
    player: PlayerId,
) -> Map<Seq<char>, SessionView> {
    if sessions.dom().contains(key) {
        sessions.insert(
            key,
            SessionView { players: sessions[key].players.push(player), ..sessions[key] },
        )
    } else {
        sessions
    }
}

/// What is sent when a connection opens: the session's state and item to the
/// newcomer, then a request for the position to the leader. Without such a
/// session nothing is sent.
pub open spec fn connect_deliveries(
    sessions: Map<Seq<char>, SessionView>,
    key: Seq<char>,
    player: PlayerId,
) -> Seq<Delivery> {
    if sessions.dom().contains(key) {
        seq![
            Delivery {
                to: player,
                command: Command::ChangeState(ChangeState { state: sessions[key].state }),
            },
            Delivery {
                to: player,
                command: Command::ChangePlaylist(
                    ChangePlaylist { index: sessions[key].playlist_index },
                ),
            },
            Delivery {
                to: leader(sessions[key].players.push(player)),
                command: Command::SyncPosition(SyncPosition),
            },
        ]
    } else {
        Seq::empty()
    }
}

/// The connections that stay when one closes, in their old order.
pub open spec fn without_player(players: Seq<PlayerId>, player: PlayerId) -> Seq<PlayerId> {
    players.filter(|p: PlayerId| p != player)
}

/// The sessions after a connection has closed: it leaves its session, and a
/// session that nobody is connected to any more is removed.
pub open spec fn after_disconnect(
    sessions: Map<Seq<char>, SessionView>,
    key: Seq<char>,
    player: PlayerId,
) -> Map<Seq<char>, SessionView> {
    if sessions.dom().contains(key) {
        let rest = without_player(sessions[key].players, player);
        if rest.len() == 0 {
            sessions.remove(key)
        } else {
            sessions.insert(key, SessionView { players: rest, ..sessions[key] })
        }
    } else {
        sessions
    }
}

/// The sessions after a report of a new state: the session keeps it.
pub open spec fn after_state_changed(
    sessions: Map<Seq<char>, SessionView>,
    key: Seq<char>,
    state: State,
) -> Map<Seq<char>, SessionView> {
    if sessions.dom().contains(key) {
        sessions.insert(key, SessionView { state, ..sessions[key] })
    } else {
        sessions
    }
}

/// The sessions after a report of a new item: the session keeps its index.
pub open spec fn after_playlist_changed(
    sessions: Map<Seq<char>, SessionView>,
    key: Seq<char>,
    index: usize,
) -> Map<Seq<char>, SessionView> {
    if sessions.dom().contains(key) {
        sessions.insert(key, SessionView { playlist_index: index, ..sessions[key] })
    } else {
        sessions
    }
}

/// What is sent on a report: the command to every connection of the session,
/// the reporting one among them; without such a session, nothing.
pub open spec fn report_deliveries(
    sessions: Map<Seq<char>, SessionView>,
    key: Seq<char>,
    command: Command,
) -> Seq<Delivery> {
    if sessions.dom().contains(key) {
        broadcast(sessions[key].players, command)
    } else {
        Seq::empty()
    }
}

struct Entry {
    key: String,
    session: Session,
}

spec fn keys_distinct(entries: Seq<Entry>) -> bool {
    forall|i: int, j: int|
        0 <= i < j < entries.len() ==> (#[trigger] entries[i]).key@ != (#[trigger] entries[j]).key@
}

spec fn has_key(entries: Seq<Entry>, key: Seq<char>) -> bool {
    exists|i: int| 0 <= i < entries.len() && (#[trigger] entries[i]).key@ == key
}

spec fn index_of(entries: Seq<Entry>, key: Seq<char>) -> int {
    choose|i: int| 0 <= i < entries.len() && (#[trigger] entries[i]).key@ == key
}

spec fn entries_map(entries: Seq<Entry>) -> Map<Seq<char>, SessionView> {
    Map::new(
        |key: Seq<char>| has_key(entries, key),
        |key: Seq<char>| entries[index_of(entries, key)].session@,
    )
}

proof fn lemma_entry_at(entries: Seq<Entry>, i: int)
    requires
        keys_distinct(entries),
        0 <= i < entries.len(),
    ensures
        has_key(entries, entries[i].key@),
        index_of(entries, entries[i].key@) == i,
        entries_map(entries).dom().contains(entries[i].key@),
        entries_map(entries)[entries[i].key@] == entries[i].session@,
{
    let key = entries[i].key@;
    assert(has_key(entries, key));
    let j = index_of(entries, key);
    assert(0 <= j < entries.len() && entries[j].key@ == key);
    if j < i {
        assert(entries[j].key@ != entries[i].key@);
    } else if i < j {
        assert(entries[i].key@ != entries[j].key@);
    }
}

proof fn lemma_push_entry(entries: Seq<Entry>, e: Entry)
    requires
        keys_distinct(entries),
        !has_key(entries, e.key@),
    ensures
        keys_distinct(entries.push(e)),
        entries_map(entries.push(e)) == entries_map(entries).insert(e.key@, e.session@),
{
    let after = entries.push(e);
    assert forall|i: int, j: int| 0 <= i < j < after.len() implies
        (#[trigger] after[i]).key@ != (#[trigger] after[j]).key@ by {
        if j == entries.len() {
            assert(after[i] == entries[i]);
            if entries[i].key@ == e.key@ {
                assert(has_key(entries, e.key@));
            }
        } else {
            assert(after[i] == entries[i]);
            assert(after[j] == entries[j]);
        }
    }
    let m1 = entries_map(after);
    let m2 = entries_map(entries).insert(e.key@, e.session@);
    assert forall|key: Seq<char>| m1.dom().contains(key) == m2.dom().contains(key) by {
        if has_key(after, key) {
            let i = index_of(after, key);
            if i < entries.len() {
                assert(after[i] == entries[i]);
                assert(has_key(entries, key));
            }
        }
        if has_key(entries, key) {
            let i = index_of(entries, key);
            assert(after[i] == entries[i]);
            assert(has_key(after, key));
        }
        if key == e.key@ {
            assert(after[entries.len() as int] == e);
            assert(has_key(after, key));
        }
    }
    assert forall|key: Seq<char>| m1.dom().contains(key) implies m1[key] == m2[key] by {
        let i = index_of(after, key);
        lemma_entry_at(after, i);
        if i < entries.len() {
            assert(after[i] == entries[i]);
            lemma_entry_at(entries, i);
            if key == e.key@ {
                assert(has_key(entries, e.key@));
            }
        } else {
            assert(after[i] == e);
        }
    }
    assert(m1 =~= m2);
}

proof fn lemma_change_entry(before: Seq<Entry>, after: Seq<Entry>, i: int)
    requires
        keys_distinct(before),
        0 <= i < before.len(),
        after.len() == before.len(),
        after[i].key@ == before[i].key@,
        forall|j: int| 0 <= j < before.len() && j != i ==> after[j] == before[j],
    ensures
        keys_distinct(after),
        entries_map(after) == entries_map(before).insert(before[i].key@, after[i].session@),
{
    assert forall|a: int| 0 <= a < before.len() implies
        (#[trigger] after[a]).key@ == before[a].key@ by {}
    assert forall|a: int, b: int| 0 <= a < b < after.len() implies
        (#[trigger] after[a]).key@ != (#[trigger] after[b]).key@ by {
        assert(before[a].key@ != before[b].key@);
    }
    let m1 = entries_map(after);
    let m2 = entries_map(before).insert(before[i].key@, after[i].session@);
    assert forall|key: Seq<char>| m1.dom().contains(key) == m2.dom().contains(key) by {
        if has_key(after, key) {
            let a = index_of(after, key);
            assert(before[a].key@ == key);
            assert(has_key(before, key));
        }
        if has_key(before, key) {
            let a = index_of(before, key);
            assert(after[a].key@ == key);
            assert(has_key(after, key));
        }
        lemma_entry_at(before, i);
    }
    assert forall|key: Seq<char>| m1.dom().contains(key) implies m1[key] == m2[key] by {
        let a = index_of(after, key);
        lemma_entry_at(after, a);
        lemma_entry_at(before, a);
    }
    assert(m1 =~= m2);
}

proof fn lemma_remove_entry(before: Seq<Entry>, i: int)
    requires
        keys_distinct(before),
        0 <= i < before.len(),
    ensures
        keys_distinct(before.remove(i)),
        entries_map(before.remove(i)) == entries_map(before).remove(before[i].key@),
{
    let after = before.remove(i);
    assert forall|a: int| 0 <= a < after.len() implies #[trigger] after[a] == before[if a < i {
        a
    } else {
        a + 1
    }] by {}
    assert forall|a: int, b: int| 0 <= a < b < after.len() implies
        (#[trigger] after[a]).key@ != (#[trigger] after[b]).key@ by {
        let a0 = if a < i { a } else { a + 1 };
        let b0 = if b < i { b } else { b + 1 };
        assert(before[a0].key@ != before[b0].key@);
    }
    let m1 = entries_map(after);
    let m2 = entries_map(before).remove(before[i].key@);
    assert forall|key: Seq<char>| m1.dom().contains(key) == m2.dom().contains(key) by {
        if has_key(after, key) {
            let a = index_of(after, key);
            let a0 = if a < i { a } else { a + 1 };
            assert(before[a0].key@ == key);
            assert(has_key(before, key));
            assert(before[a0].key@ != before[i].key@) by {
                if a0 < i {
                    assert(before[a0].key@ != before[i].key@);
                } else {
                    assert(before[i].key@ != before[a0].key@);
                }
            }
        }
        if has_key(before, key) && key != before[i].key@ {
            let a0 = index_of(before, key);
            let a = if a0 < i { a0 } else { a0 - 1 };
            assert(after[a] == before[a0]);
            assert(has_key(after, key));
        }
    }
    assert forall|key: Seq<char>| m1.dom().contains(key) implies m1[key] == m2[key] by {
        let a = index_of(after, key);
        let a0 = if a < i { a } else { a + 1 };
        lemma_entry_at(after, a);
        lemma_entry_at(before, a0);
    }
    assert(m1 =~= m2);
}

/// The registry: every session that exists, by its key.
pub struct SessionManager {
    sessions: Vec<Entry>,
}

impl View for SessionManager {
    type V = Map<Seq<char>, SessionView>;

    closed spec fn view(&self) -> Map<Seq<char>, SessionView> {
        entries_map(self.sessions@)
    }
}

impl SessionManager {
    #[verifier::type_invariant]
    spec fn well_formed(self) -> bool {
        keys_distinct(self.sessions@)
    }

    /// A registry without sessions.
    pub fn new() -> (r: Self)
        ensures
            r@ == Map::<Seq<char>, SessionView>::empty(),
    {
        let r = SessionManager { sessions: Vec::new() };
        assert(r@ =~= Map::<Seq<char>, SessionView>::empty());
        r
    }

    fn find(&self, key: &String) -> (r: Option<usize>)
        ensures
            match r {
                Some(i) => i < self.sessions.len() && self.sessions[i as int].key@ == key@,
                None => !self@.dom().contains(key@),
            },
            r.is_some() == self@.dom().contains(key@),
            r.is_some() ==> self@[key@] == self.sessions[r.unwrap() as int].session@,
    {
        proof {
            use_type_invariant(self);
        }
        let mut i: usize = 0;
        while i < self.sessions.len()
            invariant
                i <= self.sessions.len(),
                forall|j: int| 0 <= j < i ==> (#[trigger] self.sessions[j]).key@ != key@,
                keys_distinct(self.sessions@),
            decreases self.sessions.len() - i,
        {
            if self.sessions[i].key == *key {
                proof {
                    lemma_entry_at(self.sessions@, i as int);
                }
                return Some(i);
            }
            i = i + 1;
        }
        assert(!has_key(self.sessions@, key@));
        None
    }
}

impl Handler<NewSession> for SessionManager {
    type Result = bool;

    /// Creates the session unless its key is taken. Tells whether it was
    /// created; a taken key leaves the registry as it was.
    fn handle(&mut self, msg: NewSession) -> (created: bool)
        ensures
            created == !old(self)@.dom().contains(msg.session@),
            final(self)@ == after_new_session(old(self)@, msg.session@, msg.shitposts@),
    {
        proof {
            use_type_invariant(&*self);
        }
        match self.find(&msg.session) {
            Some(_) => false,
            None => {
                let entry = Entry {
                    key: msg.session,
                    session: Session {
                        shitposts: msg.shitposts,
                        state: State::Paused,
                        playlist_index: 0,
                        players: Vec::new(),
                    },
                };
                proof {
                    lemma_push_entry(self.sessions@, entry);
                }
                let mut entries: Vec<Entry> = Vec::new();
                std::mem::swap(&mut entries, &mut self.sessions);
                entries.push(entry);
                self.sessions = entries;
                true
            },
        }
    }
}

fn broadcast_to(players: &Vec<PlayerId>, command: &Command) -> (r: Vec<Delivery>)
    ensures
        r@ == broadcast(players@, *command),
{
    let mut out: Vec<Delivery> = Vec::new();
    let mut i: usize = 0;
    while i < players.len()
        invariant
            i <= players.len(),
            out@ == broadcast(players@.take(i as int), *command),
        decreases players.len() - i,
    {
        out.push(Delivery { to: players[i], command: command.clone() });
        assert(out@ =~= broadcast(players@.take(i + 1), *command));
        i = i + 1;
    }
    assert(players@.take(players.len() as int) =~= players@);
    out
}

fn keep_others(players: &Vec<PlayerId>, player: PlayerId) -> (r: Vec<PlayerId>)
    ensures
        r@ == without_player(players@, player),
{
    let mut out: Vec<PlayerId> = Vec::new();
    let mut i: usize = 0;
    while i < players.len()
        invariant
            i <= players.len(),
            out@ == without_player(players@.take(i as int), player),
        decreases players.len() - i,
    {
        proof {
            reveal(Seq::filter);
            assert(players@.take(i + 1).drop_last() =~= players@.take(i as int));
        }
        if players[i] != player {
            out.push(players[i]);
        }
        i = i + 1;
    }
    assert(players@.take(players.len() as int) =~= players@);
    out
}

impl Handler<PlayerConnect> for SessionManager {
    type Result = Vec<Delivery>;

    /// Lets a connection join its session as the newest. The newcomer is
    /// sent the session's state and item, and the session's leader is asked
    /// for the position. Without such a session nothing happens.
    fn handle(&mut self, msg: PlayerConnect) -> (out: Vec<Delivery>)
        ensures
            final(self)@ == after_connect(old(self)@, msg.session@, msg.player),
            out@ == connect_deliveries(old(self)@, msg.session@, msg.player),
    {
        proof {
            use_type_invariant(&*self);
        }
        match self.find(&msg.session) {
            None => Vec::new(),
            Some(i) => {
                let ghost before = self.sessions@;
                let mut entries: Vec<Entry> = Vec::new();
                std::mem::swap(&mut entries, &mut self.sessions);
                let state = entries[i].session.state;
                let index: usize = entries[i].session.playlist_index;
                entries[i].session.players.push(msg.player);
                let first = entries[i].session.players[0];
                proof {
                    lemma_change_entry(before, entries@, i as int);
                }
                self.sessions = entries;
                let mut out: Vec<Delivery> = Vec::new();
                out.push(
                    Delivery { to: msg.player, command: Command::ChangeState(ChangeState { state }) },
                );
                out.push(
                    Delivery {
                        to: msg.player,
                        command: Command::ChangePlaylist(ChangePlaylist { index }),
                    },
                );
                out.push(Delivery { to: first, command: Command::SyncPosition(SyncPosition) });
                assert(out@ =~= connect_deliveries(old(self)@, msg.session@, msg.player));
                out
            },
        }
    }
}

impl Handler<PlayerDisconnect> for SessionManager {
    type Result = ();

    /// Takes a connection out of its session, and removes the session when
    /// nobody is connected to it any more.
    fn handle(&mut self, msg: PlayerDisconnect)
        ensures
            final(self)@ == after_disconnect(old(self)@, msg.session@, msg.player),
    {
        proof {
            use_type_invariant(&*self);
        }
        match self.find(&msg.session) {
            None => {},
            Some(i) => {
                let ghost before = self.sessions@;
                let mut entries: Vec<Entry> = Vec::new();
                std::mem::swap(&mut entries, &mut self.sessions);
                let rest = keep_others(&entries[i].session.players, msg.player);
                if rest.len() == 0 {
                    proof {
                        lemma_remove_entry(before, i as int);
                    }
                    entries.remove(i);
                } else {
                    entries[i].session.players = rest;
                    proof {
                        lemma_change_entry(before, entries@, i as int);
                    }
                }
                self.sessions = entries;
            },
        }
    }
}

impl Handler<StateChanged> for SessionManager {
    type Result = Vec<Delivery>;

    /// Keeps the reported state and sends it to every connection of the
    /// session, the reporting one among them.
    fn handle(&mut self, msg: StateChanged) -> (out: Vec<Delivery>)
        ensures
            final(self)@ == after_state_changed(old(self)@, msg.session@, msg.state),
            out@ == report_deliveries(
                old(self)@,
                msg.session@,
                Command::ChangeState(ChangeState { state: msg.state }),
            ),
    {
        proof {
            use_type_invariant(&*self);
        }
        match self.find(&msg.session) {
            None => Vec::new(),
            Some(i) => {
                let ghost before = self.sessions@;
                let mut entries: Vec<Entry> = Vec::new();
                std::mem::swap(&mut entries, &mut self.sessions);
                entries[i].session.state = msg.state;
                let out = broadcast_to(
                    &entries[i].session.players,
                    &Command::ChangeState(ChangeState { state: msg.state }),
                );
                proof {
                    lemma_change_entry(before, entries@, i as int);
                }
                self.sessions = entries;
                out
            },
        }
    }
}

impl Handler<PlaylistChanged> for SessionManager {
    type Result = Vec<Delivery>;

    /// Keeps the reported index and sends it to every connection of the
    /// session, the reporting one among them.
    fn handle(&mut self, msg: PlaylistChanged) -> (out: Vec<Delivery>)
        ensures
            final(self)@ == after_playlist_changed(old(self)@, msg.session@, msg.index),
            out@ == report_deliveries(
                old(self)@,
                msg.session@,
                Command::ChangePlaylist(ChangePlaylist { index: msg.index }),
            ),
    {
        proof {
            use_type_invariant(&*self);
        }
        match self.find(&msg.session) {
            None => Vec::new(),
            Some(i) => {
                let ghost before = self.sessions@;
                let mut entries: Vec<Entry> = Vec::new();
                std::mem::swap(&mut entries, &mut self.sessions);
                entries[i].session.playlist_index = msg.index;
                let out = broadcast_to(
                    &entries[i].session.players,
                    &Command::ChangePlaylist(ChangePlaylist { index: msg.index }),
                );
                proof {
                    lemma_change_entry(before, entries@, i as int);
                }
                self.sessions = entries;
                out
            },
        }
    }
}

impl Handler<Position> for SessionManager {
    type Result = Vec<Delivery>;

    /// Passes a reported position on to every connection of the session, the
    /// reporting one among them. The registry keeps nothing of it.
    fn handle(&mut self, msg: Position) -> (out: Vec<Delivery>)
        ensures
            final(self)@ == old(self)@,
            out@ == report_deliveries(
                old(self)@,
                msg.session@,
                Command::ChangePosition(ChangePosition { position: msg.position }),
            ),
    {
        match self.find(&msg.session) {
            None => Vec::new(),
            Some(i) => broadcast_to(
                &self.sessions[i].session.players,
                &Command::ChangePosition(ChangePosition { position: msg.position }),
            ),
        }
    }
}

impl Handler<Seeked> for SessionManager {
    type Result = Vec<Delivery>;

    /// Asks the connection that reported the seek, and no other, for its
    /// position.
    fn handle(&mut self, msg: Seeked) -> (out: Vec<Delivery>)
        ensures
            final(self)@ == old(self)@,
            out@ == seq![Delivery { to: msg.player, command: Command::SyncPosition(SyncPosition) }],
    {
        let mut out: Vec<Delivery> = Vec::new();
        out.push(Delivery { to: msg.player, command: Command::SyncPosition(SyncPosition) });
        assert(out@ =~= seq![
            Delivery { to: msg.player, command: Command::SyncPosition(SyncPosition) },
        ]);
        out
    }
}

impl Handler<ManagerMessage> for SessionManager {
    type Result = Vec<Delivery>;

    /// Handles whatever a connection passes on from its viewer's player, each
    /// kind of message as its own handler does.
    fn handle(&mut self, msg: ManagerMessage) -> (out: Vec<Delivery>)
        ensures
            match msg {
                ManagerMessage::Seeked(m) => {
                    &&& final(self)@ == old(self)@
                    &&& out@ == seq![
                        Delivery { to: m.player, command: Command::SyncPosition(SyncPosition) },
                    ]
                },
                ManagerMessage::StateChanged(m) => {
                    &&& final(self)@ == after_state_changed(old(self)@, m.session@, m.state)
                    &&& out@ == report_deliveries(
                        old(self)@,
                        m.session@,
                        Command::ChangeState(ChangeState { state: m.state }),
                    )
                },
                ManagerMessage::Position(m) => {
                    &&& final(self)@ == old(self)@
                    &&& out@ == report_deliveries(
                        old(self)@,
                        m.session@,
                        Command::ChangePosition(ChangePosition { position: m.position }),
                    )
                },
                ManagerMessage::PlaylistChanged(m) => {
                    &&& final(self)@ == after_playlist_changed(old(self)@, m.session@, m.index)
                    &&& out@ == report_deliveries(
                        old(self)@,
                        m.session@,
                        Command::ChangePlaylist(ChangePlaylist { index: m.index }),
                    )
                },
            },
    {
        match msg {
            ManagerMessage::Seeked(m) => self.handle(m),
            ManagerMessage::StateChanged(m) => self.handle(m),
            ManagerMessage::Position(m) => self.handle(m),
            ManagerMessage::PlaylistChanged(m) => self.handle(m),
        }
    }
}

impl Handler<GetSession> for SessionManager {
    type Result = Option<Session>;

    /// Copies the session out, if there is one under that key. The registry
    /// stays as it was.
    fn handle(&mut self, msg: GetSession) -> (r: Option<Session>)
        ensures
            final(self)@ == old(self)@,
            r.is_some() == old(self)@.dom().contains(msg.session@),
            r.is_some() ==> r.unwrap()@ == old(self)@[msg.session@],
    {
        match self.find(&msg.session) {
            Some(i) => Some(self.sessions[i].session.clone()),
            None => None,
        }
    }
}

} // verus!
