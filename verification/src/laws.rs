//! What holds of the registry over several messages.
//!
//! Each statement is over the functions that the handlers' contracts use, so
//! it holds of every registry and of every run of the handlers.

use vstd::prelude::*;
use crate::content::Shitpost;
use crate::player::{
    after_frame, beat_at, silence, Beat, ChangeState, Command, FrameView, PlayerActorView,
    SyncPosition, CLIENT_TIMEOUT,
};
use crate::session::{
    after_connect, after_disconnect, after_new_session, after_playlist_changed,
    after_state_changed, broadcast, connect_deliveries, leader, report_deliveries, without_player,
    Delivery, PlayerId, SessionView,
};
use crate::state::State;

verus! {

/// Creating a session twice under one key makes it once: after the first
/// request the key is taken, so a second request is refused, changes
/// nothing, and the session still has the playlist of the first.
pub proof fn lemma_second_creation_is_refused(
    sessions: Map<Seq<char>, SessionView>,
    key: Seq<char>,
    first: Seq<Shitpost>,
    second: Seq<Shitpost>,
)
    requires
        !sessions.dom().contains(key),
    ensures
        after_new_session(sessions, key, first).dom().contains(key),
        after_new_session(after_new_session(sessions, key, first), key, second)
            == after_new_session(sessions, key, first),
        after_new_session(after_new_session(sessions, key, first), key, second)[key].shitposts
            == first,
{
}

/// A connection that opens for a session that does not exist is sent
/// nothing, and the registry stays as it was.
pub proof fn lemma_connect_without_session(
    sessions: Map<Seq<char>, SessionView>,
    key: Seq<char>,
    player: PlayerId,
)
    requires
        !sessions.dom().contains(key),
    ensures
        connect_deliveries(sessions, key, player) == Seq::<Delivery>::empty(),
        after_connect(sessions, key, player) == sessions,
{
}

/// A report is sent once for each connection of the session, in the order of
/// the connections, and so reaches every connected viewer, the reporting one
/// too.
pub proof fn lemma_report_reaches_all(
    sessions: Map<Seq<char>, SessionView>,
    key: Seq<char>,
    command: Command,
    player: PlayerId,
)
    requires
        sessions.dom().contains(key),
        sessions[key].players.contains(player),
    ensures
        report_deliveries(sessions, key, command).len() == sessions[key].players.len(),
        report_deliveries(sessions, key, command).contains(Delivery { to: player, command }),
{
    let players = sessions[key].players;
    let i = choose|i: int| 0 <= i < players.len() && players[i] == player;
    assert(broadcast(players, command)[i] == Delivery { to: player, command });
}

/// A changed state reaches every connected viewer, the reporting one too.
pub proof fn lemma_state_reaches_all(
    sessions: Map<Seq<char>, SessionView>,
    key: Seq<char>,
    state: State,
    player: PlayerId,
)
    requires
        sessions.dom().contains(key),
        sessions[key].players.contains(player),
    ensures
        report_deliveries(
            sessions,
            key,
            Command::ChangeState(ChangeState { state }),
        ).contains(
            Delivery { to: player, command: Command::ChangeState(ChangeState { state }) },
        ),
{
    lemma_report_reaches_all(sessions, key, Command::ChangeState(ChangeState { state }), player);
}

/// When a connection joins a session that others are connected to, exactly
/// one request for the position is sent, and it goes to the connection that
/// has been there longest, not to the newcomer (unless they are the same).
pub proof fn lemma_join_asks_leader(
    sessions: Map<Seq<char>, SessionView>,
    key: Seq<char>,
    player: PlayerId,
)
    requires
        sessions.dom().contains(key),
        sessions[key].players.len() > 0,
    ensures
        connect_deliveries(sessions, key, player).len() == 3,
        forall|i: int|
            0 <= i < 3 ==> ((#[trigger] connect_deliveries(sessions, key, player)[i]).command
                == Command::SyncPosition(SyncPosition) <==> i == 2),
        connect_deliveries(sessions, key, player)[2].to == sessions[key].players[0],
{
}

/// When the only connection of a session closes, the session is gone.
pub proof fn lemma_last_disconnect_removes_session(
    sessions: Map<Seq<char>, SessionView>,
    key: Seq<char>,
    player: PlayerId,
)
    requires
        sessions.dom().contains(key),
        sessions[key].players == seq![player],
    ensures
        !after_disconnect(sessions, key, player).dom().contains(key),
{
    lemma_without_absent(seq![player], player);
}

/// Taking out a connection leaves none of it behind, and keeps every other
/// connection.
pub proof fn lemma_without_player_members(players: Seq<PlayerId>, gone: PlayerId, p: PlayerId)
    ensures
        without_player(players, gone).contains(p) <==> players.contains(p) && p != gone,
    decreases players.len(),
{
    reveal(Seq::filter);
    if players.len() > 0 {
        let front = players.drop_last();
        let last = players.last();
        lemma_without_player_members(front, gone, p);
        let kept = without_player(front, gone);
        if players.contains(p) {
            let i = choose|i: int| 0 <= i < players.len() && players[i] == p;
            if i < front.len() {
                assert(front[i] == p);
            }
        }
        if front.contains(p) {
            let i = choose|i: int| 0 <= i < front.len() && front[i] == p;
            assert(players[i] == p);
        }
        if last != gone {
            assert(without_player(players, gone) == kept.push(last));
            assert(kept.push(last)[kept.len() as int] == last);
            if kept.push(last).contains(p) {
                let i = choose|i: int| 0 <= i < kept.push(last).len() && kept.push(last)[i] == p;
                if i < kept.len() {
                    assert(kept[i] == p);
                }
            }
            if kept.contains(p) {
                let i = choose|i: int| 0 <= i < kept.len() && kept[i] == p;
                assert(kept.push(last)[i] == p);
            }
        }
        assert(players[players.len() - 1] == last);
    }
}

/// Where every connection is the one that closes, nobody stays.
proof fn lemma_without_absent(players: Seq<PlayerId>, gone: PlayerId)
    requires
        forall|i: int| 0 <= i < players.len() ==> players[i] == gone,
    ensures
        without_player(players, gone).len() == 0,
    decreases players.len(),
{
    reveal(Seq::filter);
    if players.len() > 0 {
        lemma_without_absent(players.drop_last(), gone);
    }
}

/// The oldest connection that stays is the first one that is not the one
/// that closes.
proof fn lemma_without_player_first(players: Seq<PlayerId>, gone: PlayerId, k: int)
    requires
        0 <= k < players.len(),
        players[k] != gone,
        forall|i: int| 0 <= i < k ==> players[i] == gone,
    ensures
        without_player(players, gone).len() > 0,
        without_player(players, gone)[0] == players[k],
    decreases players.len(),
{
    reveal(Seq::filter);
    let front = players.drop_last();
    let last = players.last();
    if k == players.len() - 1 {
        lemma_without_absent(front, gone);
        assert(without_player(players, gone) == without_player(front, gone).push(last));
    } else {
        lemma_without_player_first(front, gone, k);
    }
}

/// Leadership passes on by age: when the leader's connection closes and the
/// next-oldest connection is another one, the session stays, and a
/// connection that joins afterwards makes the request for the position go to
/// that next-oldest connection.
pub proof fn lemma_leader_succession(
    sessions: Map<Seq<char>, SessionView>,
    key: Seq<char>,
    gone: PlayerId,
    newcomer: PlayerId,
)
    requires
        sessions.dom().contains(key),
        sessions[key].players.len() >= 2,
        sessions[key].players[0] == gone,
        sessions[key].players[1] != gone,
    ensures
        after_disconnect(sessions, key, gone).dom().contains(key),
        connect_deliveries(after_disconnect(sessions, key, gone), key, newcomer)[2]
            == (Delivery {
            to: sessions[key].players[1],
            command: Command::SyncPosition(SyncPosition),
        }),
{
    lemma_without_player_first(sessions[key].players, gone, 1);
}

/// A session that is left after a connection has closed has somebody
/// connected to it: a session is never kept empty.
pub proof fn lemma_disconnect_leaves_no_empty_session(
    sessions: Map<Seq<char>, SessionView>,
    key: Seq<char>,
    player: PlayerId,
)
    ensures
        after_disconnect(sessions, key, player).dom().contains(key) ==> after_disconnect(
            sessions,
            key,
            player,
        )[key].players.len() > 0,
{
}

/// A connection that joins a session to which somebody is connected does
/// not change who leads it.
pub proof fn lemma_join_keeps_leader(
    sessions: Map<Seq<char>, SessionView>,
    key: Seq<char>,
    player: PlayerId,
)
    requires
        sessions.dom().contains(key),
        sessions[key].players.len() > 0,
    ensures
        leader(after_connect(sessions, key, player)[key].players) == leader(
            sessions[key].players,
        ),
{
}

/// Whatever happens to one session leaves every other session as it was.
pub proof fn lemma_other_sessions_untouched(
    sessions: Map<Seq<char>, SessionView>,
    key: Seq<char>,
    other: Seq<char>,
    player: PlayerId,
    state: State,
    index: usize,
    shitposts: Seq<Shitpost>,
)
    requires
        other != key,
    ensures
        after_new_session(sessions, key, shitposts).dom().contains(other)
            == sessions.dom().contains(other),
        after_connect(sessions, key, player).dom().contains(other) == sessions.dom().contains(
            other,
        ),
        after_disconnect(sessions, key, player).dom().contains(other) == sessions.dom().contains(
            other,
        ),
        after_state_changed(sessions, key, state).dom().contains(other)
            == sessions.dom().contains(other),
        after_playlist_changed(sessions, key, index).dom().contains(other)
            == sessions.dom().contains(other),
        sessions.dom().contains(other) ==> {
            &&& after_new_session(sessions, key, shitposts)[other] == sessions[other]
            &&& after_connect(sessions, key, player)[other] == sessions[other]
            &&& after_disconnect(sessions, key, player)[other] == sessions[other]
            &&& after_state_changed(sessions, key, state)[other] == sessions[other]
            &&& after_playlist_changed(sessions, key, index)[other] == sessions[other]
        },
{
}

/// A connection whose client has been silent for longer than the timeout is
/// given up at the next check of its heartbeat; and once the registry has
/// been told that it closed, its session no longer lists it.
pub proof fn lemma_silent_connection_is_closed(
    actor: PlayerActorView,
    now: u64,
    sessions: Map<Seq<char>, SessionView>,
)
    requires
        silence(actor.hb, now) > CLIENT_TIMEOUT,
    ensures
        beat_at(actor.hb, now) == Beat::Stop,
        ({
            let after = after_disconnect(sessions, actor.session, actor.player);
            after.dom().contains(actor.session) ==> !after[actor.session].players.contains(
                actor.player,
            )
        }),
{
    if sessions.dom().contains(actor.session) {
        lemma_without_player_members(sessions[actor.session].players, actor.player, actor.player);
    }
}

/// A probe or an answer to one puts the timeout off: for the length of the
/// timeout after it, a check of the heartbeat keeps the connection.
pub proof fn lemma_sign_of_life_keeps_connection(
    actor: PlayerActorView,
    frame: FrameView,
    at: u64,
    now: u64,
)
    requires
        frame is Ping || frame is Pong,
        now <= at + CLIENT_TIMEOUT,
    ensures
        beat_at(after_frame(actor, frame, at).hb, now) == Beat::Ping,
{
}

/// A frame that is neither a probe nor an answer to one does not put the
/// timeout off.
pub proof fn lemma_other_frames_are_no_sign_of_life(
    actor: PlayerActorView,
    frame: FrameView,
    at: u64,
)
    requires
        !(frame is Ping),
        !(frame is Pong),
    ensures
        after_frame(actor, frame, at) == actor,
{
}

} // verus!
