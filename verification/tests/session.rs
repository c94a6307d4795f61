use watch_sync::handler::Handler;
use watch_sync::player::{
    ChangePlaylist, ChangePosition, ChangeState, Command, ManagerMessage, SyncPosition,
};
use watch_sync::seconds::Seconds;
use watch_sync::session::{
    Delivery, GetSession, NewSession, PlayerConnect, PlayerDisconnect, PlayerId, PlaylistChanged,
    Position, Seeked, SessionManager, StateChanged,
};
use watch_sync::state::State;
use watch_sync::Shitpost;

fn item(title: &str) -> Shitpost {
    Shitpost { title: title.to_string(), url: format!("/shitposts/clips/{}", title) }
}

fn create(manager: &mut SessionManager, key: &str, titles: &[&str]) -> bool {
    let shitposts: Vec<Shitpost> = titles.iter().map(|t| item(t)).collect();
    manager.handle(NewSession { session: key.to_string(), shitposts })
}

fn connect(manager: &mut SessionManager, key: &str, id: u64) -> Vec<Delivery> {
    manager.handle(PlayerConnect { session: key.to_string(), player: PlayerId(id) })
}

fn disconnect(manager: &mut SessionManager, key: &str, id: u64) {
    manager.handle(PlayerDisconnect { session: key.to_string(), player: PlayerId(id) })
}

fn snapshot(manager: &mut SessionManager, key: &str) -> Option<watch_sync::session::Session> {
    manager.handle(GetSession { session: key.to_string() })
}

fn sync_to(id: u64) -> Delivery {
    Delivery { to: PlayerId(id), command: Command::SyncPosition(SyncPosition) }
}

fn state_to(id: u64, state: State) -> Delivery {
    Delivery { to: PlayerId(id), command: Command::ChangeState(ChangeState { state }) }
}

fn index_to(id: u64, index: usize) -> Delivery {
    Delivery { to: PlayerId(id), command: Command::ChangePlaylist(ChangePlaylist { index }) }
}

#[test]
fn new_registry_has_no_sessions() {
    let mut manager = SessionManager::new();
    assert!(snapshot(&mut manager, "room").is_none());
    assert!(snapshot(&mut manager, "").is_none());
}

#[test]
fn created_session_is_paused_at_first_item_with_nobody_connected() {
    let mut manager = SessionManager::new();
    assert!(create(&mut manager, "room", &["a.mp4", "b.webm"]));
    let session = snapshot(&mut manager, "room").unwrap();
    assert_eq!(session.shitposts, vec![item("a.mp4"), item("b.webm")]);
    assert_eq!(session.state, State::Paused);
    assert_eq!(session.playlist_index, 0);
    assert_eq!(session.players, Vec::<PlayerId>::new());
}

#[test]
fn second_creation_under_one_key_is_refused() {
    let mut manager = SessionManager::new();
    assert!(create(&mut manager, "room", &["a.mp4"]));
    assert!(!create(&mut manager, "room", &["other.mp4", "more.mp4"]));
    let session = snapshot(&mut manager, "room").unwrap();
    assert_eq!(session.shitposts, vec![item("a.mp4")]);
}

#[test]
fn sessions_are_kept_apart_by_key() {
    let mut manager = SessionManager::new();
    assert!(create(&mut manager, "room", &["a.mp4"]));
    assert!(create(&mut manager, "Room", &["b.mp4"]));
    assert!(create(&mut manager, "", &[]));
    connect(&mut manager, "Room", 1);
    manager.handle(StateChanged { session: "Room".to_string(), state: State::Playing });
    assert_eq!(snapshot(&mut manager, "room").unwrap().state, State::Paused);
    assert_eq!(snapshot(&mut manager, "Room").unwrap().state, State::Playing);
    assert_eq!(snapshot(&mut manager, "room").unwrap().players, Vec::<PlayerId>::new());
    assert_eq!(snapshot(&mut manager, "").unwrap().shitposts, Vec::<Shitpost>::new());
}

#[test]
fn connect_without_session_sends_nothing_and_changes_nothing() {
    let mut manager = SessionManager::new();
    assert!(create(&mut manager, "other", &["a.mp4"]));
    assert_eq!(connect(&mut manager, "room", 1), Vec::<Delivery>::new());
    assert!(snapshot(&mut manager, "room").is_none());
    assert_eq!(snapshot(&mut manager, "other").unwrap().players, Vec::<PlayerId>::new());
}

#[test]
fn first_connection_is_sent_the_session_and_asked_itself() {
    let mut manager = SessionManager::new();
    create(&mut manager, "room", &["a.mp4"]);
    let out = connect(&mut manager, "room", 5);
    assert_eq!(out, vec![state_to(5, State::Paused), index_to(5, 0), sync_to(5)]);
    assert_eq!(snapshot(&mut manager, "room").unwrap().players, vec![PlayerId(5)]);
}

#[test]
fn join_asks_the_leader_once() {
    let mut manager = SessionManager::new();
    create(&mut manager, "room", &["a.mp4"]);
    connect(&mut manager, "room", 1);
    let out = connect(&mut manager, "room", 2);
    assert_eq!(out, vec![state_to(2, State::Paused), index_to(2, 0), sync_to(1)]);
    let asked: Vec<&Delivery> =
        out.iter().filter(|d| d.command == Command::SyncPosition(SyncPosition)).collect();
    assert_eq!(asked.len(), 1);
    assert_eq!(asked[0].to, PlayerId(1));
}

#[test]
fn newcomer_is_brought_to_the_last_known_state() {
    let mut manager = SessionManager::new();
    create(&mut manager, "room", &["a.mp4", "b.mp4", "c.mp4"]);
    connect(&mut manager, "room", 1);
    manager.handle(StateChanged { session: "room".to_string(), state: State::Playing });
    manager.handle(PlaylistChanged { session: "room".to_string(), index: 2 });
    let out = connect(&mut manager, "room", 2);
    assert_eq!(out, vec![state_to(2, State::Playing), index_to(2, 2), sync_to(1)]);
}

#[test]
fn state_broadcast_reaches_all_including_sender() {
    let mut manager = SessionManager::new();
    create(&mut manager, "room", &["a.mp4"]);
    connect(&mut manager, "room", 1);
    connect(&mut manager, "room", 2);
    connect(&mut manager, "room", 3);
    let out = manager.handle(StateChanged { session: "room".to_string(), state: State::Stalled });
    assert_eq!(
        out,
        vec![state_to(1, State::Stalled), state_to(2, State::Stalled), state_to(3, State::Stalled)]
    );
    assert_eq!(snapshot(&mut manager, "room").unwrap().state, State::Stalled);
}

#[test]
fn any_state_may_follow_any_other() {
    let mut manager = SessionManager::new();
    create(&mut manager, "room", &["a.mp4"]);
    connect(&mut manager, "room", 1);
    for state in [State::Complete, State::Idle, State::AdPaused, State::Error, State::Error] {
        let out = manager.handle(StateChanged { session: "room".to_string(), state });
        assert_eq!(out, vec![state_to(1, state)]);
        assert_eq!(snapshot(&mut manager, "room").unwrap().state, state);
    }
}

#[test]
fn playlist_index_is_kept_and_broadcast() {
    let mut manager = SessionManager::new();
    create(&mut manager, "room", &["a.mp4"]);
    connect(&mut manager, "room", 1);
    connect(&mut manager, "room", 2);
    let out = manager.handle(PlaylistChanged { session: "room".to_string(), index: 7 });
    assert_eq!(out, vec![index_to(1, 7), index_to(2, 7)]);
    assert_eq!(snapshot(&mut manager, "room").unwrap().playlist_index, 7);
}

#[test]
fn position_is_passed_on_and_not_kept() {
    let mut manager = SessionManager::new();
    create(&mut manager, "room", &["a.mp4"]);
    connect(&mut manager, "room", 1);
    connect(&mut manager, "room", 2);
    let before = snapshot(&mut manager, "room").unwrap();
    let out = manager.handle(Position {
        session: "room".to_string(),
        position: Seconds::parse("61.5").unwrap(),
    });
    let to = |id: u64| Delivery {
        to: PlayerId(id),
        command: Command::ChangePosition(ChangePosition {
            position: Seconds::parse("61.5").unwrap(),
        }),
    };
    assert_eq!(out, vec![to(1), to(2)]);
    assert_eq!(snapshot(&mut manager, "room").unwrap(), before);
}

#[test]
fn reports_for_unknown_sessions_are_dropped() {
    let mut manager = SessionManager::new();
    create(&mut manager, "room", &["a.mp4"]);
    connect(&mut manager, "room", 1);
    let nobody = Vec::<Delivery>::new();
    assert_eq!(
        manager.handle(StateChanged { session: "nowhere".to_string(), state: State::Playing }),
        nobody
    );
    assert_eq!(manager.handle(PlaylistChanged { session: "nowhere".to_string(), index: 3 }), nobody);
    assert_eq!(
        manager.handle(Position {
            session: "nowhere".to_string(),
            position: Seconds::parse("1").unwrap()
        }),
        nobody
    );
    disconnect(&mut manager, "nowhere", 1);
    assert!(snapshot(&mut manager, "nowhere").is_none());
    let session = snapshot(&mut manager, "room").unwrap();
    assert_eq!(session.state, State::Paused);
    assert_eq!(session.playlist_index, 0);
    assert_eq!(session.players, vec![PlayerId(1)]);
}

#[test]
fn seek_is_answered_to_the_same_connection_only() {
    let mut manager = SessionManager::new();
    create(&mut manager, "room", &["a.mp4"]);
    connect(&mut manager, "room", 1);
    connect(&mut manager, "room", 2);
    assert_eq!(manager.handle(Seeked { player: PlayerId(2) }), vec![sync_to(2)]);
    assert_eq!(manager.handle(Seeked { player: PlayerId(99) }), vec![sync_to(99)]);
    assert_eq!(snapshot(&mut manager, "room").unwrap().players, vec![PlayerId(1), PlayerId(2)]);
}

#[test]
fn cleanup_on_empty() {
    let mut manager = SessionManager::new();
    create(&mut manager, "room", &["a.mp4"]);
    connect(&mut manager, "room", 1);
    disconnect(&mut manager, "room", 1);
    assert!(snapshot(&mut manager, "room").is_none());
    assert!(create(&mut manager, "room", &["b.mp4"]));
}

#[test]
fn session_stays_while_someone_is_connected() {
    let mut manager = SessionManager::new();
    create(&mut manager, "room", &["a.mp4"]);
    connect(&mut manager, "room", 1);
    connect(&mut manager, "room", 2);
    disconnect(&mut manager, "room", 1);
    assert_eq!(snapshot(&mut manager, "room").unwrap().players, vec![PlayerId(2)]);
    disconnect(&mut manager, "room", 7);
    assert_eq!(snapshot(&mut manager, "room").unwrap().players, vec![PlayerId(2)]);
    disconnect(&mut manager, "room", 2);
    assert!(snapshot(&mut manager, "room").is_none());
}

#[test]
fn disconnect_before_anyone_connected_removes_the_session() {
    let mut manager = SessionManager::new();
    create(&mut manager, "room", &["a.mp4"]);
    disconnect(&mut manager, "room", 1);
    assert!(snapshot(&mut manager, "room").is_none());
}

#[test]
fn leader_succession() {
    let mut manager = SessionManager::new();
    create(&mut manager, "room", &["a.mp4"]);
    connect(&mut manager, "room", 1);
    connect(&mut manager, "room", 2);
    connect(&mut manager, "room", 3);
    disconnect(&mut manager, "room", 1);
    let out = connect(&mut manager, "room", 4);
    assert_eq!(out[2], sync_to(2));
    assert_eq!(
        snapshot(&mut manager, "room").unwrap().players,
        vec![PlayerId(2), PlayerId(3), PlayerId(4)]
    );
}

#[test]
fn removing_a_middle_session_keeps_the_others() {
    let mut manager = SessionManager::new();
    for key in ["a", "b", "c"] {
        create(&mut manager, key, &[key]);
        connect(&mut manager, key, 1);
    }
    disconnect(&mut manager, "b", 1);
    assert!(snapshot(&mut manager, "b").is_none());
    assert_eq!(snapshot(&mut manager, "a").unwrap().shitposts, vec![item("a")]);
    assert_eq!(snapshot(&mut manager, "c").unwrap().shitposts, vec![item("c")]);
}

#[test]
fn snapshot_is_a_copy() {
    let mut manager = SessionManager::new();
    create(&mut manager, "room", &["a.mp4"]);
    connect(&mut manager, "room", 1);
    let mut copy = snapshot(&mut manager, "room").unwrap();
    copy.state = State::Playing;
    copy.players.push(PlayerId(9));
    let again = snapshot(&mut manager, "room").unwrap();
    assert_eq!(again.state, State::Paused);
    assert_eq!(again.players, vec![PlayerId(1)]);
    assert_eq!(again.clone(), again);
}

#[test]
fn messages_from_connections_are_handled_by_kind() {
    let mut manager = SessionManager::new();
    create(&mut manager, "room", &["a.mp4"]);
    connect(&mut manager, "room", 1);
    connect(&mut manager, "room", 2);
    let out = manager.handle(ManagerMessage::StateChanged(StateChanged {
        session: "room".to_string(),
        state: State::Playing,
    }));
    assert_eq!(out, vec![state_to(1, State::Playing), state_to(2, State::Playing)]);
    let out = manager.handle(ManagerMessage::PlaylistChanged(PlaylistChanged {
        session: "room".to_string(),
        index: 3,
    }));
    assert_eq!(out, vec![index_to(1, 3), index_to(2, 3)]);
    let out = manager.handle(ManagerMessage::Seeked(Seeked { player: PlayerId(2) }));
    assert_eq!(out, vec![sync_to(2)]);
    let out = manager.handle(ManagerMessage::Position(Position {
        session: "room".to_string(),
        position: Seconds::parse("7").unwrap(),
    }));
    assert_eq!(out.len(), 2);
    assert_eq!(
        out[1],
        Delivery {
            to: PlayerId(2),
            command: Command::ChangePosition(ChangePosition {
                position: Seconds::parse("7").unwrap()
            })
        }
    );
    let session = snapshot(&mut manager, "room").unwrap();
    assert_eq!(session.state, State::Playing);
    assert_eq!(session.playlist_index, 3);
}
