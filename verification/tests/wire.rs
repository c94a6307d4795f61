use watch_sync::player::{ChangePlaylist, ChangePosition, ChangeState, Command, SyncPosition};
use watch_sync::seconds::Seconds;
use watch_sync::state::State;
use watch_sync::wire::{
    decode_message, encode_command, encode_message, message_of_json, read_json, Json,
    PlayerMessage,
};

#[test]
fn serde_serializations() {
    println!("{}", &encode_message(&PlayerMessage::Seeked));
    println!("{}", &encode_message(&PlayerMessage::StateChanged(State::Complete)));
    println!("{}", &encode_command(&Command::SyncPosition(SyncPosition)));
}

#[test]
fn commands_are_written_as_one_member_objects() {
    assert_eq!(encode_command(&Command::SyncPosition(SyncPosition)), "{\"sync_position\":null}");
    assert_eq!(
        encode_command(&Command::ChangeState(ChangeState { state: State::AdPlaying })),
        "{\"change_state\":\"adplaying\"}"
    );
    assert_eq!(
        encode_command(&Command::ChangePosition(ChangePosition {
            position: Seconds::parse("12.5").unwrap()
        })),
        "{\"change_position\":12.5}"
    );
    assert_eq!(
        encode_command(&Command::ChangePlaylist(ChangePlaylist { index: 1203 })),
        "{\"change_playlist\":1203}"
    );
    assert_eq!(
        encode_command(&Command::ChangePlaylist(ChangePlaylist { index: 0 })),
        "{\"change_playlist\":0}"
    );
}

#[test]
fn messages_are_read_from_frames() {
    assert_eq!(decode_message("{\"seeked\": null}"), Some(PlayerMessage::Seeked));
    assert_eq!(
        decode_message("{\"state_changed\": \"playing\"}"),
        Some(PlayerMessage::StateChanged(State::Playing))
    );
    assert_eq!(
        decode_message(" { \"position\" : 93.25 } "),
        Some(PlayerMessage::Position(Seconds::parse("93.25").unwrap()))
    );
    assert_eq!(
        decode_message("{\"playlist_changed\": 4}"),
        Some(PlayerMessage::PlaylistChanged(4))
    );
}

#[test]
fn frames_that_are_no_message_are_refused() {
    assert_eq!(decode_message(""), None);
    assert_eq!(decode_message("seeked"), None);
    assert_eq!(decode_message("{\"seeked\": null"), None);
    assert_eq!(decode_message("{}"), None);
    assert_eq!(decode_message("[]"), None);
    assert_eq!(decode_message("null"), None);
    assert_eq!(decode_message("{\"seeked\": 1}"), None);
    assert_eq!(decode_message("{\"seeked\": null, \"position\": 1}"), None);
    assert_eq!(decode_message("{\"state_changed\": \"Playing\"}"), None);
    assert_eq!(decode_message("{\"state_changed\": \"dancing\"}"), None);
    assert_eq!(decode_message("{\"state_changed\": null}"), None);
    assert_eq!(decode_message("{\"position\": \"3\"}"), None);
    assert_eq!(decode_message("{\"playlist_changed\": -1}"), None);
    assert_eq!(decode_message("{\"playlist_changed\": 1.5}"), None);
    assert_eq!(decode_message("{\"playlist_changed\": \"1\"}"), None);
    assert_eq!(decode_message("{\"volume\": 3}"), None);
}

#[test]
fn documents_become_trees() {
    assert_eq!(read_json("null"), Some(Json::Null));
    assert_eq!(read_json("true"), Some(Json::Bool(true)));
    assert_eq!(read_json("17"), Some(Json::Number("17".to_string())));
    assert_eq!(read_json("-2.5"), Some(Json::Number("-2.5".to_string())));
    assert_eq!(read_json("\"a\\nb\""), Some(Json::Text("a\nb".to_string())));
    assert_eq!(
        read_json("[1, [null]]"),
        Some(Json::Array(vec![
            Json::Number("1".to_string()),
            Json::Array(vec![Json::Null])
        ]))
    );
    assert_eq!(
        read_json("{\"b\": false, \"a\": {}}"),
        Some(Json::Object(vec![
            ("a".to_string(), Json::Object(vec![])),
            ("b".to_string(), Json::Bool(false))
        ]))
    );
    assert_eq!(read_json("{"), None);
    assert_eq!(read_json("1 2"), None);
}

#[test]
fn trees_are_read_as_messages() {
    let seeked = Json::Object(vec![("seeked".to_string(), Json::Null)]);
    assert_eq!(message_of_json(&seeked), Some(PlayerMessage::Seeked));
    let index = Json::Object(vec![("playlist_changed".to_string(), Json::Number("12".to_string()))]);
    assert_eq!(message_of_json(&index), Some(PlayerMessage::PlaylistChanged(12)));
    let padded = Json::Object(vec![("playlist_changed".to_string(), Json::Number("012".to_string()))]);
    assert_eq!(message_of_json(&padded), None);
    let huge = Json::Object(vec![(
        "playlist_changed".to_string(),
        Json::Number("340282366920938463463374607431768211456".to_string()),
    )]);
    assert_eq!(message_of_json(&huge), None);
    let junk = Json::Object(vec![("position".to_string(), Json::Number("1.".to_string()))]);
    assert_eq!(message_of_json(&junk), None);
    assert_eq!(message_of_json(&Json::Array(vec![])), None);
}

#[test]
fn written_messages_are_read_back() {
    let messages = vec![
        PlayerMessage::Seeked,
        PlayerMessage::StateChanged(State::Idle),
        PlayerMessage::StateChanged(State::AdComplete),
        PlayerMessage::Position(Seconds::parse("0").unwrap()),
        PlayerMessage::Position(Seconds::parse("1e-7").unwrap()),
        PlayerMessage::PlaylistChanged(0),
        PlayerMessage::PlaylistChanged(987654321),
    ];
    for m in messages {
        let text = encode_message(&m);
        assert_eq!(decode_message(&text), Some(m));
    }
}

#[test]
fn written_commands_are_json_objects_with_one_member() {
    let member = |key: &str, value: Json| Some(Json::Object(vec![(key.to_string(), value)]));
    assert_eq!(
        read_json(&encode_command(&Command::SyncPosition(SyncPosition))),
        member("sync_position", Json::Null)
    );
    assert_eq!(
        read_json(&encode_command(&Command::ChangeState(ChangeState { state: State::Error }))),
        member("change_state", Json::Text("error".to_string()))
    );
    assert_eq!(
        read_json(&encode_command(&Command::ChangePosition(ChangePosition {
            position: Seconds::parse("3.5").unwrap()
        }))),
        member("change_position", Json::Number("3.5".to_string()))
    );
    assert_eq!(
        read_json(&encode_command(&Command::ChangePlaylist(ChangePlaylist { index: 42 }))),
        member("change_playlist", Json::Number("42".to_string()))
    );
}
