//! The frames of the socket protocol.
//!
//! Every frame is a JSON object with one member: the member's key names the
//! kind of message and its value is the payload. Frames that come in are
//! parsed by `serde_json` into a tree, and the tree is then read here; frames
//! that go out are written here, character by character.

use vstd::prelude::*;
use vstd::string::StringExecFns;
use crate::decimal::{append_decimal, decimal_text, decimal_value, read_decimal};
use crate::player::Command;
use crate::seconds::{is_number_literal, Seconds};
use crate::state::{state_of_token, token_of, State};
use crate::text::same_text;

verus! {

/// A JSON document as a tree. A number is held as the literal that
/// `serde_json` prints for it, and an object as its members in the order in
/// which `serde_json` keeps them.
#[derive(Debug, PartialEq, Eq)]
pub enum Json {
    Null,
    Bool(bool),
    Number(String),
    Text(String),
    Array(Vec<Json>),
    Object(Vec<(String, Json)>),
}

/// A parsed document of `serde_json`. Nothing is read from it directly: it is
/// turned into a tree first.
#[verifier::external_type_specification]
#[verifier::external_body]
pub struct ExValue(serde_json::Value);

/// The tree that a parsed document stands for.
pub uninterp spec fn json_content(value: serde_json::Value) -> Json;

/// The tree that `serde_json` reads from a text, if the text is one JSON
/// document.
pub uninterp spec fn parsed_json(text: Seq<char>) -> Option<Json>;

/// Calls `serde_json::from_str` for a `serde_json::Value`. The call either
/// fails or gives a document; which of the two, and which document, depends
/// on the text alone, and that is all the contract says.
#[verifier::external_body]
fn parse_value(text: &str) -> (r: Option<serde_json::Value>)
    ensures
        r.is_some() == parsed_json(text@).is_some(),
        r.is_some() ==> json_content(r.unwrap()) == parsed_json(text@).unwrap(),
{
    serde_json::from_str::<serde_json::Value>(text).ok()
}

/// Copies a `serde_json::Value` into a tree, variant by variant. A number
/// becomes what `Display` of `serde_json::Number` prints, and an object its
/// members in the order of `serde_json::Map::iter`. The contract gives the
/// outcome its name and says no more.
#[verifier::external_body]
fn tree_of(value: &serde_json::Value) -> (r: Json)
    ensures
        r == json_content(*value),
{
    match value {
        serde_json::Value::Null => Json::Null,
        serde_json::Value::Bool(b) => Json::Bool(*b),
        serde_json::Value::Number(n) => Json::Number(n.to_string()),
        serde_json::Value::String(s) => Json::Text(s.clone()),
        serde_json::Value::Array(a) => Json::Array(a.iter().map(tree_of).collect()),
        serde_json::Value::Object(m) => Json::Object(
            m.iter().map(|(k, v)| (k.clone(), tree_of(v))).collect(),
        ),
    }
}

/// Reads a text as one JSON document.
pub fn read_json(text: &str) -> (r: Option<Json>)
    ensures
        r == parsed_json(text@),
{
    match parse_value(text) {
        Some(value) => Some(tree_of(&value)),
        None => None,
    }
}

/// What a viewer's player tells the server.
#[derive(Debug, PartialEq, Eq)]
pub enum PlayerMessage {
    /// The viewer moved the position by hand.
    Seeked,
    /// The player changed state.
    StateChanged(State),
    /// The player stands at this position.
    Position(Seconds),
    /// The player went to this item of the playlist.
    PlaylistChanged(usize),
}

/// A message of a viewer's player as contracts speak of it.
pub enum PlayerMessageView {
    Seeked,
    StateChanged(State),
    Position(Seq<char>),
    PlaylistChanged(usize),
}

impl View for PlayerMessage {
    type V = PlayerMessageView;

    open spec fn view(&self) -> PlayerMessageView {
        match self {
            PlayerMessage::Seeked => PlayerMessageView::Seeked,
            PlayerMessage::StateChanged(s) => PlayerMessageView::StateChanged(*s),
            PlayerMessage::Position(p) => PlayerMessageView::Position(p@),
            PlayerMessage::PlaylistChanged(i) => PlayerMessageView::PlaylistChanged(*i),
        }
    }
}

/// The message that a key and its payload stand for.
///
/// `seeked` comes with null, `state_changed` with a state's token,
/// `position` with a number, and `playlist_changed` with a whole number that
/// the machine can hold. Anything else is no message.
pub open spec fn tagged_message(tag: Seq<char>, payload: Json) -> Option<PlayerMessageView> {
    if tag == "seeked"@ {
        match payload {
            Json::Null => Some(PlayerMessageView::Seeked),
            _ => None,
        }
    } else if tag == "state_changed"@ {
        match payload {
            Json::Text(token) => match state_of_token(token@) {
                Some(state) => Some(PlayerMessageView::StateChanged(state)),
                None => None,
            },
            _ => None,
        }
    } else if tag == "position"@ {
        match payload {
            Json::Number(literal) => if is_number_literal(literal@) {
                Some(PlayerMessageView::Position(literal@))
            } else {
                None
            },
            _ => None,
        }
    } else if tag == "playlist_changed"@ {
        match payload {
            Json::Number(literal) => match decimal_value(literal@) {
                Some(index) => if index <= usize::MAX {
                    Some(PlayerMessageView::PlaylistChanged(index as usize))
                } else {
                    None
                },
                None => None,
            },
            _ => None,
        }
    } else {
        None
    }
}

/// The message that a document stands for: it must be an object with
/// exactly one member.
pub open spec fn message_of(doc: Json) -> Option<PlayerMessageView> {
    match doc {
        Json::Object(members) => if members@.len() == 1 {
            tagged_message(members@[0].0@, members@[0].1)
        } else {
            None
        },
        _ => None,
    }
}

/// The message in a frame's text.
pub open spec fn message_in(text: Seq<char>) -> Option<PlayerMessageView> {
    match parsed_json(text) {
        Some(doc) => message_of(doc),
        None => None,
    }
}

/// Tells whether what was read is what the contract names.
pub open spec fn reads_as(got: Option<PlayerMessage>, want: Option<PlayerMessageView>) -> bool {
    match got {
        Some(m) => want == Some(m@),
        None => want is None,
    }
}

fn read_tagged(tag: &str, payload: &Json) -> (r: Option<PlayerMessage>)
    ensures
        reads_as(r, tagged_message(tag@, *payload)),
{
    if same_text(tag, "seeked") {
        match payload {
            Json::Null => Some(PlayerMessage::Seeked),
            _ => None,
        }
    } else if same_text(tag, "state_changed") {
        match payload {
            Json::Text(token) => match State::from_token(token.as_str()) {
                Some(state) => Some(PlayerMessage::StateChanged(state)),
                None => None,
            },
            _ => None,
        }
    } else if same_text(tag, "position") {
        match payload {
            Json::Number(literal) => match Seconds::parse(literal.as_str()) {
                Some(position) => Some(PlayerMessage::Position(position)),
                None => None,
            },
            _ => None,
        }
    } else if same_text(tag, "playlist_changed") {
        match payload {
            Json::Number(literal) => match read_decimal(literal.as_str()) {
                Some(index) => Some(PlayerMessage::PlaylistChanged(index)),
                None => None,
            },
            _ => None,
        }
    } else {
        None
    }
}

/// Reads a message from a document.
pub fn message_of_json(doc: &Json) -> (r: Option<PlayerMessage>)
    ensures
        reads_as(r, message_of(*doc)),
{
    match doc {
        Json::Object(members) => {
            if members.len() == 1 {
                read_tagged(members[0].0.as_str(), &members[0].1)
            } else {
                None
            }
        },
        _ => None,
    }
}

/// Reads a message from a frame's text. A text that is no JSON document, or
/// a document that is no message, is refused.
pub fn decode_message(text: &str) -> (r: Option<PlayerMessage>)
    ensures
        reads_as(r, message_in(text@)),
{
    match read_json(text) {
        Some(doc) => message_of_json(&doc),
        None => None,
    }
}

/// The text of the frame that carries a command.
pub open spec fn command_text(command: Command) -> Seq<char> {
    match command {
        Command::SyncPosition(_) => "{\"sync_position\":null}"@,
        Command::ChangeState(c) => "{\"change_state\":\""@ + token_of(c.state) + "\"}"@,
        Command::ChangePosition(c) => "{\"change_position\":"@ + c.position@ + "}"@,
        Command::ChangePlaylist(c) => "{\"change_playlist\":"@ + decimal_text(c.index as nat)
            + "}"@,
    }
}

/// Writes the frame that carries a command.
pub fn encode_command(command: &Command) -> (r: String)
    ensures
        r@ == command_text(*command),
{
    match command {
        Command::SyncPosition(_) => String::from_str("{\"sync_position\":null}"),
        Command::ChangeState(c) => {
            let mut out = String::from_str("{\"change_state\":\"");
            out.append(c.state.token());
            out.append("\"}");
            out
        },
        Command::ChangePosition(c) => {
            let mut out = String::from_str("{\"change_position\":");
            out.append(c.position.as_str());
            out.append("}");
            out
        },
        Command::ChangePlaylist(c) => {
            let mut out = String::from_str("{\"change_playlist\":");
            append_decimal(&mut out, c.index);
            out.append("}");
            out
        },
    }
}

/// The text of the frame that carries a message of a viewer's player.
pub open spec fn message_text(message: PlayerMessageView) -> Seq<char> {
    match message {
        PlayerMessageView::Seeked => "{\"seeked\":null}"@,
        PlayerMessageView::StateChanged(state) => "{\"state_changed\":\""@ + token_of(state)
            + "\"}"@,
        PlayerMessageView::Position(literal) => "{\"position\":"@ + literal + "}"@,
        PlayerMessageView::PlaylistChanged(index) => "{\"playlist_changed\":"@ + decimal_text(
            index as nat,
        ) + "}"@,
    }
}

/// Writes the frame that carries a message of a viewer's player.
pub fn encode_message(message: &PlayerMessage) -> (r: String)
    ensures
        r@ == message_text(message@),
{
    match message {
        PlayerMessage::Seeked => String::from_str("{\"seeked\":null}"),
        PlayerMessage::StateChanged(state) => {
            let mut out = String::from_str("{\"state_changed\":\"");
            out.append(state.token());
            out.append("\"}");
            out
        },
        PlayerMessage::Position(position) => {
            let mut out = String::from_str("{\"position\":");
            out.append(position.as_str());
            out.append("}");
            out
        },
        PlayerMessage::PlaylistChanged(index) => {
            let mut out = String::from_str("{\"playlist_changed\":");
            append_decimal(&mut out, *index);
            out.append("}");
            out
        },
    }
}

} // verus!
