//! The playback states that a viewer's player can report, and the lowercase
//! tokens that stand for them on the wire.

use vstd::prelude::*;
use crate::text::same_text;

verus! {

/// What the embedded player says it is doing. The registry stores and relays
/// the value without interpreting it: any state may follow any other.
#[derive(Clone, Copy, Debug, PartialEq, Eq, Structural)]
pub enum State {
    Idle,
    Complete,
    Paused,
    Playing,
    Error,
    Loading,
    Stalled,
    AdLoaded,
    AdPlaying,
    AdPaused,
    AdComplete,
}

/// The token that stands for a state on the wire.
pub open spec fn token_of(s: State) -> Seq<char> {
    match s {
        State::Idle => "idle"@,
        State::Complete => "complete"@,
        State::Paused => "paused"@,
        State::Playing => "playing"@,
        State::Error => "error"@,
        State::Loading => "loading"@,
        State::Stalled => "stalled"@,
        State::AdLoaded => "adloaded"@,
        State::AdPlaying => "adplaying"@,
        State::AdPaused => "adpaused"@,
        State::AdComplete => "adcomplete"@,
    }
}

/// The state that a token stands for, if it is one of the eleven tokens.
pub open spec fn state_of_token(t: Seq<char>) -> Option<State> {
    if t == "idle"@ {
        Some(State::Idle)
    } else if t == "complete"@ {
        Some(State::Complete)
    } else if t == "paused"@ {
        Some(State::Paused)
    } else if t == "playing"@ {
        Some(State::Playing)
    } else if t == "error"@ {
        Some(State::Error)
    } else if t == "loading"@ {
        Some(State::Loading)
    } else if t == "stalled"@ {
        Some(State::Stalled)
    } else if t == "adloaded"@ {
        Some(State::AdLoaded)
    } else if t == "adplaying"@ {
        Some(State::AdPlaying)
    } else if t == "adpaused"@ {
        Some(State::AdPaused)
    } else if t == "adcomplete"@ {
        Some(State::AdComplete)
    } else {
        None
    }
}

/// Makes the characters of the eleven tokens known to the verifier.
pub proof fn reveal_tokens()
    ensures
        "idle"@ == seq!['i', 'd', 'l', 'e'],
        "complete"@ == seq!['c', 'o', 'm', 'p', 'l', 'e', 't', 'e'],
        "paused"@ == seq!['p', 'a', 'u', 's', 'e', 'd'],
        "playing"@ == seq!['p', 'l', 'a', 'y', 'i', 'n', 'g'],
        "error"@ == seq!['e', 'r', 'r', 'o', 'r'],
        "loading"@ == seq!['l', 'o', 'a', 'd', 'i', 'n', 'g'],
        "stalled"@ == seq!['s', 't', 'a', 'l', 'l', 'e', 'd'],
        "adloaded"@ == seq!['a', 'd', 'l', 'o', 'a', 'd', 'e', 'd'],
        "adplaying"@ == seq!['a', 'd', 'p', 'l', 'a', 'y', 'i', 'n', 'g'],
        "adpaused"@ == seq!['a', 'd', 'p', 'a', 'u', 's', 'e', 'd'],
        "adcomplete"@ == seq!['a', 'd', 'c', 'o', 'm', 'p', 'l', 'e', 't', 'e'],
{
    reveal_strlit("idle");
    reveal_strlit("complete");
    reveal_strlit("paused");
    reveal_strlit("playing");
    reveal_strlit("error");
    reveal_strlit("loading");
    reveal_strlit("stalled");
    reveal_strlit("adloaded");
    reveal_strlit("adplaying");
    reveal_strlit("adpaused");
    reveal_strlit("adcomplete");
    assert("idle"@ =~= seq!['i', 'd', 'l', 'e']);
    assert("complete"@ =~= seq!['c', 'o', 'm', 'p', 'l', 'e', 't', 'e']);
    assert("paused"@ =~= seq!['p', 'a', 'u', 's', 'e', 'd']);
    assert("playing"@ =~= seq!['p', 'l', 'a', 'y', 'i', 'n', 'g']);
    assert("error"@ =~= seq!['e', 'r', 'r', 'o', 'r']);
    assert("loading"@ =~= seq!['l', 'o', 'a', 'd', 'i', 'n', 'g']);
    assert("stalled"@ =~= seq!['s', 't', 'a', 'l', 'l', 'e', 'd']);
    assert("adloaded"@ =~= seq!['a', 'd', 'l', 'o', 'a', 'd', 'e', 'd']);
    assert("adplaying"@ =~= seq!['a', 'd', 'p', 'l', 'a', 'y', 'i', 'n', 'g']);
    assert("adpaused"@ =~= seq!['a', 'd', 'p', 'a', 'u', 's', 'e', 'd']);
    assert("adcomplete"@ =~= seq!['a', 'd', 'c', 'o', 'm', 'p', 'l', 'e', 't', 'e']);
}

/// Reading a state's token gives the state back, so no two states share a
/// token.
pub proof fn lemma_token_round_trip(s: State)
    ensures
        state_of_token(token_of(s)) == Some(s),
{
    reveal_tokens();
    assert("idle"@.len() == 4);
    assert("complete"@.len() == 8);
    assert("paused"@.len() == 6);
    assert("playing"@.len() == 7);
    assert("error"@.len() == 5);
    assert("loading"@.len() == 7);
    assert("stalled"@.len() == 7);
    assert("adloaded"@.len() == 8);
    assert("adplaying"@.len() == 9);
    assert("adpaused"@.len() == 8);
    assert("adcomplete"@.len() == 10);
    assert("complete"@[0] == 'c' && "adloaded"@[0] == 'a' && "adpaused"@[0] == 'a');
    assert("adloaded"@[2] == 'l' && "adpaused"@[2] == 'p');
    assert("playing"@[0] == 'p' && "loading"@[0] == 'l' && "stalled"@[0] == 's');
}

/// A token is read as a state only if it is that state's token.
pub proof fn lemma_token_read_back(t: Seq<char>, s: State)
    requires
        state_of_token(t) == Some(s),
    ensures
        token_of(s) == t,
{
}

impl State {
    /// The lowercase token for this state.
    pub fn token(self) -> (r: &'static str)
        ensures
            r@ == token_of(self),
    {
        match self {
            State::Idle => "idle",
            State::Complete => "complete",
            State::Paused => "paused",
            State::Playing => "playing",
            State::Error => "error",
            State::Loading => "loading",
            State::Stalled => "stalled",
            State::AdLoaded => "adloaded",
            State::AdPlaying => "adplaying",
            State::AdPaused => "adpaused",
            State::AdComplete => "adcomplete",
        }
    }

    /// Reads a token. Spelling and case must match exactly.
    pub fn from_token(t: &str) -> (r: Option<State>)
        ensures
            r == state_of_token(t@),
    {
        if same_text(t, "idle") {
            Some(State::Idle)
        } else if same_text(t, "complete") {
            Some(State::Complete)
        } else if same_text(t, "paused") {
            Some(State::Paused)
        } else if same_text(t, "playing") {
            Some(State::Playing)
        } else if same_text(t, "error") {
            Some(State::Error)
        } else if same_text(t, "loading") {
            Some(State::Loading)
        } else if same_text(t, "stalled") {
            Some(State::Stalled)
        } else if same_text(t, "adloaded") {
            Some(State::AdLoaded)
        } else if same_text(t, "adplaying") {
            Some(State::AdPlaying)
        } else if same_text(t, "adpaused") {
            Some(State::AdPaused)
        } else if same_text(t, "adcomplete") {
            Some(State::AdComplete)
        } else {
            None
        }
    }
}

} // verus!
