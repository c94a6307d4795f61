use watch_sync::decimal::{append_decimal, read_decimal};
use watch_sync::seconds::{is_number, Seconds};
use watch_sync::state::State;
use watch_sync::text::{chars_of, same_text};

const STATES: [(State, &str); 11] = [
    (State::Idle, "idle"),
    (State::Complete, "complete"),
    (State::Paused, "paused"),
    (State::Playing, "playing"),
    (State::Error, "error"),
    (State::Loading, "loading"),
    (State::Stalled, "stalled"),
    (State::AdLoaded, "adloaded"),
    (State::AdPlaying, "adplaying"),
    (State::AdPaused, "adpaused"),
    (State::AdComplete, "adcomplete"),
];

#[test]
fn every_state_has_its_token() {
    for (state, token) in STATES {
        assert_eq!(state.token(), token);
        assert_eq!(State::from_token(token), Some(state));
    }
}

#[test]
fn tokens_are_read_exactly() {
    assert_eq!(State::from_token("Idle"), None);
    assert_eq!(State::from_token("PAUSED"), None);
    assert_eq!(State::from_token("paused "), None);
    assert_eq!(State::from_token("ad_loaded"), None);
    assert_eq!(State::from_token("ad"), None);
    assert_eq!(State::from_token(""), None);
}

#[test]
fn number_literals() {
    for good in ["0", "-0", "7", "10", "-12", "0.5", "3.25", "1e5", "1E5", "1e+5", "2.5e-3", "-0.0"] {
        assert!(is_number(good), "{}", good);
        assert_eq!(Seconds::parse(good).unwrap().as_str(), good);
    }
    for bad in [
        "", "-", "+1", "01", "-01", ".5", "1.", "1.e3", "1e", "1e+", "e5", "1 ", " 1", "1,5", "0x10",
        "NaN", "Infinity", "1e5.5", "--1", "1.2.3", "\u{0661}",
    ] {
        assert!(!is_number(bad), "{}", bad);
        assert!(Seconds::parse(bad).is_none(), "{}", bad);
    }
}

#[test]
fn seconds_copy_is_equal() {
    let p = Seconds::parse("42.125").unwrap();
    assert_eq!(p.clone(), p);
    assert_ne!(Seconds::parse("42.1250").unwrap(), p);
}

#[test]
fn decimal_is_written_without_padding() {
    for (n, want) in [(0usize, "0"), (7, "7"), (10, "10"), (109, "109"), (65536, "65536")] {
        let mut out = String::from("#");
        append_decimal(&mut out, n);
        assert_eq!(out, format!("#{}", want));
    }
    let mut out = String::new();
    append_decimal(&mut out, usize::MAX);
    assert_eq!(out, usize::MAX.to_string());
}

#[test]
fn decimal_is_read_back() {
    for n in [0usize, 1, 9, 10, 99, 100, 12345, usize::MAX - 1, usize::MAX] {
        let mut out = String::new();
        append_decimal(&mut out, n);
        assert_eq!(read_decimal(&out), Some(n));
    }
}

#[test]
fn decimal_refuses_what_is_no_whole_number() {
    for bad in ["", "-1", "+1", "01", "00", "1.0", "1e3", " 1", "1 ", "١", "12a"] {
        assert_eq!(read_decimal(bad), None, "{}", bad);
    }
}

#[test]
fn decimal_refuses_what_does_not_fit() {
    let mut too_big = usize::MAX.to_string();
    too_big.push('0');
    assert_eq!(read_decimal(&too_big), None);
    assert_eq!(read_decimal("340282366920938463463374607431768211456"), None);
    assert_eq!(read_decimal("18446744073709551615"), Some(18446744073709551615));
}

#[test]
fn text_helpers() {
    assert!(same_text("", ""));
    assert!(same_text("päuse", "päuse"));
    assert!(!same_text("pause", "paused"));
    assert!(!same_text("pause", "pausE"));
    assert_eq!(chars_of("a\u{e4}\u{1F600}"), vec!['a', 'ä', '\u{1F600}']);
    assert_eq!(chars_of(""), Vec::<char>::new());
}
