use systemctl::AutoStartStatus;
use systemctl::CtlError;
use systemctl::State;
use systemctl::Type;

const AUTO: [(AutoStartStatus, &str); 7] = [
    (AutoStartStatus::Static, "static"),
    (AutoStartStatus::Enabled, "enabled"),
    (AutoStartStatus::EnabledRuntime, "enabled-runtime"),
    (AutoStartStatus::Disabled, "disabled"),
    (AutoStartStatus::Generated, "generated"),
    (AutoStartStatus::Indirect, "indirect"),
    (AutoStartStatus::Transient, "transient"),
];

const TYPES: [(Type, &str); 9] = [
    (Type::AutoMount, "automount"),
    (Type::Mount, "mount"),
    (Type::Service, "service"),
    (Type::Scope, "scope"),
    (Type::Socket, "socket"),
    (Type::Slice, "slice"),
    (Type::Timer, "timer"),
    (Type::Path, "path"),
    (Type::Target, "target"),
];

fn chars(s: &str) -> Vec<char> {
    s.chars().collect()
}

#[test]
fn auto_start_tokens() {
    for (variant, token) in AUTO {
        assert_eq!(variant.as_str(), token);
        assert_eq!(AutoStartStatus::from_str(token), Ok(variant));
        assert_eq!(AutoStartStatus::from_chars(&chars(token)), Some(variant));
        assert_eq!(AutoStartStatus::decode(&chars(token)), variant);
    }
}

#[test]
fn auto_start_round_trip() {
    for (variant, _) in AUTO {
        assert_eq!(AutoStartStatus::from_str(variant.as_str()), Ok(variant));
        assert_eq!(AutoStartStatus::decode(&chars(variant.as_str())), variant);
    }
}

#[test]
fn unknown_auto_start_token_stands_for_disabled() {
    assert_eq!(AutoStartStatus::decode(&chars("quantum-enabled")), AutoStartStatus::Disabled);
    assert_eq!(AutoStartStatus::decode(&chars("")), AutoStartStatus::Disabled);
    assert_eq!(AutoStartStatus::decode(&chars("Enabled")), AutoStartStatus::Disabled);
    assert_eq!(AutoStartStatus::decode(&chars(" enabled")), AutoStartStatus::Disabled);
    assert_eq!(AutoStartStatus::decode(&chars("alias")), AutoStartStatus::Disabled);
    assert_eq!(AutoStartStatus::from_chars(&chars("quantum-enabled")), None);
    assert_eq!(AutoStartStatus::from_str("quantum-enabled"), Err(CtlError::DecodeFailure));
}

#[test]
fn type_tokens() {
    for (variant, token) in TYPES {
        assert_eq!(variant.as_str(), token);
        assert_eq!(Type::from_str(token), Ok(variant));
        assert_eq!(Type::from_chars(&chars(token)), Some(variant));
    }
}

#[test]
fn type_round_trip() {
    for (variant, _) in TYPES {
        assert_eq!(Type::from_str(variant.as_str()), Ok(variant));
    }
}

#[test]
fn unknown_type_is_a_failure() {
    assert_eq!(Type::from_str("widget"), Err(CtlError::DecodeFailure));
    assert_eq!(Type::from_str(""), Err(CtlError::DecodeFailure));
    assert_eq!(Type::from_str("Service"), Err(CtlError::DecodeFailure));
    assert_eq!(Type::from_str("service "), Err(CtlError::DecodeFailure));
    assert_eq!(Type::from_str("device"), Err(CtlError::DecodeFailure));
    assert_eq!(Type::from_chars(&chars("mounts")), None);
}

#[test]
fn state_tokens_and_round_trip() {
    assert_eq!(State::Masked.as_str(), "masked");
    assert_eq!(State::Loaded.as_str(), "loaded");
    for variant in [State::Masked, State::Loaded] {
        assert_eq!(State::from_str(variant.as_str()), Ok(variant));
        assert_eq!(State::from_chars(&chars(variant.as_str())), Some(variant));
    }
    assert_eq!(State::from_str("not-found"), Err(CtlError::DecodeFailure));
    assert_eq!(State::from_str("LOADED"), Err(CtlError::DecodeFailure));
}

#[test]
fn defaults_of_the_vocabularies() {
    assert_eq!(AutoStartStatus::default(), AutoStartStatus::Disabled);
    assert_eq!(Type::default(), Type::Service);
    assert_eq!(State::default(), State::Masked);
}
