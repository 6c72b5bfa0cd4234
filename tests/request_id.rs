use pingap_plugins::config::PluginStep;
use pingap_plugins::request_id::RequestId;
use pingap_plugins::response::State;

#[test]
fn test_request_id() {
    let id = RequestId::new("nanoid 10", PluginStep::Request).unwrap();

    let mut state = State::default();
    let result = id.handle(Some("123"), &mut state);
    assert_eq!(true, result.is_none());
    assert_eq!("123", state.request_id.unwrap_or_default());

    let mut state = State::default();
    let result = id.handle(None, &mut state);
    assert_eq!(true, result.is_some());
    assert_eq!(10, state.request_id.unwrap_or_default().len());
}

#[test]
fn generated_id_is_recorded_and_returned() {
    let id = RequestId::new("nanoid 10", PluginStep::Request).unwrap();
    let mut state = State::new();
    let header = id.handle(None, &mut state).unwrap();
    assert_eq!(Some(header.clone()), state.request_id);
    assert_eq!(10, header.chars().count());
    assert!(header
        .chars()
        .all(|c| c.is_ascii_alphanumeric() || c == '_' || c == '-'));
}

#[test]
fn default_size_is_eight() {
    let id = RequestId::new("nanoid", PluginStep::ProxyUpstream).unwrap();
    assert_eq!(8, id.size);
    assert_eq!("nanoid", id.algorithm);
    let mut state = State::new();
    assert_eq!(8, id.handle(None, &mut state).unwrap().len());
    let zero = RequestId::new("nanoid 0", PluginStep::Request).unwrap();
    assert_eq!(8, zero.size);
}

#[test]
fn other_algorithm_gives_uuid() {
    let id = RequestId::new("uuid", PluginStep::Request).unwrap();
    let mut state = State::new();
    let v = id.handle(None, &mut state).unwrap();
    assert_eq!(36, v.len());
    for (i, c) in v.chars().enumerate() {
        if i == 8 || i == 13 || i == 18 || i == 23 {
            assert_eq!('-', c);
        } else {
            assert!(c.is_ascii_digit() || ('a'..='f').contains(&c));
        }
    }
}

#[test]
fn request_id_rejects_response_step() {
    let err = RequestId::new("nanoid 10", PluginStep::Response).err().unwrap();
    assert_eq!(
        "Plugin request_id invalid, message: Request id should be executed at request or proxy upstream step",
        err.to_string()
    );
}

#[test]
fn request_id_rejects_bad_size() {
    let err = RequestId::new("nanoid ten", PluginStep::Request).err().unwrap();
    assert_eq!(
        "Plugin request_id invalid, message: Request id size is invalid",
        err.to_string()
    );
}

#[test]
fn size_with_plus_sign() {
    let id = RequestId::new("nanoid +10", PluginStep::Request).unwrap();
    assert_eq!(10, id.size);
    assert!(RequestId::new("nanoid +", PluginStep::Request).is_err());
}

#[test]
fn uuid_has_version_four() {
    let id = RequestId::new("uuid", PluginStep::Request).unwrap();
    let v = id.handle(None, &mut State::new()).unwrap();
    assert_eq!(Some('4'), v.chars().nth(14));
}
