use pingap_plugins::config::{ConfValue, PluginConf};
use pingap_plugins::key_auth::KeyAuth;
use pingap_plugins::response::State;
use pingap_plugins::text::query_value;

fn value_conf(value: &str) -> PluginConf {
    let mut c = PluginConf::new();
    c.insert("value", ConfValue::Str(value.to_string()));
    c
}

#[test]
fn key_auth_header_scenario() {
    let auth = KeyAuth::new(&value_conf("X-API-Key abc,def")).unwrap();
    assert_eq!(0, auth.category);
    assert_eq!(Some("X-API-Key".to_string()), auth.header_name);
    assert!(auth.handle(Some(b"abc"), &mut State::new()).is_none());
    assert!(auth.handle(Some(b"def"), &mut State::new()).is_none());

    let missing = auth.handle(None, &mut State::new()).unwrap();
    assert_eq!(401, missing.status);
    assert_eq!(b"Key missing".to_vec(), missing.body);

    let fail = auth.handle(Some(b"zzz"), &mut State::new()).unwrap();
    assert_eq!(401, fail.status);
    assert_eq!(b"Key auth fail".to_vec(), fail.body);
}

#[test]
fn key_comparison_is_exact() {
    let auth = KeyAuth::new(&value_conf("X-API-Key abc,def")).unwrap();
    assert!(auth.handle(Some(b"ABC"), &mut State::new()).is_some());
    assert!(auth.handle(Some(b" abc"), &mut State::new()).is_some());
    assert!(auth.handle(Some(b""), &mut State::new()).is_some());
}

#[test]
fn key_auth_query_form() {
    let auth = KeyAuth::new(&value_conf("?token k1")).unwrap();
    assert_eq!(1, auth.category);
    assert_eq!(Some("token".to_string()), auth.query_name);
    assert!(auth.header_name.is_none());
    assert_eq!(vec![b"k1".to_vec()], auth.keys);
}

#[test]
fn key_auth_field_form() {
    let mut c = PluginConf::new();
    c.insert("category", ConfValue::Int(0));
    c.insert("name", ConfValue::Str("X-Key".to_string()));
    c.insert(
        "keys",
        ConfValue::List(vec!["a".to_string(), "b".to_string()]),
    );
    c.insert("step", ConfValue::Str("proxy_upstream".to_string()));
    let auth = KeyAuth::new(&c).unwrap();
    assert_eq!(vec![b"a".to_vec(), b"b".to_vec()], auth.keys);
    assert!(auth.handle(Some(b"b"), &mut State::new()).is_none());
}

#[test]
fn key_auth_errors() {
    let e = KeyAuth::new(&value_conf("X-API-Key")).err().unwrap();
    assert_eq!(
        "Plugin key_auth invalid, message: Value for key auth is invalid",
        e.to_string()
    );
    let e = KeyAuth::new(&value_conf("X(Key abc")).err().unwrap();
    assert_eq!(
        "Plugin key_auth invalid, message: invalid header name, invalid HTTP header name",
        e.to_string()
    );
    let mut c = value_conf("X-API-Key abc");
    c.insert("step", ConfValue::Str("response".to_string()));
    let e = KeyAuth::new(&c).err().unwrap();
    assert_eq!(
        "Plugin key_auth invalid, message: Key auth plugin should be executed at request or proxy upstream step",
        e.to_string()
    );
}

#[test]
fn query_parameter_lookup() {
    assert_eq!(Some("1".to_string()), query_value("size=1&token=abc", "size"));
    assert_eq!(Some("abc".to_string()), query_value("size=1&token=abc", "token"));
    assert_eq!(Some("".to_string()), query_value("flag&x=2", "flag"));
    assert_eq!(None, query_value("size=1", "token"));
    assert_eq!(Some("a".to_string()), query_value("k=a&k=b", "k"));
}
