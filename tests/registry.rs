use opentelemetry_sdk::trace::TracerProvider;
use pingap_plugins::config::{ConfValue, PluginConf, PluginStep};
use pingap_plugins::provider::ProviderSnapshot;
use pingap_plugins::text::{i64_text, parse_usize, split_text, text_eq, u64_text};

#[test]
fn registered_provider_is_found() {
    let empty = ProviderSnapshot::new();
    assert!(empty.lookup("x").is_none());
    let one = empty.with_provider("x", TracerProvider::builder().build());
    assert!(one.lookup("x").is_some());
    assert!(one.lookup("y").is_none());
    assert!(empty.lookup("x").is_none());
    let two = one.with_provider("y", TracerProvider::builder().build());
    assert!(two.lookup("x").is_some());
    assert!(two.lookup("y").is_some());
}

#[test]
fn conf_accessors_default() {
    let mut c = PluginConf::new();
    assert_eq!("", c.get_str("missing"));
    assert_eq!(0, c.get_int("missing"));
    assert!(c.get_str_list("missing").is_empty());
    assert_eq!(PluginStep::Request, c.get_step());
    c.insert("n", ConfValue::Int(7));
    c.insert("n", ConfValue::Int(9));
    assert_eq!(9, c.get_int("n"));
    assert_eq!("", c.get_str("n"));
    c.insert("step", ConfValue::Str("response".to_string()));
    assert_eq!(PluginStep::Response, c.get_step());
    assert_eq!("response", c.get_step().to_string());
}

#[test]
fn text_helpers() {
    assert_eq!(vec!["a", "", "b"], split_text("a,,b", ','));
    assert_eq!(vec![""], split_text("", ','));
    assert_eq!(Some(42), parse_usize("42"));
    assert_eq!(None, parse_usize("4x"));
    assert_eq!(None, parse_usize(""));
    assert_eq!(None, parse_usize("99999999999999999999999"));
    assert!(text_eq("abc", "abc"));
    assert!(!text_eq("abc", "abd"));
    assert_eq!("0", u64_text(0));
    assert_eq!("4294967295", u64_text(u32::MAX as u64));
    assert_eq!("18446744073709551615", u64_text(u64::MAX));
    assert_eq!("-9223372036854775808", i64_text(i64::MIN));
    assert_eq!("-12", i64_text(-12));
}

#[test]
fn replaced_provider_is_kept_once() {
    let one = ProviderSnapshot::new().with_provider("x", TracerProvider::builder().build());
    let two = one.with_provider("x", TracerProvider::builder().build());
    assert!(two.lookup("x").is_some());
    assert!(two.lookup("y").is_none());
}
