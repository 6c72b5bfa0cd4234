use pingap_plugins::config::{ConfValue, PluginConf, PluginStep};
use pingap_plugins::ip_restriction::{client_ip_from, IpRestriction};
use pingap_plugins::ip_rules::{parse_ipv4, parse_net, IpRules, Ipv4Net};
use pingap_plugins::ipv6::parse_ipv6;
use pingap_plugins::response::State;

fn conf(mode: &str, list: &[&str], step: Option<&str>) -> PluginConf {
    let mut c = PluginConf::new();
    if let Some(s) = step {
        c.insert("step", ConfValue::Str(s.to_string()));
    }
    c.insert(
        "ip_list",
        ConfValue::List(list.iter().map(|s| s.to_string()).collect()),
    );
    c.insert("type", ConfValue::Str(mode.to_string()));
    c
}

fn client(ip: &str) -> State {
    State {
        client_ip: Some(ip.to_string()),
        ..Default::default()
    }
}

#[test]
fn test_ip_limit_params() {
    let params = IpRestriction::try_from(&conf(
        "deny",
        &["192.168.1.1", "10.1.1.1", "1.1.1.0/24", "2.1.1.0/24"],
        None,
    ))
    .unwrap();
    assert_eq!("request", params.plugin_step.to_string());
    assert_eq!(
        r#"IpRules { ip_net_list: [1.1.1.0/24, 2.1.1.0/24], ip_list: ["192.168.1.1", "10.1.1.1"] }"#,
        params.ip_rules.debug_text()
    );

    let result = IpRestriction::try_from(&conf(
        "deny",
        &["192.168.1.1", "10.1.1.1", "1.1.1.0/24", "2.1.1.0/24"],
        Some("response"),
    ));
    assert_eq!("Plugin ip_restriction invalid, message: Ip restriction plugin should be executed at request or proxy upstream step", result.err().unwrap().to_string());
}

#[test]
fn test_ip_limit() {
    let deny =
        IpRestriction::new(&conf("deny", &["192.168.1.1", "1.1.1.0/24"], None)).unwrap();

    let result = deny.handle_request(PluginStep::Request, "2.1.1.2", &mut State::default());
    assert_eq!(true, result.is_none());

    let result = deny.handle_request(PluginStep::Request, "192.168.1.1", &mut State::default());
    assert_eq!(true, result.is_some());

    let result = deny.handle_request(PluginStep::Request, "", &mut client("2.1.1.2"));
    assert_eq!(true, result.is_none());

    let result = deny.handle_request(PluginStep::Request, "", &mut client("1.1.1.2"));
    assert_eq!(true, result.is_some());
    assert_eq!(403, result.unwrap().status);

    let allow =
        IpRestriction::new(&conf("allow", &["192.168.1.1", "1.1.1.0/24"], None)).unwrap();
    let result = allow.handle_request(PluginStep::Request, "192.168.1.1", &mut State::default());
    assert_eq!(true, result.is_none());
}

#[test]
fn deny_mode_scenario() {
    let deny =
        IpRestriction::new(&conf("deny", &["192.168.1.1", "1.1.1.0/24"], None)).unwrap();
    assert!(deny
        .handle_request(PluginStep::Request, "2.1.1.2", &mut State::new())
        .is_none());
    let resp = deny
        .handle_request(PluginStep::Request, "192.168.1.1", &mut State::new())
        .unwrap();
    assert_eq!(403, resp.status);
    assert_eq!(b"Request is forbidden".to_vec(), resp.body);
}

#[test]
fn allow_mode_scenario() {
    let allow =
        IpRestriction::new(&conf("allow", &["192.168.1.1", "1.1.1.0/24"], None)).unwrap();
    assert!(allow
        .handle_request(PluginStep::Request, "192.168.1.1", &mut State::new())
        .is_none());
    let resp = allow
        .handle_request(PluginStep::Request, "10.0.0.1", &mut State::new())
        .unwrap();
    assert_eq!(403, resp.status);
}

#[test]
fn modes_are_complements() {
    let list = ["192.168.1.1", "1.1.1.0/24"];
    let allow = IpRestriction::new(&conf("allow", &list, None)).unwrap();
    let deny = IpRestriction::new(&conf("deny", &list, None)).unwrap();
    for ip in ["192.168.1.1", "1.1.1.9", "1.1.2.9", "10.0.0.1"] {
        let a = allow.handle_request(PluginStep::Request, ip, &mut State::new());
        let d = deny.handle_request(PluginStep::Request, ip, &mut State::new());
        assert_ne!(a.is_none(), d.is_none());
    }
}

#[test]
fn matching_is_repeatable() {
    let rules = IpRules::new(&vec!["1.1.1.0/24".to_string(), "8.8.8.8".to_string()]);
    for _ in 0..3 {
        assert_eq!(Ok(true), rules.matched("1.1.1.200"));
        assert_eq!(Ok(true), rules.matched("8.8.8.8"));
        assert_eq!(Ok(false), rules.matched("8.8.8.9"));
    }
}

#[test]
fn unreadable_address_is_bad_request() {
    let deny = IpRestriction::new(&conf("deny", &["1.1.1.0/24"], None)).unwrap();
    let mut state = State::new();
    let resp = deny
        .handle_request(PluginStep::Request, "not-an-ip", &mut state)
        .unwrap();
    assert_eq!(400, resp.status);
    assert_eq!(b"invalid IP address syntax".to_vec(), resp.body);
    assert_eq!(Some("not-an-ip".to_string()), state.client_ip);
}

#[test]
fn other_step_is_ignored() {
    let deny = IpRestriction::new(&conf("deny", &["192.168.1.1"], None)).unwrap();
    let mut state = State::new();
    assert!(deny
        .handle_request(PluginStep::Response, "192.168.1.1", &mut state)
        .is_none());
    assert_eq!(None, state.client_ip);
}

#[test]
fn resolved_address_is_cached() {
    let deny = IpRestriction::new(&conf("deny", &["192.168.1.1"], None)).unwrap();
    let mut state = State::new();
    deny.handle_request(PluginStep::Request, "3.3.3.3", &mut state);
    assert_eq!(Some("3.3.3.3".to_string()), state.client_ip);
}

#[test]
fn custom_message() {
    let mut c = conf("deny", &["192.168.1.1"], None);
    c.insert("message", ConfValue::Str("go away".to_string()));
    let deny = IpRestriction::new(&c).unwrap();
    let resp = deny
        .handle_request(PluginStep::Request, "192.168.1.1", &mut State::new())
        .unwrap();
    assert_eq!(b"go away".to_vec(), resp.body);
}

#[test]
fn malformed_entries_are_dropped() {
    let rules = IpRules::new(&vec![
        "300.1.1.1".to_string(),
        "1.1.1.0/33".to_string(),
        "abc".to_string(),
        "01.2.3.4".to_string(),
        "9.9.9.9".to_string(),
    ]);
    assert_eq!(0, rules.ip_net_list.len());
    assert_eq!(vec!["9.9.9.9".to_string()], rules.ip_list);
}

#[test]
fn address_and_network_parsing() {
    assert_eq!(Some(0x01020304), parse_ipv4("1.2.3.4"));
    assert_eq!(Some(0xffffffff), parse_ipv4("255.255.255.255"));
    assert_eq!(None, parse_ipv4("1.2.3"));
    assert_eq!(None, parse_ipv4("1.2.3.4.5"));
    assert_eq!(None, parse_ipv4("1.2.3.256"));
    assert_eq!(None, parse_ipv4(""));
    assert_eq!(
        Some(Ipv4Net { addr: 0x0a000000, prefix: 8 }),
        parse_net("10.0.0.0/8")
    );
    assert_eq!(None, parse_net("10.0.0.0"));
    let all = parse_net("0.0.0.0/0").unwrap();
    assert!(all.contains(0xffffffff));
    let host = parse_net("1.2.3.4/32").unwrap();
    assert!(host.contains(0x01020304));
    assert!(!host.contains(0x01020305));
}

#[test]
fn hash_key_follows_configuration() {
    let a = IpRestriction::new(&conf("deny", &["1.1.1.1", "2.2.2.0/24"], None)).unwrap();
    let b = IpRestriction::new(&conf("deny", &["1.1.1.1", "2.2.2.0/24"], None)).unwrap();
    let c = IpRestriction::new(&conf("allow", &["1.1.1.1", "2.2.2.0/24"], None)).unwrap();
    assert_eq!(a.hash_key(), b.hash_key());
    assert_ne!(a.hash_key(), c.hash_key());
    assert_eq!(
        "type = \"deny\"\nip_list = [\"1.1.1.1\", \"2.2.2.0/24\"]\n",
        a.hash_key()
    );
    let mut n = PluginConf::new();
    n.insert("limit", ConfValue::Int(-3));
    assert_eq!("limit = -3\n", n.to_text());
}

#[test]
fn client_address_selection() {
    assert_eq!(
        "2.1.1.2",
        client_ip_from(Some(" 2.1.1.2 , 10.0.0.1"), Some("9.9.9.9"), "127.0.0.1")
    );
    assert_eq!("9.9.9.9", client_ip_from(None, Some("9.9.9.9"), "127.0.0.1"));
    assert_eq!("127.0.0.1", client_ip_from(None, None, "127.0.0.1"));
}

#[test]
fn ipv6_rules() {

    assert_eq!(Some(vec![0, 0, 0, 0, 0, 0, 0, 1]), parse_ipv6("::1"));
    assert_eq!(Some(vec![0; 8]), parse_ipv6("::"));
    assert_eq!(
        Some(vec![0x2001, 0xdb8, 0, 0, 0, 0, 0, 0x10]),
        parse_ipv6("2001:DB8::10")
    );
    assert_eq!(Some(vec![0xfe80, 0, 0, 0, 0, 0, 0, 0]), parse_ipv6("fe80::"));
    assert_eq!(Some(vec![1, 2, 3, 4, 5, 6, 7, 8]), parse_ipv6("1:2:3:4:5:6:7:8"));
    assert_eq!(None, parse_ipv6("1:2:3:4:5:6:7"));
    assert_eq!(None, parse_ipv6("1::2::3"));
    assert_eq!(None, parse_ipv6(":::"));
    assert_eq!(None, parse_ipv6("12345::"));

    let list = ["2001:db8::/32", "::1", "10.0.0.0/8"];
    let rules = IpRules::new(&list.iter().map(|s| s.to_string()).collect());
    assert_eq!(1, rules.ip_net_list.len());
    assert_eq!(1, rules.ip6_net_list.len());
    assert_eq!(vec!["::1".to_string()], rules.ip_list);
    assert_eq!(Ok(true), rules.matched("2001:db8:1::5"));
    assert_eq!(Ok(false), rules.matched("2001:db9::5"));
    assert_eq!(Ok(true), rules.matched("::1"));
    assert_eq!(Ok(false), rules.matched("::2"));

    let allow = IpRestriction::new(&conf("allow", &list, None)).unwrap();
    let deny = IpRestriction::new(&conf("deny", &list, None)).unwrap();
    for ip in ["2001:db8::7", "fe80::1", "::1"] {
        let a = allow.handle_request(PluginStep::Request, ip, &mut State::new());
        let d = deny.handle_request(PluginStep::Request, ip, &mut State::new());
        assert_ne!(a.is_none(), d.is_none());
    }
}
