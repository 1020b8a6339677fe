use message_recorder::config::{configure, Change, ConfigError, Flags, Mode, DEFAULT_KEY};
use message_recorder::text::same_text;

fn strings(items: &[&str]) -> Vec<String> {
    items.iter().map(|s| s.to_string()).collect()
}

#[test]
fn two_keys_and_no_file_give_both_channels_over_the_defaults() {
    let flags = Flags {
        mode: None,
        keys: strings(&["imu/left", "imu/right"]),
        peers: strings(&["tcp/192.168.1.1:7447", "udp/10.0.0.2:7447"]),
        config: None,
    };
    let setup = configure(flags, Some("demo/example/**")).unwrap();
    assert_eq!(setup.keys, strings(&["imu/left", "imu/right"]));
    assert_eq!(setup.config_file, None);
    assert_eq!(setup.mode, None);
    assert_eq!(setup.mode_over_defaults(), Mode::Peer);
    assert_eq!(setup.peers, strings(&["tcp/192.168.1.1:7447", "udp/10.0.0.2:7447"]));
}

#[test]
fn two_keys_without_locators_add_no_peer() {
    let flags =
        Flags { mode: None, keys: strings(&["a", "b"]), peers: Vec::new(), config: None };
    let setup = configure(flags, Some("fallback")).unwrap();
    assert_eq!(setup.keys, strings(&["a", "b"]));
    assert!(setup.peers.is_empty());
    assert_eq!(setup.config_file, None);
    assert_eq!(setup.mode_over_defaults(), Mode::Peer);
}

#[test]
fn no_key_falls_back_on_the_default_channel() {
    let flags = Flags { mode: None, keys: Vec::new(), peers: Vec::new(), config: None };
    let setup = configure(flags, Some("demo/example/**")).unwrap();
    assert_eq!(setup.keys, strings(&["demo/example/**"]));
    assert_eq!(setup.followed_key(), Some(&"demo/example/**".to_string()));
}

#[test]
fn no_key_and_no_default_subscribe_to_nothing() {
    let flags = Flags { mode: None, keys: Vec::new(), peers: Vec::new(), config: None };
    let setup = configure(flags, None).unwrap();
    assert!(setup.keys.is_empty());
    assert_eq!(setup.followed_key(), None);
    assert_eq!(setup.mode_over_defaults(), Mode::Peer);
}

#[test]
fn keys_without_a_default_are_kept_in_order() {
    let flags =
        Flags { mode: None, keys: strings(&["z", "a", "z"]), peers: Vec::new(), config: None };
    let setup = configure(flags, None).unwrap();
    assert_eq!(setup.keys, strings(&["z", "a", "z"]));
    assert_eq!(setup.followed_key(), Some(&"z".to_string()));
}

#[test]
fn a_mode_is_set_where_it_is_asked_for() {
    let flags = Flags {
        mode: Some("client".to_string()),
        keys: Vec::new(),
        peers: strings(&["tcp/localhost:7447"]),
        config: Some("zenoh.json5".to_string()),
    };
    let setup = configure(flags, Some("k")).unwrap();
    assert_eq!(setup.mode, Some(Mode::Client));
    assert_eq!(setup.mode_over_defaults(), Mode::Client);
    assert_eq!(setup.config_file, Some("zenoh.json5".to_string()));
    assert_eq!(setup.peers, strings(&["tcp/localhost:7447"]));
    assert_eq!(setup.keys, strings(&["k"]));

    let flags =
        Flags { mode: Some("peer".to_string()), keys: Vec::new(), peers: Vec::new(), config: None };
    let setup = configure(flags, None).unwrap();
    assert_eq!(setup.mode, Some(Mode::Peer));
    assert_eq!(setup.mode_over_defaults(), Mode::Peer);
}

#[test]
fn an_unknown_mode_is_refused() {
    for name in ["router", "", "Peer", "peer ", "clien", "clients"] {
        let flags = Flags {
            mode: Some(name.to_string()),
            keys: strings(&["a"]),
            peers: Vec::new(),
            config: None,
        };
        assert_eq!(configure(flags, Some("k")).err(), Some(ConfigError::UnknownMode));
    }
}

#[test]
fn the_names_of_the_modes() {
    assert_eq!(Mode::parse("peer"), Some(Mode::Peer));
    assert_eq!(Mode::parse("client"), Some(Mode::Client));
    assert_eq!(Mode::parse("router"), None);
    assert_eq!(Mode::parse(""), None);
    assert_eq!(Mode::parse("PEER"), None);
}

#[test]
fn texts_are_equal_when_all_their_bytes_are() {
    assert!(same_text("", ""));
    assert!(same_text("imu/data", "imu/data"));
    assert!(same_text("ключ", "ключ"));
    assert!(!same_text("imu/data", "imu/dat"));
    assert!(!same_text("imu/dat", "imu/data"));
    assert!(!same_text("a", "b"));
    assert!(!same_text("", "a"));
    assert!(!same_text("é", "e"));
}

#[test]
fn without_file_and_mode_only_the_peers_change_the_defaults() {
    let flags = Flags {
        mode: None,
        keys: strings(&["imu/left", "imu/right"]),
        peers: strings(&["tcp/192.168.1.1:7447", "udp/10.0.0.2:7447"]),
        config: None,
    };
    let setup = configure(flags, Some(DEFAULT_KEY)).unwrap();
    assert_eq!(
        setup.changes(),
        vec![
            Change::AddPeer("tcp/192.168.1.1:7447".to_string()),
            Change::AddPeer("udp/10.0.0.2:7447".to_string()),
        ]
    );
    assert_eq!(setup.keys, strings(&["imu/left", "imu/right"]));
}

#[test]
fn the_file_comes_before_the_mode_and_the_mode_before_the_peers() {
    let flags = Flags {
        mode: Some("client".to_string()),
        keys: Vec::new(),
        peers: strings(&["tcp/a:1", "tcp/b:2", "tcp/a:1"]),
        config: Some("settings.json5".to_string()),
    };
    let setup = configure(flags, Some(DEFAULT_KEY)).unwrap();
    assert_eq!(
        setup.changes(),
        vec![
            Change::LoadFile("settings.json5".to_string()),
            Change::SetMode(Mode::Client),
            Change::AddPeer("tcp/a:1".to_string()),
            Change::AddPeer("tcp/b:2".to_string()),
            Change::AddPeer("tcp/a:1".to_string()),
        ]
    );
    assert_eq!(setup.keys, strings(&[DEFAULT_KEY]));
}

#[test]
fn no_flag_changes_nothing() {
    let flags = Flags { mode: None, keys: Vec::new(), peers: Vec::new(), config: None };
    let setup = configure(flags, None).unwrap();
    assert!(setup.changes().is_empty());
    let flags =
        Flags { mode: Some("peer".to_string()), keys: Vec::new(), peers: Vec::new(), config: None };
    let setup = configure(flags, None).unwrap();
    assert_eq!(setup.changes(), vec![Change::SetMode(Mode::Peer)]);
    let flags = Flags {
        mode: None,
        keys: Vec::new(),
        peers: Vec::new(),
        config: Some("c.yaml".to_string()),
    };
    let setup = configure(flags, None).unwrap();
    assert_eq!(setup.changes(), vec![Change::LoadFile("c.yaml".to_string())]);
}

#[test]
fn the_default_channel() {
    assert_eq!(DEFAULT_KEY, "demo/example/**");
}
