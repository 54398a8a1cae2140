use zenohui::cli::{quoted_list_exec, SessionMode, ZenohConnection};

fn connection(peer: &[&str], listen: &[&str], mode: SessionMode) -> ZenohConnection {
    ZenohConnection {
        peer: peer.iter().map(|s| s.to_string()).collect(),
        listen: listen.iter().map(|s| s.to_string()).collect(),
        mode,
    }
}

#[test]
fn mode_names() {
    assert_eq!(SessionMode::Client.as_str(), "client");
    assert_eq!(SessionMode::Peer.as_str(), "peer");
    assert_eq!(SessionMode::Router.as_str(), "router");
}

#[test]
fn describe_connection() {
    assert_eq!(connection(&[], &[], SessionMode::Client).describe(), "mode=client");
    assert_eq!(
        connection(&["tcp/a:1", "tcp/b:2"], &["tcp/0.0.0.0:7447"], SessionMode::Peer).describe(),
        "mode=peer peer=tcp/a:1,tcp/b:2 listen=tcp/0.0.0.0:7447"
    );
}

#[test]
fn quoted_lists() {
    assert_eq!(quoted_list_exec(&vec!["a".to_owned(), "b".to_owned()]), "[\"a\", \"b\"]");
    assert_eq!(quoted_list_exec(&Vec::new()), "[]");
}

#[test]
fn config_entries_default_endpoint() {
    let e = connection(&[], &[], SessionMode::Router).config_entries();
    assert_eq!(
        e,
        vec![
            ("mode".to_owned(), "\"router\"".to_owned()),
            ("connect/endpoints".to_owned(), "[\"tcp/127.0.0.1:7447\"]".to_owned()),
        ]
    );
}

#[test]
fn config_entries_explicit_endpoints() {
    let e = connection(&["tcp/a:1"], &["tcp/b:2"], SessionMode::Peer).config_entries();
    assert_eq!(
        e,
        vec![
            ("mode".to_owned(), "\"peer\"".to_owned()),
            ("connect/endpoints".to_owned(), "[\"tcp/a:1\"]".to_owned()),
            ("listen/endpoints".to_owned(), "[\"tcp/b:2\"]".to_owned()),
        ]
    );
}
