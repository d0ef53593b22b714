use tls_tunnel::config::{Config, Tunnel};
use tls_tunnel::endpoint::{host_portion, Endpoint};
use tls_tunnel::select::{SourcePoll, Step};
use tls_tunnel::server::{ConfigError, Server, StartError, TunnelIo};
use tls_tunnel::session::start_tunnel;
use tls_tunnel::tls::{build_connector, trust_for, AnchorFile, AnchorIssue, Trust};

fn tunnel(listen: &str, remote: &str, sni: Option<&str>) -> Tunnel {
    Tunnel {
        listen: listen.to_string(),
        remote: remote.to_string(),
        sni_addr: sni.map(|s| s.to_string()),
        ssl_cert: None,
    }
}

fn io(local_port: u16, remote_port: u16, anchor: AnchorFile) -> TunnelIo {
    TunnelIo {
        local: Some(Endpoint::v4([127, 0, 0, 1], local_port)),
        remote: Some(Endpoint::v4([10, 0, 0, 2], remote_port)),
        anchor,
    }
}

#[test]
fn host_portion_of_addresses() {
    assert_eq!(host_portion("example.com:443"), "example.com");
    assert_eq!(host_portion("example.com"), "example.com");
    assert_eq!(host_portion("10.1.2.3:993"), "10.1.2.3");
    assert_eq!(host_portion("[::1]:443"), "::1");
    assert_eq!(host_portion("[::1"), "[");
    assert_eq!(host_portion(""), "");
}

#[test]
fn v4_endpoint_packs_octets() {
    let e = Endpoint::v4([192, 168, 1, 2], 8080);
    assert_eq!(e.ip, 0xC0A80102);
    assert_eq!(e.port, 8080);
    assert!(!e.v6);
}

#[test]
fn trust_follows_the_anchor() {
    assert_eq!(trust_for(&AnchorFile::NotConfigured, false), Trust::DefaultStore);
    assert_eq!(trust_for(&AnchorFile::Unreadable, true), Trust::Degraded(AnchorIssue::Unreadable));
    assert_eq!(trust_for(&AnchorFile::Bytes(vec![1]), true), Trust::WithAnchor);
    assert_eq!(trust_for(&AnchorFile::Bytes(vec![1]), false), Trust::Degraded(AnchorIssue::Unparseable));
}

#[test]
fn corrupt_certificate_degrades_to_default_store() {
    let (_, trust) = build_connector(&AnchorFile::Bytes(b"not a certificate".to_vec())).unwrap();
    assert_eq!(trust, Trust::Degraded(AnchorIssue::Unparseable));
}

#[test]
fn sni_defaults_to_remote_host_and_override_wins() {
    let config = Config {
        tunnels: vec![
            ("a".to_string(), tunnel("127.0.0.1:1000", "backend.example:443", None)),
            ("b".to_string(), tunnel("127.0.0.1:1001", "backend.example:443", Some("virtual.example"))),
        ],
    };
    let ios = vec![io(1000, 443, AnchorFile::NotConfigured), io(1001, 443, AnchorFile::NotConfigured)];
    let server = Server::from_config(&config, &ios).unwrap();
    let ts = server.tunnels();
    assert_eq!(ts.len(), 2);
    assert_eq!(ts[0].name, "a");
    assert_eq!(ts[0].sni_addr, "backend.example");
    assert_eq!(ts[1].sni_addr, "virtual.example");
    assert_eq!(ts[0].trust, Trust::DefaultStore);
    let session = start_tunnel(&ts[1]);
    assert_eq!(session.sni(), "virtual.example");
    assert_eq!(session.tunnel_name, "b");
    assert_eq!(session.remote, Endpoint::v4([10, 0, 0, 2], 443));
}

#[test]
fn unresolved_tunnel_is_dropped() {
    let config = Config {
        tunnels: vec![
            ("a".to_string(), tunnel("nowhere:1", "x:443", None)),
            ("b".to_string(), tunnel("127.0.0.1:1001", "y:443", None)),
        ],
    };
    let ios = vec![
        TunnelIo { local: None, remote: Some(Endpoint::v4([1, 1, 1, 1], 443)), anchor: AnchorFile::NotConfigured },
        io(1001, 443, AnchorFile::NotConfigured),
    ];
    let server = Server::from_config(&config, &ios).unwrap();
    assert_eq!(server.tunnels().len(), 1);
    assert_eq!(server.tunnels()[0].name, "b");
    assert_eq!(server.tunnels()[0].sni_addr, "y");
}

#[test]
fn missing_certificate_still_serves_the_tunnel() {
    let config = Config { tunnels: vec![("a".to_string(), tunnel("127.0.0.1:1000", "r:443", None))] };
    let ios = vec![io(1000, 443, AnchorFile::Unreadable)];
    let server = Server::from_config(&config, &ios).unwrap();
    assert_eq!(server.tunnels().len(), 1);
    assert_eq!(server.tunnels()[0].trust, Trust::Degraded(AnchorIssue::Unreadable));
    let running = server.start(&vec![true]).ok().unwrap();
    assert_eq!(running.tunnels.len(), 1);
}

#[test]
fn duplicate_listen_address_is_refused() {
    let config = Config {
        tunnels: vec![
            ("a".to_string(), tunnel("127.0.0.1:1000", "r:443", None)),
            ("b".to_string(), tunnel("127.0.0.1:2000", "r:443", None)),
            ("c".to_string(), tunnel("127.0.0.1:1000", "s:443", None)),
        ],
    };
    let ios = vec![
        io(1000, 443, AnchorFile::NotConfigured),
        io(2000, 443, AnchorFile::NotConfigured),
        io(1000, 443, AnchorFile::NotConfigured),
    ];
    match Server::from_config(&config, &ios) {
        Err(e) => assert_eq!(e, ConfigError::DuplicateListen { first: 0, second: 2 }),
        Ok(_) => panic!("duplicate accepted"),
    }
}

#[test]
fn no_bound_listener_is_a_start_error() {
    let config = Config {
        tunnels: vec![
            ("a".to_string(), tunnel("127.0.0.1:1000", "r:443", None)),
            ("b".to_string(), tunnel("127.0.0.1:1001", "r:443", None)),
        ],
    };
    let ios = vec![io(1000, 443, AnchorFile::NotConfigured), io(1001, 443, AnchorFile::NotConfigured)];
    let server = Server::from_config(&config, &ios).unwrap();
    match server.start(&vec![false, false]) {
        Err(e) => assert_eq!(e, StartError::NoListeners),
        Ok(_) => panic!("started without listeners"),
    }
}

#[test]
fn empty_server_cannot_start() {
    let server = Server::from_config(&Config { tunnels: vec![] }, &vec![]).unwrap();
    assert!(server.tunnels().is_empty());
    assert!(matches!(server.start(&vec![]), Err(StartError::NoListeners)));
}

#[test]
fn running_serves_only_bound_tunnels() {
    let config = Config {
        tunnels: vec![
            ("a".to_string(), tunnel("127.0.0.1:1000", "r:443", None)),
            ("b".to_string(), tunnel("127.0.0.1:1001", "r:443", None)),
            ("c".to_string(), tunnel("127.0.0.1:1002", "r:443", None)),
        ],
    };
    let ios = vec![
        io(1000, 443, AnchorFile::NotConfigured),
        io(1001, 443, AnchorFile::NotConfigured),
        io(1002, 443, AnchorFile::NotConfigured),
    ];
    let server = Server::from_config(&config, &ios).unwrap();
    let mut running = server.start(&vec![true, false, true]).ok().unwrap();
    assert_eq!(running.tunnels.len(), 2);
    assert_eq!(running.tunnels[0].name, "a");
    assert_eq!(running.tunnels[1].name, "c");
    assert_eq!(running.poll_target(), Some(0));
    assert_eq!(running.report(SourcePoll::Ready), Step::Emit(0));
    assert_eq!(running.report(SourcePoll::Ready), Step::Emit(1));
    assert_eq!(running.report(SourcePoll::Ready), Step::Emit(0));
}
