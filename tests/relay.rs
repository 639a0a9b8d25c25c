use shadowsocks::address::{write_request_header, Address};
use shadowsocks::cipher::Cipher;
use shadowsocks::dns::{DnsCache, IpAddress};
use shadowsocks::relay::{
    classify_io_error, downstream_step, finish_lookup, plan_connect, read_handshake, upstream_step, Config,
    Connection, Direction, IoErrorKind, PumpAction, PumpEvent, RelayError, ServerConfig, ServerList, Stage,
    Target, TcpRelayServer,
};

fn server_config(method: &str) -> ServerConfig {
    ServerConfig {
        address: "127.0.0.1".to_string(),
        port: 8388,
        password: "server-password".to_string(),
        method: method.to_string(),
        timeout: Some(300),
    }
}

fn server() -> TcpRelayServer {
    TcpRelayServer::new(Config { server: Some(ServerList::Single(server_config("chacha20"))), enable_udp: false })
        .unwrap()
}

/// What a client with the server's password sends first.
fn client_hello(addr: &Address, payload: &[u8]) -> Vec<u8> {
    let (mut enc, _) = Cipher::new("chacha20", b"server-password").unwrap().split(vec![42u8; 8]);
    let mut plain = write_request_header(addr);
    plain.extend_from_slice(payload);
    enc.encrypt(&plain).unwrap()
}

#[test]
fn config_needs_exactly_one_server() {
    let none = Config { server: None, enable_udp: false };
    assert_eq!(TcpRelayServer::new(none).err(), Some(RelayError::ConfigError));
    let empty = Config { server: Some(ServerList::Multiple(vec![])), enable_udp: false };
    assert_eq!(TcpRelayServer::new(empty).err(), Some(RelayError::ConfigError));
    let two = Config {
        server: Some(ServerList::Multiple(vec![server_config("chacha20"), server_config("chacha20")])),
        enable_udp: true,
    };
    assert_eq!(TcpRelayServer::new(two).err(), Some(RelayError::ConfigError));
    let one = Config { server: Some(ServerList::Multiple(vec![server_config("chacha20-ietf")])), enable_udp: false };
    let s = TcpRelayServer::new(one).unwrap();
    assert_eq!(s.server().method, "chacha20-ietf");
    assert_eq!(s.server().port, 8388);
}

#[test]
fn unknown_method_fails_the_connection() {
    let s = TcpRelayServer::new(Config { server: Some(ServerList::Single(server_config("rc5"))), enable_udp: false })
        .unwrap();
    assert_eq!(s.new_cipher().err(), Some(RelayError::UnsupportedCipher));
}

#[test]
fn ipv4_request_reaches_remote_with_payload() {
    let target = Address::Ipv4 { ip: [93, 184, 216, 34], port: 80 };
    let wire = client_hello(&target, b"GET / HTTP/1.0\r\n\r\n");
    let (_, mut dec) = server().new_cipher().unwrap().split(vec![7u8; 8]);
    let (addr, payload) = read_handshake(&mut dec, Ok(wire)).unwrap();
    assert_eq!(payload, b"GET / HTTP/1.0\r\n\r\n".to_vec());
    let cache = DnsCache::new(300);
    match plan_connect(&addr, &cache, 0) {
        Target::Ready { ip, port } => {
            assert_eq!(ip, IpAddress::V4([93, 184, 216, 34]));
            assert_eq!(port, 80);
        }
        Target::Lookup { .. } => panic!("an IP destination needs no lookup"),
    }
    // Later client bytes continue the same stream.
    let (mut enc, _) = Cipher::new("chacha20", b"server-password").unwrap().split(vec![42u8; 8]);
    let mut plain = write_request_header(&target);
    plain.extend_from_slice(b"GET / HTTP/1.0\r\n\r\n");
    enc.encrypt(&plain).unwrap();
    let more = enc.encrypt(b"more").unwrap();
    match upstream_step(&mut dec, PumpEvent::Read { data: more }) {
        PumpAction::Forward { data } => assert_eq!(data, b"more".to_vec()),
        other => panic!("unexpected {:?}", other),
    }
}

#[test]
fn remote_eof_half_closes_client_and_releases() {
    let (mut enc, _) = server().new_cipher().unwrap().split(vec![1u8; 8]);
    let mut conn = Connection::new();
    for _ in 0..4 {
        conn.advance(Ok(()));
    }
    assert_eq!(conn.stage, Stage::Relaying);
    match downstream_step(&mut enc, PumpEvent::Read { data: b"hello".to_vec() }) {
        PumpAction::Forward { data } => assert_eq!(data.len(), 8 + 5),
        other => panic!("unexpected {:?}", other),
    }
    assert!(matches!(downstream_step(&mut enc, PumpEvent::Read { data: vec![] }), PumpAction::ShutdownPeerWrite));
    assert!(!conn.direction_finished(Direction::Downstream));
    assert_eq!(conn.stage, Stage::Relaying);
    assert!(conn.direction_finished(Direction::Upstream));
    assert_eq!(conn.stage, Stage::Closed);
    assert!(!conn.direction_finished(Direction::Upstream));
}

#[test]
fn short_handshake_is_a_handshake_error() {
    let (mut enc, _) = Cipher::new("chacha20", b"server-password").unwrap().split(vec![42u8; 8]);
    let wire = enc.encrypt(&[1u8, 93, 184]).unwrap();
    let (_, mut dec) = server().new_cipher().unwrap().split(vec![7u8; 8]);
    assert_eq!(read_handshake(&mut dec, Ok(wire)).err(), Some(RelayError::HandshakeError));
    let (_, mut dec2) = server().new_cipher().unwrap().split(vec![7u8; 8]);
    assert_eq!(read_handshake(&mut dec2, Ok(vec![0u8; 3])).err(), Some(RelayError::HandshakeError));
    let mut conn = Connection::new();
    conn.advance(Ok(()));
    conn.advance(Err(RelayError::HandshakeError));
    assert_eq!(conn.stage, Stage::Closed);
}

#[test]
fn two_connections_resolve_one_name_once() {
    let target = Address::Domain { name: b"fresh.example".to_vec(), port: 443 };
    let mut cache = DnsCache::new(300);
    let mut answers = Vec::new();
    for _ in 0..2 {
        let (_, mut dec) = server().new_cipher().unwrap().split(vec![7u8; 8]);
        let (addr, _) = read_handshake(&mut dec, Ok(client_hello(&target, b""))).unwrap();
        // Both look the name up before either has recorded it.
        answers.push(plan_connect(&addr, &cache, 0));
    }
    let mut dialed = Vec::new();
    for t in answers {
        match t {
            Target::Lookup { name, port } => {
                let r = finish_lookup(&mut cache, &name, port, Some(IpAddress::V4([203, 0, 113, 9])), 0);
                dialed.push(r.unwrap());
            }
            Target::Ready { .. } => panic!("the name was not cached yet"),
        }
    }
    assert_eq!(dialed[0], dialed[1]);
    assert_eq!(dialed[0], (IpAddress::V4([203, 0, 113, 9]), 443));
    assert_eq!(cache.lookup(b"fresh.example", 0), Some(IpAddress::V4([203, 0, 113, 9])));
    let (_, mut dec) = server().new_cipher().unwrap().split(vec![7u8; 8]);
    let (addr, _) = read_handshake(&mut dec, Ok(client_hello(&target, b""))).unwrap();
    assert!(matches!(plan_connect(&addr, &cache, 0), Target::Ready { port: 443, .. }));
}

#[test]
fn failed_lookup_is_a_resolution_error() {
    let mut cache = DnsCache::new(300);
    assert_eq!(finish_lookup(&mut cache, b"nowhere.invalid", 80, None, 0), Err(RelayError::ResolutionError));
    assert_eq!(cache.lookup(b"nowhere.invalid", 0), None);
}

#[test]
fn idle_client_times_out_in_handshake() {
    let (_, mut dec) = server().new_cipher().unwrap().split(vec![7u8; 8]);
    assert_eq!(read_handshake(&mut dec, Err(IoErrorKind::TimedOut)).err(), Some(RelayError::HandshakeError));
}

#[test]
fn pump_error_policy() {
    let (mut enc, mut dec) = server().new_cipher().unwrap().split(vec![1u8; 8]);
    assert!(matches!(
        upstream_step(&mut dec, PumpEvent::ReadFailed { kind: IoErrorKind::ConnectionReset }),
        PumpAction::Stop { reason: RelayError::IoTransient }
    ));
    assert!(matches!(
        upstream_step(&mut dec, PumpEvent::ReadFailed { kind: IoErrorKind::EndOfFile }),
        PumpAction::ShutdownPeerWrite
    ));
    assert!(matches!(
        downstream_step(&mut enc, PumpEvent::ReadFailed { kind: IoErrorKind::Other }),
        PumpAction::Stop { reason: RelayError::IoFatal }
    ));
    assert!(matches!(
        downstream_step(&mut enc, PumpEvent::WriteFailed { kind: IoErrorKind::BrokenPipe }),
        PumpAction::ShutdownSourceRead { reason: RelayError::IoTransient }
    ));
    assert!(matches!(
        upstream_step(&mut dec, PumpEvent::WriteFailed { kind: IoErrorKind::Other }),
        PumpAction::ShutdownSourceRead { reason: RelayError::IoFatal }
    ));
    assert_eq!(classify_io_error(IoErrorKind::TimedOut), RelayError::IoTransient);
    assert_eq!(classify_io_error(IoErrorKind::Other), RelayError::IoFatal);
}
