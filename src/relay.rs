//! The per-connection relay engine: what to do with each thing the sockets report.
//!
//! The sockets themselves live with the caller. Each function here takes what
//! a socket operation produced (bytes, an end of file, an error kind) and
//! returns the next step, so every decision of a connection is a checked one.
use vstd::prelude::*;
use crate::address::{Address, AddressModel, parse_request_header, parse_spec};
use crate::cipher::{
    Cipher,
    Decryptor,
    Encryptor,
    STREAM_LIMIT,
    DecryptorModel,
    decrypt_next,
    derive_key,
    decrypt_output,
    encrypt_next,
    encrypt_output,
    iv_taken,
};
use crate::dns::{DnsCache, IpAddress, cached};
use vstd::utf8::encode_utf8;

verus! {

/// Everything that can end a connection, or the server before it starts.
#[derive(Clone, Copy, Debug, PartialEq, Eq, Structural)]
pub enum RelayError {
    ConfigError,
    UnsupportedCipher,
    HandshakeError,
    MalformedHeader,
    ResolutionError,
    DialError,
    IoTransient,
    IoFatal,
}

/// The kind of a failed socket operation, as the caller saw it.
#[derive(Clone, Copy, Debug, PartialEq, Eq, Structural)]
pub enum IoErrorKind {
    EndOfFile,
    TimedOut,
    BrokenPipe,
    ConnectionReset,
    Other,
}

pub open spec fn is_transient(k: IoErrorKind) -> bool {
    !(k is Other)
}

pub open spec fn io_error_class(k: IoErrorKind) -> RelayError {
    if is_transient(k) {
        RelayError::IoTransient
    } else {
        RelayError::IoFatal
    }
}

/// End of file, a timeout, a broken pipe or a reset are the normal ends of a
/// connection; anything else is an unexpected failure.
pub fn classify_io_error(k: IoErrorKind) -> (r: RelayError)
    ensures
        r == io_error_class(k),
{
    match k {
        IoErrorKind::Other => RelayError::IoFatal,
        _ => RelayError::IoTransient,
    }
}

/// One server definition.
#[derive(Clone, Debug)]
pub struct ServerConfig {
    pub address: String,
    pub port: u16,
    pub password: String,
    pub method: String,
    /// Idle timeout of a client socket, in seconds.
    pub timeout: Option<u64>,
}

/// The server definitions a configuration holds.
#[derive(Clone, Debug)]
pub enum ServerList {
    Single(ServerConfig),
    Multiple(Vec<ServerConfig>),
}

/// What the server is started with.
#[derive(Clone, Debug)]
pub struct Config {
    pub server: Option<ServerList>,
    pub enable_udp: bool,
}

/// The one server definition of `c`, if it has exactly one.
pub open spec fn single_server(c: Config) -> Option<ServerConfig> {
    match c.server {
        None => None,
        Some(ServerList::Single(s)) => Some(s),
        Some(ServerList::Multiple(v)) => if v@.len() == 1 {
            Some(v@[0])
        } else {
            None
        },
    }
}

/// The TCP side of the server, with the one server definition it serves.
pub struct TcpRelayServer {
    server: ServerConfig,
}

impl TcpRelayServer {
    pub closed spec fn server_spec(&self) -> ServerConfig {
        self.server
    }

    /// Accept a configuration with exactly one server definition.
    pub fn new(c: Config) -> (r: Result<TcpRelayServer, RelayError>)
        ensures
            match r {
                Ok(s) => single_server(c) == Some(s.server_spec()),
                Err(e) => single_server(c) is None && e == RelayError::ConfigError,
            },
    {
        match c.server {
            None => Err(RelayError::ConfigError),
            Some(ServerList::Single(s)) => Ok(TcpRelayServer { server: s }),
            Some(ServerList::Multiple(v)) => {
                let mut v = v;
                if v.len() != 1 {
                    return Err(RelayError::ConfigError);
                }
                let s = v.remove(0);
                Ok(TcpRelayServer { server: s })
            },
        }
    }

    /// The server definition in use.
    pub fn server(&self) -> (r: &ServerConfig)
        ensures
            *r == self.server_spec(),
    {
        &self.server
    }

    /// A fresh cipher for one connection, keyed by the configured method and password.
    pub fn new_cipher(&self) -> (r: Result<Cipher, RelayError>)
        ensures
            match r {
                Ok(c) => c.wf() && crate::cipher::method_of_name(
                    encode_utf8(self.server_spec().method@),
                ) == Some(c.method()) && c.key() == derive_key(
                    encode_utf8(self.server_spec().password@),
                ),
                Err(e) => e == RelayError::UnsupportedCipher && crate::cipher::method_of_name(
                    encode_utf8(self.server_spec().method@),
                ) is None,
            },
    {
        match Cipher::new(self.server.method.as_str(), self.server.password.as_str().as_bytes()) {
            Ok(c) => Ok(c),
            Err(_) => Err(RelayError::UnsupportedCipher),
        }
    }
}

/// Whether the receiving handle in state `d` can take `buf` before its stream limit.
pub open spec fn decrypt_fits(d: DecryptorModel, buf: Seq<u8>) -> bool {
    d.pos + buf.len() - iv_taken(d, buf) <= STREAM_LIMIT
}

/// The destination and the payload that follows the header, when the first bytes `buf`
/// of a connection decrypt (from state `d`) to a well-formed header.
pub open spec fn handshake_spec(d: DecryptorModel, buf: Seq<u8>) -> Option<(AddressModel, Seq<u8>)> {
    if !decrypt_fits(d, buf) {
        None
    } else {
        let plain = decrypt_output(d, buf);
        match parse_spec(plain) {
            None => None,
            Some((n, a)) => Some((a, plain.skip(n as int))),
        }
    }
}

fn copy_from(b: &[u8], from: usize) -> (r: Vec<u8>)
    requires
        from <= b@.len(),
    ensures
        r@ == b@.skip(from as int),
{
    let mut out: Vec<u8> = Vec::new();
    let mut i: usize = from;
    while i < b.len()
        invariant
            from <= i <= b@.len(),
            out@ =~= b@.subrange(from as int, i as int),
        decreases b@.len() - i,
    {
        out.push(b[i]);
        i += 1;
    }
    assert(out@ =~= b@.skip(from as int));
    out
}

/// The handshake: decrypt what the first read of a connection produced and take the
/// destination from it, with the payload that followed the header. A failed read (an
/// idle timeout among them) or bytes that hold no well-formed header end the connection
/// with `HandshakeError`.
pub fn read_handshake(dec: &mut Decryptor, read: Result<Vec<u8>, IoErrorKind>) -> (r: Result<
    (Address, Vec<u8>),
    RelayError,
>)
    requires
        old(dec).wf(),
    ensures
        final(dec).wf(),
        match read {
            Err(_) => r is Err && r->Err_0 == RelayError::HandshakeError,
            Ok(buf) => match handshake_spec(old(dec)@, buf@) {
                None => r is Err && r->Err_0 == RelayError::HandshakeError,
                Some((a, p)) => r is Ok && r->Ok_0.0@ == a && r->Ok_0.1@ == p && final(dec)@
                    == decrypt_next(old(dec)@, buf@),
            },
        },
{
    let buf = match read {
        Ok(b) => b,
        Err(_) => return Err(RelayError::HandshakeError),
    };
    let plain = match dec.decrypt(buf.as_slice()) {
        Some(p) => p,
        None => return Err(RelayError::HandshakeError),
    };
    match parse_request_header(plain.as_slice()) {
        Ok((n, addr)) => {
            let payload = copy_from(plain.as_slice(), n);
            Ok((addr, payload))
        },
        Err(_) => Err(RelayError::HandshakeError),
    }
}

/// Where to dial: an address known now, or a name the system must resolve first.
#[derive(Clone, Debug)]
pub enum Target {
    Ready { ip: IpAddress, port: u16 },
    Lookup { name: Vec<u8>, port: u16 },
}

/// Turn a destination into a dial target at time `now`: IP destinations directly, names
/// from the cache when it holds an answer that still counts.
pub fn plan_connect(addr: &Address, cache: &DnsCache, now: u64) -> (r: Target)
    requires
        cache.wf(),
    ensures
        match *addr {
            Address::Ipv4 { ip, port } => r == (Target::Ready { ip: IpAddress::V4(ip), port }),
            Address::Ipv6 { ip, port } => r == (Target::Ready { ip: IpAddress::V6(ip), port }),
            Address::Domain { name, port } => match cached(cache@, cache.ttl(), name@, now) {
                Some(ip) => r == (Target::Ready { ip, port }),
                None => r is Lookup && r->name@ == name@ && r->Lookup_port == port,
            },
        },
{
    match addr {
        Address::Ipv4 { ip, port } => Target::Ready { ip: IpAddress::V4(*ip), port: *port },
        Address::Ipv6 { ip, port } => Target::Ready { ip: IpAddress::V6(*ip), port: *port },
        Address::Domain { name, port } => match cache.lookup(name.as_slice(), now) {
            Some(ip) => Target::Ready { ip, port: *port },
            None => Target::Lookup { name: copy_from(name.as_slice(), 0), port: *port },
        },
    }
}

/// Take the answer that a system lookup of `name` gave at `now`: record and use an
/// address, or end the connection with `ResolutionError` when there is none.
pub fn finish_lookup(
    cache: &mut DnsCache,
    name: &[u8],
    port: u16,
    resolved: Option<IpAddress>,
    now: u64,
) -> (r: Result<(IpAddress, u16), RelayError>)
    requires
        old(cache).wf(),
    ensures
        final(cache).wf(),
        final(cache).ttl() == old(cache).ttl(),
        match resolved {
            Some(ip) => r == Ok::<(IpAddress, u16), RelayError>((ip, port)) && final(cache)@
                == old(cache)@.insert(name@, (ip, now)),
            None => r == Err::<(IpAddress, u16), RelayError>(RelayError::ResolutionError)
                && final(cache)@ == old(cache)@,
        },
{
    match resolved {
        Some(ip) => {
            cache.record(name, ip, now);
            Ok((ip, port))
        },
        None => Err(RelayError::ResolutionError),
    }
}

/// What a pump loop saw on its last socket operation.
#[derive(Clone, Debug)]
pub enum PumpEvent {
    /// A read returned these bytes; none means the source reached its end.
    Read { data: Vec<u8> },
    /// A read from the source failed.
    ReadFailed { kind: IoErrorKind },
    /// A write to the destination failed.
    WriteFailed { kind: IoErrorKind },
}

/// What a pump loop does next.
#[derive(Clone, Debug)]
pub enum PumpAction {
    /// Write these bytes to the destination and read again.
    Forward { data: Vec<u8> },
    /// The source ended: shut the write half of the destination, passing the end on, and stop.
    ShutdownPeerWrite,
    /// Stop, for the reason given.
    Stop { reason: RelayError },
    /// Shut the read half of the source, so that the opposite loop unwinds too, and stop.
    ShutdownSourceRead { reason: RelayError },
}

/// The decision for every event but a read of fresh bytes, which is the same in both
/// directions.
pub open spec fn pump_end(ev: PumpEvent) -> PumpAction {
    match ev {
        PumpEvent::Read { .. } => PumpAction::ShutdownPeerWrite,
        PumpEvent::ReadFailed { kind } => if kind is EndOfFile {
            PumpAction::ShutdownPeerWrite
        } else {
            PumpAction::Stop { reason: io_error_class(kind) }
        },
        PumpEvent::WriteFailed { kind } => PumpAction::ShutdownSourceRead {
            reason: io_error_class(kind),
        },
    }
}

/// A handle that has used up its keystream.
pub open spec fn exhausted() -> PumpAction {
    PumpAction::ShutdownSourceRead { reason: RelayError::IoFatal }
}

pub open spec fn has_bytes(ev: PumpEvent) -> bool {
    ev is Read && ev->data@.len() > 0
}

fn end_action(ev: &PumpEvent) -> (r: PumpAction)
    requires
        !has_bytes(*ev),
    ensures
        r == pump_end(*ev),
{
    match ev {
        PumpEvent::Read { .. } => PumpAction::ShutdownPeerWrite,
        PumpEvent::ReadFailed { kind } => match kind {
            IoErrorKind::EndOfFile => PumpAction::ShutdownPeerWrite,
            _ => PumpAction::Stop { reason: classify_io_error(*kind) },
        },
        PumpEvent::WriteFailed { kind } => PumpAction::ShutdownSourceRead {
            reason: classify_io_error(*kind),
        },
    }
}

/// One step of the client-to-remote loop: bytes from the client are decrypted for the
/// remote, in the order they came. A stream that has run out of keystream is torn down.
pub fn upstream_step(dec: &mut Decryptor, ev: PumpEvent) -> (r: PumpAction)
    requires
        old(dec).wf(),
    ensures
        final(dec).wf(),
        !has_bytes(ev) ==> r == pump_end(ev) && final(dec)@ == old(dec)@,
        has_bytes(ev) && decrypt_fits(old(dec)@, ev->data@) ==> r is Forward && r->data@
            == decrypt_output(old(dec)@, ev->data@) && final(dec)@ == decrypt_next(
            old(dec)@,
            ev->data@,
        ),
        has_bytes(ev) && !decrypt_fits(old(dec)@, ev->data@) ==> r == exhausted() && final(dec)@
            == old(dec)@,
{
    if let PumpEvent::Read { data } = &ev {
        if data.len() > 0 {
            return match dec.decrypt(data.as_slice()) {
                Some(out) => PumpAction::Forward { data: out },
                None => PumpAction::ShutdownSourceRead { reason: RelayError::IoFatal },
            };
        }
    }
    end_action(&ev)
}

/// One step of the remote-to-client loop: bytes from the remote are encrypted for the
/// client, in the order they came. A stream that has run out of keystream is torn down.
pub fn downstream_step(enc: &mut Encryptor, ev: PumpEvent) -> (r: PumpAction)
    requires
        old(enc).wf(),
    ensures
        final(enc).wf(),
        !has_bytes(ev) ==> r == pump_end(ev) && final(enc)@ == old(enc)@,
        has_bytes(ev) && old(enc)@.pos + ev->data@.len() <= STREAM_LIMIT ==> r is Forward
            && r->data@ == encrypt_output(old(enc)@, ev->data@) && final(enc)@ == encrypt_next(
            old(enc)@,
            ev->data@,
        ),
        has_bytes(ev) && old(enc)@.pos + ev->data@.len() > STREAM_LIMIT ==> r == exhausted()
            && final(enc)@ == old(enc)@,
{
    if let PumpEvent::Read { data } = &ev {
        if data.len() > 0 {
            return match enc.encrypt(data.as_slice()) {
                Some(out) => PumpAction::Forward { data: out },
                None => PumpAction::ShutdownSourceRead { reason: RelayError::IoFatal },
            };
        }
    }
    end_action(&ev)
}

/// Where a connection stands.
#[derive(Clone, Copy, Debug, PartialEq, Eq, Structural)]
pub enum Stage {
    Accepted,
    HandshakeRead,
    AddressResolved,
    RemoteDialed,
    Relaying,
    Closed,
}

/// One of the two pump loops of a connection.
#[derive(Clone, Copy, Debug, PartialEq, Eq, Structural)]
pub enum Direction {
    Upstream,
    Downstream,
}

/// The stage that follows `s` when its work succeeds.
pub open spec fn next_stage(s: Stage) -> Stage {
    match s {
        Stage::Accepted => Stage::HandshakeRead,
        Stage::HandshakeRead => Stage::AddressResolved,
        Stage::AddressResolved => Stage::RemoteDialed,
        Stage::RemoteDialed => Stage::Relaying,
        _ => Stage::Closed,
    }
}

pub open spec fn before_relay(s: Stage) -> bool {
    s is Accepted || s is HandshakeRead || s is AddressResolved || s is RemoteDialed
}

/// The lifecycle of one connection: its stage, and which pump loops have ended.
#[derive(Clone, Copy, Debug, PartialEq, Eq, Structural)]
pub struct Connection {
    pub stage: Stage,
    pub upstream_done: bool,
    pub downstream_done: bool,
}

/// The lifecycle after the loop `d` of `c` has ended, and whether the connection's
/// resources are to be released now.
pub open spec fn finish_spec(c: Connection, d: Direction) -> (Connection, bool) {
    let up = c.upstream_done || d is Upstream;
    let down = c.downstream_done || d is Downstream;
    let release = c.stage is Relaying && up && down;
    (Connection { stage: if release { Stage::Closed } else { c.stage }, upstream_done: up, downstream_done: down }, release)
}

impl Connection {
    /// While relaying, at least one loop still runs; no loop ends before relaying.
    pub open spec fn wf(&self) -> bool {
        &&& self.stage is Relaying ==> !(self.upstream_done && self.downstream_done)
        &&& before_relay(self.stage) ==> !self.upstream_done && !self.downstream_done
    }

    /// A connection just accepted.
    pub fn new() -> (r: Connection)
        ensures
            r.wf(),
            r == (Connection { stage: Stage::Accepted, upstream_done: false, downstream_done: false }),
    {
        Connection { stage: Stage::Accepted, upstream_done: false, downstream_done: false }
    }

    /// Record how the work of the current stage ended: on success the next stage, on any
    /// error the connection is closed.
    pub fn advance(&mut self, outcome: Result<(), RelayError>)
        requires
            old(self).wf(),
            before_relay(old(self).stage),
        ensures
            final(self).wf(),
            final(self).stage == (if outcome is Ok {
                next_stage(old(self).stage)
            } else {
                Stage::Closed
            }),
            final(self).upstream_done == old(self).upstream_done,
            final(self).downstream_done == old(self).downstream_done,
    {
        self.stage = match outcome {
            Err(_) => Stage::Closed,
            Ok(()) => match self.stage {
                Stage::Accepted => Stage::HandshakeRead,
                Stage::HandshakeRead => Stage::AddressResolved,
                Stage::AddressResolved => Stage::RemoteDialed,
                Stage::RemoteDialed => Stage::Relaying,
                _ => Stage::Closed,
            },
        };
    }

    /// Record that the loop `d` has ended. Returns true when this was the last loop to
    /// end, the moment to release the connection's sockets.
    pub fn direction_finished(&mut self, d: Direction) -> (release: bool)
        requires
            old(self).wf(),
            old(self).stage is Relaying || old(self).stage is Closed,
        ensures
            final(self).wf(),
            (*final(self), release) == finish_spec(*old(self), d),
    {
        match d {
            Direction::Upstream => self.upstream_done = true,
            Direction::Downstream => self.downstream_done = true,
        }
        let release = match self.stage {
            Stage::Relaying => self.upstream_done && self.downstream_done,
            _ => false,
        };
        if release {
            self.stage = Stage::Closed;
        }
        release
    }
}

/// Once both loops of a relaying connection have ended, in either order, its resources
/// have been released exactly once: on the second end and not the first, and no later
/// report releases them again.
pub proof fn lemma_released_once(c: Connection, first: Direction, second: Direction, later: Direction)
    requires
        c.wf(),
        c.stage is Relaying,
        !c.upstream_done,
        !c.downstream_done,
        first != second,
    ensures
        !finish_spec(c, first).1,
        finish_spec(finish_spec(c, first).0, second).1,
        finish_spec(finish_spec(c, first).0, second).0.stage is Closed,
        !finish_spec(finish_spec(finish_spec(c, first).0, second).0, later).1,
{
}

} // verus!
