//! The server side of an encrypted tunnelling proxy.
//!
//! A client sends, under a stream cipher, a header naming a destination and
//! then its payload. The server decrypts the header, finds the destination
//! (through a cache of resolved names), and relays bytes both ways,
//! encrypting towards the client and decrypting towards the destination.
//!
//! - `address`: the request header and the destinations it carries.
//! - `cipher`: method lookup, key derivation and the two stream handles.
//! - `dns`: the cache of resolved names.
//! - `relay`: configuration, and each decision a connection makes.
use vstd::prelude::*;

pub mod address;
pub mod cipher;
pub mod dns;
pub mod relay;

verus! {

} // verus!
