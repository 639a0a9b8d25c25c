//! Stream ciphers keyed by a method name and a password.
//!
//! Each direction of a connection has its own handle. The sending handle
//! starts its output with a fresh IV; the receiving handle takes the peer's
//! IV from the first bytes it is given. Every other byte is XORed with the
//! keystream byte at its position in the stream.
use vstd::prelude::*;
use chacha20::cipher::{KeyIvInit, StreamCipher, StreamCipherSeek};
use md5::Digest;
use vstd::string::StringSliceAdditionalSpecFns;

verus! {

/// Keystream bytes a handle may use: far below the 32-bit block counter's end.
pub const STREAM_LIMIT: u64 = 137438953472;

/// Length of a derived key.
pub const KEY_LEN: usize = 32;

/// Name bytes of the `chacha20` method ("chacha20").
pub const CHACHA20_NAME: [u8; 8] = [99, 104, 97, 99, 104, 97, 50, 48];

/// Name bytes of the `chacha20-ietf` method ("chacha20-ietf").
pub const CHACHA20_IETF_NAME: [u8; 13] = [99, 104, 97, 99, 104, 97, 50, 48, 45, 105, 101, 116, 102];

/// A supported cipher method.
#[derive(Clone, Copy, Debug, PartialEq, Eq, Structural)]
pub enum Method {
    ChaCha20,
    ChaCha20Ietf,
}

/// The method name is not a supported one.
#[derive(Clone, Copy, Debug, PartialEq, Eq, Structural)]
pub struct UnsupportedCipher;

pub open spec fn method_of_name(name: Seq<u8>) -> Option<Method> {
    if name == CHACHA20_NAME@ {
        Some(Method::ChaCha20)
    } else if name == CHACHA20_IETF_NAME@ {
        Some(Method::ChaCha20Ietf)
    } else {
        None
    }
}

pub open spec fn iv_len(m: Method) -> nat {
    match m {
        Method::ChaCha20 => 8,
        Method::ChaCha20Ietf => 12,
    }
}

/// MD5 digest of `data`.
pub uninterp spec fn md5_digest(data: Seq<u8>) -> Seq<u8>;

/// Byte at position `pos` of the Bernstein ChaCha20 keystream (64-bit nonce) for `key`, `iv`.
pub uninterp spec fn chacha20_legacy_byte(key: Seq<u8>, iv: Seq<u8>, pos: int) -> u8;

/// Byte at position `pos` of the IETF ChaCha20 keystream (96-bit nonce) for `key`, `iv`.
pub uninterp spec fn chacha20_ietf_byte(key: Seq<u8>, iv: Seq<u8>, pos: int) -> u8;

pub open spec fn keystream_byte(m: Method, key: Seq<u8>, iv: Seq<u8>, pos: int) -> u8 {
    match m {
        Method::ChaCha20 => chacha20_legacy_byte(key, iv, pos),
        Method::ChaCha20Ietf => chacha20_ietf_byte(key, iv, pos),
    }
}

/// `data` XORed with the keystream that starts at position `pos`.
pub open spec fn xor_stream(m: Method, key: Seq<u8>, iv: Seq<u8>, pos: int, data: Seq<u8>) -> Seq<u8> {
    Seq::new(data.len(), |i: int| data[i] ^ keystream_byte(m, key, iv, pos + i))
}

/// The key that a password derives (OpenSSL's `EVP_BytesToKey` with MD5 and one round,
/// for a 32-byte key): two chained digests.
pub open spec fn derive_key(password: Seq<u8>) -> Seq<u8> {
    let d0 = md5_digest(password);
    d0 + md5_digest(d0 + password)
}

/// Relies on md5::Md5::digest: the MD5 digest of the input, 16 bytes.
#[verifier::external_body]
fn md5(data: &[u8]) -> (r: Vec<u8>)
    ensures
        r@ == md5_digest(data@),
        r@.len() == 16,
{
    md5::Md5::digest(data).to_vec()
}

/// Relies on chacha20::ChaCha20Legacy: after `seek(pos)`, `apply_keystream` XORs each
/// byte with the keystream byte at its position. Below the limit the 32-bit block
/// counter does not run out, so neither call panics.
#[verifier::external_body]
fn chacha20_legacy_xor(key: &[u8], iv: &[u8], pos: u64, data: &[u8]) -> (r: Vec<u8>)
    requires
        key@.len() == 32,
        iv@.len() == 8,
        pos + data@.len() <= STREAM_LIMIT,
    ensures
        r@.len() == data@.len(),
        forall|i: int|
            0 <= i < data@.len() ==> #[trigger] r@[i] == data@[i] ^ chacha20_legacy_byte(
                key@,
                iv@,
                pos + i,
            ),
{
    let mut c = chacha20::ChaCha20Legacy::new(key.into(), iv.into());
    c.seek(pos);
    let mut buf = data.to_vec();
    c.apply_keystream(&mut buf);
    buf
}

/// Relies on chacha20::ChaCha20: after `seek(pos)`, `apply_keystream` XORs each byte
/// with the keystream byte at its position. Below the limit the 32-bit block counter
/// does not run out, so neither call panics.
#[verifier::external_body]
fn chacha20_ietf_xor(key: &[u8], iv: &[u8], pos: u64, data: &[u8]) -> (r: Vec<u8>)
    requires
        key@.len() == 32,
        iv@.len() == 12,
        pos + data@.len() <= STREAM_LIMIT,
    ensures
        r@.len() == data@.len(),
        forall|i: int|
            0 <= i < data@.len() ==> #[trigger] r@[i] == data@[i] ^ chacha20_ietf_byte(
                key@,
                iv@,
                pos + i,
            ),
{
    let mut c = chacha20::ChaCha20::new(key.into(), iv.into());
    c.seek(pos);
    let mut buf = data.to_vec();
    c.apply_keystream(&mut buf);
    buf
}

fn apply_keystream(m: Method, key: &[u8], iv: &[u8], pos: u64, data: &[u8]) -> (r: Vec<u8>)
    requires
        key@.len() == 32,
        iv@.len() == iv_len(m),
        pos + data@.len() <= STREAM_LIMIT,
    ensures
        r@ == xor_stream(m, key@, iv@, pos as int, data@),
{
    let r = match m {
        Method::ChaCha20 => chacha20_legacy_xor(key, iv, pos, data),
        Method::ChaCha20Ietf => chacha20_ietf_xor(key, iv, pos, data),
    };
    assert(r@ =~= xor_stream(m, key@, iv@, pos as int, data@));
    r
}

fn bytes_equal(a: &[u8], b: &[u8]) -> (r: bool)
    ensures
        r == (a@ == b@),
{
    if a.len() != b.len() {
        return false;
    }
    let mut i: usize = 0;
    while i < a.len()
        invariant
            a@.len() == b@.len(),
            i <= a@.len(),
            a@.subrange(0, i as int) == b@.subrange(0, i as int),
        decreases a@.len() - i,
    {
        if a[i] != b[i] {
            assert(a@[i as int] != b@[i as int]);
            return false;
        }
        assert(a@.subrange(0, i + 1) =~= a@.subrange(0, i as int).push(a@[i as int]));
        assert(b@.subrange(0, i + 1) =~= b@.subrange(0, i as int).push(b@[i as int]));
        i += 1;
    }
    assert(a@ =~= a@.subrange(0, i as int));
    assert(b@ =~= b@.subrange(0, i as int));
    true
}

/// Look a method up by its name.
pub fn method_from_name(name: &str) -> (r: Result<Method, UnsupportedCipher>)
    ensures
        match r {
            Ok(m) => method_of_name(name.spec_bytes()) == Some(m),
            Err(_) => method_of_name(name.spec_bytes()) is None,
        },
{
    let b = name.as_bytes();
    if bytes_equal(b, CHACHA20_NAME.as_slice()) {
        Ok(Method::ChaCha20)
    } else if bytes_equal(b, CHACHA20_IETF_NAME.as_slice()) {
        Ok(Method::ChaCha20Ietf)
    } else {
        Err(UnsupportedCipher)
    }
}

fn concat(a: &[u8], b: &[u8]) -> (r: Vec<u8>)
    ensures
        r@ == a@ + b@,
{
    let mut out: Vec<u8> = Vec::new();
    let mut i: usize = 0;
    while i < a.len()
        invariant
            i <= a@.len(),
            out@ =~= a@.subrange(0, i as int),
        decreases a@.len() - i,
    {
        out.push(a[i]);
        i += 1;
    }
    let mut j: usize = 0;
    while j < b.len()
        invariant
            i == a@.len(),
            j <= b@.len(),
            out@ =~= a@ + b@.subrange(0, j as int),
        decreases b@.len() - j,
    {
        out.push(b[j]);
        j += 1;
    }
    assert(out@ =~= a@ + b@);
    out
}

/// Derive the 32-byte key of a password.
pub fn password_to_key(password: &[u8]) -> (r: Vec<u8>)
    ensures
        r@ == derive_key(password@),
        r@.len() == KEY_LEN,
{
    let d0 = md5(password);
    let second_input = concat(d0.as_slice(), password);
    let d1 = md5(second_input.as_slice());
    concat(d0.as_slice(), d1.as_slice())
}

fn iv_len_of(m: Method) -> (r: usize)
    ensures
        r == iv_len(m),
{
    match m {
        Method::ChaCha20 => 8,
        Method::ChaCha20Ietf => 12,
    }
}

fn copy_range(data: &[u8], from: usize, to: usize) -> (r: Vec<u8>)
    requires
        from <= to <= data@.len(),
    ensures
        r@ == data@.subrange(from as int, to as int),
{
    let mut out: Vec<u8> = Vec::new();
    let mut i: usize = from;
    while i < to
        invariant
            from <= i <= to,
            to <= data@.len(),
            out@ =~= data@.subrange(from as int, i as int),
        decreases to - i,
    {
        out.push(data[i]);
        i += 1;
    }
    out
}

/// Mathematical state of a sending handle.
pub ghost struct EncryptorModel {
    pub method: Method,
    pub key: Seq<u8>,
    pub iv: Seq<u8>,
    pub iv_sent: bool,
    pub pos: nat,
}

/// Mathematical state of a receiving handle: `iv` holds the IV bytes received so far.
pub ghost struct DecryptorModel {
    pub method: Method,
    pub key: Seq<u8>,
    pub iv: Seq<u8>,
    pub pos: nat,
}

pub open spec fn fresh_encryptor(m: Method, key: Seq<u8>, iv: Seq<u8>) -> EncryptorModel {
    EncryptorModel { method: m, key, iv, iv_sent: false, pos: 0 }
}

pub open spec fn fresh_decryptor(m: Method, key: Seq<u8>) -> DecryptorModel {
    DecryptorModel { method: m, key, iv: seq![], pos: 0 }
}

/// What a sending handle in state `e` emits for `data`: its IV first, once, then the
/// data XORed with the keystream from its current position.
pub open spec fn encrypt_output(e: EncryptorModel, data: Seq<u8>) -> Seq<u8> {
    (if e.iv_sent {
        Seq::<u8>::empty()
    } else {
        e.iv
    }) + xor_stream(e.method, e.key, e.iv, e.pos as int, data)
}

pub open spec fn encrypt_next(e: EncryptorModel, data: Seq<u8>) -> EncryptorModel {
    EncryptorModel { iv_sent: true, pos: e.pos + data.len(), ..e }
}

/// How many leading bytes of `data` a receiving handle takes as IV.
pub open spec fn iv_taken(d: DecryptorModel, data: Seq<u8>) -> nat {
    let need = iv_len(d.method) - d.iv.len();
    if data.len() < need {
        data.len()
    } else {
        need as nat
    }
}

/// What a receiving handle in state `d` returns for `data`: the bytes after the IV,
/// XORed with the keystream from its current position.
pub open spec fn decrypt_output(d: DecryptorModel, data: Seq<u8>) -> Seq<u8> {
    let t = iv_taken(d, data) as int;
    xor_stream(d.method, d.key, d.iv + data.take(t), d.pos as int, data.skip(t))
}

pub open spec fn decrypt_next(d: DecryptorModel, data: Seq<u8>) -> DecryptorModel {
    let t = iv_taken(d, data) as int;
    DecryptorModel { iv: d.iv + data.take(t), pos: (d.pos + (data.len() - t)) as nat, ..d }
}

/// Key material of one connection, before it is split into two handles.
pub struct Cipher {
    method: Method,
    key: Vec<u8>,
}

/// The handle that encrypts one direction of a connection.
pub struct Encryptor {
    method: Method,
    key: Vec<u8>,
    iv: Vec<u8>,
    iv_sent: bool,
    pos: u64,
}

/// The handle that decrypts one direction of a connection.
pub struct Decryptor {
    method: Method,
    key: Vec<u8>,
    iv: Vec<u8>,
    pos: u64,
}

impl Cipher {
    pub closed spec fn method(&self) -> Method {
        self.method
    }

    pub closed spec fn key(&self) -> Seq<u8> {
        self.key@
    }

    pub closed spec fn wf(&self) -> bool {
        self.key@.len() == KEY_LEN
    }

    /// Key a cipher by method name and password.
    pub fn new(method: &str, password: &[u8]) -> (r: Result<Cipher, UnsupportedCipher>)
        ensures
            match r {
                Ok(c) => c.wf() && method_of_name(method.spec_bytes()) == Some(c.method())
                    && c.key() == derive_key(password@),
                Err(_) => method_of_name(method.spec_bytes()) is None,
            },
    {
        match method_from_name(method) {
            Ok(m) => Ok(Cipher { method: m, key: password_to_key(password) }),
            Err(e) => Err(e),
        }
    }

    /// Length of the IV this cipher's method uses.
    pub fn iv_len(&self) -> (r: usize)
        ensures
            r == iv_len(self.method()),
    {
        iv_len_of(self.method)
    }

    /// Split into a sending handle, which announces `iv`, and a receiving handle, which
    /// learns the peer's IV from the stream; both start from this key.
    pub fn split(self, iv: Vec<u8>) -> (r: (Encryptor, Decryptor))
        requires
            self.wf(),
            iv@.len() == iv_len(self.method()),
        ensures
            r.0.wf() && r.0@ == fresh_encryptor(self.method(), self.key(), iv@),
            r.1.wf() && r.1@ == fresh_decryptor(self.method(), self.key()),
    {
        let key2 = self.key.clone();
        (
            Encryptor { method: self.method, key: self.key, iv, iv_sent: false, pos: 0 },
            Decryptor { method: self.method, key: key2, iv: Vec::new(), pos: 0 },
        )
    }
}

impl View for Encryptor {
    type V = EncryptorModel;

    closed spec fn view(&self) -> EncryptorModel {
        EncryptorModel {
            method: self.method,
            key: self.key@,
            iv: self.iv@,
            iv_sent: self.iv_sent,
            pos: self.pos as nat,
        }
    }
}

impl View for Decryptor {
    type V = DecryptorModel;

    closed spec fn view(&self) -> DecryptorModel {
        DecryptorModel { method: self.method, key: self.key@, iv: self.iv@, pos: self.pos as nat }
    }
}

impl Encryptor {
    pub closed spec fn wf(&self) -> bool {
        &&& self.key@.len() == KEY_LEN
        &&& self.iv@.len() == iv_len(self.method)
        &&& self.pos <= STREAM_LIMIT
    }

    /// Encrypt the next bytes of the stream. `None`, with the handle unchanged, once the
    /// stream would pass `STREAM_LIMIT` bytes.
    pub fn encrypt(&mut self, data: &[u8]) -> (r: Option<Vec<u8>>)
        requires
            old(self).wf(),
        ensures
            final(self).wf(),
            old(self)@.pos + data@.len() <= STREAM_LIMIT <==> r is Some,
            match r {
                Some(out) => out@ == encrypt_output(old(self)@, data@) && final(self)@
                    == encrypt_next(old(self)@, data@),
                None => final(self)@ == old(self)@,
            },
    {
        if data.len() as u64 > STREAM_LIMIT - self.pos {
            return None;
        }
        let body = apply_keystream(
            self.method,
            self.key.as_slice(),
            self.iv.as_slice(),
            self.pos,
            data,
        );
        let out = if self.iv_sent {
            body
        } else {
            concat(self.iv.as_slice(), body.as_slice())
        };
        self.iv_sent = true;
        self.pos = self.pos + data.len() as u64;
        proof {
            if old(self).iv_sent {
                assert(out@ =~= encrypt_output(old(self)@, data@));
            }
        }
        Some(out)
    }
}

impl Decryptor {
    pub closed spec fn wf(&self) -> bool {
        &&& self.key@.len() == KEY_LEN
        &&& self.iv@.len() <= iv_len(self.method)
        &&& self.pos <= STREAM_LIMIT
    }

    /// Decrypt the next bytes of the stream; the leading bytes complete the peer's IV.
    /// `None`, with the handle unchanged, once the stream would pass `STREAM_LIMIT` bytes.
    pub fn decrypt(&mut self, data: &[u8]) -> (r: Option<Vec<u8>>)
        requires
            old(self).wf(),
        ensures
            final(self).wf(),
            old(self)@.pos + data@.len() - iv_taken(old(self)@, data@) <= STREAM_LIMIT
                <==> r is Some,
            match r {
                Some(out) => out@ == decrypt_output(old(self)@, data@) && final(self)@
                    == decrypt_next(old(self)@, data@),
                None => final(self)@ == old(self)@,
            },
    {
        let need = iv_len_of(self.method) - self.iv.len();
        let take = if data.len() < need {
            data.len()
        } else {
            need
        };
        let rest_len = data.len() - take;
        if rest_len as u64 > STREAM_LIMIT - self.pos {
            return None;
        }
        let head = copy_range(data, 0, take);
        let rest = copy_range(data, take, data.len());
        let iv = concat(self.iv.as_slice(), head.as_slice());
        let out = if rest_len == 0 {
            assert(xor_stream(self.method, self.key@, iv@, self.pos as int, rest@) =~= rest@);
            rest
        } else {
            apply_keystream(self.method, self.key.as_slice(), iv.as_slice(), self.pos, rest.as_slice())
        };
        self.iv = iv;
        self.pos = self.pos + rest_len as u64;
        proof {
            assert(head@ =~= data@.take(take as int));
            assert(rest@ =~= data@.skip(take as int));
        }
        Some(out)
    }
}

proof fn lemma_xor_twice(a: u8, k: u8)
    ensures
        (a ^ k) ^ k == a,
{
    assert((a ^ k) ^ k == a) by (bit_vector);
}

/// A receiving handle fresh from a split decrypts what a fresh sending handle on the same
/// key encrypted: the message comes back unchanged.
pub proof fn lemma_decrypt_encrypt(m: Method, key: Seq<u8>, iv: Seq<u8>, msg: Seq<u8>)
    requires
        iv.len() == iv_len(m),
    ensures
        decrypt_output(fresh_decryptor(m, key), encrypt_output(fresh_encryptor(m, key, iv), msg))
            == msg,
{
    let c = encrypt_output(fresh_encryptor(m, key, iv), msg);
    let d = fresh_decryptor(m, key);
    assert(iv_taken(d, c) == iv.len());
    assert(d.iv + c.take(iv.len() as int) =~= iv);
    assert(c.skip(iv.len() as int) =~= xor_stream(m, key, iv, 0, msg));
    let out = decrypt_output(d, c);
    assert forall|i: int| 0 <= i < msg.len() implies out[i] == msg[i] by {
        lemma_xor_twice(msg[i], keystream_byte(m, key, iv, i));
    }
    assert(out =~= msg);
}

/// A sending and a receiving handle that agree: same method and key, and the receiving
/// side has taken in exactly what the sending side has put out.
pub open spec fn in_sync(e: EncryptorModel, d: DecryptorModel) -> bool {
    &&& e.method == d.method
    &&& e.key == d.key
    &&& e.iv.len() == iv_len(e.method)
    &&& d.pos == e.pos
    &&& if e.iv_sent {
        d.iv == e.iv
    } else {
        d.iv.len() == 0 && e.pos == 0
    }
}

/// Handles fresh from splits of one key are in step.
pub proof fn lemma_fresh_in_sync(m: Method, key: Seq<u8>, iv: Seq<u8>)
    requires
        iv.len() == iv_len(m),
    ensures
        in_sync(fresh_encryptor(m, key, iv), fresh_decryptor(m, key)),
{
}

/// Calls made in matching order keep two handles in step: each message that the sending
/// handle encrypts, the receiving handle decrypts back to the same bytes, and afterwards the
/// two are in step again.
pub proof fn lemma_stream_in_sync(e: EncryptorModel, d: DecryptorModel, msg: Seq<u8>)
    requires
        in_sync(e, d),
    ensures
        decrypt_output(d, encrypt_output(e, msg)) == msg,
        in_sync(encrypt_next(e, msg), decrypt_next(d, encrypt_output(e, msg))),
{
    let c = encrypt_output(e, msg);
    let t = iv_taken(d, c);
    if e.iv_sent {
        assert(t == 0);
        assert(c =~= xor_stream(e.method, e.key, e.iv, e.pos as int, msg));
        assert(d.iv + c.take(0) =~= e.iv);
        assert(c.skip(0) =~= c);
    } else {
        assert(t == e.iv.len());
        assert(d.iv + c.take(t as int) =~= e.iv);
        assert(c.skip(t as int) =~= xor_stream(e.method, e.key, e.iv, e.pos as int, msg));
    }
    let out = decrypt_output(d, c);
    assert forall|i: int| 0 <= i < msg.len() implies out[i] == msg[i] by {
        lemma_xor_twice(msg[i], keystream_byte(e.method, e.key, e.iv, e.pos + i));
    }
    assert(out =~= msg);
}

} // verus!
