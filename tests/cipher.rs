use shadowsocks::cipher::{method_from_name, password_to_key, Cipher, Method, UnsupportedCipher};

fn pair(method: &str, password: &str, iv: Vec<u8>) -> (shadowsocks::cipher::Encryptor, shadowsocks::cipher::Decryptor) {
    Cipher::new(method, password.as_bytes()).unwrap().split(iv)
}

#[test]
fn looks_up_methods_by_name() {
    assert_eq!(method_from_name("chacha20"), Ok(Method::ChaCha20));
    assert_eq!(method_from_name("chacha20-ietf"), Ok(Method::ChaCha20Ietf));
    assert_eq!(method_from_name("rot13"), Err(UnsupportedCipher));
    assert_eq!(method_from_name(""), Err(UnsupportedCipher));
    assert!(Cipher::new("aes-256-cfb-nope", b"pw").is_err());
}

#[test]
fn iv_lengths_follow_the_method() {
    assert_eq!(Cipher::new("chacha20", b"pw").unwrap().iv_len(), 8);
    assert_eq!(Cipher::new("chacha20-ietf", b"pw").unwrap().iv_len(), 12);
}

#[test]
fn key_starts_with_md5_of_password() {
    let key = password_to_key(b"");
    assert_eq!(key.len(), 32);
    let md5_empty = [
        0xd4, 0x1d, 0x8c, 0xd9, 0x8f, 0x00, 0xb2, 0x04, 0xe9, 0x80, 0x09, 0x98, 0xec, 0xf8, 0x42, 0x7e,
    ];
    assert_eq!(&key[..16], &md5_empty[..]);
    assert_ne!(&key[16..], &md5_empty[..]);
}

#[test]
fn decrypt_inverts_encrypt() {
    for (method, iv_len) in [("chacha20", 8usize), ("chacha20-ietf", 12)] {
        let (mut enc, _) = pair(method, "server-password", vec![5u8; iv_len]);
        let (_, mut dec) = pair(method, "server-password", vec![9u8; iv_len]);
        let msg = b"GET / HTTP/1.0\r\n\r\n".to_vec();
        let wire = enc.encrypt(&msg).unwrap();
        assert_eq!(wire.len(), iv_len + msg.len());
        assert_eq!(&wire[..iv_len], &vec![5u8; iv_len][..]);
        assert_ne!(&wire[iv_len..], &msg[..]);
        assert_eq!(dec.decrypt(&wire).unwrap(), msg);
    }
}

#[test]
fn empty_message_round_trips() {
    let (mut enc, _) = pair("chacha20", "k", vec![1u8; 8]);
    let (_, mut dec) = pair("chacha20", "k", vec![2u8; 8]);
    let wire = enc.encrypt(&[]).unwrap();
    assert_eq!(wire, vec![1u8; 8]);
    assert_eq!(dec.decrypt(&wire).unwrap(), Vec::<u8>::new());
}

#[test]
fn stream_survives_any_chunking() {
    let (mut enc, _) = pair("chacha20-ietf", "chunks", vec![3u8; 12]);
    let (_, mut dec) = pair("chacha20-ietf", "chunks", vec![4u8; 12]);
    let msg: Vec<u8> = (0..300u32).map(|i| (i * 7 % 256) as u8).collect();
    let mut wire = enc.encrypt(&msg[..100]).unwrap();
    wire.extend(enc.encrypt(&msg[100..]).unwrap());
    let mut out = Vec::new();
    for piece in wire.chunks(5) {
        out.extend(dec.decrypt(piece).unwrap());
    }
    assert_eq!(out, msg);
}

#[test]
fn keystream_depends_on_password_and_iv() {
    let msg = vec![0u8; 64];
    let (mut a, _) = pair("chacha20", "one", vec![0u8; 8]);
    let (mut b, _) = pair("chacha20", "two", vec![0u8; 8]);
    let (mut c, _) = pair("chacha20", "one", vec![1u8; 8]);
    let wa = a.encrypt(&msg).unwrap();
    let wb = b.encrypt(&msg).unwrap();
    let wc = c.encrypt(&msg).unwrap();
    assert_ne!(wa[8..], wb[8..]);
    assert_ne!(wa[8..], wc[8..]);
}

#[test]
fn wrong_password_does_not_decrypt() {
    let (mut enc, _) = pair("chacha20", "right", vec![6u8; 8]);
    let (_, mut dec) = pair("chacha20", "wrong", vec![6u8; 8]);
    let msg = b"secret payload".to_vec();
    let wire = enc.encrypt(&msg).unwrap();
    assert_ne!(dec.decrypt(&wire).unwrap(), msg);
}
