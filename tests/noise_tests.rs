use circuitchat::frame::recv_frame;
use circuitchat::auth::AuthError;
use circuitchat::noise::{NoiseHandshake, NoisePeer, PeerError, MAX_PLAINTEXT};

fn pair_with_carry(extra: Vec<u8>) -> (NoisePeer, NoisePeer) {
    let mut a = NoiseHandshake::initiator().unwrap();
    let mut b = NoiseHandshake::responder().unwrap();
    let mut m1 = a.write_message().unwrap();
    let first = recv_frame(&mut m1).unwrap().unwrap();
    assert!(m1.is_empty());
    b.read_message(&first).unwrap();
    let mut m2 = b.write_message().unwrap();
    let second = recv_frame(&mut m2).unwrap().unwrap();
    a.read_message(&second).unwrap();
    (a.into_peer(Vec::new()).unwrap(), b.into_peer(extra).unwrap())
}

fn pair() -> (NoisePeer, NoisePeer) {
    pair_with_carry(Vec::new())
}

#[test]
fn seal_then_open_round_trip() {
    let (mut a, mut b) = pair();
    for len in [1usize, 2, 100, 60002, MAX_PLAINTEXT] {
        let p: Vec<u8> = (0..len).map(|i| (i * 7 % 256) as u8).collect();
        let wire = a.send(&p).unwrap();
        assert_eq!(wire.len(), 4 + len + 16);
        b.feed(&wire);
        assert_eq!(b.recv().unwrap().unwrap(), p);
        let back = b.send(&p).unwrap();
        a.feed(&back);
        assert_eq!(a.recv().unwrap().unwrap(), p);
    }
}

#[test]
fn hello_arrives_exactly() {
    let (mut a, mut b) = pair();
    let wire = a.send(b"hello").unwrap();
    b.feed(&wire[..3]);
    assert_eq!(b.recv(), Ok(None));
    b.feed(&wire[3..]);
    assert_eq!(b.recv(), Ok(Some(b"hello".to_vec())));
    assert_eq!(b.recv(), Ok(None));
}

#[test]
fn plaintext_over_limit_is_refused() {
    let (mut a, _b) = pair();
    assert_eq!(a.send(&vec![0u8; MAX_PLAINTEXT + 1]), Err(PeerError::MessageTooLarge));
    assert_eq!(MAX_PLAINTEXT, 65519);
}

#[test]
fn tampered_frame_fails() {
    let (mut a, mut b) = pair();
    let mut wire = a.send(b"secret").unwrap();
    let last = wire.len() - 1;
    wire[last] ^= 1;
    b.feed(&wire);
    assert_eq!(b.recv(), Err(PeerError::Crypto));
}

#[test]
fn oversize_announced_frame_fails() {
    let (_a, mut b) = pair();
    b.feed(&[0, 1, 0, 0]);
    assert_eq!(b.recv(), Err(PeerError::FrameTooLarge));
}

#[test]
fn carry_from_handshake_is_kept() {
    let mut a = NoiseHandshake::initiator().unwrap();
    let mut b = NoiseHandshake::responder().unwrap();
    let mut m1 = a.write_message().unwrap();
    let first = recv_frame(&mut m1).unwrap().unwrap();
    b.read_message(&first).unwrap();
    let mut incoming = b.write_message().unwrap();
    let mut b = b.into_peer(Vec::new()).unwrap();
    incoming.extend_from_slice(&b.send(b"early").unwrap());
    let second = recv_frame(&mut incoming).unwrap().unwrap();
    a.read_message(&second).unwrap();
    let mut a = a.into_peer(incoming).unwrap();
    assert_eq!(a.recv(), Ok(Some(b"early".to_vec())));
}

#[test]
fn auth_without_secrets_passes() {
    let (a, b) = pair();
    let ma = a.auth_plaintext(None, true).unwrap();
    assert_eq!(ma, vec![0x00, b'A', 0]);
    assert_eq!(b.check_auth(None, true, &ma), Ok(()));
}

#[test]
fn auth_with_equal_secrets_passes() {
    let (a, b) = pair();
    let ma = a.auth_plaintext(Some("s3cret"), true).unwrap();
    let mb = b.auth_plaintext(Some("s3cret"), false).unwrap();
    assert_eq!(b.check_auth(Some("s3cret"), true, &ma), Ok(()));
    assert_eq!(a.check_auth(Some("s3cret"), false, &mb), Ok(()));
}

#[test]
fn auth_with_different_secrets_fails() {
    let (a, b) = pair();
    let ma = a.auth_plaintext(Some("one"), true).unwrap();
    assert_eq!(b.check_auth(Some("two"), true, &ma), Err(AuthError::Failed));
}

#[test]
fn auth_proof_for_the_wrong_role_fails() {
    let (a, b) = pair();
    let ma = a.auth_plaintext(Some("same"), true).unwrap();
    assert_eq!(b.check_auth(Some("same"), false, &ma), Err(AuthError::Failed));
}

#[test]
fn auth_on_one_side_only_fails() {
    let (a, b) = pair();
    let ma = a.auth_plaintext(None, true).unwrap();
    assert_eq!(b.check_auth(Some("s"), true, &ma), Err(AuthError::Mismatch));
    let mb = b.auth_plaintext(Some("s"), false).unwrap();
    assert_eq!(a.check_auth(None, false, &mb), Err(AuthError::Mismatch));
    assert_eq!(a.check_auth(None, false, b"hello"), Err(AuthError::Mismatch));
}
