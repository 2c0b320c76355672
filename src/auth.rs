//! The optional authentication that follows the handshake: when both
//! sides hold a shared secret, each proves it knows the secret by sealing
//! its own role under a key derived from the secret and the session's
//! handshake hash; when one side holds a secret and the other does not, the
//! session is refused.

use vstd::prelude::*;
use vstd::utf8::encode_utf8;
use crate::bytes::copy_range;
use crate::noise::NoisePeer;
use crate::storage::{argon2id_key, derive_key, open_record, passphrase_fits, StoreKey};

verus! {

/// The tag of the authentication message: control prefix and `A`.
pub open spec fn auth_header(proving: bool) -> Seq<u8> {
    seq![0x00u8, 0x41u8, if proving { 1u8 } else { 0u8 }]
}

/// What each side seals to prove it knows the secret: its own role.
pub open spec fn role_label(initiator: bool) -> Seq<u8> {
    if initiator {
        seq![0x69u8, 0x6e, 0x69, 0x74, 0x69, 0x61, 0x74, 0x6f, 0x72]
    } else {
        seq![0x72u8, 0x65, 0x73, 0x70, 0x6f, 0x6e, 0x64, 0x65, 0x72]
    }
}

/// The part of the handshake hash that salts the authentication key.
pub open spec fn auth_salt(binding: Seq<u8>) -> Seq<u8> {
    binding.subrange(0, 16)
}

/// The authentication key both sides derive from the shared secret.
pub open spec fn auth_key(secret: Seq<char>, binding: Seq<u8>) -> Seq<u8> {
    argon2id_key(encode_utf8(secret), auth_salt(binding))
}

/// The peer's authentication message is acceptable: both sides run without
/// a secret, or both hold one and the peer's proof opens under the key of
/// ours to the peer's role.
pub open spec fn auth_accepts(
    secret: Option<Seq<char>>,
    binding: Seq<u8>,
    peer_is_initiator: bool,
    msg: Seq<u8>,
) -> bool {
    match secret {
        None => msg == auth_header(false),
        Some(s) => {
            &&& msg.len() >= 3
            &&& msg.subrange(0, 3) == auth_header(true)
            &&& binding.len() >= 16
            &&& open_record(auth_key(s, binding), msg.subrange(3, msg.len() as int)) == Some(
                role_label(peer_is_initiator),
            )
        },
    }
}

#[derive(Debug, Clone, Copy, PartialEq, Eq, Structural)]
pub enum AuthError {
    /// The peer's message is not an authentication message, or one side
    /// holds a secret and the other does not.
    Mismatch,
    /// The peer's proof does not verify under our secret.
    Failed,
    /// Deriving the key or sealing the proof failed.
    Crypto,
}

fn role_bytes(initiator: bool) -> (r: Vec<u8>)
    ensures
        r@ == role_label(initiator),
{
    let v: Vec<u8> = if initiator {
        vec![0x69u8, 0x6e, 0x69, 0x74, 0x69, 0x61, 0x74, 0x6f, 0x72]
    } else {
        vec![0x72u8, 0x65, 0x73, 0x70, 0x6f, 0x6e, 0x64, 0x65, 0x72]
    };
    assert(v@ =~= role_label(initiator));
    v
}

fn header_bytes(proving: bool) -> (r: Vec<u8>)
    ensures
        r@ == auth_header(proving),
{
    let v: Vec<u8> = vec![0x00u8, 0x41u8, if proving { 1u8 } else { 0u8 }];
    assert(v@ =~= auth_header(proving));
    v
}

fn auth_store_key(secret: &str, binding: &Vec<u8>) -> (r: Result<StoreKey, AuthError>)
    ensures
        binding@.len() < 16 ==> r == Err::<StoreKey, AuthError>(AuthError::Failed),
        binding@.len() >= 16 && r is Err ==> r == Err::<StoreKey, AuthError>(AuthError::Crypto),
        binding@.len() >= 16 && passphrase_fits(secret@) ==> r is Ok,
        r is Ok ==> r->Ok_0.bytes() == auth_key(secret@, binding@),
{
    if binding.len() < 16 {
        return Err(AuthError::Failed);
    }
    let salt = copy_range(binding.as_slice(), 0, 16);
    match derive_key(secret, salt.as_slice()) {
        Ok(k) => Ok(k),
        Err(_) => Err(AuthError::Crypto),
    }
}

/// Whether `proof` opens under `key` to the role of the peer.
pub fn verify_proof(key: &StoreKey, peer_is_initiator: bool, proof: &[u8]) -> (r: bool)
    ensures
        r == (open_record(key.bytes(), proof@) == Some(role_label(peer_is_initiator))),
{
    let expected = role_bytes(peer_is_initiator);
    match key.decrypt(proof) {
        Ok(opened) => crate::bytes::bytes_equal(opened.as_slice(), expected.as_slice()),
        Err(_) => false,
    }
}

impl NoisePeer {
    /// The plaintext of our authentication message: the header alone
    /// without a secret, or the header and our role sealed under the key
    /// derived from the secret and this session's handshake hash.
    pub fn auth_plaintext(&self, secret: Option<&str>, initiator: bool) -> (r: Result<
        Vec<u8>,
        AuthError,
    >)
        ensures
            secret is None ==> r is Ok && r->Ok_0@ == auth_header(false),
            secret is Some && r is Ok ==> {
                &&& r->Ok_0@.len() >= 3
                &&& r->Ok_0@.subrange(0, 3) == auth_header(true)
                &&& open_record(
                    auth_key(secret->Some_0@, self.binding()),
                    r->Ok_0@.subrange(3, r->Ok_0@.len() as int),
                ) == Some(role_label(initiator))
            },
            secret is Some && r is Err ==> r == Err::<Vec<u8>, AuthError>(AuthError::Crypto) || (
            self.binding().len() < 16 && r == Err::<Vec<u8>, AuthError>(AuthError::Failed)),
            secret is Some && self.binding().len() >= 16 && passphrase_fits(secret->Some_0@) ==> r is Ok,
    {
        match secret {
            None => Ok(header_bytes(false)),
            Some(s) => {
                let key = match auth_store_key(s, self.handshake_hash()) {
                    Ok(k) => k,
                    Err(e) => return Err(e),
                };
                let role = role_bytes(initiator);
                let proof = match key.encrypt(role.as_slice()) {
                    Ok(p) => p,
                    Err(_) => return Err(AuthError::Crypto),
                };
                let mut msg = header_bytes(true);
                crate::bytes::append_bytes(&mut msg, proof.as_slice());
                assert(msg@.subrange(0, 3) =~= auth_header(true));
                assert(msg@.subrange(3, msg@.len() as int) =~= proof@);
                Ok(msg)
            },
        }
    }

    /// Checks the peer's authentication message against our own secret.
    pub fn check_auth(&self, secret: Option<&str>, peer_is_initiator: bool, msg: &[u8]) -> (r:
        Result<(), AuthError>)
        ensures
            r is Ok ==> auth_accepts(
                match secret {
                    Some(s) => Some(s@),
                    None => None,
                },
                self.binding(),
                peer_is_initiator,
                msg@,
            ),
            secret is None ==> (r is Ok <==> msg@ == auth_header(false)),
            secret is None && r is Err ==> r == Err::<(), AuthError>(AuthError::Mismatch),
            secret is Some && !(msg@.len() >= 3 && msg@.subrange(0, 3) == auth_header(true)) ==> r
                == Err::<(), AuthError>(AuthError::Mismatch),
            secret is Some && auth_accepts(Some(secret->Some_0@), self.binding(), peer_is_initiator, msg@)
                ==> r is Ok || r == Err::<(), AuthError>(AuthError::Crypto),
            secret is Some && self.binding().len() >= 16 && passphrase_fits(secret->Some_0@) ==> {
                &&& r is Ok <==> auth_accepts(
                    Some(secret->Some_0@),
                    self.binding(),
                    peer_is_initiator,
                    msg@,
                )
                &&& r is Err && msg@.len() >= 3 && msg@.subrange(0, 3) == auth_header(true) ==> r
                    == Err::<(), AuthError>(AuthError::Failed)
            },
    {
        let header_ok = msg.len() >= 3 && msg[0] == 0x00u8 && msg[1] == 0x41u8;
        match secret {
            None => {
                if header_ok && msg.len() == 3 && msg[2] == 0u8 {
                    assert(msg@ =~= auth_header(false));
                    Ok(())
                } else {
                    proof {
                        if msg@ == auth_header(false) {
                            assert(msg@[2] == 0u8);
                        }
                    }
                    Err(AuthError::Mismatch)
                }
            },
            Some(s) => {
                if !(header_ok && msg[2] == 1u8) {
                    proof {
                        if msg@.len() >= 3 && msg@.subrange(0, 3) == auth_header(true) {
                            assert(msg@[0] == msg@.subrange(0, 3)[0]);
                            assert(msg@[1] == msg@.subrange(0, 3)[1]);
                            assert(msg@[2] == msg@.subrange(0, 3)[2]);
                        }
                    }
                    return Err(AuthError::Mismatch);
                }
                assert(msg@.subrange(0, 3) =~= auth_header(true));
                let key = match auth_store_key(s, self.handshake_hash()) {
                    Ok(k) => k,
                    Err(e) => return Err(e),
                };
                let proof_bytes = copy_range(msg, 3, msg.len());
                if verify_proof(&key, peer_is_initiator, proof_bytes.as_slice()) {
                    Ok(())
                } else {
                    Err(AuthError::Failed)
                }
            },
        }
    }
}

} // verus!
