//! The secure session: a Noise_NN_25519_ChaChaPoly_BLAKE2s handshake and the
//! transport that seals each plaintext into exactly one frame.
//!
//! Nothing here touches a stream. Outgoing messages come back as the bytes
//! of one frame to write; incoming bytes are fed into a carry buffer from
//! which whole frames are taken and opened.

use vstd::prelude::*;
use crate::frame::{frame_bytes, lemma_frame_round_trip, parse_frame, recv_frame, send_frame, FrameError, FrameParse, MAX_FRAME};

verus! {

#[verifier::external_type_specification]
#[verifier::external_body]
pub struct ExHandshakeState(snow::HandshakeState);

#[verifier::external_type_specification]
#[verifier::external_body]
pub struct ExTransportState(snow::TransportState);

#[verifier::external_type_specification]
#[verifier::external_body]
pub struct ExSnowError(snow::Error);

/// The Noise protocol every session runs.
pub const PATTERN: &'static str = "Noise_NN_25519_ChaChaPoly_BLAKE2s";

/// The AEAD tag that sealing adds to each message.
pub const TAG_LEN: usize = 16;

/// The largest plaintext that still seals into one frame.
pub const MAX_PLAINTEXT: usize = 65519;

/// Relies on `snow::params::NoiseParams`'s `FromStr` and
/// `snow::Builder::build_initiator` with the default resolver: a fresh
/// initiator handshake for the protocol `name`. For this library's pattern
/// (no static keys, X25519, ChaChaPoly, BLAKE2s) parsing and building
/// cannot fail.
#[verifier::external_body]
fn build_initiator(name: &str) -> (r: Result<snow::HandshakeState, snow::Error>)
    ensures
        name@ == PATTERN@ ==> r is Ok,
{
    let params: snow::params::NoiseParams = name.parse()?;
    snow::Builder::new(params).build_initiator()
}

/// Relies on `snow::params::NoiseParams`'s `FromStr` and
/// `snow::Builder::build_responder` with the default resolver: a fresh
/// responder handshake for the protocol `name`, which for this library's
/// pattern cannot fail.
#[verifier::external_body]
fn build_responder(name: &str) -> (r: Result<snow::HandshakeState, snow::Error>)
    ensures
        name@ == PATTERN@ ==> r is Ok,
{
    let params: snow::params::NoiseParams = name.parse()?;
    snow::Builder::new(params).build_responder()
}

/// Relies on `snow::HandshakeState::write_message`: writes the next
/// handshake message, with an empty payload, into a buffer of 65535 bytes
/// and returns how many it wrote.
#[verifier::external_body]
fn handshake_write(hs: &mut snow::HandshakeState) -> (r: Result<Vec<u8>, snow::Error>)
    ensures
        r is Ok ==> r->Ok_0@.len() <= 65535,
{
    let mut buf = vec![0u8; 65535];
    let n = hs.write_message(&[], &mut buf)?;
    buf.truncate(n);
    Ok(buf)
}

/// Relies on `snow::HandshakeState::read_message`: consumes the peer's
/// handshake message; its (empty) payload is dropped.
#[verifier::external_body]
fn handshake_read(hs: &mut snow::HandshakeState, msg: &[u8]) -> (r: Result<usize, snow::Error>) {
    let mut payload = vec![0u8; 65535];
    hs.read_message(msg, &mut payload)
}

/// Relies on `snow::HandshakeState::get_handshake_hash`: the hash that binds
/// both sides of this handshake.
#[verifier::external_body]
fn handshake_hash(hs: &snow::HandshakeState) -> (r: Vec<u8>) {
    hs.get_handshake_hash().to_vec()
}

/// Relies on `snow::HandshakeState::into_transport_mode`.
#[verifier::external_body]
fn into_transport(hs: snow::HandshakeState) -> (r: Result<snow::TransportState, snow::Error>) {
    hs.into_transport_mode()
}

/// Relies on `snow::TransportState::write_message`: a payload whose sealed
/// form (payload and a 16-byte tag) would exceed 65535 bytes is refused;
/// otherwise it returns the number of bytes written, the payload's length
/// plus 16.
#[verifier::external_body]
fn transport_seal(t: &mut snow::TransportState, plaintext: &[u8]) -> (r: Result<
    Vec<u8>,
    snow::Error,
>)
    ensures
        plaintext@.len() + 16 > 65535 ==> r is Err,
        r is Ok ==> r->Ok_0@.len() == plaintext@.len() + 16,
{
    let mut out = vec![0u8; plaintext.len() + 16];
    let n = t.write_message(plaintext, &mut out)?;
    out.truncate(n);
    Ok(out)
}

/// Relies on `snow::TransportState::read_message`: opens a sealed message;
/// on success the plaintext is the message less its 16-byte tag.
#[verifier::external_body]
fn transport_open(t: &mut snow::TransportState, sealed: &[u8]) -> (r: Result<Vec<u8>, snow::Error>)
    ensures
        r is Ok ==> sealed@.len() >= 16 && r->Ok_0@.len() == sealed@.len() - 16,
{
    let mut out = vec![0u8; sealed.len()];
    let n = t.read_message(sealed, &mut out)?;
    out.truncate(n);
    Ok(out)
}

#[derive(Debug, Clone, Copy, PartialEq, Eq, Structural)]
pub enum PeerError {
    /// Building the handshake, a handshake step, sealing or opening failed.
    Crypto,
    /// The peer announced a frame over `MAX_FRAME`.
    FrameTooLarge,
    /// The plaintext exceeds `MAX_PLAINTEXT`.
    MessageTooLarge,
}

/// `w` is one whole frame whose payload seals `n` plaintext bytes.
pub open spec fn is_sealed_frame(w: Seq<u8>, n: int) -> bool {
    &&& parse_frame(w) is Frame
    &&& parse_frame(w)->Frame_0.len() == n + TAG_LEN
    &&& parse_frame(w)->Frame_1.len() == 0
}

/// The bytes of one frame carrying `payload`, which must fit a frame.
fn framed(payload: &[u8]) -> (r: Vec<u8>)
    requires
        payload@.len() <= MAX_FRAME,
    ensures
        r@ == frame_bytes(payload@),
        parse_frame(r@) == FrameParse::Frame(payload@, Seq::<u8>::empty()),
{
    let mut out: Vec<u8> = Vec::new();
    let _ = send_frame(&mut out, payload);
    proof {
        assert(out@ =~= frame_bytes(payload@) + Seq::<u8>::empty());
        lemma_frame_round_trip(payload@, Seq::<u8>::empty());
    }
    out
}

/// One side of a Noise handshake in progress.
pub struct NoiseHandshake {
    state: snow::HandshakeState,
}

impl NoiseHandshake {
    /// The side that connects: it writes the first handshake message.
    pub fn initiator() -> (r: Result<NoiseHandshake, PeerError>)
        ensures
            r is Ok,
    {
        match build_initiator(PATTERN) {
            Ok(state) => Ok(NoiseHandshake { state }),
            Err(_) => Err(PeerError::Crypto),
        }
    }

    /// The side that accepts: it reads the first handshake message.
    pub fn responder() -> (r: Result<NoiseHandshake, PeerError>)
        ensures
            r is Ok,
    {
        match build_responder(PATTERN) {
            Ok(state) => Ok(NoiseHandshake { state }),
            Err(_) => Err(PeerError::Crypto),
        }
    }

    /// The next handshake message, as the bytes of one frame.
    pub fn write_message(&mut self) -> (r: Result<Vec<u8>, PeerError>)
        ensures
            r is Ok ==> parse_frame(r->Ok_0@) is Frame && parse_frame(r->Ok_0@)->Frame_1.len()
                == 0,
            r is Err ==> r == Err::<Vec<u8>, PeerError>(PeerError::Crypto),
    {
        match handshake_write(&mut self.state) {
            Ok(msg) => Ok(framed(msg.as_slice())),
            Err(_) => Err(PeerError::Crypto),
        }
    }

    /// Consumes the payload of the peer's handshake frame.
    pub fn read_message(&mut self, payload: &[u8]) -> (r: Result<(), PeerError>)
        ensures
            r is Err ==> r == Err::<(), PeerError>(PeerError::Crypto),
    {
        match handshake_read(&mut self.state, payload) {
            Ok(_) => Ok(()),
            Err(_) => Err(PeerError::Crypto),
        }
    }

    /// Finishes the handshake. `carry` holds whatever bytes already arrived
    /// after the last handshake frame; they become the session's first
    /// pending input.
    pub fn into_peer(self, carry: Vec<u8>) -> (r: Result<NoisePeer, PeerError>)
        ensures
            r is Ok ==> r->Ok_0.pending() == carry@,
            r is Err ==> r == Err::<NoisePeer, PeerError>(PeerError::Crypto),
    {
        let hash = handshake_hash(&self.state);
        match into_transport(self.state) {
            Ok(transport) => Ok(NoisePeer { transport, read_buf: carry, handshake_hash: hash }),
            Err(_) => Err(PeerError::Crypto),
        }
    }
}

/// An established session: the transport state and the bytes received but
/// not yet taken as frames.
pub struct NoisePeer {
    transport: snow::TransportState,
    read_buf: Vec<u8>,
    handshake_hash: Vec<u8>,
}

impl NoisePeer {
    /// Bytes received that do not yet form a taken frame.
    pub closed spec fn pending(&self) -> Seq<u8> {
        self.read_buf@
    }

    /// The handshake hash of this session.
    pub closed spec fn binding(&self) -> Seq<u8> {
        self.handshake_hash@
    }

    /// The handshake hash, which binds what is derived from it to this
    /// session.
    pub fn handshake_hash(&self) -> (r: &Vec<u8>)
        ensures
            r@ == self.binding(),
    {
        &self.handshake_hash
    }

    /// Adds bytes read from the stream to the pending input.
    pub fn feed(&mut self, bytes: &[u8])
        ensures
            final(self).pending() == old(self).pending() + bytes@,
            final(self).binding() == old(self).binding(),
    {
        crate::bytes::append_bytes(&mut self.read_buf, bytes);
    }

    /// Seals `plaintext` into the bytes of exactly one frame.
    pub fn send(&mut self, plaintext: &[u8]) -> (r: Result<Vec<u8>, PeerError>)
        ensures
            plaintext@.len() > MAX_PLAINTEXT ==> r == Err::<Vec<u8>, PeerError>(
                PeerError::MessageTooLarge,
            ),
            plaintext@.len() <= MAX_PLAINTEXT && r is Err ==> r == Err::<Vec<u8>, PeerError>(
                PeerError::Crypto,
            ),
            r is Ok ==> is_sealed_frame(r->Ok_0@, plaintext@.len() as int),
            final(self).pending() == old(self).pending(),
            final(self).binding() == old(self).binding(),
    {
        if plaintext.len() > MAX_PLAINTEXT {
            return Err(PeerError::MessageTooLarge);
        }
        match transport_seal(&mut self.transport, plaintext) {
            Ok(sealed) => Ok(framed(sealed.as_slice())),
            Err(_) => Err(PeerError::Crypto),
        }
    }

    /// Takes the next whole frame from the pending input and opens it.
    /// `Ok(None)` means more bytes are needed; a frame is never taken in
    /// part.
    pub fn recv(&mut self) -> (r: Result<Option<Vec<u8>>, PeerError>)
        ensures
            final(self).binding() == old(self).binding(),
            parse_frame(old(self).pending()) is Incomplete ==> r == Ok::<
                Option<Vec<u8>>,
                PeerError,
            >(None) && final(self).pending() == old(self).pending(),
            parse_frame(old(self).pending()) is TooLarge ==> r == Err::<
                Option<Vec<u8>>,
                PeerError,
            >(PeerError::FrameTooLarge),
            parse_frame(old(self).pending()) is Frame ==> {
                &&& final(self).pending() == parse_frame(old(self).pending())->Frame_1
                &&& r is Err ==> r == Err::<Option<Vec<u8>>, PeerError>(PeerError::Crypto)
                &&& r is Ok ==> r->Ok_0 is Some && r->Ok_0->Some_0@.len() + TAG_LEN == parse_frame(
                    old(self).pending(),
                )->Frame_0.len()
            },
    {
        match recv_frame(&mut self.read_buf) {
            Ok(Some(sealed)) => match transport_open(&mut self.transport, sealed.as_slice()) {
                Ok(plain) => Ok(Some(plain)),
                Err(_) => Err(PeerError::Crypto),
            },
            Ok(None) => Ok(None),
            Err(FrameError::TooLarge) => Err(PeerError::FrameTooLarge),
        }
    }
}

} // verus!
