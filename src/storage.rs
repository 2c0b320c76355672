//! The encrypted history store's logic: a key derived from a passphrase
//! with Argon2id, a verifier that tells a wrong passphrase, and messages
//! sealed one by one with XChaCha20-Poly1305 as `nonce(24) || ciphertext`.
//!
//! The rows themselves live in a database that the caller reads and
//! writes; this module turns rows into messages and messages into rows.

use vstd::prelude::*;
use chacha20poly1305::aead::{Aead, KeyInit};
use chacha20poly1305::AeadCore;
use rand::RngCore;
use crate::bytes::{append_bytes, copy_range};
use crate::text::chars_of;
use vstd::utf8::encode_utf8;

verus! {

#[verifier::external_type_specification]
#[verifier::external_body]
pub struct ExArgon2Error(argon2::Error);

#[verifier::external_type_specification]
#[verifier::external_body]
pub struct ExAeadError(chacha20poly1305::aead::Error);

/// The key that Argon2id with default parameters derives from a passphrase
/// and a salt.
pub uninterp spec fn argon2id_key(passphrase: Seq<u8>, salt: Seq<u8>) -> Seq<u8>;

/// What XChaCha20-Poly1305 decryption gives for a key, a nonce and a sealed
/// message: the plaintext, or nothing where the tag does not verify.
pub uninterp spec fn xchacha_open(key: Seq<u8>, nonce: Seq<u8>, sealed: Seq<u8>) -> Option<
    Seq<u8>,
>;

/// Relies on `argon2::Argon2::hash_password_into` with `Argon2::default()`
/// (Argon2id): fills a 32-byte key from the passphrase and the salt. With a
/// 32-byte output it fails only for a passphrase over `u32::MAX` bytes or a
/// salt under 8 or over `u32::MAX` bytes.
#[verifier::external_body]
fn argon2_key(passphrase: &[u8], salt: &[u8]) -> (r: Result<Vec<u8>, argon2::Error>)
    ensures
        r is Ok ==> r->Ok_0@ == argon2id_key(passphrase@, salt@) && r->Ok_0@.len() == 32,
        passphrase@.len() <= u32::MAX && 8 <= salt@.len() <= u32::MAX ==> r is Ok,
{
    let mut key = vec![0u8; 32];
    argon2::Argon2::default().hash_password_into(passphrase, salt, &mut key).map(move |()| key)
}

/// Relies on `chacha20poly1305::XChaCha20Poly1305`'s `Aead::encrypt`: the
/// ciphertext with its 16-byte tag, which decryption under the same key and
/// nonce turns back into the plaintext. It fails only for a plaintext of
/// `u32::MAX` or more 64-byte blocks.
#[verifier::external_body]
fn xchacha_seal(key: &[u8], nonce: &[u8], plaintext: &[u8]) -> (r: Result<
    Vec<u8>,
    chacha20poly1305::aead::Error,
>)
    requires
        key@.len() == 32,
        nonce@.len() == 24,
    ensures
        r is Ok ==> r->Ok_0@.len() == plaintext@.len() + 16,
        r is Ok ==> xchacha_open(key@, nonce@, r->Ok_0@) == Some(plaintext@),
        plaintext@.len() / 64 < u32::MAX ==> r is Ok,
{
    let cipher = chacha20poly1305::XChaCha20Poly1305::new(chacha20poly1305::Key::from_slice(key));
    cipher.encrypt(chacha20poly1305::XNonce::from_slice(nonce), plaintext)
}

/// Relies on `chacha20poly1305::XChaCha20Poly1305`'s `Aead::decrypt`: the
/// plaintext where the tag verifies under the key and nonce.
#[verifier::external_body]
fn xchacha_decrypt(key: &[u8], nonce: &[u8], sealed: &[u8]) -> (r: Option<Vec<u8>>)
    requires
        key@.len() == 32,
        nonce@.len() == 24,
    ensures
        r is Some <==> xchacha_open(key@, nonce@, sealed@) is Some,
        r is Some ==> r->Some_0@ == xchacha_open(key@, nonce@, sealed@)->Some_0,
{
    let cipher = chacha20poly1305::XChaCha20Poly1305::new(chacha20poly1305::Key::from_slice(key));
    cipher.decrypt(chacha20poly1305::XNonce::from_slice(nonce), sealed).ok()
}

/// Relies on `AeadCore::generate_nonce` with the operating system's random
/// source: a fresh 24-byte nonce.
#[verifier::external_body]
fn fresh_nonce() -> (r: Vec<u8>)
    ensures
        r@.len() == 24,
{
    chacha20poly1305::XChaCha20Poly1305::generate_nonce(&mut chacha20poly1305::aead::OsRng).to_vec()
}

/// Relies on `rand::thread_rng` and `RngCore::fill_bytes`: 16 random bytes.
#[verifier::external_body]
fn random_salt() -> (r: Vec<u8>)
    ensures
        r@.len() == 16,
{
    let mut salt = vec![0u8; 16];
    rand::thread_rng().fill_bytes(&mut salt);
    salt
}

pub const NONCE_LEN: usize = 24;

pub const SALT_LEN: usize = 16;

/// The sentinel sealed into the verifier: the bytes of `circuitchat`.
pub open spec fn sentinel() -> Seq<u8> {
    seq![0x63u8, 0x69, 0x72, 0x63, 0x75, 0x69, 0x74, 0x63, 0x68, 0x61, 0x74]
}

#[derive(Debug, Clone, Copy, PartialEq, Eq, Structural)]
pub enum StoreError {
    /// The verifier does not open under the key derived from the passphrase.
    WrongPassphrase,
    /// The stored salt does not have 16 bytes.
    CorruptSalt,
    /// Key derivation failed.
    KeyDerivation,
    /// Sealing failed.
    Encryption,
    /// A stored message does not open under the store's key.
    Decryption,
}

/// What opening a stored blob `nonce(24) || ciphertext` gives.
pub open spec fn open_record(key: Seq<u8>, blob: Seq<u8>) -> Option<Seq<u8>> {
    if blob.len() < NONCE_LEN {
        None
    } else {
        xchacha_open(key, blob.subrange(0, NONCE_LEN as int), blob.subrange(NONCE_LEN as int, blob.len() as int))
    }
}

/// The key of an open store.
pub struct StoreKey {
    key: Vec<u8>,
}

impl StoreKey {
    pub closed spec fn bytes(&self) -> Seq<u8> {
        self.key@
    }

    #[verifier::type_invariant]
    spec fn wf(self) -> bool {
        self.key@.len() == 32
    }

    /// Seals one message under a fresh nonce, as `nonce || ciphertext`.
    pub fn encrypt(&self, plaintext: &[u8]) -> (r: Result<Vec<u8>, StoreError>)
        ensures
            r is Ok ==> open_record(self.bytes(), r->Ok_0@) == Some(plaintext@),
            r is Err ==> r == Err::<Vec<u8>, StoreError>(StoreError::Encryption),
            plaintext@.len() <= u32::MAX ==> r is Ok,
    {
        proof {
            use_type_invariant(self);
        }
        let nonce = fresh_nonce();
        match xchacha_seal(self.key.as_slice(), nonce.as_slice(), plaintext) {
            Ok(ct) => {
                let mut out: Vec<u8> = Vec::new();
                append_bytes(&mut out, nonce.as_slice());
                append_bytes(&mut out, ct.as_slice());
                assert(out@.subrange(0, NONCE_LEN as int) =~= nonce@);
                assert(out@.subrange(NONCE_LEN as int, out@.len() as int) =~= ct@);
                Ok(out)
            },
            Err(_) => Err(StoreError::Encryption),
        }
    }

    /// Opens one stored blob; blobs under 24 bytes are refused.
    pub fn decrypt(&self, blob: &[u8]) -> (r: Result<Vec<u8>, StoreError>)
        ensures
            r is Ok <==> open_record(self.bytes(), blob@) is Some,
            r is Ok ==> r->Ok_0@ == open_record(self.bytes(), blob@)->Some_0,
            r is Err ==> r == Err::<Vec<u8>, StoreError>(StoreError::Decryption),
    {
        proof {
            use_type_invariant(self);
        }
        if blob.len() < NONCE_LEN {
            return Err(StoreError::Decryption);
        }
        let nonce = copy_range(blob, 0, NONCE_LEN);
        let ct = copy_range(blob, NONCE_LEN, blob.len());
        match xchacha_decrypt(self.key.as_slice(), nonce.as_slice(), ct.as_slice()) {
            Some(p) => Ok(p),
            None => Err(StoreError::Decryption),
        }
    }

    /// Turns stored rows into messages ordered by timestamp, rows with equal
    /// timestamps keeping their order; one blob that does not open fails
    /// the whole load.
    pub fn load_history(&self, rows: &Vec<StoredRow>) -> (r: Result<Vec<Message>, StoreError>)
        ensures
            r is Ok <==> forall|i: int|
                0 <= i < rows@.len() ==> #[trigger] open_record(self.bytes(), rows@[i].content@) is Some,
            r is Err ==> r == Err::<Vec<Message>, StoreError>(StoreError::Decryption),
            r is Ok ==> records(r->Ok_0@) == sort_by_time(decoded(self.bytes(), rows@)),
    {
        let ghost all = decoded(self.bytes(), rows@);
        let mut out: Vec<Message> = Vec::new();
        let mut i: usize = 0;
        assert(all.subrange(0, 0) =~= Seq::<Record>::empty());
        assert(records(out@) =~= Seq::<Record>::empty());
        while i < rows.len()
            invariant
                i <= rows@.len(),
                all == decoded(self.bytes(), rows@),
                forall|j: int|
                    0 <= j < i ==> #[trigger] open_record(self.bytes(), rows@[j].content@) is Some,
                records(out@) == sort_by_time(all.subrange(0, i as int)),
            decreases rows@.len() - i,
        {
            let row = &rows[i];
            let content = match self.decrypt(row.content.as_slice()) {
                Ok(c) => c,
                Err(e) => return Err(e),
            };
            let m = Message {
                direction: MessageDirection::from_str(row.direction.as_str()),
                content,
                timestamp: row.timestamp,
            };
            assert(record_of(m) == all[i as int]);
            let k = insertion_point(&out, m.timestamp);
            proof {
                lemma_records_insert(out@, k as int, m);
                assert(all.subrange(0, i + 1).drop_last() =~= all.subrange(0, i as int));
            }
            out.insert(k, m);
            i = i + 1;
        }
        assert(all.subrange(0, i as int) =~= all);
        Ok(out)
    }
}

/// The model of a loaded message.
pub struct Record {
    pub direction: MessageDirection,
    pub content: Seq<u8>,
    pub timestamp: i64,
}

pub open spec fn record_of(m: Message) -> Record {
    Record { direction: m.direction, content: m.content@, timestamp: m.timestamp }
}

pub open spec fn records(ms: Seq<Message>) -> Seq<Record> {
    ms.map_values(|m: Message| record_of(m))
}

/// The messages that the rows hold, in the rows' order.
pub open spec fn decoded(key: Seq<u8>, rows: Seq<StoredRow>) -> Seq<Record> {
    Seq::new(
        rows.len(),
        |i: int|
            Record {
                direction: direction_of(rows[i].direction@),
                content: open_record(key, rows[i].content@)->Some_0,
                timestamp: rows[i].timestamp,
            },
    )
}

/// Where a record with time `t` goes: after every record up to the first
/// later one.
pub open spec fn first_after(s: Seq<Record>, t: i64) -> int
    decreases s.len(),
{
    if s.len() == 0 {
        0
    } else if s[0].timestamp > t {
        0
    } else {
        1 + first_after(s.drop_first(), t)
    }
}

/// The records ordered by time; records with equal times keep their order.
pub open spec fn sort_by_time(s: Seq<Record>) -> Seq<Record>
    decreases s.len(),
{
    if s.len() == 0 {
        s
    } else {
        let rest = sort_by_time(s.drop_last());
        rest.insert(first_after(rest, s.last().timestamp), s.last())
    }
}

pub open spec fn in_time_order(s: Seq<Record>) -> bool {
    forall|i: int, j: int| 0 <= i < j < s.len() ==> s[i].timestamp <= s[j].timestamp
}

proof fn lemma_first_after(s: Seq<Record>, t: i64)
    ensures
        0 <= first_after(s, t) <= s.len(),
        forall|i: int| 0 <= i < first_after(s, t) ==> s[i].timestamp <= t,
        first_after(s, t) < s.len() ==> s[first_after(s, t)].timestamp > t,
    decreases s.len(),
{
    if s.len() > 0 && s[0].timestamp <= t {
        lemma_first_after(s.drop_first(), t);
        assert forall|i: int| 0 <= i < first_after(s, t) implies s[i].timestamp <= t by {
            if i > 0 {
                assert(s[i] == s.drop_first()[i - 1]);
            }
        }
    }
}

proof fn lemma_records_insert(ms: Seq<Message>, k: int, m: Message)
    requires
        0 <= k <= ms.len(),
    ensures
        records(ms.insert(k, m)) == records(ms).insert(k, record_of(m)),
{
    assert(records(ms.insert(k, m)) =~= records(ms).insert(k, record_of(m)));
}

/// Sorting by time puts the records in time order and keeps every one of
/// them.
pub proof fn lemma_sort_by_time(s: Seq<Record>)
    ensures
        in_time_order(sort_by_time(s)),
        sort_by_time(s).to_multiset() == s.to_multiset(),
        sort_by_time(s).len() == s.len(),
    decreases s.len(),
{
    broadcast use vstd::seq_lib::to_multiset_insert, vstd::seq_lib::to_multiset_build;

    if s.len() > 0 {
        let rest = sort_by_time(s.drop_last());
        let t = s.last().timestamp;
        lemma_sort_by_time(s.drop_last());
        lemma_first_after(rest, t);
        let k = first_after(rest, t);
        let out = rest.insert(k, s.last());
        assert forall|i: int, j: int| 0 <= i < j < out.len() implies out[i].timestamp
            <= out[j].timestamp by {
            if j < k {
            } else if j == k {
            } else if i < k {
                if k < rest.len() {
                    assert(rest[k].timestamp > t);
                }
            } else if i == k {
                assert(rest[k].timestamp > t);
            } else {
            }
        }
        assert(s.drop_last().push(s.last()) =~= s);
    }
}

fn insertion_point(out: &Vec<Message>, t: i64) -> (r: usize)
    ensures
        r == first_after(records(out@), t),
        r <= out@.len(),
{
    let ghost rs = records(out@);
    let mut i: usize = 0;
    proof {
        lemma_first_after(rs, t);
        assert(rs.subrange(0, rs.len() as int) =~= rs);
    }
    while i < out.len() && out[i].timestamp <= t
        invariant
            i <= out@.len(),
            rs == records(out@),
            first_after(rs, t) == i + first_after(rs.subrange(i as int, rs.len() as int), t),
        decreases out@.len() - i,
    {
        assert(rs.subrange(i as int, rs.len() as int).drop_first() =~= rs.subrange(
            i + 1,
            rs.len() as int,
        ));
        i = i + 1;
    }
    proof {
        if i < out.len() {
            assert(rs.subrange(i as int, rs.len() as int)[0] == rs[i as int]);
        }
    }
    i
}

/// The salt and verifier that a store keeps beside its messages.
pub struct StoreMeta {
    pub salt: Vec<u8>,
    pub verifier: Vec<u8>,
}

/// A passphrase within Argon2's length limit of `u32::MAX` bytes.
pub open spec fn passphrase_fits(passphrase: Seq<char>) -> bool {
    encode_utf8(passphrase).len() <= u32::MAX
}

/// The store key that Argon2id derives from a passphrase and a salt.
pub fn derive_key(passphrase: &str, salt: &[u8]) -> (r: Result<StoreKey, StoreError>)
    ensures
        r is Ok ==> r->Ok_0.bytes() == argon2id_key(encode_utf8(passphrase@), salt@),
        r is Err ==> r == Err::<StoreKey, StoreError>(StoreError::KeyDerivation),
        passphrase_fits(passphrase@) && 8 <= salt@.len() <= u32::MAX ==> r is Ok,
{
    match argon2_key(passphrase.as_bytes(), salt) {
        Ok(k) => Ok(StoreKey { key: k }),
        Err(_) => Err(StoreError::KeyDerivation),
    }
}

/// Sets up a new store: a random salt, the key that Argon2id derives from
/// the passphrase and that salt, and the sentinel sealed under the key.
pub fn create_store(passphrase: &str) -> (r: Result<(StoreKey, StoreMeta), StoreError>)
    ensures
        r is Ok ==> {
            &&& r->Ok_0.1.salt@.len() == SALT_LEN
            &&& r->Ok_0.0.bytes() == argon2id_key(encode_utf8(passphrase@), r->Ok_0.1.salt@)
            &&& open_record(r->Ok_0.0.bytes(), r->Ok_0.1.verifier@) == Some(sentinel())
        },
        r is Err ==> r == Err::<(StoreKey, StoreMeta), StoreError>(StoreError::KeyDerivation) || r
            == Err::<(StoreKey, StoreMeta), StoreError>(StoreError::Encryption),
        passphrase_fits(passphrase@) ==> r is Ok,
{
    let salt = random_salt();
    let key = match derive_key(passphrase, salt.as_slice()) {
        Ok(k) => k,
        Err(e) => return Err(e),
    };
    let word = sentinel_bytes();
    let verifier = match key.encrypt(word.as_slice()) {
        Ok(v) => v,
        Err(e) => return Err(e),
    };
    Ok((key, StoreMeta { salt, verifier }))
}

fn sentinel_bytes() -> (r: Vec<u8>)
    ensures
        r@ == sentinel(),
{
    let v: Vec<u8> = vec![0x63u8, 0x69, 0x72, 0x63, 0x75, 0x69, 0x74, 0x63, 0x68, 0x61, 0x74];
    assert(v@ =~= sentinel());
    v
}

/// Decides, from the key derived for the passphrase, whether the stored
/// verifier accepts it.
pub fn check_verifier(key: StoreKey, verifier: &[u8]) -> (r: Result<StoreKey, StoreError>)
    ensures
        open_record(key.bytes(), verifier@) is Some ==> r is Ok && r->Ok_0 == key,
        open_record(key.bytes(), verifier@) is None ==> r == Err::<StoreKey, StoreError>(
            StoreError::WrongPassphrase,
        ),
{
    match key.decrypt(verifier) {
        Ok(_) => Ok(key),
        Err(_) => Err(StoreError::WrongPassphrase),
    }
}

/// Opens an existing store from its salt and verifier. A salt that is not
/// 16 bytes is corrupt; a verifier that does not open under the key derived
/// from the passphrase means a wrong passphrase.
pub fn unlock_store(passphrase: &str, salt: &[u8], verifier: &[u8]) -> (r: Result<
    StoreKey,
    StoreError,
>)
    ensures
        salt@.len() != SALT_LEN <==> r == Err::<StoreKey, StoreError>(StoreError::CorruptSalt),
        r is Ok ==> {
            &&& r->Ok_0.bytes() == argon2id_key(encode_utf8(passphrase@), salt@)
            &&& open_record(r->Ok_0.bytes(), verifier@) is Some
        },
        salt@.len() == SALT_LEN && passphrase_fits(passphrase@) ==> {
            &&& r is Ok <==> open_record(argon2id_key(encode_utf8(passphrase@), salt@), verifier@)
                is Some
            &&& r is Err ==> r == Err::<StoreKey, StoreError>(StoreError::WrongPassphrase)
        },
        r == Err::<StoreKey, StoreError>(StoreError::WrongPassphrase) ==> salt@.len() == SALT_LEN
            && open_record(argon2id_key(encode_utf8(passphrase@), salt@), verifier@) is None,
        r is Err ==> r == Err::<StoreKey, StoreError>(StoreError::CorruptSalt) || r == Err::<
            StoreKey,
            StoreError,
        >(StoreError::KeyDerivation) || r == Err::<StoreKey, StoreError>(StoreError::WrongPassphrase),
{
    if salt.len() != SALT_LEN {
        return Err(StoreError::CorruptSalt);
    }
    let key = match derive_key(passphrase, salt) {
        Ok(k) => k,
        Err(e) => return Err(e),
    };
    check_verifier(key, verifier)
}

/// Opens the store: a new one where none exists yet (`existing` is
/// `None`), handing back the salt and verifier to keep; otherwise the
/// existing one from its salt and verifier.
pub fn open_store(passphrase: &str, existing: Option<&StoreMeta>) -> (r: Result<
    (StoreKey, Option<StoreMeta>),
    StoreError,
>)
    ensures
        existing is None ==> {
            &&& passphrase_fits(passphrase@) ==> r is Ok
            &&& r is Ok ==> {
                &&& r->Ok_0.1 is Some
                &&& r->Ok_0.1->Some_0.salt@.len() == SALT_LEN
                &&& r->Ok_0.0.bytes() == argon2id_key(
                    encode_utf8(passphrase@),
                    r->Ok_0.1->Some_0.salt@,
                )
                &&& open_record(r->Ok_0.0.bytes(), r->Ok_0.1->Some_0.verifier@) == Some(
                    sentinel(),
                )
            }
        },
        existing is Some ==> {
            let m = existing->Some_0;
            &&& m.salt@.len() != SALT_LEN <==> r == Err::<
                (StoreKey, Option<StoreMeta>),
                StoreError,
            >(StoreError::CorruptSalt)
            &&& m.salt@.len() == SALT_LEN && passphrase_fits(passphrase@) ==> {
                &&& r is Ok <==> open_record(argon2id_key(encode_utf8(passphrase@), m.salt@), m.verifier@)
                    is Some
                &&& r is Err ==> r == Err::<(StoreKey, Option<StoreMeta>), StoreError>(
                    StoreError::WrongPassphrase,
                )
            }
            &&& r is Ok ==> r->Ok_0.1 is None && r->Ok_0.0.bytes() == argon2id_key(
                encode_utf8(passphrase@),
                m.salt@,
            )
        },
{
    match existing {
        None => match create_store(passphrase) {
            Ok((key, meta)) => Ok((key, Some(meta))),
            Err(e) => Err(e),
        },
        Some(m) => match unlock_store(passphrase, m.salt.as_slice(), m.verifier.as_slice()) {
            Ok(key) => Ok((key, None)),
            Err(e) => Err(e),
        },
    }
}

#[derive(Debug, Clone, Copy, PartialEq, Eq, Structural)]
pub enum MessageDirection {
    Sent,
    Received,
}

/// The direction that a stored direction text stands for: `sent`, or else
/// received.
pub open spec fn direction_of(s: Seq<char>) -> MessageDirection {
    if s == seq!['s', 'e', 'n', 't'] {
        MessageDirection::Sent
    } else {
        MessageDirection::Received
    }
}

impl MessageDirection {
    /// The text stored for this direction.
    pub fn as_str(&self) -> (r: &'static str)
        ensures
            *self == MessageDirection::Sent ==> r@ == seq!['s', 'e', 'n', 't'],
            *self == MessageDirection::Received ==> r@ == seq![
                'r',
                'e',
                'c',
                'e',
                'i',
                'v',
                'e',
                'd',
            ],
    {
        match self {
            MessageDirection::Sent => {
                proof {
                    reveal_strlit("sent");
                }
                "sent"
            },
            MessageDirection::Received => {
                proof {
                    reveal_strlit("received");
                }
                "received"
            },
        }
    }

    /// Reads a stored direction text back.
    pub fn from_str(s: &str) -> (r: MessageDirection)
        ensures
            r == direction_of(s@),
    {
        let cs = chars_of(s);
        if cs.len() == 4 && cs[0] == 's' && cs[1] == 'e' && cs[2] == 'n' && cs[3] == 't' {
            assert(s@ =~= seq!['s', 'e', 'n', 't']);
            MessageDirection::Sent
        } else {
            MessageDirection::Received
        }
    }
}

/// One row of the message table as read from the database.
pub struct StoredRow {
    pub direction: String,
    pub content: Vec<u8>,
    pub timestamp: i64,
}

/// One message of the history.
pub struct Message {
    pub direction: MessageDirection,
    pub content: Vec<u8>,
    pub timestamp: i64,
}

proof fn lemma_first_after_all_earlier(s: Seq<Record>, t: i64)
    requires
        forall|i: int| 0 <= i < s.len() ==> s[i].timestamp <= t,
    ensures
        first_after(s, t) == s.len(),
    decreases s.len(),
{
    if s.len() > 0 {
        assert forall|i: int| 0 <= i < s.drop_first().len() implies s.drop_first()[i].timestamp
            <= t by {
            assert(s.drop_first()[i] == s[i + 1]);
        }
        lemma_first_after_all_earlier(s.drop_first(), t);
    }
}

/// Records already in time order stay as they are: rows written with times
/// that never go back come back in the order they were written.
pub proof fn lemma_sorted_unchanged(s: Seq<Record>)
    requires
        in_time_order(s),
    ensures
        sort_by_time(s) == s,
    decreases s.len(),
{
    if s.len() > 0 {
        let front = s.drop_last();
        assert(in_time_order(front));
        lemma_sorted_unchanged(front);
        lemma_first_after_all_earlier(front, s.last().timestamp);
        assert(front.insert(front.len() as int, s.last()) =~= s);
    }
}

/// Reading back what was written: where each row holds a blob that `encrypt`
/// produced under the store's key for a plaintext, loading succeeds, every
/// written plaintext comes back byte for byte with its direction and time,
/// none is lost or added, and they come back in time order.
pub proof fn lemma_history_round_trip(key: Seq<u8>, rows: Seq<StoredRow>, written: Seq<Seq<u8>>)
    requires
        rows.len() == written.len(),
        forall|i: int| 0 <= i < rows.len() ==> open_record(key, #[trigger] rows[i].content@) == Some(written[i]),
    ensures
        forall|i: int| 0 <= i < rows.len() ==> #[trigger] open_record(key, rows[i].content@) is Some,
        forall|i: int|
            0 <= i < rows.len() ==> (#[trigger] decoded(key, rows)[i]) == (Record {
                direction: direction_of(rows[i].direction@),
                content: written[i],
                timestamp: rows[i].timestamp,
            }),
        sort_by_time(decoded(key, rows)).to_multiset() == decoded(key, rows).to_multiset(),
        in_time_order(sort_by_time(decoded(key, rows))),
        (forall|i: int, j: int| 0 <= i < j < rows.len() ==> rows[i].timestamp <= rows[j].timestamp)
            ==> sort_by_time(decoded(key, rows)) == decoded(key, rows),
{
    lemma_sort_by_time(decoded(key, rows));
    if forall|i: int, j: int| 0 <= i < j < rows.len() ==> rows[i].timestamp <= rows[j].timestamp {
        lemma_sorted_unchanged(decoded(key, rows));
    }
}

} // verus!
