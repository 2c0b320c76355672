//! The decisions of an interactive session: which line is which command,
//! and the file-transfer state machines of sender and receiver.
//!
//! The caller performs every outside step (sending a frame, opening or
//! deleting a file, reading a chunk) and reports back; the state here says
//! what is pending and active, and each step says what to do next.

use vstd::prelude::*;
use crate::files::CHUNK_SIZE;
use crate::protocol::{encode_spec, lemma_text_round_trip, parse_spec, MessageView, ParsedMessage};
use vstd::utf8::{encode_scalar, encode_utf8, has_width_1_encoding, has_width_2_encoding, has_width_3_encoding};
use crate::text::chars_of;

verus! {

/// A file offered but not yet accepted or rejected.
pub struct FileOffer {
    pub name: String,
    pub size: u64,
}

/// A transfer in progress; `done` counts the bytes sent or received.
pub struct Transfer {
    pub name: String,
    pub size: u64,
    pub done: u64,
}

pub struct OfferView {
    pub name: Seq<char>,
    pub size: u64,
}

pub struct TransferView {
    pub name: Seq<char>,
    pub size: u64,
    pub done: u64,
}

impl View for FileOffer {
    type V = OfferView;

    open spec fn view(&self) -> OfferView {
        OfferView { name: self.name@, size: self.size }
    }
}

impl View for Transfer {
    type V = TransferView;

    open spec fn view(&self) -> TransferView {
        TransferView { name: self.name@, size: self.size, done: self.done }
    }
}

/// Everything a session knows about file transfers: at most one offer of
/// ours waiting for the peer, one outgoing transfer, one offer of the peer
/// waiting for the user, and one incoming transfer.
pub struct Transfers {
    pub pending_outgoing: Option<FileOffer>,
    pub outgoing: Option<Transfer>,
    pub pending_incoming: Option<FileOffer>,
    pub incoming: Option<Transfer>,
}

pub struct TransfersView {
    pub pending_outgoing: Option<OfferView>,
    pub outgoing: Option<TransferView>,
    pub pending_incoming: Option<OfferView>,
    pub incoming: Option<TransferView>,
}

pub open spec fn offer_view(o: Option<FileOffer>) -> Option<OfferView> {
    match o {
        Some(f) => Some(f@),
        None => None,
    }
}

pub open spec fn transfer_view(o: Option<Transfer>) -> Option<TransferView> {
    match o {
        Some(t) => Some(t@),
        None => None,
    }
}

impl View for Transfers {
    type V = TransfersView;

    open spec fn view(&self) -> TransfersView {
        TransfersView {
            pending_outgoing: offer_view(self.pending_outgoing),
            outgoing: transfer_view(self.outgoing),
            pending_incoming: offer_view(self.pending_incoming),
            incoming: transfer_view(self.incoming),
        }
    }
}

/// No transfer has moved more bytes than it announced.
pub open spec fn within_size(t: Option<TransferView>) -> bool {
    t is Some ==> t->Some_0.done <= t->Some_0.size
}

impl TransfersView {
    pub open spec fn wf(self) -> bool {
        within_size(self.outgoing) && within_size(self.incoming)
    }
}

/// What the caller does after a message from the peer.
pub enum PeerEvent {
    /// Show the text (and persist it where history is kept).
    Text(String),
    /// The peer offers a file; it is now the pending incoming offer.
    Offered { name: String, size: u64 },
    /// Append these bytes to the incoming file.
    Write(Vec<u8>),
    /// A chunk went past the announced size: the incoming transfer is
    /// dropped and its partial file must be deleted.
    Overflow { name: String },
    /// The incoming file is complete: flush and close it.
    Completed { name: String, size: u64 },
    /// The peer cancelled the incoming transfer: delete the partial file.
    CancelledIncoming { name: String },
    /// The peer cancelled our outgoing transfer: stop sending.
    CancelledOutgoing { name: String },
    /// The peer accepted our offer: start streaming the file.
    Accepted { name: String, size: u64 },
    /// The peer rejected our offer.
    Rejected { name: String },
    /// Nothing to do.
    Ignored,
}

pub enum PeerEventView {
    Text(Seq<char>),
    Offered { name: Seq<char>, size: u64 },
    Write(Seq<u8>),
    Overflow { name: Seq<char> },
    Completed { name: Seq<char>, size: u64 },
    CancelledIncoming { name: Seq<char> },
    CancelledOutgoing { name: Seq<char> },
    Accepted { name: Seq<char>, size: u64 },
    Rejected { name: Seq<char> },
    Ignored,
}

impl View for PeerEvent {
    type V = PeerEventView;

    open spec fn view(&self) -> PeerEventView {
        match self {
            PeerEvent::Text(s) => PeerEventView::Text(s@),
            PeerEvent::Offered { name, size } => PeerEventView::Offered { name: name@, size: *size },
            PeerEvent::Write(d) => PeerEventView::Write(d@),
            PeerEvent::Overflow { name } => PeerEventView::Overflow { name: name@ },
            PeerEvent::Completed { name, size } => PeerEventView::Completed {
                name: name@,
                size: *size,
            },
            PeerEvent::CancelledIncoming { name } => PeerEventView::CancelledIncoming {
                name: name@,
            },
            PeerEvent::CancelledOutgoing { name } => PeerEventView::CancelledOutgoing {
                name: name@,
            },
            PeerEvent::Accepted { name, size } => PeerEventView::Accepted {
                name: name@,
                size: *size,
            },
            PeerEvent::Rejected { name } => PeerEventView::Rejected { name: name@ },
            PeerEvent::Ignored => PeerEventView::Ignored,
        }
    }
}

/// The transfer state after a message from the peer.
pub open spec fn state_after(s: TransfersView, m: MessageView) -> TransfersView {
    match m {
        MessageView::FileOffer { name, size } => TransfersView {
            pending_incoming: Some(OfferView { name, size }),
            ..s
        },
        MessageView::FileChunk(d) => match s.incoming {
            Some(t) => if d.len() <= t.size - t.done {
                TransfersView {
                    incoming: Some(TransferView { done: (t.done + d.len()) as u64, ..t }),
                    ..s
                }
            } else {
                TransfersView { incoming: None, ..s }
            },
            None => s,
        },
        MessageView::FileDone => TransfersView { incoming: None, ..s },
        MessageView::FileCancel => if s.incoming is Some {
            TransfersView { incoming: None, ..s }
        } else {
            TransfersView { outgoing: None, ..s }
        },
        MessageView::FileAccept => match s.pending_outgoing {
            Some(o) => TransfersView {
                pending_outgoing: None,
                outgoing: Some(TransferView { name: o.name, size: o.size, done: 0 }),
                ..s
            },
            None => s,
        },
        MessageView::FileReject => TransfersView { pending_outgoing: None, ..s },
        _ => s,
    }
}

/// What the caller is told to do after a message from the peer.
pub open spec fn event_for(s: TransfersView, m: MessageView) -> PeerEventView {
    match m {
        MessageView::Text(t) => PeerEventView::Text(t),
        MessageView::FileOffer { name, size } => PeerEventView::Offered { name, size },
        MessageView::FileChunk(d) => match s.incoming {
            Some(t) => if d.len() <= t.size - t.done {
                PeerEventView::Write(d)
            } else {
                PeerEventView::Overflow { name: t.name }
            },
            None => PeerEventView::Ignored,
        },
        MessageView::FileDone => match s.incoming {
            Some(t) => PeerEventView::Completed { name: t.name, size: t.size },
            None => PeerEventView::Ignored,
        },
        MessageView::FileCancel => match s.incoming {
            Some(t) => PeerEventView::CancelledIncoming { name: t.name },
            None => match s.outgoing {
                Some(t) => PeerEventView::CancelledOutgoing { name: t.name },
                None => PeerEventView::Ignored,
            },
        },
        MessageView::FileAccept => match s.pending_outgoing {
            Some(o) => PeerEventView::Accepted { name: o.name, size: o.size },
            None => PeerEventView::Ignored,
        },
        MessageView::FileReject => match s.pending_outgoing {
            Some(o) => PeerEventView::Rejected { name: o.name },
            None => PeerEventView::Ignored,
        },
        _ => PeerEventView::Ignored,
    }
}

/// The length of the next chunk once `done` of `size` bytes are sent.
pub open spec fn next_len(size: int, done: int) -> int {
    if size - done < CHUNK_SIZE {
        size - done
    } else {
        CHUNK_SIZE as int
    }
}

/// The bytes sent after `k` chunks, each as long as `next_len` directs.
pub open spec fn sent_after(size: int, k: nat) -> int
    decreases k,
{
    if k == 0 {
        0
    } else {
        sent_after(size, (k - 1) as nat) + next_len(size, sent_after(size, (k - 1) as nat))
    }
}

/// A file whose size is an exact multiple of `CHUNK_SIZE` goes out in
/// exactly that many full chunks, after which the next length is zero: no
/// empty chunk is needed and `FileDone` follows.
pub proof fn lemma_exact_multiple(m: nat)
    ensures
        forall|k: nat| k <= m ==> #[trigger] sent_after(m * CHUNK_SIZE, k) == k * CHUNK_SIZE,
        next_len(m * CHUNK_SIZE, sent_after(m * CHUNK_SIZE, m)) == 0,
{
    let size = m * CHUNK_SIZE;
    assert forall|k: nat| k <= m implies #[trigger] sent_after(size, k) == k * CHUNK_SIZE by {
        lemma_sent_after_full(m, k);
    }
    lemma_sent_after_full(m, m);
}

proof fn lemma_sent_after_full(m: nat, k: nat)
    requires
        k <= m,
    ensures
        sent_after(m * CHUNK_SIZE, k) == k * CHUNK_SIZE,
    decreases k,
{
    if k > 0 {
        lemma_sent_after_full(m, (k - 1) as nat);
        assert((m - (k - 1)) * CHUNK_SIZE >= CHUNK_SIZE) by (nonlinear_arith)
            requires
                k <= m,
                k >= 1,
        ;
        assert(m * CHUNK_SIZE - (k - 1) * CHUNK_SIZE == (m - (k - 1)) * CHUNK_SIZE) by (nonlinear_arith);
        assert((k - 1) * CHUNK_SIZE + CHUNK_SIZE == k * CHUNK_SIZE) by (nonlinear_arith);
    }
}

/// Every file is sent whole: after as many chunks as `CHUNK_SIZE` fits in
/// its size, rounded up, all bytes are out and the next length is zero.
pub proof fn lemma_all_sent(size: nat)
    ensures
        sent_after(size as int, chunks_for(size)) == size,
        next_len(size as int, sent_after(size as int, chunks_for(size))) == 0,
{
    lemma_sent_after_prefix(size, chunks_for(size));
}

/// How many chunks a file of `size` bytes takes.
pub open spec fn chunks_for(size: nat) -> nat {
    ((size + CHUNK_SIZE - 1) / (CHUNK_SIZE as int)) as nat
}

proof fn lemma_sent_after_prefix(size: nat, k: nat)
    requires
        k <= chunks_for(size),
    ensures
        sent_after(size as int, k) == if k * CHUNK_SIZE <= size { k * CHUNK_SIZE } else { size as int },
    decreases k,
{
    if k > 0 {
        lemma_sent_after_prefix(size, (k - 1) as nat);
        assert((k - 1) * CHUNK_SIZE < size) by (nonlinear_arith)
            requires
                k <= chunks_for(size),
                k >= 1,
                chunks_for(size) == (size + CHUNK_SIZE - 1) / (CHUNK_SIZE as int),
        ;
        assert((k - 1) * CHUNK_SIZE + CHUNK_SIZE == k * CHUNK_SIZE) by (nonlinear_arith);
    }
}

#[derive(Debug, Clone, Copy, PartialEq, Eq, Structural)]
pub enum AcceptError {
    /// An incoming transfer is already active.
    InProgress,
    /// The peer has no offer waiting.
    NoPending,
}

impl Transfers {
    pub fn new() -> (r: Transfers)
        ensures
            r@.pending_outgoing is None,
            r@.outgoing is None,
            r@.pending_incoming is None,
            r@.incoming is None,
    {
        Transfers { pending_outgoing: None, outgoing: None, pending_incoming: None, incoming: None }
    }

    /// No transfer has moved more bytes than it announced.
    pub fn is_consistent(&self) -> (r: bool)
        ensures
            r == self@.wf(),
    {
        let out_ok = match &self.outgoing {
            Some(t) => t.done <= t.size,
            None => true,
        };
        let in_ok = match &self.incoming {
            Some(t) => t.done <= t.size,
            None => true,
        };
        out_ok && in_ok
    }

    /// Applies one message from the peer and says what the caller must do.
    pub fn on_peer_message(&mut self, msg: ParsedMessage) -> (r: PeerEvent)
        requires
            old(self)@.wf(),
        ensures
            final(self)@ == state_after(old(self)@, msg@),
            r@ == event_for(old(self)@, msg@),
            final(self)@.wf(),
    {
        match msg {
            ParsedMessage::Text(t) => PeerEvent::Text(t),
            ParsedMessage::FileOffer { name, size } => {
                let shown = name.clone();
                self.pending_incoming = Some(FileOffer { name, size });
                PeerEvent::Offered { name: shown, size }
            },
            ParsedMessage::FileChunk(data) => {
                match self.incoming.take() {
                    Some(t) => {
                        if data.len() as u64 <= t.size - t.done {
                            self.incoming = Some(
                                Transfer { name: t.name, size: t.size, done: t.done + data.len() as u64 },
                            );
                            PeerEvent::Write(data)
                        } else {
                            PeerEvent::Overflow { name: t.name }
                        }
                    },
                    None => PeerEvent::Ignored,
                }
            },
            ParsedMessage::FileDone => match self.incoming.take() {
                Some(t) => PeerEvent::Completed { name: t.name, size: t.size },
                None => PeerEvent::Ignored,
            },
            ParsedMessage::FileCancel => match self.incoming.take() {
                Some(t) => PeerEvent::CancelledIncoming { name: t.name },
                None => match self.outgoing.take() {
                    Some(t) => PeerEvent::CancelledOutgoing { name: t.name },
                    None => PeerEvent::Ignored,
                },
            },
            ParsedMessage::FileAccept => match self.pending_outgoing.take() {
                Some(o) => {
                    let shown = o.name.clone();
                    self.outgoing = Some(Transfer { name: o.name, size: o.size, done: 0 });
                    PeerEvent::Accepted { name: shown, size: o.size }
                },
                None => PeerEvent::Ignored,
            },
            ParsedMessage::FileReject => match self.pending_outgoing.take() {
                Some(o) => PeerEvent::Rejected { name: o.name },
                None => PeerEvent::Ignored,
            },
            _ => PeerEvent::Ignored,
        }
    }

    /// Records the offer we just sent; it waits for the peer's answer.
    pub fn offer_sent(&mut self, name: String, size: u64)
        ensures
            final(self)@ == (TransfersView {
                pending_outgoing: Some(OfferView { name: name@, size }),
                ..old(self)@
            }),
    {
        self.pending_outgoing = Some(FileOffer { name, size });
    }

    /// The offer that `/accept` takes up, if the user may accept now. The
    /// state is unchanged: the caller answers the peer and opens the file,
    /// then calls `begin_incoming`.
    pub fn accept_pending(&self) -> (r: Result<FileOffer, AcceptError>)
        ensures
            self@.incoming is Some ==> r == Err::<FileOffer, AcceptError>(AcceptError::InProgress),
            self@.incoming is None && self@.pending_incoming is None ==> r == Err::<
                FileOffer,
                AcceptError,
            >(AcceptError::NoPending),
            self@.incoming is None && self@.pending_incoming is Some ==> r is Ok && r->Ok_0@
                == self@.pending_incoming->Some_0,
    {
        if self.incoming.is_some() {
            return Err(AcceptError::InProgress);
        }
        match &self.pending_incoming {
            Some(o) => Ok(FileOffer { name: o.name.clone(), size: o.size }),
            None => Err(AcceptError::NoPending),
        }
    }

    /// The accepted file is open: the incoming transfer starts and the
    /// offer is no longer pending.
    pub fn begin_incoming(&mut self, name: String, size: u64)
        ensures
            final(self)@ == (TransfersView {
                pending_incoming: None,
                incoming: Some(TransferView { name: name@, size, done: 0 }),
                ..old(self)@
            }),
    {
        self.pending_incoming = None;
        self.incoming = Some(Transfer { name, size, done: 0 });
    }

    /// `/reject`: drops the pending offer and hands it back, if there was one.
    pub fn reject_pending(&mut self) -> (r: Option<FileOffer>)
        ensures
            offer_view(r) == old(self)@.pending_incoming,
            final(self)@ == (TransfersView { pending_incoming: None, ..old(self)@ }),
    {
        self.pending_incoming.take()
    }

    /// Ends the incoming transfer (cancelled by the user, or a write
    /// failed) and hands it back, if there was one.
    pub fn cancel_incoming(&mut self) -> (r: Option<Transfer>)
        ensures
            transfer_view(r) == old(self)@.incoming,
            final(self)@ == (TransfersView { incoming: None, ..old(self)@ }),
    {
        self.incoming.take()
    }

    /// Ends the outgoing transfer (finished, cancelled, or failed) and
    /// hands it back, if there was one.
    pub fn finish_outgoing(&mut self) -> (r: Option<Transfer>)
        ensures
            transfer_view(r) == old(self)@.outgoing,
            final(self)@ == (TransfersView { outgoing: None, ..old(self)@ }),
    {
        self.outgoing.take()
    }

    /// How many bytes to read for the next chunk of the outgoing file: up
    /// to `CHUNK_SIZE`, never past the announced size. `Some(0)` means the
    /// file is complete and `FileDone` is due.
    pub fn next_chunk_len(&self) -> (r: Option<usize>)
        requires
            self@.wf(),
        ensures
            self@.outgoing is None ==> r is None,
            self@.outgoing is Some ==> r is Some && r->Some_0 as int == next_len(
                self@.outgoing->Some_0.size as int,
                self@.outgoing->Some_0.done as int,
            ),
    {
        match &self.outgoing {
            Some(t) => {
                let left = t.size - t.done;
                if left < CHUNK_SIZE as u64 {
                    Some(left as usize)
                } else {
                    Some(CHUNK_SIZE)
                }
            },
            None => None,
        }
    }

    /// Counts a chunk of `n` bytes that was read and sent.
    pub fn chunk_sent(&mut self, n: usize)
        requires
            old(self)@.wf(),
            old(self)@.outgoing is Some,
            n <= old(self)@.outgoing->Some_0.size - old(self)@.outgoing->Some_0.done,
        ensures
            final(self)@.wf(),
            final(self)@ == (TransfersView {
                outgoing: Some(
                    TransferView {
                        done: (old(self)@.outgoing->Some_0.done + n) as u64,
                        ..old(self)@.outgoing->Some_0
                    },
                ),
                ..old(self)@
            }),
    {
        match self.outgoing.take() {
            Some(t) => {
                self.outgoing = Some(Transfer { name: t.name, size: t.size, done: t.done + n as u64 });
            },
            None => {},
        }
    }
}

/// What the user typed, as a command.
pub enum Command {
    /// `/send PATH`: offer a file.
    SendFile(String),
    /// `/cancel`: cancel the incoming transfer.
    Cancel,
    /// `/accept`: accept the pending offer.
    Accept,
    /// `/reject`: reject the pending offer.
    Reject,
    /// Anything else: a text message.
    Say(String),
    /// A line that opens with NUL: as a message it would read as a control
    /// message, so it is not sent.
    Refused,
}

pub enum CommandView {
    SendFile(Seq<char>),
    Cancel,
    Accept,
    Reject,
    Say(Seq<char>),
    Refused,
}

impl View for Command {
    type V = CommandView;

    open spec fn view(&self) -> CommandView {
        match self {
            Command::SendFile(p) => CommandView::SendFile(p@),
            Command::Cancel => CommandView::Cancel,
            Command::Accept => CommandView::Accept,
            Command::Reject => CommandView::Reject,
            Command::Say(t) => CommandView::Say(t@),
            Command::Refused => CommandView::Refused,
        }
    }
}

pub open spec fn send_prefix() -> Seq<char> {
    seq!['/', 's', 'e', 'n', 'd', ' ']
}

pub open spec fn cancel_word() -> Seq<char> {
    seq!['/', 'c', 'a', 'n', 'c', 'e', 'l']
}

pub open spec fn accept_word() -> Seq<char> {
    seq!['/', 'a', 'c', 'c', 'e', 'p', 't']
}

pub open spec fn reject_word() -> Seq<char> {
    seq!['/', 'r', 'e', 'j', 'e', 'c', 't']
}

/// The command a submitted line stands for.
pub open spec fn command_of(line: Seq<char>) -> CommandView {
    if line.len() >= 6 && line.subrange(0, 6) == send_prefix() {
        CommandView::SendFile(line.subrange(6, line.len() as int))
    } else if line == cancel_word() {
        CommandView::Cancel
    } else if line == accept_word() {
        CommandView::Accept
    } else if line == reject_word() {
        CommandView::Reject
    } else if line.len() > 0 && line[0] == '\0' {
        CommandView::Refused
    } else {
        CommandView::Say(line)
    }
}

fn matches_at(cs: &Vec<char>, word: &Vec<char>) -> (r: bool)
    ensures
        r == (cs@.len() >= word@.len() && cs@.subrange(0, word@.len() as int) == word@),
{
    if cs.len() < word.len() {
        return false;
    }
    let mut i: usize = 0;
    while i < word.len()
        invariant
            word@.len() <= cs@.len(),
            i <= word@.len(),
            cs@.subrange(0, i as int) == word@.subrange(0, i as int),
        decreases word@.len() - i,
    {
        if cs[i] != word[i] {
            assert(cs@.subrange(0, word@.len() as int)[i as int] != word@[i as int]);
            return false;
        }
        i = i + 1;
        assert(cs@.subrange(0, i as int) =~= word@.subrange(0, i as int));
    }
    assert(word@.subrange(0, i as int) =~= word@);
    true
}

fn is_word(cs: &Vec<char>, word: &Vec<char>) -> (r: bool)
    ensures
        r == (cs@ == word@),
{
    let r = cs.len() == word.len() && matches_at(cs, word);
    proof {
        if cs@.len() == word@.len() {
            assert(cs@.subrange(0, word@.len() as int) =~= cs@);
        }
    }
    r
}

/// Reads a submitted line as one of the session commands.
pub fn parse_command(line: &str) -> (r: Command)
    ensures
        r@ == command_of(line@),
{
    let cs = chars_of(line);
    let send = vec!['/', 's', 'e', 'n', 'd', ' '];
    let cancel = vec!['/', 'c', 'a', 'n', 'c', 'e', 'l'];
    let accept = vec!['/', 'a', 'c', 'c', 'e', 'p', 't'];
    let reject = vec!['/', 'r', 'e', 'j', 'e', 'c', 't'];
    assert(send@ =~= send_prefix());
    assert(cancel@ =~= cancel_word());
    assert(accept@ =~= accept_word());
    assert(reject@ =~= reject_word());
    if matches_at(&cs, &send) {
        let mut path = String::new();
        crate::text::push_chars(&mut path, &cs, 6, cs.len());
        assert(path@ =~= line@.subrange(6, line@.len() as int));
        Command::SendFile(path)
    } else if is_word(&cs, &cancel) {
        Command::Cancel
    } else if is_word(&cs, &accept) {
        Command::Accept
    } else if is_word(&cs, &reject) {
        Command::Reject
    } else if cs.len() > 0 && cs[0] == '\0' {
        Command::Refused
    } else {
        Command::Say(crate::text::string_of(&cs))
    }
}

/// A non-empty text whose first character is not NUL has a first byte
/// other than the control prefix.
proof fn lemma_first_byte_not_prefix(t: Seq<char>)
    requires
        t.len() > 0,
        t[0] != '\0',
    ensures
        encode_utf8(t).len() > 0,
        encode_utf8(t)[0] != crate::protocol::CONTROL_PREFIX,
{
    let c = t[0];
    let v = c as u32;
    vstd::utf8::char_is_scalar(c);
    assert(encode_utf8(t) == encode_scalar(v) + encode_utf8(t.drop_first()));
    if v == 0 {
        vstd::utf8::char_u32_cast(c, v);
        assert(c == '\0');
    }
    if has_width_1_encoding(v) {
        assert(v & 0x7fu32 == v) by (bit_vector)
            requires
                v <= 0x7fu32,
        ;
    } else if has_width_2_encoding(v) {
        let x = ((v >> 6u32) & 0x1Fu32) as u8;
        assert(0xC0u8 | x != 0u8) by (bit_vector);
    } else if has_width_3_encoding(v) {
        let x = ((v >> 12u32) & 0x0Fu32) as u8;
        assert(0xE0u8 | x != 0u8) by (bit_vector);
    } else {
        let x = ((v >> 18u32) & 0x7u32) as u8;
        assert(0xF0u8 | x != 0u8) by (bit_vector);
    }
}

/// Every line that the session sends as a text message reaches the peer as
/// exactly that text: no sendable line can be mistaken for a control
/// message.
pub proof fn lemma_sent_text_arrives(line: Seq<char>)
    requires
        command_of(line) is Say,
    ensures
        parse_spec(encode_spec(MessageView::Text(command_of(line)->Say_0))) == MessageView::Text(
            command_of(line)->Say_0,
        ),
{
    if line.len() > 0 {
        lemma_first_byte_not_prefix(line);
    }
    lemma_text_round_trip(line);
}

} // verus!
