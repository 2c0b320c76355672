//! The tagged application messages carried inside one sealed frame each.
//!
//! Every control message starts with the prefix byte 0x00 followed by a tag
//! byte; anything else is user text.

use vstd::prelude::*;
use vstd::utf8::{decode_utf8, encode_utf8, valid_utf8};
use crate::bytes::{append_bytes, be64, copy_range, from_be64, lemma_be64_round_trip, push_be64, read_be64};

verus! {

broadcast use vstd::utf8::encode_utf8_decode_utf8, vstd::utf8::encode_utf8_valid_utf8;

/// The byte that opens every control message.
pub const CONTROL_PREFIX: u8 = 0x00;
pub const OFFER_TAG: u8 = 0x46;
pub const CHUNK_TAG: u8 = 0x43;
pub const DONE_TAG: u8 = 0x44;
pub const CANCEL_TAG: u8 = 0x58;
pub const MSG_FILE_ACCEPT: u8 = 0x05;
pub const MSG_FILE_REJECT: u8 = 0x06;
pub const MSG_TYPING_START: u8 = 0x07;
pub const MSG_TYPING_STOP: u8 = 0x08;
pub const MSG_DELIVERED: u8 = 0x09;

/// What `String::from_utf8_lossy` makes of bytes that are not valid UTF-8.
pub uninterp spec fn replaced_utf8(b: Seq<u8>) -> Seq<char>;

/// The characters that lossy UTF-8 decoding gives for `b`.
pub open spec fn lossy_utf8(b: Seq<u8>) -> Seq<char> {
    if valid_utf8(b) {
        decode_utf8(b)
    } else {
        replaced_utf8(b)
    }
}

/// Relies on `String::from_utf8_lossy`: valid UTF-8 comes back decoded and
/// unchanged; other input is decoded with replacement characters.
#[verifier::external_body]
pub(crate) fn text_from_bytes(b: &[u8]) -> (r: String)
    ensures
        valid_utf8(b@) ==> r@ == decode_utf8(b@),
        !valid_utf8(b@) ==> r@ == replaced_utf8(b@),
{
    String::from_utf8_lossy(b).to_string()
}

/// The model of a decoded application message.
pub enum MessageView {
    Text(Seq<char>),
    FileOffer { name: Seq<char>, size: u64 },
    FileAccept,
    FileReject,
    FileChunk(Seq<u8>),
    FileDone,
    FileCancel,
    TypingStart,
    TypingStop,
    Delivered,
}

#[derive(Debug, PartialEq, Eq)]
pub enum ParsedMessage {
    Text(String),
    FileOffer { name: String, size: u64 },
    FileAccept,
    FileReject,
    FileChunk(Vec<u8>),
    FileDone,
    FileCancel,
    TypingStart,
    TypingStop,
    Delivered,
}

impl View for ParsedMessage {
    type V = MessageView;

    open spec fn view(&self) -> MessageView {
        match self {
            ParsedMessage::Text(s) => MessageView::Text(s@),
            ParsedMessage::FileOffer { name, size } => MessageView::FileOffer {
                name: name@,
                size: *size,
            },
            ParsedMessage::FileAccept => MessageView::FileAccept,
            ParsedMessage::FileReject => MessageView::FileReject,
            ParsedMessage::FileChunk(d) => MessageView::FileChunk(d@),
            ParsedMessage::FileDone => MessageView::FileDone,
            ParsedMessage::FileCancel => MessageView::FileCancel,
            ParsedMessage::TypingStart => MessageView::TypingStart,
            ParsedMessage::TypingStop => MessageView::TypingStop,
            ParsedMessage::Delivered => MessageView::Delivered,
        }
    }
}

/// A two-byte control message.
pub open spec fn control(tag: u8) -> Seq<u8> {
    seq![CONTROL_PREFIX, tag]
}

/// The wire bytes of a message.
pub open spec fn encode_spec(m: MessageView) -> Seq<u8> {
    match m {
        MessageView::Text(s) => encode_utf8(s),
        MessageView::FileOffer { name, size } => control(OFFER_TAG) + be64(size) + encode_utf8(
            name,
        ),
        MessageView::FileAccept => control(MSG_FILE_ACCEPT),
        MessageView::FileReject => control(MSG_FILE_REJECT),
        MessageView::FileChunk(d) => control(CHUNK_TAG) + d,
        MessageView::FileDone => control(DONE_TAG),
        MessageView::FileCancel => control(CANCEL_TAG),
        MessageView::TypingStart => control(MSG_TYPING_START),
        MessageView::TypingStop => control(MSG_TYPING_STOP),
        MessageView::Delivered => control(MSG_DELIVERED),
    }
}

/// The message that the bytes `b` decode to.
pub open spec fn parse_spec(b: Seq<u8>) -> MessageView {
    if b.len() >= 2 && b[0] == CONTROL_PREFIX {
        let tag = b[1];
        if tag == OFFER_TAG && b.len() >= 10 {
            MessageView::FileOffer {
                name: lossy_utf8(b.subrange(10, b.len() as int)),
                size: from_be64(b.subrange(2, 10)),
            }
        } else if tag == CHUNK_TAG {
            MessageView::FileChunk(b.subrange(2, b.len() as int))
        } else if tag == DONE_TAG {
            MessageView::FileDone
        } else if tag == CANCEL_TAG {
            MessageView::FileCancel
        } else if tag == MSG_FILE_ACCEPT {
            MessageView::FileAccept
        } else if tag == MSG_FILE_REJECT {
            MessageView::FileReject
        } else if tag == MSG_TYPING_START {
            MessageView::TypingStart
        } else if tag == MSG_TYPING_STOP {
            MessageView::TypingStop
        } else if tag == MSG_DELIVERED {
            MessageView::Delivered
        } else {
            MessageView::Text(lossy_utf8(b))
        }
    } else {
        MessageView::Text(lossy_utf8(b))
    }
}

fn control_message(tag: u8) -> (r: Vec<u8>)
    ensures
        r@ == control(tag),
{
    let v = vec![CONTROL_PREFIX, tag];
    assert(v@ =~= control(tag));
    v
}

pub fn encode_typing_start() -> (r: Vec<u8>)
    ensures
        r@ == encode_spec(MessageView::TypingStart),
{
    control_message(MSG_TYPING_START)
}

pub fn encode_typing_stop() -> (r: Vec<u8>)
    ensures
        r@ == encode_spec(MessageView::TypingStop),
{
    control_message(MSG_TYPING_STOP)
}

pub fn encode_delivered() -> (r: Vec<u8>)
    ensures
        r@ == encode_spec(MessageView::Delivered),
{
    control_message(MSG_DELIVERED)
}

pub fn encode_accept() -> (r: Vec<u8>)
    ensures
        r@ == encode_spec(MessageView::FileAccept),
{
    control_message(MSG_FILE_ACCEPT)
}

pub fn encode_reject() -> (r: Vec<u8>)
    ensures
        r@ == encode_spec(MessageView::FileReject),
{
    control_message(MSG_FILE_REJECT)
}

pub fn encode_offer(name: &str, size: u64) -> (r: Vec<u8>)
    ensures
        r@ == encode_spec(MessageView::FileOffer { name: name@, size }),
{
    let mut msg = control_message(OFFER_TAG);
    push_be64(&mut msg, size);
    append_bytes(&mut msg, name.as_bytes());
    msg
}

pub fn encode_chunk(data: &[u8]) -> (r: Vec<u8>)
    ensures
        r@ == encode_spec(MessageView::FileChunk(data@)),
{
    let mut msg = control_message(CHUNK_TAG);
    append_bytes(&mut msg, data);
    msg
}

pub fn encode_done() -> (r: Vec<u8>)
    ensures
        r@ == encode_spec(MessageView::FileDone),
{
    control_message(DONE_TAG)
}

pub fn encode_cancel() -> (r: Vec<u8>)
    ensures
        r@ == encode_spec(MessageView::FileCancel),
{
    control_message(CANCEL_TAG)
}

/// The bytes of a text message: its UTF-8 encoding.
pub fn encode_text(text: &str) -> (r: Vec<u8>)
    ensures
        r@ == encode_spec(MessageView::Text(text@)),
{
    let mut msg: Vec<u8> = Vec::new();
    append_bytes(&mut msg, text.as_bytes());
    assert(msg@ =~= encode_utf8(text@));
    msg
}

pub fn parse_message(data: &[u8]) -> (r: ParsedMessage)
    ensures
        r@ == parse_spec(data@),
{
    if data.len() >= 2 && data[0] == CONTROL_PREFIX {
        let tag = data[1];
        if tag == OFFER_TAG && data.len() >= 10 {
            let size = read_be64(data, 2);
            let name_bytes = copy_range(data, 10, data.len());
            let name = text_from_bytes(name_bytes.as_slice());
            ParsedMessage::FileOffer { name, size }
        } else if tag == CHUNK_TAG {
            ParsedMessage::FileChunk(copy_range(data, 2, data.len()))
        } else if tag == DONE_TAG {
            ParsedMessage::FileDone
        } else if tag == CANCEL_TAG {
            ParsedMessage::FileCancel
        } else if tag == MSG_FILE_ACCEPT {
            ParsedMessage::FileAccept
        } else if tag == MSG_FILE_REJECT {
            ParsedMessage::FileReject
        } else if tag == MSG_TYPING_START {
            ParsedMessage::TypingStart
        } else if tag == MSG_TYPING_STOP {
            ParsedMessage::TypingStop
        } else if tag == MSG_DELIVERED {
            ParsedMessage::Delivered
        } else {
            ParsedMessage::Text(text_from_bytes(data))
        }
    } else {
        ParsedMessage::Text(text_from_bytes(data))
    }
}

/// Every control message decodes back to itself.
pub proof fn lemma_control_round_trip(m: MessageView)
    requires
        !(m is Text),
    ensures
        parse_spec(encode_spec(m)) == m,
{
    match m {
        MessageView::FileOffer { name, size } => {
            let b = encode_spec(m);
            lemma_be64_round_trip(size);
            assert(b.subrange(2, 10) =~= be64(size));
            assert(b.subrange(10, b.len() as int) =~= encode_utf8(name));
        },
        MessageView::FileChunk(d) => {
            let b = encode_spec(m);
            assert(b.subrange(2, b.len() as int) =~= d);
        },
        _ => {},
    }
}

/// A text whose encoding does not start with the control prefix decodes back
/// to itself.
pub proof fn lemma_text_round_trip(s: Seq<char>)
    requires
        encode_utf8(s).len() == 0 || encode_utf8(s)[0] != CONTROL_PREFIX,
    ensures
        parse_spec(encode_spec(MessageView::Text(s))) == MessageView::Text(s),
{
}

/// Decoding after encoding is the identity on every control message and on
/// every text that does not open with the control prefix, so encoding is
/// injective there.
pub proof fn lemma_encode_injective(m1: MessageView, m2: MessageView)
    requires
        !(m1 is Text) || encode_spec(m1).len() == 0 || encode_spec(m1)[0] != CONTROL_PREFIX,
        !(m2 is Text) || encode_spec(m2).len() == 0 || encode_spec(m2)[0] != CONTROL_PREFIX,
        encode_spec(m1) == encode_spec(m2),
    ensures
        m1 == m2,
{
    if m1 is Text {
        lemma_text_round_trip(m1->Text_0);
    } else {
        lemma_control_round_trip(m1);
    }
    if m2 is Text {
        lemma_text_round_trip(m2->Text_0);
    } else {
        lemma_control_round_trip(m2);
    }
}

} // verus!
